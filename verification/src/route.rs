//! Which of the server's answers a request's URL asks for.

use crate::number::{parse_unsigned, parsed_unsigned};
use crate::text::{
    after_first, before_first, chars_of, collect_string, has_prefix, head_before_first,
    replace_all, replaced, same_chars, starts_with, tail_after_first, trim_both, trim_matches,
};
use vstd::prelude::*;

verus! {

/// What a request asks for.
#[derive(Debug)]
pub enum Route {
    /// A request for the site's icon: it gets no answer.
    Ignored,
    /// The file that is stored under this path.
    File(String),
    /// This page of the listing.
    Listing(usize),
    /// Any file, picked at random.
    Random,
}

/// What a route holds.
pub enum RouteView {
    Ignored,
    File(Seq<char>),
    Listing(nat),
    Random,
}

impl View for Route {
    type V = RouteView;

    open spec fn view(&self) -> RouteView {
        match self {
            Route::Ignored => RouteView::Ignored,
            Route::File(path) => RouteView::File(path@),
            Route::Listing(page) => RouteView::Listing(*page as nat),
            Route::Random => RouteView::Random,
        }
    }
}

/// The URL asks for the site's icon.
pub open spec fn is_icon_request(url: Seq<char>) -> bool {
    has_prefix(url, "/favicon.ico"@)
}

/// The URL lies under the prefix that serves single files.
pub open spec fn is_file_request(url: Seq<char>) -> bool {
    has_prefix(url, "/files/"@)
}

/// The URL, without its query, names the listing: the two are equal once
/// the slashes at their ends are taken off.
pub open spec fn is_listing_request(listing_path: Seq<char>, url: Seq<char>) -> bool {
    trim_both(before_first(url, '?'), '/') == trim_both(listing_path, '/')
}

/// The stored path that a URL under the file prefix asks for: the URL
/// without the slashes at its ends, each `%20` turned into a space and
/// each `+` taken out.
pub open spec fn requested_path(url: Seq<char>) -> Seq<char> {
    replaced(replaced(trim_both(url, '/'), "%20"@, " "@), "+"@, ""@)
}

/// The query of a URL: what follows its first `?`, nothing where it has
/// none.
pub open spec fn query_of(url: Seq<char>) -> Seq<char> {
    after_first(url, "?"@)
}

/// The text of the page number in a listing URL: in its query, what stands
/// between the first `page=` and the next `&`.
pub open spec fn page_text(url: Seq<char>) -> Seq<char> {
    before_first(after_first(query_of(url), "page="@), '&')
}

/// The page that a listing URL asks for: 1 where it names none that can
/// be read.
pub open spec fn requested_page(url: Seq<char>) -> nat {
    match parsed_unsigned(page_text(url), usize::MAX as nat) {
        Some(page) => page,
        None => 1,
    }
}

/// The route of a request for `url` on a server whose listing, if it has
/// one, is at `listing_path`.
pub open spec fn route_of(listing_path: Option<Seq<char>>, url: Seq<char>) -> RouteView {
    if is_icon_request(url) {
        RouteView::Ignored
    } else if listing_path is Some && is_file_request(url) {
        RouteView::File(requested_path(url))
    } else if listing_path is Some && is_listing_request(listing_path->0, url) {
        RouteView::Listing(requested_page(url))
    } else {
        RouteView::Random
    }
}

/// The stored path that a URL asks for is the URL, trimmed and with its
/// escaped spaces restored, without its plus signs: each `+` is taken out,
/// none is turned into a space.
pub proof fn law_plus_is_taken_out(url: Seq<char>)
    ensures
        requested_path(url) == replaced(trim_both(url, '/'), "%20"@, " "@).filter(
            |c: char| c != '+',
        ),
        !requested_path(url).contains('+'),
{
    reveal_strlit("+");
    reveal_strlit("");
    let spaced = replaced(trim_both(url, '/'), "%20"@, " "@);
    let keep = |c: char| c != '+';
    assert("+"@ == seq!['+']);
    assert(""@ == Seq::<char>::empty());
    crate::text::lemma_replaced_by_nothing(spaced, '+');
    if spaced.filter(keep).contains('+') {
        let i = choose|i: int| 0 <= i < spaced.filter(keep).len() && spaced.filter(keep)[i] == '+';
        spaced.lemma_filter_pred(keep, i);
    }
}

/// Tests whether `url` asks for the site's icon.
pub fn is_favicon(url: &str) -> (icon: bool)
    ensures
        icon == is_icon_request(url@),
{
    let chars = chars_of(url);
    let prefix = chars_of("/favicon.ico");
    starts_with(chars.as_slice(), prefix.as_slice())
}

/// Decodes the stored path out of a URL under the file prefix.
pub fn decode_path(url: &[char]) -> (path: Vec<char>)
    ensures
        path@ == requested_path(url@),
{
    let inner = trim_matches(url, '/');
    let escaped_space = chars_of("%20");
    let space = chars_of(" ");
    let plus = chars_of("+");
    let nothing = chars_of("");
    let spaced = replace_all(inner.as_slice(), escaped_space.as_slice(), space.as_slice());
    replace_all(spaced.as_slice(), plus.as_slice(), nothing.as_slice())
}

/// Reads the page number out of a listing URL.
pub fn parse_page(url: &[char]) -> (page: usize)
    ensures
        page == requested_page(url@),
{
    let mark = chars_of("?");
    let query = tail_after_first(url, mark.as_slice());
    let key = chars_of("page=");
    let value = tail_after_first(query.as_slice(), key.as_slice());
    let number = head_before_first(value.as_slice(), '&');
    match parse_unsigned(number.as_slice(), usize::MAX as u64) {
        Some(page) => page as usize,
        None => 1,
    }
}

/// Decides what a request for `url` asks for.
pub fn route(listing_path: Option<&str>, url: &str) -> (route: Route)
    ensures
        route@ == route_of(
            match listing_path {
                Some(path) => Some(path@),
                None => None,
            },
            url@,
        ),
{
    let chars = chars_of(url);
    let icon = chars_of("/favicon.ico");
    if starts_with(chars.as_slice(), icon.as_slice()) {
        return Route::Ignored;
    }
    match listing_path {
        Some(path) => {
            let files = chars_of("/files/");
            if starts_with(chars.as_slice(), files.as_slice()) {
                let stored = decode_path(chars.as_slice());
                return Route::File(collect_string(stored.as_slice()));
            }
            let asked = head_before_first(chars.as_slice(), '?');
            let asked = trim_matches(asked.as_slice(), '/');
            let listing = chars_of(path);
            let listing = trim_matches(listing.as_slice(), '/');
            if same_chars(asked.as_slice(), listing.as_slice()) {
                return Route::Listing(parse_page(chars.as_slice()));
            }
            Route::Random
        },
        None => Route::Random,
    }
}

} // verus!
