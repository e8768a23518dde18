//! The server's settings and how they are read from the text of four
//! variables.

use crate::number::{parse_unsigned, parsed_unsigned};
use crate::text::{chars_of, collect_string, push_all, same_chars, slice_of, trim_both, trim_matches};
use vstd::prelude::*;

verus! {

/// The port that is used where none is set.
pub const DEFAULT_PORT: u16 = 8000;

/// The time in seconds for which a snapshot is kept where none is set.
pub const DEFAULT_CACHE_TTL_SECS: u64 = 300;

/// The settings of a server.
#[derive(Debug)]
pub struct Config {
    pub port: u16,
    pub cache_ttl_secs: u64,
    pub non_repeat: bool,
    pub listing_path: Option<String>,
}

/// What a `Config` holds.
pub struct ConfigView {
    pub port: u16,
    pub cache_ttl_secs: u64,
    pub non_repeat: bool,
    pub listing_path: Option<Seq<char>>,
}

impl View for Config {
    type V = ConfigView;

    open spec fn view(&self) -> ConfigView {
        ConfigView {
            port: self.port,
            cache_ttl_secs: self.cache_ttl_secs,
            non_repeat: self.non_repeat,
            listing_path: match self.listing_path {
                Some(path) => Some(path@),
                None => None,
            },
        }
    }
}

/// `c` is white space: one of the characters to which Unicode gives the
/// property `White_Space`.
pub open spec fn is_whitespace(c: char) -> bool {
    ||| '\u{9}' <= c <= '\u{d}'
    ||| c == ' '
    ||| c == '\u{85}'
    ||| c == '\u{a0}'
    ||| c == '\u{1680}'
    ||| '\u{2000}' <= c <= '\u{200a}'
    ||| c == '\u{2028}'
    ||| c == '\u{2029}'
    ||| c == '\u{202f}'
    ||| c == '\u{205f}'
    ||| c == '\u{3000}'
}

/// Tests whether `c` is white space.
pub fn is_space(c: char) -> (space: bool)
    ensures
        space == is_whitespace(c),
{
    (c >= '\u{9}' && c <= '\u{d}') || c == ' ' || c == '\u{85}' || c == '\u{a0}' || c
        == '\u{1680}' || (c >= '\u{2000}' && c <= '\u{200a}') || c == '\u{2028}' || c
        == '\u{2029}' || c == '\u{202f}' || c == '\u{205f}' || c == '\u{3000}'
}

/// `text` in lower case, by Unicode's rules for whole texts.
pub uninterp spec fn lowercased(text: Seq<char>) -> Seq<char>;

/// Trusted: `str::to_lowercase`. The standard library maps the text by the
/// Unicode property `Lowercase`, which depends on the text alone; the
/// contract names the result and says no more.
#[verifier::external_body]
pub(crate) fn to_lowercase(text: &str) -> (lower: String)
    ensures
        lower@ == lowercased(text@),
{
    text.to_lowercase()
}

/// `s` without its leading white space.
pub open spec fn without_leading_space(s: Seq<char>) -> Seq<char>
    decreases s.len(),
{
    if s.len() > 0 && is_whitespace(s[0]) {
        without_leading_space(s.drop_first())
    } else {
        s
    }
}

/// `s` without its trailing white space.
pub open spec fn without_trailing_space(s: Seq<char>) -> Seq<char>
    decreases s.len(),
{
    if s.len() > 0 && is_whitespace(s.last()) {
        without_trailing_space(s.drop_last())
    } else {
        s
    }
}

/// `s` without the white space at its two ends.
pub open spec fn trimmed(s: Seq<char>) -> Seq<char> {
    without_trailing_space(without_leading_space(s))
}

/// Strips the white space from both ends of `s`.
pub fn trim(s: &[char]) -> (out: Vec<char>)
    ensures
        out@ == trimmed(s@),
{
    let mut from: usize = 0;
    assert(s@.skip(0) == s@);
    while from < s.len() && is_space(s[from])
        invariant
            from <= s.len(),
            without_leading_space(s@) == without_leading_space(s@.skip(from as int)),
        decreases s.len() - from,
    {
        assert(s@.skip(from as int).drop_first() == s@.skip(from + 1));
        from += 1;
    }
    let mut to: usize = s.len();
    while to > from && is_space(s[to - 1])
        invariant
            from <= to <= s.len(),
            trimmed(s@) == without_trailing_space(s@.subrange(from as int, to as int)),
        decreases to - from,
    {
        assert(s@.subrange(from as int, to as int).drop_last() == s@.subrange(
            from as int,
            to - 1,
        ));
        to -= 1;
    }
    slice_of(s, from, to)
}

/// The port that the text of its variable sets: the number that the text
/// denotes between its white space, the default where the variable is
/// missing or denotes no port.
pub open spec fn port_of(var: Option<Seq<char>>) -> u16 {
    match var {
        Some(text) => match parsed_unsigned(trimmed(text), u16::MAX as nat) {
            Some(n) => n as u16,
            None => DEFAULT_PORT,
        },
        None => DEFAULT_PORT,
    }
}

/// The time to live that the text of its variable sets, read as the port is.
pub open spec fn cache_ttl_of(var: Option<Seq<char>>) -> u64 {
    match var {
        Some(text) => match parsed_unsigned(trimmed(text), u64::MAX as nat) {
            Some(n) => n as u64,
            None => DEFAULT_CACHE_TTL_SECS,
        },
        None => DEFAULT_CACHE_TTL_SECS,
    }
}

/// Whether the text of its variable switches repeats off: it does where it
/// reads `true` between its white space, in whatever case.
pub open spec fn non_repeat_of(var: Option<Seq<char>>) -> bool {
    match var {
        Some(text) => lowercased(trimmed(text)) == "true"@,
        None => false,
    }
}

/// The listing path that the text of its variable sets: the text between
/// its white space, and none where nothing is left.
pub open spec fn listing_path_of(var: Option<Seq<char>>) -> Option<Seq<char>> {
    match var {
        Some(text) => if trimmed(text).len() == 0 {
            None
        } else {
            Some(trimmed(text))
        },
        None => None,
    }
}

/// The view of an optional text.
pub open spec fn text_of(var: Option<&str>) -> Option<Seq<char>> {
    match var {
        Some(text) => Some(text@),
        None => None,
    }
}

/// Reads an unsigned number from the text of a variable.
fn number_of(var: Option<&str>, max: u64, default: u64) -> (n: u64)
    requires
        default <= max,
    ensures
        n <= max,
        n == match text_of(var) {
            Some(text) => match parsed_unsigned(trimmed(text), max as nat) {
                Some(n) => n as u64,
                None => default,
            },
            None => default,
        },
{
    match var {
        Some(text) => {
            let chars = chars_of(text);
            let inner = trim(chars.as_slice());
            match parse_unsigned(inner.as_slice(), max) {
                Some(n) => n,
                None => default,
            }
        },
        None => default,
    }
}

impl Config {
    /// The settings that the texts of the four variables give. A variable
    /// that is not set is `None`.
    pub fn get(
        port: Option<&str>,
        cache_ttl_secs: Option<&str>,
        non_repeat: Option<&str>,
        listing_path: Option<&str>,
    ) -> (config: Config)
        ensures
            config@ == (ConfigView {
                port: port_of(text_of(port)),
                cache_ttl_secs: cache_ttl_of(text_of(cache_ttl_secs)),
                non_repeat: non_repeat_of(text_of(non_repeat)),
                listing_path: listing_path_of(text_of(listing_path)),
            }),
    {
        let port_number: u64 = number_of(port, u16::MAX as u64, DEFAULT_PORT as u64);
        let ttl: u64 = number_of(cache_ttl_secs, u64::MAX, DEFAULT_CACHE_TTL_SECS);
        let no_repeats: bool = match non_repeat {
            Some(text) => {
                let chars = chars_of(text);
                let inner = collect_string(trim(chars.as_slice()).as_slice());
                let lower = chars_of(to_lowercase(inner.as_str()).as_str());
                let wanted = chars_of("true");
                same_chars(lower.as_slice(), wanted.as_slice())
            },
            None => false,
        };
        let path: Option<String> = match listing_path {
            Some(text) => {
                let chars = chars_of(text);
                let inner = trim(chars.as_slice());
                if inner.len() == 0 {
                    None
                } else {
                    Some(collect_string(inner.as_slice()))
                }
            },
            None => None,
        };
        Config {
            port: port_number as u16,
            cache_ttl_secs: ttl,
            non_repeat: no_repeats,
            listing_path: path,
        }
    }

    /// The URL under which the listing is served, where there is one: a
    /// slash and the listing path without the slashes at its ends.
    pub fn listing_url(&self) -> (url: Option<String>)
        ensures
            match self@.listing_path {
                Some(path) => (url matches Some(text) && text@ == seq!['/'] + trim_both(path, '/')),
                None => url is None,
            },
    {
        match &self.listing_path {
            Some(path) => {
                let chars = chars_of(path.as_str());
                let inner = trim_matches(chars.as_slice(), '/');
                let mut url: Vec<char> = vec!['/'];
                push_all(&mut url, inner.as_slice());
                Some(collect_string(url.as_slice()))
            },
            None => None,
        }
    }
}

} // verus!
