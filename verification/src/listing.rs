//! One page of the file listing and the HTML that shows it.

use crate::file::{views, File, FileView};
use crate::number::{decimal, decimal_chars};
use crate::text::{chars_of, collect_string, push_all, push_text, replace_all, replaced, same_chars};
use crate::traits::{group_thousands, with_commas};
use vstd::prelude::*;

verus! {

/// The number of files that one page lists.
pub const FILES_PER_PAGE: usize = 20;

/// The sizes of `files` added up, wrapping round at the range of `u64`.
pub open spec fn total_size(files: Seq<FileView>) -> u64
    decreases files.len(),
{
    if files.len() == 0 {
        0
    } else {
        total_size(files.drop_last()).wrapping_add(files.last().size)
    }
}

/// The number of pages that `total_files` files fill: the quotient by the
/// page size, rounded up.
pub open spec fn total_pages(total_files: nat) -> nat {
    (total_files + FILES_PER_PAGE - 1) as nat / (FILES_PER_PAGE as nat)
}

/// The index of the first file of page `page`. Pages count from 1, and
/// page 0 stands for page 1.
pub open spec fn page_start(page: nat) -> nat {
    if page <= 1 {
        0
    } else {
        ((page - 1) * FILES_PER_PAGE) as nat
    }
}

/// The files that page `page` lists: none where the page lies behind the
/// last one.
pub open spec fn page_files(files: Seq<FileView>, page: nat) -> Seq<FileView> {
    let from = if page_start(page) < files.len() {
        page_start(page)
    } else {
        files.len()
    };
    let to = if from + FILES_PER_PAGE < files.len() {
        from + FILES_PER_PAGE
    } else {
        files.len() as int
    };
    files.subrange(from as int, to)
}

/// The pages are as many as it takes to hold every file: none for no file,
/// and else the last page is the one that holds the last file.
pub proof fn law_page_count(total_files: nat)
    ensures
        total_files == 0 <==> total_pages(total_files) == 0,
        total_files > 0 ==> (total_pages(total_files) - 1) * FILES_PER_PAGE < total_files
            <= total_pages(total_files) * FILES_PER_PAGE,
{
}

/// Page 0 stands for page 1 in every part of the listing. A page up to
/// the last one shows its
/// twenty files, the last page what is left of them, and at least one. A
/// page behind the last one shows nothing.
pub proof fn law_page_files(files: Seq<FileView>, page: nat)
    ensures
        listing_of(files, 0) == listing_of(files, 1),
        1 <= page <= total_pages(files.len()) ==> page_files(files, page).len() > 0
            && page_files(files, page) == files.subrange(
            (page - 1) * FILES_PER_PAGE,
            if page * FILES_PER_PAGE < files.len() {
                page * FILES_PER_PAGE
            } else {
                files.len() as int
            },
        ),
        page > total_pages(files.len()) ==> page_files(files, page).len() == 0,
{
    let pages = total_pages(files.len());
    if page > pages && page > 1 {
        assert((page - 1) * FILES_PER_PAGE >= files.len()) by (nonlinear_arith)
            requires
                page - 1 >= pages,
                pages * FILES_PER_PAGE >= files.len(),
                FILES_PER_PAGE == 20,
        ;
    }
    if 1 <= page <= pages {
        assert((page - 1) * FILES_PER_PAGE < files.len()) by (nonlinear_arith)
            requires
                1 <= page <= pages,
                (pages - 1) * FILES_PER_PAGE < files.len(),
                FILES_PER_PAGE == 20,
        ;
    }
}

/// What a listing holds.
pub struct ListingView {
    /// The files of the page, in snapshot order.
    pub files: Seq<FileView>,
    pub total_files: nat,
    pub total_size: u64,
    pub total_pages: nat,
    /// The page that is shown: the page asked for, and page 1 for page 0.
    pub page: nat,
}

/// The page that is shown where `page` is asked for: pages count from 1,
/// and page 0 stands for page 1.
pub open spec fn shown_page(page: nat) -> nat {
    if page == 0 {
        1
    } else {
        page
    }
}

/// The listing of page `page` of `files`.
pub open spec fn listing_of(files: Seq<FileView>, page: nat) -> ListingView {
    ListingView {
        files: page_files(files, page),
        total_files: files.len(),
        total_size: total_size(files),
        total_pages: total_pages(files.len()),
        page: shown_page(page),
    }
}

/// One page of a snapshot, with the totals of the whole snapshot.
pub struct Listing {
    files: Vec<File>,
    total_files: usize,
    total_size: u64,
    total_pages: usize,
    page: usize,
}

impl View for Listing {
    type V = ListingView;

    closed spec fn view(&self) -> ListingView {
        ListingView {
            files: views(self.files@),
            total_files: self.total_files as nat,
            total_size: self.total_size,
            total_pages: self.total_pages as nat,
            page: self.page as nat,
        }
    }
}

/// The size `size` as `humansize` writes it with decimal units, such as
/// `1.50 kB`.
pub uninterp spec fn formatted_size(size: u64) -> Seq<char>;

/// Trusted: `humansize::format_size` with the options `humansize::DECIMAL`.
/// It scales the number by powers of 1000 and writes it with a unit; the text
/// depends on the number alone, so the contract names it and says no more.
#[verifier::external_body]
pub(crate) fn format_size(size: u64) -> (text: String)
    ensures
        text@ == formatted_size(size),
{
    humansize::format_size(size, humansize::DECIMAL)
}

/// The last component of the path `path`, empty where it has none.
pub uninterp spec fn file_name(path: Seq<char>) -> Seq<char>;

/// Trusted: `std::path::Path::file_name`. The standard library takes the
/// final component out of the path's text by the rules of the platform that
/// the library is built for, and reads nothing but that text; where there is
/// no final component the wrapper hands back the empty text.
#[verifier::external_body]
pub(crate) fn file_name_of(path: &str) -> (name: String)
    ensures
        name@ == file_name(path@),
{
    std::path::Path::new(path).file_name().unwrap_or_default().to_string_lossy().into_owned()
}

/// The line that sums up the snapshot.
pub open spec fn info_html(total_files: nat, total_size: u64) -> Seq<char> {
    "<div>"@ + with_commas(decimal(total_files)) + " total files - "@ + formatted_size(total_size)
        + "</div>"@
}

/// The pager's entry for page `n`, marked where `n` is the page shown.
pub open spec fn pager_link(n: nat, current: nat) -> Seq<char> {
    if n == current {
        "<a class=\"current\">"@ + decimal(n) + "</a>"@
    } else {
        "<a href=\"?page="@ + decimal(n) + "\">"@ + decimal(n) + "</a>"@
    }
}

/// The pager's entries for the pages 1 to `pages`.
pub open spec fn pager_html(pages: nat, current: nat) -> Seq<char>
    decreases pages,
{
    if pages == 0 {
        Seq::empty()
    } else {
        pager_html((pages - 1) as nat, current) + pager_link(pages, current)
    }
}

/// What goes with a file's link: a player for sound and film, the picture
/// for an image, an empty picture for anything else.
pub open spec fn preview_html(file: FileView) -> Seq<char> {
    let kind = file.mime.kind;
    if kind == "audio"@ || kind == "video"@ {
        "<"@ + kind + " src=\""@ + file.path + "\" controls></"@ + kind + ">"@
    } else if kind == "image"@ {
        "<img src=\""@ + file.path + "\" />"@
    } else {
        "<img />"@
    }
}

/// The block that shows one file.
pub open spec fn file_html(file: FileView) -> Seq<char> {
    "<div class=\"file\">"@ + "<a href=\""@ + file.path + "\" target=\"_blank\">"@ + file_name(
        file.path,
    ) + "</a>"@ + preview_html(file) + "<div>"@ + file.mime.text + " - "@ + formatted_size(
        file.size,
    ) + "</div>"@ + "</div>"@
}

/// The blocks of `files`, one after the other.
pub open spec fn files_html(files: Seq<FileView>) -> Seq<char>
    decreases files.len(),
{
    if files.len() == 0 {
        Seq::empty()
    } else {
        files_html(files.drop_last()) + file_html(files.last())
    }
}

/// `template` with its three placeholders filled in, one after the other.
pub open spec fn page_html(listing: ListingView, template: Seq<char>) -> Seq<char> {
    replaced(
        replaced(
            replaced(
                template,
                "{info_element}"@,
                info_html(listing.total_files, listing.total_size),
            ),
            "{paginator_elements}"@,
            pager_html(listing.total_pages, listing.page),
        ),
        "{file_elements}"@,
        files_html(listing.files),
    )
}

/// Writes the pager's entry for page `n`.
pub fn write_pager_link(out: &mut Vec<char>, n: usize, current: usize)
    ensures
        final(out)@ == old(out)@ + pager_link(n as nat, current as nat),
{
    let number = decimal_chars(n as u64);
    if n == current {
        push_text(out, "<a class=\"current\">");
        push_all(out, number.as_slice());
        push_text(out, "</a>");
    } else {
        push_text(out, "<a href=\"?page=");
        push_all(out, number.as_slice());
        push_text(out, "\">");
        push_all(out, number.as_slice());
        push_text(out, "</a>");
        assert(out@ == old(out)@ + ("<a href=\"?page="@ + decimal(n as nat) + "\">"@ + decimal(
            n as nat,
        ) + "</a>"@));
    }
}

/// Writes what goes with the link of `file`.
pub fn write_preview(out: &mut Vec<char>, file: &File)
    ensures
        final(out)@ == old(out)@ + preview_html(file@),
{
    let kind = chars_of(file.mime.kind.as_str());
    let audio = chars_of("audio");
    let video = chars_of("video");
    let image = chars_of("image");
    if same_chars(kind.as_slice(), audio.as_slice()) || same_chars(
        kind.as_slice(),
        video.as_slice(),
    ) {
        push_text(out, "<");
        push_all(out, kind.as_slice());
        push_text(out, " src=\"");
        push_text(out, file.path.as_str());
        push_text(out, "\" controls></");
        push_all(out, kind.as_slice());
        push_text(out, ">");
        assert(out@ == old(out)@ + ("<"@ + kind@ + " src=\""@ + file.path@ + "\" controls></"@
            + kind@ + ">"@));
    } else if same_chars(kind.as_slice(), image.as_slice()) {
        push_text(out, "<img src=\"");
        push_text(out, file.path.as_str());
        push_text(out, "\" />");
    } else {
        push_text(out, "<img />");
    }
}

/// Writes the block that shows `file`.
pub fn write_file(out: &mut Vec<char>, file: &File)
    ensures
        final(out)@ == old(out)@ + file_html(file@),
{
    let name = file_name_of(file.path.as_str());
    let size = format_size(file.size);
    let mut block: Vec<char> = Vec::new();
    push_text(&mut block, "<div class=\"file\">");
    push_text(&mut block, "<a href=\"");
    push_text(&mut block, file.path.as_str());
    push_text(&mut block, "\" target=\"_blank\">");
    push_text(&mut block, name.as_str());
    push_text(&mut block, "</a>");
    write_preview(&mut block, file);
    push_text(&mut block, "<div>");
    push_text(&mut block, file.mime.text.as_str());
    push_text(&mut block, " - ");
    push_text(&mut block, size.as_str());
    push_text(&mut block, "</div>");
    push_text(&mut block, "</div>");
    push_all(out, block.as_slice());
}

impl Listing {
    /// The listing of page `page` of `files`.
    pub fn new(files: &[File], page: usize) -> (listing: Listing)
        ensures
            listing@ == listing_of(views(files@), page as nat),
    {
        let total_files: usize = files.len();
        let ghost given = views(files@);
        let mut size: u64 = 0;
        let mut i: usize = 0;
        while i < total_files
            invariant
                i <= total_files == files.len(),
                given == views(files@),
                size == total_size(given.take(i as int)),
            decreases total_files - i,
        {
            assert(given.take(i + 1).drop_last() == given.take(i as int));
            size = size.wrapping_add(files[i].size);
            i += 1;
        }
        assert(given.take(total_files as int) == given);
        let pages: usize = total_files / FILES_PER_PAGE + if total_files % FILES_PER_PAGE == 0 {
            0
        } else {
            1
        };
        let page: usize = if page == 0 {
            1
        } else {
            page
        };
        let skipped: usize = page - 1;
        let from: usize = if skipped <= total_files / FILES_PER_PAGE {
            let start: usize = skipped * FILES_PER_PAGE;
            if start < total_files {
                start
            } else {
                total_files
            }
        } else {
            total_files
        };
        let to: usize = if total_files - from > FILES_PER_PAGE {
            from + FILES_PER_PAGE
        } else {
            total_files
        };
        let mut shown: Vec<File> = Vec::new();
        let mut k: usize = from;
        while k < to
            invariant
                from <= k <= to <= files.len(),
                given == views(files@),
                views(shown@) == given.subrange(from as int, k as int),
            decreases to - k,
        {
            shown.push(files[k].clone());
            k += 1;
            assert(given.subrange(from as int, k as int) == given.subrange(
                from as int,
                k - 1,
            ).push(given[k - 1]));
        }
        Listing { files: shown, total_files, total_size: size, total_pages: pages, page }
    }

    /// The files of the page.
    pub fn files(&self) -> (files: &Vec<File>)
        ensures
            views(files@) == self@.files,
    {
        &self.files
    }

    /// The number of files in the snapshot.
    pub fn total_files(&self) -> (n: usize)
        ensures
            n == self@.total_files,
    {
        self.total_files
    }

    /// The size of all files of the snapshot together.
    pub fn total_size(&self) -> (n: u64)
        ensures
            n == self@.total_size,
    {
        self.total_size
    }

    /// The number of pages in the snapshot.
    pub fn total_pages(&self) -> (n: usize)
        ensures
            n == self@.total_pages,
    {
        self.total_pages
    }

    /// The page that is shown.
    pub fn page(&self) -> (n: usize)
        ensures
            n == self@.page,
    {
        self.page
    }

    /// The line that sums up the snapshot.
    pub fn info_element(&self) -> (out: Vec<char>)
        ensures
            out@ == info_html(self@.total_files, self@.total_size),
    {
        let count = decimal_chars(self.total_files as u64);
        let grouped = group_thousands(count.as_slice());
        let size = format_size(self.total_size);
        let mut out: Vec<char> = Vec::new();
        push_text(&mut out, "<div>");
        push_all(&mut out, grouped.as_slice());
        push_text(&mut out, " total files - ");
        push_text(&mut out, size.as_str());
        push_text(&mut out, "</div>");
        out
    }

    /// The pager: one entry for each page of the snapshot.
    pub fn paginator_elements(&self) -> (out: Vec<char>)
        ensures
            out@ == pager_html(self@.total_pages, self@.page),
    {
        let mut out: Vec<char> = Vec::new();
        let mut n: usize = 0;
        while n < self.total_pages
            invariant
                n <= self.total_pages,
                out@ == pager_html(n as nat, self.page as nat),
            decreases self.total_pages - n,
        {
            n += 1;
            write_pager_link(&mut out, n, self.page);
        }
        out
    }

    /// The blocks of the files of the page.
    pub fn file_elements(&self) -> (out: Vec<char>)
        ensures
            out@ == files_html(self@.files),
    {
        let mut out: Vec<char> = Vec::new();
        let mut i: usize = 0;
        let ghost shown = views(self.files@);
        while i < self.files.len()
            invariant
                i <= self.files.len(),
                shown == views(self.files@),
                out@ == files_html(shown.take(i as int)),
            decreases self.files.len() - i,
        {
            assert(shown.take(i + 1).drop_last() == shown.take(i as int));
            write_file(&mut out, &self.files[i]);
            i += 1;
        }
        assert(shown.take(self.files.len() as int) == shown);
        out
    }

    /// The page as HTML: `template` with `{info_element}`,
    /// `{paginator_elements}` and `{file_elements}` replaced, in this order.
    pub fn html(&self, template: &str) -> (page: String)
        ensures
            page@ == page_html(self@, template@),
    {
        let info = self.info_element();
        let pager = self.paginator_elements();
        let blocks = self.file_elements();
        let text = chars_of(template);
        let info_mark = chars_of("{info_element}");
        let pager_mark = chars_of("{paginator_elements}");
        let blocks_mark = chars_of("{file_elements}");
        let first = replace_all(text.as_slice(), info_mark.as_slice(), info.as_slice());
        let second = replace_all(first.as_slice(), pager_mark.as_slice(), pager.as_slice());
        let third = replace_all(second.as_slice(), blocks_mark.as_slice(), blocks.as_slice());
        collect_string(third.as_slice())
    }
}

} // verus!
