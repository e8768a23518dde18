use random_file_server::file::File;
use random_file_server::listing::{
    write_file, write_pager_link, write_preview, Listing, FILES_PER_PAGE,
};

fn text(chars: &[char]) -> String {
    chars.iter().collect()
}

fn numbered(count: usize) -> Vec<File> {
    (1..=count).map(|n| File::new(format!("files/f{}.txt", n), 1)).collect()
}

fn paths(files: &[File]) -> Vec<String> {
    files.iter().map(|file| file.path.clone()).collect()
}

#[test]
fn the_page_size_is_twenty() {
    assert_eq!(FILES_PER_PAGE, 20);
}

#[test]
fn forty_five_files_make_three_pages() {
    let files = numbered(45);
    let listing = Listing::new(&files, 3);
    assert_eq!(listing.total_files(), 45);
    assert_eq!(listing.total_pages(), 3);
    assert_eq!(listing.page(), 3);
    assert_eq!(
        paths(listing.files()),
        vec!["files/f41.txt", "files/f42.txt", "files/f43.txt", "files/f44.txt", "files/f45.txt"]
    );
}

#[test]
fn full_pages_hold_twenty_files() {
    let files = numbered(45);
    let first = Listing::new(&files, 1);
    assert_eq!(first.files().len(), 20);
    assert_eq!(first.files()[0].path, "files/f1.txt");
    assert_eq!(first.files()[19].path, "files/f20.txt");
    let second = Listing::new(&files, 2);
    assert_eq!(second.files().len(), 20);
    assert_eq!(second.files()[0].path, "files/f21.txt");
    assert_eq!(second.files()[19].path, "files/f40.txt");
}

#[test]
fn page_zero_shows_page_one() {
    let files = numbered(45);
    let zero = Listing::new(&files, 0);
    let one = Listing::new(&files, 1);
    assert_eq!(paths(zero.files()), paths(one.files()));
    assert_eq!(zero.page(), 1);
    assert_eq!(zero.total_pages(), 3);
    assert_eq!(zero.total_files(), one.total_files());
    assert_eq!(zero.total_size(), one.total_size());
    assert_eq!(text(&zero.paginator_elements()), text(&one.paginator_elements()));
    assert_eq!(zero.html("{paginator_elements}{file_elements}"), one.html("{paginator_elements}{file_elements}"));
}

#[test]
fn a_page_behind_the_last_is_empty_but_has_its_pager() {
    let files = numbered(45);
    for page in [4, 5, 1000, usize::MAX / 20 + 2, usize::MAX] {
        let listing = Listing::new(&files, page);
        assert_eq!(listing.files().len(), 0);
        assert_eq!(listing.total_pages(), 3);
        assert_eq!(text(&listing.file_elements()), "");
        assert_eq!(
            text(&listing.paginator_elements()),
            "<a href=\"?page=1\">1</a><a href=\"?page=2\">2</a><a href=\"?page=3\">3</a>"
        );
    }
}

#[test]
fn page_counts_round_up() {
    for (files, pages) in [(0, 0), (1, 1), (19, 1), (20, 1), (21, 2), (40, 2), (41, 3), (100, 5)] {
        assert_eq!(Listing::new(&numbered(files), 1).total_pages(), pages, "{} files", files);
    }
}

#[test]
fn no_files_make_no_pages() {
    let listing = Listing::new(&[], 1);
    assert_eq!(listing.total_files(), 0);
    assert_eq!(listing.total_size(), 0);
    assert_eq!(listing.total_pages(), 0);
    assert_eq!(listing.files().len(), 0);
    assert_eq!(text(&listing.paginator_elements()), "");
    assert_eq!(text(&listing.info_element()), "<div>0 total files - 0 B</div>");
}

#[test]
fn the_total_size_adds_up_every_file() {
    let files = vec![
        File::new("a".to_string(), 1000),
        File::new("b".to_string(), 500),
        File::new("c".to_string(), 0),
    ];
    let listing = Listing::new(&files, 9);
    assert_eq!(listing.total_size(), 1500);
    assert_eq!(text(&listing.info_element()), "<div>3 total files - 1.50 kB</div>");
}

#[test]
fn the_total_size_wraps_round() {
    let files = vec![File::new("a".to_string(), u64::MAX), File::new("b".to_string(), 3)];
    assert_eq!(Listing::new(&files, 1).total_size(), 2);
}

#[test]
fn the_info_line_groups_the_count() {
    let files = numbered(1234);
    let listing = Listing::new(&files, 1);
    assert_eq!(text(&listing.info_element()), "<div>1,234 total files - 1.23 kB</div>");
}

#[test]
fn the_pager_marks_the_page_shown() {
    let files = numbered(45);
    assert_eq!(
        text(&Listing::new(&files, 2).paginator_elements()),
        "<a href=\"?page=1\">1</a><a class=\"current\">2</a><a href=\"?page=3\">3</a>"
    );
    assert_eq!(
        text(&Listing::new(&files, 0).paginator_elements()),
        "<a class=\"current\">1</a><a href=\"?page=2\">2</a><a href=\"?page=3\">3</a>"
    );
    assert_eq!(
        text(&Listing::new(&files, 4).paginator_elements()),
        "<a href=\"?page=1\">1</a><a href=\"?page=2\">2</a><a href=\"?page=3\">3</a>"
    );
    let mut out = vec!['x'];
    write_pager_link(&mut out, 12, 12);
    write_pager_link(&mut out, 13, 12);
    assert_eq!(text(&out), "x<a class=\"current\">12</a><a href=\"?page=13\">13</a>");
}

#[test]
fn a_file_block_shows_name_preview_and_facts() {
    let mut out = Vec::new();
    write_file(&mut out, &File::new("files/a b.png".to_string(), 2500));
    assert_eq!(
        text(&out),
        "<div class=\"file\"><a href=\"files/a b.png\" target=\"_blank\">a b.png</a>\
         <img src=\"files/a b.png\" /><div>image/png - 2.50 kB</div></div>"
    );
}

#[test]
fn the_preview_follows_the_kind_of_file() {
    let mut out = Vec::new();
    write_preview(&mut out, &File::new("files/s.mp3".to_string(), 1));
    assert_eq!(text(&out), "<audio src=\"files/s.mp3\" controls></audio>");
    let mut out = Vec::new();
    write_preview(&mut out, &File::new("files/v.mp4".to_string(), 1));
    assert_eq!(text(&out), "<video src=\"files/v.mp4\" controls></video>");
    let mut out = Vec::new();
    write_preview(&mut out, &File::new("files/p.jpg".to_string(), 1));
    assert_eq!(text(&out), "<img src=\"files/p.jpg\" />");
    let mut out = Vec::new();
    write_preview(&mut out, &File::new("files/t.txt".to_string(), 1));
    assert_eq!(text(&out), "<img />");
}

#[test]
fn file_elements_list_the_page_in_order() {
    let files = vec![File::new("files/b.txt".to_string(), 1), File::new("files/a".to_string(), 2)];
    let listing = Listing::new(&files, 1);
    assert_eq!(
        text(&listing.file_elements()),
        "<div class=\"file\"><a href=\"files/b.txt\" target=\"_blank\">b.txt</a><img />\
         <div>text/plain - 1 B</div></div>\
         <div class=\"file\"><a href=\"files/a\" target=\"_blank\">a</a><img />\
         <div>application/octet-stream - 2 B</div></div>"
    );
}

#[test]
fn html_fills_the_template() {
    let files = vec![File::new("files/a.txt".to_string(), 5)];
    let listing = Listing::new(&files, 1);
    let page = listing.html("<h1>{info_element}</h1><nav>{paginator_elements}</nav>{file_elements}!");
    assert_eq!(
        page,
        "<h1><div>1 total files - 5 B</div></h1><nav><a class=\"current\">1</a></nav>\
         <div class=\"file\"><a href=\"files/a.txt\" target=\"_blank\">a.txt</a><img />\
         <div>text/plain - 5 B</div></div>!"
    );
    assert_eq!(listing.html("plain"), "plain");
}

#[test]
fn html_fills_a_placeholder_wherever_it_stands() {
    let listing = Listing::new(&[], 1);
    assert_eq!(
        listing.html("{info_element}|{info_element}|{file_elements}|{paginator_elements}"),
        "<div>0 total files - 0 B</div>|<div>0 total files - 0 B</div>||"
    );
}
