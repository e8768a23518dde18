use random_file_server::config::Config;
use random_file_server::file::File;
use random_file_server::random_file_server::{
    RandomFileServer, RefreshError, Reply, ScanEntry, ServeError,
};

fn entry(path: &str, is_file: bool, size: Option<u64>) -> ScanEntry {
    ScanEntry { path: path.to_string(), is_file, size }
}

fn scan_of(paths: &[&str]) -> Option<Vec<ScanEntry>> {
    Some(paths.iter().map(|path| entry(path, true, Some(1))).collect())
}

fn serving(non_repeat: bool, listing_path: Option<&str>, paths: &[&str]) -> RandomFileServer {
    let config = Config::get(
        None,
        None,
        Some(if non_repeat { "true" } else { "false" }),
        listing_path,
    );
    let mut server = RandomFileServer::new(config);
    if !paths.is_empty() {
        assert_eq!(server.refresh_files(scan_of(paths), 1000), Ok(()));
    }
    server
}

fn paths(files: &[File]) -> Vec<&str> {
    files.iter().map(|file| file.path.as_str()).collect()
}

fn served(reply: Result<Reply, ServeError>) -> String {
    match reply {
        Ok(Reply::File(file)) => file.path,
        Ok(Reply::Listing(_)) => panic!("a listing"),
        Ok(Reply::Ignored) => panic!("ignored"),
        Err(error) => panic!("{:?}", error),
    }
}

#[test]
fn a_new_server_has_no_files() {
    let server = RandomFileServer::new(Config::get(Some("81"), Some("5"), None, None));
    assert_eq!(server.files().len(), 0);
    assert_eq!(server.files_used().len(), 0);
    assert_eq!(server.files_last_updated(), 0);
    assert_eq!(server.config().port, 81);
    assert_eq!(server.config().cache_ttl_secs, 5);
}

#[test]
fn a_refresh_is_due_when_the_time_to_live_has_passed() {
    let server = serving(false, None, &["files/a"]);
    assert_eq!(server.files_last_updated(), 1000);
    assert!(!server.needs_refresh(0));
    assert!(!server.needs_refresh(1000));
    assert!(!server.needs_refresh(1299));
    assert!(server.needs_refresh(1300));
    assert!(server.needs_refresh(u64::MAX));
}

#[test]
fn a_new_server_is_due_after_its_time_to_live() {
    let server = RandomFileServer::new(Config::get(None, Some("300"), None, None));
    assert!(!server.needs_refresh(299));
    assert!(server.needs_refresh(300));
    let always = RandomFileServer::new(Config::get(None, Some("0"), None, None));
    assert!(always.needs_refresh(0));
}

#[test]
fn a_time_to_live_beyond_all_time_is_never_due() {
    let config = Config::get(None, Some("18446744073709551615"), None, None);
    let mut server = RandomFileServer::new(config);
    assert!(!server.needs_refresh(u64::MAX - 1));
    assert!(server.needs_refresh(u64::MAX));
    assert_eq!(server.refresh_files(scan_of(&["files/a"]), 5), Ok(()));
    assert_eq!(server.files().len(), 0);
    assert_eq!(server.refresh_files(scan_of(&["files/a"]), u64::MAX), Ok(()));
    assert_eq!(paths(server.files()), vec!["files/a"]);
    assert_eq!(server.files_last_updated(), u64::MAX);
    assert!(!server.needs_refresh(u64::MAX));
    assert_eq!(server.refresh_files(None, u64::MAX), Ok(()));
    assert_eq!(server.refresh_files(scan_of(&["files/b"]), u64::MAX), Ok(()));
    assert_eq!(paths(server.files()), vec!["files/a"]);
}

#[test]
fn a_refresh_before_the_time_to_live_has_passed_changes_nothing() {
    let mut server = serving(true, None, &["files/b", "files/a"]);
    assert_eq!(server.pick_at(0).path, "files/b");
    for now in [0, 999, 1000, 1001, 1299] {
        assert_eq!(server.refresh_files(scan_of(&["files/c", "files/d"]), now), Ok(()));
        assert_eq!(server.refresh_files(Some(Vec::new()), now), Ok(()));
        assert_eq!(server.refresh_files(None, now), Ok(()));
        assert_eq!(paths(server.files()), vec!["files/b", "files/a"]);
        assert_eq!(paths(server.files_used()), vec!["files/b"]);
        assert_eq!(server.files_last_updated(), 1000);
    }
    assert_eq!(server.refresh_files(scan_of(&["files/c", "files/d"]), 1300), Ok(()));
    assert_eq!(paths(server.files()), vec!["files/d", "files/c"]);
    assert_eq!(server.files_last_updated(), 1300);
}

#[test]
fn a_new_server_takes_no_scan_before_its_time_to_live() {
    let mut server = RandomFileServer::new(Config::get(None, Some("300"), None, None));
    assert_eq!(server.refresh_files(scan_of(&["files/a"]), 299), Ok(()));
    assert_eq!(server.refresh_files(None, 299), Ok(()));
    assert_eq!(server.files().len(), 0);
    assert_eq!(server.files_last_updated(), 0);
    assert_eq!(server.refresh_files(scan_of(&["files/a"]), 300), Ok(()));
    assert_eq!(server.files().len(), 1);
}

#[test]
fn a_refresh_lists_the_regular_files_in_order() {
    let mut server = RandomFileServer::new(Config::get(None, None, None, None));
    let scan = vec![
        entry("files/a.txt", true, Some(3)),
        entry("files/dir", false, None),
        entry("files/b.jpg", true, Some(4)),
        entry("files/locked", true, None),
        entry("files/link", false, Some(9)),
        entry("files/C.png", true, Some(5)),
    ];
    assert_eq!(server.refresh_files(Some(scan), 1077), Ok(()));
    assert_eq!(paths(server.files()), vec!["files/C.png", "files/b.jpg", "files/a.txt"]);
    assert_eq!(server.files()[0].size, 5);
    assert_eq!(server.files()[0].mime.text, "image/png");
    assert_eq!(server.files()[2].size, 3);
    assert_eq!(server.files_last_updated(), 1077);
}

#[test]
fn numbered_files_are_listed_in_descending_natural_order() {
    let server = serving(false, None, &["files/img1.png", "files/img2.png", "files/img10.png"]);
    assert_eq!(
        paths(server.files()),
        vec!["files/img10.png", "files/img2.png", "files/img1.png"]
    );
}

#[test]
fn an_empty_scan_keeps_the_snapshot() {
    let mut server = serving(false, None, &["files/b", "files/a"]);
    assert_eq!(server.refresh_files(Some(Vec::new()), 5000), Err(RefreshError::NoFiles));
    assert_eq!(paths(server.files()), vec!["files/b", "files/a"]);
    assert_eq!(server.files_last_updated(), 1000);
    assert!(server.needs_refresh(5000));
}

#[test]
fn a_scan_without_regular_files_keeps_the_snapshot() {
    let mut server = serving(false, None, &["files/a"]);
    let scan = vec![entry("files/dir", false, None), entry("files/locked", true, None)];
    assert_eq!(server.refresh_files(Some(scan), 5000), Err(RefreshError::NoFiles));
    assert_eq!(paths(server.files()), vec!["files/a"]);
    assert_eq!(server.files_last_updated(), 1000);
}

#[test]
fn an_unreadable_directory_keeps_the_snapshot() {
    let mut server = serving(false, None, &["files/a"]);
    assert_eq!(server.refresh_files(None, 5000), Err(RefreshError::DirectoryUnreadable));
    assert_eq!(paths(server.files()), vec!["files/a"]);
    assert_eq!(server.files_last_updated(), 1000);
}

#[test]
fn a_later_refresh_replaces_the_snapshot() {
    let mut server = serving(false, None, &["files/a", "files/b"]);
    assert_eq!(server.refresh_files(scan_of(&["files/c"]), 2000), Ok(()));
    assert_eq!(paths(server.files()), vec!["files/c"]);
    assert_eq!(server.files_last_updated(), 2000);
}

#[test]
fn errors_have_their_words() {
    assert_eq!(RefreshError::NoFiles.message(), "No files found");
    assert_eq!(RefreshError::DirectoryUnreadable.message(), "Directory cannot be read");
    assert_eq!(ServeError::NotFound.message(), "File not found");
    assert_eq!(ServeError::EmptySet.message(), "No files available");
}

#[test]
fn get_file_finds_a_file_by_its_exact_path() {
    let server = serving(false, None, &["files/a.txt", "files/b.txt"]);
    assert_eq!(server.get_file("files/a.txt").map(|file| file.path.as_str()), Some("files/a.txt"));
    assert!(server.get_file("files/A.txt").is_none());
    assert!(server.get_file("a.txt").is_none());
    assert!(server.get_file("files/a.txt ").is_none());
    assert!(server.get_file("").is_none());
}

#[test]
fn the_icon_gets_no_answer() {
    let mut server = serving(true, Some("list"), &["files/a"]);
    assert!(matches!(server.handle("/favicon.ico"), Ok(Reply::Ignored)));
    assert_eq!(server.files_used().len(), 0);
}

#[test]
fn a_file_request_is_answered_with_that_file() {
    let mut server = serving(true, Some("list"), &["files/a.txt", "files/my file.txt"]);
    assert_eq!(served(server.handle("/files/a.txt")), "files/a.txt");
    assert_eq!(served(server.handle("/files/my%20file.txt")), "files/my file.txt");
    assert_eq!(server.files_used().len(), 0);
}

#[test]
fn a_plus_in_a_file_request_is_taken_out() {
    let mut server = serving(false, Some("list"), &["files/ab.txt", "files/a b.txt", "files/a+b.txt"]);
    assert_eq!(served(server.handle("/files/a+b.txt")), "files/ab.txt");
    let mut spaced = serving(false, Some("list"), &["files/a b.txt", "files/a+b.txt"]);
    assert!(matches!(spaced.handle("/files/a+b.txt"), Err(ServeError::NotFound)));
}

#[test]
fn a_file_that_is_not_stored_is_not_found() {
    let mut server = serving(false, Some("list"), &["files/a.txt"]);
    assert!(matches!(server.handle("/files/b.txt"), Err(ServeError::NotFound)));
    assert!(matches!(server.handle("/files/"), Err(ServeError::NotFound)));
}

#[test]
fn without_a_snapshot_every_route_fails_for_want_of_files() {
    for non_repeat in [false, true] {
        let mut empty = serving(non_repeat, Some("list"), &[]);
        for url in ["/files/a.txt", "/files/", "/list", "/list?page=2", "/", "/other"] {
            assert!(matches!(empty.handle(url), Err(ServeError::EmptySet)), "{:?}", url);
        }
        assert!(matches!(empty.handle("/favicon.ico"), Ok(Reply::Ignored)));
        assert_eq!(empty.files().len(), 0);
        assert_eq!(empty.files_used().len(), 0);
    }
}

#[test]
fn a_failed_first_refresh_leaves_every_route_failing() {
    let mut server = RandomFileServer::new(Config::get(None, None, None, Some("list")));
    assert_eq!(server.refresh_files(None, 1000), Err(RefreshError::DirectoryUnreadable));
    assert_eq!(server.refresh_files(Some(Vec::new()), 1000), Err(RefreshError::NoFiles));
    assert!(server.needs_refresh(1000));
    assert!(matches!(server.handle("/list"), Err(ServeError::EmptySet)));
    assert!(matches!(server.handle("/"), Err(ServeError::EmptySet)));
}

#[test]
fn a_listing_request_is_answered_with_its_page() {
    let names: Vec<String> = (1..=45).map(|n| format!("files/f{}", n)).collect();
    let names: Vec<&str> = names.iter().map(|name| name.as_str()).collect();
    let mut server = serving(false, Some("list"), &names);
    match server.handle("/list?page=3") {
        Ok(Reply::Listing(listing)) => {
            assert_eq!(listing.page(), 3);
            assert_eq!(listing.total_files(), 45);
            assert_eq!(listing.total_pages(), 3);
            assert_eq!(
                paths(listing.files()),
                vec!["files/f5", "files/f4", "files/f3", "files/f2", "files/f1"]
            );
        }
        _ => panic!("no listing"),
    }
    match server.handle("/list") {
        Ok(Reply::Listing(listing)) => {
            assert_eq!(listing.page(), 1);
            assert_eq!(listing.files().len(), 20);
            assert_eq!(listing.files()[0].path, "files/f45");
        }
        _ => panic!("no listing"),
    }
}

#[test]
fn page_zero_of_the_listing_is_page_one() {
    let mut server = serving(false, Some("list"), &["files/a", "files/b"]);
    match server.handle("/list?page=0") {
        Ok(Reply::Listing(listing)) => {
            assert_eq!(listing.page(), 1);
            assert_eq!(paths(listing.files()), vec!["files/b", "files/a"]);
        }
        _ => panic!("no listing"),
    }
}

#[test]
fn a_slash_in_the_query_of_a_listing_request_is_no_matter() {
    let names: Vec<String> = (1..=45).map(|n| format!("files/f{}", n)).collect();
    let names: Vec<&str> = names.iter().map(|name| name.as_str()).collect();
    let mut server = serving(false, Some("list"), &names);
    match server.handle("/list?page=2&ref=a/b") {
        Ok(Reply::Listing(listing)) => {
            assert_eq!(listing.page(), 2);
            assert_eq!(listing.files().len(), 20);
            assert_eq!(listing.files()[0].path, "files/f25");
            assert_eq!(listing.files()[19].path, "files/f6");
        }
        _ => panic!("no listing"),
    }
}

#[test]
fn any_other_request_is_answered_with_a_file_of_the_snapshot() {
    let mut server = serving(false, Some("list"), &["files/a", "files/b", "files/c"]);
    for url in ["/", "/random", "/lists", "/file/a", "/?page=2"] {
        let path = served(server.handle(url));
        assert!(["files/a", "files/b", "files/c"].contains(&path.as_str()));
    }
    assert_eq!(server.files_used().len(), 0);
}

#[test]
fn a_pick_from_no_files_fails() {
    for non_repeat in [false, true] {
        let mut server = serving(non_repeat, None, &[]);
        assert_eq!(server.pool_len(), 0);
        assert!(matches!(server.pick(), Err(ServeError::EmptySet)));
        assert!(matches!(server.handle("/"), Err(ServeError::EmptySet)));
        assert_eq!(server.files_used().len(), 0);
    }
}

#[test]
fn without_repeats_a_round_picks_every_file_once() {
    let names = ["files/a", "files/b", "files/c", "files/d", "files/e"];
    let mut server = serving(true, None, &names);
    for _ in 0..20 {
        let mut round: Vec<String> = Vec::new();
        for left in (1..=names.len()).rev() {
            assert_eq!(server.pool_len(), left);
            round.push(server.pick().unwrap().path);
        }
        round.sort();
        assert_eq!(round, names);
        assert_eq!(server.files_used().len(), names.len());
        assert_eq!(server.unused_indices().len(), 0);
        assert_eq!(server.pool_len(), names.len());
    }
}

#[test]
fn without_repeats_the_pick_after_a_round_starts_the_next() {
    let mut server = serving(true, None, &["files/a", "files/b"]);
    served(server.handle("/"));
    served(server.handle("/"));
    assert_eq!(server.files_used().len(), 2);
    let next = served(server.handle("/"));
    assert_eq!(paths(server.files_used()), vec![next.as_str()]);
}

#[test]
fn pick_at_takes_the_file_at_that_place_of_the_pool() {
    let mut server = serving(true, None, &["files/a", "files/b", "files/c"]);
    assert_eq!(paths(server.files()), vec!["files/c", "files/b", "files/a"]);
    assert_eq!(server.pick_at(1).path, "files/b");
    assert!(server.is_used("files/b"));
    assert!(!server.is_used("files/a"));
    assert_eq!(server.unused_indices(), vec![0, 2]);
    assert_eq!(server.pick_at(1).path, "files/a");
    assert_eq!(server.unused_indices(), vec![0]);
    assert_eq!(server.pick_at(0).path, "files/c");
    assert_eq!(paths(server.files_used()), vec!["files/b", "files/a", "files/c"]);
    assert_eq!(server.unused_indices(), Vec::<usize>::new());
    assert_eq!(server.pool_len(), 3);
    assert_eq!(server.pick_at(2).path, "files/a");
    assert_eq!(paths(server.files_used()), vec!["files/a"]);
}

#[test]
fn with_repeats_pick_at_marks_nothing() {
    let mut server = serving(false, None, &["files/a", "files/b"]);
    assert_eq!(server.pick_at(0).path, "files/b");
    assert_eq!(server.pick_at(0).path, "files/b");
    assert_eq!(server.pick_at(1).path, "files/a");
    assert_eq!(server.files_used().len(), 0);
    assert_eq!(server.pool_len(), 2);
}

#[test]
fn used_files_that_left_the_snapshot_do_not_count() {
    let mut server = serving(true, None, &["files/a", "files/b"]);
    assert_eq!(server.pick_at(0).path, "files/b");
    assert_eq!(server.refresh_files(scan_of(&["files/a", "files/c"]), 2000), Ok(()));
    assert_eq!(paths(server.files_used()), vec!["files/b"]);
    assert_eq!(server.pool_len(), 2);
    assert_eq!(server.pick_at(0).path, "files/c");
    assert_eq!(server.pick_at(0).path, "files/a");
    assert_eq!(server.pool_len(), 2);
}

#[test]
fn with_repeats_every_file_is_picked_about_equally_often() {
    let names = ["files/a", "files/b", "files/c", "files/d"];
    let mut server = serving(false, None, &names);
    let mut counts = [0usize; 4];
    for _ in 0..8000 {
        let path = server.pick().unwrap().path;
        counts[names.iter().position(|name| *name == path).unwrap()] += 1;
    }
    for count in counts {
        assert!(count > 1700 && count < 2300, "{:?}", counts);
    }
    assert_eq!(server.files_used().len(), 0);
}

#[test]
fn requests_do_not_change_the_snapshot() {
    let mut server = serving(true, Some("list"), &["files/a", "files/b", "files/c"]);
    for url in ["/", "/list", "/files/a", "/favicon.ico", "/", "/", "/", "/files/x"] {
        let _ = server.handle(url);
        assert_eq!(paths(server.files()), vec!["files/c", "files/b", "files/a"]);
        assert_eq!(server.files_last_updated(), 1000);
    }
}
