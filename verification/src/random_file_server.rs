//! The server's state and its decisions: when the snapshot is due for a
//! refresh, what a scan of the directory makes of it, and what a request
//! is answered with.

use crate::config::{Config, ConfigView};
use crate::file::{file_at, views, File, FileView};
use crate::listing::{listing_of, Listing};
use crate::route::{route, route_of, Route, RouteView};
use crate::selection::{is_used, pool, unused, used_after};
use crate::snapshot::{
    all_in_order, neighbours_in_order, order_is_consistent, sort_files, sorted,
};
use crate::text::{chars_of, same_chars};
use vstd::prelude::*;

verus! {

/// One entry that a scan of the directory found.
#[derive(Debug)]
pub struct ScanEntry {
    pub path: String,
    /// The entry is a regular file.
    pub is_file: bool,
    /// The size of the file in bytes, where it could be opened.
    pub size: Option<u64>,
}

/// What a scan entry holds.
pub struct ScanEntryView {
    pub path: Seq<char>,
    pub is_file: bool,
    pub size: Option<u64>,
}

impl View for ScanEntry {
    type V = ScanEntryView;

    open spec fn view(&self) -> ScanEntryView {
        ScanEntryView { path: self.path@, is_file: self.is_file, size: self.size }
    }
}

/// What the entries of a scan hold, in the same order.
pub open spec fn scan_views(scan: Seq<ScanEntry>) -> Seq<ScanEntryView> {
    scan.map_values(|entry: ScanEntry| entry@)
}

/// The files that a scan yields: one for each entry that is a regular
/// file and could be opened, in the order of the scan.
pub open spec fn found_files(scan: Seq<ScanEntryView>) -> Seq<FileView>
    decreases scan.len(),
{
    if scan.len() == 0 {
        Seq::empty()
    } else if scan.last().is_file && scan.last().size is Some {
        found_files(scan.drop_last()).push(file_at(scan.last().path, scan.last().size->0))
    } else {
        found_files(scan.drop_last())
    }
}

/// Why a refresh left the snapshot as it was.
#[derive(Clone, Copy, Debug, PartialEq, Eq, Structural)]
pub enum RefreshError {
    /// The directory could not be read.
    DirectoryUnreadable,
    /// The directory holds no file that can be served.
    NoFiles,
}

/// Why a request got no file.
#[derive(Clone, Copy, Debug, PartialEq, Eq, Structural)]
pub enum ServeError {
    /// No file is stored under the path that was asked for.
    NotFound,
    /// There is no file to pick from.
    EmptySet,
}

impl RefreshError {
    /// The error in words.
    pub fn message(&self) -> (text: &'static str)
        ensures
            text@ == match self {
                RefreshError::DirectoryUnreadable => "Directory cannot be read"@,
                RefreshError::NoFiles => "No files found"@,
            },
    {
        match self {
            RefreshError::DirectoryUnreadable => "Directory cannot be read",
            RefreshError::NoFiles => "No files found",
        }
    }
}

impl ServeError {
    /// The error in words.
    pub fn message(&self) -> (text: &'static str)
        ensures
            text@ == match self {
                ServeError::NotFound => "File not found"@,
                ServeError::EmptySet => "No files available"@,
            },
    {
        match self {
            ServeError::NotFound => "File not found",
            ServeError::EmptySet => "No files available",
        }
    }
}

/// What a request is answered with.
pub enum Reply {
    /// Nothing: the request is dropped.
    Ignored,
    /// The contents of this file, under its content type.
    File(File),
    /// This page of the listing.
    Listing(Listing),
}

/// The state of a server.
pub struct ServerView {
    pub config: ConfigView,
    /// The snapshot: the files of the last refresh that found any.
    pub files: Seq<FileView>,
    /// The files picked in the current round, where repeats are off.
    pub used: Seq<FileView>,
    /// The time of the last refresh that found files, in seconds.
    pub last_updated: u64,
}

/// The snapshot is due for a refresh at the time `now`.
pub open spec fn refresh_due(server: ServerView, now: u64) -> bool {
    now >= server.last_updated + server.config.cache_ttl_secs
}

/// What the scan of a refresh holds; `None` stands for a directory that
/// could not be read.
pub open spec fn scan_view(scan: Option<Vec<ScanEntry>>) -> Option<Seq<ScanEntryView>> {
    match scan {
        Some(entries) => Some(scan_views(entries@)),
        None => None,
    }
}

/// A refresh at the time `now` with the scan `scan` takes the scan in: the
/// snapshot is due and the scan holds a file that can be served.
pub open spec fn refresh_takes(server: ServerView, scan: Option<Seq<ScanEntryView>>, now: u64) -> bool {
    refresh_due(server, now) && scan is Some && found_files(scan->0).len() > 0
}

/// The state after a refresh at the time `now`: where the refresh takes the
/// scan in, the scan's files in listing order are the snapshot and `now` is
/// the time of the refresh; else the state is as before.
pub open spec fn after_refresh(
    server: ServerView,
    scan: Option<Seq<ScanEntryView>>,
    now: u64,
) -> ServerView {
    if refresh_takes(server, scan, now) {
        ServerView { files: sorted(found_files(scan->0)), last_updated: now, ..server }
    } else {
        server
    }
}

/// How a refresh at the time `now` ends: well where the snapshot is not due
/// yet, whatever the scan holds, and where the scan is taken in; else with
/// the reason why the scan is of no use.
pub open spec fn refresh_outcome(
    server: ServerView,
    scan: Option<Seq<ScanEntryView>>,
    now: u64,
) -> Result<(), RefreshError> {
    if !refresh_due(server, now) {
        Ok(())
    } else {
        match scan {
            None => Err(RefreshError::DirectoryUnreadable),
            Some(entries) => if found_files(entries).len() == 0 {
                Err(RefreshError::NoFiles)
            } else {
                Ok(())
            },
        }
    }
}

/// The first file of `files` that is stored under `path`.
pub open spec fn first_with_path(files: Seq<FileView>, path: Seq<char>) -> Option<FileView>
    decreases files.len(),
{
    if files.len() == 0 {
        None
    } else if files[0].path == path {
        Some(files[0])
    } else {
        first_with_path(files.drop_first(), path)
    }
}

/// The state after the file at index `at` of the pool was picked.
pub open spec fn after_pick(server: ServerView, at: int) -> ServerView {
    ServerView {
        used: used_after(
            server.files,
            server.used,
            server.config.non_repeat,
            pool(server.files, server.used, server.config.non_repeat)[at],
        ),
        ..server
    }
}

/// A pick in the state `before` can end with `outcome` in the state
/// `after`: it fails on an empty snapshot and changes nothing; else it
/// takes some file of the pool.
pub open spec fn is_pick(
    before: ServerView,
    outcome: Result<FileView, ServeError>,
    after: ServerView,
) -> bool {
    match outcome {
        Ok(file) => before.files.len() > 0 && exists|at: int|
            0 <= at < pool(before.files, before.used, before.config.non_repeat).len() && file
                == #[trigger] pool(before.files, before.used, before.config.non_repeat)[at]
                && after == after_pick(before, at),
        Err(error) => error == ServeError::EmptySet && before.files.len() == 0 && after == before,
    }
}

/// What `reply` holds, where it holds a file.
pub open spec fn file_of(reply: Result<Reply, ServeError>) -> Result<FileView, ServeError> {
    match reply {
        Ok(Reply::File(file)) => Ok(file@),
        Ok(_) => Err(ServeError::NotFound),
        Err(error) => Err(error),
    }
}

/// A request for `url` in the state `before` can be answered with `reply`
/// and leave the state `after`. While the snapshot is empty, every request
/// but the one for the site's icon fails for want of files.
pub open spec fn is_answer(
    before: ServerView,
    url: Seq<char>,
    reply: Result<Reply, ServeError>,
    after: ServerView,
) -> bool {
    match route_of(before.config.listing_path, url) {
        RouteView::Ignored => after == before && (reply matches Ok(Reply::Ignored)),
        RouteView::File(path) => after == before && if before.files.len() == 0 {
            (reply matches Err(ServeError::EmptySet))
        } else {
            match first_with_path(before.files, path) {
                Some(file) => (reply matches Ok(Reply::File(found)) && found@ == file),
                None => (reply matches Err(ServeError::NotFound)),
            }
        },
        RouteView::Listing(page) => after == before && if before.files.len() == 0 {
            (reply matches Err(ServeError::EmptySet))
        } else {
            (reply matches Ok(Reply::Listing(listing)) && listing@ == listing_of(
                before.files,
                page,
            ))
        },
        RouteView::Random => (reply is Err || (reply matches Ok(Reply::File(_)))) && is_pick(
            before,
            file_of(reply),
            after,
        ),
    }
}

/// A refresh of a snapshot that is due, with a scan that finds files, makes
/// exactly these files the snapshot, with no two neighbours against the
/// listing order.
pub proof fn law_refresh_lists_what_was_found(
    server: ServerView,
    scan: Seq<ScanEntryView>,
    now: u64,
)
    requires
        refresh_due(server, now),
        found_files(scan).len() > 0,
    ensures
        after_refresh(server, Some(scan), now).files.to_multiset() == found_files(
            scan,
        ).to_multiset(),
        after_refresh(server, Some(scan), now).files.len() == found_files(scan).len(),
        neighbours_in_order(after_refresh(server, Some(scan), now).files),
        after_refresh(server, Some(scan), now).last_updated == now,
{
    crate::snapshot::lemma_sorted(found_files(scan));
}

/// Where the listing order is of one mind about the files that a scan
/// finds, the snapshot that a refresh makes of them is in order throughout.
pub proof fn law_refresh_orders_the_snapshot(
    server: ServerView,
    scan: Seq<ScanEntryView>,
    now: u64,
)
    requires
        refresh_due(server, now),
        found_files(scan).len() > 0,
        order_is_consistent(found_files(scan)),
    ensures
        all_in_order(after_refresh(server, Some(scan), now).files),
{
    crate::snapshot::law_sorted_is_in_order_throughout(found_files(scan));
}

/// Until its time to live has passed, a snapshot stays as it is: a refresh
/// before that time ends well and changes nothing, whatever the directory
/// holds by then and whether it can be read or not.
pub proof fn law_snapshot_is_stable_until_due(
    server: ServerView,
    scan: Option<Seq<ScanEntryView>>,
    now: u64,
)
    requires
        now < server.last_updated + server.config.cache_ttl_secs,
    ensures
        after_refresh(server, scan, now) == server,
        refresh_outcome(server, scan, now) == Ok::<(), RefreshError>(()),
{
}

/// A refresh that fails leaves the server as it was, the time of the last
/// refresh too, so that the next refresh is due at once.
pub proof fn law_failed_refresh_changes_nothing(
    server: ServerView,
    scan: Option<Seq<ScanEntryView>>,
    now: u64,
)
    requires
        refresh_outcome(server, scan, now) is Err,
    ensures
        after_refresh(server, scan, now) == server,
        refresh_due(after_refresh(server, scan, now), now),
{
}

/// The files that a scan yields are what its entries say of the regular
/// files that could be opened, and of nothing else.
pub proof fn law_found_files(scan: Seq<ScanEntryView>)
    ensures
        forall|i: int|
            0 <= i < scan.len() && scan[i].is_file && scan[i].size is Some ==> found_files(
                scan,
            ).contains(file_at(#[trigger] scan[i].path, scan[i].size->0)),
        forall|k: int|
            0 <= k < found_files(scan).len() ==> exists|i: int|
                0 <= i < scan.len() && scan[i].is_file && scan[i].size is Some && #[trigger] found_files(
                    scan,
                )[k] == file_at(#[trigger] scan[i].path, scan[i].size->0),
    decreases scan.len(),
{
    if scan.len() > 0 {
        let front = scan.drop_last();
        let found = found_files(scan);
        law_found_files(front);
        assert forall|i: int|
            0 <= i < scan.len() && scan[i].is_file && scan[i].size is Some implies found.contains(
            file_at(#[trigger] scan[i].path, scan[i].size->0),
        ) by {
            let file = file_at(scan[i].path, scan[i].size->0);
            if i < front.len() {
                assert(front[i] == scan[i]);
                assert(found_files(front).contains(file_at(front[i].path, front[i].size->0)));
                let k = choose|k: int|
                    0 <= k < found_files(front).len() && found_files(front)[k] == file;
                assert(found[k] == file);
            } else {
                assert(found[found.len() - 1] == file);
            }
        }
        assert forall|k: int| 0 <= k < found.len() implies exists|i: int|
            0 <= i < scan.len() && scan[i].is_file && scan[i].size is Some && #[trigger] found[k]
                == file_at(#[trigger] scan[i].path, scan[i].size->0) by {
            if k < found_files(front).len() {
                assert(found[k] == found_files(front)[k]);
                let i = choose|i: int|
                    0 <= i < front.len() && front[i].is_file && front[i].size is Some
                        && #[trigger] found_files(front)[k] == file_at(
                        #[trigger] front[i].path,
                        front[i].size->0,
                    );
                assert(scan[i] == front[i]);
            } else {
                assert(found[k] == file_at(scan[scan.len() - 1].path, scan[scan.len() - 1].size->0));
            }
        }
    }
}

/// No request changes the snapshot, the time of its refresh or the
/// settings: between two refreshes every request sees the same files.
pub proof fn law_requests_keep_the_snapshot(
    before: ServerView,
    url: Seq<char>,
    reply: Result<Reply, ServeError>,
    after: ServerView,
)
    requires
        is_answer(before, url, reply, after),
    ensures
        after.files == before.files,
        after.last_updated == before.last_updated,
        after.config == before.config,
{
}

/// Trusted: `rand::rng().random_range(0..bound)`. `rand` documents that
/// the number lies in the range and that an empty range panics; the
/// contract keeps the empty range out and claims the bound, nothing else.
#[verifier::external_body]
pub(crate) fn random_below(bound: usize) -> (index: usize)
    requires
        bound > 0,
    ensures
        index < bound,
{
    rand::Rng::random_range(&mut rand::rng(), 0..bound)
}

/// A server that hands out the files of one directory.
pub struct RandomFileServer {
    config: Config,
    files: Vec<File>,
    files_used: Vec<File>,
    files_last_updated: u64,
}

impl View for RandomFileServer {
    type V = ServerView;

    closed spec fn view(&self) -> ServerView {
        ServerView {
            config: self.config@,
            files: views(self.files@),
            used: views(self.files_used@),
            last_updated: self.files_last_updated,
        }
    }
}

impl RandomFileServer {
    /// A server with the settings `config` that has not seen its
    /// directory yet.
    pub fn new(config: Config) -> (server: RandomFileServer)
        ensures
            server@ == (ServerView {
                config: config@,
                files: Seq::empty(),
                used: Seq::empty(),
                last_updated: 0,
            }),
    {
        let server = RandomFileServer {
            config,
            files: Vec::new(),
            files_used: Vec::new(),
            files_last_updated: 0,
        };
        assert(views(server.files_used@) == Seq::<FileView>::empty());
        server
    }

    /// The server's settings.
    pub fn config(&self) -> (config: &Config)
        ensures
            config@ == self@.config,
    {
        &self.config
    }

    /// The snapshot.
    pub fn files(&self) -> (files: &Vec<File>)
        ensures
            views(files@) == self@.files,
    {
        &self.files
    }

    /// The files picked in the current round.
    pub fn files_used(&self) -> (used: &Vec<File>)
        ensures
            views(used@) == self@.used,
    {
        &self.files_used
    }

    /// The time of the last refresh that found files.
    pub fn files_last_updated(&self) -> (time: u64)
        ensures
            time == self@.last_updated,
    {
        self.files_last_updated
    }

    /// Whether the snapshot is due for a refresh at the time `now`: whether
    /// its time to live has passed since the last refresh that found files.
    pub fn needs_refresh(&self, now: u64) -> (due: bool)
        ensures
            due == refresh_due(self@, now),
    {
        match self.files_last_updated.checked_add(self.config.cache_ttl_secs) {
            Some(due_at) => now >= due_at,
            None => false,
        }
    }

    /// Refreshes the snapshot at the time `now` from a scan of the directory;
    /// `None` stands for a directory that could not be read. While the
    /// snapshot is not due, nothing happens and the scan is not looked at.
    /// Where it is due and the scan holds a file that can be served, the
    /// scan's files become the snapshot, in listing order, and `now` the time
    /// of the refresh. Else the refresh fails and the server stays as it was.
    pub fn refresh_files(&mut self, scan: Option<Vec<ScanEntry>>, now: u64) -> (done: Result<
        (),
        RefreshError,
    >)
        ensures
            final(self)@ == after_refresh(old(self)@, scan_view(scan), now),
            done == refresh_outcome(old(self)@, scan_view(scan), now),
            !refresh_due(old(self)@, now) ==> done is Ok && final(self)@ == old(self)@,
    {
        if !self.needs_refresh(now) {
            return Ok(());
        }
        let entries = match scan {
            Some(entries) => entries,
            None => { return Err(RefreshError::DirectoryUnreadable); },
        };
        let ghost seen = scan_views(entries@);
        let mut found: Vec<File> = Vec::new();
        let mut i: usize = 0;
        while i < entries.len()
            invariant
                i <= entries.len(),
                seen == scan_views(entries@),
                views(found@) == found_files(seen.take(i as int)),
            decreases entries.len() - i,
        {
            assert(seen.take(i + 1).drop_last() == seen.take(i as int));
            let entry = &entries[i];
            if entry.is_file {
                if let Some(size) = entry.size {
                    found.push(File::new(entry.path.clone(), size));
                }
            }
            i += 1;
        }
        assert(seen.take(entries.len() as int) == seen);
        if found.len() == 0 {
            return Err(RefreshError::NoFiles);
        }
        self.files = sort_files(found);
        self.files_last_updated = now;
        Ok(())
    }

    /// The first file of the snapshot that is stored under `path`.
    pub fn get_file(&self, path: &str) -> (file: Option<&File>)
        ensures
            match first_with_path(self@.files, path@) {
                Some(first) => (file matches Some(found) && found@ == first),
                None => file is None,
            },
    {
        let wanted = chars_of(path);
        let ghost listed = views(self.files@);
        let mut i: usize = 0;
        assert(listed.skip(0) == listed);
        while i < self.files.len()
            invariant
                i <= self.files.len(),
                listed == views(self.files@),
                wanted@ == path@,
                first_with_path(listed, path@) == first_with_path(listed.skip(i as int), path@),
            decreases self.files.len() - i,
        {
            let stored = chars_of(self.files[i].path.as_str());
            if same_chars(stored.as_slice(), wanted.as_slice()) {
                return Some(&self.files[i]);
            }
            assert(listed.skip(i as int).drop_first() == listed.skip(i + 1));
            i += 1;
        }
        None
    }

    /// Whether a file with the path `path` has been picked in this round.
    pub fn is_used(&self, path: &str) -> (used: bool)
        ensures
            used == is_used(self@.used, path@),
    {
        let wanted = chars_of(path);
        let ghost listed = views(self.files_used@);
        let mut i: usize = 0;
        while i < self.files_used.len()
            invariant
                i <= self.files_used.len(),
                listed == views(self.files_used@),
                wanted@ == path@,
                forall|k: int| 0 <= k < i ==> (#[trigger] listed[k]).path != path@,
            decreases self.files_used.len() - i,
        {
            let stored = chars_of(self.files_used[i].path.as_str());
            if same_chars(stored.as_slice(), wanted.as_slice()) {
                assert(listed[i as int].path == path@);
                return true;
            }
            i += 1;
        }
        false
    }

    /// The places in the snapshot of the files not yet picked in this round.
    pub fn unused_indices(&self) -> (at: Vec<usize>)
        ensures
            at@.len() == unused(self@.files, self@.used).len(),
            forall|k: int|
                0 <= k < at@.len() ==> 0 <= #[trigger] at@[k] < self@.files.len()
                    && self@.files[at@[k] as int] == unused(self@.files, self@.used)[k],
    {
        let ghost listed = views(self.files@);
        let ghost done = views(self.files_used@);
        let mut at: Vec<usize> = Vec::new();
        let mut i: usize = 0;
        while i < self.files.len()
            invariant
                i <= self.files.len(),
                listed == views(self.files@),
                done == views(self.files_used@),
                at@.len() == unused(listed.take(i as int), done).len(),
                forall|k: int|
                    0 <= k < at@.len() ==> 0 <= #[trigger] at@[k] < i && listed[at@[k] as int]
                        == unused(listed.take(i as int), done)[k],
            decreases self.files.len() - i,
        {
            assert(listed.take(i + 1).drop_last() == listed.take(i as int));
            if !self.is_used(self.files[i].path.as_str()) {
                at.push(i);
            }
            i += 1;
        }
        assert(listed.take(self.files.len() as int) == listed);
        at
    }

    /// The number of files that the next pick is drawn from.
    pub fn pool_len(&self) -> (len: usize)
        ensures
            len == pool(self@.files, self@.used, self@.config.non_repeat).len(),
    {
        if self.config.non_repeat {
            let open = self.unused_indices();
            if open.len() > 0 {
                return open.len();
            }
        }
        self.files.len()
    }

    /// Picks the file at index `at` of the pool and, where repeats are off,
    /// marks it as used; the round starts over where every file had been
    /// used.
    pub fn pick_at(&mut self, at: usize) -> (file: File)
        requires
            at < pool(old(self)@.files, old(self)@.used, old(self)@.config.non_repeat).len(),
        ensures
            file@ == pool(old(self)@.files, old(self)@.used, old(self)@.config.non_repeat)[at as int],
            final(self)@ == after_pick(old(self)@, at as int),
    {
        if self.config.non_repeat {
            let open = self.unused_indices();
            let file = if open.len() == 0 {
                self.files_used = Vec::new();
                assert(views(self.files_used@) == Seq::<FileView>::empty());
                self.files[at].clone()
            } else {
                self.files[open[at]].clone()
            };
            let ghost marked = views(self.files_used@);
            self.files_used.push(file.clone());
            assert(views(self.files_used@) == marked.push(file@));
            file
        } else {
            self.files[at].clone()
        }
    }

    /// Picks a file at random from the pool. Fails where the snapshot is
    /// empty.
    pub fn pick(&mut self) -> (picked: Result<File, ServeError>)
        ensures
            is_pick(
                old(self)@,
                match picked {
                    Ok(file) => Ok(file@),
                    Err(error) => Err(error),
                },
                final(self)@,
            ),
    {
        let len = self.pool_len();
        if len == 0 {
            return Err(ServeError::EmptySet);
        }
        let at = random_below(len);
        Ok(self.pick_at(at))
    }

    /// Answers a request for `url`: with nothing for the site's icon, with
    /// the file of that path or a page of the listing where the server has
    /// a listing and the URL asks for one of them, and else with a file
    /// picked at random. While the snapshot is empty every such request
    /// fails. Only a pick changes the server.
    pub fn handle(&mut self, url: &str) -> (reply: Result<Reply, ServeError>)
        ensures
            is_answer(old(self)@, url@, reply, final(self)@),
    {
        let listing_path: Option<&str> = match &self.config.listing_path {
            Some(path) => Some(path.as_str()),
            None => None,
        };
        match route(listing_path, url) {
            Route::Ignored => Ok(Reply::Ignored),
            Route::File(path) => if self.files.len() == 0 {
                Err(ServeError::EmptySet)
            } else {
                match self.get_file(path.as_str()) {
                    Some(file) => Ok(Reply::File(file.clone())),
                    None => Err(ServeError::NotFound),
                }
            },
            Route::Listing(page) => if self.files.len() == 0 {
                Err(ServeError::EmptySet)
            } else {
                Ok(Reply::Listing(Listing::new(self.files.as_slice(), page)))
            },
            Route::Random => match self.pick() {
                Ok(file) => Ok(Reply::File(file)),
                Err(error) => Err(error),
            },
        }
    }
}

} // verus!
