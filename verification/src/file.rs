//! One file of the served directory: where it is, what it holds and how
//! large it is.

use vstd::prelude::*;

verus! {

/// A media type as text, in the three forms the server needs.
#[derive(Debug)]
pub struct MediaType {
    /// The type with its parameters, as it is shown to a reader.
    pub text: String,
    /// The type without parameters, as it is sent in a header.
    pub essence: String,
    /// The top-level type, such as `image` or `text`.
    pub kind: String,
}

/// The three texts of a media type.
pub struct MediaTypeView {
    pub text: Seq<char>,
    pub essence: Seq<char>,
    pub kind: Seq<char>,
}

impl View for MediaType {
    type V = MediaTypeView;

    open spec fn view(&self) -> MediaTypeView {
        MediaTypeView { text: self.text@, essence: self.essence@, kind: self.kind@ }
    }
}

impl Clone for MediaType {
    fn clone(&self) -> (copy: MediaType)
        ensures
            copy == *self,
    {
        MediaType {
            text: self.text.clone(),
            essence: self.essence.clone(),
            kind: self.kind.clone(),
        }
    }
}

/// The media type that `mime_guess` associates with the extension of `path`,
/// or `application/octet-stream` where it knows none.
pub uninterp spec fn guessed_media_type(path: Seq<char>) -> MediaTypeView;

/// Trusted: `mime_guess::from_path(..).first_or_octet_stream()`. The guess is
/// looked up in a fixed table by the path's extension, without touching the
/// disk, so it depends on the path alone; the contract names it and says no
/// more. The three texts are the guess's `Display` form, its `essence_str()`
/// and its `type_()`.
#[verifier::external_body]
pub(crate) fn guess_media_type(path: &str) -> (media: MediaType)
    ensures
        media@ == guessed_media_type(path@),
{
    let guess = mime_guess::from_path(path).first_or_octet_stream();
    MediaType {
        text: guess.to_string(),
        essence: guess.essence_str().to_string(),
        kind: guess.type_().as_str().to_string(),
    }
}

/// A file of the snapshot. Two files are the same file when their paths
/// are equal.
#[derive(Debug)]
pub struct File {
    pub path: String,
    pub mime: MediaType,
    pub size: u64,
}

/// What a file entry holds.
pub struct FileView {
    pub path: Seq<char>,
    pub mime: MediaTypeView,
    pub size: u64,
}

impl View for File {
    type V = FileView;

    open spec fn view(&self) -> FileView {
        FileView { path: self.path@, mime: self.mime@, size: self.size }
    }
}

/// What the files of `files` hold, in the same order.
pub open spec fn views(files: Seq<File>) -> Seq<FileView> {
    files.map_values(|file: File| file@)
}

/// The entry that stands for a file at `path` of `size` bytes.
pub open spec fn file_at(path: Seq<char>, size: u64) -> FileView {
    FileView { path, mime: guessed_media_type(path), size }
}

impl File {
    /// The entry for the file at `path` that holds `size` bytes. Its media
    /// type is guessed from the path's extension.
    pub fn new(path: String, size: u64) -> (file: File)
        ensures
            file@ == file_at(path@, size),
    {
        let mime = guess_media_type(path.as_str());
        File { path, mime, size }
    }

    /// The value of the `content-type` header that goes with this file.
    pub fn content_type(&self) -> (value: &str)
        ensures
            value@ == self@.mime.essence,
    {
        self.mime.essence.as_str()
    }
}

impl Clone for File {
    fn clone(&self) -> (copy: File)
        ensures
            copy == *self,
    {
        File { path: self.path.clone(), mime: self.mime.clone(), size: self.size }
    }
}

impl PartialEq for File {
    fn eq(&self, other: &Self) -> (equal: bool) {
        self.path == other.path
    }
}

impl vstd::std_specs::cmp::PartialEqSpecImpl for File {
    open spec fn obeys_eq_spec() -> bool {
        true
    }

    open spec fn eq_spec(&self, other: &Self) -> bool {
        self@.path == other@.path
    }
}

} // verus!
