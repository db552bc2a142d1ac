//! An archive in a directory of the local file system.

use vstd::prelude::*;

verus! {

/// An archive in a directory; it starts with no write in progress.
pub struct FileArchive {
    directory: String,
    is_writing: bool,
}

impl FileArchive {
    /// The directory.
    pub closed spec fn directory_view(&self) -> Seq<char> {
        self.directory@
    }

    /// Whether a write is in progress.
    pub closed spec fn writing(&self) -> bool {
        self.is_writing
    }

    /// An archive in `directory`.
    pub fn new(directory: String) -> (r: Self)
        ensures
            r.directory_view() == directory@,
            !r.writing(),
    {
        FileArchive { directory, is_writing: false }
    }

    /// The archive's name.
    pub fn name(&self) -> (r: &'static str)
        ensures
            r@ == "file-archive"@,
    {
        "file-archive"
    }
}

} // verus!
