//! An archive of JSON files in a local directory.

use vstd::prelude::*;

use crate::archive::data::ArchiveData;
use crate::archive::data::ArchiveFilter;
use crate::text::is_uuid_v4_text;
use crate::text::new_uuid_v4;

verus! {

/// An archive of JSON files in a local directory. Writing is not done here: each item is accepted under a fresh
/// random identifier, and nothing can be read back.
pub struct FileArchive {
    directory: String,
}

impl FileArchive {
    /// The directory.
    pub closed spec fn directory_view(&self) -> Seq<char> {
        self.directory@
    }

    /// An archive in `directory`.
    pub fn new(directory: String) -> (r: Self)
        ensures
            r.directory_view() == directory@,
    {
        FileArchive { directory }
    }

    /// The archive's name.
    pub fn name(&self) -> (r: &'static str)
        ensures
            r@ == "file-archive"@,
    {
        "file-archive"
    }

    /// Accepts `data` under a fresh identifier, a random version-4 UUID.
    pub fn archive(&self, data: &ArchiveData) -> (res: Result<String, ()>)
        ensures
            res matches Ok(id) && is_uuid_v4_text(id@),
    {
        Ok(new_uuid_v4())
    }

    /// Accepts each item, in order, under its own fresh identifier.
    pub fn archive_batch(&self, items: &[ArchiveData]) -> (res: Result<Vec<String>, ()>)
        ensures
            res matches Ok(ids) && ids@.len() == items@.len() && forall|i: int|
                0 <= i < ids@.len() ==> is_uuid_v4_text(#[trigger] ids@[i]@),
    {
        let mut ids: Vec<String> = Vec::new();
        let mut i: usize = 0;
        while i < items.len()
            invariant
                i <= items@.len(),
                ids@.len() == i,
                forall|j: int| 0 <= j < i ==> is_uuid_v4_text(#[trigger] ids@[j]@),
            decreases items@.len() - i,
        {
            match self.archive(&items[i]) {
                Ok(id) => ids.push(id),
                Err(e) => {
                    return Err(e);
                },
            }
            i += 1;
        }
        Ok(ids)
    }

    /// Finds nothing.
    pub fn retrieve(&self, archive_id: &str) -> (res: Result<Option<ArchiveData>, ()>)
        ensures
            res matches Ok(r) && r is None,
    {
        Ok(None)
    }

    /// Finds nothing.
    pub fn query(&self, filter: &ArchiveFilter) -> (res: Result<Vec<String>, ()>)
        ensures
            res matches Ok(ids) && ids@.len() == 0,
    {
        Ok(Vec::new())
    }

    /// Deletes nothing.
    pub fn delete(&self, archive_id: &str) -> (res: Result<bool, ()>)
        ensures
            res == Ok::<bool, ()>(false),
    {
        Ok(false)
    }

    /// Prepares the archive.
    pub fn open(&mut self) -> (res: Result<(), ()>)
        ensures
            res is Ok,
            *final(self) == *old(self),
    {
        Ok(())
    }

    /// Shuts the archive down.
    pub fn close(&mut self) -> (res: Result<(), ()>)
        ensures
            res is Ok,
            *final(self) == *old(self),
    {
        Ok(())
    }
}

} // verus!
