//! An archive that keeps nothing.

use vstd::prelude::*;

use crate::archive::data::ArchiveData;
use crate::archive::data::ArchiveFilter;

verus! {

/// An archive that accepts everything and keeps nothing.
pub struct NoopArchive;

impl NoopArchive {
    /// The archive's name.
    pub fn name(&self) -> (r: &'static str)
        ensures
            r@ == "noop-archive"@,
    {
        "noop-archive"
    }

    /// Accepts `data`; the identifier is always `noop-id`.
    pub fn archive(&self, data: &ArchiveData) -> (res: Result<String, ()>)
        ensures
            res matches Ok(id) && id@ == "noop-id"@,
    {
        Ok("noop-id".to_owned())
    }

    /// Accepts each item, in order, giving `noop-id` for each.
    pub fn archive_batch(&self, items: &[ArchiveData]) -> (res: Result<Vec<String>, ()>)
        ensures
            res matches Ok(ids) && ids@.len() == items@.len() && forall|i: int|
                0 <= i < ids@.len() ==> #[trigger] ids@[i]@ == "noop-id"@,
    {
        let mut ids: Vec<String> = Vec::new();
        let mut i: usize = 0;
        while i < items.len()
            invariant
                i <= items@.len(),
                ids@.len() == i,
                forall|j: int| 0 <= j < i ==> #[trigger] ids@[j]@ == "noop-id"@,
            decreases items@.len() - i,
        {
            let id = "noop-id".to_owned();
            ids.push(id);
            i += 1;
        }
        Ok(ids)
    }

    /// Finds nothing.
    pub fn retrieve(&self, archive_id: &str) -> (res: Result<Option<ArchiveData>, ()>)
        ensures
            res matches Ok(r) && r is None,
    {
        Ok(None)
    }

    /// Finds nothing.
    pub fn query(&self, filter: &ArchiveFilter) -> (res: Result<Vec<String>, ()>)
        ensures
            res matches Ok(ids) && ids@.len() == 0,
    {
        Ok(Vec::new())
    }

    /// Deletes nothing.
    pub fn delete(&self, archive_id: &str) -> (res: Result<bool, ()>)
        ensures
            res == Ok::<bool, ()>(false),
    {
        Ok(false)
    }
}

} // verus!
