//! The archives behind one type.

use vstd::prelude::*;

use crate::archive::data::ArchiveData;
use crate::archive::data::ArchiveFilter;
use crate::archive::file::FileArchive;
use crate::archive::data::filter_namespace;
use crate::archive::mock::archive_id;
use crate::archive::mock::find_id;
use crate::archive::mock::items_view;
use crate::archive::mock::matching_ids;
use crate::archive::mock::store_batch;
use crate::archive::mock::store_entry;
use crate::archive::mock::ArchiveEntry;
use crate::archive::mock::MockArchive;
use crate::archive::noop::NoopArchive;
use crate::archive::s3_glacier::S3GlacierArchive;

verus! {

/// One of the archives.
pub enum ArchiveStorageVariant {
    Noop(NoopArchive),
    Mock(MockArchive),
    S3Glacier(S3GlacierArchive),
    File(FileArchive),
}

impl ArchiveStorageVariant {
    /// Whether the archive inside can take `n` more items: a mock archive
    /// numbers its items and must not run out of numbers.
    pub open spec fn has_room_for(&self, n: nat) -> bool {
        match self {
            ArchiveStorageVariant::Mock(m) => m.next() + n < u64::MAX,
            _ => true,
        }
    }

    /// The identified items a mock archive holds; none for the others,
    /// which keep nothing that can be read back.
    pub open spec fn archived(&self) -> Seq<ArchiveEntry> {
        match self {
            ArchiveStorageVariant::Mock(m) => m.entries(),
            _ => Seq::empty(),
        }
    }

    /// The number a mock archive gives its next item; zero for the others.
    pub open spec fn next_number(&self) -> nat {
        match self {
            ArchiveStorageVariant::Mock(m) => m.next() as nat,
            _ => 0,
        }
    }

    /// Whether the archive inside can take `n` more items.
    pub fn has_room(&self, n: usize) -> (r: bool)
        ensures
            r == self.has_room_for(n as nat),
    {
        match self {
            ArchiveStorageVariant::Mock(m) => {
                let next = m.next_number();
                next < u64::MAX && (n as u64) < u64::MAX - next
            },
            _ => true,
        }
    }

    /// The name of the archive inside.
    pub fn name(&self) -> (r: &'static str)
        ensures
            self is Noop ==> r@ == "noop-archive"@,
            self is Mock ==> r@ == "mock-archive"@,
            self is S3Glacier ==> r@ == "s3-glacier"@,
            self is File ==> r@ == "file-archive"@,
    {
        match self {
            ArchiveStorageVariant::Noop(inner) => inner.name(),
            ArchiveStorageVariant::Mock(inner) => inner.name(),
            ArchiveStorageVariant::S3Glacier(inner) => inner.name(),
            ArchiveStorageVariant::File(inner) => inner.name(),
        }
    }

    /// Archives one item and gives its identifier.
    pub fn archive(&mut self, data: &ArchiveData) -> (res: Result<String, ()>)
        requires
            old(self).has_room_for(1),
        ensures
            res is Ok,
            *final(self) is Mock <==> *old(self) is Mock,
            *old(self) is Mock ==> final(self).next_number() == old(self).next_number() + 1,
            *old(self) is Mock ==> (res matches Ok(id) && id@ == archive_id(
                old(self).next_number() as u64,
            )),
            final(self).archived() == (if *old(self) is Mock {
                store_entry(old(self).archived(), archive_id(old(self).next_number() as u64), data@)
            } else {
                old(self).archived()
            }),
    {
        match self {
            ArchiveStorageVariant::Noop(inner) => inner.archive(data),
            ArchiveStorageVariant::Mock(inner) => inner.archive(data),
            ArchiveStorageVariant::S3Glacier(inner) => inner.archive(data),
            ArchiveStorageVariant::File(inner) => inner.archive(data),
        }
    }

    /// Archives each item, in order, and gives their identifiers.
    pub fn archive_batch(&mut self, items: &[ArchiveData]) -> (res: Result<Vec<String>, ()>)
        requires
            old(self).has_room_for(items@.len()),
        ensures
            res matches Ok(ids) && ids@.len() == items@.len(),
            *final(self) is Mock <==> *old(self) is Mock,
            *old(self) is Mock ==> final(self).next_number() == old(self).next_number()
                + items@.len(),
            final(self).archived() == (if *old(self) is Mock {
                store_batch(old(self).archived(), old(self).next_number(), items_view(items@))
            } else {
                old(self).archived()
            }),
    {
        match self {
            ArchiveStorageVariant::Noop(inner) => inner.archive_batch(items),
            ArchiveStorageVariant::Mock(inner) => inner.archive_batch(items),
            ArchiveStorageVariant::S3Glacier(inner) => inner.archive_batch(items),
            ArchiveStorageVariant::File(inner) => inner.archive_batch(items),
        }
    }

    /// The item archived under `archive_id`, if the archive inside can give it back.
    pub fn retrieve(&self, archive_id: &str) -> (res: Result<Option<ArchiveData>, ()>)
        ensures
            res matches Ok(r) && (match r {
                None => find_id(self.archived(), archive_id@) == -1,
                Some(d) => find_id(self.archived(), archive_id@) >= 0 && d@ == self.archived()[find_id(
                    self.archived(),
                    archive_id@,
                )].1,
            }),
    {
        match self {
            ArchiveStorageVariant::Noop(inner) => inner.retrieve(archive_id),
            ArchiveStorageVariant::Mock(inner) => inner.retrieve(archive_id),
            ArchiveStorageVariant::S3Glacier(inner) => inner.retrieve(archive_id),
            ArchiveStorageVariant::File(inner) => inner.retrieve(archive_id),
        }
    }

    /// The identifiers of the archived items that fall under `filter`.
    pub fn query(&self, filter: &ArchiveFilter) -> (res: Result<Vec<String>, ()>)
        ensures
            res matches Ok(ids) && ids@.map_values(|s: String| s@) == matching_ids(
                self.archived(),
                filter_namespace(*filter),
            ),
    {
        match self {
            ArchiveStorageVariant::Noop(inner) => inner.query(filter),
            ArchiveStorageVariant::Mock(inner) => inner.query(filter),
            ArchiveStorageVariant::S3Glacier(inner) => inner.query(filter),
            ArchiveStorageVariant::File(inner) => inner.query(filter),
        }
    }

    /// Removes the item archived under `archive_id`; tells whether there was one.
    pub fn delete(&mut self, archive_id: &str) -> (res: Result<bool, ()>)
        ensures
            res == Ok::<bool, ()>(find_id(old(self).archived(), archive_id@) >= 0),
            find_id(old(self).archived(), archive_id@) >= 0 ==> final(self).archived() == old(
                self,
            ).archived().remove(find_id(old(self).archived(), archive_id@)),
            find_id(old(self).archived(), archive_id@) == -1 ==> final(self).archived() == old(
                self,
            ).archived(),
            *final(self) is Mock <==> *old(self) is Mock,
            final(self).next_number() == old(self).next_number(),
    {
        match self {
            ArchiveStorageVariant::Noop(inner) => inner.delete(archive_id),
            ArchiveStorageVariant::Mock(inner) => inner.delete(archive_id),
            ArchiveStorageVariant::S3Glacier(inner) => inner.delete(archive_id),
            ArchiveStorageVariant::File(inner) => inner.delete(archive_id),
        }
    }

    /// Prepares the archive inside.
    pub fn open(&mut self) -> (res: Result<(), ()>)
        ensures
            res is Ok,
            *final(self) == *old(self),
    {
        match self {
            ArchiveStorageVariant::Noop(_) => Ok(()),
            ArchiveStorageVariant::Mock(_) => Ok(()),
            ArchiveStorageVariant::S3Glacier(inner) => inner.open(),
            ArchiveStorageVariant::File(inner) => inner.open(),
        }
    }

    /// Shuts the archive inside down.
    pub fn close(&mut self) -> (res: Result<(), ()>)
        ensures
            res is Ok,
            *final(self) == *old(self),
    {
        match self {
            ArchiveStorageVariant::Noop(_) => Ok(()),
            ArchiveStorageVariant::Mock(_) => Ok(()),
            ArchiveStorageVariant::S3Glacier(inner) => inner.close(),
            ArchiveStorageVariant::File(inner) => inner.close(),
        }
    }
}

} // verus!
