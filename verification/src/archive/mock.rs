//! An archive for tests that keeps every item in memory under numbered
//! identifiers.

use vstd::prelude::*;

use crate::archive::data::archive_matches;
use crate::archive::data::filter_namespace;
use crate::archive::data::ArchiveData;
use crate::archive::data::ArchiveDataView;
use crate::archive::data::ArchiveFilter;
use crate::text::format_decimal;
use crate::text::spec_decimal;
use crate::text::string_push_str;

verus! {

/// An archived item with its identifier, as plain values.
pub type ArchiveEntry = (Seq<char>, ArchiveDataView);

/// The identifier of the `n`-th item: `archive_` and `n` in at least eight digits.
pub open spec fn archive_id(n: u64) -> Seq<char> {
    "archive_"@ + spec_decimal(n as nat, 8)
}

/// Index of the last entry of `s` with identifier `id`, or -1 when none has it.
pub open spec fn find_id(s: Seq<ArchiveEntry>, id: Seq<char>) -> int
    decreases s.len(),
{
    if s.len() == 0 {
        -1
    } else if s.last().0 == id {
        s.len() - 1
    } else {
        find_id(s.drop_last(), id)
    }
}

/// `find_id` gives -1 or an index of an entry with that identifier.
pub proof fn lemma_find_id(s: Seq<ArchiveEntry>, id: Seq<char>)
    ensures
        -1 <= find_id(s, id) < s.len(),
        find_id(s, id) >= 0 ==> s[find_id(s, id)].0 == id,
    decreases s.len(),
{
    if s.len() > 0 && s.last().0 != id {
        lemma_find_id(s.drop_last(), id);
    }
}

/// An item stored under an identifier is found under it, as stored.
pub proof fn law_store_then_find(s: Seq<ArchiveEntry>, id: Seq<char>, d: ArchiveDataView)
    ensures
        find_id(store_entry(s, id, d), id) >= 0,
        store_entry(s, id, d)[find_id(store_entry(s, id, d), id)] == (id, d),
{
    lemma_find_id(s, id);
    let t = store_entry(s, id, d);
    let i = find_id(s, id);
    if i >= 0 {
        lemma_find_id_update(s, id, d, i);
    } else {
        assert(t.last() == (id, d));
    }
}

/// Replacing the entry that `find_id` finds keeps it the one found.
proof fn lemma_find_id_update(s: Seq<ArchiveEntry>, id: Seq<char>, d: ArchiveDataView, i: int)
    requires
        i == find_id(s, id),
        i >= 0,
    ensures
        find_id(s.update(i, (id, d)), id) == i,
    decreases s.len(),
{
    lemma_find_id(s, id);
    if s.last().0 != id {
        lemma_find_id_update(s.drop_last(), id, d, i);
        assert(s.update(i, (id, d)).drop_last() =~= s.drop_last().update(i, (id, d)));
    }
}

/// `s` with `d` stored under `id`: an entry with that identifier is
/// replaced in place, or a new entry is appended.
pub open spec fn store_entry(s: Seq<ArchiveEntry>, id: Seq<char>, d: ArchiveDataView) -> Seq<
    ArchiveEntry,
> {
    let i = find_id(s, id);
    if i >= 0 {
        s.update(i, (id, d))
    } else {
        s.push((id, d))
    }
}

/// `s` with each of `items`, in order, stored under consecutive numbered
/// identifiers from number `next` on.
pub open spec fn store_batch(s: Seq<ArchiveEntry>, next: nat, items: Seq<ArchiveDataView>) -> Seq<
    ArchiveEntry,
>
    decreases items.len(),
{
    if items.len() == 0 {
        s
    } else {
        store_entry(
            store_batch(s, next, items.drop_last()),
            archive_id((next + items.len() - 1) as u64),
            items.last(),
        )
    }
}

/// Storing two batches one after the other, the second numbered on from
/// the first, stores their concatenation.
pub proof fn lemma_store_batch_append(
    s: Seq<ArchiveEntry>,
    next: nat,
    a: Seq<ArchiveDataView>,
    b: Seq<ArchiveDataView>,
)
    ensures
        store_batch(store_batch(s, next, a), next + a.len(), b) == store_batch(s, next, a + b),
    decreases b.len(),
{
    if b.len() == 0 {
        assert(a + b =~= a);
    } else {
        lemma_store_batch_append(s, next, a, b.drop_last());
        assert((a + b).drop_last() =~= a + b.drop_last());
        assert((a + b).last() == b.last());
    }
}

/// Items as plain values.
pub open spec fn items_view(items: Seq<ArchiveData>) -> Seq<ArchiveDataView> {
    items.map_values(|d: ArchiveData| d@)
}

/// The identifiers of the entries of `s` whose item falls under `ns`, in order.
pub open spec fn matching_ids(s: Seq<ArchiveEntry>, ns: Option<Seq<u8>>) -> Seq<Seq<char>>
    decreases s.len(),
{
    if s.len() == 0 {
        seq![]
    } else {
        let rest = matching_ids(s.drop_last(), ns);
        if archive_matches(s.last().1, ns) {
            rest.push(s.last().0)
        } else {
            rest
        }
    }
}

/// The entries of a list of identified items, as plain values.
pub open spec fn entries_view(v: Seq<(String, ArchiveData)>) -> Seq<ArchiveEntry> {
    v.map_values(|e: (String, ArchiveData)| (e.0@, e.1@))
}

/// An archive that keeps items in memory under `archive_00000001`,
/// `archive_00000002`, ...
pub struct MockArchive {
    archives: Vec<(String, ArchiveData)>,
    next_id: u64,
}

impl MockArchive {
    /// The identified items, in the order they were first stored.
    pub closed spec fn entries(&self) -> Seq<ArchiveEntry> {
        entries_view(self.archives@)
    }

    /// The number the next item's identifier takes.
    pub closed spec fn next(&self) -> u64 {
        self.next_id
    }

    /// An empty archive whose first identifier is number 1.
    pub fn new() -> (r: Self)
        ensures
            r.entries() == Seq::<ArchiveEntry>::empty(),
            r.next() == 1,
    {
        let r = MockArchive { archives: Vec::new(), next_id: 1 };
        assert(r.entries() =~= Seq::<ArchiveEntry>::empty());
        r
    }

    /// The archive's name.
    pub fn name(&self) -> (r: &'static str)
        ensures
            r@ == "mock-archive"@,
    {
        "mock-archive"
    }

    /// The index of the entry with identifier `id`, as `find_id` gives it.
    fn position(&self, id: &String) -> (r: Option<usize>)
        ensures
            match r {
                Some(i) => i as int == find_id(self.entries(), id@) && i < self.archives@.len(),
                None => find_id(self.entries(), id@) == -1,
            },
    {
        let ghost s = self.entries();
        let mut i: usize = self.archives.len();
        assert(s.subrange(0, i as int) =~= s);
        while i > 0
            invariant
                i <= self.archives@.len(),
                s == self.entries(),
                find_id(s, id@) == find_id(s.subrange(0, i as int), id@),
            decreases i,
        {
            let ghost t = s.subrange(0, i as int);
            assert(t.last() == (self.archives@[i - 1].0@, self.archives@[i - 1].1@));
            if self.archives[i - 1].0 == *id {
                proof {
                    lemma_find_id(s, id@);
                }
                return Some(i - 1);
            }
            assert(t.drop_last() =~= s.subrange(0, i - 1));
            i -= 1;
        }
        None
    }

    /// Stores a copy of `data` under the next numbered identifier and gives
    /// that identifier.
    pub fn archive(&mut self, data: &ArchiveData) -> (res: Result<String, ()>)
        requires
            old(self).next() < u64::MAX,
        ensures
            res matches Ok(id) && id@ == archive_id(old(self).next()),
            final(self).next() == old(self).next() + 1,
            final(self).entries() == store_entry(
                old(self).entries(),
                archive_id(old(self).next()),
                data@,
            ),
    {
        let mut id = "archive_".to_owned();
        let digits = format_decimal(self.next_id, 8);
        string_push_str(&mut id, digits.as_str());
        self.next_id = self.next_id + 1;
        let d = data.copy();
        let ghost dv = d@;
        match self.position(&id) {
            Some(i) => {
                let ghost old_entries = self.entries();
                self.archives.set(i, (id.clone(), d));
                assert(self.entries() =~= old_entries.update(i as int, (id@, dv)));
            },
            None => {
                let ghost old_entries = self.entries();
                self.archives.push((id.clone(), d));
                assert(self.entries() =~= old_entries.push((id@, dv)));
            },
        }
        Ok(id)
    }

    /// Stores each item, in order, under consecutive numbered identifiers.
    pub fn archive_batch(&mut self, items: &[ArchiveData]) -> (res: Result<Vec<String>, ()>)
        requires
            old(self).next() + items@.len() < u64::MAX,
        ensures
            res matches Ok(ids) && ids@.len() == items@.len() && forall|i: int|
                0 <= i < ids@.len() ==> #[trigger] ids@[i]@ == archive_id(
                    (old(self).next() + i) as u64,
                ),
            final(self).next() == old(self).next() + items@.len(),
            final(self).entries() == store_batch(
                old(self).entries(),
                old(self).next() as nat,
                items_view(items@),
            ),
    {
        let ghost iv = items_view(items@);
        let mut ids: Vec<String> = Vec::new();
        let mut i: usize = 0;
        while i < items.len()
            invariant
                i <= items@.len(),
                ids@.len() == i,
                iv == items_view(items@),
                self.next() == old(self).next() + i,
                self.entries() == store_batch(
                    old(self).entries(),
                    old(self).next() as nat,
                    iv.subrange(0, i as int),
                ),
                old(self).next() + items@.len() < u64::MAX,
                forall|j: int|
                    0 <= j < i ==> #[trigger] ids@[j]@ == archive_id((old(self).next() + j) as u64),
            decreases items@.len() - i,
        {
            match self.archive(&items[i]) {
                Ok(id) => ids.push(id),
                Err(e) => {
                    return Err(e);
                },
            }
            i += 1;
            assert(iv.subrange(0, i as int).drop_last() =~= iv.subrange(0, i - 1));
            assert(iv.subrange(0, i as int).last() == items@[i - 1]@);
        }
        assert(iv.subrange(0, i as int) =~= iv);
        Ok(ids)
    }

    /// A copy of the item stored under `archive_id`, if any.
    pub fn retrieve(&self, archive_id: &str) -> (res: Result<Option<ArchiveData>, ()>)
        ensures
            res matches Ok(r) && (match r {
                None => find_id(self.entries(), archive_id@) == -1,
                Some(d) => find_id(self.entries(), archive_id@) >= 0 && d@ == self.entries()[find_id(
                    self.entries(),
                    archive_id@,
                )].1,
            }),
    {
        let id = archive_id.to_owned();
        match self.position(&id) {
            Some(i) => Ok(Some(self.archives[i].1.copy())),
            None => Ok(None),
        }
    }

    /// The identifiers of the items that fall under `filter`, in storage order.
    pub fn query(&self, filter: &ArchiveFilter) -> (res: Result<Vec<String>, ()>)
        ensures
            res matches Ok(ids) && ids@.map_values(|s: String| s@) == matching_ids(
                self.entries(),
                filter_namespace(*filter),
            ),
    {
        let ghost s = self.entries();
        let ghost ns = filter_namespace(*filter);
        let mut ids: Vec<String> = Vec::new();
        let mut i: usize = 0;
        while i < self.archives.len()
            invariant
                i <= self.archives@.len(),
                s == self.entries(),
                ns == filter_namespace(*filter),
                ids@.map_values(|x: String| x@) == matching_ids(s.subrange(0, i as int), ns),
            decreases self.archives@.len() - i,
        {
            let ghost before = ids@.map_values(|x: String| x@);
            assert(s.subrange(0, i + 1).drop_last() =~= s.subrange(0, i as int));
            assert(s.subrange(0, i + 1).last() == (self.archives@[i as int].0@, self.archives@[i as int].1@));
            if self.archives[i].1.matches(filter) {
                let id = self.archives[i].0.clone();
                ids.push(id);
                assert(ids@.map_values(|x: String| x@) =~= before.push(self.archives@[i as int].0@));
            }
            i += 1;
        }
        assert(s.subrange(0, i as int) =~= s);
        Ok(ids)
    }

    /// Removes the item stored under `archive_id`; tells whether there was one.
    pub fn delete(&mut self, archive_id: &str) -> (res: Result<bool, ()>)
        ensures
            res matches Ok(b) && b == (find_id(old(self).entries(), archive_id@) >= 0),
            find_id(old(self).entries(), archive_id@) >= 0 ==> final(self).entries() == old(
                self,
            ).entries().remove(find_id(old(self).entries(), archive_id@)),
            find_id(old(self).entries(), archive_id@) == -1 ==> final(self).entries() == old(
                self,
            ).entries(),
            final(self).next() == old(self).next(),
    {
        let id = archive_id.to_owned();
        match self.position(&id) {
            Some(i) => {
                let ghost old_entries = self.entries();
                let _ = self.archives.remove(i);
                assert(self.entries() =~= old_entries.remove(i as int));
                Ok(true)
            },
            None => Ok(false),
        }
    }

    /// The number the next item's identifier takes.
    pub fn next_number(&self) -> (n: u64)
        ensures
            n == self.next(),
    {
        self.next_id
    }

    /// The number of items stored.
    pub fn count(&self) -> (n: usize)
        ensures
            n == self.entries().len(),
    {
        self.archives.len()
    }

    /// Removes every item and numbers the next one 1 again.
    pub fn clear(&mut self)
        ensures
            final(self).entries() == Seq::<ArchiveEntry>::empty(),
            final(self).next() == 1,
    {
        self.archives.clear();
        self.next_id = 1;
        assert(self.entries() =~= Seq::<ArchiveEntry>::empty());
    }

    /// Copies of every identified item, in storage order.
    pub fn get_all(&self) -> (r: Vec<(String, ArchiveData)>)
        ensures
            entries_view(r@) == self.entries(),
    {
        let mut out: Vec<(String, ArchiveData)> = Vec::new();
        let mut i: usize = 0;
        while i < self.archives.len()
            invariant
                i <= self.archives@.len(),
                entries_view(out@) == self.entries().subrange(0, i as int),
            decreases self.archives@.len() - i,
        {
            let ghost before = entries_view(out@);
            let e = (self.archives[i].0.clone(), self.archives[i].1.copy());
            let ghost ev = (e.0@, e.1@);
            out.push(e);
            assert(entries_view(out@) =~= before.push(ev));
            i += 1;
            assert(entries_view(out@) =~= self.entries().subrange(0, i as int));
        }
        assert(self.entries().subrange(0, i as int) =~= self.entries());
        out
    }
}

impl Default for MockArchive {
    fn default() -> (r: Self)
        ensures
            r.entries() == Seq::<ArchiveEntry>::empty(),
            r.next() == 1,
    {
        Self::new()
    }
}

} // verus!
