//! The record store: every incoming record, kept in arrival order until a
//! commit removes it.

use vstd::prelude::*;

use crate::bytes::eq32;
use crate::types::IncomingRecord;
use crate::types::Key32;
use crate::types::Namespace;

verus! {

/// Selects the records of a namespace, up to a time when one is given.
#[derive(Clone, Copy, Debug)]
pub struct StorageScanFilter {
    pub namespace: Namespace,
    pub timestamp: Option<u64>,
}

/// Selects the records of a namespace up to a time, for removal.
#[derive(Clone, Copy, Debug)]
pub struct StorageDeleteFilter {
    pub namespace: Namespace,
    pub timestamp: u64,
}

/// Whether `r` is of namespace `ns` and, when `bound` is given, not later than it.
pub open spec fn in_batch(r: IncomingRecord, ns: Seq<u8>, bound: Option<u64>) -> bool {
    r.namespace@ == ns && match bound {
        None => true,
        Some(t) => r.timestamp <= t,
    }
}

/// The records of `s` that `in_batch` selects, in order.
pub open spec fn select(s: Seq<IncomingRecord>, ns: Seq<u8>, bound: Option<u64>) -> Seq<
    IncomingRecord,
>
    decreases s.len(),
{
    if s.len() == 0 {
        seq![]
    } else {
        let rest = select(s.drop_last(), ns, bound);
        if in_batch(s.last(), ns, bound) {
            rest.push(s.last())
        } else {
            rest
        }
    }
}

/// The records of `s` that `in_batch` does not select, in order.
pub open spec fn reject(s: Seq<IncomingRecord>, ns: Seq<u8>, bound: Option<u64>) -> Seq<
    IncomingRecord,
>
    decreases s.len(),
{
    if s.len() == 0 {
        seq![]
    } else {
        let rest = reject(s.drop_last(), ns, bound);
        if in_batch(s.last(), ns, bound) {
            rest
        } else {
            rest.push(s.last())
        }
    }
}

/// Whether `r` is the record looked up by namespace, key and, when given, timestamp.
pub open spec fn is_lookup_match(
    r: IncomingRecord,
    ns: Seq<u8>,
    key: Seq<u8>,
    timestamp: Option<u64>,
) -> bool {
    r.namespace@ == ns && r.key@ == key && match timestamp {
        None => true,
        Some(t) => r.timestamp == t,
    }
}

/// The latest record of `s` that `is_lookup_match` selects.
pub open spec fn latest_record(
    s: Seq<IncomingRecord>,
    ns: Seq<u8>,
    key: Seq<u8>,
    timestamp: Option<u64>,
) -> Option<IncomingRecord>
    decreases s.len(),
{
    if s.len() == 0 {
        None
    } else if is_lookup_match(s.last(), ns, key, timestamp) {
        Some(s.last())
    } else {
        latest_record(s.drop_last(), ns, key, timestamp)
    }
}

/// Every record is either selected or rejected, so the two parts add up.
pub proof fn lemma_select_reject_len(s: Seq<IncomingRecord>, ns: Seq<u8>, bound: Option<u64>)
    ensures
        select(s, ns, bound).len() + reject(s, ns, bound).len() == s.len(),
    decreases s.len(),
{
    if s.len() > 0 {
        lemma_select_reject_len(s.drop_last(), ns, bound);
    }
}

/// A record is in the selection of `s` exactly when it is in `s` and selected;
/// likewise for the rejection.
pub proof fn lemma_select_reject_members(
    s: Seq<IncomingRecord>,
    ns: Seq<u8>,
    bound: Option<u64>,
    r: IncomingRecord,
)
    ensures
        select(s, ns, bound).contains(r) <==> (s.contains(r) && in_batch(r, ns, bound)),
        reject(s, ns, bound).contains(r) <==> (s.contains(r) && !in_batch(r, ns, bound)),
    decreases s.len(),
{
    if s.len() > 0 {
        let t = s.drop_last();
        lemma_select_reject_members(t, ns, bound, r);
        assert(s =~= t.push(s.last()));
        assert(s.contains(r) <==> (t.contains(r) || r == s.last())) by {
            if s.contains(r) {
                let i = choose|i: int| 0 <= i < s.len() && s[i] == r;
                if i < s.len() - 1 {
                    assert(t[i] == r);
                }
            }
            if t.contains(r) {
                let i = choose|i: int| 0 <= i < t.len() && t[i] == r;
                assert(s[i] == r);
            }
            if r == s.last() {
                assert(s[s.len() - 1] == r);
            }
        }
        let sel = select(t, ns, bound);
        let rej = reject(t, ns, bound);
        assert(sel.push(s.last()).contains(r) <==> (sel.contains(r) || r == s.last())) by {
            if sel.push(s.last()).contains(r) {
                let i = choose|i: int| 0 <= i < sel.len() + 1 && sel.push(s.last())[i] == r;
                if i < sel.len() {
                    assert(sel[i] == r);
                }
            }
            if sel.contains(r) {
                let i = choose|i: int| 0 <= i < sel.len() && sel[i] == r;
                assert(sel.push(s.last())[i] == r);
            }
            if r == s.last() {
                assert(sel.push(s.last())[sel.len() as int] == r);
            }
        }
        assert(rej.push(s.last()).contains(r) <==> (rej.contains(r) || r == s.last())) by {
            if rej.push(s.last()).contains(r) {
                let i = choose|i: int| 0 <= i < rej.len() + 1 && rej.push(s.last())[i] == r;
                if i < rej.len() {
                    assert(rej[i] == r);
                }
            }
            if rej.contains(r) {
                let i = choose|i: int| 0 <= i < rej.len() && rej[i] == r;
                assert(rej.push(s.last())[i] == r);
            }
            if r == s.last() {
                assert(rej.push(s.last())[rej.len() as int] == r);
            }
        }
    }
}

/// The in-memory record store.
pub struct Storage {
    records: Vec<IncomingRecord>,
}

impl View for Storage {
    type V = Seq<IncomingRecord>;

    /// The stored records, in arrival order.
    closed spec fn view(&self) -> Seq<IncomingRecord> {
        self.records@
    }
}

impl Storage {
    /// An empty store.
    pub fn new() -> (s: Self)
        ensures
            s@ == Seq::<IncomingRecord>::empty(),
    {
        Storage { records: Vec::new() }
    }

    /// The number of stored records.
    pub fn len(&self) -> (n: usize)
        ensures
            n == self@.len(),
    {
        self.records.len()
    }

    /// Stores a record.
    pub fn put(&mut self, record: &IncomingRecord)
        ensures
            final(self)@ == old(self)@.push(*record),
    {
        self.records.push(*record);
    }

    /// The latest record of the namespace and key (and timestamp, when given).
    pub fn get(&self, namespace: &Namespace, key: &Key32, timestamp: Option<u64>) -> (r: Option<
        IncomingRecord,
    >)
        ensures
            r == latest_record(self@, namespace@, key@, timestamp),
    {
        let mut i: usize = self.records.len();
        assert(self@.subrange(0, i as int) =~= self@);
        while i > 0
            invariant
                i <= self.records@.len(),
                latest_record(self@, namespace@, key@, timestamp) == latest_record(
                    self@.subrange(0, i as int),
                    namespace@,
                    key@,
                    timestamp,
                ),
            decreases i,
        {
            let r = self.records[i - 1];
            let ghost t = self@.subrange(0, i as int);
            assert(t.last() == r);
            let ts_ok = match timestamp {
                None => true,
                Some(t) => r.timestamp == t,
            };
            if eq32(&r.namespace, namespace) && eq32(&r.key, key) && ts_ok {
                return Some(r);
            }
            assert(t.drop_last() =~= self@.subrange(0, i - 1));
            i -= 1;
        }
        None
    }

    /// The records of the filter's namespace, up to its time when given, in
    /// arrival order.
    pub fn scan(&self, filter: &StorageScanFilter) -> (r: Vec<IncomingRecord>)
        ensures
            r@ == select(self@, filter.namespace@, filter.timestamp),
    {
        let mut out: Vec<IncomingRecord> = Vec::new();
        let mut i: usize = 0;
        while i < self.records.len()
            invariant
                i <= self.records@.len(),
                out@ == select(self@.subrange(0, i as int), filter.namespace@, filter.timestamp),
            decreases self.records@.len() - i,
        {
            let r = self.records[i];
            let ts_ok = match filter.timestamp {
                None => true,
                Some(t) => r.timestamp <= t,
            };
            if eq32(&r.namespace, &filter.namespace) && ts_ok {
                out.push(r);
            }
            i += 1;
            assert(self@.subrange(0, i as int).drop_last() =~= self@.subrange(0, i - 1));
        }
        assert(self@.subrange(0, i as int) =~= self@);
        out
    }

    /// Removes the records of the filter's namespace up to its time; gives
    /// how many were removed.
    pub fn delete(&mut self, filter: &StorageDeleteFilter) -> (n: usize)
        ensures
            final(self)@ == reject(old(self)@, filter.namespace@, Some(filter.timestamp)),
            n == select(old(self)@, filter.namespace@, Some(filter.timestamp)).len(),
    {
        let ghost s = self@;
        let ghost bound = Some(filter.timestamp);
        let mut kept: Vec<IncomingRecord> = Vec::new();
        let mut removed: usize = 0;
        let mut i: usize = 0;
        while i < self.records.len()
            invariant
                i <= self.records@.len(),
                s == self@,
                bound == Some(filter.timestamp),
                kept@ == reject(s.subrange(0, i as int), filter.namespace@, bound),
                removed == select(s.subrange(0, i as int), filter.namespace@, bound).len(),
            decreases self.records@.len() - i,
        {
            proof {
                lemma_select_reject_len(s.subrange(0, i as int), filter.namespace@, bound);
            }
            let r = self.records[i];
            if eq32(&r.namespace, &filter.namespace) && r.timestamp <= filter.timestamp {
                removed += 1;
            } else {
                kept.push(r);
            }
            i += 1;
            assert(s.subrange(0, i as int).drop_last() =~= s.subrange(0, i - 1));
        }
        assert(s.subrange(0, i as int) =~= s);
        self.records = kept;
        removed
    }
}

/// A stored record can be read back by its namespace and key until a later
/// record of the same namespace and key is stored.
pub proof fn law_put_then_get(s: Seq<IncomingRecord>, r: IncomingRecord)
    ensures
        latest_record(s.push(r), r.namespace@, r.key@, None) == Some(r),
        latest_record(s.push(r), r.namespace@, r.key@, Some(r.timestamp)) == Some(r),
{
    assert(s.push(r).last() == r);
}

/// After a delete, no record of the namespace up to the time is left, and
/// every other record is kept.
pub proof fn law_delete_removes_exactly_the_batch(
    s: Seq<IncomingRecord>,
    ns: Seq<u8>,
    t: u64,
    r: IncomingRecord,
)
    ensures
        reject(s, ns, Some(t)).contains(r) <==> (s.contains(r) && !in_batch(r, ns, Some(t))),
        select(s, ns, Some(t)).contains(r) <==> (s.contains(r) && in_batch(r, ns, Some(t))),
{
    lemma_select_reject_members(s, ns, Some(t), r);
}

} // verus!
