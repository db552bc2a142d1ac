//! The commit step shared by the orchestrators: fold a namespace's stored
//! records into a root, register the batch commitment, and drop the records.

use vstd::prelude::*;

use crate::commitment_registry::variant::registry_after_commit;
use crate::commitment_registry::variant::RegistryView;
use crate::commitment_registry::CommitmentRegistryVariant;
use crate::crypto::variant::accumulate;
use crate::crypto::variant::state_root;
use crate::crypto::variant::AccumulatorType;
use crate::crypto::variant::AccumulatorVariant;
use crate::storage::reject;
use crate::storage::select;
use crate::storage::Storage;
use crate::storage::StorageDeleteFilter;
use crate::storage::StorageScanFilter;
use crate::types::BatchCommitmentMeta;
use crate::types::Commitment;
use crate::types::IncomingRecord;
use crate::types::MetaView;
use crate::types::Namespace;

verus! {

/// The key-value pairs of records, in order.
pub open spec fn record_pairs(recs: Seq<IncomingRecord>) -> Seq<(Seq<u8>, Seq<u8>)> {
    recs.map_values(|r: IncomingRecord| (r.key@, r.value@))
}

/// The root of records under an accumulator of type `t`.
pub open spec fn batch_root(t: AccumulatorType, recs: Seq<IncomingRecord>) -> Seq<u8> {
    state_root(accumulate(t, record_pairs(recs)))
}

/// The batch commitment of records of namespace `ns` committed at `committed_at`.
pub open spec fn batch_meta(
    ns: Seq<u8>,
    recs: Seq<IncomingRecord>,
    committed_at: u64,
    t: AccumulatorType,
) -> MetaView {
    ((ns, batch_root(t, recs), committed_at), recs.len() as u64)
}

/// The record store and the commitment registry, as plain values.
pub struct CommitState {
    pub storage: Seq<IncomingRecord>,
    pub registry: RegistryView,
}

/// The state after committing namespace `ns` at `committed_at`: its records
/// up to that time, if any, become one batch commitment and leave the store.
pub open spec fn commit_ns_state(
    st: CommitState,
    ns: Seq<u8>,
    committed_at: u64,
    t: AccumulatorType,
) -> CommitState {
    let recs = select(st.storage, ns, Some(committed_at));
    if recs.len() == 0 {
        st
    } else {
        CommitState {
            storage: reject(st.storage, ns, Some(committed_at)),
            registry: registry_after_commit(st.registry, batch_meta(ns, recs, committed_at, t)),
        }
    }
}

/// The state after committing each namespace of `nss`, in order.
pub open spec fn commit_all(
    st: CommitState,
    nss: Seq<Seq<u8>>,
    committed_at: u64,
    t: AccumulatorType,
) -> CommitState
    decreases nss.len(),
{
    if nss.len() == 0 {
        st
    } else {
        commit_ns_state(commit_all(st, nss.drop_last(), committed_at, t), nss.last(), committed_at, t)
    }
}

/// An accumulator of type `t` holding the keys and values of `records`, put in order.
pub fn accumulate_records(t: AccumulatorType, records: &Vec<IncomingRecord>) -> (acc:
    AccumulatorVariant)
    ensures
        acc.wf(),
        acc.accumulator_kind() == t,
        acc@ == accumulate(t, record_pairs(records@)),
{
    let mut acc = AccumulatorVariant::new(t);
    let mut i: usize = 0;
    while i < records.len()
        invariant
            i <= records@.len(),
            acc.wf(),
            acc.accumulator_kind() == t,
            acc@ == accumulate(t, record_pairs(records@).subrange(0, i as int)),
        decreases records@.len() - i,
    {
        let _ = acc.put(records[i].key, records[i].value);
        i += 1;
        assert(record_pairs(records@).subrange(0, i as int).drop_last() =~= record_pairs(
            records@,
        ).subrange(0, i - 1));
    }
    assert(record_pairs(records@).subrange(0, i as int) =~= record_pairs(records@));
    acc
}

/// The batch commitment of `records`.
pub fn build_batch_meta(
    namespace: &Namespace,
    records: &Vec<IncomingRecord>,
    committed_at: u64,
    t: AccumulatorType,
) -> (m: BatchCommitmentMeta)
    ensures
        m@ == batch_meta(namespace@, records@, committed_at, t),
{
    let acc = accumulate_records(t, records);
    let root = match acc.build_root() {
        Ok(r) => r,
        Err(_) => Vec::new(),
    };
    BatchCommitmentMeta {
        commitment: Commitment { namespace: *namespace, root, committed_at },
        leaf_count: records.len() as u64,
    }
}

/// Commits the records of `namespace` up to `committed_at`: when there are
/// any, registers their batch commitment and removes them from the store.
/// Gives the records committed.
pub fn commit_namespace_records(
    storage: &mut Storage,
    registry: &mut CommitmentRegistryVariant,
    namespace: &Namespace,
    committed_at: u64,
    t: AccumulatorType,
) -> (recs: Vec<IncomingRecord>)
    ensures
        recs@ == select(old(storage)@, namespace@, Some(committed_at)),
        (CommitState { storage: final(storage)@, registry: final(registry)@ }) == commit_ns_state(
            CommitState { storage: old(storage)@, registry: old(registry)@ },
            namespace@,
            committed_at,
            t,
        ),
{
    let filter = StorageScanFilter { namespace: *namespace, timestamp: Some(committed_at) };
    let records = storage.scan(&filter);
    if records.len() == 0 {
        return records;
    }
    let meta = build_batch_meta(namespace, &records, committed_at, t);
    let _ = registry.commit(&meta);
    let delete_filter = StorageDeleteFilter { namespace: *namespace, timestamp: committed_at };
    let _ = storage.delete(&delete_filter);
    records
}

/// After a commit of a namespace at a time, the store holds none of its
/// records up to that time.
pub proof fn law_commit_leaves_no_batch(
    st: CommitState,
    ns: Seq<u8>,
    committed_at: u64,
    t: AccumulatorType,
)
    ensures
        select(commit_ns_state(st, ns, committed_at, t).storage, ns, Some(committed_at)).len()
            == 0,
{
    lemma_select_of_reject(st.storage, ns, Some(committed_at));
}

/// Selecting from what was rejected by the same test gives nothing.
proof fn lemma_select_of_reject(s: Seq<IncomingRecord>, ns: Seq<u8>, bound: Option<u64>)
    ensures
        select(reject(s, ns, bound), ns, bound).len() == 0,
        select(s, ns, bound).len() == 0 ==> reject(s, ns, bound) == s,
    decreases s.len(),
{
    if s.len() > 0 {
        lemma_select_of_reject(s.drop_last(), ns, bound);
        let r = reject(s.drop_last(), ns, bound);
        if !crate::storage::in_batch(s.last(), ns, bound) {
            assert(r.push(s.last()).drop_last() =~= r);
        }
        crate::storage::lemma_select_reject_len(s.drop_last(), ns, bound);
        if select(s, ns, bound).len() == 0 {
            assert(s.drop_last().push(s.last()) =~= s);
        }
    }
}

} // verus!
