//! Feeds raw records to a plugin-record accumulator: each record is given a
//! fixed namespace, its value cut or zero-padded to 32 bytes, and the commit
//! time as its timestamp.

use vstd::prelude::*;

use crate::accumulator::sdk_accumulator::commit_proofs;
use crate::accumulator::sdk_accumulator::distinct_keys;
use crate::accumulator::sdk_accumulator::SDKTrait;
use crate::types::namespaces_of;
use crate::accumulator::sdk_accumulator::sdk_entries;
use crate::accumulator::sdk_accumulator::sdk_leaf;
use crate::accumulator::sdk_accumulator::SdkAccumulator;
use crate::accumulator::sdk_accumulator::StandardWrapper;
use crate::crypto::hashing::rs_merkle_root;
use crate::crypto::merkle_accumulator::leaf_hashes;
use crate::types::proofs_view;
use crate::types::AccumulatorError;
use crate::types::CommitmentResult;
use crate::types::Entry;
use crate::types::RawRecord;

verus! {

/// The first 32 bytes of `v`, followed by zeros when `v` is shorter.
pub open spec fn pad32(v: Seq<u8>) -> Seq<u8> {
    Seq::new(32, |i: int| if i < v.len() { v[i] } else { 0u8 })
}

/// The (key, leaf) entries the adapter feeds for `records`.
pub open spec fn zk_entries(records: Seq<RawRecord>) -> Seq<Entry> {
    records.map_values(|r: RawRecord| (r.key@, sdk_leaf(r.key@, pad32(r.value@))))
}

/// The keys of `records`, in order.
pub open spec fn raw_keys(records: Seq<RawRecord>) -> Seq<Seq<u8>> {
    records.map_values(|r: RawRecord| r.key@)
}

/// The first 32 bytes of `v`, zero-padded.
fn pad_value(v: &Vec<u8>) -> (r: [u8; 32])
    ensures
        r@ == pad32(v@),
{
    let mut out = [0u8; 32];
    let n: usize = if v.len() < 32 { v.len() } else { 32 };
    let mut i: usize = 0;
    while i < n
        invariant
            i <= n <= 32,
            n <= v@.len(),
            n == 32 || n == v@.len(),
            out@.len() == 32,
            forall|j: int| 0 <= j < i ==> out@[j] == v@[j],
            forall|j: int| i <= j < 32 ==> out@[j] == 0u8,
        decreases n - i,
    {
        out[i] = v[i];
        i += 1;
    }
    assert(out@ =~= pad32(v@));
    out
}

/// An adapter that commits raw records through a plugin-record accumulator.
pub struct ZkAccumulatorAdapter {
    pub inner: SdkAccumulator,
    pub default_namespace: [u8; 32],
}

impl ZkAccumulatorAdapter {
    /// An adapter around `zk_accumulator` with the zero namespace.
    pub fn new(zk_accumulator: SdkAccumulator) -> (r: Self)
        ensures
            r.inner@ == zk_accumulator@,
            r.default_namespace@ == crate::bytes::zero32(),
    {
        let r = ZkAccumulatorAdapter { inner: zk_accumulator, default_namespace: [0u8; 32] };
        assert(r.default_namespace@ =~= crate::bytes::zero32());
        r
    }

    /// The same adapter with `namespace` given to every record.
    pub fn with_namespace(self, namespace: [u8; 32]) -> (r: Self)
        ensures
            r.inner@ == self.inner@,
            r.default_namespace == namespace,
    {
        let mut s = self;
        s.default_namespace = namespace;
        s
    }

    /// The accumulator's name.
    pub fn id(&self) -> (r: &'static str)
        ensures
            r@ == "zk"@,
    {
        "zk"
    }

    /// Commits `records` at time `now`: each becomes a plugin record of the
    /// adapter's namespace with its value cut or padded to 32 bytes, and the
    /// inner accumulator commits them. Fails exactly when there are no records.
    pub fn commit(&mut self, records: &[RawRecord], now: u64) -> (res: Result<
        CommitmentResult,
        AccumulatorError,
    >)
        ensures
            records@.len() == 0 ==> res == Err::<CommitmentResult, AccumulatorError>(
                AccumulatorError::EmptyRecords,
            ) && final(self).inner@ == old(self).inner@,
            records@.len() > 0 ==> final(self).inner@ == zk_entries(records@),
            records@.len() > 0 ==> (res matches Ok(r) && r.commitment@ == rs_merkle_root(
                leaf_hashes(zk_entries(records@)),
            ) && r.committed_at == now && proofs_view(r.proofs) == Some(
                commit_proofs(zk_entries(records@), distinct_keys(raw_keys(records@))),
            ) && namespaces_of(r.namespaces@) == Seq::new(
                records@.len(),
                |i: int| old(self).default_namespace@,
            ) && r.item_count == records@.len() && r.timestamp == now),
            final(self).default_namespace == old(self).default_namespace,
    {
        if records.len() == 0 {
            return Err(AccumulatorError::EmptyRecords);
        }
        let mut zk_records: Vec<StandardWrapper> = Vec::new();
        let mut i: usize = 0;
        while i < records.len()
            invariant
                i <= records@.len(),
                zk_records@.len() == i,
                forall|j: int|
                    0 <= j < i ==> (#[trigger] zk_records@[j]).key == records@[j].key
                        && zk_records@[j].value@ == pad32(records@[j].value@)
                        && zk_records@[j].timestamp == now
                        && zk_records@[j].namespace == self.default_namespace,
            decreases records@.len() - i,
        {
            let value = pad_value(&records[i].value);
            zk_records.push(
                StandardWrapper {
                    namespace: self.default_namespace,
                    key: records[i].key,
                    value,
                    timestamp: now,
                },
            );
            i += 1;
        }
        proof {
            assert(sdk_entries(zk_records@) =~= zk_entries(records@));
            assert(zk_records@.map_values(|r: StandardWrapper| r.key@) =~= raw_keys(records@));
            assert(zk_records@.map_values(|r: StandardWrapper| r.spec_key()) =~= raw_keys(records@));
            assert(zk_records@.map_values(|r: StandardWrapper| r.spec_namespace()) =~= Seq::new(
                records@.len(),
                |i: int| self.default_namespace@,
            ));
        }
        let res = self.inner.commit_trait(zk_records.as_slice());
        match res {
            Err(e) => Err(e),
            Ok(r) => {
                assert(zk_records@[0].timestamp == now);
                Ok(r)
            },
        }
    }
}

} // verus!
