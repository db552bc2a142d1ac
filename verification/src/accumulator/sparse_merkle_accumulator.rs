//! A batch accumulator over the sparse Merkle tree of `monotree`: a commit
//! inserts every record into a fresh tree, keyed by the record's key with the
//! leaf `BLAKE3(key || value)`, and reports the tree's root.

use vstd::prelude::*;

use crate::crypto::hashing::blake3_hash;
use crate::crypto::merkle_accumulator::concat_bytes;
use crate::crypto::sparse_merkle_accumulator::root_or_zero;
use crate::crypto::sparse_merkle_accumulator::sm_leaf;
use crate::crypto::tree_store::monotree_next_root;
use crate::crypto::tree_store::monotree_roots;
use crate::crypto::tree_store::tree_insert;
use crate::crypto::tree_store::tree_new;
use crate::crypto::tree_store::word_view;
use crate::crypto::tree_store::Digest32;
use crate::crypto::variant::AccumulatorType;
use crate::types::proofs_view;
use crate::types::AccumulatorError;
use crate::types::CommitmentResult;
use crate::types::Key32;
use crate::types::Proof;
use crate::types::Record;
use crate::types::namespaces_of;
use crate::types::record_namespaces_view;
use crate::types::record_namespaces;

verus! {

/// The root a fresh tree has after the records are inserted in order; none
/// when there are no records.
pub open spec fn chain_root(records: Seq<Record>) -> Option<Seq<u8>>
    decreases records.len(),
{
    if records.len() == 0 {
        None
    } else {
        let r = records.last();
        Some(monotree_next_root(chain_root(records.drop_last()), r.key@, sm_leaf(r.key@, r.value@)))
    }
}

/// Sparse Merkle batch accumulator.
pub struct SparseMerkleAccumulator {}

impl SparseMerkleAccumulator {
    /// A new accumulator.
    pub fn new() -> (a: Self) {
        SparseMerkleAccumulator {  }
    }

    /// The accumulator's type.
    pub fn accumulator_type(&self) -> (t: AccumulatorType)
        ensures
            t == AccumulatorType::SparseMerkle,
    {
        AccumulatorType::SparseMerkle
    }

    /// The leaf of `key` and `value`.
    pub fn leaf_hash(key: &Key32, value: &[u8]) -> (r: Digest32)
        ensures
            r@ == sm_leaf(key@, value@),
    {
        let buf = concat_bytes(key, value);
        blake3_hash(buf.as_slice())
    }

    /// Inserts every record, in order, into a fresh tree and gives its root
    /// (32 zero bytes when there are no records), committed at `now`, with
    /// the records' namespaces in order, their number, and `now` as the
    /// result's timestamp. No proofs are produced.
    pub fn commit(&self, records: &[Record], now: u64) -> (res: Result<
        CommitmentResult,
        AccumulatorError,
    >)
        ensures
            res matches Ok(r) && r.commitment@ == root_or_zero(chain_root(records@))
                && r.committed_at == now && proofs_view(r.proofs) == Some(
                Seq::<(Seq<u8>, Seq<(bool, Seq<u8>)>)>::empty(),
            ) && namespaces_of(r.namespaces@) == record_namespaces_view(records@)
                && r.item_count == records@.len() && r.timestamp == now,
    {
        let mut tree = tree_new();
        let mut root: Option<Digest32> = None;
        let mut i: usize = 0;
        while i < records.len()
            invariant
                i <= records@.len(),
                word_view(root) == chain_root(records@.subrange(0, i as int)),
                root matches Some(h) ==> monotree_roots(tree).contains(h@),
            decreases records@.len() - i,
        {
            let key = records[i].key;
            let leaf = Self::leaf_hash(&key, records[i].value.as_slice());
            match tree_insert(&mut tree, root, &key, &leaf) {
                Ok(Some(h)) => {
                    root = Some(h);
                },
                _ => {
                    proof {
                        assert(false);
                    }
                },
            }
            i += 1;
            assert(records@.subrange(0, i as int).drop_last() =~= records@.subrange(0, i - 1));
        }
        assert(records@.subrange(0, i as int) =~= records@);
        let commitment = match root {
            Some(h) => crate::bytes::array_to_vec(&h),
            None => {
                let z = [0u8; 32];
                let v = crate::bytes::array_to_vec(&z);
                assert(v@ =~= crate::bytes::zero32());
                v
            },
        };
        let proofs: Vec<(Key32, Proof)> = Vec::new();
        let namespaces = record_namespaces(records);
        let r = CommitmentResult {
            commitment,
            proofs: Some(proofs),
            committed_at: now,
            namespaces,
            item_count: records.len() as u64,
            timestamp: now,
        };
        assert(proofs_view(r.proofs) =~= Some(Seq::<(Seq<u8>, Seq<(bool, Seq<u8>)>)>::empty()));
        Ok(r)
    }
}

impl Default for SparseMerkleAccumulator {
    fn default() -> (r: Self)
        ensures
            r == (SparseMerkleAccumulator {  }),
    {
        Self::new()
    }
}

} // verus!
