//! The accumulators behind one type, chosen by configuration.

use vstd::prelude::*;

use crate::bytes::zero32;
use crate::crypto::hashing::sha256;
use crate::crypto::merkle_accumulator::leaf_hashes;
use crate::crypto::merkle_accumulator::merkle_includes;
use crate::crypto::merkle_accumulator::merkle_root_or_zero;
use crate::crypto::merkle_accumulator::spec_prove;
use crate::crypto::merkle_accumulator::MerkleAccumulator;
use crate::crypto::mock_accumulator::entries_root;
use crate::crypto::mock_accumulator::MockAccumulator;
use crate::crypto::merkle_accumulator::proof_reaches;
use crate::crypto::simple_accumulator::simple_put;
use crate::crypto::simple_accumulator::SimpleAccumulator;
use crate::crypto::sparse_merkle_accumulator::root_or_zero;
use crate::crypto::sparse_merkle_accumulator::sm_leaf;
use crate::crypto::sparse_merkle_accumulator::sm_proof_valid;
use crate::crypto::sparse_merkle_accumulator::sm_verifies;
use crate::crypto::sparse_merkle_accumulator::steps_follow_key;
use crate::crypto::sparse_merkle_accumulator::tree_entries;
use crate::crypto::sparse_merkle_accumulator::SparseMerkleAccumulator;
use crate::crypto::tree_store::monotree_next_root;
use crate::crypto::tree_store::monotree_proof;
use crate::crypto::tree_store::steps_well_formed;
use crate::types::find_key;
use crate::types::lookup;
use crate::types::spec_put;
use crate::types::AccumulatorError;
use crate::types::Entry;
use crate::types::Key32;
use crate::types::Proof;
use crate::types::Value32;

verus! {

/// Which accumulator to use.
#[derive(Clone, Copy, Debug, PartialEq, Eq)]
pub enum AccumulatorType {
    /// SHA-256 Merkle tree (`rs_merkle`).
    Merkle,
    /// BLAKE3 sparse Merkle tree (`monotree`).
    SparseMerkle,
    /// Key-value map with an XOR root.
    Mock,
    /// Running XOR of every key and value.
    Simple,
}

/// What an accumulator holds, as plain values.
pub enum AccState {
    Merkle(Seq<Entry>),
    /// The root of the tree's state, none while empty.
    SparseMerkle(Option<Seq<u8>>),
    Mock(Seq<Entry>),
    Simple(Seq<u8>),
}

/// What a new accumulator of type `t` holds.
pub open spec fn initial_state(t: AccumulatorType) -> AccState {
    match t {
        AccumulatorType::Merkle => AccState::Merkle(Seq::empty()),
        AccumulatorType::SparseMerkle => AccState::SparseMerkle(None),
        AccumulatorType::Mock => AccState::Mock(Seq::empty()),
        AccumulatorType::Simple => AccState::Simple(zero32()),
    }
}

/// What an accumulator holds after `key` is put with `value`.
pub open spec fn state_put(st: AccState, key: Seq<u8>, value: Seq<u8>) -> AccState {
    match st {
        AccState::Merkle(s) => AccState::Merkle(s.push((key, sha256(value)))),
        AccState::SparseMerkle(r) => AccState::SparseMerkle(
            Some(monotree_next_root(r, key, sm_leaf(key, value))),
        ),
        AccState::Mock(s) => AccState::Mock(spec_put(s, key, value)),
        AccState::Simple(r) => AccState::Simple(simple_put(r, key, value)),
    }
}

/// The root of what an accumulator holds.
pub open spec fn state_root(st: AccState) -> Seq<u8> {
    match st {
        AccState::Merkle(s) => merkle_root_or_zero(leaf_hashes(s)),
        AccState::SparseMerkle(r) => root_or_zero(r),
        AccState::Mock(s) => entries_root(s),
        AccState::Simple(r) => r,
    }
}

/// The proof an accumulator gives for `key`, if any.
pub open spec fn state_prove(st: AccState, key: Seq<u8>) -> Option<Seq<(bool, Seq<u8>)>> {
    match st {
        AccState::Merkle(s) => if find_key(s, key) >= 0 {
            Some(spec_prove(leaf_hashes(s), find_key(s, key) as nat))
        } else {
            None
        },
        AccState::SparseMerkle(r) => match r {
            None => None,
            Some(root) => monotree_proof(root, key),
        },
        _ => None,
    }
}

/// Whether an accumulator vouches that `key` holds `value`.
pub open spec fn state_includes(st: AccState, key: Seq<u8>, value: Seq<u8>) -> bool {
    match st {
        AccState::Merkle(s) => merkle_includes(s, key, value),
        AccState::SparseMerkle(r) => value.len() == 32 && tree_entries(r).dom().contains(key)
            && tree_entries(r)[key] == sm_leaf(key, value),
        AccState::Mock(s) => lookup(s, key) == Some(value),
        AccState::Simple(_) => true,
    }
}

/// Whether an accumulator vouches that `key` is absent.
pub open spec fn state_excludes(st: AccState, key: Seq<u8>) -> bool {
    match st {
        AccState::Merkle(_) => false,
        AccState::SparseMerkle(r) => !tree_entries(r).dom().contains(key),
        AccState::Mock(s) => lookup(s, key) is None,
        AccState::Simple(_) => true,
    }
}

/// What an accumulator of type `t` holds after each pair of `pairs` is put, in order.
pub open spec fn accumulate(t: AccumulatorType, pairs: Seq<(Seq<u8>, Seq<u8>)>) -> AccState
    decreases pairs.len(),
{
    if pairs.len() == 0 {
        initial_state(t)
    } else {
        state_put(accumulate(t, pairs.drop_last()), pairs.last().0, pairs.last().1)
    }
}

/// Whether `maybe_proof` vouches that `key` holds `value` under `root`, as
/// an accumulator in state `st` checks it.
pub open spec fn state_verifies(
    st: AccState,
    root: Seq<u8>,
    key: Seq<u8>,
    value: Seq<u8>,
    maybe_proof: Option<&Proof>,
) -> bool {
    match st {
        AccState::Merkle(_) => proof_reaches(root, sha256(value), maybe_proof),
        AccState::SparseMerkle(_) => sm_verifies(
            root,
            key,
            value,
            (match maybe_proof {
                Some(p) => Some(p@),
                None => None,
            }),
        ),
        _ => false,
    }
}

/// One of the accumulators.
pub enum AccumulatorVariant {
    Merkle(MerkleAccumulator),
    SparseMerkle(SparseMerkleAccumulator),
    Mock(MockAccumulator),
    Simple(SimpleAccumulator),
}

impl View for AccumulatorVariant {
    type V = AccState;

    open spec fn view(&self) -> AccState {
        match self {
            AccumulatorVariant::Merkle(a) => AccState::Merkle(a@),
            AccumulatorVariant::SparseMerkle(a) => AccState::SparseMerkle(a@),
            AccumulatorVariant::Mock(a) => AccState::Mock(a@),
            AccumulatorVariant::Simple(a) => AccState::Simple(a@),
        }
    }
}

impl AccumulatorVariant {
    /// The accumulator inside is well formed.
    pub open spec fn wf(&self) -> bool {
        match self {
            AccumulatorVariant::SparseMerkle(a) => a.wf(),
            _ => true,
        }
    }

    /// The type of the accumulator inside.
    pub open spec fn accumulator_kind(&self) -> AccumulatorType {
        match self {
            AccumulatorVariant::Merkle(_) => AccumulatorType::Merkle,
            AccumulatorVariant::SparseMerkle(_) => AccumulatorType::SparseMerkle,
            AccumulatorVariant::Mock(_) => AccumulatorType::Mock,
            AccumulatorVariant::Simple(_) => AccumulatorType::Simple,
        }
    }

    /// A new accumulator of the given type.
    pub fn new(accumulator_type: AccumulatorType) -> (a: Self)
        ensures
            a.wf(),
            a@ == initial_state(accumulator_type),
            a.accumulator_kind() == accumulator_type,
    {
        match accumulator_type {
            AccumulatorType::Merkle => AccumulatorVariant::Merkle(MerkleAccumulator::new()),
            AccumulatorType::SparseMerkle => AccumulatorVariant::SparseMerkle(
                SparseMerkleAccumulator::new(),
            ),
            AccumulatorType::Mock => AccumulatorVariant::Mock(MockAccumulator::new()),
            AccumulatorType::Simple => AccumulatorVariant::Simple(SimpleAccumulator::new()),
        }
    }

    /// The type of the accumulator inside.
    pub fn accumulator_type(&self) -> (t: AccumulatorType)
        ensures
            t == self.accumulator_kind(),
    {
        match self {
            AccumulatorVariant::Merkle(_) => AccumulatorType::Merkle,
            AccumulatorVariant::SparseMerkle(_) => AccumulatorType::SparseMerkle,
            AccumulatorVariant::Mock(_) => AccumulatorType::Mock,
            AccumulatorVariant::Simple(_) => AccumulatorType::Simple,
        }
    }

    /// The name of the accumulator inside.
    pub fn id(&self) -> (r: &'static str)
        ensures
            self is Merkle ==> r@ == "merkle"@,
            self is SparseMerkle ==> r@ == "sparse-merkle"@,
            self is Mock ==> r@ == "mock-accumulator"@,
            self is Simple ==> r@ == "simple-accumulator"@,
    {
        match self {
            AccumulatorVariant::Merkle(inner) => inner.id(),
            AccumulatorVariant::SparseMerkle(inner) => inner.id(),
            AccumulatorVariant::Mock(inner) => inner.id(),
            AccumulatorVariant::Simple(inner) => inner.id(),
        }
    }

    /// Puts `key` with `value`.
    pub fn put(&mut self, key: Key32, value: Value32) -> (res: Result<(), AccumulatorError>)
        requires
            old(self).wf(),
        ensures
            res is Ok,
            final(self).wf(),
            final(self).accumulator_kind() == old(self).accumulator_kind(),
            final(self)@ == state_put(old(self)@, key@, value@),
            old(self)@ matches AccState::SparseMerkle(r) ==> (final(self)@ matches AccState::SparseMerkle(
                r2,
            ) && tree_entries(r2) == tree_entries(r).insert(key@, sm_leaf(key@, value@))),
            old(self)@ matches AccState::Merkle(s) ==> final(self)@ == AccState::Merkle(
                s.push((key@, sha256(value@))),
            ),
    {
        match self {
            AccumulatorVariant::Merkle(inner) => inner.put(key, value),
            AccumulatorVariant::SparseMerkle(inner) => inner.put(key, value),
            AccumulatorVariant::Mock(inner) => inner.put(key, value),
            AccumulatorVariant::Simple(inner) => inner.put(key, value),
        }
    }

    /// The root of what the accumulator holds.
    pub fn build_root(&self) -> (res: Result<Vec<u8>, AccumulatorError>)
        ensures
            res matches Ok(r) && r@ == state_root(self@),
    {
        match self {
            AccumulatorVariant::Merkle(inner) => inner.build_root(),
            AccumulatorVariant::SparseMerkle(inner) => inner.build_root(),
            AccumulatorVariant::Mock(inner) => inner.build_root(),
            AccumulatorVariant::Simple(inner) => inner.build_root(),
        }
    }

    /// The proof for `key`: the Merkle and sparse Merkle accumulators give
    /// proofs, the others none.
    pub fn prove(&mut self, key: &Key32) -> (res: Result<Option<Proof>, AccumulatorError>)
        requires
            old(self).wf(),
        ensures
            final(self).wf(),
            final(self)@ == old(self)@,
            final(self).accumulator_kind() == old(self).accumulator_kind(),
            res matches Ok(r) && (match (r, state_prove(old(self)@, key@)) {
                (Some(p), Some(sp)) => p@ == sp,
                (None, None) => true,
                _ => false,
            }),
            old(self)@ matches AccState::SparseMerkle(held) ==> (res matches Ok(q) && (q is Some
                <==> tree_entries(held).dom().contains(key@)) && (q matches Some(p) ==> sm_proof_valid(
                held,
                key@,
                p@,
            ))),
            old(self)@ matches AccState::Merkle(s) ==> (res matches Ok(q) && (q is Some <==> find_key(
                s,
                key@,
            ) >= 0)),
    {
        match self {
            AccumulatorVariant::Merkle(inner) => inner.prove(key),
            AccumulatorVariant::SparseMerkle(inner) => inner.prove(key),
            AccumulatorVariant::Mock(_) => Ok(None),
            AccumulatorVariant::Simple(_) => Ok(None),
        }
    }

    /// Whether `maybe_proof` vouches that `key` holds `value` under `root`:
    /// the Merkle accumulator folds the proof up from the value's leaf, the
    /// sparse Merkle accumulator checks it with `monotree`; the others give
    /// no proofs and accept none.
    pub fn verify_proof(
        &self,
        root: &[u8; 32],
        key: &Key32,
        value: &Value32,
        maybe_proof: Option<&Proof>,
    ) -> (res: Result<bool, AccumulatorError>)
        requires
            self is SparseMerkle ==> (maybe_proof matches Some(p) ==> (steps_follow_key(key@, p@)
                ==> root@ != crate::bytes::zero32() && steps_well_formed(p@))),
        ensures
            res == Ok::<bool, AccumulatorError>(
                state_verifies(self@, root@, key@, value@, maybe_proof),
            ),
    {
        match self {
            AccumulatorVariant::Merkle(inner) => inner.verify_proof(root, value, maybe_proof),
            AccumulatorVariant::SparseMerkle(inner) => inner.verify_proof(
                root,
                key,
                value,
                maybe_proof,
            ),
            AccumulatorVariant::Mock(_) => Ok(false),
            AccumulatorVariant::Simple(_) => Ok(false),
        }
    }

    /// Whether the accumulator vouches that `key` holds `value`.
    pub fn verify_inclusion(&mut self, key: &Key32, value: &[u8]) -> (res: Result<
        bool,
        AccumulatorError,
    >)
        requires
            old(self).wf(),
        ensures
            final(self).wf(),
            final(self)@ == old(self)@,
            final(self).accumulator_kind() == old(self).accumulator_kind(),
            res matches Ok(b) && b == state_includes(old(self)@, key@, value@),
    {
        match self {
            AccumulatorVariant::Merkle(inner) => inner.verify_inclusion(key, value),
            AccumulatorVariant::SparseMerkle(inner) => inner.verify_inclusion(key, value),
            AccumulatorVariant::Mock(inner) => inner.verify_inclusion(key, value),
            AccumulatorVariant::Simple(inner) => inner.verify_inclusion(key, value),
        }
    }

    /// Whether the accumulator vouches that `key` is absent.
    pub fn verify_non_inclusion(&mut self, key: &Key32) -> (res: Result<bool, AccumulatorError>)
        requires
            old(self).wf(),
        ensures
            final(self).wf(),
            final(self)@ == old(self)@,
            final(self).accumulator_kind() == old(self).accumulator_kind(),
            res matches Ok(b) && b == state_excludes(old(self)@, key@),
    {
        match self {
            AccumulatorVariant::Merkle(inner) => inner.verify_non_inclusion(key),
            AccumulatorVariant::SparseMerkle(inner) => inner.verify_non_inclusion(key),
            AccumulatorVariant::Mock(inner) => inner.verify_non_inclusion(key),
            AccumulatorVariant::Simple(inner) => inner.verify_non_inclusion(key),
        }
    }

    /// Empties the accumulator.
    pub fn flush(&mut self) -> (res: Result<(), AccumulatorError>)
        ensures
            res is Ok,
            final(self).wf(),
            final(self).accumulator_kind() == old(self).accumulator_kind(),
            final(self)@ == initial_state(old(self).accumulator_kind()),
    {
        match self {
            AccumulatorVariant::Merkle(inner) => inner.flush(),
            AccumulatorVariant::SparseMerkle(inner) => inner.flush(),
            AccumulatorVariant::Mock(inner) => inner.flush(),
            AccumulatorVariant::Simple(inner) => inner.flush(),
        }
    }
}

} // verus!
