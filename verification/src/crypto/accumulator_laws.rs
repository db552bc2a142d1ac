//! Laws of the accumulators behind one type: what putting, proving and
//! checking inclusion, absence and proofs mean, stated over the leaves each
//! accumulator holds.

use vstd::prelude::*;

use crate::crypto::hashing::sha256;
use crate::crypto::merkle_accumulator::fold_proof;
use crate::crypto::merkle_accumulator::merkle_includes;
use crate::crypto::mock_accumulator::law_mock_put_then_lookup;
use crate::crypto::sparse_merkle_accumulator::law_sparse_proof_verifies;
use crate::crypto::sparse_merkle_accumulator::sm_leaf;
use crate::crypto::sparse_merkle_accumulator::sm_proof_valid;
use crate::crypto::sparse_merkle_accumulator::steps_follow_key;
use crate::crypto::sparse_merkle_accumulator::tree_entries;
use crate::crypto::tree_store::monotree_next_root;
use crate::crypto::tree_store::monotree_verifies;
use crate::crypto::variant::initial_state;
use crate::crypto::variant::state_excludes;
use crate::crypto::variant::state_includes;
use crate::crypto::variant::state_prove;
use crate::crypto::variant::state_put;
use crate::crypto::variant::state_verifies;
use crate::crypto::variant::AccState;
use crate::crypto::variant::AccumulatorType;
use crate::types::find_key;
use crate::types::lemma_find_key;
use crate::types::lookup;
use crate::types::Entry;
use crate::types::Proof;

verus! {

/// A sparse Merkle proof that the accumulator gave for a key (one that
/// `monotree` accepts for the key's leaf under the root), whose steps follow
/// the key's bits, verifies for every value whose leaf the key holds.
pub proof fn law_sparse_given_proof_verifies(root: Seq<u8>, key: Seq<u8>, value: Seq<u8>, p: Proof)
    requires
        sm_proof_valid(Some(root), key, p@),
        tree_entries(Some(root))[key] == sm_leaf(key, value),
        steps_follow_key(key, p@),
    ensures
        state_verifies(AccState::SparseMerkle(Some(root)), root, key, value, Some(&p)),
{
    law_sparse_proof_verifies(root, key, value, p@);
}

/// A sparse Merkle accumulator accepts a proof exactly when there is one,
/// its steps follow the key's bits, and `monotree` accepts it for the leaf
/// `BLAKE3(key || value)` under the root; without a proof it accepts nothing.
pub proof fn law_sparse_verify_exact(
    held: Option<Seq<u8>>,
    root: Seq<u8>,
    key: Seq<u8>,
    value: Seq<u8>,
    maybe_proof: Option<&Proof>,
)
    ensures
        state_verifies(AccState::SparseMerkle(held), root, key, value, maybe_proof) == (
        match maybe_proof {
            None => false,
            Some(p) => steps_follow_key(key, p@) && monotree_verifies(root, sm_leaf(key, value), p@),
        }),
{
}

/// What a put leaves in a sparse Merkle accumulator (the key holding the
/// leaf of the value, every other key what it held) makes the key included
/// with that value, and changes the absence of no other key.
pub proof fn law_sparse_put_then_query(
    before: Option<Seq<u8>>,
    after: Option<Seq<u8>>,
    key: Seq<u8>,
    value: Seq<u8>,
    other: Seq<u8>,
)
    requires
        value.len() == 32,
        tree_entries(after) == tree_entries(before).insert(key, sm_leaf(key, value)),
    ensures
        state_includes(AccState::SparseMerkle(after), key, value),
        !state_excludes(AccState::SparseMerkle(after), key),
        other != key ==> state_excludes(AccState::SparseMerkle(after), other) == state_excludes(
            AccState::SparseMerkle(before),
            other,
        ),
{
}

/// Every put into a sparse Merkle accumulator, whether or not the key was
/// there before, moves it to the root that `monotree`'s insert gives for the
/// key and the leaf `BLAKE3(key || value)` over the current root: a later
/// write of a key is never dropped.
pub proof fn law_sparse_put_moves_root(held: Option<Seq<u8>>, key: Seq<u8>, value: Seq<u8>)
    ensures
        state_put(AccState::SparseMerkle(held), key, value) == AccState::SparseMerkle(
            Some(monotree_next_root(held, key, sm_leaf(key, value))),
        ),
{
}

/// A sparse Merkle accumulator vouches that a key holds a value exactly when
/// the value has 32 bytes and the key holds the leaf `BLAKE3(key || value)`.
pub proof fn law_sparse_inclusion_exact(held: Option<Seq<u8>>, key: Seq<u8>, value: Seq<u8>)
    ensures
        state_includes(AccState::SparseMerkle(held), key, value) == (value.len() == 32
            && tree_entries(held).dom().contains(key) && tree_entries(held)[key] == sm_leaf(
            key,
            value,
        )),
{
}

/// A sparse Merkle accumulator vouches that a key is absent exactly when the
/// key holds no leaf; a new one vouches for the absence of every key, and no
/// key is ever both included and absent.
pub proof fn law_sparse_exclusion_exact(held: Option<Seq<u8>>, key: Seq<u8>, value: Seq<u8>)
    ensures
        state_excludes(AccState::SparseMerkle(held), key) == !tree_entries(held).dom().contains(key),
        state_excludes(initial_state(AccumulatorType::SparseMerkle), key),
        !(state_includes(AccState::SparseMerkle(held), key, value) && state_excludes(
            AccState::SparseMerkle(held),
            key,
        )),
{
}

/// A Merkle accumulator vouches that a key holds a value exactly when the
/// value has 32 bytes and the key's latest leaf is the SHA-256 digest of
/// that value.
pub proof fn law_merkle_inclusion_exact(s: Seq<Entry>, key: Seq<u8>, value: Seq<u8>)
    ensures
        state_includes(AccState::Merkle(s), key, value) == (value.len() == 32 && find_key(s, key) >= 0
            && s[find_key(s, key)].1 == sha256(value)),
{
}

/// After a key is put into a Merkle accumulator with a 32-byte value, the
/// accumulator vouches that the key holds that value, and holds it for no
/// value whose digest differs.
pub proof fn law_merkle_put_then_included(s: Seq<Entry>, key: Seq<u8>, value: Seq<u8>, other: Seq<u8>)
    requires
        value.len() == 32,
    ensures
        state_includes(state_put(AccState::Merkle(s), key, value), key, value),
        sha256(other) != sha256(value) ==> !state_includes(
            state_put(AccState::Merkle(s), key, value),
            key,
            other,
        ),
{
    let t = s.push((key, sha256(value)));
    lemma_find_key(t, key);
    assert(t.last().0 == key);
    assert(find_key(t, key) == t.len() - 1);
}

/// A Merkle accumulator accepts a proof exactly when there is one and
/// folding it up from the SHA-256 digest of the value reaches the root; a
/// proof that leads from the key's latest leaf to the root therefore
/// verifies every value whose digest that leaf is.
pub proof fn law_merkle_verify_exact(
    s: Seq<Entry>,
    root: Seq<u8>,
    key: Seq<u8>,
    value: Seq<u8>,
    maybe_proof: Option<&Proof>,
)
    ensures
        state_verifies(AccState::Merkle(s), root, key, value, maybe_proof) == (match maybe_proof {
            None => false,
            Some(p) => fold_proof(sha256(value), p@) == Some(root),
        }),
        (maybe_proof matches Some(p) && merkle_includes(s, key, value) && fold_proof(
            s[find_key(s, key)].1,
            p@,
        ) == Some(root)) ==> state_verifies(AccState::Merkle(s), root, key, value, maybe_proof),
{
}

/// A Merkle accumulator gives a proof for a key exactly when the key holds
/// a leaf, and a sparse Merkle accumulator with nothing put gives none.
pub proof fn law_prove_exact(s: Seq<Entry>, key: Seq<u8>)
    ensures
        state_prove(AccState::Merkle(s), key) is Some <==> find_key(s, key) >= 0,
        state_prove(initial_state(AccumulatorType::SparseMerkle), key) is None,
{
}

/// A Merkle accumulator never vouches for the absence of a key: it has no
/// proof of absence.
pub proof fn law_merkle_never_excludes(s: Seq<Entry>, key: Seq<u8>)
    ensures
        !state_excludes(AccState::Merkle(s), key),
{
}

/// A mock accumulator vouches that a key holds a value exactly when it maps
/// the key to that value, and that a key is absent exactly when it maps the
/// key to nothing; after a put the key holds the value and every other key
/// keeps what it had.
pub proof fn law_mock_queries_exact(s: Seq<Entry>, key: Seq<u8>, value: Seq<u8>, other: Seq<u8>)
    ensures
        state_includes(AccState::Mock(s), key, value) == (lookup(s, key) == Some(value)),
        state_excludes(AccState::Mock(s), key) == (lookup(s, key) is None),
        state_includes(state_put(AccState::Mock(s), key, value), key, value),
        !state_excludes(state_put(AccState::Mock(s), key, value), key),
        other != key ==> state_excludes(state_put(AccState::Mock(s), key, value), other)
            == state_excludes(AccState::Mock(s), other),
{
    law_mock_put_then_lookup(s, key, value, other);
}

/// The XOR accumulator keeps no keys and vouches for every inclusion and
/// every absence.
pub proof fn law_simple_vouches_everything(r: Seq<u8>, key: Seq<u8>, value: Seq<u8>)
    ensures
        state_includes(AccState::Simple(r), key, value),
        state_excludes(AccState::Simple(r), key),
{
}

} // verus!
