//! The sparse Merkle tree of the `monotree` crate, with the contracts this
//! library relies on.
//!
//! A `monotree` keeps every node it ever wrote in its database, addressed by
//! the node's hash, so a root hash stands for one tree state for good.
//! Nothing here is proved: each item states what the outside code does.

use vstd::prelude::*;

use monotree::database::MemoryDB;
use monotree::hasher::Blake3;
use monotree::Errors;
use monotree::Hasher;
use monotree::Monotree;

verus! {

#[verifier::external_type_specification]
#[verifier::external_body]
#[verifier::reject_recursive_types(D)]
#[verifier::reject_recursive_types(H)]
pub struct ExMonotree<D, H>(Monotree<D, H>);

#[verifier::external_type_specification]
#[verifier::external_body]
pub struct ExMemoryDB(MemoryDB);

#[verifier::external_type_specification]
#[verifier::external_body]
pub struct ExBlake3(Blake3);

#[verifier::external_type_specification]
#[verifier::external_body]
pub struct ExErrors(Errors);

/// A 32-byte hash.
pub type Digest32 = [u8; 32];

/// The root hashes whose nodes the tree's database holds.
pub uninterp spec fn monotree_roots(t: Monotree<MemoryDB, Blake3>) -> Set<Seq<u8>>;

/// The root that `Monotree::insert` gives when `key` is inserted with `leaf`
/// under `root` (an empty tree when `root` is none).
pub uninterp spec fn monotree_next_root(root: Option<Seq<u8>>, key: Seq<u8>, leaf: Seq<u8>) -> Seq<
    u8,
>;

/// The leaf that `Monotree::get` finds for `key` under `root`, if any.
pub uninterp spec fn monotree_leaf(root: Seq<u8>, key: Seq<u8>) -> Option<Seq<u8>>;

/// The proof that `Monotree::get_merkle_proof` gives for `key` under `root`,
/// if any: its steps, from the root down.
pub uninterp spec fn monotree_proof(root: Seq<u8>, key: Seq<u8>) -> Option<Seq<(bool, Seq<u8>)>>;

/// Whether `monotree::verify_proof`, with the BLAKE3 hasher, accepts `proof`
/// for `leaf` under `root`.
pub uninterp spec fn monotree_verifies(root: Seq<u8>, leaf: Seq<u8>, proof: Seq<(bool, Seq<u8>)>) -> bool;

/// Proof steps as plain values.
pub open spec fn steps_view(p: Seq<(bool, Vec<u8>)>) -> Seq<(bool, Seq<u8>)> {
    p.map_values(|s: (bool, Vec<u8>)| (s.0, s.1@))
}

/// A 32-byte word, if any, as a plain value.
pub open spec fn word_view(w: Option<[u8; 32]>) -> Option<Seq<u8>> {
    match w {
        Some(x) => Some(x@),
        None => None,
    }
}

/// The leaf of `key` under `root`; nothing under no root.
pub open spec fn leaf_under(root: Option<[u8; 32]>, key: Seq<u8>) -> Option<Seq<u8>> {
    match root {
        Some(x) => monotree_leaf(x@, key),
        None => None,
    }
}

/// Whether every step that puts the running hash inside its bytes has bytes
/// to put it in.
pub open spec fn steps_well_formed(p: Seq<(bool, Seq<u8>)>) -> bool {
    forall|i: int| 0 <= i < p.len() && (#[trigger] p[i]).0 ==> p[i].1.len() > 0
}

/// Calls `Monotree::default`: an empty tree over an in-memory database with
/// the BLAKE3 hasher. Nothing is promised of it here: a new tree is used only
/// with no root.
#[verifier::external_body]
pub(crate) fn tree_new() -> (t: Monotree<MemoryDB, Blake3>) {
    Monotree::default()
}

/// Calls `Monotree::insert`, which writes the nodes on the path of `key`
/// (never removing one) and always returns a new root. Under that root `key`
/// holds `leaf` and every other key holds what it held under `root` (nothing
/// when `root` is none). The root must be one the database holds: the tree
/// panics otherwise.
#[verifier::external_body]
pub(crate) fn tree_insert(
    t: &mut Monotree<MemoryDB, Blake3>,
    root: Option<[u8; 32]>,
    key: &[u8; 32],
    leaf: &[u8; 32],
) -> (r: Result<Option<Digest32>, Errors>)
    requires
        root matches Some(h) ==> monotree_roots(*old(t)).contains(h@),
    ensures
        r matches Ok(Some(_)),
        r matches Ok(Some(h)) ==> (h@ == monotree_next_root(word_view(root), key@, leaf@)
            && monotree_roots(*final(t)).contains(h@) && monotree_leaf(h@, key@) == Some(leaf@) && (
        forall|k: Seq<u8>|
            k.len() == 32 && k != key@ ==> #[trigger] monotree_leaf(h@, k) == leaf_under(root, k))),
        forall|x: Seq<u8>|
            monotree_roots(*old(t)).contains(x) ==> #[trigger] monotree_roots(*final(t)).contains(x),
{
    t.insert(root.as_ref(), key, leaf)
}

/// Calls `Monotree::get`, which only reads the database and finds the leaf
/// of `key` under `root`.
#[verifier::external_body]
pub(crate) fn tree_get(t: &mut Monotree<MemoryDB, Blake3>, root: &[u8; 32], key: &[u8; 32]) -> (r:
    Result<Option<Digest32>, Errors>)
    requires
        monotree_roots(*old(t)).contains(root@),
    ensures
        monotree_roots(*final(t)) == monotree_roots(*old(t)),
        r is Ok,
        r matches Ok(v) ==> word_view(v) == monotree_leaf(root@, key@),
{
    t.get(Some(root), key)
}

/// Calls `Monotree::get_merkle_proof`, which only reads the database. It
/// gives a proof exactly when `key` holds a leaf under `root`; the proof's
/// steps that carry the running hash inside their bytes have bytes, and
/// `monotree::verify_proof` accepts the proof for that leaf under `root`.
#[verifier::external_body]
pub(crate) fn tree_proof(t: &mut Monotree<MemoryDB, Blake3>, root: &[u8; 32], key: &[u8; 32]) -> (r:
    Result<Option<Vec<(bool, Vec<u8>)>>, Errors>)
    requires
        monotree_roots(*old(t)).contains(root@),
    ensures
        monotree_roots(*final(t)) == monotree_roots(*old(t)),
        r is Ok,
        r matches Ok(None) ==> monotree_leaf(root@, key@) is None && monotree_proof(root@, key@) is None,
        r matches Ok(Some(p)) ==> monotree_proof(root@, key@) == Some(steps_view(p@))
            && steps_well_formed(steps_view(p@)) && (monotree_leaf(root@, key@) matches Some(l)
            && monotree_verifies(root@, l, steps_view(p@))),
{
    t.get_merkle_proof(Some(root), key)
}

/// Calls `monotree::verify_proof` with the BLAKE3 hasher, `root` and a proof:
/// it folds the leaf up through the steps, last to first, and compares the
/// result with the root. A step that carries the running hash inside its
/// bytes must have bytes: the function panics otherwise.
#[verifier::external_body]
pub(crate) fn tree_verify(root: &[u8; 32], leaf: &[u8; 32], proof: &Vec<(bool, Vec<u8>)>) -> (r: bool)
    requires
        steps_well_formed(steps_view(proof@)),
    ensures
        r == monotree_verifies(root@, leaf@, steps_view(proof@)),
{
    let hasher = Blake3::new();
    monotree::verify_proof(&hasher, Some(root), leaf, Some(proof))
}

} // verus!
