//! The hash functions and the Merkle tree of outside crates that the
//! accumulators use, with the contracts this library relies on.
//!
//! Nothing here is proved: each item states what the outside code does.

use vstd::prelude::*;

use crate::crypto::merkle_accumulator::fold_proof;
use crate::crypto::merkle_accumulator::proof_steps;

use rs_merkle::algorithms::Sha256;
use rs_merkle::Hasher;
use rs_merkle::MerkleProof;
use rs_merkle::MerkleTree as RsMerkleTree;

verus! {

/// The SHA-256 digest of `data`.
pub uninterp spec fn sha256(data: Seq<u8>) -> Seq<u8>;

/// The root that `rs_merkle` computes over `leaves` with SHA-256 inner nodes.
pub uninterp spec fn rs_merkle_root(leaves: Seq<Seq<u8>>) -> Seq<u8>;

/// The sibling hashes that `rs_merkle` gives, bottom up, as the proof of the
/// single leaf `index` among `leaves`.
pub uninterp spec fn rs_merkle_proof(leaves: Seq<Seq<u8>>, index: nat) -> Seq<Seq<u8>>;

/// The leaves a tree of `rs_merkle` holds.
pub uninterp spec fn rs_tree_leaves(t: Sha256MerkleTree) -> Seq<Seq<u8>>;

/// The hashes a proof of `rs_merkle` holds.
pub uninterp spec fn rs_proof_hashes(p: Sha256MerkleProof) -> Seq<Seq<u8>>;

/// Whether `n` is a power of two.
pub open spec fn is_pow2(n: nat) -> bool
    decreases n,
{
    if n == 1 {
        true
    } else if n == 0 || n % 2 == 1 {
        false
    } else {
        is_pow2(n / 2)
    }
}

/// The BLAKE3 digest of `data`.
pub uninterp spec fn blake3_digest(data: Seq<u8>) -> Seq<u8>;

/// A Merkle tree of `rs_merkle` with SHA-256 inner nodes, held in a private
/// field: what the library knows of it is what `rs_tree_leaves` names and
/// the functions below state.
#[verifier::external_body]
pub struct Sha256MerkleTree {
    tree: RsMerkleTree<Sha256>,
}

/// A Merkle proof of `rs_merkle` with SHA-256 inner nodes, held as the tree is.
#[verifier::external_body]
pub struct Sha256MerkleProof {
    proof: MerkleProof<Sha256>,
}

/// Calls `<rs_merkle::algorithms::Sha256 as Hasher>::hash`, which returns the
/// SHA-256 digest of `data` (through the `sha2` crate).
#[verifier::external_body]
pub(crate) fn sha256_hash(data: &[u8]) -> (r: [u8; 32])
    ensures
        r@ == sha256(data@),
{
    <Sha256 as Hasher>::hash(data)
}

/// Calls `rs_merkle::MerkleTree::<Sha256>::from_leaves`, which builds and
/// commits a tree holding exactly `leaves`, in order.
#[verifier::external_body]
pub(crate) fn rs_tree_from_leaves(leaves: &[[u8; 32]]) -> (t: Sha256MerkleTree)
    ensures
        rs_tree_leaves(t) == leaves@.map_values(|l: [u8; 32]| l@),
{
    Sha256MerkleTree { tree: RsMerkleTree::<Sha256>::from_leaves(leaves) }
}

/// Calls `rs_merkle::MerkleTree::root`, which gives no root for a tree without
/// leaves and otherwise the top hash of the tree.
#[verifier::external_body]
pub(crate) fn rs_tree_root(t: &Sha256MerkleTree) -> (r: Option<[u8; 32]>)
    ensures
        r is None <==> rs_tree_leaves(*t).len() == 0,
        r matches Some(h) ==> h@ == rs_merkle_root(rs_tree_leaves(*t)),
{
    t.tree.root()
}

/// Calls `rs_merkle::MerkleTree::proof` for the single leaf `index`. In a
/// tree whose leaf count is a power of two every layer is full, so the proof
/// holds the leaf's sibling on each layer, bottom up, and hashing the leaf
/// with them (the sibling on the left at an odd position, the position
/// halving at each layer) gives the root.
#[verifier::external_body]
pub(crate) fn rs_tree_proof(t: &Sha256MerkleTree, index: usize) -> (p: Sha256MerkleProof)
    ensures
        rs_proof_hashes(p) == rs_merkle_proof(rs_tree_leaves(*t), index as nat),
        is_pow2(rs_tree_leaves(*t).len()) && index < rs_tree_leaves(*t).len() ==> fold_proof(
            rs_tree_leaves(*t)[index as int],
            proof_steps(rs_proof_hashes(p), index as nat),
        ) == Some(rs_merkle_root(rs_tree_leaves(*t))),
{
    Sha256MerkleProof { proof: t.tree.proof(&[index]) }
}

/// Calls `rs_merkle::MerkleProof::proof_hashes`, copying the hashes out.
#[verifier::external_body]
pub(crate) fn rs_proof_hashes_of(p: &Sha256MerkleProof) -> (r: Vec<[u8; 32]>)
    ensures
        r@.map_values(|h: [u8; 32]| h@) == rs_proof_hashes(*p),
{
    p.proof.proof_hashes().to_vec()
}

/// Calls `blake3::hash`, returning the 32 bytes of the BLAKE3 digest of `data`.
#[verifier::external_body]
pub(crate) fn blake3_hash(data: &[u8]) -> (r: [u8; 32])
    ensures
        r@ == blake3_digest(data@),
{
    *blake3::hash(data).as_bytes()
}

} // verus!
