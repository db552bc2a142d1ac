//! An accumulator over the sparse Merkle tree of `monotree`: each key holds
//! the leaf `BLAKE3(key || value)` of its latest value, and the root is the
//! tree's root hash (32 zero bytes for an empty tree).

use vstd::prelude::*;

use crate::bytes::zero32;
use crate::crypto::hashing::blake3_digest;
use crate::crypto::hashing::blake3_hash;
use crate::crypto::merkle_accumulator::concat_bytes;
use crate::crypto::tree_store::monotree_leaf;
use crate::crypto::tree_store::monotree_next_root;
use crate::crypto::tree_store::monotree_proof;
use crate::crypto::tree_store::monotree_roots;
use crate::crypto::tree_store::monotree_verifies;
use crate::crypto::tree_store::steps_view;
use crate::crypto::tree_store::steps_well_formed;
use crate::crypto::tree_store::tree_get;
use crate::crypto::tree_store::tree_insert;
use crate::crypto::tree_store::tree_new;
use crate::crypto::tree_store::tree_proof;
use crate::crypto::tree_store::tree_verify;
use crate::crypto::tree_store::word_view;
use crate::crypto::tree_store::Digest32;
use crate::types::node_view;
use crate::types::AccumulatorError;
use crate::types::Key32;
use crate::types::Proof;
use crate::types::ProofNode;
use crate::types::Value32;

use monotree::database::MemoryDB;
use monotree::hasher::Blake3;
use monotree::Monotree;

verus! {

/// The leaf of a key and a value: the BLAKE3 digest of their concatenation.
pub open spec fn sm_leaf(key: Seq<u8>, value: Seq<u8>) -> Seq<u8> {
    blake3_digest(key + value)
}

/// Bit `depth` of `key`, counting from the most significant bit of its first byte.
pub open spec fn key_bit(key: Seq<u8>, depth: int) -> bool {
    ((key[depth / 8] >> ((7 - depth % 8) as usize)) & 1u8) == 1u8
}

/// Whether a proof has at most 256 steps and each step's side is the key's
/// bit at the step's depth.
pub open spec fn steps_follow_key(key: Seq<u8>, p: Seq<(bool, Seq<u8>)>) -> bool {
    p.len() <= 256 && forall|i: int| 0 <= i < p.len() ==> (#[trigger] p[i]).0 == key_bit(key, i)
}

/// Whether a proof vouches that `key` holds `value` under `root`: there is a
/// proof, its steps follow the key's bits, and `monotree` accepts it for the
/// leaf of the key and value.
pub open spec fn sm_verifies(
    root: Seq<u8>,
    key: Seq<u8>,
    value: Seq<u8>,
    p: Option<Seq<(bool, Seq<u8>)>>,
) -> bool {
    match p {
        None => false,
        Some(s) => steps_follow_key(key, s) && monotree_verifies(root, sm_leaf(key, value), s),
    }
}

/// The leaf each key holds under a root (nothing under no root).
pub open spec fn tree_entries(root: Option<Seq<u8>>) -> Map<Seq<u8>, Seq<u8>> {
    match root {
        None => Map::empty(),
        Some(r) => Map::new(
            |k: Seq<u8>| k.len() == 32 && monotree_leaf(r, k) is Some,
            |k: Seq<u8>| monotree_leaf(r, k)->0,
        ),
    }
}

/// The root bytes an accumulator reports: its root, or 32 zero bytes.
pub open spec fn root_or_zero(root: Option<Seq<u8>>) -> Seq<u8> {
    match root {
        None => zero32(),
        Some(r) => r,
    }
}

/// Whether `p` is a sound proof for `key` under `root`: the key holds a leaf
/// there, the proof's steps are well formed, and `monotree` accepts it for
/// that leaf.
pub open spec fn sm_proof_valid(root: Option<Seq<u8>>, key: Seq<u8>, p: Seq<(bool, Seq<u8>)>) -> bool {
    &&& root is Some
    &&& tree_entries(root).dom().contains(key)
    &&& steps_well_formed(p)
    &&& monotree_verifies(root->0, tree_entries(root)[key], p)
}

/// A proof as the steps `monotree` takes.
fn proof_to_steps(p: &Proof) -> (r: Vec<(bool, Vec<u8>)>)
    ensures
        steps_view(r@) == p@,
{
    let mut out: Vec<(bool, Vec<u8>)> = Vec::new();
    let mut i: usize = 0;
    while i < p.nodes.len()
        invariant
            i <= p.nodes@.len(),
            steps_view(out@) == p@.subrange(0, i as int),
        decreases p.nodes@.len() - i,
    {
        let ghost before = steps_view(out@);
        let step = (p.nodes[i].is_left, crate::bytes::copy_bytes(&p.nodes[i].sibling));
        out.push(step);
        assert(steps_view(out@) =~= before.push(node_view(p.nodes@[i as int])));
        i += 1;
        assert(steps_view(out@) =~= p@.subrange(0, i as int));
    }
    assert(p@.subrange(0, i as int) =~= p@);
    out
}

/// The steps of `monotree` as a proof.
fn steps_to_proof(s: Vec<(bool, Vec<u8>)>) -> (r: Proof)
    ensures
        r@ == steps_view(s@),
{
    let mut nodes: Vec<ProofNode> = Vec::new();
    let mut i: usize = 0;
    while i < s.len()
        invariant
            i <= s@.len(),
            nodes@.map_values(|n: ProofNode| node_view(n)) == steps_view(s@).subrange(0, i as int),
        decreases s@.len() - i,
    {
        let ghost before = nodes@.map_values(|n: ProofNode| node_view(n));
        let n = ProofNode { is_left: s[i].0, sibling: crate::bytes::copy_bytes(&s[i].1) };
        let ghost nv = node_view(n);
        nodes.push(n);
        assert(nodes@.map_values(|n: ProofNode| node_view(n)) =~= before.push(nv));
        i += 1;
        assert(nodes@.map_values(|n: ProofNode| node_view(n)) =~= steps_view(s@).subrange(
            0,
            i as int,
        ));
    }
    assert(steps_view(s@).subrange(0, i as int) =~= steps_view(s@));
    Proof { nodes }
}

/// Whether a 32-byte word is all zeros.
fn is_zero_word(w: &[u8; 32]) -> (r: bool)
    ensures
        r == (w@ == zero32()),
{
    let mut i: usize = 0;
    while i < 32
        invariant
            i <= 32,
            w@.len() == 32,
            forall|j: int| 0 <= j < i ==> w@[j] == 0u8,
        decreases 32 - i,
    {
        if w[i] != 0 {
            assert(w@[i as int] != zero32()[i as int]);
            return false;
        }
        i += 1;
    }
    assert(w@ =~= zero32());
    true
}

/// Sparse Merkle accumulator: a `monotree` and the root of its current state.
pub struct SparseMerkleAccumulator {
    tree: Monotree<MemoryDB, Blake3>,
    root: Option<Digest32>,
}

impl View for SparseMerkleAccumulator {
    type V = Option<Seq<u8>>;

    /// The root of the current state; none while nothing was put.
    closed spec fn view(&self) -> Option<Seq<u8>> {
        word_view(self.root)
    }
}

impl SparseMerkleAccumulator {
    /// The current root is one the tree's database holds.
    pub closed spec fn wf(&self) -> bool {
        self.root matches Some(r) ==> monotree_roots(self.tree).contains(r@)
    }

    /// An empty accumulator.
    pub fn new() -> (a: Self)
        ensures
            a.wf(),
            a@ is None,
    {
        SparseMerkleAccumulator { tree: tree_new(), root: None }
    }

    /// The accumulator's name.
    pub fn id(&self) -> (r: &'static str)
        ensures
            r@ == "sparse-merkle"@,
    {
        "sparse-merkle"
    }

    /// The leaf of `key` and `value`.
    pub fn leaf_hash(key: &Key32, value: &Value32) -> (r: Digest32)
        ensures
            r@ == sm_leaf(key@, value@),
    {
        let buf = concat_bytes(key, value);
        blake3_hash(buf.as_slice())
    }

    /// Bit `depth` of `key`, most significant first.
    pub fn key_bit_msb(key: &Key32, depth: usize) -> (b: bool)
        requires
            depth < 256,
        ensures
            b == key_bit(key@, depth as int),
    {
        let byte = key[depth / 8];
        let bit: usize = 7 - depth % 8;
        ((byte >> bit) & 1u8) == 1u8
    }

    /// Puts `key` with `value`: the key now holds the leaf of that value,
    /// and every other key keeps its leaf.
    pub fn put(&mut self, key: Key32, value: Value32) -> (res: Result<(), AccumulatorError>)
        requires
            old(self).wf(),
        ensures
            res is Ok,
            final(self).wf(),
            final(self)@ == Some(monotree_next_root(old(self)@, key@, sm_leaf(key@, value@))),
            tree_entries(final(self)@) == tree_entries(old(self)@).insert(
                key@,
                sm_leaf(key@, value@),
            ),
    {
        let leaf = Self::leaf_hash(&key, &value);
        let ghost old_root = self.root;
        match tree_insert(&mut self.tree, self.root, &key, &leaf) {
            Ok(Some(new_root)) => {
                self.root = Some(new_root);
                assert(tree_entries(self@) =~= tree_entries(old(self)@).insert(
                    key@,
                    sm_leaf(key@, value@),
                )) by {
                    assert forall|k: Seq<u8>| #[trigger]
                        tree_entries(self@).dom().contains(k) == tree_entries(old(self)@).insert(
                            key@,
                            sm_leaf(key@, value@),
                        ).dom().contains(k) by {
                        if k.len() == 32 && k != key@ {
                            assert(monotree_leaf(new_root@, k) == crate::crypto::tree_store::leaf_under(old_root, k));
                        }
                    }
                    assert forall|k: Seq<u8>| #[trigger] tree_entries(self@).dom().contains(k)
                        implies tree_entries(self@)[k] == tree_entries(old(self)@).insert(
                            key@,
                            sm_leaf(key@, value@),
                        )[k] by {
                        if k != key@ {
                            assert(monotree_leaf(new_root@, k) == crate::crypto::tree_store::leaf_under(old_root, k));
                        }
                    }
                }
                Ok(())
            },
            _ => {
                proof {
                    assert(false);
                }
                Ok(())
            },
        }
    }

    /// The root bytes: the tree's root, or 32 zero bytes when empty.
    pub fn build_root(&self) -> (res: Result<Vec<u8>, AccumulatorError>)
        ensures
            res matches Ok(r) && r@ == root_or_zero(self@),
    {
        match self.root {
            Some(r) => Ok(crate::bytes::array_to_vec(&r)),
            None => {
                let z = [0u8; 32];
                let v = crate::bytes::array_to_vec(&z);
                assert(v@ =~= zero32());
                Ok(v)
            },
        }
    }

    /// The tree's proof for `key`; none when the tree is empty or the key
    /// holds no leaf. A proof given is sound for the key's leaf.
    pub fn prove(&mut self, key: &Key32) -> (res: Result<Option<Proof>, AccumulatorError>)
        requires
            old(self).wf(),
        ensures
            final(self).wf(),
            final(self)@ == old(self)@,
            res matches Ok(r) && (match old(self)@ {
                None => r is None,
                Some(root) => (match r {
                    None => monotree_proof(root, key@) is None,
                    Some(p) => monotree_proof(root, key@) == Some(p@),
                }),
            }),
            res matches Ok(r) && (r is Some <==> tree_entries(old(self)@).dom().contains(key@)),
            res matches Ok(Some(p)) ==> sm_proof_valid(old(self)@, key@, p@),
    {
        match self.root {
            None => Ok(None),
            Some(root) => match tree_proof(&mut self.tree, &root, key) {
                Ok(Some(steps)) => Ok(Some(steps_to_proof(steps))),
                Ok(None) => Ok(None),
                Err(_) => Ok(None),
            },
        }
    }

    /// Whether `maybe_proof` vouches that `key` holds `value` under `root`:
    /// there must be a proof, of at most 256 steps whose sides follow the
    /// key's bits, that `monotree` accepts for the leaf of the key and value.
    /// A root of 32 zero bytes stands for the empty tree, against which no
    /// such proof can be checked.
    pub fn verify_proof(
        &self,
        root: &[u8; 32],
        key: &Key32,
        value: &Value32,
        maybe_proof: Option<&Proof>,
    ) -> (res: Result<bool, AccumulatorError>)
        requires
            maybe_proof matches Some(p) ==> (steps_follow_key(key@, p@) ==> root@ != zero32()
                && steps_well_formed(p@)),
        ensures
            res == Ok::<bool, AccumulatorError>(
                sm_verifies(
                    root@,
                    key@,
                    value@,
                    (match maybe_proof {
                        Some(p) => Some(p@),
                        None => None,
                    }),
                ),
            ),
    {
        let p = match maybe_proof {
            None => {
                return Ok(false);
            },
            Some(p) => p,
        };
        let root_is_empty = is_zero_word(root);
        let leaf = Self::leaf_hash(key, value);
        let mut depth: usize = 0;
        while depth < p.nodes.len()
            invariant
                depth <= p.nodes@.len(),
                depth <= 256,
                maybe_proof == Some(p),
                forall|i: int| 0 <= i < depth ==> (#[trigger] p@[i]).0 == key_bit(key@, i),
            decreases p.nodes@.len() - depth,
        {
            if depth >= 256 {
                assert(!steps_follow_key(key@, p@));
                return Ok(false);
            }
            let expected_is_left = Self::key_bit_msb(key, depth);
            assert(p@[depth as int] == node_view(p.nodes@[depth as int]));
            if p.nodes[depth].is_left != expected_is_left {
                assert(!steps_follow_key(key@, p@));
                return Ok(false);
            }
            depth += 1;
        }
        assert(steps_follow_key(key@, p@));
        if root_is_empty {
            proof {
                assert(false);
            }
            return Ok(false);
        }
        let steps = proof_to_steps(p);
        let ok = tree_verify(root, &leaf, &steps);
        Ok(ok)
    }

    /// Whether `key` holds the leaf of `value`; a value that is not 32 bytes
    /// long never matches.
    pub fn verify_inclusion(&mut self, key: &Key32, value: &[u8]) -> (res: Result<
        bool,
        AccumulatorError,
    >)
        requires
            old(self).wf(),
        ensures
            final(self).wf(),
            final(self)@ == old(self)@,
            res == Ok::<bool, AccumulatorError>(
                value@.len() == 32 && tree_entries(old(self)@).dom().contains(key@) && tree_entries(
                    old(self)@,
                )[key@] == sm_leaf(key@, value@),
            ),
    {
        if value.len() != 32 {
            return Ok(false);
        }
        let root = match self.root {
            None => {
                return Ok(false);
            },
            Some(r) => r,
        };
        let stored = match tree_get(&mut self.tree, &root, key) {
            Ok(Some(l)) => l,
            _ => {
                return Ok(false);
            },
        };
        let mut v = [0u8; 32];
        let mut i: usize = 0;
        while i < 32
            invariant
                i <= 32,
                value@.len() == 32,
                v@.len() == 32,
                forall|j: int| 0 <= j < i ==> v@[j] == value@[j],
            decreases 32 - i,
        {
            v[i] = value[i];
            i += 1;
        }
        assert(v@ =~= value@);
        let expected = Self::leaf_hash(key, &v);
        Ok(crate::bytes::eq32(&stored, &expected))
    }

    /// Whether `key` holds no leaf.
    pub fn verify_non_inclusion(&mut self, key: &Key32) -> (res: Result<bool, AccumulatorError>)
        requires
            old(self).wf(),
        ensures
            final(self).wf(),
            final(self)@ == old(self)@,
            res == Ok::<bool, AccumulatorError>(!tree_entries(old(self)@).dom().contains(key@)),
    {
        let root = match self.root {
            None => {
                return Ok(true);
            },
            Some(r) => r,
        };
        match tree_get(&mut self.tree, &root, key) {
            Ok(Some(_)) => Ok(false),
            _ => Ok(true),
        }
    }

    /// Empties the accumulator.
    pub fn flush(&mut self) -> (res: Result<(), AccumulatorError>)
        ensures
            res is Ok,
            final(self).wf(),
            final(self)@ is None,
    {
        self.tree = tree_new();
        self.root = None;
        Ok(())
    }
}

/// A proof that the accumulator gives for a key, when its steps follow the
/// key's bits and the root is not all zeros, vouches that the key holds the
/// value whose leaf it holds.
pub proof fn law_sparse_proof_verifies(
    root: Seq<u8>,
    key: Seq<u8>,
    value: Seq<u8>,
    p: Seq<(bool, Seq<u8>)>,
)
    requires
        sm_proof_valid(Some(root), key, p),
        tree_entries(Some(root))[key] == sm_leaf(key, value),
        steps_follow_key(key, p),
    ensures
        sm_verifies(root, key, value, Some(p)),
{
}

impl Default for SparseMerkleAccumulator {
    fn default() -> (r: Self)
        ensures
            r.wf(),
            r@ is None,
    {
        Self::new()
    }
}

} // verus!
