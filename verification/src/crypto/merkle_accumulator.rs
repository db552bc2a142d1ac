//! A Merkle accumulator over SHA-256 leaves, built with `rs_merkle`.
//!
//! Each put appends the leaf `SHA-256(value)`; a key refers to the leaf of
//! its latest put. Proofs are `rs_merkle`'s sibling hashes, each tagged with
//! the side it stands on.

use vstd::prelude::*;

use crate::bytes::eq32;
use crate::bytes::zero32;
use crate::crypto::hashing::is_pow2;
use crate::crypto::hashing::rs_merkle_proof;
use crate::crypto::hashing::rs_merkle_root;
use crate::crypto::hashing::rs_proof_hashes_of;
use crate::crypto::hashing::rs_tree_from_leaves;
use crate::crypto::hashing::rs_tree_proof;
use crate::crypto::hashing::rs_tree_root;
use crate::crypto::hashing::sha256;
use crate::crypto::hashing::sha256_hash;
use crate::types::find_key;
use crate::types::lemma_find_key;
use crate::types::AccumulatorError;
use crate::types::Entry;
use crate::types::Key32;
use crate::types::Proof;
use crate::types::ProofNode;
use crate::types::Value32;

verus! {

/// The leaves of a list of (key, leaf) entries.
pub open spec fn leaf_hashes(s: Seq<Entry>) -> Seq<Seq<u8>> {
    s.map_values(|e: Entry| e.1)
}

/// The entries of a list of (key, leaf) pairs, as sequences.
pub open spec fn words_view(v: Seq<(Key32, [u8; 32])>) -> Seq<Entry> {
    v.map_values(|p: (Key32, [u8; 32])| (p.0@, p.1@))
}

/// Proof steps from the sibling hashes of leaf `idx`, bottom up: a sibling
/// stands on the left exactly when the running index is odd, and the index
/// halves at each step.
pub open spec fn proof_steps(hashes: Seq<Seq<u8>>, idx: nat) -> Seq<(bool, Seq<u8>)>
    decreases hashes.len(),
{
    if hashes.len() == 0 {
        seq![]
    } else {
        seq![(idx % 2 == 1, hashes[0])] + proof_steps(hashes.drop_first(), idx / 2)
    }
}

/// The hash reached from `cur` by applying `steps`; none when a sibling is
/// not 32 bytes long.
pub open spec fn fold_proof(cur: Seq<u8>, steps: Seq<(bool, Seq<u8>)>) -> Option<Seq<u8>>
    decreases steps.len(),
{
    if steps.len() == 0 {
        Some(cur)
    } else {
        let sib = steps[0].1;
        if sib.len() != 32 {
            None
        } else {
            let next = if steps[0].0 {
                sha256(sib + cur)
            } else {
                sha256(cur + sib)
            };
            fold_proof(next, steps.drop_first())
        }
    }
}

/// Whether `maybe_proof` is present and leads from `leaf` to `root`.
pub open spec fn proof_reaches(root: Seq<u8>, leaf: Seq<u8>, maybe_proof: Option<&Proof>) -> bool {
    match maybe_proof {
        None => false,
        Some(p) => fold_proof(leaf, p@) == Some(root),
    }
}

/// The proof of leaf `index` among `leaves`, in steps.
pub open spec fn spec_prove(leaves: Seq<Seq<u8>>, index: nat) -> Seq<(bool, Seq<u8>)> {
    proof_steps(rs_merkle_proof(leaves, index), index)
}

/// The root of the leaves, 32 zero bytes when there are none.
pub open spec fn merkle_root_or_zero(leaves: Seq<Seq<u8>>) -> Seq<u8> {
    if leaves.len() == 0 {
        zero32()
    } else {
        rs_merkle_root(leaves)
    }
}

/// Whether the latest leaf of `key` is the leaf of `value`.
pub open spec fn merkle_includes(s: Seq<Entry>, key: Seq<u8>, value: Seq<u8>) -> bool {
    let i = find_key(s, key);
    value.len() == 32 && i >= 0 && s[i].1 == sha256(value)
}

/// `a` followed by `b`.
pub fn concat_bytes(a: &[u8], b: &[u8]) -> (r: Vec<u8>)
    ensures
        r@ == a@ + b@,
{
    let mut r: Vec<u8> = Vec::new();
    let mut i: usize = 0;
    while i < a.len()
        invariant
            i <= a@.len(),
            r@ == a@.subrange(0, i as int),
        decreases a@.len() - i,
    {
        r.push(a[i]);
        i += 1;
        assert(r@ =~= a@.subrange(0, i as int));
    }
    let mut j: usize = 0;
    while j < b.len()
        invariant
            j <= b@.len(),
            i == a@.len(),
            r@ == a@ + b@.subrange(0, j as int),
        decreases b@.len() - j,
    {
        r.push(b[j]);
        j += 1;
        assert(r@ =~= a@ + b@.subrange(0, j as int));
    }
    assert(a@.subrange(0, i as int) =~= a@);
    assert(b@.subrange(0, j as int) =~= b@);
    r
}

/// The leaves of `entries`, in order.
pub(crate) fn leaves_of(entries: &Vec<(Key32, [u8; 32])>) -> (r: Vec<[u8; 32]>)
    ensures
        r@.map_values(|l: [u8; 32]| l@) == leaf_hashes(words_view(entries@)),
{
    let mut r: Vec<[u8; 32]> = Vec::new();
    let mut i: usize = 0;
    while i < entries.len()
        invariant
            i <= entries@.len(),
            r@.map_values(|l: [u8; 32]| l@) == leaf_hashes(words_view(entries@)).subrange(
                0,
                i as int,
            ),
        decreases entries@.len() - i,
    {
        let ghost before = r@.map_values(|l: [u8; 32]| l@);
        r.push(entries[i].1);
        assert(r@.map_values(|l: [u8; 32]| l@) =~= before.push(entries@[i as int].1@));
        i += 1;
        assert(r@.map_values(|l: [u8; 32]| l@) =~= leaf_hashes(words_view(entries@)).subrange(
            0,
            i as int,
        ));
    }
    assert(leaf_hashes(words_view(entries@)).subrange(0, i as int) =~= leaf_hashes(
        words_view(entries@),
    ));
    r
}

/// The index of the latest entry for `key`, as `find_key` gives it.
pub(crate) fn position_of(entries: &Vec<(Key32, [u8; 32])>, key: &Key32) -> (r: Option<usize>)
    ensures
        match r {
            Some(i) => i as int == find_key(words_view(entries@), key@) && i < entries@.len(),
            None => find_key(words_view(entries@), key@) == -1,
        },
{
    let ghost s = words_view(entries@);
    let mut i: usize = entries.len();
    assert(s.subrange(0, i as int) =~= s);
    while i > 0
        invariant
            i <= entries@.len(),
            s == words_view(entries@),
            find_key(s, key@) == find_key(s.subrange(0, i as int), key@),
        decreases i,
    {
        let ghost t = s.subrange(0, i as int);
        assert(t.last() == (entries@[i - 1].0@, entries@[i - 1].1@));
        if eq32(&entries[i - 1].0, key) {
            proof {
                lemma_find_key(s, key@);
            }
            return Some(i - 1);
        }
        assert(t.drop_last() =~= s.subrange(0, i - 1));
        i -= 1;
    }
    None
}

/// The proof of leaf `index` of `entries`, in steps.
pub(crate) fn prove_index(entries: &Vec<(Key32, [u8; 32])>, index: usize) -> (p: Proof)
    requires
        index < entries@.len(),
    ensures
        p@ == spec_prove(leaf_hashes(words_view(entries@)), index as nat),
        is_pow2(entries@.len()) ==> fold_proof(leaf_hashes(words_view(entries@))[index as int], p@)
            == Some(rs_merkle_root(leaf_hashes(words_view(entries@)))),
{
    let leaves = leaves_of(entries);
    let tree = rs_tree_from_leaves(leaves.as_slice());
    let mp = rs_tree_proof(&tree, index);
    let hashes = rs_proof_hashes_of(&mp);
    let ghost hv = hashes@.map_values(|h: [u8; 32]| h@);
    let ghost all = proof_steps(hv, index as nat);
    let mut nodes: Vec<ProofNode> = Vec::new();
    let mut idx = index;
    let mut i: usize = 0;
    assert(hv.subrange(0, hv.len() as int) =~= hv);
    assert(nodes@.map_values(|n: ProofNode| crate::types::node_view(n)) =~= Seq::<
        (bool, Seq<u8>),
    >::empty());
    while i < hashes.len()
        invariant
            i <= hashes@.len(),
            hv == hashes@.map_values(|h: [u8; 32]| h@),
            all == proof_steps(hv, index as nat),
            all == nodes@.map_values(|n: ProofNode| crate::types::node_view(n)) + proof_steps(
                hv.subrange(i as int, hv.len() as int),
                idx as nat,
            ),
        decreases hashes@.len() - i,
    {
        let ghost rest = hv.subrange(i as int, hv.len() as int);
        let ghost before = nodes@.map_values(|n: ProofNode| crate::types::node_view(n));
        assert(rest.drop_first() =~= hv.subrange(i + 1, hv.len() as int));
        let is_left = idx % 2 == 1;
        let sibling = crate::bytes::array_to_vec(&hashes[i]);
        nodes.push(ProofNode { is_left, sibling });
        idx = idx / 2;
        i += 1;
        assert(nodes@.map_values(|n: ProofNode| crate::types::node_view(n)) =~= before + seq![
            (is_left, rest[0]),
        ]);
        assert(before + proof_steps(rest, (idx * 2 + (if is_left { 1int } else { 0 })) as nat)
            =~= nodes@.map_values(|n: ProofNode| crate::types::node_view(n)) + proof_steps(
            hv.subrange(i as int, hv.len() as int),
            idx as nat,
        ));
    }
    assert(hv.subrange(i as int, hv.len() as int) =~= Seq::<Seq<u8>>::empty());
    let p = Proof { nodes };
    assert(p@ =~= all);
    p
}

/// Hashes `value` and follows `nodes` up; none when a sibling is not 32 bytes long.
pub(crate) fn fold_nodes(start: [u8; 32], nodes: &Vec<ProofNode>) -> (r: Option<[u8; 32]>)
    ensures
        match (r, fold_proof(start@, nodes@.map_values(|n: ProofNode| crate::types::node_view(n)))) {
            (Some(h), Some(sh)) => h@ == sh,
            (None, None) => true,
            _ => false,
        },
{
    let ghost steps = nodes@.map_values(|n: ProofNode| crate::types::node_view(n));
    let mut cur = start;
    let mut i: usize = 0;
    assert(steps.subrange(0, steps.len() as int) =~= steps);
    while i < nodes.len()
        invariant
            i <= nodes@.len(),
            steps == nodes@.map_values(|n: ProofNode| crate::types::node_view(n)),
            fold_proof(start@, steps) == fold_proof(cur@, steps.subrange(i as int, steps.len() as int)),
        decreases nodes@.len() - i,
    {
        let ghost rest = steps.subrange(i as int, steps.len() as int);
        assert(rest.drop_first() =~= steps.subrange(i + 1, steps.len() as int));
        assert(rest[0] == crate::types::node_view(nodes@[i as int]));
        let node = &nodes[i];
        if node.sibling.len() != 32 {
            return None;
        }
        let buf = if node.is_left {
            concat_bytes(node.sibling.as_slice(), &cur)
        } else {
            concat_bytes(&cur, node.sibling.as_slice())
        };
        cur = sha256_hash(buf.as_slice());
        i += 1;
    }
    assert(steps.subrange(i as int, steps.len() as int) =~= Seq::<(bool, Seq<u8>)>::empty());
    Some(cur)
}

/// Merkle accumulator whose leaves are SHA-256 hashes of the values put.
pub struct MerkleAccumulator {
    entries: Vec<(Key32, [u8; 32])>,
}

impl View for MerkleAccumulator {
    type V = Seq<Entry>;

    /// The (key, leaf) pairs, in the order they were put.
    closed spec fn view(&self) -> Seq<Entry> {
        words_view(self.entries@)
    }
}

impl MerkleAccumulator {
    /// An empty accumulator.
    pub fn new() -> (a: Self)
        ensures
            a@ == Seq::<Entry>::empty(),
    {
        let a = MerkleAccumulator { entries: Vec::new() };
        assert(a@ =~= Seq::<Entry>::empty());
        a
    }

    /// The accumulator's name.
    pub fn id(&self) -> (r: &'static str)
        ensures
            r@ == "merkle"@,
    {
        "merkle"
    }

    /// The leaf that `value` becomes: its SHA-256 hash.
    pub fn leaf_hash(value: &Value32) -> (r: [u8; 32])
        ensures
            r@ == sha256(value@),
    {
        sha256_hash(value)
    }

    /// Appends the leaf of `value`; `key` now refers to it.
    pub fn put(&mut self, key: Key32, value: Value32) -> (res: Result<(), AccumulatorError>)
        ensures
            res is Ok,
            final(self)@ == old(self)@.push((key@, sha256(value@))),
    {
        let leaf = Self::leaf_hash(&value);
        self.entries.push((key, leaf));
        assert(self@ =~= old(self)@.push((key@, sha256(value@))));
        Ok(())
    }

    /// The root over all leaves; 32 zero bytes when there are none.
    pub fn build_root(&self) -> (res: Result<Vec<u8>, AccumulatorError>)
        ensures
            res matches Ok(r) && r@ == merkle_root_or_zero(leaf_hashes(self@)),
    {
        if self.entries.len() == 0 {
            let z: Vec<u8> = vec![0u8; 32];
            assert(z@ =~= zero32());
            return Ok(z);
        }
        let leaves = leaves_of(&self.entries);
        let tree = rs_tree_from_leaves(leaves.as_slice());
        match rs_tree_root(&tree) {
            Some(r) => Ok(crate::bytes::array_to_vec(&r)),
            None => {
                let z: Vec<u8> = vec![0u8; 32];
                assert(z@ =~= zero32());
                Ok(z)
            },
        }
    }

    /// Removes every leaf and key.
    pub fn flush(&mut self) -> (res: Result<(), AccumulatorError>)
        ensures
            res is Ok,
            final(self)@ == Seq::<Entry>::empty(),
    {
        self.entries.clear();
        assert(self@ =~= Seq::<Entry>::empty());
        Ok(())
    }

    /// The proof of the latest leaf of `key`; none when `key` was never put.
    /// When the number of leaves is a power of two, the proof leads from
    /// that leaf to the root.
    pub fn prove(&self, key: &Key32) -> (res: Result<Option<Proof>, AccumulatorError>)
        ensures
            res matches Ok(r) && (match r {
                None => find_key(self@, key@) == -1,
                Some(p) => find_key(self@, key@) >= 0 && p@ == spec_prove(
                    leaf_hashes(self@),
                    find_key(self@, key@) as nat,
                ),
            }),
            res matches Ok(Some(p)) ==> (is_pow2(self@.len()) ==> fold_proof(
                leaf_hashes(self@)[find_key(self@, key@)],
                p@,
            ) == Some(merkle_root_or_zero(leaf_hashes(self@)))),
    {
        match position_of(&self.entries, key) {
            None => Ok(None),
            Some(i) => Ok(Some(prove_index(&self.entries, i))),
        }
    }

    /// Whether `maybe_proof` leads from the leaf of `value` to `root`: each sibling
    /// must be 32 bytes long, and an absent proof never holds.
    pub fn verify_proof(
        &self,
        root: &[u8; 32],
        value: &[u8; 32],
        maybe_proof: Option<&Proof>,
    ) -> (res: Result<bool, AccumulatorError>)
        ensures
            res == Ok::<bool, AccumulatorError>(proof_reaches(root@, sha256(value@), maybe_proof)),
    {
        match maybe_proof {
            None => Ok(false),
            Some(p) => {
                let start = sha256_hash(value);
                match fold_nodes(start, &p.nodes) {
                    None => Ok(false),
                    Some(h) => Ok(eq32(&h, root)),
                }
            },
        }
    }

    /// Whether `value` is 32 bytes long and the latest leaf of `key` is its leaf.
    pub fn verify_inclusion(&self, key: &Key32, value: &[u8]) -> (res: Result<
        bool,
        AccumulatorError,
    >)
        ensures
            res matches Ok(b) && b == merkle_includes(self@, key@, value@),
    {
        if value.len() != 32 {
            return Ok(false);
        }
        match position_of(&self.entries, key) {
            None => Ok(false),
            Some(i) => {
                let leaf = sha256_hash(value);
                Ok(eq32(&self.entries[i].1, &leaf))
            },
        }
    }

    /// Never holds: this accumulator gives no proof of absence.
    pub fn verify_non_inclusion(&self, key: &Key32) -> (res: Result<bool, AccumulatorError>)
        ensures
            res == Ok::<bool, AccumulatorError>(false),
    {
        Ok(false)
    }
}

/// A proof that leads from the latest leaf of `key` to the root, when that
/// leaf is the leaf of `value`, verifies `value` against the root.
pub proof fn law_merkle_prove_then_verify(s: Seq<Entry>, key: Seq<u8>, value: Seq<u8>, p: Proof)
    requires
        merkle_includes(s, key, value),
        fold_proof(leaf_hashes(s)[find_key(s, key)], p@) == Some(merkle_root_or_zero(leaf_hashes(s))),
    ensures
        proof_reaches(merkle_root_or_zero(leaf_hashes(s)), sha256(value), Some(&p)),
{
    lemma_find_key(s, key);
    assert(leaf_hashes(s)[find_key(s, key)] == s[find_key(s, key)].1);
}

/// After `key` is put with `value`, inclusion of `value` under `key` holds.
pub proof fn law_merkle_put_then_included(s: Seq<Entry>, key: Seq<u8>, value: Seq<u8>)
    requires
        value.len() == 32,
    ensures
        merkle_includes(s.push((key, sha256(value))), key, value),
{
    let t = s.push((key, sha256(value)));
    assert(t.last() == (key, sha256(value)));
}

impl Default for MerkleAccumulator {
    fn default() -> (r: Self)
        ensures
            r@ == Seq::<Entry>::empty(),
    {
        Self::new()
    }
}

} // verus!
