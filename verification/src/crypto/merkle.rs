//! A binary Merkle tree over byte leaves whose node hash folds the two
//! children's bytes into 32 bytes by XOR.
//!
//! Each level pairs neighbours left to right; a last node without a partner
//! is carried up unchanged. The root of no leaves is 32 zero bytes, and the
//! root of one leaf is that leaf.

use vstd::prelude::*;

use crate::bytes::lemma_xor32_assoc;
use crate::bytes::lemma_xor32_comm;
use crate::bytes::lemma_xor32_zero;
use crate::bytes::lemma_u8_xor_laws;
use crate::bytes::copy_bytes;
use crate::bytes::xor32;
use crate::bytes::zero32;

verus! {

/// Why a proof could not be produced.
#[derive(Clone, Copy, Debug, PartialEq, Eq)]
pub enum MerkleError {
    /// The leaf index is not below the number of leaves.
    IndexOutOfBounds,
}

/// The byte contents of a sequence of byte vectors.
pub open spec fn bytes_view(v: Seq<Vec<u8>>) -> Seq<Seq<u8>> {
    v.map_values(|b: Vec<u8>| b@)
}

/// The first `n` bytes of `bytes` folded into 32 bytes: byte `i` is XORed into
/// position `i % 32`.
pub open spec fn xor_fold(bytes: Seq<u8>, n: nat) -> Seq<u8>
    decreases n,
{
    if n == 0 {
        zero32()
    } else {
        let acc = xor_fold(bytes, (n - 1) as nat);
        let j = (n - 1) as int % 32;
        acc.update(j, acc[j] ^ bytes[n - 1])
    }
}

/// The hash of two children: their concatenation folded into 32 bytes.
pub open spec fn spec_hash_pair(left: Seq<u8>, right: Seq<u8>) -> Seq<u8> {
    xor_fold(left + right, (left.len() + right.len()) as nat)
}

/// The level above `level`: neighbours hashed in pairs, an odd last node carried up.
pub open spec fn spec_next_level(level: Seq<Seq<u8>>) -> Seq<Seq<u8>> {
    Seq::new(
        ((level.len() + 1) / 2) as nat,
        |k: int|
            if 2 * k + 1 < level.len() {
                spec_hash_pair(level[2 * k], level[2 * k + 1])
            } else {
                level[2 * k]
            },
    )
}

/// The root of the tree whose bottom level is `level`.
pub open spec fn spec_root(level: Seq<Seq<u8>>) -> Seq<u8>
    decreases level.len(),
{
    if level.len() == 0 {
        zero32()
    } else if level.len() == 1 {
        level[0]
    } else {
        spec_root(spec_next_level(level))
    }
}

/// The index of the node paired with node `i`.
pub open spec fn sibling_index(i: nat) -> int {
    if i % 2 == 0 {
        i + 1int
    } else {
        i - 1
    }
}

/// The siblings met on the way from node `idx` of `level` to the root, bottom
/// up; a level where the node has no partner adds nothing.
pub open spec fn spec_proof(level: Seq<Seq<u8>>, idx: nat) -> Seq<Seq<u8>>
    decreases level.len(),
{
    if level.len() <= 1 {
        seq![]
    } else {
        let sib = sibling_index(idx);
        let head = if sib < level.len() {
            seq![level[sib]]
        } else {
            seq![]
        };
        head + spec_proof(spec_next_level(level), idx / 2)
    }
}

/// The fold of bytes always has 32 bytes.
pub proof fn lemma_xor_fold_len(bytes: Seq<u8>, n: nat)
    ensures
        xor_fold(bytes, n).len() == 32,
    decreases n,
{
    if n > 0 {
        lemma_xor_fold_len(bytes, (n - 1) as nat);
    }
}

/// Every node of `level` has exactly 32 bytes.
pub open spec fn all_words(level: Seq<Seq<u8>>) -> bool {
    forall|i: int| 0 <= i < level.len() ==> #[trigger] level[i].len() == 32
}

/// The XOR of all words of `s`.
pub open spec fn xor_all(s: Seq<Seq<u8>>) -> Seq<u8>
    decreases s.len(),
{
    if s.len() == 0 {
        zero32()
    } else {
        xor32(s[0], xor_all(s.drop_first()))
    }
}

/// The fold of a 64-byte sequence, byte by byte.
proof fn lemma_xor_fold_steps(c: Seq<u8>, n: nat)
    requires
        c.len() == 64,
        n <= 64,
    ensures
        forall|j: int|
            0 <= j < 32 ==> #[trigger] xor_fold(c, n)[j] == (if n <= 32 {
                if j < n {
                    c[j]
                } else {
                    0u8
                }
            } else {
                if j < n - 32 {
                    c[j] ^ c[j + 32]
                } else {
                    c[j]
                }
            }),
    decreases n,
{
    if n > 0 {
        let m = (n - 1) as nat;
        lemma_xor_fold_steps(c, m);
        lemma_xor_fold_len(c, m);
        let p = m as int % 32;
        if m < 32 {
            assert(p == m);
            lemma_u8_xor_laws(c[p], 0, 0);
        } else {
            assert(p == m - 32);
            lemma_u8_xor_laws(c[p], c[m as int], 0);
        }
    }
}

/// The hash of two 32-byte children is their bytewise XOR.
pub proof fn law_hash_pair_of_words_is_xor(left: Seq<u8>, right: Seq<u8>)
    requires
        left.len() == 32,
        right.len() == 32,
    ensures
        spec_hash_pair(left, right) == xor32(left, right),
{
    let c = left + right;
    lemma_xor_fold_steps(c, 64);
    lemma_xor_fold_len(c, 64);
    assert forall|j: int| 0 <= j < 32 implies #[trigger] spec_hash_pair(left, right)[j] == xor32(
        left,
        right,
    )[j] by {
        assert(c[j] == left[j]);
        assert(c[j + 32] == right[j]);
    }
    assert(spec_hash_pair(left, right) =~= xor32(left, right));
}

/// `xor_all` always gives 32 bytes.
proof fn lemma_xor_all_len(s: Seq<Seq<u8>>)
    ensures
        xor_all(s).len() == 32,
    decreases s.len(),
{
    if s.len() > 0 {
        lemma_xor_all_len(s.drop_first());
    }
}

/// XOR over a concatenation is the XOR of the two parts.
proof fn lemma_xor_all_concat(a: Seq<Seq<u8>>, b: Seq<Seq<u8>>)
    ensures
        xor_all(a + b) == xor32(xor_all(a), xor_all(b)),
    decreases a.len(),
{
    lemma_xor_all_len(b);
    if a.len() == 0 {
        assert(a + b =~= b);
        lemma_xor32_zero(xor_all(b));
    } else {
        assert((a + b).drop_first() =~= a.drop_first() + b);
        lemma_xor_all_concat(a.drop_first(), b);
        lemma_xor32_assoc(a[0], xor_all(a.drop_first()), xor_all(b));
    }
}

/// The level above a level of words is a level of words.
proof fn lemma_next_level_words(level: Seq<Seq<u8>>)
    requires
        all_words(level),
    ensures
        all_words(spec_next_level(level)),
{
    assert forall|k: int| 0 <= k < spec_next_level(level).len() implies #[trigger] spec_next_level(
        level,
    )[k].len() == 32 by {
        if 2 * k + 1 < level.len() {
            lemma_xor_fold_len(
                level[2 * k] + level[2 * k + 1],
                (level[2 * k].len() + level[2 * k + 1].len()) as nat,
            );
        }
    }
}

/// Going up a level of words keeps the XOR of all nodes.
proof fn lemma_xor_all_next_level(level: Seq<Seq<u8>>)
    requires
        all_words(level),
    ensures
        xor_all(spec_next_level(level)) == xor_all(level),
    decreases level.len(),
{
    let next = spec_next_level(level);
    if level.len() == 0 {
        assert(next =~= level);
    } else if level.len() == 1 {
        assert(next =~= level);
    } else {
        let rest = level.subrange(2, level.len() as int);
        assert(next.drop_first() =~= spec_next_level(rest));
        lemma_xor_all_next_level(rest);
        law_hash_pair_of_words_is_xor(level[0], level[1]);
        assert(level.drop_first().drop_first() =~= rest);
        assert(xor_all(level.drop_first()) == xor32(level[1], xor_all(rest)));
        lemma_xor32_assoc(level[0], level[1], xor_all(rest));
    }
}

/// For a level of at least one word, the root is the XOR of all of them.
proof fn lemma_root_is_xor_all(level: Seq<Seq<u8>>)
    requires
        all_words(level),
        level.len() >= 1,
    ensures
        spec_root(level) == xor_all(level),
    decreases level.len(),
{
    if level.len() == 1 {
        assert(level.drop_first() =~= Seq::<Seq<u8>>::empty());
        assert(xor_all(level.drop_first()) == zero32());
        lemma_xor32_zero(level[0]);
    } else {
        assert(spec_next_level(level).len() >= 1);
        lemma_next_level_words(level);
        lemma_root_is_xor_all(spec_next_level(level));
        lemma_xor_all_next_level(level);
    }
}

/// A node XORed with the XOR of its proof is the XOR of its whole level.
proof fn lemma_proof_xor(level: Seq<Seq<u8>>, idx: nat)
    requires
        all_words(level),
        idx < level.len(),
    ensures
        xor32(level[idx as int], xor_all(spec_proof(level, idx))) == xor_all(level),
    decreases level.len(),
{
    if level.len() == 1 {
        assert(level.drop_first() =~= Seq::<Seq<u8>>::empty());
        assert(spec_proof(level, idx) =~= Seq::<Seq<u8>>::empty());
        lemma_xor32_zero(level[0]);
    } else {
        let next = spec_next_level(level);
        let sib = sibling_index(idx);
        let head = if sib < level.len() {
            seq![level[sib]]
        } else {
            Seq::<Seq<u8>>::empty()
        };
        let pn = spec_proof(next, idx / 2);
        lemma_next_level_words(level);
        lemma_proof_xor(next, idx / 2);
        lemma_xor_all_next_level(level);
        lemma_xor_all_concat(head, pn);
        lemma_xor32_assoc(level[idx as int], xor_all(head), xor_all(pn));
        let k = (idx / 2) as int;
        if sib < level.len() {
            assert(head.drop_first() =~= Seq::<Seq<u8>>::empty());
            assert(xor_all(head.drop_first()) == zero32());
            lemma_xor32_zero(level[sib]);
            assert(xor_all(head) == level[sib]);
            if idx % 2 == 0 {
                assert(2 * k == idx);
                law_hash_pair_of_words_is_xor(level[idx as int], level[sib]);
            } else {
                assert(2 * k + 1 == idx);
                law_hash_pair_of_words_is_xor(level[sib], level[idx as int]);
                lemma_xor32_comm(level[sib], level[idx as int]);
            }
        } else {
            assert(2 * k == idx);
            lemma_xor32_zero(level[idx as int]);
        }
        assert(xor32(level[idx as int], xor_all(head)) == next[k]);
    }
}

/// For leaves of 32 bytes each, at least one, the root is the XOR of all leaves.
pub proof fn law_root_of_words_is_xor_of_leaves(leaves: Seq<Seq<u8>>)
    requires
        all_words(leaves),
        leaves.len() >= 1,
    ensures
        spec_root(leaves) == xor_all(leaves),
{
    lemma_root_is_xor_all(leaves);
}

/// For leaves of 32 bytes each, the proof of leaf `idx` leads back to the root:
/// the leaf XORed with every node of its proof is the root.
pub proof fn law_proof_leads_to_root(leaves: Seq<Seq<u8>>, idx: nat)
    requires
        all_words(leaves),
        idx < leaves.len(),
    ensures
        xor32(leaves[idx as int], xor_all(spec_proof(leaves, idx))) == spec_root(leaves),
{
    lemma_proof_xor(leaves, idx);
    lemma_root_is_xor_all(leaves);
}

/// The node reached by climbing from `cur`, node `idx` of a level of `m`
/// nodes, to the top, using the hashes of `proof` in order: at each level
/// where the node has a partner the next hash is joined on the side the
/// partner stands (left at an odd position), and at a level where it has none
/// the node is carried up. `None` when the proof has too few or too many hashes.
pub open spec fn climb(cur: Seq<u8>, idx: nat, m: nat, proof: Seq<Seq<u8>>) -> Option<Seq<u8>>
    decreases m,
{
    if m <= 1 {
        if proof.len() == 0 {
            Some(cur)
        } else {
            None
        }
    } else if sibling_index(idx) < m {
        if proof.len() == 0 {
            None
        } else {
            let up = if idx % 2 == 0 {
                spec_hash_pair(cur, proof[0])
            } else {
                spec_hash_pair(proof[0], cur)
            };
            climb(up, idx / 2, ((m + 1) / 2) as nat, proof.drop_first())
        }
    } else {
        climb(cur, idx / 2, ((m + 1) / 2) as nat, proof)
    }
}

/// For leaves of any lengths, climbing from leaf `idx` with its proof uses
/// every hash of the proof and reaches the root.
pub proof fn law_proof_climbs_to_root(leaves: Seq<Seq<u8>>, idx: nat)
    requires
        idx < leaves.len(),
    ensures
        climb(leaves[idx as int], idx, leaves.len(), spec_proof(leaves, idx)) == Some(
            spec_root(leaves),
        ),
    decreases leaves.len(),
{
    if leaves.len() > 1 {
        let next = spec_next_level(leaves);
        let k = (idx / 2) as nat;
        let sib = sibling_index(idx);
        let pn = spec_proof(next, k);
        law_proof_climbs_to_root(next, k);
        let p = spec_proof(leaves, idx);
        if sib < leaves.len() {
            assert(p == seq![leaves[sib]] + pn);
            assert(p[0] == leaves[sib]);
            assert(p.drop_first() =~= pn);
            if idx % 2 == 0 {
                assert(2 * k == idx);
                assert(next[k as int] == spec_hash_pair(leaves[idx as int], leaves[sib]));
            } else {
                assert(2 * k + 1 == idx);
                assert(next[k as int] == spec_hash_pair(leaves[sib], leaves[idx as int]));
            }
        } else {
            assert(p =~= pn);
            assert(2 * k == idx);
            assert(next[k as int] == leaves[idx as int]);
        }
    }
}

/// A Merkle tree holding its leaves in insertion order.
pub struct MerkleTree {
    leaves: Vec<Vec<u8>>,
}

impl View for MerkleTree {
    type V = Seq<Seq<u8>>;

    /// The leaves, in insertion order.
    closed spec fn view(&self) -> Seq<Seq<u8>> {
        bytes_view(self.leaves@)
    }
}

/// A copy of a level of byte vectors.
fn clone_level(level: &Vec<Vec<u8>>) -> (r: Vec<Vec<u8>>)
    ensures
        r@.len() == level@.len(),
        bytes_view(r@) == bytes_view(level@),
{
    let mut out: Vec<Vec<u8>> = Vec::new();
    let mut i: usize = 0;
    while i < level.len()
        invariant
            i <= level@.len(),
            out@.len() == i,
            bytes_view(out@) == bytes_view(level@).subrange(0, i as int),
        decreases level@.len() - i,
    {
        let b = copy_bytes(&level[i]);
        let ghost before = bytes_view(out@);
        out.push(b);
        i += 1;
        assert(bytes_view(out@) =~= before.push(b@));
        assert(bytes_view(out@) =~= bytes_view(level@).subrange(0, i as int));
    }
    assert(bytes_view(level@).subrange(0, i as int) =~= bytes_view(level@));
    out
}

/// Folds `left` then `right` into 32 bytes by XOR.
pub(crate) fn hash_pair_bytes(left: &[u8], right: &[u8]) -> (r: Vec<u8>)
    ensures
        r@ == spec_hash_pair(left@, right@),
{
    let ghost c = left@ + right@;
    let mut result: Vec<u8> = vec![0u8; 32];
    assert(result@ =~= zero32());
    let mut i: usize = 0;
    while i < left.len()
        invariant
            i <= left@.len(),
            c == left@ + right@,
            result@ == xor_fold(c, i as nat),
        decreases left@.len() - i,
    {
        proof {
            lemma_xor_fold_len(c, i as nat);
        }
        let j = i % 32;
        let b = result[j] ^ left[i];
        result.set(j, b);
        i += 1;
    }
    let lm = left.len() % 32;
    let mut k: usize = 0;
    while k < right.len()
        invariant
            k <= right@.len(),
            lm == left@.len() % 32,
            c == left@ + right@,
            result@ == xor_fold(c, (left@.len() + k) as nat),
        decreases right@.len() - k,
    {
        proof {
            lemma_xor_fold_len(c, (left@.len() + k) as nat);
            vstd::arithmetic::div_mod::lemma_add_mod_noop(left@.len() as int, k as int, 32);
            vstd::arithmetic::div_mod::lemma_add_mod_noop_right(lm as int, k as int, 32);
        }
        let j = (lm + k % 32) % 32;
        let b = result[j] ^ right[k];
        result.set(j, b);
        k += 1;
    }
    result
}

/// Builds the level above `level`.
fn next_level(level: &Vec<Vec<u8>>) -> (r: Vec<Vec<u8>>)
    ensures
        r@.len() == (level@.len() + 1) / 2,
        bytes_view(r@) == spec_next_level(bytes_view(level@)),
{
    let ghost lv = bytes_view(level@);
    let mut next: Vec<Vec<u8>> = Vec::new();
    let mut i: usize = 0;
    while i < level.len()
        invariant
            i <= level@.len(),
            lv == bytes_view(level@),
            i % 2 == 0 || i == level@.len(),
            next@.len() == (i + 1) / 2,
            forall|k: int|
                0 <= k < next@.len() ==> #[trigger] bytes_view(next@)[k] == spec_next_level(
                    lv,
                )[k],
        decreases level@.len() - i,
    {
        let ghost before = bytes_view(next@);
        let ghost k = next@.len() as int;
        assert(2 * k == i);
        assert(lv[i as int] == level@[i as int]@);
        if level.len() - i >= 2 {
            assert(lv[i + 1] == level@[i + 1]@);
            let h = hash_pair_bytes(level[i].as_slice(), level[i + 1].as_slice());
            next.push(h);
            i += 2;
            assert(bytes_view(next@) =~= before.push(h@));
        } else {
            let b = copy_bytes(&level[i]);
            next.push(b);
            i += 1;
            assert(bytes_view(next@) =~= before.push(b@));
        }
        assert(bytes_view(next@)[k] == spec_next_level(lv)[k]);
    }
    assert(bytes_view(next@) =~= spec_next_level(lv));
    next
}

impl MerkleTree {
    /// A tree with no leaves.
    pub fn new() -> (t: Self)
        ensures
            t@ == Seq::<Seq<u8>>::empty(),
    {
        let t = MerkleTree { leaves: Vec::new() };
        assert(t@ =~= Seq::<Seq<u8>>::empty());
        t
    }

    /// Appends a leaf.
    pub fn add_leaf(&mut self, data: Vec<u8>)
        ensures
            final(self)@ == old(self)@.push(data@),
    {
        self.leaves.push(data);
        assert(self@ =~= old(self)@.push(data@));
    }

    /// The number of leaves.
    pub fn len(&self) -> (n: usize)
        ensures
            n == self@.len(),
    {
        self.leaves.len()
    }

    /// The root over all leaves: 32 zero bytes when there are none.
    pub fn root(&self) -> (res: Result<Vec<u8>, MerkleError>)
        ensures
            res matches Ok(r) && r@ == spec_root(self@),
    {
        if self.leaves.len() == 0 {
            let z: Vec<u8> = vec![0u8; 32];
            assert(z@ =~= zero32());
            return Ok(z);
        }
        let mut current = clone_level(&self.leaves);
        while current.len() > 1
            invariant
                current@.len() >= 1,
                spec_root(bytes_view(current@)) == spec_root(self@),
            decreases current@.len(),
        {
            current = next_level(&current);
        }
        assert(bytes_view(current@)[0] == current@[0]@);
        Ok(copy_bytes(&current[0]))
    }

    /// The hash of two children.
    pub fn hash_pair(&self, left: &[u8], right: &[u8]) -> (r: Vec<u8>)
        ensures
            r@ == spec_hash_pair(left@, right@),
    {
        hash_pair_bytes(left, right)
    }

    /// The inclusion proof of leaf `index`: the siblings on its path to the
    /// root, bottom up. Fails exactly when `index` is not below the number of leaves.
    pub fn generate_proof(&self, index: usize) -> (res: Result<Vec<Vec<u8>>, MerkleError>)
        ensures
            index >= self@.len() ==> res == Err::<Vec<Vec<u8>>, MerkleError>(
                MerkleError::IndexOutOfBounds,
            ),
            index < self@.len() ==> (res matches Ok(p) && bytes_view(p@) == spec_proof(
                self@,
                index as nat,
            )),
    {
        if index >= self.leaves.len() {
            return Err(MerkleError::IndexOutOfBounds);
        }
        let mut pf: Vec<Vec<u8>> = Vec::new();
        let mut current = clone_level(&self.leaves);
        let mut current_index = index;
        while current.len() > 1
            invariant
                current_index < current@.len(),
                spec_proof(self@, index as nat) == bytes_view(pf@) + spec_proof(
                    bytes_view(current@),
                    current_index as nat,
                ),
            decreases current@.len(),
        {
            let ghost lv = bytes_view(current@);
            let ghost before = bytes_view(pf@);
            let ghost ci = current_index as nat;
            let sibling_index = if current_index % 2 == 0 {
                current_index + 1
            } else {
                current_index - 1
            };
            let ghost head = if sibling_index < current@.len() {
                seq![lv[sibling_index as int]]
            } else {
                Seq::<Seq<u8>>::empty()
            };
            assert(spec_proof(lv, ci) == head + spec_proof(spec_next_level(lv), ci / 2));
            if sibling_index < current.len() {
                let s = copy_bytes(&current[sibling_index]);
                pf.push(s);
            }
            assert(bytes_view(pf@) =~= before + head);
            current = next_level(&current);
            current_index = current_index / 2;
            assert(before + (head + spec_proof(spec_next_level(lv), ci / 2)) =~= bytes_view(
                pf@,
            ) + spec_proof(bytes_view(current@), current_index as nat));
        }
        assert(spec_proof(bytes_view(current@), current_index as nat) =~= Seq::<
            Seq<u8>,
        >::empty());
        assert(bytes_view(pf@) + Seq::<Seq<u8>>::empty() =~= bytes_view(pf@));
        Ok(pf)
    }
}

impl Default for MerkleTree {
    fn default() -> (r: Self)
        ensures
            r@ == Seq::<Seq<u8>>::empty(),
    {
        Self::new()
    }
}

} // verus!
