//! A key-value tree over byte strings whose root folds every key followed by
//! its value into 32 bytes by XOR.

use vstd::prelude::*;

use crate::bytes::copy_bytes;
use crate::bytes::xor32;
use crate::bytes::zero32;
use crate::crypto::merkle::hash_pair_bytes;
use crate::crypto::merkle::lemma_xor_fold_len;
use crate::crypto::merkle::spec_hash_pair;
use crate::types::find_key;
use crate::types::lemma_find_key;
use crate::types::lemma_put_lookup;
use crate::types::lookup;
use crate::types::spec_put;
use crate::types::Entry;

verus! {

/// The root of `s`: for each entry, the key's bytes followed by the value's
/// bytes are XORed into position `i % 32`, counting `i` from 0 within the entry.
pub open spec fn sparse_root(s: Seq<Entry>) -> Seq<u8>
    decreases s.len(),
{
    if s.len() == 0 {
        zero32()
    } else {
        xor32(sparse_root(s.drop_last()), spec_hash_pair(s.last().0, s.last().1))
    }
}

/// The entries of a list of byte-vector pairs, as sequences.
pub open spec fn byte_pairs_view(v: Seq<(Vec<u8>, Vec<u8>)>) -> Seq<Entry> {
    v.map_values(|p: (Vec<u8>, Vec<u8>)| (p.0@, p.1@))
}

/// XORs the first 32 bytes of `b` into `root`.
fn xor_word_into(root: &mut Vec<u8>, b: &Vec<u8>)
    requires
        old(root)@.len() == 32,
        b@.len() == 32,
    ensures
        final(root)@ == xor32(old(root)@, b@),
{
    let ghost r0 = root@;
    let mut i: usize = 0;
    while i < 32
        invariant
            i <= 32,
            root@.len() == 32,
            b@.len() == 32,
            r0.len() == 32,
            forall|j: int| 0 <= j < i ==> root@[j] == r0[j] ^ b@[j],
            forall|j: int| i <= j < 32 ==> root@[j] == r0[j],
        decreases 32 - i,
    {
        let x = root[i] ^ b[i];
        root.set(i, x);
        i += 1;
    }
    assert(root@ =~= xor32(r0, b@));
}

/// A sparse tree of byte-string keys and values, with a nominal depth.
pub struct SparseMerkleTree {
    nodes: Vec<(Vec<u8>, Vec<u8>)>,
    depth: usize,
}

impl View for SparseMerkleTree {
    type V = Seq<Entry>;

    /// The entries, one per key, in first-insertion order.
    closed spec fn view(&self) -> Seq<Entry> {
        byte_pairs_view(self.nodes@)
    }
}

impl SparseMerkleTree {
    /// The depth the tree was made with.
    pub closed spec fn spec_depth(&self) -> nat {
        self.depth as nat
    }

    /// An empty tree of the given depth.
    pub fn new(depth: usize) -> (t: Self)
        ensures
            t@ == Seq::<Entry>::empty(),
            t.spec_depth() == depth,
    {
        let t = SparseMerkleTree { nodes: Vec::new(), depth };
        assert(t@ =~= Seq::<Entry>::empty());
        t
    }

    /// The depth the tree was made with.
    pub fn depth(&self) -> (d: usize)
        ensures
            d == self.spec_depth(),
    {
        self.depth
    }

    /// The index of the entry for `key`, as `find_key` gives it.
    fn position(&self, key: &[u8]) -> (r: Option<usize>)
        ensures
            match r {
                Some(i) => i as int == find_key(self@, key@) && i < self.nodes@.len(),
                None => find_key(self@, key@) == -1,
            },
    {
        let mut i: usize = self.nodes.len();
        assert(self@.subrange(0, i as int) =~= self@);
        while i > 0
            invariant
                i <= self.nodes@.len(),
                find_key(self@, key@) == find_key(self@.subrange(0, i as int), key@),
            decreases i,
        {
            let ghost t = self@.subrange(0, i as int);
            assert(t.last() == (self.nodes@[i - 1].0@, self.nodes@[i - 1].1@));
            if crate::bytes::eq_bytes(self.nodes[i - 1].0.as_slice(), key) {
                proof {
                    lemma_find_key(self@, key@);
                }
                return Some(i - 1);
            }
            assert(t.drop_last() =~= self@.subrange(0, i - 1));
            i -= 1;
        }
        None
    }

    /// Maps `key` to `value`, replacing an earlier value of `key`.
    pub fn update(&mut self, key: Vec<u8>, value: Vec<u8>) -> (res: Result<(), ()>)
        ensures
            res is Ok,
            final(self)@ == spec_put(old(self)@, key@, value@),
            final(self).spec_depth() == old(self).spec_depth(),
    {
        match self.position(key.as_slice()) {
            Some(i) => {
                let ghost kv = key@;
                let ghost vv = value@;
                self.nodes.set(i, (key, value));
                assert(self@ =~= spec_put(old(self)@, kv, vv));
            },
            None => {
                let ghost kv = key@;
                let ghost vv = value@;
                self.nodes.push((key, value));
                assert(self@ =~= spec_put(old(self)@, kv, vv));
            },
        }
        Ok(())
    }

    /// The value stored under `key`, if any.
    pub fn get(&self, key: &[u8]) -> (r: Option<&Vec<u8>>)
        ensures
            match (r, lookup(self@, key@)) {
                (Some(v), Some(sv)) => v@ == sv,
                (None, None) => true,
                _ => false,
            },
    {
        match self.position(key) {
            Some(i) => Some(&self.nodes[i].1),
            None => None,
        }
    }

    /// The XOR fold of every entry.
    pub fn root(&self) -> (res: Result<Vec<u8>, ()>)
        ensures
            res matches Ok(r) && r@ == sparse_root(self@),
    {
        let mut result: Vec<u8> = vec![0u8; 32];
        assert(result@ =~= zero32());
        let mut i: usize = 0;
        while i < self.nodes.len()
            invariant
                i <= self.nodes@.len(),
                result@.len() == 32,
                result@ == sparse_root(self@.subrange(0, i as int)),
            decreases self.nodes@.len() - i,
        {
            let ghost before = self@.subrange(0, i as int);
            let h = hash_pair_bytes(self.nodes[i].0.as_slice(), self.nodes[i].1.as_slice());
            proof {
                lemma_xor_fold_len(
                    self.nodes@[i as int].0@ + self.nodes@[i as int].1@,
                    (self.nodes@[i as int].0@.len() + self.nodes@[i as int].1@.len()) as nat,
                );
            }
            xor_word_into(&mut result, &h);
            i += 1;
            assert(self@.subrange(0, i as int).drop_last() =~= before);
        }
        assert(self@.subrange(0, i as int) =~= self@);
        Ok(result)
    }

    /// The proof for `key`: its value alone when it is present, nothing otherwise.
    pub fn generate_proof(&self, key: &[u8]) -> (res: Result<Vec<Vec<u8>>, ()>)
        ensures
            res matches Ok(p) && (match lookup(self@, key@) {
                Some(v) => p@.len() == 1 && p@[0]@ == v,
                None => p@.len() == 0,
            }),
    {
        let mut pf: Vec<Vec<u8>> = Vec::new();
        if let Some(i) = self.position(key) {
            pf.push(copy_bytes(&self.nodes[i].1));
        }
        Ok(pf)
    }
}

/// What an update writes, a get gives back; other keys keep what they held.
pub proof fn law_sparse_update_then_get(
    s: Seq<Entry>,
    key: Seq<u8>,
    value: Seq<u8>,
    other: Seq<u8>,
)
    ensures
        lookup(spec_put(s, key, value), key) == Some(value),
        other != key ==> lookup(spec_put(s, key, value), other) == lookup(s, other),
{
    lemma_put_lookup(s, key, value, other);
}

/// The entries after the updates of `updates` are applied to `s`, in order.
pub open spec fn put_all(s: Seq<Entry>, updates: Seq<Entry>) -> Seq<Entry>
    decreases updates.len(),
{
    if updates.len() == 0 {
        s
    } else {
        spec_put(put_all(s, updates.drop_last()), updates.last().0, updates.last().1)
    }
}

/// After a sequence of updates, a get of a key gives the value of the last
/// update of that key; a key that no update wrote keeps what it held before
/// (nothing, for a new tree).
pub proof fn law_sparse_updates_then_get(s: Seq<Entry>, updates: Seq<Entry>, key: Seq<u8>)
    ensures
        lookup(put_all(s, updates), key) == (if find_key(updates, key) >= 0 {
            Some(updates[find_key(updates, key)].1)
        } else {
            lookup(s, key)
        }),
    decreases updates.len(),
{
    if updates.len() > 0 {
        let prev = updates.drop_last();
        law_sparse_updates_then_get(s, prev, key);
        law_sparse_update_then_get(put_all(s, prev), updates.last().0, updates.last().1, key);
        if updates.last().0 != key {
            lemma_find_key(updates, key);
            lemma_find_key(prev, key);
            assert(find_key(updates, key) == find_key(prev, key));
            if find_key(prev, key) >= 0 {
                assert(updates[find_key(prev, key)] == prev[find_key(prev, key)]);
            }
        }
    }
}

/// The root does not depend on the order in which two new keys are added.
pub proof fn law_sparse_root_order_independent(
    s: Seq<Entry>,
    k1: Seq<u8>,
    v1: Seq<u8>,
    k2: Seq<u8>,
    v2: Seq<u8>,
)
    requires
        k1 != k2,
        lookup(s, k1) is None,
        lookup(s, k2) is None,
    ensures
        sparse_root(spec_put(spec_put(s, k1, v1), k2, v2)) == sparse_root(
            spec_put(spec_put(s, k2, v2), k1, v1),
        ),
{
    lemma_find_key(s, k1);
    lemma_find_key(s, k2);
    let a = s.push((k1, v1));
    let b = s.push((k2, v2));
    assert(spec_put(s, k1, v1) == a);
    assert(spec_put(s, k2, v2) == b);
    assert(a.drop_last() =~= s);
    assert(b.drop_last() =~= s);
    assert(find_key(a, k2) == find_key(s, k2));
    assert(find_key(b, k1) == find_key(s, k1));
    assert(spec_put(a, k2, v2) == a.push((k2, v2)));
    assert(spec_put(b, k1, v1) == b.push((k1, v1)));
    assert(a.push((k2, v2)).drop_last() =~= a);
    assert(b.push((k1, v1)).drop_last() =~= b);
    let r = sparse_root(s);
    let h1 = spec_hash_pair(k1, v1);
    let h2 = spec_hash_pair(k2, v2);
    assert(sparse_root(a) == xor32(r, h1));
    assert(sparse_root(b) == xor32(r, h2));
    assert(sparse_root(a.push((k2, v2))) == xor32(sparse_root(a), h2));
    assert(sparse_root(b.push((k1, v1))) == xor32(sparse_root(b), h1));
    crate::bytes::lemma_xor32_assoc(r, h1, h2);
    crate::bytes::lemma_xor32_assoc(r, h2, h1);
    crate::bytes::lemma_xor32_comm(h1, h2);
}

impl Default for SparseMerkleTree {
    fn default() -> (r: Self)
        ensures
            r@ == Seq::<Entry>::empty(),
            r.spec_depth() == 256,
    {
        Self::new(256)
    }
}

} // verus!
