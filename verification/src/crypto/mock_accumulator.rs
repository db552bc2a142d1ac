//! An accumulator for tests: a key-value map whose root is the XOR of all
//! keys and values.

use vstd::prelude::*;

use crate::bytes::lemma_u8_xor_laws;
use crate::bytes::xor32;
use crate::bytes::zero32;
use crate::types::find_key;
use crate::types::lemma_find_key;
use crate::types::lemma_put_lookup;
use crate::types::lookup;
use crate::types::spec_put;
use crate::types::AccumulatorError;
use crate::types::Entry;
use crate::types::Key32;
use crate::types::Value32;

verus! {

/// The root after folding the key and the value of `e` into `acc`.
pub open spec fn xor_entry(acc: Seq<u8>, e: Entry) -> Seq<u8> {
    xor32(xor32(acc, e.0), e.1)
}

/// The XOR of every key and every value of `s`.
pub open spec fn entries_root(s: Seq<Entry>) -> Seq<u8>
    decreases s.len(),
{
    if s.len() == 0 {
        zero32()
    } else {
        xor_entry(entries_root(s.drop_last()), s.last())
    }
}

/// The entries of a list of key-value pairs, as sequences.
pub open spec fn pairs_view(v: Seq<(Key32, Value32)>) -> Seq<Entry> {
    v.map_values(|p: (Key32, Value32)| (p.0@, p.1@))
}

/// XORs `b` into `root`, byte by byte.
pub fn xor_into(root: &mut Vec<u8>, b: &[u8; 32])
    requires
        old(root)@.len() == 32,
    ensures
        final(root)@ == xor32(old(root)@, b@),
{
    let ghost r0 = root@;
    let mut i: usize = 0;
    while i < 32
        invariant
            i <= 32,
            root@.len() == 32,
            r0.len() == 32,
            forall|j: int| 0 <= j < i ==> root@[j] == r0[j] ^ b@[j],
            forall|j: int| i <= j < 32 ==> root@[j] == r0[j],
        decreases 32 - i,
    {
        let x = root[i] ^ b[i];
        root.set(i, x);
        i += 1;
    }
    assert(root@ =~= xor32(r0, b@));
}

/// Folding two entries into a root gives the same result in either order.
pub proof fn lemma_xor_entry_commute(r: Seq<u8>, a: Entry, b: Entry)
    ensures
        xor_entry(xor_entry(r, a), b) == xor_entry(xor_entry(r, b), a),
{
    let x = xor_entry(xor_entry(r, a), b);
    let y = xor_entry(xor_entry(r, b), a);
    assert forall|j: int| 0 <= j < 32 implies #[trigger] x[j] == y[j] by {
        let (r0, a0, a1, b0, b1) = (r[j], a.0[j], a.1[j], b.0[j], b.1[j]);
        assert((((r0 ^ a0) ^ a1) ^ b0) ^ b1 == (((r0 ^ b0) ^ b1) ^ a0) ^ a1) by (bit_vector);
    }
    assert(x =~= y);
}

/// Mock accumulator: the last value put under each key, in first-insertion order.
pub struct MockAccumulator {
    pub leaves: Vec<(Key32, Value32)>,
}

impl View for MockAccumulator {
    type V = Seq<Entry>;

    open spec fn view(&self) -> Seq<Entry> {
        pairs_view(self.leaves@)
    }
}

impl MockAccumulator {
    /// An empty accumulator.
    pub fn new() -> (a: Self)
        ensures
            a@ == Seq::<Entry>::empty(),
    {
        let a = MockAccumulator { leaves: Vec::new() };
        assert(a@ =~= Seq::<Entry>::empty());
        a
    }

    /// The accumulator's name.
    pub fn id(&self) -> (r: &'static str)
        ensures
            r@ == "mock-accumulator"@,
    {
        "mock-accumulator"
    }

    /// The index of the entry for `key`, as `find_key` gives it.
    fn position(&self, key: &Key32) -> (r: Option<usize>)
        ensures
            match r {
                Some(i) => i as int == find_key(self@, key@) && i < self.leaves@.len(),
                None => find_key(self@, key@) == -1,
            },
    {
        let mut i: usize = self.leaves.len();
        assert(self@.subrange(0, i as int) =~= self@);
        while i > 0
            invariant
                i <= self.leaves@.len(),
                find_key(self@, key@) == find_key(self@.subrange(0, i as int), key@),
            decreases i,
        {
            let ghost t = self@.subrange(0, i as int);
            assert(t.last() == (self.leaves@[i - 1].0@, self.leaves@[i - 1].1@));
            if crate::bytes::eq32(&self.leaves[i - 1].0, key) {
                proof {
                    lemma_find_key(self@, key@);
                }
                return Some(i - 1);
            }
            assert(t.drop_last() =~= self@.subrange(0, i - 1));
            i -= 1;
        }
        None
    }

    /// Maps `key` to `value`, replacing an earlier value of `key`.
    pub fn put(&mut self, key: Key32, value: Value32) -> (res: Result<(), AccumulatorError>)
        ensures
            res is Ok,
            final(self)@ == spec_put(old(self)@, key@, value@),
    {
        match self.position(&key) {
            Some(i) => {
                self.leaves.set(i, (key, value));
                assert(self@ =~= spec_put(old(self)@, key@, value@));
            },
            None => {
                self.leaves.push((key, value));
                assert(self@ =~= spec_put(old(self)@, key@, value@));
            },
        }
        Ok(())
    }

    /// The XOR of every key and value held.
    pub fn build_root(&self) -> (res: Result<Vec<u8>, AccumulatorError>)
        ensures
            res matches Ok(r) && r@ == entries_root(self@),
    {
        let mut root: Vec<u8> = vec![0u8; 32];
        assert(root@ =~= zero32());
        let mut i: usize = 0;
        while i < self.leaves.len()
            invariant
                i <= self.leaves@.len(),
                root@.len() == 32,
                root@ == entries_root(self@.subrange(0, i as int)),
            decreases self.leaves@.len() - i,
        {
            let ghost before = self@.subrange(0, i as int);
            xor_into(&mut root, &self.leaves[i].0);
            xor_into(&mut root, &self.leaves[i].1);
            i += 1;
            assert(self@.subrange(0, i as int).drop_last() =~= before);
        }
        assert(self@.subrange(0, i as int) =~= self@);
        Ok(root)
    }

    /// Whether `key` is held with exactly the bytes `value`.
    pub fn verify_inclusion(&self, key: &Key32, value: &[u8]) -> (res: Result<
        bool,
        AccumulatorError,
    >)
        ensures
            res matches Ok(b) && b == (lookup(self@, key@) == Some(value@)),
    {
        match self.position(key) {
            Some(i) => {
                proof {
                    lemma_find_key(self@, key@);
                }
                Ok(crate::bytes::eq_bytes(self.leaves[i].1.as_slice(), value))
            },
            None => Ok(false),
        }
    }

    /// Whether `key` is absent.
    pub fn verify_non_inclusion(&self, key: &Key32) -> (res: Result<bool, AccumulatorError>)
        ensures
            res matches Ok(b) && b == (lookup(self@, key@) is None),
    {
        Ok(self.position(key).is_none())
    }

    /// Removes every entry.
    pub fn flush(&mut self) -> (res: Result<(), AccumulatorError>)
        ensures
            res is Ok,
            final(self)@ == Seq::<Entry>::empty(),
    {
        self.leaves.clear();
        assert(self@ =~= Seq::<Entry>::empty());
        Ok(())
    }
}

/// What a put writes, a lookup gives back: after `key` is put with `value`,
/// inclusion of `value` under `key` holds and non-inclusion of `key` fails;
/// other keys keep what they held.
pub proof fn law_mock_put_then_lookup(s: Seq<Entry>, key: Seq<u8>, value: Seq<u8>, other: Seq<u8>)
    ensures
        lookup(spec_put(s, key, value), key) == Some(value),
        other != key ==> lookup(spec_put(s, key, value), other) == lookup(s, other),
{
    lemma_put_lookup(s, key, value, other);
}

/// The root does not depend on the order in which two new keys are put.
pub proof fn law_mock_root_order_independent(
    s: Seq<Entry>,
    k1: Seq<u8>,
    v1: Seq<u8>,
    k2: Seq<u8>,
    v2: Seq<u8>,
)
    requires
        k1 != k2,
        lookup(s, k1) is None,
        lookup(s, k2) is None,
    ensures
        entries_root(spec_put(spec_put(s, k1, v1), k2, v2)) == entries_root(
            spec_put(spec_put(s, k2, v2), k1, v1),
        ),
{
    lemma_find_key(s, k1);
    lemma_find_key(s, k2);
    let a = s.push((k1, v1));
    let b = s.push((k2, v2));
    assert(spec_put(s, k1, v1) == a);
    assert(spec_put(s, k2, v2) == b);
    assert(a.drop_last() =~= s);
    assert(b.drop_last() =~= s);
    assert(find_key(a, k2) == find_key(s, k2));
    assert(find_key(b, k1) == find_key(s, k1));
    assert(spec_put(a, k2, v2) == a.push((k2, v2)));
    assert(spec_put(b, k1, v1) == b.push((k1, v1)));
    assert(a.push((k2, v2)).drop_last() =~= a);
    assert(b.push((k1, v1)).drop_last() =~= b);
    assert(a.last() == (k1, v1));
    assert(b.last() == (k2, v2));
    assert(entries_root(a) == xor_entry(entries_root(s), (k1, v1)));
    assert(entries_root(b) == xor_entry(entries_root(s), (k2, v2)));
    assert(a.push((k2, v2)).last() == (k2, v2));
    assert(b.push((k1, v1)).last() == (k1, v1));
    assert(entries_root(a.push((k2, v2))) == xor_entry(entries_root(a), (k2, v2)));
    assert(entries_root(b.push((k1, v1))) == xor_entry(entries_root(b), (k1, v1)));
    lemma_xor_entry_commute(entries_root(s), (k1, v1), (k2, v2));
}

} // verus!
