//! Byte-sequence helpers shared by the accumulators: zero words, bytewise
//! XOR and its algebra, and copies of byte vectors.

use vstd::prelude::*;

verus! {

/// Thirty-two zero bytes.
pub open spec fn zero32() -> Seq<u8> {
    Seq::new(32, |i: int| 0u8)
}

/// Bytewise XOR of the first 32 bytes of `a` and `b`.
pub open spec fn xor32(a: Seq<u8>, b: Seq<u8>) -> Seq<u8> {
    Seq::new(32, |i: int| a[i] ^ b[i])
}

/// XOR of bytes is associative, commutative, and has zero as identity.
pub proof fn lemma_u8_xor_laws(a: u8, b: u8, c: u8)
    ensures
        a ^ b == b ^ a,
        (a ^ b) ^ c == a ^ (b ^ c),
        a ^ 0u8 == a,
        0u8 ^ a == a,
        a ^ a == 0u8,
{
    assert(a ^ b == b ^ a) by (bit_vector);
    assert((a ^ b) ^ c == a ^ (b ^ c)) by (bit_vector);
    assert(a ^ 0u8 == a) by (bit_vector);
    assert(0u8 ^ a == a) by (bit_vector);
    assert(a ^ a == 0u8) by (bit_vector);
}

/// `xor32` is commutative.
pub proof fn lemma_xor32_comm(a: Seq<u8>, b: Seq<u8>)
    ensures
        xor32(a, b) == xor32(b, a),
{
    assert forall|i: int| 0 <= i < 32 implies #[trigger] xor32(a, b)[i] == xor32(b, a)[i] by {
        lemma_u8_xor_laws(a[i], b[i], 0);
    }
    assert(xor32(a, b) =~= xor32(b, a));
}

/// `xor32` is associative.
pub proof fn lemma_xor32_assoc(a: Seq<u8>, b: Seq<u8>, c: Seq<u8>)
    ensures
        xor32(xor32(a, b), c) == xor32(a, xor32(b, c)),
{
    assert forall|i: int| 0 <= i < 32 implies #[trigger] xor32(xor32(a, b), c)[i] == xor32(
        a,
        xor32(b, c),
    )[i] by {
        lemma_u8_xor_laws(a[i], b[i], c[i]);
    }
    assert(xor32(xor32(a, b), c) =~= xor32(a, xor32(b, c)));
}

/// Zero is the identity of `xor32` on 32-byte words.
pub proof fn lemma_xor32_zero(a: Seq<u8>)
    requires
        a.len() == 32,
    ensures
        xor32(a, zero32()) == a,
        xor32(zero32(), a) == a,
{
    assert forall|i: int| 0 <= i < 32 implies #[trigger] xor32(a, zero32())[i] == a[i] by {
        lemma_u8_xor_laws(a[i], 0, 0);
    }
    assert forall|i: int| 0 <= i < 32 implies #[trigger] xor32(zero32(), a)[i] == a[i] by {
        lemma_u8_xor_laws(a[i], 0, 0);
    }
    assert(xor32(a, zero32()) =~= a);
    assert(xor32(zero32(), a) =~= a);
}

/// A copy of `v`.
pub fn copy_bytes(v: &Vec<u8>) -> (r: Vec<u8>)
    ensures
        r@ == v@,
{
    let r = v.clone();
    assert(r@ =~= v@);
    r
}

/// A vector holding the bytes of `a`.
pub fn array_to_vec(a: &[u8; 32]) -> (r: Vec<u8>)
    ensures
        r@ == a@,
{
    let mut r: Vec<u8> = Vec::new();
    let mut i: usize = 0;
    while i < 32
        invariant
            i <= 32,
            r@ == a@.subrange(0, i as int),
        decreases 32 - i,
    {
        r.push(a[i]);
        i += 1;
        assert(r@ =~= a@.subrange(0, i as int));
    }
    assert(a@.subrange(0, 32) =~= a@);
    r
}

/// Whether two 32-byte words are equal.
pub fn eq32(a: &[u8; 32], b: &[u8; 32]) -> (r: bool)
    ensures
        r == (a@ == b@),
{
    let mut i: usize = 0;
    while i < 32
        invariant
            i <= 32,
            forall|j: int| 0 <= j < i ==> a@[j] == b@[j],
        decreases 32 - i,
    {
        if a[i] != b[i] {
            return false;
        }
        i += 1;
    }
    assert(a@ =~= b@);
    true
}

/// Whether two byte slices are equal.
pub fn eq_bytes(a: &[u8], b: &[u8]) -> (r: bool)
    ensures
        r == (a@ == b@),
{
    if a.len() != b.len() {
        return false;
    }
    let mut i: usize = 0;
    while i < a.len()
        invariant
            i <= a@.len(),
            a@.len() == b@.len(),
            forall|j: int| 0 <= j < i ==> a@[j] == b@[j],
        decreases a@.len() - i,
    {
        if a[i] != b[i] {
            return false;
        }
        i += 1;
    }
    assert(a@ =~= b@);
    true
}

} // verus!
