//! A demonstration accumulator whose root is the running XOR of every key
//! and value put into it.

use vstd::prelude::*;

use crate::bytes::lemma_u8_xor_laws;
use crate::bytes::xor32;
use crate::bytes::zero32;
use crate::crypto::mock_accumulator::xor_into;
use crate::types::AccumulatorError;
use crate::types::Key32;
use crate::types::Value32;

verus! {

/// The root after putting `key` and `value` into `root`.
pub open spec fn simple_put(root: Seq<u8>, key: Seq<u8>, value: Seq<u8>) -> Seq<u8> {
    xor32(xor32(root, key), value)
}

/// XOR-based accumulator holding only its 32-byte root.
pub struct SimpleAccumulator {
    root: Vec<u8>,
}

impl SimpleAccumulator {
    #[verifier::type_invariant]
    spec fn root_is_word(self) -> bool {
        self.root@.len() == 32
    }
}

impl View for SimpleAccumulator {
    type V = Seq<u8>;

    /// The current root.
    closed spec fn view(&self) -> Seq<u8> {
        self.root@
    }
}

impl SimpleAccumulator {
    /// An accumulator whose root is 32 zero bytes.
    pub fn new() -> (a: Self)
        ensures
            a@ == zero32(),
    {
        let root: Vec<u8> = vec![0u8; 32];
        assert(root@ =~= zero32());
        SimpleAccumulator { root }
    }

    /// The accumulator's name.
    pub fn id(&self) -> (r: &'static str)
        ensures
            r@ == "simple-accumulator"@,
    {
        "simple-accumulator"
    }

    /// XORs `key` and `value` into the root.
    pub fn put(&mut self, key: Key32, value: Value32) -> (res: Result<(), AccumulatorError>)
        ensures
            res is Ok,
            final(self)@ == simple_put(old(self)@, key@, value@),
    {
        proof {
            use_type_invariant(&*self);
        }
        let mut root = crate::bytes::copy_bytes(&self.root);
        xor_into(&mut root, &key);
        xor_into(&mut root, &value);
        self.root = root;
        Ok(())
    }

    /// A copy of the root.
    pub fn build_root(&self) -> (res: Result<Vec<u8>, AccumulatorError>)
        ensures
            res matches Ok(r) && r@ == self@,
    {
        Ok(crate::bytes::copy_bytes(&self.root))
    }

    /// Always holds: this accumulator keeps no record of what was put.
    pub fn verify_inclusion(&self, key: &Key32, value: &[u8]) -> (res: Result<
        bool,
        AccumulatorError,
    >)
        ensures
            res == Ok::<bool, AccumulatorError>(true),
    {
        Ok(true)
    }

    /// Always holds: this accumulator keeps no record of what was put.
    pub fn verify_non_inclusion(&self, key: &Key32) -> (res: Result<bool, AccumulatorError>)
        ensures
            res == Ok::<bool, AccumulatorError>(true),
    {
        Ok(true)
    }

    /// Resets the root to 32 zero bytes.
    pub fn flush(&mut self) -> (res: Result<(), AccumulatorError>)
        ensures
            res is Ok,
            final(self)@ == zero32(),
    {
        let root: Vec<u8> = vec![0u8; 32];
        assert(root@ =~= zero32());
        self.root = root;
        Ok(())
    }
}

/// Putting the same key and value twice gives back the root from before.
pub proof fn law_simple_put_twice_cancels(root: Seq<u8>, key: Seq<u8>, value: Seq<u8>)
    requires
        root.len() == 32,
    ensures
        simple_put(simple_put(root, key, value), key, value) == root,
{
    let r2 = simple_put(simple_put(root, key, value), key, value);
    assert forall|j: int| 0 <= j < 32 implies #[trigger] r2[j] == root[j] by {
        let (r, k, v) = (root[j], key[j], value[j]);
        assert((((r ^ k) ^ v) ^ k) ^ v == r) by (bit_vector);
    }
    assert(r2 =~= root);
}

/// The root does not depend on the order of two puts.
pub proof fn law_simple_puts_commute(
    root: Seq<u8>,
    k1: Seq<u8>,
    v1: Seq<u8>,
    k2: Seq<u8>,
    v2: Seq<u8>,
)
    ensures
        simple_put(simple_put(root, k1, v1), k2, v2) == simple_put(
            simple_put(root, k2, v2),
            k1,
            v1,
        ),
{
    let x = simple_put(simple_put(root, k1, v1), k2, v2);
    let y = simple_put(simple_put(root, k2, v2), k1, v1);
    assert forall|j: int| 0 <= j < 32 implies #[trigger] x[j] == y[j] by {
        let (r, a0, a1, b0, b1) = (root[j], k1[j], v1[j], k2[j], v2[j]);
        assert((((r ^ a0) ^ a1) ^ b0) ^ b1 == (((r ^ b0) ^ b1) ^ a0) ^ a1) by (bit_vector);
    }
    assert(x =~= y);
}

impl Default for SimpleAccumulator {
    fn default() -> (r: Self)
        ensures
            r@ == zero32(),
    {
        Self::new()
    }
}

} // verus!
