//! A proof registry for tests that keeps every proof in memory.

use vstd::prelude::*;

use crate::types::StoredProof;
use crate::types::StoredProofView;

verus! {

/// A registry that appends every proof to a list.
pub struct MockProofRegistry {
    proofs: Vec<StoredProof>,
}

impl View for MockProofRegistry {
    type V = Seq<StoredProofView>;

    /// The proofs saved, in order.
    closed spec fn view(&self) -> Seq<StoredProofView> {
        self.proofs@.map_values(|p: StoredProof| p@)
    }
}

impl MockProofRegistry {
    /// A registry holding nothing.
    pub fn new() -> (r: Self)
        ensures
            r@ == Seq::<StoredProofView>::empty(),
    {
        let r = MockProofRegistry { proofs: Vec::new() };
        assert(r@ =~= Seq::<StoredProofView>::empty());
        r
    }

    /// The registry's name.
    pub fn name(&self) -> (r: &'static str)
        ensures
            r@ == "mock-proof-registry"@,
    {
        "mock-proof-registry"
    }

    /// Appends a copy of `proof`.
    pub fn save_proof(&mut self, proof: &StoredProof) -> (res: Result<(), ()>)
        ensures
            res is Ok,
            final(self)@ == old(self)@.push(proof@),
    {
        let p = proof.copy();
        self.proofs.push(p);
        assert(self@ =~= old(self)@.push(proof@));
        Ok(())
    }

    /// Appends copies of `proofs`, in order.
    pub fn save_proofs(&mut self, proofs: &[StoredProof]) -> (res: Result<(), ()>)
        ensures
            res is Ok,
            final(self)@ == old(self)@ + proofs@.map_values(|p: StoredProof| p@),
    {
        let mut i: usize = 0;
        while i < proofs.len()
            invariant
                i <= proofs@.len(),
                self@ == old(self)@ + proofs@.map_values(|p: StoredProof| p@).subrange(0, i as int),
            decreases proofs@.len() - i,
        {
            let _ = self.save_proof(&proofs[i]);
            i += 1;
            assert(self@ =~= old(self)@ + proofs@.map_values(|p: StoredProof| p@).subrange(
                0,
                i as int,
            ));
        }
        assert(proofs@.map_values(|p: StoredProof| p@).subrange(0, i as int) =~= proofs@.map_values(
            |p: StoredProof| p@,
        ));
        Ok(())
    }

    /// Copies of every saved proof, in order.
    pub fn get_proofs(&self) -> (r: Vec<StoredProof>)
        ensures
            r@.map_values(|p: StoredProof| p@) == self@,
    {
        crate::types::copy_stored_proofs(&self.proofs)
    }
}

} // verus!
