//! A delivery for tests that keeps every proof it is handed.

use vstd::prelude::*;

use crate::types::StoredProof;
use crate::types::StoredProofView;

verus! {

/// A delivery that appends every proof to a list.
pub struct MockDelivery {
    delivered: Vec<StoredProof>,
}

impl View for MockDelivery {
    type V = Seq<StoredProofView>;

    /// The proofs delivered, in order.
    closed spec fn view(&self) -> Seq<StoredProofView> {
        self.delivered@.map_values(|p: StoredProof| p@)
    }
}

impl MockDelivery {
    /// A delivery holding nothing.
    pub fn new() -> (r: Self)
        ensures
            r@ == Seq::<StoredProofView>::empty(),
    {
        let r = MockDelivery { delivered: Vec::new() };
        assert(r@ =~= Seq::<StoredProofView>::empty());
        r
    }

    /// The delivery's name.
    pub fn name(&self) -> (r: &'static str)
        ensures
            r@ == "mock-delivery"@,
    {
        "mock-delivery"
    }

    /// Copies of every proof delivered, in order.
    pub fn get_delivered(&self) -> (r: Vec<StoredProof>)
        ensures
            r@.map_values(|p: StoredProof| p@) == self@,
    {
        crate::types::copy_stored_proofs(&self.delivered)
    }

    /// Forgets every proof delivered.
    pub fn clear(&mut self)
        ensures
            final(self)@ == Seq::<StoredProofView>::empty(),
    {
        self.delivered.clear();
        assert(self@ =~= Seq::<StoredProofView>::empty());
    }

    /// Appends a copy of `proof`.
    pub fn deliver(&mut self, proof: &StoredProof) -> (res: Result<(), ()>)
        ensures
            res is Ok,
            final(self)@ == old(self)@.push(proof@),
    {
        let p = proof.copy();
        self.delivered.push(p);
        assert(self@ =~= old(self)@.push(proof@));
        Ok(())
    }

    /// Appends copies of `proofs`, in order.
    pub fn deliver_batch(&mut self, proofs: &[StoredProof]) -> (res: Result<(), ()>)
        ensures
            res is Ok,
            final(self)@ == old(self)@ + proofs@.map_values(|p: StoredProof| p@),
    {
        let mut i: usize = 0;
        while i < proofs.len()
            invariant
                i <= proofs@.len(),
                self@ == old(self)@ + proofs@.map_values(|p: StoredProof| p@).subrange(0, i as int),
            decreases proofs@.len() - i,
        {
            let _ = self.deliver(&proofs[i]);
            i += 1;
            assert(self@ =~= old(self)@ + proofs@.map_values(|p: StoredProof| p@).subrange(
                0,
                i as int,
            ));
        }
        assert(proofs@.map_values(|p: StoredProof| p@).subrange(0, i as int) =~= proofs@.map_values(
            |p: StoredProof| p@,
        ));
        Ok(())
    }

    /// Prepares the delivery.
    pub fn open(&mut self) -> (res: Result<(), ()>)
        ensures
            res is Ok,
            *final(self) == *old(self),
    {
        Ok(())
    }

    /// Shuts the delivery down.
    pub fn close(&mut self) -> (res: Result<(), ()>)
        ensures
            res is Ok,
            *final(self) == *old(self),
    {
        Ok(())
    }
}

} // verus!
