//! A delivery that discards every proof.

use vstd::prelude::*;

use crate::types::StoredProof;

verus! {

/// A delivery that silently discards proofs.
pub struct NoopDelivery;

impl NoopDelivery {
    /// The delivery's name.
    pub fn name(&self) -> (r: &'static str)
        ensures
            r@ == "noop-delivery"@,
    {
        "noop-delivery"
    }

    /// Discards `proof`.
    pub fn deliver(&self, proof: &StoredProof) -> (res: Result<(), ()>)
        ensures
            res is Ok,
    {
        Ok(())
    }

    /// Discards `proofs`.
    pub fn deliver_batch(&self, proofs: &[StoredProof]) -> (res: Result<(), ()>)
        ensures
            res is Ok,
    {
        Ok(())
    }

    /// Prepares the delivery.
    pub fn open(&mut self) -> (res: Result<(), ()>)
        ensures
            res is Ok,
            *final(self) == *old(self),
    {
        Ok(())
    }

    /// Shuts the delivery down.
    pub fn close(&mut self) -> (res: Result<(), ()>)
        ensures
            res is Ok,
            *final(self) == *old(self),
    {
        Ok(())
    }
}

} // verus!
