//! A proof registry that keeps nothing.

use vstd::prelude::*;

use crate::types::StoredProof;

verus! {

/// A registry that accepts every proof and keeps none.
pub struct NoopProofRegistry;

impl NoopProofRegistry {
    /// The registry's name.
    pub fn name(&self) -> (r: &'static str)
        ensures
            r@ == "noop-proof"@,
    {
        "noop-proof"
    }

    /// Accepts `proof` and forgets it.
    pub fn save_proof(&self, proof: &StoredProof) -> (res: Result<(), ()>)
        ensures
            res is Ok,
    {
        Ok(())
    }

    /// Accepts `proofs` and forgets them.
    pub fn save_proofs(&self, proofs: &[StoredProof]) -> (res: Result<(), ()>)
        ensures
            res is Ok,
    {
        Ok(())
    }
}

} // verus!
