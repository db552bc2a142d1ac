//! A proof registry that stores proofs in an S3 bucket.

use vstd::prelude::*;

use crate::types::StoredProof;

verus! {

/// A registry for proofs in an S3 bucket. Uploading is not done here: saving
/// accepts every proof.
pub struct ProofS3 {
    bucket: String,
    region: String,
}

impl ProofS3 {
    /// The bucket.
    pub closed spec fn bucket_view(&self) -> Seq<char> {
        self.bucket@
    }

    /// The region.
    pub closed spec fn region_view(&self) -> Seq<char> {
        self.region@
    }

    /// A registry for the given bucket and region.
    pub fn new(bucket: String, region: String) -> (r: Self)
        ensures
            r.bucket_view() == bucket@,
            r.region_view() == region@,
    {
        ProofS3 { bucket, region }
    }

    /// The registry's name.
    pub fn name(&self) -> (r: &'static str)
        ensures
            r@ == "s3"@,
    {
        "s3"
    }

    /// Accepts `proof`.
    pub fn save_proof(&self, proof: &StoredProof) -> (res: Result<(), ()>)
        ensures
            res is Ok,
    {
        Ok(())
    }

    /// Accepts each of `proofs`.
    pub fn save_proofs(&self, proofs: &[StoredProof]) -> (res: Result<(), ()>)
        ensures
            res is Ok,
    {
        let mut i: usize = 0;
        while i < proofs.len()
            invariant
                i <= proofs@.len(),
            decreases proofs@.len() - i,
        {
            let _ = self.save_proof(&proofs[i]);
            i += 1;
        }
        Ok(())
    }
}

} // verus!
