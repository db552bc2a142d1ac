//! A legacy proof store in an S3 bucket.

use vstd::prelude::*;

use crate::downstream::proof_github::is_proof_id;
use crate::downstream::proof_github::new_proof_id;
use crate::downstream::proof_github::LegacyProof;

verus! {

/// Stores proofs in an S3 bucket. Uploading is not done here: storing only
/// names the proof, and nothing can be read back.
pub struct ProofS3 {
    bucket: String,
    region: String,
}

impl ProofS3 {
    /// The bucket.
    pub closed spec fn bucket_view(&self) -> Seq<char> {
        self.bucket@
    }

    /// The region.
    pub closed spec fn region_view(&self) -> Seq<char> {
        self.region@
    }

    /// A store for the given bucket and region.
    pub fn new(bucket: String, region: String) -> (r: Self)
        ensures
            r.bucket_view() == bucket@,
            r.region_view() == region@,
    {
        ProofS3 { bucket, region }
    }

    /// Names `proof` with a fresh identifier for its block.
    pub fn store(&mut self, proof: &LegacyProof) -> (res: Result<String, ()>)
        ensures
            res matches Ok(id) && is_proof_id(id@, proof.block_number),
            final(self).bucket_view() == old(self).bucket_view(),
            final(self).region_view() == old(self).region_view(),
    {
        Ok(new_proof_id(proof.block_number))
    }

    /// Finds no proof.
    pub fn retrieve(&self, proof_id: &str) -> (res: Result<Option<LegacyProof>, ()>)
        ensures
            res matches Ok(r) && r is None,
    {
        Ok(None)
    }
}

} // verus!
