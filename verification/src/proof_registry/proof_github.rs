//! A proof registry that stores proofs in a GitHub repository branch.

use vstd::prelude::*;

use crate::types::StoredProof;

verus! {

/// A registry for proofs in a GitHub repository branch. Uploading is not done here: saving
/// accepts every proof.
pub struct ProofGithub {
    repo: String,
    branch: String,
}

impl ProofGithub {
    /// The repo.
    pub closed spec fn repo_view(&self) -> Seq<char> {
        self.repo@
    }

    /// The branch.
    pub closed spec fn branch_view(&self) -> Seq<char> {
        self.branch@
    }

    /// A registry for the given repo and branch.
    pub fn new(repo: String, branch: String) -> (r: Self)
        ensures
            r.repo_view() == repo@,
            r.branch_view() == branch@,
    {
        ProofGithub { repo, branch }
    }

    /// The registry's name.
    pub fn name(&self) -> (r: &'static str)
        ensures
            r@ == "github"@,
    {
        "github"
    }

    /// Accepts `proof`.
    pub fn save_proof(&self, proof: &StoredProof) -> (res: Result<(), ()>)
        ensures
            res is Ok,
    {
        Ok(())
    }

    /// Accepts each of `proofs`.
    pub fn save_proofs(&self, proofs: &[StoredProof]) -> (res: Result<(), ()>)
        ensures
            res is Ok,
    {
        let mut i: usize = 0;
        while i < proofs.len()
            invariant
                i <= proofs@.len(),
            decreases proofs@.len() - i,
        {
            let _ = self.save_proof(&proofs[i]);
            i += 1;
        }
        Ok(())
    }
}

} // verus!
