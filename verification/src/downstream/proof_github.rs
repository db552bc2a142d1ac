//! A legacy proof store in a GitHub repository branch.

use vstd::prelude::*;

use crate::text::format_decimal;
use crate::text::is_uuid_v4_text;
use crate::text::new_uuid_v4;
use crate::text::spec_decimal;
use crate::text::string_push_str;

verus! {

/// A proof as the legacy stores see it: they read only its block number.
#[derive(Clone, Copy, Debug)]
pub struct LegacyProof {
    pub block_number: u64,
}

/// Whether `id` is a legacy proof identifier for block `block`: `proof_`,
/// the block number, `_` and a random version-4 UUID in hyphenated form.
pub open spec fn is_proof_id(id: Seq<char>, block: u64) -> bool {
    exists|u: Seq<char>|
        is_uuid_v4_text(u) && id == "proof_"@ + spec_decimal(block as nat, 1) + "_"@ + u
}

/// A fresh identifier for a proof of block `block`.
pub(crate) fn new_proof_id(block: u64) -> (id: String)
    ensures
        is_proof_id(id@, block),
{
    let mut id = "proof_".to_owned();
    let digits = format_decimal(block, 1);
    string_push_str(&mut id, digits.as_str());
    string_push_str(&mut id, "_");
    let u = new_uuid_v4();
    string_push_str(&mut id, u.as_str());
    assert(id@ == "proof_"@ + spec_decimal(block as nat, 1) + "_"@ + u@);
    id
}

/// Stores proofs in a GitHub repository branch. Uploading is not done here:
/// storing only names the proof, and nothing can be read back.
pub struct ProofGithub {
    repo: String,
    branch: String,
}

impl ProofGithub {
    /// The repository.
    pub closed spec fn repo_view(&self) -> Seq<char> {
        self.repo@
    }

    /// The branch.
    pub closed spec fn branch_view(&self) -> Seq<char> {
        self.branch@
    }

    /// A store for the given repository and branch.
    pub fn new(repo: String, branch: String) -> (r: Self)
        ensures
            r.repo_view() == repo@,
            r.branch_view() == branch@,
    {
        ProofGithub { repo, branch }
    }

    /// Names `proof` with a fresh identifier for its block.
    pub fn store(&mut self, proof: &LegacyProof) -> (res: Result<String, ()>)
        ensures
            res matches Ok(id) && is_proof_id(id@, proof.block_number),
            final(self).repo_view() == old(self).repo_view(),
            final(self).branch_view() == old(self).branch_view(),
    {
        Ok(new_proof_id(proof.block_number))
    }

    /// Finds no proof.
    pub fn retrieve(&self, proof_id: &str) -> (res: Result<Option<LegacyProof>, ()>)
        ensures
            res matches Ok(r) && r is None,
    {
        Ok(None)
    }
}

} // verus!
