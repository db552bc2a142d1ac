//! The proof registries behind one type.

use vstd::prelude::*;

use crate::proof_registry::mock::MockProofRegistry;
use crate::proof_registry::noop::NoopProofRegistry;
use crate::proof_registry::proof_github::ProofGithub;
use crate::proof_registry::proof_s3::ProofS3;
use crate::types::StoredProof;
use crate::types::StoredProofView;

verus! {

/// Which proof registry to make.
#[derive(Clone, Copy, Debug, PartialEq, Eq)]
pub enum ProofRegistryType {
    S3,
    Github,
    Noop,
    Mock,
}

/// One of the proof registries.
pub enum ProofRegistryVariant {
    S3(ProofS3),
    Github(ProofGithub),
    Noop(NoopProofRegistry),
    Mock(MockProofRegistry),
}

impl ProofRegistryVariant {
    /// The proofs the registry keeps where they can be read back: those of a
    /// mock registry; none for the others. (The locations of the S3 and
    /// GitHub registries are read through their own `bucket_view`,
    /// `region_view`, `repo_view` and `branch_view`.)
    pub open spec fn kept(&self) -> Seq<StoredProofView> {
        match self {
            ProofRegistryVariant::Mock(m) => m@,
            _ => Seq::empty(),
        }
    }

    /// A registry of the given type, with fixed default locations.
    pub fn new(registry_type: ProofRegistryType) -> (r: Self)
        ensures
            registry_type == ProofRegistryType::S3 ==> (r matches ProofRegistryVariant::S3(p)
                && p.bucket_view() == "rootsmith-proofs"@ && p.region_view() == "us-east-1"@),
            registry_type == ProofRegistryType::Github ==> (r matches ProofRegistryVariant::Github(p)
                && p.repo_view() == "owner/repo"@ && p.branch_view() == "main"@),
            registry_type == ProofRegistryType::Noop ==> r is Noop,
            registry_type == ProofRegistryType::Mock ==> r is Mock,
            r.kept() == Seq::<StoredProofView>::empty(),
    {
        match registry_type {
            ProofRegistryType::S3 => ProofRegistryVariant::S3(
                ProofS3::new("rootsmith-proofs".to_string(), "us-east-1".to_string()),
            ),
            ProofRegistryType::Github => ProofRegistryVariant::Github(
                ProofGithub::new("owner/repo".to_string(), "main".to_string()),
            ),
            ProofRegistryType::Noop => ProofRegistryVariant::Noop(NoopProofRegistry),
            ProofRegistryType::Mock => ProofRegistryVariant::Mock(MockProofRegistry::new()),
        }
    }

    /// The name of the registry inside.
    pub fn name(&self) -> (r: &'static str)
        ensures
            self is S3 ==> r@ == "s3"@,
            self is Github ==> r@ == "github"@,
            self is Noop ==> r@ == "noop-proof"@,
            self is Mock ==> r@ == "mock-proof-registry"@,
    {
        match self {
            ProofRegistryVariant::S3(inner) => inner.name(),
            ProofRegistryVariant::Github(inner) => inner.name(),
            ProofRegistryVariant::Noop(inner) => inner.name(),
            ProofRegistryVariant::Mock(inner) => inner.name(),
        }
    }

    /// Saves one proof.
    pub fn save_proof(&mut self, proof: &StoredProof) -> (res: Result<(), ()>)
        ensures
            res is Ok,
            *old(self) is Mock ==> final(self).kept() == old(self).kept().push(proof@),
            !(*old(self) is Mock) ==> *final(self) == *old(self),
            *final(self) is Mock <==> *old(self) is Mock,
    {
        match self {
            ProofRegistryVariant::S3(inner) => inner.save_proof(proof),
            ProofRegistryVariant::Github(inner) => inner.save_proof(proof),
            ProofRegistryVariant::Noop(inner) => inner.save_proof(proof),
            ProofRegistryVariant::Mock(inner) => inner.save_proof(proof),
        }
    }

    /// Saves each of `proofs`, in order.
    pub fn save_proofs(&mut self, proofs: &[StoredProof]) -> (res: Result<(), ()>)
        ensures
            res is Ok,
            *old(self) is Mock ==> final(self).kept() == old(self).kept() + proofs@.map_values(
                |p: StoredProof| p@,
            ),
            !(*old(self) is Mock) ==> *final(self) == *old(self),
            *final(self) is Mock <==> *old(self) is Mock,
    {
        match self {
            ProofRegistryVariant::S3(inner) => inner.save_proofs(proofs),
            ProofRegistryVariant::Github(inner) => inner.save_proofs(proofs),
            ProofRegistryVariant::Noop(inner) => inner.save_proofs(proofs),
            ProofRegistryVariant::Mock(inner) => inner.save_proofs(proofs),
        }
    }
}

} // verus!
