//! Where commitments are registered and looked up again.

pub mod commitment_contract;
pub mod commitment_noop;
pub mod history;
pub mod mock;
pub mod variant;

pub use variant::CommitmentRegistryVariant;
