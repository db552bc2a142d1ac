//! What a downstream consumer of commitment results does.

use vstd::prelude::*;

use crate::types::CommitmentResult;

verus! {

/// A consumer of commitment results.
pub trait Downstream {
    /// The consumer's name, for logs and metrics.
    fn name(&self) -> &'static str;

    /// Handles one commitment result.
    fn handle(&mut self, result: &CommitmentResult) -> Result<(), ()>;
}

} // verus!
