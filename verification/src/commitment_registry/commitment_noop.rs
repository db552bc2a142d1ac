//! A registry that keeps nothing.

use vstd::prelude::*;

use crate::types::BatchCommitmentMeta;
use crate::types::Commitment;
use crate::types::CommitmentFilterOptions;

verus! {

/// A registry that accepts every commitment and remembers none.
pub struct CommitmentNoop;

impl CommitmentNoop {
    /// The registry.
    pub fn new() -> (r: Self) {
        CommitmentNoop
    }

    /// The registry's name.
    pub fn name(&self) -> (r: &'static str)
        ensures
            r@ == "noop"@,
    {
        "noop"
    }

    /// Accepts `meta` and forgets it.
    pub fn commit(&self, meta: &BatchCommitmentMeta) -> (res: Result<(), ()>)
        ensures
            res is Ok,
    {
        Ok(())
    }

    /// Never finds a commitment.
    pub fn get_prev_commitment(&self, filter: &CommitmentFilterOptions) -> (res: Result<
        Option<Commitment>,
        (),
    >)
        ensures
            res matches Ok(r) && r is None,
    {
        Ok(None)
    }
}

impl Default for CommitmentNoop {
    fn default() -> (r: Self)
        ensures
            r == CommitmentNoop,
    {
        Self::new()
    }
}

} // verus!
