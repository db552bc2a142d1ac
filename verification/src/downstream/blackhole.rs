//! A downstream consumer that discards every result.

use vstd::prelude::*;

use crate::downstream::handler::Downstream;
use crate::types::CommitmentResult;

verus! {

/// Discards all data.
pub struct BlackholeDownstream;

impl BlackholeDownstream {
    /// The consumer.
    pub fn new() -> (r: Self) {
        BlackholeDownstream
    }
}

impl Downstream for BlackholeDownstream {
    fn name(&self) -> (r: &'static str)
        ensures
            r@ == "blackhole"@,
    {
        "blackhole"
    }

    fn handle(&mut self, result: &CommitmentResult) -> (res: Result<(), ()>)
        ensures
            res is Ok,
    {
        Ok(())
    }
}

} // verus!
