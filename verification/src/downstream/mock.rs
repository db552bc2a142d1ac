//! A downstream consumer for tests that records every result it handles.

use vstd::prelude::*;

use crate::downstream::handler::Downstream;
use crate::types::CommitmentResult;
use crate::types::ResultView;

verus! {

/// Results as plain values.
pub open spec fn results_view(v: Seq<CommitmentResult>) -> Seq<ResultView> {
    v.map_values(|r: CommitmentResult| r@)
}

/// Copies of a list of results.
fn copy_results(v: &Vec<CommitmentResult>) -> (r: Vec<CommitmentResult>)
    ensures
        results_view(r@) == results_view(v@),
{
    let mut out: Vec<CommitmentResult> = Vec::new();
    let mut i: usize = 0;
    while i < v.len()
        invariant
            i <= v@.len(),
            results_view(out@) == results_view(v@).subrange(0, i as int),
        decreases v@.len() - i,
    {
        let ghost before = results_view(out@);
        let c = v[i].copy();
        out.push(c);
        assert(results_view(out@) =~= before.push(c@));
        i += 1;
        assert(results_view(out@) =~= results_view(v@).subrange(0, i as int));
    }
    assert(results_view(v@).subrange(0, i as int) =~= results_view(v@));
    out
}

/// Keeps a copy of each result handled, in order.
pub struct MockDownstream {
    pub calls: Vec<CommitmentResult>,
}

impl View for MockDownstream {
    type V = Seq<ResultView>;

    /// The results handled so far, in order.
    open spec fn view(&self) -> Seq<ResultView> {
        results_view(self.calls@)
    }
}

impl MockDownstream {
    /// A consumer that has handled nothing.
    pub fn new() -> (r: Self)
        ensures
            r@ == Seq::<ResultView>::empty(),
    {
        let r = MockDownstream { calls: Vec::new() };
        assert(r@ =~= Seq::<ResultView>::empty());
        r
    }

    /// Copies of the results handled so far, in order.
    pub fn get_calls(&self) -> (r: Vec<CommitmentResult>)
        ensures
            results_view(r@) == self@,
    {
        copy_results(&self.calls)
    }
}

impl Downstream for MockDownstream {
    fn name(&self) -> (r: &'static str)
        ensures
            r@ == "mock"@,
    {
        "mock"
    }

    fn handle(&mut self, result: &CommitmentResult) -> (res: Result<(), ()>)
        ensures
            res is Ok,
            final(self)@ == old(self)@.push(result@),
    {
        let c = result.copy();
        let ghost before = self@;
        self.calls.push(c);
        assert(self@ =~= before.push(result@));
        Ok(())
    }
}

} // verus!
