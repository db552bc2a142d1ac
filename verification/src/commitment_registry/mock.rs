//! A registry for tests that keeps every commitment in memory.

use vstd::prelude::*;

use crate::commitment_registry::history::latest_commitment;
use crate::commitment_registry::history::latest_index;
use crate::types::BatchCommitmentMeta;
use crate::types::Commitment;
use crate::types::CommitmentFilterOptions;
use crate::types::CommitmentView;
use crate::types::MetaView;

verus! {

/// The commitments of a list of batch commitments.
pub open spec fn commitments_of(metas: Seq<MetaView>) -> Seq<CommitmentView> {
    metas.map_values(|m: MetaView| m.0)
}

/// A registry that appends every batch commitment to a list.
pub struct MockCommitmentRegistry {
    commitments: Vec<BatchCommitmentMeta>,
}

impl View for MockCommitmentRegistry {
    type V = Seq<MetaView>;

    /// The batch commitments, in the order they were made.
    closed spec fn view(&self) -> Seq<MetaView> {
        self.commitments@.map_values(|m: BatchCommitmentMeta| m@)
    }
}

impl MockCommitmentRegistry {
    /// A registry holding nothing.
    pub fn new() -> (r: Self)
        ensures
            r@ == Seq::<MetaView>::empty(),
    {
        let r = MockCommitmentRegistry { commitments: Vec::new() };
        assert(r@ =~= Seq::<MetaView>::empty());
        r
    }

    /// The registry's name.
    pub fn name(&self) -> (r: &'static str)
        ensures
            r@ == "mock-commitment-registry"@,
    {
        "mock-commitment-registry"
    }

    /// Appends a copy of `meta`.
    pub fn commit(&mut self, meta: &BatchCommitmentMeta) -> (res: Result<(), ()>)
        ensures
            res is Ok,
            final(self)@ == old(self)@.push(meta@),
    {
        let m = meta.copy();
        self.commitments.push(m);
        assert(self@ =~= old(self)@.push(meta@));
        Ok(())
    }

    /// Copies of every batch commitment, in order.
    pub fn get_commitments(&self) -> (r: Vec<BatchCommitmentMeta>)
        ensures
            r@.map_values(|m: BatchCommitmentMeta| m@) == self@,
    {
        let mut out: Vec<BatchCommitmentMeta> = Vec::new();
        let mut i: usize = 0;
        while i < self.commitments.len()
            invariant
                i <= self.commitments@.len(),
                out@.map_values(|m: BatchCommitmentMeta| m@) == self@.subrange(0, i as int),
            decreases self.commitments@.len() - i,
        {
            let ghost before = out@.map_values(|m: BatchCommitmentMeta| m@);
            let m = self.commitments[i].copy();
            out.push(m);
            assert(out@.map_values(|m: BatchCommitmentMeta| m@) =~= before.push(m@));
            i += 1;
            assert(out@.map_values(|m: BatchCommitmentMeta| m@) =~= self@.subrange(0, i as int));
        }
        assert(self@.subrange(0, i as int) =~= self@);
        out
    }

    /// The latest commitment of the filter's namespace made no later than its time.
    pub fn get_prev_commitment(&self, filter: &CommitmentFilterOptions) -> (res: Result<
        Option<Commitment>,
        (),
    >)
        ensures
            res matches Ok(r) && (match (r, latest_commitment(commitments_of(self@), filter.namespace@, filter.time)) {
                (Some(c), Some(sc)) => c@ == sc,
                (None, None) => true,
                _ => false,
            }),
    {
        let mut list: Vec<Commitment> = Vec::new();
        let mut i: usize = 0;
        while i < self.commitments.len()
            invariant
                i <= self.commitments@.len(),
                list@.map_values(|c: Commitment| c@) == commitments_of(self@).subrange(0, i as int),
            decreases self.commitments@.len() - i,
        {
            let ghost before = list@.map_values(|c: Commitment| c@);
            let c = self.commitments[i].commitment.copy();
            list.push(c);
            assert(list@.map_values(|c: Commitment| c@) =~= before.push(c@));
            i += 1;
            assert(list@.map_values(|c: Commitment| c@) =~= commitments_of(self@).subrange(
                0,
                i as int,
            ));
        }
        assert(commitments_of(self@).subrange(0, i as int) =~= commitments_of(self@));
        match latest_index(&list, filter) {
            Some(j) => Ok(Some(list[j].copy())),
            None => Ok(None),
        }
    }
}

} // verus!
