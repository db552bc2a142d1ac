//! A registry backed by an on-chain contract.

use vstd::prelude::*;

use crate::commitment_registry::history::latest_commitment;
use crate::commitment_registry::history::latest_index;
use crate::types::BatchCommitmentMeta;
use crate::types::Commitment;
use crate::types::CommitmentFilterOptions;
use crate::types::CommitmentView;

verus! {

/// A registry that registers commitments with the contract at an address.
/// Registration goes to the contract; lookups search the commitments this
/// value holds.
pub struct CommitmentContract {
    contract_address: String,
    registered: Vec<Commitment>,
}

impl CommitmentContract {
    /// The commitments this value holds, in order.
    pub closed spec fn registered_view(&self) -> Seq<CommitmentView> {
        self.registered@.map_values(|c: Commitment| c@)
    }

    /// The contract's address.
    pub closed spec fn address_view(&self) -> Seq<char> {
        self.contract_address@
    }

    /// A registry for the contract at `contract_address`, holding no commitments.
    pub fn new(contract_address: String) -> (r: Self)
        ensures
            r.address_view() == contract_address@,
            r.registered_view() == Seq::<CommitmentView>::empty(),
    {
        let r = CommitmentContract { contract_address, registered: Vec::new() };
        assert(r.registered_view() =~= Seq::<CommitmentView>::empty());
        r
    }

    /// The registry's name.
    pub fn name(&self) -> (r: &'static str)
        ensures
            r@ == "contract"@,
    {
        "contract"
    }

    /// Registers `meta` with the contract; nothing is kept here.
    pub fn commit(&self, meta: &BatchCommitmentMeta) -> (res: Result<(), ()>)
        ensures
            res is Ok,
    {
        Ok(())
    }

    /// The latest held commitment of the filter's namespace made no later than its time.
    pub fn get_prev_commitment(&self, filter: &CommitmentFilterOptions) -> (res: Result<
        Option<Commitment>,
        (),
    >)
        ensures
            res matches Ok(r) && (match (r, latest_commitment(self.registered_view(), filter.namespace@, filter.time)) {
                (Some(c), Some(sc)) => c@ == sc,
                (None, None) => true,
                _ => false,
            }),
    {
        match latest_index(&self.registered, filter) {
            Some(i) => Ok(Some(self.registered[i].copy())),
            None => Ok(None),
        }
    }
}

} // verus!
