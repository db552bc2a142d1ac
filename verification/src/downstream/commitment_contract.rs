//! A legacy commitment registry that records epoch roots as a contract
//! would, and checks them back.

use vstd::prelude::*;

verus! {

/// A commitment of an epoch's Merkle root, written out as text.
#[derive(Debug)]
pub struct LegacyCommitment {
    pub epoch: u64,
    pub merkle_root: String,
}

/// A legacy commitment as plain values.
pub open spec fn legacy_view(c: LegacyCommitment) -> (u64, Seq<char>) {
    (c.epoch, c.merkle_root@)
}

/// Records registered commitments, in order, for a contract address.
pub struct CommitmentContract {
    contract_address: String,
    registered: Vec<LegacyCommitment>,
}

impl CommitmentContract {
    /// The contract address.
    pub closed spec fn address_view(&self) -> Seq<char> {
        self.contract_address@
    }

    /// The commitments registered so far, in order.
    pub closed spec fn registered_view(&self) -> Seq<(u64, Seq<char>)> {
        self.registered@.map_values(|c: LegacyCommitment| legacy_view(c))
    }

    /// A registry for `contract_address` with nothing registered.
    pub fn new(contract_address: String) -> (r: Self)
        ensures
            r.address_view() == contract_address@,
            r.registered_view() == Seq::<(u64, Seq<char>)>::empty(),
    {
        let r = CommitmentContract { contract_address, registered: Vec::new() };
        assert(r.registered_view() =~= Seq::<(u64, Seq<char>)>::empty());
        r
    }

    /// Registers a copy of `commitment`.
    pub fn register(&mut self, commitment: &LegacyCommitment) -> (res: Result<(), ()>)
        ensures
            res is Ok,
            final(self).address_view() == old(self).address_view(),
            final(self).registered_view() == old(self).registered_view().push(
                legacy_view(*commitment),
            ),
    {
        let c = LegacyCommitment {
            epoch: commitment.epoch,
            merkle_root: commitment.merkle_root.clone(),
        };
        let ghost before = self.registered_view();
        self.registered.push(c);
        assert(self.registered_view() =~= before.push(legacy_view(*commitment)));
        Ok(())
    }

    /// Whether a commitment with the same epoch and root was registered.
    pub fn verify(&self, commitment: &LegacyCommitment) -> (res: Result<bool, ()>)
        ensures
            res == Ok::<bool, ()>(self.registered_view().contains(legacy_view(*commitment))),
    {
        let ghost v = self.registered_view();
        let mut i: usize = 0;
        while i < self.registered.len()
            invariant
                i <= self.registered@.len(),
                v == self.registered_view(),
                forall|j: int| 0 <= j < i ==> v[j] != legacy_view(*commitment),
            decreases self.registered@.len() - i,
        {
            let c = &self.registered[i];
            if c.epoch == commitment.epoch && c.merkle_root == commitment.merkle_root {
                assert(v[i as int] == legacy_view(*commitment));
                return Ok(true);
            }
            i += 1;
        }
        Ok(false)
    }
}

} // verus!
