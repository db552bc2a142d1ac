//! Delivery of proofs as JSON files in a directory.

use vstd::prelude::*;

use crate::types::StoredProof;

verus! {

/// Delivery of proofs as JSON files in a directory. Sending is not done here: each proof is accepted as delivered.
pub struct FileDelivery {
    directory: String,
}

impl FileDelivery {
    /// The directory.
    pub closed spec fn directory_view(&self) -> Seq<char> {
        self.directory@
    }

    /// A delivery into `directory`.
    pub fn new(directory: String) -> (r: Self)
        ensures
            r.directory_view() == directory@,
    {
        FileDelivery { directory }
    }

    /// The delivery's name.
    pub fn name(&self) -> (r: &'static str)
        ensures
            r@ == "file"@,
    {
        "file"
    }

    /// Accepts `proof`.
    pub fn deliver(&self, proof: &StoredProof) -> (res: Result<(), ()>)
        ensures
            res is Ok,
    {
        Ok(())
    }

    /// Accepts each of `proofs`, in order.
    pub fn deliver_batch(&self, proofs: &[StoredProof]) -> (res: Result<(), ()>)
        ensures
            res is Ok,
    {
        let mut i: usize = 0;
        while i < proofs.len()
            invariant
                i <= proofs@.len(),
            decreases proofs@.len() - i,
        {
            let _ = self.deliver(&proofs[i]);
            i += 1;
        }
        Ok(())
    }

    /// Prepares the delivery.
    pub fn open(&mut self) -> (res: Result<(), ()>)
        ensures
            res is Ok,
            *final(self) == *old(self),
    {
        Ok(())
    }

    /// Shuts the delivery down.
    pub fn close(&mut self) -> (res: Result<(), ()>)
        ensures
            res is Ok,
            *final(self) == *old(self),
    {
        Ok(())
    }
}

} // verus!
