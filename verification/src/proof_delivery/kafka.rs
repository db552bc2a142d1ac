//! Delivery of proofs to a Kafka topic.

use vstd::prelude::*;

use crate::types::StoredProof;

verus! {

/// Delivery of proofs to a Kafka topic. Sending is not done here: each proof is accepted as delivered.
pub struct KafkaDelivery {
    brokers: String,
    topic: String,
}

impl KafkaDelivery {
    /// The brokers.
    pub closed spec fn brokers_view(&self) -> Seq<char> {
        self.brokers@
    }

    /// The topic.
    pub closed spec fn topic_view(&self) -> Seq<char> {
        self.topic@
    }

    /// A delivery to `topic` through `brokers`.
    pub fn new(brokers: String, topic: String) -> (r: Self)
        ensures
            r.brokers_view() == brokers@,
            r.topic_view() == topic@,
    {
        KafkaDelivery { brokers, topic }
    }

    /// The delivery's name.
    pub fn name(&self) -> (r: &'static str)
        ensures
            r@ == "kafka"@,
    {
        "kafka"
    }

    /// Accepts `proof`.
    pub fn deliver(&self, proof: &StoredProof) -> (res: Result<(), ()>)
        ensures
            res is Ok,
    {
        Ok(())
    }

    /// Accepts each of `proofs`, in order.
    pub fn deliver_batch(&self, proofs: &[StoredProof]) -> (res: Result<(), ()>)
        ensures
            res is Ok,
    {
        let mut i: usize = 0;
        while i < proofs.len()
            invariant
                i <= proofs@.len(),
            decreases proofs@.len() - i,
        {
            let _ = self.deliver(&proofs[i]);
            i += 1;
        }
        Ok(())
    }

    /// Prepares the delivery.
    pub fn open(&mut self) -> (res: Result<(), ()>)
        ensures
            res is Ok,
            *final(self) == *old(self),
    {
        Ok(())
    }

    /// Shuts the delivery down.
    pub fn close(&mut self) -> (res: Result<(), ()>)
        ensures
            res is Ok,
            *final(self) == *old(self),
    {
        Ok(())
    }
}

} // verus!
