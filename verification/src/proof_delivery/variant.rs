//! The proof deliveries behind one type.

use vstd::prelude::*;

use crate::proof_delivery::file::FileDelivery;
use crate::proof_delivery::kafka::KafkaDelivery;
use crate::proof_delivery::mock::MockDelivery;
use crate::proof_delivery::noop::NoopDelivery;
use crate::proof_delivery::webhook::WebhookDelivery;
use crate::types::StoredProof;
use crate::types::StoredProofView;

verus! {

/// One of the proof deliveries.
pub enum ProofDeliveryVariant {
    Noop(NoopDelivery),
    Mock(MockDelivery),
    Kafka(KafkaDelivery),
    Webhook(WebhookDelivery),
    File(FileDelivery),
}

impl ProofDeliveryVariant {
    /// The proofs delivered where they can be read back: those of a mock
    /// delivery; none for the others.
    pub open spec fn delivered(&self) -> Seq<StoredProofView> {
        match self {
            ProofDeliveryVariant::Mock(m) => m@,
            _ => Seq::empty(),
        }
    }

    /// The name of the delivery inside.
    pub fn name(&self) -> (r: &'static str)
        ensures
            self is Noop ==> r@ == "noop-delivery"@,
            self is Mock ==> r@ == "mock-delivery"@,
            self is Kafka ==> r@ == "kafka"@,
            self is Webhook ==> r@ == "webhook"@,
            self is File ==> r@ == "file"@,
    {
        match self {
            ProofDeliveryVariant::Noop(inner) => inner.name(),
            ProofDeliveryVariant::Mock(inner) => inner.name(),
            ProofDeliveryVariant::Kafka(inner) => inner.name(),
            ProofDeliveryVariant::Webhook(inner) => inner.name(),
            ProofDeliveryVariant::File(inner) => inner.name(),
        }
    }

    /// Delivers one proof.
    pub fn deliver(&mut self, proof: &StoredProof) -> (res: Result<(), ()>)
        ensures
            res is Ok,
            *old(self) is Mock ==> final(self).delivered() == old(self).delivered().push(proof@),
            !(*old(self) is Mock) ==> *final(self) == *old(self),
            *final(self) is Mock <==> *old(self) is Mock,
    {
        match self {
            ProofDeliveryVariant::Noop(inner) => inner.deliver(proof),
            ProofDeliveryVariant::Mock(inner) => inner.deliver(proof),
            ProofDeliveryVariant::Kafka(inner) => inner.deliver(proof),
            ProofDeliveryVariant::Webhook(inner) => inner.deliver(proof),
            ProofDeliveryVariant::File(inner) => inner.deliver(proof),
        }
    }

    /// Delivers each of `proofs`, in order.
    pub fn deliver_batch(&mut self, proofs: &[StoredProof]) -> (res: Result<(), ()>)
        ensures
            res is Ok,
            *old(self) is Mock ==> final(self).delivered() == old(self).delivered()
                + proofs@.map_values(|p: StoredProof| p@),
            !(*old(self) is Mock) ==> *final(self) == *old(self),
            *final(self) is Mock <==> *old(self) is Mock,
    {
        match self {
            ProofDeliveryVariant::Noop(inner) => inner.deliver_batch(proofs),
            ProofDeliveryVariant::Mock(inner) => inner.deliver_batch(proofs),
            ProofDeliveryVariant::Kafka(inner) => inner.deliver_batch(proofs),
            ProofDeliveryVariant::Webhook(inner) => inner.deliver_batch(proofs),
            ProofDeliveryVariant::File(inner) => inner.deliver_batch(proofs),
        }
    }

    /// Prepares the delivery inside.
    pub fn open(&mut self) -> (res: Result<(), ()>)
        ensures
            res is Ok,
            *final(self) == *old(self),
    {
        match self {
            ProofDeliveryVariant::Noop(inner) => inner.open(),
            ProofDeliveryVariant::Mock(inner) => inner.open(),
            ProofDeliveryVariant::Kafka(inner) => inner.open(),
            ProofDeliveryVariant::Webhook(inner) => inner.open(),
            ProofDeliveryVariant::File(inner) => inner.open(),
        }
    }

    /// Shuts the delivery inside down.
    pub fn close(&mut self) -> (res: Result<(), ()>)
        ensures
            res is Ok,
            *final(self) == *old(self),
    {
        match self {
            ProofDeliveryVariant::Noop(inner) => inner.close(),
            ProofDeliveryVariant::Mock(inner) => inner.close(),
            ProofDeliveryVariant::Kafka(inner) => inner.close(),
            ProofDeliveryVariant::Webhook(inner) => inner.close(),
            ProofDeliveryVariant::File(inner) => inner.close(),
        }
    }
}

} // verus!
