//! Handing proofs on to their consumers.

pub mod file;
pub mod kafka;
pub mod mock;
pub mod noop;
pub mod variant;
pub mod webhook;

pub use file::FileDelivery;
pub use kafka::KafkaDelivery;
pub use mock::MockDelivery;
pub use noop::NoopDelivery;
pub use variant::ProofDeliveryVariant;
pub use webhook::WebhookDelivery;
