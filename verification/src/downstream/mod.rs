//! Consumers of commitment results, and the legacy registries that stood
//! downstream of them.

pub mod blackhole;
pub mod commitment_contract;
pub mod commitment_noop;
pub mod config;
pub mod handler;
pub mod mock;
pub mod proof_github;
pub mod proof_s3;
pub mod variant;

pub use blackhole::BlackholeDownstream;
pub use config::DownstreamConfig;
pub use handler::Downstream;
pub use mock::MockDownstream;
pub use variant::DownstreamVariant;
pub use variant::S3Downstream;
