//! Verified core of the rootsmith commitment service: the record wire
//! format, the accumulators that fold records into roots, the epoch
//! state machine that decides when and what to commit, and the
//! registries that hold commitments and proofs.

pub mod accumulator;
pub mod archive;
pub mod archiver;
pub mod app;
pub mod app_v2;
pub mod bytes;
pub mod clock;
pub mod commit;
pub mod commitment_registry;
pub mod config;
pub mod crypto;
pub mod downstream;
pub mod feature_select;
pub mod parser;
pub mod proof_delivery;
pub mod proof_registry;
pub mod rootsmith;
pub mod storage;
pub mod text;
pub mod types;
