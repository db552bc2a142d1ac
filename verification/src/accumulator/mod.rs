//! Accumulators that commit whole batches of records at once.

pub mod external_service;
pub mod merkle_accumulator;
pub mod sdk_accumulator;
pub mod sparse_merkle_accumulator;
pub mod zk_adapter;
