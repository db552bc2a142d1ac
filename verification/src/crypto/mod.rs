//! Accumulators: structures that fold records into a single root.

pub mod hashing;
pub mod merkle;
pub mod merkle_accumulator;
pub mod mock_accumulator;
pub mod simple_accumulator;
pub mod sparse_merkle;
pub mod sparse_merkle_accumulator;
pub mod accumulator_laws;
pub mod tree_store;
pub mod variant;
