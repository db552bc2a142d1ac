//! Configuration of the service.

use vstd::prelude::*;

use crate::accumulator::external_service::AccumulatorConfig;
use crate::archiver::config::ArchiveConfig;
use crate::crypto::variant::AccumulatorType;
use crate::downstream::config::DownstreamConfig;

verus! {

/// The settings the commit cycle runs by.
#[derive(Debug)]
pub struct BaseConfig {
    /// Where the record store lives.
    pub storage_path: String,
    /// Length of an epoch: a commit is due once this many seconds have passed.
    pub batch_interval_secs: u64,
    /// Whether commits run on their own.
    pub auto_commit: bool,
    /// An upper bound on the leaves of one batch, if any.
    pub max_batch_leaves: Option<u64>,
    /// Which accumulator builds the roots.
    pub accumulator_type: AccumulatorType,
}

impl BaseConfig {
    /// A copy of these settings.
    pub fn copy(&self) -> (r: BaseConfig)
        ensures
            r.storage_path@ == self.storage_path@,
            r.batch_interval_secs == self.batch_interval_secs,
            r.auto_commit == self.auto_commit,
            r.max_batch_leaves == self.max_batch_leaves,
            r.accumulator_type == self.accumulator_type,
    {
        BaseConfig {
            storage_path: self.storage_path.clone(),
            batch_interval_secs: self.batch_interval_secs,
            auto_commit: self.auto_commit,
            max_batch_leaves: self.max_batch_leaves,
            accumulator_type: self.accumulator_type,
        }
    }
}

/// The settings of the whole service.
#[derive(Debug)]
pub struct Config {
    /// Where the record store lives.
    pub storage_path: String,
    /// The accumulator settings.
    pub accumulator: AccumulatorConfig,
    /// The long-term archive.
    pub archive: ArchiveConfig,
    /// Where commitment results go.
    pub downstream: DownstreamConfig,
}

} // verus!
