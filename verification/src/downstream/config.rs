//! Which downstream consumer to use.

use vstd::prelude::*;

verus! {

/// The downstream consumer a configuration names.
#[derive(Debug)]
pub enum DownstreamConfig {
    /// Results go to an S3 bucket.
    S3 { bucket: String, region: String, api_key: Option<String> },
    /// Results are discarded.
    Blackhole,
}

} // verus!
