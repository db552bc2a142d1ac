//! The downstream consumers behind one type.

use vstd::prelude::*;

use crate::downstream::blackhole::BlackholeDownstream;
use crate::downstream::config::DownstreamConfig;
use crate::downstream::handler::Downstream;
use crate::types::CommitmentResult;

verus! {

/// A consumer that sends results to an S3 bucket. Uploading is not done
/// here: every result is accepted.
#[derive(Debug)]
pub struct S3Downstream {
    pub bucket: String,
    pub region: String,
    pub api_key: Option<String>,
}

impl Downstream for S3Downstream {
    fn name(&self) -> (r: &'static str)
        ensures
            r@ == "s3-downstream"@,
    {
        "s3-downstream"
    }

    fn handle(&mut self, result: &CommitmentResult) -> (res: Result<(), ()>)
        ensures
            res is Ok,
            *final(self) == *old(self),
    {
        Ok(())
    }
}

/// One of the downstream consumers.
pub enum DownstreamVariant {
    S3(S3Downstream),
    Blackhole(BlackholeDownstream),
}

impl DownstreamVariant {
    /// The consumer a configuration names, with its settings.
    pub fn new(config: DownstreamConfig) -> (r: Self)
        ensures
            (match config {
                DownstreamConfig::S3 { bucket, region, api_key } => r matches DownstreamVariant::S3(s)
                    && s.bucket == bucket && s.region == region && s.api_key == api_key,
                DownstreamConfig::Blackhole => r is Blackhole,
            }),
    {
        match config {
            DownstreamConfig::S3 { bucket, region, api_key } => DownstreamVariant::S3(
                S3Downstream { bucket, region, api_key },
            ),
            DownstreamConfig::Blackhole => DownstreamVariant::Blackhole(BlackholeDownstream::new()),
        }
    }
}

impl Downstream for DownstreamVariant {
    fn name(&self) -> (r: &'static str)
        ensures
            self is S3 ==> r@ == "s3-downstream"@,
            self is Blackhole ==> r@ == "blackhole-downstream"@,
    {
        match self {
            DownstreamVariant::S3(_) => "s3-downstream",
            DownstreamVariant::Blackhole(_) => "blackhole-downstream",
        }
    }

    fn handle(&mut self, result: &CommitmentResult) -> (res: Result<(), ()>)
        ensures
            res is Ok,
            *final(self) == *old(self),
    {
        match self {
            DownstreamVariant::S3(inner) => inner.handle(result),
            DownstreamVariant::Blackhole(inner) => inner.handle(result),
        }
    }
}

} // verus!
