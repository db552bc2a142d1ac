//! Which long-term archive to use.

use vstd::prelude::*;

verus! {

/// The archive a configuration names.
#[derive(Debug)]
pub enum ArchiveConfig {
    /// An S3 Glacier bucket, with an optional key prefix.
    S3 { bucket: String, region: String, prefix: Option<String> },
    /// A directory of the local file system.
    File { directory: String },
}

} // verus!
