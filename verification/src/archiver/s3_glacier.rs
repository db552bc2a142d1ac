//! An archive in an S3 Glacier bucket.

use vstd::prelude::*;

verus! {

/// An archive in an S3 Glacier bucket, under a key prefix.
pub struct S3GlacierArchive {
    bucket: String,
    region: String,
    prefix: String,
}

impl S3GlacierArchive {
    /// The bucket.
    pub closed spec fn bucket_view(&self) -> Seq<char> {
        self.bucket@
    }

    /// The region.
    pub closed spec fn region_view(&self) -> Seq<char> {
        self.region@
    }

    /// The key prefix.
    pub closed spec fn prefix_view(&self) -> Seq<char> {
        self.prefix@
    }

    /// An archive in `bucket` and `region` under the prefix `rootsmith-archive`.
    pub fn new(bucket: String, region: String) -> (r: Self)
        ensures
            r.bucket_view() == bucket@,
            r.region_view() == region@,
            r.prefix_view() == "rootsmith-archive"@,
    {
        S3GlacierArchive { bucket, region, prefix: "rootsmith-archive".to_string() }
    }

    /// An archive in `bucket` and `region` under `prefix`.
    pub fn with_prefix(bucket: String, region: String, prefix: String) -> (r: Self)
        ensures
            r.bucket_view() == bucket@,
            r.region_view() == region@,
            r.prefix_view() == prefix@,
    {
        S3GlacierArchive { bucket, region, prefix }
    }

    /// The archive's name.
    pub fn name(&self) -> (r: &'static str)
        ensures
            r@ == "s3-glacier"@,
    {
        "s3-glacier"
    }
}

} // verus!
