//! The long-term archives behind one type.

use vstd::prelude::*;

use crate::archiver::config::ArchiveConfig;
use crate::archiver::file::FileArchive;
use crate::archiver::s3_glacier::S3GlacierArchive;

verus! {

/// One of the long-term archives.
pub enum ArchiveVariant {
    S3(S3GlacierArchive),
    File(FileArchive),
}

impl ArchiveVariant {
    /// The archive `config` names: an S3 Glacier archive under the given
    /// prefix, or the default one when none is given; or a file archive in
    /// the given directory.
    pub fn new(config: ArchiveConfig) -> (r: Self)
        ensures
            (match config {
                ArchiveConfig::S3 { bucket, region, prefix } => r matches ArchiveVariant::S3(a)
                    && a.bucket_view() == bucket@ && a.region_view() == region@
                    && a.prefix_view() == (match prefix {
                    Some(p) => p@,
                    None => "rootsmith-archive"@,
                }),
                ArchiveConfig::File { directory } => r matches ArchiveVariant::File(a)
                    && a.directory_view() == directory@ && !a.writing(),
            }),
    {
        match config {
            ArchiveConfig::S3 { bucket, region, prefix } => {
                let archive = match prefix {
                    Some(p) => S3GlacierArchive::with_prefix(bucket, region, p),
                    None => S3GlacierArchive::new(bucket, region),
                };
                ArchiveVariant::S3(archive)
            },
            ArchiveConfig::File { directory } => ArchiveVariant::File(FileArchive::new(directory)),
        }
    }

    /// The name of the archive kind.
    pub fn name(&self) -> (r: &'static str)
        ensures
            self is S3 ==> r@ == "s3-glacier-archive"@,
            self is File ==> r@ == "file-archive"@,
    {
        match self {
            ArchiveVariant::S3(_) => "s3-glacier-archive",
            ArchiveVariant::File(_) => "file-archive",
        }
    }
}

} // verus!
