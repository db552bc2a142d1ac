//! Cold storage for old records, commitments and proofs.

pub mod data;
pub mod file;
pub mod mock;
pub mod noop;
pub mod s3_glacier;
pub mod variant;

pub use data::ArchiveData;
pub use data::ArchiveFilter;
pub use file::FileArchive;
pub use mock::MockArchive;
pub use noop::NoopArchive;
pub use s3_glacier::S3GlacierArchive;
pub use variant::ArchiveStorageVariant;
