//! Long-term archive backends chosen by configuration.

pub mod config;
pub mod file;
pub mod s3_glacier;
pub mod variant;

pub use config::ArchiveConfig;
pub use file::FileArchive;
pub use s3_glacier::S3GlacierArchive;
pub use variant::ArchiveVariant;
