//! The file of a store as bytes: its header, the footer with the table of
//! contents, and the region of the write-ahead log.

pub mod footer;
pub mod header;
pub mod image;
pub mod wal;

pub use header::FORMAT_VERSION;
pub use header::HEADER_SIZE;
pub use header::MV2_MAGIC;
pub use wal::DEFAULT_WAL_SIZE;
pub use wal::WAL_HEADER_SIZE;
