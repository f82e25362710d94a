//! The handle over one store: the header and the table of contents as they
//! are in memory, and what is known of the file behind them.

pub mod index;
pub mod lifecycle;
pub mod mutation;
pub mod recovery;
pub mod ticket;
pub mod verify;

pub use lifecycle::Memvid;
