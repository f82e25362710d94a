//! Single-file memory store: the in-memory side of the file engine, ticket
//! handling, detached signatures and the encryption capsule, with every rule
//! stated as a contract and proved.

pub mod bytes;
pub mod encryption;
pub mod error;
pub mod json;
pub mod memvid;
pub mod signature;
pub mod storage;
pub mod types;

pub use error::MemvidError;
pub use memvid::Memvid;
