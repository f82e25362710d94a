//! The encryption capsule: a store's file sealed under a password.

pub mod capsule;
pub mod capsule_stream;
pub mod constants;
pub mod crypto;
pub mod error;
pub mod types;

pub use constants::MV2E_HEADER_SIZE;
pub use constants::MV2E_MAGIC;
pub use constants::MV2E_VERSION;
pub use constants::NONCE_SIZE;
pub use constants::SALT_SIZE;
pub use error::EncryptionError;
pub use types::CipherAlgorithm;
pub use types::KdfAlgorithm;
pub use types::Mv2eHeader;
pub use capsule::lock_file;
pub use capsule::unlock_file;
pub use capsule_stream::lock_file_stream;
pub use capsule_stream::unlock_file_stream;
