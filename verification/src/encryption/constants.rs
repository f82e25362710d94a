//! The fixed numbers of the capsule format.

use vstd::prelude::*;

verus! {

/// The first four bytes of a capsule.
pub const MV2E_MAGIC: [u8; 4] = [0x4d, 0x56, 0x32, 0x45];

/// The version of the capsule format.
pub const MV2E_VERSION: u16 = 1;

/// Length of the salt of the key derivation.
pub const SALT_SIZE: usize = 16;

/// Length of the nonce of the cipher.
pub const NONCE_SIZE: usize = 12;

/// Length of the key of the cipher.
pub const KEY_SIZE: usize = 32;

/// Length of the tag that the cipher appends to what it seals.
pub const TAG_SIZE: usize = 16;

/// Length of the header of a capsule.
pub const MV2E_HEADER_SIZE: usize = 64;

/// Length of the plaintext in each chunk of a streaming capsule but the
/// last.
pub const CHUNK_SIZE: usize = 1048576;

/// The first reserved byte of the header of a streaming capsule.
pub const STREAMING_MARKER: u8 = 1;

/// Memory that the key derivation fills, in KiB.
pub const ARGON2_MEMORY_KIB: u32 = 19456;

/// Passes of the key derivation over its memory.
pub const ARGON2_ITERATIONS: u32 = 2;

/// Lanes of the key derivation.
pub const ARGON2_LANES: u32 = 1;

} // verus!
