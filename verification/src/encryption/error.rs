//! Errors of sealing and opening a capsule.

use vstd::prelude::*;

verus! {

#[derive(Clone, Copy, Debug, PartialEq, Eq, Structural)]
pub enum EncryptionError {
    /// What was to be sealed does not begin with the magic bytes of a store,
    /// or what was to be opened does not begin with a header of this format.
    NotMv2File,
    /// The system gave no random bytes for the salt and the nonce.
    Entropy,
    /// The key derivation refused the password.
    KeyDerivation,
    /// The cipher refused to seal a chunk.
    Encryption,
    /// The cipher refused what was to be opened: the password is wrong or
    /// the capsule was changed.
    Decryption,
    /// The capsule ends inside its header or inside a chunk.
    Truncated,
}

} // verus!
