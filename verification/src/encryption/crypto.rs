//! Key derivation and the cipher, as the capsule uses them.

use vstd::prelude::*;
use crate::bytes::zeros;
use crate::encryption::constants::ARGON2_ITERATIONS;
use crate::encryption::constants::ARGON2_LANES;
use crate::encryption::constants::ARGON2_MEMORY_KIB;
use crate::encryption::constants::KEY_SIZE;
use crate::encryption::constants::NONCE_SIZE;
use crate::encryption::constants::SALT_SIZE;
use crate::encryption::constants::TAG_SIZE;
use crate::encryption::error::EncryptionError;

verus! {

/// The 32 bytes that Argon2id, version 0x13, derives from a password and a
/// salt with the given memory in KiB, passes and lanes; `None` where it
/// refuses them.
pub uninterp spec fn argon2id_hash(
    password: Seq<u8>,
    salt: Seq<u8>,
    memory_kib: u32,
    iterations: u32,
    lanes: u32,
) -> Option<Seq<u8>>;

/// What AES-256-GCM seals a plaintext to under a key and a nonce, without
/// associated data: the ciphertext followed by the tag. `None` where the
/// cipher refuses the plaintext.
pub uninterp spec fn aes256_gcm_sealed(key: Seq<u8>, nonce: Seq<u8>, plaintext: Seq<u8>) -> Option<
    Seq<u8>,
>;

/// What AES-256-GCM opens a sealed text to under a key and a nonce, without
/// associated data. `None` where the tag does not match.
pub uninterp spec fn aes256_gcm_opened(key: Seq<u8>, nonce: Seq<u8>, sealed: Seq<u8>) -> Option<
    Seq<u8>,
>;

/// Derives 32 bytes with `argon2::Argon2::hash_password_into`, for the
/// algorithm Argon2id in version 0x13. The result depends on the arguments
/// alone. The bounds keep the parameters where the crate computes with them
/// without overflow and asks for at most 1 GiB.
#[verifier::external_body]
fn argon2id(password: &[u8], salt: &[u8; SALT_SIZE], memory_kib: u32, iterations: u32, lanes: u32)
    -> (res: Option<[u8; KEY_SIZE]>)
    requires
        memory_kib <= 0x10_0000,
        lanes <= 0xff_ffff,
    ensures
        res is Some <==> argon2id_hash(password@, salt@, memory_kib, iterations, lanes) is Some,
        res matches Some(key) ==> argon2id_hash(password@, salt@, memory_kib, iterations, lanes)
            == Some(key@),
{
    let mut key = [0u8; KEY_SIZE];
    let params = argon2::Params::new(memory_kib, iterations, lanes, Some(key.len())).ok()?;
    let hasher = argon2::Argon2::new(argon2::Algorithm::Argon2id, argon2::Version::V0x13, params);
    hasher.hash_password_into(password, salt, &mut key).ok()?;
    Some(key)
}

/// Seals with `aes_gcm::Aes256Gcm` through `aead::Aead::encrypt`. The
/// contract claims what the crate's source shows: the cipher refuses only a
/// plaintext of more than 2^36 bytes, what it gives is 16 bytes longer than
/// the plaintext, and opening it under the same key and nonce gives the
/// plaintext back.
#[verifier::external_body]
fn aes256_gcm_encrypt(plaintext: &[u8], key: &[u8; KEY_SIZE], nonce: &[u8; NONCE_SIZE]) -> (res:
    Option<Vec<u8>>)
    ensures
        res is Some <==> aes256_gcm_sealed(key@, nonce@, plaintext@) is Some,
        plaintext@.len() <= 0x10_0000_0000 ==> res is Some,
        res matches Some(sealed) ==> {
            &&& aes256_gcm_sealed(key@, nonce@, plaintext@) == Some(sealed@)
            &&& sealed@.len() == plaintext@.len() + TAG_SIZE
            &&& aes256_gcm_opened(key@, nonce@, sealed@) == Some(plaintext@)
        },
{
    let cipher = <aes_gcm::Aes256Gcm as aes_gcm::KeyInit>::new(key.into());
    aes_gcm::aead::Aead::encrypt(&cipher, nonce.into(), plaintext).ok()
}

/// Opens with `aes_gcm::Aes256Gcm` through `aead::Aead::decrypt`. The result
/// depends on the arguments alone; what is opened is 16 bytes shorter than
/// what was sealed.
#[verifier::external_body]
fn aes256_gcm_decrypt(sealed: &[u8], key: &[u8; KEY_SIZE], nonce: &[u8; NONCE_SIZE]) -> (res:
    Option<Vec<u8>>)
    ensures
        res is Some <==> aes256_gcm_opened(key@, nonce@, sealed@) is Some,
        res matches Some(plaintext) ==> {
            &&& aes256_gcm_opened(key@, nonce@, sealed@) == Some(plaintext@)
            &&& plaintext@.len() + TAG_SIZE == sealed@.len()
        },
{
    let cipher = <aes_gcm::Aes256Gcm as aes_gcm::KeyInit>::new(key.into());
    aes_gcm::aead::Aead::decrypt(&cipher, nonce.into(), sealed).ok()
}

/// Asks the operating system for `N` random bytes with
/// `rand::rngs::OsRng`. Nothing is known of the bytes; `None` where the
/// system gives none.
#[verifier::external_body]
pub(crate) fn random_bytes<const N: usize>() -> (res: Option<[u8; N]>) {
    let mut bytes = [0u8; N];
    rand::RngCore::try_fill_bytes(&mut rand::rngs::OsRng, &mut bytes).ok()?;
    Some(bytes)
}

/// Overwrites a key with zeros through `zeroize::Zeroize`, which writes them
/// so that the compiler cannot leave the writes out.
#[verifier::external_body]
fn zeroize_key(key: &mut [u8; KEY_SIZE])
    ensures
        forall|i: int| 0 <= i < KEY_SIZE ==> final(key)@[i] == 0,
{
    zeroize::Zeroize::zeroize(key);
}

/// Overwrites a key with zeros, once it is no longer needed.
pub fn wipe_key(key: &mut [u8; KEY_SIZE])
    ensures
        final(key)@ == zeros(KEY_SIZE as nat),
{
    zeroize_key(key);
    assert(key@ =~= zeros(KEY_SIZE as nat));
}

/// The key that a password and a salt give.
pub open spec fn derived_key(password: Seq<u8>, salt: Seq<u8>) -> Option<Seq<u8>> {
    argon2id_hash(password, salt, ARGON2_MEMORY_KIB, ARGON2_ITERATIONS, ARGON2_LANES)
}

/// Derives the key of a capsule from the password and the salt with
/// Argon2id.
pub fn derive_key(password: &[u8], salt: &[u8; SALT_SIZE]) -> (res: Result<
    [u8; KEY_SIZE],
    EncryptionError,
>)
    ensures
        match res {
            Ok(key) => derived_key(password@, salt@) == Some(key@),
            Err(e) => e == EncryptionError::KeyDerivation && derived_key(password@, salt@) is None,
        },
{
    match argon2id(password, salt, ARGON2_MEMORY_KIB, ARGON2_ITERATIONS, ARGON2_LANES) {
        Some(key) => Ok(key),
        None => Err(EncryptionError::KeyDerivation),
    }
}

/// Seals `plaintext` under `key` and `nonce`. What comes back is 16 bytes
/// longer than the plaintext and opens to it.
pub fn encrypt(plaintext: &[u8], key: &[u8; KEY_SIZE], nonce: &[u8; NONCE_SIZE]) -> (res: Result<
    Vec<u8>,
    EncryptionError,
>)
    ensures
        plaintext@.len() <= 0x10_0000_0000 ==> res is Ok,
        match res {
            Ok(sealed) => {
                &&& aes256_gcm_sealed(key@, nonce@, plaintext@) == Some(sealed@)
                &&& sealed@.len() == plaintext@.len() + TAG_SIZE
                &&& aes256_gcm_opened(key@, nonce@, sealed@) == Some(plaintext@)
            },
            Err(e) => e == EncryptionError::Encryption && aes256_gcm_sealed(
                key@,
                nonce@,
                plaintext@,
            ) is None,
        },
{
    match aes256_gcm_encrypt(plaintext, key, nonce) {
        Some(sealed) => Ok(sealed),
        None => Err(EncryptionError::Encryption),
    }
}

/// Opens `sealed` under `key` and `nonce`. It fails where the tag does not
/// match: under another key or nonce, or after a change to what was sealed.
pub fn decrypt(sealed: &[u8], key: &[u8; KEY_SIZE], nonce: &[u8; NONCE_SIZE]) -> (res: Result<
    Vec<u8>,
    EncryptionError,
>)
    ensures
        match res {
            Ok(plaintext) => {
                &&& aes256_gcm_opened(key@, nonce@, sealed@) == Some(plaintext@)
                &&& plaintext@.len() + TAG_SIZE == sealed@.len()
            },
            Err(e) => e == EncryptionError::Decryption && aes256_gcm_opened(key@, nonce@, sealed@)
                is None,
        },
{
    match aes256_gcm_decrypt(sealed, key, nonce) {
        Some(plaintext) => Ok(plaintext),
        None => Err(EncryptionError::Decryption),
    }
}

} // verus!
