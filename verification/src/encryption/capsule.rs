//! Sealing and opening a capsule in either of its two forms: as a whole,
//! where the plaintext is sealed in one piece, or streaming, in chunks.

use vstd::prelude::*;
use crate::bytes::begins_with;
use crate::encryption::capsule_stream::capsule_header_bytes;
use crate::encryption::capsule_stream::encode_capsule_header;
use crate::encryption::capsule_stream::lemma_capsule_header;
use crate::encryption::capsule_stream::lock_stream_with;
use crate::encryption::capsule_stream::locked_stream;
use crate::encryption::capsule_stream::opened_stream;
use crate::encryption::capsule_stream::unlock_file_stream;
use crate::encryption::capsule_stream::validate_mv2_file;
use crate::encryption::constants::CHUNK_SIZE;
use crate::encryption::constants::MV2E_HEADER_SIZE;
use crate::storage::header::MV2_MAGIC;
use crate::encryption::constants::NONCE_SIZE;
use crate::encryption::constants::SALT_SIZE;
use crate::encryption::constants::STREAMING_MARKER;
use crate::encryption::crypto::aes256_gcm_opened;
use crate::encryption::crypto::aes256_gcm_sealed;
use crate::encryption::crypto::decrypt;
use crate::encryption::crypto::derive_key;
use crate::encryption::crypto::derived_key;
use crate::encryption::crypto::encrypt;
use crate::encryption::crypto::random_bytes;
use crate::encryption::crypto::wipe_key;
use crate::encryption::error::EncryptionError;
use crate::encryption::types::header_recognised;
use crate::encryption::types::lemma_header_fields;
use crate::encryption::types::Mv2eHeader;

verus! {

/// The first reserved byte of the header of a capsule that was sealed as a
/// whole.
pub const WHOLE_MARKER: u8 = 0;

/// The longest input that is sealed as a whole; a longer one is sealed
/// streaming.
pub const STREAMING_THRESHOLD: usize = CHUNK_SIZE;

/// The capsule of `input` sealed as a whole under a password, with the given
/// salt and nonce; or why there is none.
pub open spec fn locked_whole(input: Seq<u8>, password: Seq<u8>, salt: Seq<u8>, nonce: Seq<u8>)
    -> Result<Seq<u8>, EncryptionError> {
    if !begins_with(input, MV2_MAGIC@) {
        Err(EncryptionError::NotMv2File)
    } else {
        match derived_key(password, salt) {
            None => Err(EncryptionError::KeyDerivation),
            Some(key) => match aes256_gcm_sealed(key, nonce, input) {
                Some(sealed) => Ok(
                    capsule_header_bytes(salt, nonce, input.len(), WHOLE_MARKER) + sealed,
                ),
                None => Err(EncryptionError::Encryption),
            },
        }
    }
}

/// What a capsule that was sealed as a whole opens to under a password.
pub open spec fn opened_whole(capsule: Seq<u8>, password: Seq<u8>) -> Result<
    Seq<u8>,
    EncryptionError,
> {
    if capsule.len() < 64 {
        Err(EncryptionError::Truncated)
    } else if !header_recognised(capsule.take(64)) {
        Err(EncryptionError::NotMv2File)
    } else {
        match derived_key(password, capsule.subrange(8, 24)) {
            None => Err(EncryptionError::KeyDerivation),
            Some(key) => match aes256_gcm_opened(
                key,
                capsule.subrange(24, 36),
                capsule.skip(64),
            ) {
                Some(plaintext) => Ok(plaintext),
                None => Err(EncryptionError::Decryption),
            },
        }
    }
}

/// The capsule of `input`: streaming where the input is longer than the
/// threshold, as a whole otherwise.
pub open spec fn locked_capsule(
    input: Seq<u8>,
    password: Seq<u8>,
    salt: Seq<u8>,
    nonce: Seq<u8>,
) -> Result<Seq<u8>, EncryptionError> {
    if input.len() > STREAMING_THRESHOLD {
        locked_stream(input, password, salt, nonce)
    } else {
        locked_whole(input, password, salt, nonce)
    }
}

/// What a capsule opens to under a password: the first reserved byte of the
/// header tells the streaming form from the other, and any other value of
/// it is refused.
pub open spec fn opened_capsule(capsule: Seq<u8>, password: Seq<u8>) -> Result<
    Seq<u8>,
    EncryptionError,
> {
    if capsule.len() < 64 {
        Err(EncryptionError::Truncated)
    } else if !header_recognised(capsule.take(64)) {
        Err(EncryptionError::NotMv2File)
    } else if capsule[44] == STREAMING_MARKER {
        opened_stream(capsule, password)
    } else if capsule[44] == WHOLE_MARKER {
        opened_whole(capsule, password)
    } else {
        Err(EncryptionError::NotMv2File)
    }
}

/// Seals a store's file under `password` in one piece, with the given salt
/// and nonce. The capsule opens under the same password to the input. The
/// key is overwritten with zeros before the function returns.
pub fn lock_whole_with(
    input: &[u8],
    password: &[u8],
    salt: &[u8; SALT_SIZE],
    nonce: &[u8; NONCE_SIZE],
) -> (res: Result<Vec<u8>, EncryptionError>)
    ensures
        match res {
            Ok(capsule) => {
                &&& locked_whole(input@, password@, salt@, nonce@) == Ok::<
                    Seq<u8>,
                    EncryptionError,
                >(capsule@)
                &&& opened_whole(capsule@, password@) == Ok::<Seq<u8>, EncryptionError>(input@)
                &&& capsule@.len() >= 64
                &&& header_recognised(capsule@.take(64))
                &&& capsule@[44] == WHOLE_MARKER
            },
            Err(e) => locked_whole(input@, password@, salt@, nonce@) == Err::<
                Seq<u8>,
                EncryptionError,
            >(e),
        },
        input@.len() <= 0x10_0000_0000 ==> (res is Ok <==> begins_with(input@, MV2_MAGIC@)
            && derived_key(password@, salt@) is Some),
{
    match validate_mv2_file(input) {
        Ok(()) => {},
        Err(e) => {
            return Err(e);
        },
    }
    let mut key = match derive_key(password, salt) {
        Ok(key) => key,
        Err(e) => {
            return Err(e);
        },
    };
    let sealed = encrypt(input, &key, nonce);
    wipe_key(&mut key);
    let sealed = match sealed {
        Ok(sealed) => sealed,
        Err(e) => {
            return Err(e);
        },
    };
    let encoded = encode_capsule_header(salt, nonce, input.len() as u64, WHOLE_MARKER);
    let mut out: Vec<u8> = Vec::new();
    out.extend_from_slice(encoded.as_slice());
    out.extend_from_slice(sealed.as_slice());
    proof {
        let head = capsule_header_bytes(salt@, nonce@, input@.len(), WHOLE_MARKER);
        lemma_capsule_header(salt@, nonce@, input@.len(), WHOLE_MARKER);
        assert(out@ =~= head + sealed@);
        assert(out@.take(64) =~= head);
        assert(out@.subrange(8, 24) =~= head.subrange(8, 24));
        assert(out@.subrange(24, 36) =~= head.subrange(24, 36));
        assert(out@.skip(64) =~= sealed@);
    }
    Ok(out)
}

/// Seals a store's file under `password` with the given salt and nonce:
/// streaming where the input is longer than 1 MiB, in one piece otherwise.
/// It succeeds where the input begins with the magic bytes of a store and
/// the key can be derived; the capsule then opens under the same password to
/// the input, byte for byte.
pub fn lock_file_with(
    input: &[u8],
    password: &[u8],
    salt: &[u8; SALT_SIZE],
    nonce: &[u8; NONCE_SIZE],
) -> (res: Result<Vec<u8>, EncryptionError>)
    ensures
        match res {
            Ok(capsule) => {
                &&& locked_capsule(input@, password@, salt@, nonce@) == Ok::<
                    Seq<u8>,
                    EncryptionError,
                >(capsule@)
                &&& opened_capsule(capsule@, password@) == Ok::<Seq<u8>, EncryptionError>(input@)
            },
            Err(e) => locked_capsule(input@, password@, salt@, nonce@) == Err::<
                Seq<u8>,
                EncryptionError,
            >(e),
        },
        res is Ok <==> begins_with(input@, MV2_MAGIC@) && derived_key(password@, salt@) is Some,
{
    if input.len() > STREAMING_THRESHOLD {
        let res = lock_stream_with(input, password, salt, nonce);
        proof {
            if res is Ok {
                let capsule = res->Ok_0@;
                let key = derived_key(password@, salt@)->0;
                lemma_capsule_header(salt@, nonce@, input@.len(), STREAMING_MARKER);
                let head = capsule_header_bytes(salt@, nonce@, input@.len(), STREAMING_MARKER);
                assert(capsule.take(64) =~= head);
                assert(capsule[44] == head[44]);
            }
        }
        res
    } else {
        lock_whole_with(input, password, salt, nonce)
    }
}

/// Seals a store's file under `password`, with a salt and a nonce that the
/// operating system gives at random. An input that does not begin with the
/// magic bytes of a store is refused before anything else is done. A
/// capsule that comes back is one of those that `lock_file_with` makes of
/// the input, and it opens under the same password to the input, byte for
/// byte.
pub fn lock_file(input: &[u8], password: &[u8]) -> (res: Result<Vec<u8>, EncryptionError>)
    ensures
        !begins_with(input@, MV2_MAGIC@) ==> res == Err::<Vec<u8>, EncryptionError>(
            EncryptionError::NotMv2File,
        ),
        res matches Ok(capsule) ==> {
            &&& opened_capsule(capsule@, password@) == Ok::<Seq<u8>, EncryptionError>(input@)
            &&& exists|salt: Seq<u8>, nonce: Seq<u8>|
                salt.len() == 16 && nonce.len() == 12 && #[trigger] locked_capsule(
                    input@,
                    password@,
                    salt,
                    nonce,
                ) == Ok::<Seq<u8>, EncryptionError>(capsule@)
        },
        res matches Err(e) ==> {
            ||| e == EncryptionError::NotMv2File && !begins_with(input@, MV2_MAGIC@)
            ||| e == EncryptionError::Entropy
            ||| e == EncryptionError::KeyDerivation
        },
{
    match validate_mv2_file(input) {
        Ok(()) => {},
        Err(e) => {
            return Err(e);
        },
    }
    let salt = match random_bytes::<SALT_SIZE>() {
        Some(salt) => salt,
        None => {
            return Err(EncryptionError::Entropy);
        },
    };
    let nonce = match random_bytes::<NONCE_SIZE>() {
        Some(nonce) => nonce,
        None => {
            return Err(EncryptionError::Entropy);
        },
    };
    lock_file_with(input, password, &salt, &nonce)
}

/// Opens a capsule that was sealed as a whole.
pub fn unlock_file_whole(input: &[u8], password: &[u8]) -> (res: Result<Vec<u8>, EncryptionError>)
    ensures
        match res {
            Ok(plaintext) => opened_whole(input@, password@) == Ok::<Seq<u8>, EncryptionError>(
                plaintext@,
            ),
            Err(e) => opened_whole(input@, password@) == Err::<Seq<u8>, EncryptionError>(e),
        },
{
    if input.len() < MV2E_HEADER_SIZE {
        return Err(EncryptionError::Truncated);
    }
    let header_bytes = crate::bytes::array_from_slice::<MV2E_HEADER_SIZE>(
        vstd::slice::slice_subrange(input, 0, MV2E_HEADER_SIZE),
    );
    proof {
        assert(input@.take(64) =~= header_bytes@);
    }
    let header = match Mv2eHeader::decode(&header_bytes) {
        Ok(header) => header,
        Err(e) => {
            return Err(e);
        },
    };
    proof {
        lemma_header_fields(header);
        assert(input@.subrange(8, 24) =~= input@.take(64).subrange(8, 24));
        assert(input@.subrange(24, 36) =~= input@.take(64).subrange(24, 36));
    }
    let mut key = match derive_key(password, &header.salt) {
        Ok(key) => key,
        Err(e) => {
            return Err(e);
        },
    };
    let body = vstd::slice::slice_subrange(input, MV2E_HEADER_SIZE, input.len());
    proof {
        assert(body@ =~= input@.skip(64));
    }
    let opened = decrypt(body, &key, &header.nonce);
    wipe_key(&mut key);
    opened
}

/// Opens a capsule under `password`, in whichever of the two forms it was
/// sealed. It fails with `Truncated` where the capsule ends inside its
/// header or inside a chunk, with `NotMv2File` where the header is not one
/// of this format, and with `Decryption` where the cipher refuses a chunk,
/// as it does under a wrong password. Nothing of the plaintext comes back
/// where it fails.
pub fn unlock_file(input: &[u8], password: &[u8]) -> (res: Result<Vec<u8>, EncryptionError>)
    ensures
        match res {
            Ok(plaintext) => opened_capsule(input@, password@) == Ok::<Seq<u8>, EncryptionError>(
                plaintext@,
            ),
            Err(e) => opened_capsule(input@, password@) == Err::<Seq<u8>, EncryptionError>(e),
        },
{
    if input.len() < MV2E_HEADER_SIZE {
        return Err(EncryptionError::Truncated);
    }
    let marker = input[44];
    if marker == STREAMING_MARKER {
        unlock_file_stream(input, password)
    } else if marker == WHOLE_MARKER {
        unlock_file_whole(input, password)
    } else {
        let header_bytes = crate::bytes::array_from_slice::<MV2E_HEADER_SIZE>(
            vstd::slice::slice_subrange(input, 0, MV2E_HEADER_SIZE),
        );
        proof {
            assert(input@.take(64) =~= header_bytes@);
        }
        match Mv2eHeader::decode(&header_bytes) {
            Ok(_) => Err(EncryptionError::NotMv2File),
            Err(e) => Err(e),
        }
    }
}

/// A change to one of the first eight bytes of a capsule, which hold the
/// magic bytes, the version and the two algorithms, or to one of the
/// sixteen zeros at the end of its header, is noticed: whatever the
/// password, the changed capsule is refused as `NotMv2File`.
pub proof fn lemma_header_change_is_refused(
    capsule: Seq<u8>,
    changed: Seq<u8>,
    position: int,
    password: Seq<u8>,
)
    requires
        capsule.len() >= 64,
        header_recognised(capsule.take(64)),
        changed.len() == capsule.len(),
        0 <= position < 8 || 48 <= position < 64,
        changed[position] != capsule[position],
        forall|i: int| 0 <= i < capsule.len() && i != position ==> changed[i] == capsule[i],
    ensures
        opened_capsule(changed, password) == Err::<Seq<u8>, EncryptionError>(
            EncryptionError::NotMv2File,
        ),
        opened_stream(changed, password) == Err::<Seq<u8>, EncryptionError>(
            EncryptionError::NotMv2File,
        ),
        opened_whole(changed, password) == Err::<Seq<u8>, EncryptionError>(
            EncryptionError::NotMv2File,
        ),
{
    let old_head = capsule.take(64);
    let new_head = changed.take(64);
    if position < 4 {
        assert(new_head.subrange(0, 4)[position] != old_head.subrange(0, 4)[position]);
    } else if position < 6 {
        let old_version = old_head.subrange(4, 6);
        let new_version = new_head.subrange(4, 6);
        reveal_with_fuel(crate::bytes::le_value, 3);
        assert(old_version.drop_first().first() == old_head[5]);
        assert(new_version.drop_first().first() == new_head[5]);
        assert(old_version.first() == old_head[4]);
        assert(new_version.first() == new_head[4]);
        assert(old_version.drop_first().drop_first().len() == 0);
        assert(new_version.drop_first().drop_first().len() == 0);
    } else if position < 8 {
        assert(new_head[position] != old_head[position]);
    } else {
        assert(new_head.subrange(48, 64)[position - 48] != old_head.subrange(48, 64)[position
            - 48]);
    }
}

} // verus!
