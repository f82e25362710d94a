//! The streaming capsule: a header, then the plaintext in chunks, each
//! sealed on its own and preceded by the length of what it was sealed to.

use vstd::prelude::*;
use crate::bytes::be_bytes;
use crate::bytes::begins_with;
use crate::bytes::le_bytes;
use crate::bytes::le_value;
use crate::bytes::lemma_bytes_len;
use crate::bytes::lemma_le_value_of_u32;
use crate::bytes::push_le;
use crate::bytes::read_le;
use crate::bytes::starts_with;
use crate::bytes::zeros;
use crate::encryption::constants::CHUNK_SIZE;
use crate::encryption::constants::KEY_SIZE;
use crate::encryption::constants::MV2E_HEADER_SIZE;
use crate::encryption::constants::MV2E_MAGIC;
use crate::encryption::constants::MV2E_VERSION;
use crate::storage::header::MV2_MAGIC;
use crate::encryption::constants::NONCE_SIZE;
use crate::encryption::constants::SALT_SIZE;
use crate::encryption::constants::STREAMING_MARKER;
use crate::encryption::crypto::aes256_gcm_opened;
use crate::encryption::crypto::aes256_gcm_sealed;
use crate::encryption::crypto::decrypt;
use crate::encryption::crypto::derive_key;
use crate::encryption::crypto::derived_key;
use crate::encryption::crypto::encrypt;
use crate::encryption::crypto::random_bytes;
use crate::encryption::crypto::wipe_key;
use crate::encryption::error::EncryptionError;
use crate::encryption::types::header_bytes;
use crate::encryption::types::header_recognised;
use crate::encryption::types::lemma_header_fields;
use crate::encryption::types::CipherAlgorithm;
use crate::encryption::types::KdfAlgorithm;
use crate::encryption::types::Mv2eHeader;

verus! {

/// The nonce of the chunk with the given index: the base nonce with its
/// last eight bytes replaced by the index, big-endian.
pub open spec fn chunk_nonce(base: Seq<u8>, index: nat) -> Seq<u8>
    recommends
        base.len() == 12,
{
    base.take(4) + be_bytes(index, 8)
}

/// Computes `chunk_nonce`.
pub fn nonce_for_chunk(base: &[u8; NONCE_SIZE], index: u64) -> (res: [u8; NONCE_SIZE])
    ensures
        res@ == chunk_nonce(base@, index as nat),
{
    let mut nonce = *base;
    let mut rest = index;
    let mut done: usize = 0;
    proof {
        assert(nonce@.subrange(12, 12) =~= Seq::<u8>::empty());
        assert(be_bytes(rest as nat, 8) + Seq::<u8>::empty() =~= be_bytes(index as nat, 8));
    }
    while done < 8
        invariant
            done <= 8,
            nonce@.take(4) == base@.take(4),
            be_bytes(rest as nat, (8 - done) as nat) + nonce@.subrange(12 - done, 12) == be_bytes(
                index as nat,
                8,
            ),
        decreases 8 - done,
    {
        let ghost before = nonce@;
        nonce[11 - done] = (rest % 256) as u8;
        proof {
            let front = be_bytes(rest as nat / 256, (8 - done - 1) as nat);
            assert(nonce@.take(4) =~= before.take(4));
            assert(nonce@.subrange(11 - done, 12) =~= seq![(rest % 256) as u8] + before.subrange(
                12 - done,
                12,
            ));
            assert(front + nonce@.subrange(11 - done, 12) =~= front.push((rest % 256) as u8)
                + before.subrange(12 - done, 12));
        }
        rest = rest / 256;
        done += 1;
    }
    proof {
        lemma_bytes_len(index as nat, 8);
        assert(be_bytes(rest as nat, 0) + nonce@.subrange(4, 12) =~= nonce@.subrange(4, 12));
        assert(nonce@ =~= nonce@.take(4) + nonce@.subrange(4, 12));
    }
    nonce
}

/// Length of the first chunk of a plaintext.
pub open spec fn first_chunk_len(plaintext: Seq<u8>) -> int {
    if plaintext.len() < CHUNK_SIZE {
        plaintext.len() as int
    } else {
        CHUNK_SIZE as int
    }
}

/// One record of the stream: the length of a sealed chunk in four bytes,
/// little-endian, and the sealed chunk.
pub open spec fn record(sealed: Seq<u8>) -> Seq<u8> {
    le_bytes(sealed.len(), 4) + sealed
}

/// The records of a plaintext from the chunk with the given index on.
pub open spec fn sealed_chunks(key: Seq<u8>, base_nonce: Seq<u8>, plaintext: Seq<u8>, index: nat)
    -> Option<Seq<u8>>
    decreases plaintext.len(),
{
    if plaintext.len() == 0 {
        Some(Seq::empty())
    } else {
        let n = first_chunk_len(plaintext);
        match aes256_gcm_sealed(key, chunk_nonce(base_nonce, index), plaintext.take(n)) {
            None => None,
            Some(sealed) => match sealed_chunks(key, base_nonce, plaintext.skip(n), index + 1) {
                None => None,
                Some(rest) => Some(record(sealed) + rest),
            },
        }
    }
}

/// What the records in `body` open to, from the chunk with the given index
/// on. Fewer than four bytes are no record: there the stream ends.
pub open spec fn opened_chunks(key: Seq<u8>, base_nonce: Seq<u8>, body: Seq<u8>, index: nat)
    -> Result<Seq<u8>, EncryptionError>
    decreases body.len(),
{
    if body.len() < 4 {
        Ok(Seq::empty())
    } else {
        let length = le_value(body.take(4)) as int;
        if body.len() - 4 < length {
            Err(EncryptionError::Truncated)
        } else {
            match aes256_gcm_opened(
                key,
                chunk_nonce(base_nonce, index),
                body.subrange(4, 4 + length),
            ) {
                None => Err(EncryptionError::Decryption),
                Some(plaintext) => match opened_chunks(
                    key,
                    base_nonce,
                    body.skip(4 + length),
                    index + 1,
                ) {
                    Err(e) => Err(e),
                    Ok(rest) => Ok(plaintext + rest),
                },
            }
        }
    }
}

/// Whether each chunk of a plaintext, from the one with the given index on,
/// is sealed to 16 bytes more than it has, and opens again to itself.
pub open spec fn chunks_reopen(key: Seq<u8>, base_nonce: Seq<u8>, plaintext: Seq<u8>, index: nat)
    -> bool
    decreases plaintext.len(),
{
    if plaintext.len() == 0 {
        true
    } else {
        let n = first_chunk_len(plaintext);
        let nonce = chunk_nonce(base_nonce, index);
        &&& aes256_gcm_sealed(key, nonce, plaintext.take(n)) matches Some(sealed)
        &&& sealed.len() == n + 16
        &&& aes256_gcm_opened(key, nonce, sealed) == Some(plaintext.take(n))
        &&& chunks_reopen(key, base_nonce, plaintext.skip(n), index + 1)
    }
}

/// Where every chunk opens again to itself, the records of a plaintext open
/// to the plaintext.
pub proof fn lemma_chunks_round_trip(
    key: Seq<u8>,
    base_nonce: Seq<u8>,
    plaintext: Seq<u8>,
    index: nat,
)
    requires
        chunks_reopen(key, base_nonce, plaintext, index),
    ensures
        sealed_chunks(key, base_nonce, plaintext, index) matches Some(body) && opened_chunks(
            key,
            base_nonce,
            body,
            index,
        ) == Ok::<Seq<u8>, EncryptionError>(plaintext),
    decreases plaintext.len(),
{
    if plaintext.len() == 0 {
        assert(plaintext =~= Seq::<u8>::empty());
    } else {
        let n = first_chunk_len(plaintext);
        let nonce = chunk_nonce(base_nonce, index);
        let sealed = aes256_gcm_sealed(key, nonce, plaintext.take(n))->0;
        lemma_chunks_round_trip(key, base_nonce, plaintext.skip(n), index + 1);
        let rest = sealed_chunks(key, base_nonce, plaintext.skip(n), index + 1)->0;
        let body = record(sealed) + rest;
        lemma_bytes_len(sealed.len(), 4);
        lemma_le_value_of_u32(sealed.len() as u32);
        assert(body.take(4) =~= le_bytes(sealed.len(), 4));
        assert(body.subrange(4, 4 + sealed.len() as int) =~= sealed);
        assert(body.skip(4 + sealed.len() as int) =~= rest);
        assert(plaintext.take(n) + plaintext.skip(n) =~= plaintext);
    }
}

/// The header of a capsule as bytes, with the given first reserved byte.
pub open spec fn capsule_header_bytes(
    salt: Seq<u8>,
    nonce: Seq<u8>,
    original_size: nat,
    marker: u8,
) -> Seq<u8> {
    MV2E_MAGIC@ + le_bytes(MV2E_VERSION as nat, 2) + seq![1u8] + seq![1u8] + salt + nonce
        + le_bytes(original_size, 8) + seq![marker, 0u8, 0u8, 0u8] + zeros(16)
}

/// The header of a streaming capsule as bytes.
pub open spec fn stream_header_bytes(salt: Seq<u8>, nonce: Seq<u8>, original_size: nat) -> Seq<
    u8,
> {
    capsule_header_bytes(salt, nonce, original_size, STREAMING_MARKER)
}

/// What can be read off the header of a capsule.
pub proof fn lemma_capsule_header(salt: Seq<u8>, nonce: Seq<u8>, original_size: nat, marker: u8)
    requires
        salt.len() == 16,
        nonce.len() == 12,
    ensures
        capsule_header_bytes(salt, nonce, original_size, marker).len() == 64,
        header_recognised(capsule_header_bytes(salt, nonce, original_size, marker)),
        capsule_header_bytes(salt, nonce, original_size, marker).subrange(8, 24) == salt,
        capsule_header_bytes(salt, nonce, original_size, marker).subrange(24, 36) == nonce,
        capsule_header_bytes(salt, nonce, original_size, marker)[44] == marker,
{
    let head = capsule_header_bytes(salt, nonce, original_size, marker);
    lemma_bytes_len(MV2E_VERSION as nat, 2);
    lemma_bytes_len(original_size, 8);
    crate::bytes::lemma_le_value_of_u16(MV2E_VERSION);
    assert(head.subrange(0, 4) =~= MV2E_MAGIC@);
    assert(head.subrange(4, 6) =~= le_bytes(MV2E_VERSION as nat, 2));
    assert(head.subrange(8, 24) =~= salt);
    assert(head.subrange(24, 36) =~= nonce);
    assert(head.subrange(48, 64) =~= zeros(16));
}

/// Encodes the header of a capsule of this format.
pub fn encode_capsule_header(
    salt: &[u8; SALT_SIZE],
    nonce: &[u8; NONCE_SIZE],
    original_size: u64,
    marker: u8,
) -> (res: [u8; MV2E_HEADER_SIZE])
    ensures
        res@ == capsule_header_bytes(salt@, nonce@, original_size as nat, marker),
{
    let header = Mv2eHeader {
        magic: MV2E_MAGIC,
        version: MV2E_VERSION,
        kdf_algorithm: KdfAlgorithm::Argon2id,
        cipher_algorithm: CipherAlgorithm::Aes256Gcm,
        salt: *salt,
        nonce: *nonce,
        original_size,
        reserved: [marker, 0u8, 0u8, 0u8],
    };
    let encoded = header.encode();
    proof {
        assert(header.reserved@ =~= seq![marker, 0u8, 0u8, 0u8]);
        assert(encoded@ =~= capsule_header_bytes(salt@, nonce@, original_size as nat, marker));
    }
    encoded
}

/// The streaming capsule of a plaintext under a key: the header and the
/// records.
pub open spec fn sealed_stream(key: Seq<u8>, salt: Seq<u8>, nonce: Seq<u8>, plaintext: Seq<u8>)
    -> Option<Seq<u8>> {
    match sealed_chunks(key, nonce, plaintext, 0) {
        Some(body) => Some(stream_header_bytes(salt, nonce, plaintext.len()) + body),
        None => None,
    }
}

/// What a streaming capsule opens to under a password.
pub open spec fn opened_stream(capsule: Seq<u8>, password: Seq<u8>) -> Result<
    Seq<u8>,
    EncryptionError,
> {
    if capsule.len() < 64 {
        Err(EncryptionError::Truncated)
    } else if !header_recognised(capsule.take(64)) {
        Err(EncryptionError::NotMv2File)
    } else {
        match derived_key(password, capsule.subrange(8, 24)) {
            None => Err(EncryptionError::KeyDerivation),
            Some(key) => opened_chunks(key, capsule.subrange(24, 36), capsule.skip(64), 0),
        }
    }
}

/// Whether what is to be sealed begins with the magic bytes of a store.
pub fn validate_mv2_file(input: &[u8]) -> (res: Result<(), EncryptionError>)
    ensures
        res is Ok <==> begins_with(input@, MV2_MAGIC@),
        res matches Err(e) ==> e == EncryptionError::NotMv2File,
{
    if starts_with(input, MV2_MAGIC.as_slice()) {
        Ok(())
    } else {
        Err(EncryptionError::NotMv2File)
    }
}

/// Seals `input` under `key` into a streaming capsule with the given salt
/// and base nonce: chunks of 1 MiB, the last one shorter, each under the
/// nonce of its index. Every chunk of the capsule opens again to the chunk
/// it was sealed from.
pub fn seal_stream(
    input: &[u8],
    key: &[u8; KEY_SIZE],
    salt: &[u8; SALT_SIZE],
    base_nonce: &[u8; NONCE_SIZE],
) -> (res: Result<Vec<u8>, EncryptionError>)
    ensures
        res matches Ok(capsule) && sealed_stream(key@, salt@, base_nonce@, input@) == Some(
            capsule@,
        ),
        chunks_reopen(key@, base_nonce@, input@, 0),
{
    let encoded = encode_capsule_header(salt, base_nonce, input.len() as u64, STREAMING_MARKER);
    let mut out: Vec<u8> = Vec::new();
    out.extend_from_slice(encoded.as_slice());
    let ghost head = stream_header_bytes(salt@, base_nonce@, input@.len());
    let ghost mut body = Seq::<u8>::empty();
    proof {
        assert(out@ =~= head + body);
        assert(input@.skip(0) =~= input@);
    }
    let mut pos: usize = 0;
    let mut chunk_index: u64 = 0;
    while pos < input.len()
        invariant
            pos <= input@.len(),
            chunk_index <= pos,
            out@ == head + body,
            sealed_chunks(key@, base_nonce@, input@, 0) == match sealed_chunks(
                key@,
                base_nonce@,
                input@.skip(pos as int),
                chunk_index as nat,
            ) {
                Some(rest) => Some(body + rest),
                None => None,
            },
            chunks_reopen(key@, base_nonce@, input@.skip(pos as int), chunk_index as nat)
                ==> chunks_reopen(key@, base_nonce@, input@, 0),
        decreases input@.len() - pos,
    {
        let remaining = input.len() - pos;
        let n = if remaining < CHUNK_SIZE {
            remaining
        } else {
            CHUNK_SIZE
        };
        let chunk = vstd::slice::slice_subrange(input, pos, pos + n);
        let nonce = nonce_for_chunk(base_nonce, chunk_index);
        let ghost tail = input@.skip(pos as int);
        proof {
            assert(tail.take(n as int) =~= chunk@);
            assert(tail.skip(n as int) =~= input@.skip(pos + n));
        }
        let sealed = match encrypt(chunk, key, &nonce) {
            Ok(sealed) => sealed,
            Err(e) => {
                return Err(e);
            },
        };
        let ghost before = out@;
        push_le(&mut out, sealed.len() as u64, 4);
        out.extend_from_slice(sealed.as_slice());
        proof {
            let rest = sealed_chunks(
                key@,
                base_nonce@,
                input@.skip(pos + n),
                (chunk_index + 1) as nat,
            );
            assert(out@ =~= head + (body + record(sealed@)));
            if rest is Some {
                assert(body + (record(sealed@) + rest->0) =~= (body + record(sealed@)) + rest->0);
            }
            body = body + record(sealed@);
        }
        pos = pos + n;
        chunk_index = chunk_index + 1;
    }
    proof {
        assert(input@.skip(pos as int) =~= Seq::<u8>::empty());
        assert(body + Seq::<u8>::empty() =~= body);
    }
    Ok(out)
}

/// Opens the records in `body` under `key`, each under the nonce of its
/// index. It fails with `Truncated` where a record announces more bytes
/// than are left, and with `Decryption` at the first chunk that the cipher
/// refuses.
pub fn open_stream(body: &[u8], key: &[u8; KEY_SIZE], base_nonce: &[u8; NONCE_SIZE]) -> (res:
    Result<Vec<u8>, EncryptionError>)
    ensures
        match res {
            Ok(plaintext) => opened_chunks(key@, base_nonce@, body@, 0) == Ok::<
                Seq<u8>,
                EncryptionError,
            >(plaintext@),
            Err(e) => opened_chunks(key@, base_nonce@, body@, 0) == Err::<
                Seq<u8>,
                EncryptionError,
            >(e),
        },
{
    let mut out: Vec<u8> = Vec::new();
    let mut pos: usize = 0;
    let mut chunk_index: u64 = 0;
    proof {
        assert(body@.skip(0) =~= body@);
    }
    loop
        invariant
            pos <= body@.len(),
            chunk_index <= pos,
            opened_chunks(key@, base_nonce@, body@, 0) == match opened_chunks(
                key@,
                base_nonce@,
                body@.skip(pos as int),
                chunk_index as nat,
            ) {
                Ok(rest) => Ok::<Seq<u8>, EncryptionError>(out@ + rest),
                Err(e) => Err(e),
            },
        decreases body@.len() - pos,
    {
        let remaining = body.len() - pos;
        let ghost tail = body@.skip(pos as int);
        if remaining < 4 {
            proof {
                assert(out@ + Seq::<u8>::empty() =~= out@);
            }
            return Ok(out);
        }
        let length = read_le(body, pos, 4);
        proof {
            assert(tail.take(4) =~= body@.subrange(pos as int, pos + 4));
        }
        if length > (remaining - 4) as u64 {
            return Err(EncryptionError::Truncated);
        }
        let length = length as usize;
        let sealed = vstd::slice::slice_subrange(body, pos + 4, pos + 4 + length);
        let nonce = nonce_for_chunk(base_nonce, chunk_index);
        proof {
            assert(tail.subrange(4, 4 + length) =~= sealed@);
            assert(tail.skip(4 + length) =~= body@.skip(pos + 4 + length));
        }
        let mut plaintext = match decrypt(sealed, key, &nonce) {
            Ok(plaintext) => plaintext,
            Err(e) => {
                return Err(e);
            },
        };
        proof {
            let rest = opened_chunks(
                key@,
                base_nonce@,
                body@.skip(pos + 4 + length),
                (chunk_index + 1) as nat,
            );
            if rest is Ok {
                assert(out@ + (plaintext@ + rest->Ok_0) =~= (out@ + plaintext@) + rest->Ok_0);
            }
        }
        out.append(&mut plaintext);
        pos = pos + 4 + length;
        chunk_index = chunk_index + 1;
    }
}

/// The streaming capsule of `input` under a password, with the given salt
/// and base nonce; or why there is none.
pub open spec fn locked_stream(
    input: Seq<u8>,
    password: Seq<u8>,
    salt: Seq<u8>,
    nonce: Seq<u8>,
) -> Result<Seq<u8>, EncryptionError> {
    if !begins_with(input, MV2_MAGIC@) {
        Err(EncryptionError::NotMv2File)
    } else {
        match derived_key(password, salt) {
            None => Err(EncryptionError::KeyDerivation),
            Some(key) => match sealed_stream(key, salt, nonce, input) {
                Some(capsule) => Ok(capsule),
                None => Err(EncryptionError::Encryption),
            },
        }
    }
}

/// Seals a store's file under `password` into a streaming capsule with the
/// given salt and base nonce. It succeeds where the input begins with the
/// magic bytes of a store and the key can be derived; the capsule then opens
/// under the same password to the input, byte for byte. The key is
/// overwritten with zeros before the function returns.
pub fn lock_stream_with(
    input: &[u8],
    password: &[u8],
    salt: &[u8; SALT_SIZE],
    base_nonce: &[u8; NONCE_SIZE],
) -> (res: Result<Vec<u8>, EncryptionError>)
    ensures
        match res {
            Ok(capsule) => {
                &&& locked_stream(input@, password@, salt@, base_nonce@) == Ok::<
                    Seq<u8>,
                    EncryptionError,
                >(capsule@)
                &&& opened_stream(capsule@, password@) == Ok::<Seq<u8>, EncryptionError>(input@)
            },
            Err(e) => locked_stream(input@, password@, salt@, base_nonce@) == Err::<
                Seq<u8>,
                EncryptionError,
            >(e),
        },
        res is Ok <==> begins_with(input@, MV2_MAGIC@) && derived_key(password@, salt@) is Some,
{
    match validate_mv2_file(input) {
        Ok(()) => {},
        Err(e) => {
            return Err(e);
        },
    }
    let mut key = match derive_key(password, salt) {
        Ok(key) => key,
        Err(e) => {
            return Err(e);
        },
    };
    let ghost key_bytes = key@;
    let sealed = seal_stream(input, &key, salt, base_nonce);
    wipe_key(&mut key);
    proof {
        let capsule = sealed->Ok_0@;
        let head = stream_header_bytes(salt@, base_nonce@, input@.len());
        let body = sealed_chunks(key_bytes, base_nonce@, input@, 0)->0;
        lemma_capsule_header(salt@, base_nonce@, input@.len(), STREAMING_MARKER);
        lemma_chunks_round_trip(key_bytes, base_nonce@, input@, 0);
        assert(capsule.take(64) =~= head);
        assert(capsule.subrange(8, 24) =~= head.subrange(8, 24));
        assert(capsule.subrange(24, 36) =~= head.subrange(24, 36));
        assert(capsule.skip(64) =~= body);
    }
    sealed
}

/// Seals a store's file under `password` into a streaming capsule, with a
/// salt and a base nonce that the operating system gives at random. An
/// input that does not begin with the magic bytes of a store is refused
/// before anything else is done. A capsule that comes back is one of those
/// that `lock_stream_with` makes of the input, and it opens under the same
/// password to the input, byte for byte.
pub fn lock_file_stream(input: &[u8], password: &[u8]) -> (res: Result<Vec<u8>, EncryptionError>)
    ensures
        !begins_with(input@, MV2_MAGIC@) ==> res == Err::<Vec<u8>, EncryptionError>(
            EncryptionError::NotMv2File,
        ),
        res matches Ok(capsule) ==> {
            &&& opened_stream(capsule@, password@) == Ok::<Seq<u8>, EncryptionError>(input@)
            &&& exists|salt: Seq<u8>, nonce: Seq<u8>|
                salt.len() == 16 && nonce.len() == 12 && #[trigger] locked_stream(
                    input@,
                    password@,
                    salt,
                    nonce,
                ) == Ok::<Seq<u8>, EncryptionError>(capsule@)
        },
        res matches Err(e) ==> {
            ||| e == EncryptionError::NotMv2File && !begins_with(input@, MV2_MAGIC@)
            ||| e == EncryptionError::Entropy
            ||| e == EncryptionError::KeyDerivation
        },
{
    match validate_mv2_file(input) {
        Ok(()) => {},
        Err(e) => {
            return Err(e);
        },
    }
    let salt = match random_bytes::<SALT_SIZE>() {
        Some(salt) => salt,
        None => {
            return Err(EncryptionError::Entropy);
        },
    };
    let base_nonce = match random_bytes::<NONCE_SIZE>() {
        Some(nonce) => nonce,
        None => {
            return Err(EncryptionError::Entropy);
        },
    };
    lock_stream_with(input, password, &salt, &base_nonce)
}

/// Opens a streaming capsule under `password`. A capsule of fewer than 64
/// bytes is `Truncated`; one whose header does not begin as a header of this
/// format is refused as `NotMv2File`; then the key is derived from the
/// password and the salt of the header, and the records are opened as
/// `open_stream` does. Nothing of the plaintext comes back where any chunk
/// fails. The key is overwritten with zeros before the function returns.
pub fn unlock_file_stream(input: &[u8], password: &[u8]) -> (res: Result<
    Vec<u8>,
    EncryptionError,
>)
    ensures
        match res {
            Ok(plaintext) => opened_stream(input@, password@) == Ok::<Seq<u8>, EncryptionError>(
                plaintext@,
            ),
            Err(e) => opened_stream(input@, password@) == Err::<Seq<u8>, EncryptionError>(e),
        },
{
    if input.len() < MV2E_HEADER_SIZE {
        return Err(EncryptionError::Truncated);
    }
    let header_bytes = crate::bytes::array_from_slice::<MV2E_HEADER_SIZE>(
        vstd::slice::slice_subrange(input, 0, MV2E_HEADER_SIZE),
    );
    proof {
        assert(input@.take(64) =~= header_bytes@);
    }
    let header = match Mv2eHeader::decode(&header_bytes) {
        Ok(header) => header,
        Err(e) => {
            return Err(e);
        },
    };
    proof {
        lemma_header_fields(header);
        assert(input@.subrange(8, 24) =~= input@.take(64).subrange(8, 24));
        assert(input@.subrange(24, 36) =~= input@.take(64).subrange(24, 36));
    }
    let mut key = match derive_key(password, &header.salt) {
        Ok(key) => key,
        Err(e) => {
            return Err(e);
        },
    };
    let body = vstd::slice::slice_subrange(input, MV2E_HEADER_SIZE, input.len());
    proof {
        assert(body@ =~= input@.skip(64));
    }
    let opened = open_stream(body, &key, &header.nonce);
    wipe_key(&mut key);
    opened
}

} // verus!
