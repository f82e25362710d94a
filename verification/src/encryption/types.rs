//! The header of a capsule.

use vstd::prelude::*;
use crate::bytes::all_zero;
use crate::bytes::array_from_slice;
use crate::bytes::le_bytes;
use crate::bytes::le_value;
use crate::bytes::lemma_bytes_len;
use crate::bytes::lemma_le_bytes_of_value;
use crate::bytes::lemma_le_value_of_u16;
use crate::bytes::lemma_le_value_of_u64;
use crate::bytes::push_le;
use crate::bytes::push_zeros;
use crate::bytes::read_le;
use crate::bytes::zeros;
use crate::encryption::constants::MV2E_HEADER_SIZE;
use crate::encryption::constants::MV2E_MAGIC;
use crate::encryption::constants::MV2E_VERSION;
use crate::encryption::constants::NONCE_SIZE;
use crate::encryption::constants::SALT_SIZE;
use crate::encryption::error::EncryptionError;

verus! {

/// How the key is derived from the password.
#[derive(Clone, Copy, Debug, PartialEq, Eq, Structural)]
pub enum KdfAlgorithm {
    Argon2id,
}

/// How the chunks are sealed.
#[derive(Clone, Copy, Debug, PartialEq, Eq, Structural)]
pub enum CipherAlgorithm {
    Aes256Gcm,
}

impl KdfAlgorithm {
    /// The byte that stands for the algorithm in a header.
    pub open spec fn id(self) -> u8 {
        1
    }
}

impl CipherAlgorithm {
    /// The byte that stands for the algorithm in a header.
    pub open spec fn id(self) -> u8 {
        1
    }
}

/// The header of a capsule. It takes 64 bytes, of which the last sixteen
/// are zero.
#[derive(Clone, Copy, Debug, PartialEq, Eq)]
pub struct Mv2eHeader {
    pub magic: [u8; 4],
    pub version: u16,
    pub kdf_algorithm: KdfAlgorithm,
    pub cipher_algorithm: CipherAlgorithm,
    pub salt: [u8; SALT_SIZE],
    pub nonce: [u8; NONCE_SIZE],
    /// Length of what was sealed.
    pub original_size: u64,
    /// The first byte is 1 in a streaming capsule.
    pub reserved: [u8; 4],
}

/// The bytes of a header: magic, version, the two algorithms, salt, nonce,
/// original size and the reserved bytes, the integers little-endian, then
/// zeros up to 64 bytes.
pub open spec fn header_bytes(header: Mv2eHeader) -> Seq<u8> {
    header.magic@ + le_bytes(header.version as nat, 2) + seq![header.kdf_algorithm.id()] + seq![
        header.cipher_algorithm.id(),
    ] + header.salt@ + header.nonce@ + le_bytes(header.original_size as nat, 8)
        + header.reserved@ + zeros(16)
}

/// Whether 64 bytes are the header of a capsule of this version: they begin
/// with the magic bytes, the version and the bytes of the two algorithms,
/// and end with sixteen zeros.
pub open spec fn header_recognised(bytes: Seq<u8>) -> bool {
    &&& bytes.subrange(0, 4) == MV2E_MAGIC@
    &&& le_value(bytes.subrange(4, 6)) == MV2E_VERSION
    &&& bytes[6] == 1
    &&& bytes[7] == 1
    &&& bytes.subrange(48, 64) == zeros(16)
}

/// A header has 64 bytes.
pub proof fn lemma_header_bytes_len(header: Mv2eHeader)
    ensures
        header_bytes(header).len() == 64,
{
    lemma_bytes_len(header.version as nat, 2);
    lemma_bytes_len(header.original_size as nat, 8);
}

/// The fields of a header can be read off its bytes.
pub proof fn lemma_header_fields(header: Mv2eHeader)
    ensures
        header_bytes(header).subrange(0, 4) == header.magic@,
        header_bytes(header).subrange(4, 6) == le_bytes(header.version as nat, 2),
        header_bytes(header)[6] == header.kdf_algorithm.id(),
        header_bytes(header)[7] == header.cipher_algorithm.id(),
        header_bytes(header).subrange(8, 24) == header.salt@,
        header_bytes(header).subrange(24, 36) == header.nonce@,
        header_bytes(header).subrange(36, 44) == le_bytes(header.original_size as nat, 8),
        header_bytes(header).subrange(44, 48) == header.reserved@,
        header_bytes(header).subrange(48, 64) == zeros(16),
{
    lemma_bytes_len(header.version as nat, 2);
    lemma_bytes_len(header.original_size as nat, 8);
    let bytes = header_bytes(header);
    assert(bytes.subrange(0, 4) =~= header.magic@);
    assert(bytes.subrange(4, 6) =~= le_bytes(header.version as nat, 2));
    assert(bytes.subrange(8, 24) =~= header.salt@);
    assert(bytes.subrange(24, 36) =~= header.nonce@);
    assert(bytes.subrange(36, 44) =~= le_bytes(header.original_size as nat, 8));
    assert(bytes.subrange(44, 48) =~= header.reserved@);
    assert(bytes.subrange(48, 64) =~= zeros(16));
}

/// Two headers with the same bytes have the same fields: the bytes of a
/// header stand for one header only.
pub proof fn lemma_header_bytes_injective(a: Mv2eHeader, b: Mv2eHeader)
    requires
        header_bytes(a) == header_bytes(b),
    ensures
        a.magic@ == b.magic@,
        a.version == b.version,
        a.kdf_algorithm == b.kdf_algorithm,
        a.cipher_algorithm == b.cipher_algorithm,
        a.salt@ == b.salt@,
        a.nonce@ == b.nonce@,
        a.original_size == b.original_size,
        a.reserved@ == b.reserved@,
{
    lemma_header_fields(a);
    lemma_header_fields(b);
    lemma_le_value_of_u16(a.version);
    lemma_le_value_of_u16(b.version);
    lemma_le_value_of_u64(a.original_size);
    lemma_le_value_of_u64(b.original_size);
}

/// The bytes of a header that carries the magic bytes and the version of
/// this format are recognised as a header.
pub proof fn lemma_header_bytes_recognised(header: Mv2eHeader)
    requires
        header.magic@ == MV2E_MAGIC@,
        header.version == MV2E_VERSION,
    ensures
        header_recognised(header_bytes(header)),
{
    lemma_header_fields(header);
    lemma_le_value_of_u16(header.version);
}

impl Mv2eHeader {
    /// Length of a header in bytes.
    pub const SIZE: usize = 64;

    /// The header as bytes.
    pub fn encode(&self) -> (res: [u8; MV2E_HEADER_SIZE])
        ensures
            res@ == header_bytes(*self),
    {
        let mut out: Vec<u8> = Vec::new();
        out.extend_from_slice(self.magic.as_slice());
        push_le(&mut out, self.version as u64, 2);
        out.push(1u8);
        out.push(1u8);
        out.extend_from_slice(self.salt.as_slice());
        out.extend_from_slice(self.nonce.as_slice());
        push_le(&mut out, self.original_size, 8);
        out.extend_from_slice(self.reserved.as_slice());
        push_zeros(&mut out, 16);
        proof {
            lemma_header_bytes_len(*self);
            assert(out@ =~= header_bytes(*self));
        }
        array_from_slice::<MV2E_HEADER_SIZE>(out.as_slice())
    }

    /// The header that 64 bytes stand for. They must begin with the magic
    /// bytes, the version and the algorithms of this format, and end with
    /// sixteen zeros.
    pub fn decode(bytes: &[u8; MV2E_HEADER_SIZE]) -> (res: Result<Mv2eHeader, EncryptionError>)
        ensures
            res is Ok <==> header_recognised(bytes@),
            res matches Ok(header) ==> {
                &&& header_bytes(header) == bytes@
                &&& header.magic@ == MV2E_MAGIC@
                &&& header.version == MV2E_VERSION
            },
            res matches Err(e) ==> e == EncryptionError::NotMv2File,
    {
        let all = bytes.as_slice();
        let magic = array_from_slice::<4>(vstd::slice::slice_subrange(all, 0, 4));
        if magic[0] != MV2E_MAGIC[0] || magic[1] != MV2E_MAGIC[1] || magic[2] != MV2E_MAGIC[2]
            || magic[3] != MV2E_MAGIC[3] {
            return Err(EncryptionError::NotMv2File);
        }
        assert(magic@ =~= MV2E_MAGIC@);
        let version = read_le(all, 4, 2);
        if version != MV2E_VERSION as u64 {
            return Err(EncryptionError::NotMv2File);
        }
        if all[6] != 1 || all[7] != 1 {
            return Err(EncryptionError::NotMv2File);
        }
        if !all_zero(all, 48, 64) {
            return Err(EncryptionError::NotMv2File);
        }
        let salt = array_from_slice::<SALT_SIZE>(vstd::slice::slice_subrange(all, 8, 24));
        let nonce = array_from_slice::<NONCE_SIZE>(vstd::slice::slice_subrange(all, 24, 36));
        let original_size = read_le(all, 36, 8);
        let reserved = array_from_slice::<4>(vstd::slice::slice_subrange(all, 44, 48));
        let header = Mv2eHeader {
            magic,
            version: MV2E_VERSION,
            kdf_algorithm: KdfAlgorithm::Argon2id,
            cipher_algorithm: CipherAlgorithm::Aes256Gcm,
            salt,
            nonce,
            original_size,
            reserved,
        };
        proof {
            lemma_le_bytes_of_value(bytes@.subrange(4, 6));
            lemma_le_bytes_of_value(bytes@.subrange(36, 44));
            lemma_header_bytes_len(header);
            assert(header_bytes(header) =~= bytes@);
        }
        Ok(header)
    }
}

} // verus!
