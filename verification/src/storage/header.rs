//! The header of a store's file as bytes.

use vstd::prelude::*;
use crate::bytes::array_from_slice;
use crate::bytes::le_bytes;
use crate::bytes::le_value;
use crate::bytes::lemma_bytes_len;
use crate::bytes::lemma_le_value_of_u16;
use crate::bytes::lemma_le_value_of_u32;
use crate::bytes::lemma_le_value_of_u64;
use crate::bytes::push_le;
use crate::bytes::push_zeros;
use crate::bytes::read_le;
use crate::bytes::zeros;
use crate::error::MemvidError;
use crate::types::header::Header;
use crate::types::header::Tier;

verus! {

/// The first four bytes of a store's file.
pub const MV2_MAGIC: [u8; 4] = [0x4d, 0x56, 0x32, 0x00];

/// The version of the file format.
pub const FORMAT_VERSION: u16 = 1;

/// Length of the header in bytes.
pub const HEADER_SIZE: usize = 64;

/// The byte that stands for a tier in the header.
pub open spec fn tier_id(tier: Tier) -> u8 {
    match tier {
        Tier::Free => 0,
        Tier::Standard => 1,
        Tier::Premium => 2,
    }
}

/// The tier that a byte of the header stands for.
pub open spec fn tier_of(id: u8) -> Option<Tier> {
    if id == 0 {
        Some(Tier::Free)
    } else if id == 1 {
        Some(Tier::Standard)
    } else if id == 2 {
        Some(Tier::Premium)
    } else {
        None
    }
}

/// The bytes of a header: the magic bytes, then version, tier, size of the
/// log region, offset, length and checksum of the footer and the
/// generation, the integers little-endian, then zeros up to 64 bytes.
pub open spec fn store_header_bytes(header: Header) -> Seq<u8> {
    MV2_MAGIC@ + le_bytes(header.version as nat, 2) + seq![tier_id(header.tier)] + le_bytes(
        header.wal_size as nat,
        8,
    ) + le_bytes(header.toc_offset as nat, 8) + le_bytes(header.toc_length as nat, 8) + le_bytes(
        header.toc_checksum as nat,
        4,
    ) + le_bytes(header.generation as nat, 8) + zeros(21)
}

/// The header that 64 bytes stand for. Without the magic bytes they are no
/// store at all; with another version or an unknown tier the header is
/// corrupt. The bytes from the 44th on are not looked at.
pub open spec fn parsed_header(bytes: Seq<u8>) -> Result<Header, MemvidError>
    recommends
        bytes.len() == 64,
{
    if bytes.subrange(0, 4) != MV2_MAGIC@ {
        Err(MemvidError::NotMv2File)
    } else if le_value(bytes.subrange(4, 6)) != FORMAT_VERSION {
        Err(MemvidError::CorruptHeader)
    } else {
        match tier_of(bytes[6]) {
            None => Err(MemvidError::CorruptHeader),
            Some(tier) => Ok(
                Header {
                    version: FORMAT_VERSION,
                    tier,
                    wal_size: le_value(bytes.subrange(7, 15)) as u64,
                    toc_offset: le_value(bytes.subrange(15, 23)) as u64,
                    toc_length: le_value(bytes.subrange(23, 31)) as u64,
                    toc_checksum: le_value(bytes.subrange(31, 35)) as u32,
                    generation: le_value(bytes.subrange(35, 43)) as u64,
                },
            ),
        }
    }
}

/// A header has 64 bytes, and its fields lie where `parsed_header` reads
/// them.
pub proof fn lemma_store_header_fields(header: Header)
    ensures
        store_header_bytes(header).len() == 64,
        store_header_bytes(header).subrange(0, 4) == MV2_MAGIC@,
        store_header_bytes(header).subrange(4, 6) == le_bytes(header.version as nat, 2),
        store_header_bytes(header)[6] == tier_id(header.tier),
        store_header_bytes(header).subrange(7, 15) == le_bytes(header.wal_size as nat, 8),
        store_header_bytes(header).subrange(15, 23) == le_bytes(header.toc_offset as nat, 8),
        store_header_bytes(header).subrange(23, 31) == le_bytes(header.toc_length as nat, 8),
        store_header_bytes(header).subrange(31, 35) == le_bytes(header.toc_checksum as nat, 4),
        store_header_bytes(header).subrange(35, 43) == le_bytes(header.generation as nat, 8),
{
    lemma_bytes_len(header.version as nat, 2);
    lemma_bytes_len(header.wal_size as nat, 8);
    lemma_bytes_len(header.toc_offset as nat, 8);
    lemma_bytes_len(header.toc_length as nat, 8);
    lemma_bytes_len(header.toc_checksum as nat, 4);
    lemma_bytes_len(header.generation as nat, 8);
    let bytes = store_header_bytes(header);
    assert(bytes.subrange(0, 4) =~= MV2_MAGIC@);
    assert(bytes.subrange(4, 6) =~= le_bytes(header.version as nat, 2));
    assert(bytes.subrange(7, 15) =~= le_bytes(header.wal_size as nat, 8));
    assert(bytes.subrange(15, 23) =~= le_bytes(header.toc_offset as nat, 8));
    assert(bytes.subrange(23, 31) =~= le_bytes(header.toc_length as nat, 8));
    assert(bytes.subrange(31, 35) =~= le_bytes(header.toc_checksum as nat, 4));
    assert(bytes.subrange(35, 43) =~= le_bytes(header.generation as nat, 8));
}

/// Reading the bytes of a header of this version gives the header back.
pub proof fn lemma_header_round_trip(header: Header)
    requires
        header.version == FORMAT_VERSION,
    ensures
        parsed_header(store_header_bytes(header)) == Ok::<Header, MemvidError>(header),
{
    lemma_store_header_fields(header);
    lemma_le_value_of_u16(header.version);
    lemma_le_value_of_u64(header.wal_size);
    lemma_le_value_of_u64(header.toc_offset);
    lemma_le_value_of_u64(header.toc_length);
    lemma_le_value_of_u32(header.toc_checksum);
    lemma_le_value_of_u64(header.generation);
}

impl Header {
    /// The header as the 64 bytes at the start of the file.
    pub fn encode(&self) -> (res: [u8; HEADER_SIZE])
        ensures
            res@ == store_header_bytes(*self),
    {
        let mut out: Vec<u8> = Vec::new();
        out.extend_from_slice(MV2_MAGIC.as_slice());
        push_le(&mut out, self.version as u64, 2);
        out.push(
            match self.tier {
                Tier::Free => 0u8,
                Tier::Standard => 1u8,
                Tier::Premium => 2u8,
            },
        );
        push_le(&mut out, self.wal_size, 8);
        push_le(&mut out, self.toc_offset, 8);
        push_le(&mut out, self.toc_length, 8);
        push_le(&mut out, self.toc_checksum as u64, 4);
        push_le(&mut out, self.generation, 8);
        push_zeros(&mut out, 21);
        proof {
            lemma_store_header_fields(*self);
            assert(out@ =~= store_header_bytes(*self));
        }
        array_from_slice::<HEADER_SIZE>(out.as_slice())
    }

    /// The header that the first 64 bytes of a file stand for.
    pub fn decode(bytes: &[u8; HEADER_SIZE]) -> (res: Result<Header, MemvidError>)
        ensures
            res == parsed_header(bytes@),
    {
        let all = bytes.as_slice();
        if all[0] != MV2_MAGIC[0] || all[1] != MV2_MAGIC[1] || all[2] != MV2_MAGIC[2] || all[3]
            != MV2_MAGIC[3] {
            assert(bytes@.subrange(0, 4)[0] == bytes@[0]);
            assert(bytes@.subrange(0, 4)[1] == bytes@[1]);
            assert(bytes@.subrange(0, 4)[2] == bytes@[2]);
            assert(bytes@.subrange(0, 4)[3] == bytes@[3]);
            return Err(MemvidError::NotMv2File);
        }
        assert(bytes@.subrange(0, 4) =~= MV2_MAGIC@);
        let version = read_le(all, 4, 2);
        if version != FORMAT_VERSION as u64 {
            return Err(MemvidError::CorruptHeader);
        }
        let tier = if all[6] == 0 {
            Tier::Free
        } else if all[6] == 1 {
            Tier::Standard
        } else if all[6] == 2 {
            Tier::Premium
        } else {
            return Err(MemvidError::CorruptHeader);
        };
        let wal_size = read_le(all, 7, 8);
        let toc_offset = read_le(all, 15, 8);
        let toc_length = read_le(all, 23, 8);
        let toc_checksum = read_le(all, 31, 4);
        let generation = read_le(all, 35, 8);
        proof {
            crate::bytes::lemma_le_value_bound(bytes@.subrange(31, 35));
        }
        Ok(
            Header {
                version: FORMAT_VERSION,
                tier,
                wal_size,
                toc_offset,
                toc_length,
                toc_checksum: toc_checksum as u32,
                generation,
            },
        )
    }
}

} // verus!
