//! The footer of a store's file: the serialized table of contents between
//! its length and its checksum.

use vstd::prelude::*;
use crate::bytes::le_bytes;
use crate::bytes::le_value;
use crate::bytes::lemma_bytes_len;
use crate::bytes::lemma_le_value_bound;
use crate::bytes::lemma_le_value_of_u32;
use crate::bytes::lemma_le_value_of_u64;
use crate::bytes::push_le;
use crate::bytes::read_le;
use crate::error::MemvidError;

verus! {

/// The CRC-32 of some bytes, as `crc32fast::hash` computes it.
pub uninterp spec fn crc32(bytes: Seq<u8>) -> u32;

/// Computes the CRC-32 of `bytes` with `crc32fast::hash`. The result
/// depends on the bytes alone.
#[verifier::external_body]
fn crc32_of(bytes: &[u8]) -> (res: u32)
    ensures
        res == crc32(bytes@),
{
    crc32fast::hash(bytes)
}

/// The checksum that the store keeps of payloads, log records and the table
/// of contents.
pub fn checksum(bytes: &[u8]) -> (res: u32)
    ensures
        res == crc32(bytes@),
{
    crc32_of(bytes)
}

/// What the footer adds to the serialized table of contents: eight bytes of
/// length and four of checksum.
pub const FOOTER_OVERHEAD: usize = 12;

/// The footer for a serialized table of contents: the length of the table
/// in eight bytes, the table, and its CRC-32 in four bytes, the integers
/// little-endian.
pub open spec fn footer_bytes(body: Seq<u8>) -> Seq<u8> {
    le_bytes(body.len(), 8) + body + le_bytes(crc32(body) as nat, 4)
}

/// The serialized table of contents in a footer whose checksum the header
/// gives. The footer is corrupt where it is shorter than its frame, where
/// its length does not fit the table's, and where the checksum behind the
/// table is not that of the table or not that of the header.
pub open spec fn footer_body(footer: Seq<u8>, expected: u32) -> Result<Seq<u8>, MemvidError> {
    if footer.len() < 12 {
        Err(MemvidError::CorruptToc)
    } else if le_value(footer.take(8)) != footer.len() - 12 {
        Err(MemvidError::CorruptToc)
    } else {
        let body = footer.subrange(8, footer.len() - 4);
        let stored = le_value(footer.skip(footer.len() - 4));
        if stored != crc32(body) || stored != expected {
            Err(MemvidError::CorruptToc)
        } else {
            Ok(body)
        }
    }
}

/// A footer is twelve bytes longer than the table in it.
pub proof fn lemma_footer_len(body: Seq<u8>)
    ensures
        footer_bytes(body).len() == body.len() + 12,
{
    lemma_bytes_len(body.len(), 8);
    lemma_bytes_len(crc32(body) as nat, 4);
}

/// The footer made for a table holds that table under the table's
/// checksum, and under no other.
pub proof fn lemma_footer_round_trip(body: Seq<u8>, expected: u32)
    requires
        body.len() <= u64::MAX,
    ensures
        expected == crc32(body) ==> footer_body(footer_bytes(body), expected) == Ok::<
            Seq<u8>,
            MemvidError,
        >(body),
        expected != crc32(body) ==> footer_body(footer_bytes(body), expected) == Err::<
            Seq<u8>,
            MemvidError,
        >(MemvidError::CorruptToc),
{
    let footer = footer_bytes(body);
    lemma_footer_len(body);
    lemma_bytes_len(body.len(), 8);
    lemma_bytes_len(crc32(body) as nat, 4);
    lemma_le_value_of_u64(body.len() as u64);
    lemma_le_value_of_u32(crc32(body));
    assert(footer.take(8) =~= le_bytes(body.len(), 8));
    assert(footer.subrange(8, footer.len() - 4) =~= body);
    assert(footer.skip(footer.len() - 4) =~= le_bytes(crc32(body) as nat, 4));
}

/// Frames a serialized table of contents as the footer of the file.
pub fn seal_footer(body: &[u8]) -> (res: Vec<u8>)
    ensures
        res@ == footer_bytes(body@),
        res@.len() == body@.len() + 12,
{
    let mut out: Vec<u8> = Vec::new();
    push_le(&mut out, body.len() as u64, 8);
    out.extend_from_slice(body);
    push_le(&mut out, checksum(body) as u64, 4);
    proof {
        lemma_footer_len(body@);
        assert(out@ =~= footer_bytes(body@));
    }
    out
}

/// The serialized table of contents in `footer`, checked against the
/// checksum that the header holds.
pub fn open_footer<'a>(footer: &'a [u8], expected: u32) -> (res: Result<&'a [u8], MemvidError>)
    ensures
        match res {
            Ok(body) => footer_body(footer@, expected) == Ok::<Seq<u8>, MemvidError>(body@),
            Err(e) => footer_body(footer@, expected) == Err::<Seq<u8>, MemvidError>(e),
        },
{
    let length = footer.len();
    if length < FOOTER_OVERHEAD {
        return Err(MemvidError::CorruptToc);
    }
    let announced = read_le(footer, 0, 8);
    proof {
        assert(footer@.take(8) =~= footer@.subrange(0, 8));
    }
    if announced != (length - FOOTER_OVERHEAD) as u64 {
        return Err(MemvidError::CorruptToc);
    }
    let body = vstd::slice::slice_subrange(footer, 8, length - 4);
    let stored = read_le(footer, length - 4, 4);
    proof {
        assert(footer@.skip(length - 4) =~= footer@.subrange(length - 4, length as int));
        lemma_le_value_bound(footer@.skip(length - 4));
    }
    if stored != checksum(body) as u64 || stored != expected as u64 {
        return Err(MemvidError::CorruptToc);
    }
    Ok(body)
}

} // verus!
