//! The region of the write-ahead log: a header of sixteen bytes, then the
//! records, each with its length and its checksum in front.

use vstd::prelude::*;
use crate::bytes::array_from_slice;
use crate::bytes::le_bytes;
use crate::bytes::le_value;
use crate::bytes::lemma_bytes_len;
use crate::bytes::lemma_le_value_bound;
use crate::bytes::lemma_le_value_of_u32;
use crate::bytes::lemma_le_value_of_u64;
use crate::bytes::push_le;
use crate::bytes::read_le;
use crate::storage::footer::checksum;
use crate::storage::footer::crc32;

verus! {

/// Length of the header of the region.
pub const WAL_HEADER_SIZE: usize = 16;

/// The size of the log region of a store that is created without one being
/// named.
pub const DEFAULT_WAL_SIZE: u64 = 67108864;

/// What a record adds to its payload: four bytes of length and four of
/// checksum.
pub const WAL_RECORD_OVERHEAD: usize = 8;

/// The header of the region: where the records begin and where they end,
/// both counted from the start of the region, and the generation of the
/// store when the header was written.
#[derive(Clone, Copy, Debug, PartialEq, Eq, Structural)]
pub struct WalHeader {
    pub head_offset: u32,
    pub tail_offset: u32,
    pub generation: u64,
}

/// The sixteen bytes of a header of the region, the integers little-endian.
pub open spec fn wal_header_bytes(header: WalHeader) -> Seq<u8> {
    le_bytes(header.head_offset as nat, 4) + le_bytes(header.tail_offset as nat, 4) + le_bytes(
        header.generation as nat,
        8,
    )
}

/// The header that sixteen bytes stand for.
pub open spec fn parsed_wal_header(bytes: Seq<u8>) -> WalHeader
    recommends
        bytes.len() == 16,
{
    WalHeader {
        head_offset: le_value(bytes.subrange(0, 4)) as u32,
        tail_offset: le_value(bytes.subrange(4, 8)) as u32,
        generation: le_value(bytes.subrange(8, 16)) as u64,
    }
}

/// Reading the bytes of a header of the region gives the header back.
pub proof fn lemma_wal_header_round_trip(header: WalHeader)
    ensures
        wal_header_bytes(header).len() == 16,
        parsed_wal_header(wal_header_bytes(header)) == header,
{
    let bytes = wal_header_bytes(header);
    lemma_bytes_len(header.head_offset as nat, 4);
    lemma_bytes_len(header.tail_offset as nat, 4);
    lemma_bytes_len(header.generation as nat, 8);
    assert(bytes.subrange(0, 4) =~= le_bytes(header.head_offset as nat, 4));
    assert(bytes.subrange(4, 8) =~= le_bytes(header.tail_offset as nat, 4));
    assert(bytes.subrange(8, 16) =~= le_bytes(header.generation as nat, 8));
    lemma_le_value_of_u32(header.head_offset);
    lemma_le_value_of_u32(header.tail_offset);
    lemma_le_value_of_u64(header.generation);
}

impl WalHeader {
    /// The header of a region without records.
    pub fn empty(generation: u64) -> (res: WalHeader)
        ensures
            res == (WalHeader {
                head_offset: WAL_HEADER_SIZE as u32,
                tail_offset: WAL_HEADER_SIZE as u32,
                generation,
            }),
    {
        WalHeader {
            head_offset: WAL_HEADER_SIZE as u32,
            tail_offset: WAL_HEADER_SIZE as u32,
            generation,
        }
    }

    /// The header as the first sixteen bytes of the region.
    pub fn encode(&self) -> (res: [u8; WAL_HEADER_SIZE])
        ensures
            res@ == wal_header_bytes(*self),
    {
        let mut out: Vec<u8> = Vec::new();
        push_le(&mut out, self.head_offset as u64, 4);
        push_le(&mut out, self.tail_offset as u64, 4);
        push_le(&mut out, self.generation, 8);
        proof {
            lemma_wal_header_round_trip(*self);
            assert(out@ =~= wal_header_bytes(*self));
        }
        array_from_slice::<WAL_HEADER_SIZE>(out.as_slice())
    }

    /// The header that the first sixteen bytes of the region stand for.
    pub fn decode(bytes: &[u8; WAL_HEADER_SIZE]) -> (res: WalHeader)
        ensures
            res == parsed_wal_header(bytes@),
    {
        let all = bytes.as_slice();
        let head = read_le(all, 0, 4);
        let tail = read_le(all, 4, 4);
        let generation = read_le(all, 8, 8);
        proof {
            lemma_le_value_bound(bytes@.subrange(0, 4));
            lemma_le_value_bound(bytes@.subrange(4, 8));
        }
        WalHeader { head_offset: head as u32, tail_offset: tail as u32, generation }
    }
}

/// One record of the log: the length of the payload and its CRC-32, four
/// bytes each and little-endian, then the payload.
pub open spec fn record_bytes(payload: Seq<u8>) -> Seq<u8> {
    le_bytes(payload.len(), 4) + le_bytes(crc32(payload) as nat, 4) + payload
}

/// A record is eight bytes longer than its payload.
pub proof fn lemma_record_len(payload: Seq<u8>)
    ensures
        record_bytes(payload).len() == payload.len() + 8,
{
    lemma_bytes_len(payload.len(), 4);
    lemma_bytes_len(crc32(payload) as nat, 4);
}

/// The payloads of the records at the start of `log`, up to the first that
/// is torn: that announces more bytes than are left, or whose checksum is
/// not that of its payload.
pub open spec fn scanned_records(log: Seq<u8>) -> Seq<Seq<u8>>
    decreases log.len(),
{
    if log.len() < 8 {
        Seq::empty()
    } else {
        let length = le_value(log.take(4)) as int;
        let stored = le_value(log.subrange(4, 8));
        if log.len() - 8 < length {
            Seq::empty()
        } else {
            let payload = log.subrange(8, 8 + length);
            if stored != crc32(payload) {
                Seq::empty()
            } else {
                seq![payload] + scanned_records(log.skip(8 + length))
            }
        }
    }
}

/// The part of the region that its header says holds records; nothing
/// where the header points outside the region.
pub open spec fn wal_log(region: Seq<u8>) -> Seq<u8> {
    if region.len() < 16 {
        Seq::empty()
    } else {
        let header = parsed_wal_header(region.take(16));
        if 16 <= header.head_offset <= header.tail_offset <= region.len() {
            region.subrange(header.head_offset as int, header.tail_offset as int)
        } else {
            Seq::empty()
        }
    }
}

/// A record in front of a log is scanned first, and the log after it.
pub proof fn lemma_scan_record(payload: Seq<u8>, rest: Seq<u8>)
    requires
        payload.len() <= u32::MAX,
    ensures
        scanned_records(record_bytes(payload) + rest) == seq![payload] + scanned_records(rest),
{
    let log = record_bytes(payload) + rest;
    lemma_record_len(payload);
    lemma_bytes_len(payload.len(), 4);
    lemma_bytes_len(crc32(payload) as nat, 4);
    lemma_le_value_of_u32(payload.len() as u32);
    lemma_le_value_of_u32(crc32(payload));
    assert(log.take(4) =~= le_bytes(payload.len(), 4));
    assert(log.subrange(4, 8) =~= le_bytes(crc32(payload) as nat, 4));
    assert(log.subrange(8, 8 + payload.len() as int) =~= payload);
    assert(log.skip(8 + payload.len() as int) =~= rest);
}

/// The log that the records of the given payloads make up, one after the
/// other.
pub open spec fn log_of(payloads: Seq<Seq<u8>>) -> Seq<u8>
    decreases payloads.len(),
{
    if payloads.len() == 0 {
        Seq::empty()
    } else {
        record_bytes(payloads.first()) + log_of(payloads.drop_first())
    }
}

/// Every record that was written whole is read back bit for bit: scanning
/// the log of some payloads gives these payloads, in their order.
pub proof fn lemma_log_round_trip(payloads: Seq<Seq<u8>>)
    requires
        forall|i: int| 0 <= i < payloads.len() ==> (#[trigger] payloads[i]).len() <= u32::MAX,
    ensures
        scanned_records(log_of(payloads)) == payloads,
    decreases payloads.len(),
{
    if payloads.len() == 0 {
        assert(scanned_records(log_of(payloads)) =~= payloads);
    } else {
        let rest = payloads.drop_first();
        assert forall|i: int| 0 <= i < rest.len() implies (#[trigger] rest[i]).len()
            <= u32::MAX by {
            assert(rest[i] == payloads[i + 1]);
        }
        lemma_log_round_trip(rest);
        lemma_scan_record(payloads.first(), log_of(rest));
        assert(seq![payloads.first()] + rest =~= payloads);
    }
}

/// Frames a payload as a record of the log.
pub fn wal_record(payload: &[u8]) -> (res: Vec<u8>)
    requires
        payload@.len() <= u32::MAX,
    ensures
        res@ == record_bytes(payload@),
        res@.len() == payload@.len() + 8,
{
    let mut out: Vec<u8> = Vec::new();
    push_le(&mut out, payload.len() as u64, 4);
    push_le(&mut out, checksum(payload) as u64, 4);
    out.extend_from_slice(payload);
    proof {
        lemma_record_len(payload@);
        assert(out@ =~= record_bytes(payload@));
    }
    out
}

/// The payloads of the records of a log, as sequences of bytes.
pub open spec fn payloads_of(records: Seq<Vec<u8>>) -> Seq<Seq<u8>> {
    Seq::new(records.len(), |i: int| records[i]@)
}

/// The payloads of the records at the start of `log`, up to the first torn
/// one.
pub fn scan_log(log: &[u8]) -> (res: Vec<Vec<u8>>)
    ensures
        payloads_of(res@) == scanned_records(log@),
{
    let mut records: Vec<Vec<u8>> = Vec::new();
    let mut pos: usize = 0;
    proof {
        assert(log@.skip(0) =~= log@);
        assert(payloads_of(records@) =~= Seq::<Seq<u8>>::empty());
    }
    loop
        invariant
            pos <= log@.len(),
            scanned_records(log@) == payloads_of(records@) + scanned_records(
                log@.skip(pos as int),
            ),
        decreases log@.len() - pos,
    {
        let remaining = log.len() - pos;
        let ghost tail = log@.skip(pos as int);
        if remaining < WAL_RECORD_OVERHEAD {
            proof {
                assert(payloads_of(records@) + Seq::<Seq<u8>>::empty() =~= payloads_of(records@));
            }
            return records;
        }
        let length = read_le(log, pos, 4);
        let stored = read_le(log, pos + 4, 4);
        proof {
            assert(tail.take(4) =~= log@.subrange(pos as int, pos + 4));
            assert(tail.subrange(4, 8) =~= log@.subrange(pos + 4, pos + 8));
        }
        if length > (remaining - WAL_RECORD_OVERHEAD) as u64 {
            proof {
                assert(payloads_of(records@) + Seq::<Seq<u8>>::empty() =~= payloads_of(records@));
            }
            return records;
        }
        let length = length as usize;
        let payload = vstd::slice::slice_subrange(log, pos + 8, pos + 8 + length);
        proof {
            assert(tail.subrange(8, 8 + length) =~= payload@);
            assert(tail.skip(8 + length) =~= log@.skip(pos + 8 + length));
        }
        if stored != checksum(payload) as u64 {
            proof {
                assert(payloads_of(records@) + Seq::<Seq<u8>>::empty() =~= payloads_of(records@));
            }
            return records;
        }
        let ghost before = records@;
        let owned = vstd::slice::slice_to_vec(payload);
        records.push(owned);
        proof {
            assert(payloads_of(records@) =~= payloads_of(before) + seq![payload@]);
            let rest = scanned_records(log@.skip(pos + 8 + length));
            assert(payloads_of(before) + (seq![payload@] + rest) =~= (payloads_of(before) + seq![
                payload@,
            ]) + rest);
        }
        pos = pos + 8 + length;
    }
}

/// The payloads of the records that a region holds, according to its
/// header, up to the first torn one.
pub fn scan_wal(region: &[u8]) -> (res: Vec<Vec<u8>>)
    ensures
        payloads_of(res@) == scanned_records(wal_log(region@)),
{
    if region.len() < WAL_HEADER_SIZE {
        return scan_log(vstd::slice::slice_subrange(region, 0, 0));
    }
    let header_bytes = array_from_slice::<WAL_HEADER_SIZE>(
        vstd::slice::slice_subrange(region, 0, WAL_HEADER_SIZE),
    );
    proof {
        assert(region@.take(16) =~= header_bytes@);
    }
    let header = WalHeader::decode(&header_bytes);
    if WAL_HEADER_SIZE as u32 <= header.head_offset && header.head_offset <= header.tail_offset
        && header.tail_offset as usize <= region.len() {
        scan_log(
            vstd::slice::slice_subrange(
                region,
                header.head_offset as usize,
                header.tail_offset as usize,
            ),
        )
    } else {
        scan_log(vstd::slice::slice_subrange(region, 0, 0))
    }
}

} // verus!
