//! Inserting payloads and committing the table of contents. Each mutation
//! changes the handle and says what is to be written to the file.

use vstd::prelude::*;
use crate::error::InvalidField;
use crate::error::MemvidError;
use crate::memvid::lifecycle::max_frame_id;
use crate::memvid::lifecycle::Memvid;
use crate::memvid::ticket::next_generation;
use crate::storage::footer::checksum;
use crate::storage::footer::crc32;
use crate::storage::footer::footer_body;
use crate::storage::footer::footer_bytes;
use crate::storage::footer::lemma_footer_round_trip;
use crate::storage::footer::seal_footer;
use crate::storage::header::lemma_header_round_trip;
use crate::storage::header::parsed_header;
use crate::storage::header::store_header_bytes;
use crate::storage::header::HEADER_SIZE;
use crate::storage::image::committed;
use crate::storage::image::lemma_commit_reopens;
use crate::storage::image::lemma_write_behind_footer;
use crate::storage::image::written;
use crate::storage::wal::record_bytes;
use crate::storage::wal::wal_header_bytes;
use crate::storage::wal::wal_record;
use crate::storage::wal::WalHeader;
use crate::storage::wal::WAL_HEADER_SIZE;
use crate::types::frame::Frame;
use crate::types::frame::FrameStatus;
use crate::types::frame::PutOptions;
use crate::types::header::Header;
use crate::types::stats::saturated;
use crate::types::toc::Toc;

verus! {

/// The footer is written at a multiple of this many bytes.
pub const TOC_ALIGNMENT: u64 = 8;

/// The least multiple of eight that is not below `n`.
pub open spec fn aligned(n: nat) -> nat {
    ((n + 7) / 8) * 8
}

/// What is to be written for a new footer, in this order: the footer at its
/// offset, then, once that is on disk, the header at the start of the file.
#[derive(Debug)]
pub struct FooterWrite {
    pub toc_offset: u64,
    pub footer: Vec<u8>,
    pub header: [u8; HEADER_SIZE],
}

/// What is to be written for a commit, in this order: the footer, the
/// header, and, once both are on disk, the header of the log region, which
/// marks the log as empty.
#[derive(Debug)]
pub struct CommitPlan {
    pub footer: FooterWrite,
    pub wal_header: [u8; WAL_HEADER_SIZE],
}

/// What is to be written for a record of the log, in this order: the record
/// at its offset in the file, then the header of the log region at the
/// start of the region, which is where the header of the file ends.
#[derive(Debug)]
pub struct WalWrite {
    pub offset: u64,
    pub record: Vec<u8>,
    pub wal_header: [u8; WAL_HEADER_SIZE],
}

impl Memvid {
    /// Whether `length` more bytes would take the file beyond the capacity
    /// of the ticket in force.
    pub open spec fn over_capacity(&self, length: nat) -> bool {
        self.toc.ticket_ref.capacity_bytes > 0 && self.file_len + length
            > self.toc.ticket_ref.capacity_bytes
    }

    /// Why a payload of `length` bytes is refused, if it is: by a handle
    /// that is not writable; where the file would grow beyond the capacity
    /// of the ticket; where the payload is empty; where the file would grow
    /// beyond what an offset can address; where no frame id is left.
    pub open spec fn put_refusal(&self, length: nat) -> Option<MemvidError> {
        if self.read_only {
            Some(MemvidError::ReadOnly)
        } else if self.over_capacity(length) {
            Some(
                MemvidError::CapacityExceeded {
                    limit: self.toc.ticket_ref.capacity_bytes,
                    requested: saturated(self.file_len as nat + length),
                },
            )
        } else if length == 0 {
            Some(MemvidError::Invalid { field: InvalidField::EmptyPayload })
        } else if self.file_len + length > u64::MAX {
            Some(MemvidError::Invalid { field: InvalidField::OversizedPayload })
        } else if max_frame_id(self.toc.frames@) >= u64::MAX {
            Some(MemvidError::Invalid { field: InvalidField::FrameId })
        } else {
            None
        }
    }

    /// Inserts a payload as it is stored, with the length it had before
    /// compression where it was compressed. The new frame is active, gets
    /// the id after the greatest one, and lies at the end of the file, which
    /// grows by the payload: the payload is to be written there. The table
    /// of contents in memory holds the frame; the one in the file does not
    /// until the next commit. A refused payload changes nothing, and nothing
    /// is to be written.
    pub fn put_frame(
        &mut self,
        stored: &[u8],
        canonical_length: Option<u64>,
        options: PutOptions,
    ) -> (res: Result<u64, MemvidError>)
        requires
            old(self).wf(),
        ensures
            final(self).wf(),
            !old(self).read_only && old(self).over_capacity(stored@.len()) ==> res is Err
                && res->Err_0 is CapacityExceeded && *final(self) == *old(self),
            match old(self).put_refusal(stored@.len()) {
                Some(e) => res == Err::<u64, MemvidError>(e) && *final(self) == *old(self),
                None => {
                    &&& res == Ok::<u64, MemvidError>(
                        (max_frame_id(old(self).toc.frames@) + 1) as u64,
                    )
                    &&& final(self).toc.frames@ == old(self).toc.frames@.push(
                        Frame {
                            frame_id: (max_frame_id(old(self).toc.frames@) + 1) as u64,
                            status: FrameStatus::Active,
                            payload_length: stored@.len() as u64,
                            canonical_length,
                            offset: old(self).file_len,
                            checksum: crc32(stored@),
                            metadata: options,
                        },
                    )
                    &&& final(self).file_len == old(self).file_len + stored@.len()
                    &&& final(self).dirty
                    &&& old(self).same_but_frames(*final(self))
                },
            },
    {
        if self.read_only {
            return Err(MemvidError::ReadOnly);
        }
        let capacity = self.toc.ticket_ref.capacity_bytes;
        let length = stored.len() as u64;
        let projected = self.file_len.checked_add(length);
        if capacity > 0 {
            match projected {
                Some(size) => {
                    if size > capacity {
                        return Err(
                            MemvidError::CapacityExceeded { limit: capacity, requested: size },
                        );
                    }
                },
                None => {
                    return Err(
                        MemvidError::CapacityExceeded { limit: capacity, requested: u64::MAX },
                    );
                },
            }
        }
        if length == 0 {
            return Err(MemvidError::Invalid { field: InvalidField::EmptyPayload });
        }
        let new_len = match projected {
            Some(size) => size,
            None => {
                return Err(MemvidError::Invalid { field: InvalidField::OversizedPayload });
            },
        };
        let count = self.toc.frames.len();
        let last_id = if count == 0 {
            0
        } else {
            self.toc.frames[count - 1].frame_id
        };
        if last_id == u64::MAX {
            return Err(MemvidError::Invalid { field: InvalidField::FrameId });
        }
        let frame = Frame {
            frame_id: last_id + 1,
            status: FrameStatus::Active,
            payload_length: length,
            canonical_length,
            offset: self.file_len,
            checksum: checksum(stored),
            metadata: options,
        };
        self.toc.frames.push(frame);
        self.file_len = new_len;
        self.dirty = true;
        proof {
            let before = old(self).toc.frames@;
            let after = self.toc.frames@;
            assert forall|i: int, j: int| 0 <= i < j < after.len() implies after[i].frame_id
                < after[j].frame_id by {
                if j < before.len() {
                    assert(before[i].frame_id < before[j].frame_id);
                } else if i < before.len() - 1 {
                    assert(before[i].frame_id < before[before.len() - 1].frame_id);
                }
            }
            assert forall|i: int| 0 <= i < after.len() implies (#[trigger] after[i]).end()
                <= self.file_len by {
                if i < before.len() {
                    assert(before[i].end() <= old(self).file_len);
                }
            }
        }
        Ok(last_id + 1)
    }

    /// Inserts `bytes` as a payload without metadata and gives the id of the
    /// new frame.
    pub fn put_bytes(&mut self, bytes: &[u8]) -> (res: Result<u64, MemvidError>)
        requires
            old(self).wf(),
        ensures
            final(self).wf(),
            !old(self).read_only && old(self).over_capacity(bytes@.len()) ==> res is Err
                && res->Err_0 is CapacityExceeded && *final(self) == *old(self),
            match old(self).put_refusal(bytes@.len()) {
                Some(e) => res == Err::<u64, MemvidError>(e) && *final(self) == *old(self),
                None => {
                    &&& res == Ok::<u64, MemvidError>(
                        (max_frame_id(old(self).toc.frames@) + 1) as u64,
                    )
                    &&& final(self).toc.frames@.len() == old(self).toc.frames@.len() + 1
                    &&& final(self).toc.frames@.drop_last() == old(self).toc.frames@
                    &&& final(self).toc.frames@.last().frame_id == res->Ok_0
                    &&& final(self).toc.frames@.last().status == FrameStatus::Active
                    &&& final(self).toc.frames@.last().payload_length == bytes@.len()
                    &&& final(self).toc.frames@.last().canonical_length is None
                    &&& final(self).toc.frames@.last().offset == old(self).file_len
                    &&& final(self).toc.frames@.last().checksum == crc32(bytes@)
                    &&& final(self).toc.frames@.last().metadata.title is None
                    &&& final(self).toc.frames@.last().metadata.uri is None
                    &&& final(self).toc.frames@.last().metadata.labels@.len() == 0
                    &&& final(self).toc.frames@.last().metadata.tags@.len() == 0
                    &&& final(self).toc.frames@.last().metadata.kind is None
                    &&& final(self).toc.frames@.last().metadata.timestamp is None
                    &&& final(self).file_len == old(self).file_len + bytes@.len()
                    &&& final(self).dirty
                    &&& old(self).same_but_frames(*final(self))
                },
            },
    {
        let res = self.put_frame(bytes, None, PutOptions::default());
        proof {
            if res is Ok {
                assert(self.toc.frames@.drop_last() =~= old(self).toc.frames@);
            }
        }
        res
    }

    /// Inserts `bytes` as a payload with the given metadata and gives the id
    /// of the new frame.
    pub fn put_bytes_with_options(&mut self, bytes: &[u8], options: PutOptions) -> (res: Result<
        u64,
        MemvidError,
    >)
        requires
            old(self).wf(),
        ensures
            final(self).wf(),
            !old(self).read_only && old(self).over_capacity(bytes@.len()) ==> res is Err
                && res->Err_0 is CapacityExceeded && *final(self) == *old(self),
            match old(self).put_refusal(bytes@.len()) {
                Some(e) => res == Err::<u64, MemvidError>(e) && *final(self) == *old(self),
                None => {
                    &&& res == Ok::<u64, MemvidError>(
                        (max_frame_id(old(self).toc.frames@) + 1) as u64,
                    )
                    &&& final(self).toc.frames@ == old(self).toc.frames@.push(
                        Frame {
                            frame_id: (max_frame_id(old(self).toc.frames@) + 1) as u64,
                            status: FrameStatus::Active,
                            payload_length: bytes@.len() as u64,
                            canonical_length: None,
                            offset: old(self).file_len,
                            checksum: crc32(bytes@),
                            metadata: options,
                        },
                    )
                    &&& final(self).file_len == old(self).file_len + bytes@.len()
                    &&& final(self).dirty
                    &&& old(self).same_but_frames(*final(self))
                },
            },
    {
        self.put_frame(bytes, None, options)
    }

    /// Why a record with a payload of `length` bytes is refused, if it is:
    /// by a handle that is not writable, or where it does not fit into what
    /// is left of the log region.
    pub open spec fn wal_refusal(&self, length: nat) -> Option<MemvidError> {
        if self.read_only {
            Some(MemvidError::ReadOnly)
        } else if self.wal_tail + 8 + length > self.header.wal_size {
            Some(MemvidError::Invalid { field: InvalidField::WalRecord })
        } else {
            None
        }
    }

    /// Appends a record with the given payload to the write-ahead log. The
    /// record goes where the records so far end; the header of the region
    /// then says that the records end behind it. A refused record changes
    /// nothing.
    pub fn wal_append(&mut self, payload: &[u8]) -> (res: Result<WalWrite, MemvidError>)
        requires
            old(self).wf(),
        ensures
            final(self).wf(),
            match old(self).wal_refusal(payload@.len()) {
                Some(e) => res == Err::<WalWrite, MemvidError>(e) && *final(self) == *old(self),
                None => {
                    &&& res matches Ok(write)
                    &&& write.offset == HEADER_SIZE + old(self).wal_tail
                    &&& write.record@ == record_bytes(payload@)
                    &&& write.wal_header@ == wal_header_bytes(
                        WalHeader {
                            head_offset: WAL_HEADER_SIZE as u32,
                            tail_offset: final(self).wal_tail as u32,
                            generation: old(self).header.generation,
                        },
                    )
                    &&& final(self).wal_tail == old(self).wal_tail + 8 + payload@.len()
                    &&& *final(self) == (Memvid { wal_tail: final(self).wal_tail, ..*old(self) })
                },
            },
    {
        if self.read_only {
            return Err(MemvidError::ReadOnly);
        }
        let room = self.header.wal_size - self.wal_tail;
        if room < 8 || payload.len() as u64 > room - 8 {
            return Err(MemvidError::Invalid { field: InvalidField::WalRecord });
        }
        let record = wal_record(payload);
        let offset = HEADER_SIZE as u64 + self.wal_tail;
        let tail = self.wal_tail + 8 + payload.len() as u64;
        self.wal_tail = tail;
        let wal_header = WalHeader {
            head_offset: WAL_HEADER_SIZE as u32,
            tail_offset: tail as u32,
            generation: self.header.generation,
        }.encode();
        Ok(WalWrite { offset, record, wal_header })
    }

    /// Why a footer for a table of `length` serialized bytes is refused, if
    /// it is: by a handle that is not writable; where the file would end
    /// beyond the capacity of the ticket; where it would end beyond what an
    /// offset can address.
    pub open spec fn footer_refusal(&self, length: nat) -> Option<MemvidError> {
        let capacity = self.toc.ticket_ref.capacity_bytes;
        let end = aligned(self.file_len as nat) + length + 12;
        if self.read_only {
            Some(MemvidError::ReadOnly)
        } else if capacity > 0 && end > capacity {
            Some(MemvidError::CapacityExceeded { limit: capacity, requested: saturated(end) })
        } else if end > u64::MAX {
            Some(MemvidError::Invalid { field: InvalidField::OversizedPayload })
        } else {
            None
        }
    }

    /// The handle after a footer was planned for the serialized table
    /// `body`, at the generation `generation`.
    pub open spec fn with_footer(&self, body: Seq<u8>, generation: u64) -> Memvid {
        let toc_offset = aligned(self.file_len as nat) as u64;
        Memvid {
            header: Header {
                toc_offset,
                toc_length: (body.len() + 12) as u64,
                toc_checksum: crc32(body),
                generation,
                ..self.header
            },
            toc: Toc { toc_checksum: crc32(body), ..self.toc },
            file_len: (toc_offset + body.len() + 12) as u64,
            dirty: false,
            ..*self
        }
    }

    /// Plans the footer for the table of contents in memory, of which
    /// `body` is the serialized form, and the header that points to it. The
    /// footer goes behind everything in the file, at the next multiple of
    /// eight, so that the footer in force stays intact until the header is
    /// replaced. The header then holds the offset and the length of the new
    /// footer and the checksum of the table, which the table in memory holds
    /// too; nothing is pending any more. Read back, the planned header is
    /// the header of the handle, and the planned footer holds `body` under
    /// the checksum of the header. Where a capacity is in force, the file
    /// ends within it. A refusal changes nothing, and nothing is to be
    /// written.
    pub fn rewrite_toc_footer(&mut self, body: &[u8]) -> (res: Result<FooterWrite, MemvidError>)
        requires
            old(self).wf(),
        ensures
            final(self).wf(),
            match old(self).footer_refusal(body@.len()) {
                Some(e) => res == Err::<FooterWrite, MemvidError>(e) && *final(self) == *old(self),
                None => {
                    &&& res matches Ok(write)
                    &&& *final(self) == old(self).with_footer(body@, old(self).header.generation)
                    &&& write.toc_offset == final(self).header.toc_offset
                    &&& write.footer@ == footer_bytes(body@)
                    &&& write.header@ == store_header_bytes(final(self).header)
                    &&& parsed_header(write.header@) == Ok::<Header, MemvidError>(
                        final(self).header,
                    )
                    &&& footer_body(write.footer@, final(self).header.toc_checksum) == Ok::<
                        Seq<u8>,
                        MemvidError,
                    >(body@)
                    &&& final(self).header.toc_checksum == final(self).toc.toc_checksum
                    &&& final(self).toc.ticket_ref.capacity_bytes > 0 ==> final(self).file_len
                        <= final(self).toc.ticket_ref.capacity_bytes
                },
            },
    {
        if self.read_only {
            return Err(MemvidError::ReadOnly);
        }
        let capacity = self.toc.ticket_ref.capacity_bytes;
        // the end of the file after the footer, where it can be addressed
        let end: Option<u64> = match self.file_len.checked_add(7) {
            None => None,
            Some(padded) => {
                let toc_offset = (padded / TOC_ALIGNMENT) * TOC_ALIGNMENT;
                match toc_offset.checked_add(body.len() as u64) {
                    None => None,
                    Some(with_body) => with_body.checked_add(12),
                }
            },
        };
        if capacity > 0 {
            match end {
                Some(size) => {
                    if size > capacity {
                        return Err(
                            MemvidError::CapacityExceeded { limit: capacity, requested: size },
                        );
                    }
                },
                None => {
                    return Err(
                        MemvidError::CapacityExceeded { limit: capacity, requested: u64::MAX },
                    );
                },
            }
        }
        let end = match end {
            Some(size) => size,
            None => {
                return Err(MemvidError::Invalid { field: InvalidField::OversizedPayload });
            },
        };
        let toc_offset = ((self.file_len + 7) / TOC_ALIGNMENT) * TOC_ALIGNMENT;
        let footer = seal_footer(body);
        let sum = checksum(body);
        self.header.toc_offset = toc_offset;
        self.header.toc_length = body.len() as u64 + 12;
        self.header.toc_checksum = sum;
        self.toc.toc_checksum = sum;
        self.file_len = end;
        self.dirty = false;
        let header = self.header.encode();
        proof {
            lemma_header_round_trip(self.header);
            lemma_footer_round_trip(body@, sum);
            let frames = self.toc.frames@;
            assert forall|i: int| 0 <= i < frames.len() implies (#[trigger] frames[i]).end()
                <= toc_offset by {
                assert(old(self).toc.frames@[i].end() <= old(self).file_len);
            }
        }
        Ok(FooterWrite { toc_offset, footer, header })
    }

    /// Commits the table of contents in memory, of which `body` is the
    /// serialized form: plans the footer and the header as
    /// `rewrite_toc_footer` does, with the generation one further, and marks
    /// the log as empty. What `open` then finds in the file is the table of
    /// this commit; until the header is replaced, it finds the table of the
    /// commit before. A refusal changes nothing, and nothing is to be
    /// written.
    pub fn commit(&mut self, body: &[u8]) -> (res: Result<CommitPlan, MemvidError>)
        requires
            old(self).wf(),
        ensures
            final(self).wf(),
            match old(self).footer_refusal(body@.len()) {
                Some(e) => res == Err::<CommitPlan, MemvidError>(e) && *final(self) == *old(self),
                None => {
                    &&& res matches Ok(plan)
                    &&& *final(self) == (Memvid {
                        wal_tail: WAL_HEADER_SIZE as u64,
                        ..old(self).with_footer(
                            body@,
                            next_generation(old(self).header.generation),
                        )
                    })
                    &&& plan.footer.toc_offset == final(self).header.toc_offset
                    &&& plan.footer.footer@ == footer_bytes(body@)
                    &&& plan.footer.header@ == store_header_bytes(final(self).header)
                    &&& parsed_header(plan.footer.header@) == Ok::<Header, MemvidError>(
                        final(self).header,
                    )
                    &&& footer_body(plan.footer.footer@, final(self).header.toc_checksum) == Ok::<
                        Seq<u8>,
                        MemvidError,
                    >(body@)
                    &&& plan.wal_header@ == wal_header_bytes(
                        WalHeader {
                            head_offset: WAL_HEADER_SIZE as u32,
                            tail_offset: WAL_HEADER_SIZE as u32,
                            generation: final(self).header.generation,
                        },
                    )
                    &&& final(self).header.toc_checksum == final(self).toc.toc_checksum
                    &&& final(self).toc.ticket_ref.capacity_bytes > 0 ==> final(self).file_len
                        <= final(self).toc.ticket_ref.capacity_bytes
                },
            },
    {
        let generation = self.header.generation;
        self.header.generation = generation.wrapping_add(1);
        match self.rewrite_toc_footer(body) {
            Ok(footer) => {
                self.wal_tail = WAL_HEADER_SIZE as u64;
                let wal_header = WalHeader::empty(self.header.generation).encode();
                Ok(CommitPlan { footer, wal_header })
            },
            Err(e) => {
                self.header.generation = generation;
                Err(e)
            },
        }
    }
}

/// A commit is found again, and a crash takes nothing back: for a handle
/// whose footer in force is the one that a file holds, the footer that a
/// commit plans lies behind that one, so that the file opens to what it
/// held before as long as only the new footer, or a part of it, was
/// written; and once the planned header was written as well, the file opens
/// to the header and the table of the commit, whose checksum is that of the
/// header and of the table in memory.
pub proof fn lemma_commit_crash_safe(
    file: Seq<u8>,
    before: Memvid,
    body: Seq<u8>,
    generation: u64,
    part: nat,
)
    requires
        before.wf(),
        before.footer_refusal(body.len()) is None,
        committed(file) is Ok,
        committed(file)->Ok_0.0.toc_offset == before.header.toc_offset,
        committed(file)->Ok_0.0.toc_length == before.header.toc_length,
        part <= body.len() + 12,
    ensures
        ({
            let after = before.with_footer(body, generation);
            &&& after.header.toc_offset >= before.header.toc_offset + before.header.toc_length
            &&& committed(
                written(file, after.header.toc_offset as nat, footer_bytes(body).take(part as int)),
            ) == committed(file)
            &&& committed(
                written(
                    written(file, after.header.toc_offset as nat, footer_bytes(body)),
                    0,
                    store_header_bytes(after.header),
                ),
            ) == Ok::<(Header, Seq<u8>), MemvidError>((after.header, body))
            &&& after.header.toc_checksum == crc32(body)
            &&& after.toc.toc_checksum == crc32(body)
        }),
{
    let after = before.with_footer(body, generation);
    lemma_write_behind_footer(
        file,
        after.header.toc_offset as nat,
        footer_bytes(body).take(part as int),
    );
    lemma_commit_reopens(file, after.header, body);
}

/// The first commit of a new store, and every commit after it, is found
/// again whatever the file held: once the planned footer and the planned
/// header were written, the file opens to the header and the table of the
/// commit, and the checksum in the header is that of the table.
pub proof fn lemma_commit_reopens_store(
    file: Seq<u8>,
    before: Memvid,
    body: Seq<u8>,
    generation: u64,
)
    requires
        before.wf(),
        before.footer_refusal(body.len()) is None,
    ensures
        ({
            let after = before.with_footer(body, generation);
            &&& committed(
                written(
                    written(file, after.header.toc_offset as nat, footer_bytes(body)),
                    0,
                    store_header_bytes(after.header),
                ),
            ) == Ok::<(Header, Seq<u8>), MemvidError>((after.header, body))
            &&& after.header.toc_checksum == crc32(body)
            &&& after.toc.toc_checksum == crc32(body)
        }),
{
    let after = before.with_footer(body, generation);
    lemma_commit_reopens(file, after.header, body);
}

} // verus!
