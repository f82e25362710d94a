//! Creating and opening a store, and the invariant that every operation
//! keeps.

use vstd::prelude::*;
use crate::error::InvalidField;
use crate::error::MemvidError;
use crate::storage::footer::crc32;
use crate::storage::footer::footer_body;
use crate::storage::footer::open_footer;
use crate::storage::header::parsed_header;
use crate::storage::header::FORMAT_VERSION;
use crate::storage::header::HEADER_SIZE;
use crate::storage::wal::WAL_HEADER_SIZE;
use crate::types::frame::Frame;
use crate::types::header::Header;
use crate::types::header::Tier;
use crate::types::index::IndexManifests;
use crate::types::index::SegmentCatalog;
use crate::types::ticket::TicketRef;
use crate::types::toc::Toc;

verus! {

/// One open store. The handle owns the table of contents; reading and
/// writing the file is left to its user, to whom each mutation says what is
/// to be written where.
#[derive(Debug)]
pub struct Memvid {
    pub header: Header,
    pub toc: Toc,
    /// Length of the file in bytes, the writes included that the handle has
    /// asked for.
    pub file_len: u64,
    /// Whether the handle refuses mutations.
    pub read_only: bool,
    /// Whether the table of contents in memory is ahead of the one in the
    /// file.
    pub dirty: bool,
    /// Where, in the region of the write-ahead log, the next record goes.
    pub wal_tail: u64,
}

/// Whether the ids of `frames` increase strictly, so that each occurs once.
pub open spec fn frames_ordered(frames: Seq<Frame>) -> bool {
    forall|i: int, j: int| 0 <= i < j < frames.len() ==> frames[i].frame_id < frames[j].frame_id
}

/// The greatest id among `frames` whose ids increase; zero where there is no
/// frame.
pub open spec fn max_frame_id(frames: Seq<Frame>) -> nat {
    if frames.len() == 0 {
        0
    } else {
        frames.last().frame_id as nat
    }
}

/// Whether every one of `frames` ends at or before `limit`.
pub open spec fn frames_within(frames: Seq<Frame>, limit: int) -> bool {
    forall|i: int| 0 <= i < frames.len() ==> (#[trigger] frames[i]).end() <= limit
}

/// Whether the ids of `frames` increase strictly: decided by comparing
/// neighbours.
pub fn check_frames_ordered(frames: &Vec<Frame>) -> (res: bool)
    ensures
        res == frames_ordered(frames@),
{
    if frames.len() < 2 {
        return true;
    }
    let mut i: usize = 1;
    while i < frames.len()
        invariant
            1 <= i <= frames@.len(),
            frames_ordered(frames@.take(i as int)),
        decreases frames@.len() - i,
    {
        if frames[i - 1].frame_id >= frames[i].frame_id {
            assert(!(frames@[i - 1].frame_id < frames@[i as int].frame_id));
            return false;
        }
        proof {
            let shorter = frames@.take(i as int);
            let longer = frames@.take(i + 1);
            assert forall|a: int, b: int| 0 <= a < b < longer.len() implies longer[a].frame_id
                < longer[b].frame_id by {
                if b < i {
                    assert(shorter[a].frame_id < shorter[b].frame_id);
                } else if a < i - 1 {
                    assert(shorter[a].frame_id < shorter[i - 1].frame_id);
                }
            }
        }
        i += 1;
    }
    proof {
        assert(frames@.take(frames@.len() as int) =~= frames@);
    }
    true
}

/// Whether every one of `frames` ends at or before `limit`.
pub fn check_frames_within(frames: &Vec<Frame>, limit: u64) -> (res: bool)
    ensures
        res == frames_within(frames@, limit as int),
{
    let mut i: usize = 0;
    while i < frames.len()
        invariant
            i <= frames@.len(),
            frames_within(frames@.take(i as int), limit as int),
        decreases frames@.len() - i,
    {
        let frame = &frames[i];
        if frame.offset > limit || frame.payload_length > limit - frame.offset {
            return false;
        }
        proof {
            let shorter = frames@.take(i as int);
            let longer = frames@.take(i + 1);
            assert forall|a: int| 0 <= a < longer.len() implies (#[trigger] longer[a]).end()
                <= limit by {
                if a < i {
                    assert(shorter[a].end() <= limit);
                }
            }
        }
        i += 1;
    }
    proof {
        assert(frames@.take(frames@.len() as int) =~= frames@);
    }
    true
}

impl Memvid {
    /// Where the payloads begin: behind the header and the region of the
    /// log.
    pub open spec fn data_start(&self) -> int {
        HEADER_SIZE + self.header.wal_size
    }

    /// What holds of every handle between two calls: the header is of this
    /// version; the region of the log and the footer lie within the file;
    /// the ids of the frames increase strictly; every frame ends within the
    /// file, and before the footer while nothing is pending.
    pub open spec fn wf(&self) -> bool {
        &&& self.header.version == FORMAT_VERSION
        &&& self.header.wal_size <= u32::MAX
        &&& WAL_HEADER_SIZE <= self.wal_tail <= self.header.wal_size
        &&& self.data_start() <= self.header.toc_offset
        &&& self.header.toc_offset + self.header.toc_length <= self.file_len
        &&& frames_ordered(self.toc.frames@)
        &&& frames_within(self.toc.frames@, self.file_len as int)
        &&& !self.dirty ==> frames_within(self.toc.frames@, self.header.toc_offset as int)
        &&& !self.dirty ==> self.header.toc_checksum == self.toc.toc_checksum
    }

    /// Whether `after` differs from this handle at most in its frames, in
    /// the length of the file and in whether something is pending.
    pub open spec fn same_but_frames(&self, after: Memvid) -> bool {
        &&& after.header == self.header
        &&& after.read_only == self.read_only
        &&& after.wal_tail == self.wal_tail
        &&& after.toc.indexes == self.toc.indexes
        &&& after.toc.segment_catalog == self.toc.segment_catalog
        &&& after.toc.ticket_ref == self.toc.ticket_ref
        &&& after.toc.logic_mesh == self.toc.logic_mesh
        &&& after.toc.toc_checksum == self.toc.toc_checksum
    }

    /// Decides `wf`.
    pub fn is_well_formed(&self) -> (res: bool)
        ensures
            res == self.wf(),
    {
        self.header.version == FORMAT_VERSION && self.header.wal_size <= u32::MAX as u64
            && WAL_HEADER_SIZE as u64 <= self.wal_tail && self.wal_tail <= self.header.wal_size
            && HEADER_SIZE as u64 + self.header.wal_size <= self.header.toc_offset
            && self.header.toc_offset <= self.file_len && self.header.toc_length <= self.file_len
            - self.header.toc_offset && check_frames_ordered(&self.toc.frames)
            && check_frames_within(&self.toc.frames, self.file_len) && (self.dirty || (
            check_frames_within(&self.toc.frames, self.header.toc_offset)
                && self.header.toc_checksum == self.toc.toc_checksum))
    }

    /// The tier that the store was created for.
    pub fn tier(&self) -> (res: Tier)
        ensures
            res == self.header.tier,
    {
        self.header.tier
    }

    /// The capacity in bytes that the ticket applied last grants; zero where
    /// none is enforced.
    pub fn capacity_limit(&self) -> (res: u64)
        ensures
            res == self.toc.ticket_ref.capacity_bytes,
    {
        self.toc.ticket_ref.capacity_bytes
    }

    /// A new store of the given tier with a log region of `wal_size` bytes:
    /// no frames, no indexes, no ticket. Nothing of it is in the file yet;
    /// the first commit writes the header and the footer. The region must
    /// hold its own header and must be addressable with 32 bits.
    pub fn create(tier: Tier, wal_size: u64) -> (res: Result<Memvid, MemvidError>)
        ensures
            res is Ok <==> WAL_HEADER_SIZE <= wal_size <= u32::MAX,
            res matches Err(e) ==> e == (MemvidError::Invalid { field: InvalidField::WalSize }),
            res matches Ok(store) ==> {
                &&& store.wf()
                &&& store.header == (Header {
                    version: FORMAT_VERSION,
                    tier,
                    wal_size,
                    toc_offset: (HEADER_SIZE + wal_size) as u64,
                    toc_length: 0,
                    toc_checksum: 0,
                    generation: 0,
                })
                &&& store.toc.frames@.len() == 0
                &&& store.toc.indexes.lex is None
                &&& store.toc.indexes.vec is None
                &&& store.toc.indexes.clip is None
                &&& store.toc.indexes.time is None
                &&& store.toc.segment_catalog.vec_segments@.len() == 0
                &&& store.toc.segment_catalog.time_segments@.len() == 0
                &&& store.toc.segment_catalog.lex_segments@.len() == 0
                &&& store.toc.ticket_ref@ == TicketRef::empty_view()
                &&& store.toc.logic_mesh is None
                &&& store.file_len == HEADER_SIZE + wal_size
                &&& !store.read_only
                &&& store.dirty
                &&& store.wal_tail == WAL_HEADER_SIZE
            },
    {
        if wal_size < WAL_HEADER_SIZE as u64 || wal_size > u32::MAX as u64 {
            return Err(MemvidError::Invalid { field: InvalidField::WalSize });
        }
        let start = HEADER_SIZE as u64 + wal_size;
        Ok(
            Memvid {
                header: Header {
                    version: FORMAT_VERSION,
                    tier,
                    wal_size,
                    toc_offset: start,
                    toc_length: 0,
                    toc_checksum: 0,
                    generation: 0,
                },
                toc: Toc {
                    frames: Vec::new(),
                    indexes: IndexManifests { lex: None, vec: None, clip: None, time: None },
                    segment_catalog: SegmentCatalog {
                        vec_segments: Vec::new(),
                        time_segments: Vec::new(),
                        lex_segments: Vec::new(),
                    },
                    ticket_ref: TicketRef::empty(),
                    logic_mesh: None,
                    toc_checksum: 0,
                },
                file_len: start,
                read_only: false,
                dirty: true,
                wal_tail: WAL_HEADER_SIZE as u64,
            },
        )
    }

    /// Whether a header, the footer it points to and the table of contents
    /// read from the footer make up a store in a file of `file_len` bytes;
    /// and the error with which `open` refuses them otherwise.
    pub open spec fn open_check(
        header_bytes: Seq<u8>,
        footer: Seq<u8>,
        toc: Toc,
        file_len: u64,
    ) -> Result<Header, MemvidError> {
        match parsed_header(header_bytes) {
            Err(e) => Err(e),
            Ok(header) => if header.wal_size > u32::MAX || header.wal_size < WAL_HEADER_SIZE
                || HEADER_SIZE + header.wal_size > header.toc_offset || header.toc_offset
                + header.toc_length > file_len || footer.len() != header.toc_length {
                Err(MemvidError::CorruptHeader)
            } else if footer_body(footer, header.toc_checksum) is Err {
                Err(MemvidError::CorruptToc)
            } else if !frames_ordered(toc.frames@) || !frames_within(
                toc.frames@,
                header.toc_offset as int,
            ) {
                Err(MemvidError::CorruptToc)
            } else {
                Ok(header)
            },
        }
    }

    /// Opens a store from the first 64 bytes of its file, the footer that
    /// the header points to, and the table of contents that was read from
    /// the footer. It fails with `NotMv2File` without the magic bytes, with
    /// `CorruptHeader` where the header cannot be parsed or points outside
    /// the file, and with `CorruptToc` where the checksum of the table is
    /// not the one in the footer and in the header, or where the frames of
    /// the table do not lie before the footer with increasing ids. The
    /// checksum of the table in the handle is then that of the serialized
    /// table and that of the header.
    pub fn open(
        header_bytes: &[u8; HEADER_SIZE],
        footer: &[u8],
        toc: Toc,
        file_len: u64,
        read_only: bool,
    ) -> (res: Result<Memvid, MemvidError>)
        ensures
            match res {
                Ok(store) => {
                    &&& Self::open_check(header_bytes@, footer@, toc, file_len) == Ok::<
                        Header,
                        MemvidError,
                    >(store.header)
                    &&& store.wf()
                    &&& store.toc == (Toc { toc_checksum: store.header.toc_checksum, ..toc })
                    &&& footer_body(footer@, store.header.toc_checksum) matches Ok(body)
                        && store.toc.toc_checksum == crc32(body)
                    &&& store.file_len == file_len
                    &&& store.read_only == read_only
                    &&& !store.dirty
                    &&& store.wal_tail == WAL_HEADER_SIZE
                },
                Err(e) => Self::open_check(header_bytes@, footer@, toc, file_len) == Err::<
                    Header,
                    MemvidError,
                >(e),
            },
    {
        let header = match Header::decode(header_bytes) {
            Ok(header) => header,
            Err(e) => {
                return Err(e);
            },
        };
        if header.wal_size > u32::MAX as u64 || header.wal_size < WAL_HEADER_SIZE as u64
            || HEADER_SIZE as u64 + header.wal_size > header.toc_offset || header.toc_offset
            > file_len || header.toc_length > file_len - header.toc_offset || footer.len() as u64
            != header.toc_length {
            return Err(MemvidError::CorruptHeader);
        }
        match open_footer(footer, header.toc_checksum) {
            Ok(_) => {},
            Err(e) => {
                return Err(MemvidError::CorruptToc);
            },
        }
        if !check_frames_ordered(&toc.frames) || !check_frames_within(
            &toc.frames,
            header.toc_offset,
        ) {
            return Err(MemvidError::CorruptToc);
        }
        let mut toc = toc;
        toc.toc_checksum = header.toc_checksum;
        Ok(
            Memvid {
                header,
                toc,
                file_len,
                read_only,
                dirty: false,
                wal_tail: WAL_HEADER_SIZE as u64,
            },
        )
    }

    /// The frame with the given id.
    pub fn frame(&self, frame_id: u64) -> (res: Result<&Frame, MemvidError>)
        ensures
            match res {
                Ok(frame) => frame.frame_id == frame_id && self.toc.frames@.contains(*frame),
                Err(e) => e == (MemvidError::FrameNotFound { id: frame_id }) && forall|i: int|
                    0 <= i < self.toc.frames@.len() ==> (#[trigger] self.toc.frames@[i]).frame_id
                        != frame_id,
            },
    {
        let mut i: usize = 0;
        while i < self.toc.frames.len()
            invariant
                i <= self.toc.frames@.len(),
                forall|j: int| 0 <= j < i ==> (#[trigger] self.toc.frames@[j]).frame_id != frame_id,
            decreases self.toc.frames@.len() - i,
        {
            if self.toc.frames[i].frame_id == frame_id {
                return Ok(&self.toc.frames[i]);
            }
            i += 1;
        }
        Err(MemvidError::FrameNotFound { id: frame_id })
    }
}

} // verus!
