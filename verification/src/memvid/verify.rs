//! Checking a store for damage: whether the header and the table of
//! contents agree with the file, and whether what the table refers to lies
//! where it can lie.

use vstd::prelude::*;
use crate::error::MemvidError;
use crate::memvid::lifecycle::Memvid;
use crate::storage::header::FORMAT_VERSION;
use crate::storage::header::HEADER_SIZE;
use crate::storage::wal::WAL_HEADER_SIZE;
use crate::types::frame::Frame;
use crate::types::frame::FrameStatus;
use crate::types::index::IndexDescriptor;

verus! {

/// How a store fares as a whole.
#[derive(Clone, Copy, Debug, PartialEq, Eq, Structural)]
pub enum VerifyStatus {
    /// Every check passed.
    Healthy,
    /// The frames are sound, but an index lies where it cannot be read.
    Degraded,
    /// The header, the table of contents or a frame is damaged.
    Corrupt,
}

/// The outcome of each check, and of all of them.
#[derive(Clone, Copy, Debug, PartialEq, Eq, Structural)]
pub struct VerifyReport {
    pub status: VerifyStatus,
    /// The header is of this version, and the log region and the footer lie
    /// within the file.
    pub header_ok: bool,
    /// The checksum of the table of contents is the one in the header.
    pub toc_ok: bool,
    /// The bytes of every active frame have the checksum of the frame. Not
    /// looked at, and true, in a check that is not deep.
    pub payloads_ok: bool,
    /// No two frames share a byte of the file.
    pub frames_disjoint: bool,
    /// Every active frame ends at or before the footer.
    pub frames_before_toc: bool,
    /// Every index and every segment ends within the file.
    pub indexes_in_file: bool,
    /// Every index and every segment ends at or before the footer.
    pub indexes_before_toc: bool,
}

impl VerifyReport {
    /// The report on a file that does not open: it is corrupt. The header
    /// passes where the file was refused for its table of contents only;
    /// nothing else could be looked at, and no other check passes.
    pub fn unopened(error: MemvidError) -> (res: VerifyReport)
        ensures
            res == (VerifyReport {
                status: VerifyStatus::Corrupt,
                header_ok: error == MemvidError::CorruptToc,
                toc_ok: false,
                payloads_ok: false,
                frames_disjoint: false,
                frames_before_toc: false,
                indexes_in_file: false,
                indexes_before_toc: false,
            }),
    {
        let header_ok = match error {
            MemvidError::CorruptToc => true,
            _ => false,
        };
        VerifyReport {
            status: VerifyStatus::Corrupt,
            header_ok,
            toc_ok: false,
            payloads_ok: false,
            frames_disjoint: false,
            frames_before_toc: false,
            indexes_in_file: false,
            indexes_before_toc: false,
        }
    }
}

/// Whether two frames share a byte of the file.
pub open spec fn frames_overlap(a: Frame, b: Frame) -> bool {
    a.payload_length > 0 && b.payload_length > 0 && a.offset < b.end() && b.offset < a.end()
}

/// Whether no two of `frames` share a byte of the file.
pub open spec fn frames_disjoint(frames: Seq<Frame>) -> bool {
    forall|i: int, j: int| 0 <= i < j < frames.len() ==> !frames_overlap(frames[i], frames[j])
}

/// Whether every active one of `frames` ends at or before `limit`.
pub open spec fn active_frames_within(frames: Seq<Frame>, limit: int) -> bool {
    forall|i: int|
        0 <= i < frames.len() && (#[trigger] frames[i]).is_active() ==> frames[i].end() <= limit
}

/// Whether the bytes found for every active one of `frames` have the
/// checksum of the frame; `found` gives, frame by frame, the checksum of the
/// bytes in the file, and `None` where there are none.
pub open spec fn payloads_match(frames: Seq<Frame>, found: Seq<Option<u32>>) -> bool {
    &&& found.len() == frames.len()
    &&& forall|i: int|
        0 <= i < frames.len() && (#[trigger] frames[i]).is_active() ==> found[i] == Some(
            frames[i].checksum,
        )
}

/// Whether every one of `indexes` ends at or before `limit`.
pub open spec fn indexes_within(indexes: Seq<IndexDescriptor>, limit: int) -> bool {
    forall|i: int| 0 <= i < indexes.len() ==> (#[trigger] indexes[i]).end() <= limit
}

/// Whether a primary index, if there is one, ends at or before `limit`.
pub open spec fn primary_within(primary: Option<IndexDescriptor>, limit: int) -> bool {
    match primary {
        Some(index) => index.end() <= limit,
        None => true,
    }
}

/// Whether the frame at `i` ends where the next one begins, or before it.
pub open spec fn ends_before_next(frames: Seq<Frame>, i: int) -> bool {
    frames[i].end() <= frames[i + 1].offset
}

/// Whether each of `frames` ends where the next one begins, or before it,
/// as frames do that were appended one after the other.
pub open spec fn frames_in_file_order(frames: Seq<Frame>) -> bool {
    forall|i: int| 0 <= i < frames.len() - 1 ==> #[trigger] ends_before_next(frames, i)
}

/// Frames that lie in the file in the order of the table share no byte.
pub proof fn lemma_file_order_is_disjoint(frames: Seq<Frame>)
    requires
        frames_in_file_order(frames),
    ensures
        frames_disjoint(frames),
{
    assert forall|i: int, j: int| 0 <= i < j < frames.len() implies frames[i].end()
        <= frames[j].offset by {
        lemma_file_order_reaches(frames, i, j);
    }
}

/// In frames that lie in the file in the order of the table, each ends
/// before every later one begins.
pub proof fn lemma_file_order_reaches(frames: Seq<Frame>, i: int, j: int)
    requires
        frames_in_file_order(frames),
        0 <= i < j < frames.len(),
    ensures
        frames[i].end() <= frames[j].offset,
    decreases j - i,
{
    if i + 1 < j {
        lemma_file_order_reaches(frames, i, j - 1);
        assert(ends_before_next(frames, j - 1));
    } else {
        assert(ends_before_next(frames, i));
    }
}

/// Decides `frames_in_file_order`.
pub fn check_frames_in_file_order(frames: &Vec<Frame>) -> (res: bool)
    ensures
        res == frames_in_file_order(frames@),
{
    if frames.len() < 2 {
        return true;
    }
    let mut k: usize = 1;
    while k < frames.len()
        invariant
            1 <= k <= frames@.len(),
            forall|i: int| 0 <= i < k - 1 ==> #[trigger] ends_before_next(frames@, i),
        decreases frames@.len() - k,
    {
        let previous = &frames[k - 1];
        let next = &frames[k];
        if previous.offset > next.offset || previous.payload_length > next.offset
            - previous.offset {
            assert(!ends_before_next(frames@, k - 1));
            return false;
        }
        k += 1;
    }
    true
}

/// Decides `frames_disjoint`. Frames that lie in the file in the order of
/// the table, as appended frames do, need one pass; others are compared
/// pair by pair.
pub fn check_frames_disjoint(frames: &Vec<Frame>) -> (res: bool)
    ensures
        res == frames_disjoint(frames@),
{
    if check_frames_in_file_order(frames) {
        proof {
            lemma_file_order_is_disjoint(frames@);
        }
        return true;
    }
    let count = frames.len();
    let mut i: usize = 0;
    while i < count
        invariant
            i <= count == frames@.len(),
            forall|a: int, b: int|
                0 <= a < b < count && a < i ==> !frames_overlap(frames@[a], frames@[b]),
        decreases count - i,
    {
        let mut j: usize = i + 1;
        while j < count
            invariant
                i < j <= count == frames@.len(),
                forall|b: int| i < b < j ==> !frames_overlap(frames@[i as int], frames@[b]),
            decreases count - j,
        {
            let a = &frames[i];
            let b = &frames[j];
            // compared without adding, which could overflow
            if a.payload_length > 0 && b.payload_length > 0 && ((a.offset <= b.offset && b.offset
                - a.offset < a.payload_length) || (b.offset < a.offset && a.offset - b.offset
                < b.payload_length)) {
                assert(frames_overlap(frames@[i as int], frames@[j as int]));
                return false;
            }
            j += 1;
        }
        i += 1;
    }
    true
}

/// Decides `active_frames_within`.
pub fn check_active_frames_within(frames: &Vec<Frame>, limit: u64) -> (res: bool)
    ensures
        res == active_frames_within(frames@, limit as int),
{
    let mut i: usize = 0;
    while i < frames.len()
        invariant
            i <= frames@.len(),
            forall|a: int|
                0 <= a < i && (#[trigger] frames@[a]).is_active() ==> frames@[a].end() <= limit,
        decreases frames@.len() - i,
    {
        let frame = &frames[i];
        match frame.status {
            FrameStatus::Active => {
                if frame.offset > limit || frame.payload_length > limit - frame.offset {
                    return false;
                }
            },
            _ => {},
        }
        i += 1;
    }
    true
}

/// Decides `payloads_match`.
pub fn check_payloads(frames: &Vec<Frame>, found: &Vec<Option<u32>>) -> (res: bool)
    ensures
        res == payloads_match(frames@, found@),
{
    if found.len() != frames.len() {
        return false;
    }
    let mut i: usize = 0;
    while i < frames.len()
        invariant
            i <= frames@.len() == found@.len(),
            forall|a: int|
                0 <= a < i && (#[trigger] frames@[a]).is_active() ==> found@[a] == Some(
                    frames@[a].checksum,
                ),
        decreases frames@.len() - i,
    {
        let frame = &frames[i];
        match frame.status {
            FrameStatus::Active => {
                match found[i] {
                    Some(sum) => {
                        if sum != frame.checksum {
                            return false;
                        }
                    },
                    None => {
                        return false;
                    },
                }
            },
            _ => {},
        }
        i += 1;
    }
    true
}

/// Decides `indexes_within`.
pub fn check_indexes_within(indexes: &Vec<IndexDescriptor>, limit: u64) -> (res: bool)
    ensures
        res == indexes_within(indexes@, limit as int),
{
    let mut i: usize = 0;
    while i < indexes.len()
        invariant
            i <= indexes@.len(),
            forall|a: int| 0 <= a < i ==> (#[trigger] indexes@[a]).end() <= limit,
        decreases indexes@.len() - i,
    {
        let index = &indexes[i];
        if index.offset > limit || index.length > limit - index.offset {
            return false;
        }
        i += 1;
    }
    true
}

/// Decides `primary_within`.
pub fn check_primary_within(primary: &Option<IndexDescriptor>, limit: u64) -> (res: bool)
    ensures
        res == primary_within(*primary, limit as int),
{
    match primary {
        Some(index) => index.offset <= limit && index.length <= limit - index.offset,
        None => true,
    }
}

impl Memvid {
    /// Whether every primary index and every segment ends at or before
    /// `limit`.
    pub open spec fn all_indexes_within(&self, limit: int) -> bool {
        &&& primary_within(self.toc.indexes.lex, limit)
        &&& primary_within(self.toc.indexes.vec, limit)
        &&& primary_within(self.toc.indexes.clip, limit)
        &&& primary_within(self.toc.indexes.time, limit)
        &&& indexes_within(self.toc.segment_catalog.lex_segments@, limit)
        &&& indexes_within(self.toc.segment_catalog.vec_segments@, limit)
        &&& indexes_within(self.toc.segment_catalog.time_segments@, limit)
    }

    /// Decides `all_indexes_within`.
    fn check_all_indexes_within(&self, limit: u64) -> (res: bool)
        ensures
            res == self.all_indexes_within(limit as int),
    {
        check_primary_within(&self.toc.indexes.lex, limit) && check_primary_within(
            &self.toc.indexes.vec,
            limit,
        ) && check_primary_within(&self.toc.indexes.clip, limit) && check_primary_within(
            &self.toc.indexes.time,
            limit,
        ) && check_indexes_within(&self.toc.segment_catalog.lex_segments, limit)
            && check_indexes_within(&self.toc.segment_catalog.vec_segments, limit)
            && check_indexes_within(&self.toc.segment_catalog.time_segments, limit)
    }

    /// What `verify` reports, as a function of the handle and of the
    /// checksums found for the frames in a deep check.
    pub open spec fn verify_spec(&self, found: Option<Seq<Option<u32>>>) -> VerifyReport {
        let header_ok = self.header.version == FORMAT_VERSION && WAL_HEADER_SIZE
            <= self.header.wal_size <= u32::MAX && HEADER_SIZE + self.header.wal_size
            <= self.header.toc_offset && self.header.toc_offset + self.header.toc_length
            <= self.file_len;
        let toc_ok = self.header.toc_checksum == self.toc.toc_checksum;
        let payloads_ok = match found {
            Some(sums) => payloads_match(self.toc.frames@, sums),
            None => true,
        };
        let disjoint = frames_disjoint(self.toc.frames@);
        let frames_before_toc = active_frames_within(
            self.toc.frames@,
            self.header.toc_offset as int,
        );
        let indexes_in_file = self.all_indexes_within(self.file_len as int);
        let indexes_before_toc = self.all_indexes_within(self.header.toc_offset as int);
        VerifyReport {
            status: if !header_ok || !toc_ok || !payloads_ok || !disjoint || !frames_before_toc {
                VerifyStatus::Corrupt
            } else if !indexes_in_file || !indexes_before_toc {
                VerifyStatus::Degraded
            } else {
                VerifyStatus::Healthy
            },
            header_ok,
            toc_ok,
            payloads_ok,
            frames_disjoint: disjoint,
            frames_before_toc,
            indexes_in_file,
            indexes_before_toc,
        }
    }

    /// Checks the store. For a deep check `found` gives, frame by frame,
    /// the checksum of the bytes that the file holds where the frame lies,
    /// and `None` where the file ends before the frame does. The store is
    /// corrupt where the header does not fit the file, the checksum of the
    /// table of contents is not the one in the header, an active frame's
    /// bytes do not have its checksum, two frames share a byte, or an active
    /// frame does not end before the footer; it is degraded where instead
    /// only an index or a segment lies beyond the file or the footer.
    pub fn verify(&self, found: Option<&Vec<Option<u32>>>) -> (res: VerifyReport)
        ensures
            res == self.verify_spec(
                match found {
                    Some(sums) => Some(sums@),
                    None => None,
                },
            ),
    {
        let header_ok = self.header.version == FORMAT_VERSION && WAL_HEADER_SIZE as u64
            <= self.header.wal_size && self.header.wal_size <= u32::MAX as u64 && HEADER_SIZE as u64
            + self.header.wal_size <= self.header.toc_offset && self.header.toc_offset
            <= self.file_len && self.header.toc_length <= self.file_len - self.header.toc_offset;
        let toc_ok = self.header.toc_checksum == self.toc.toc_checksum;
        let payloads_ok = match found {
            Some(sums) => check_payloads(&self.toc.frames, sums),
            None => true,
        };
        let disjoint = check_frames_disjoint(&self.toc.frames);
        let frames_before_toc = check_active_frames_within(
            &self.toc.frames,
            self.header.toc_offset,
        );
        let indexes_in_file = self.check_all_indexes_within(self.file_len);
        let indexes_before_toc = self.check_all_indexes_within(self.header.toc_offset);
        let status = if !header_ok || !toc_ok || !payloads_ok || !disjoint || !frames_before_toc {
            VerifyStatus::Corrupt
        } else if !indexes_in_file || !indexes_before_toc {
            VerifyStatus::Degraded
        } else {
            VerifyStatus::Healthy
        };
        VerifyReport {
            status,
            header_ok,
            toc_ok,
            payloads_ok,
            frames_disjoint: disjoint,
            frames_before_toc,
            indexes_in_file,
            indexes_before_toc,
        }
    }
}

} // verus!
