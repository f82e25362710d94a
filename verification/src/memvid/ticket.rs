//! Statistics and ticket handling of a store.

use vstd::prelude::*;
use crate::error::MemvidError;
use crate::memvid::lifecycle::Memvid;
use crate::types::frame::active_count;
use crate::types::frame::logical_total;
use crate::types::frame::stored_total;
use crate::types::frame::Frame;
use crate::types::frame::FrameStatus;
use crate::types::index::primary_count;
use crate::types::index::primary_length;
use crate::types::index::total_count;
use crate::types::index::total_length;
use crate::types::index::IndexDescriptor;
use crate::types::stats::hundredths_of_percent;
use crate::types::stats::ratio_hundredths;
use crate::types::stats::saturated;
use crate::types::stats::Stats;
use crate::types::header::Header;
use crate::types::ticket::Ticket;
use crate::types::ticket::TicketRef;
use crate::types::ticket::TicketRefView;
use crate::types::ticket::TicketView;
use crate::types::toc::LogicMeshManifest;

verus! {

/// The number of active frames, the bytes they store and the bytes they stand
/// for, each saturating at the largest `u64`.
fn frame_totals(frames: &Vec<Frame>) -> (res: (u64, u64, u64))
    ensures
        res.0 == saturated(active_count(frames@)),
        res.1 == saturated(stored_total(frames@)),
        res.2 == saturated(logical_total(frames@)),
{
    let mut active: u64 = 0;
    let mut stored: u64 = 0;
    let mut logical: u64 = 0;
    let mut i: usize = 0;
    while i < frames.len()
        invariant
            i <= frames@.len(),
            active == saturated(active_count(frames@.take(i as int))),
            stored == saturated(stored_total(frames@.take(i as int))),
            logical == saturated(logical_total(frames@.take(i as int))),
        decreases frames@.len() - i,
    {
        let frame = &frames[i];
        proof {
            let next = frames@.take(i + 1);
            assert(next.drop_last() == frames@.take(i as int));
            assert(next.last() == frames@[i as int]);
        }
        match frame.status {
            FrameStatus::Active => {
                active = active.saturating_add(1);
                stored = stored.saturating_add(frame.payload_length);
                if frame.payload_length > 0 {
                    let length = match frame.canonical_length {
                        Some(length) => length,
                        None => frame.payload_length,
                    };
                    logical = logical.saturating_add(length);
                }
            },
            _ => {},
        }
        i += 1;
    }
    proof {
        assert(frames@.take(frames@.len() as int) == frames@);
    }
    (active, stored, logical)
}

/// The bytes and the counted items of a primary index together with its
/// segments, each saturating at the largest `u64`.
fn index_totals(primary: &Option<IndexDescriptor>, segments: &Vec<IndexDescriptor>) -> (res: (
    u64,
    u64,
))
    ensures
        res.0 == saturated(primary_length(*primary) + total_length(segments@)),
        res.1 == saturated(primary_count(*primary) + total_count(segments@)),
{
    let mut bytes: u64 = 0;
    let mut count: u64 = 0;
    match primary {
        Some(index) => {
            bytes = bytes.saturating_add(index.length);
            count = count.saturating_add(index.count);
        },
        None => {},
    }
    let mut i: usize = 0;
    while i < segments.len()
        invariant
            i <= segments@.len(),
            bytes == saturated(primary_length(*primary) + total_length(segments@.take(i as int))),
            count == saturated(primary_count(*primary) + total_count(segments@.take(i as int))),
        decreases segments@.len() - i,
    {
        proof {
            let next = segments@.take(i + 1);
            assert(next.drop_last() == segments@.take(i as int));
            assert(next.last() == segments@[i as int]);
        }
        bytes = bytes.saturating_add(segments[i].length);
        count = count.saturating_add(segments[i].count);
        i += 1;
    }
    proof {
        assert(segments@.take(segments@.len() as int) == segments@);
    }
    (bytes, count)
}

impl Memvid {
    /// What `stats` reports, as a function of the handle.
    pub open spec fn stats_spec(&self) -> Stats {
        let frames = self.toc.frames@;
        let active = saturated(active_count(frames));
        let payload = saturated(stored_total(frames));
        let logical = saturated(logical_total(frames));
        let saved = if logical >= payload {
            (logical - payload) as u64
        } else {
            0u64
        };
        let capacity = self.toc.ticket_ref.capacity_bytes;
        let indexes = self.toc.indexes;
        let catalog = self.toc.segment_catalog;
        Stats {
            frame_count: frames.len() as u64,
            size_bytes: self.file_len,
            tier: self.header.tier,
            has_lex_index: indexes.lex is Some || catalog.lex_segments@.len() > 0,
            has_vec_index: indexes.vec is Some || catalog.vec_segments@.len() > 0,
            has_clip_index: indexes.clip is Some,
            has_time_index: indexes.time is Some || catalog.time_segments@.len() > 0,
            seq_no: if self.toc.ticket_ref.seq_no != 0 {
                Some(self.toc.ticket_ref.seq_no)
            } else {
                None
            },
            capacity_bytes: capacity,
            active_frame_count: active,
            payload_bytes: payload,
            logical_bytes: logical,
            saved_bytes: saved,
            compression_ratio_hundredths: if logical > 0 {
                hundredths_of_percent(payload as nat, logical as nat) as u128
            } else {
                10000u128
            },
            savings_hundredths: if logical > 0 {
                hundredths_of_percent(saved as nat, logical as nat) as u128
            } else {
                0u128
            },
            storage_utilisation_hundredths: if capacity > 0 {
                hundredths_of_percent(self.file_len as nat, capacity as nat) as u128
            } else {
                0u128
            },
            remaining_capacity_bytes: if capacity >= self.file_len {
                (capacity - self.file_len) as u64
            } else {
                0u64
            },
            average_frame_payload_bytes: if active > 0 {
                payload / active
            } else {
                0u64
            },
            average_frame_logical_bytes: if active > 0 {
                logical / active
            } else {
                0u64
            },
            wal_bytes: self.header.wal_size,
            lex_index_bytes: saturated(
                primary_length(indexes.lex) + total_length(catalog.lex_segments@),
            ),
            vec_index_bytes: saturated(
                primary_length(indexes.vec) + total_length(catalog.vec_segments@),
            ),
            time_index_bytes: saturated(
                primary_length(indexes.time) + total_length(catalog.time_segments@),
            ),
            vector_count: saturated(
                primary_count(indexes.vec) + total_count(catalog.vec_segments@),
            ),
            clip_image_count: primary_count(indexes.clip) as u64,
        }
    }

    /// Frame counts, stored against logical bytes, the share of the capacity
    /// in use and the bytes of each index, derived from the table of contents
    /// in memory and the length of the file.
    pub fn stats(&self) -> (res: Stats)
        ensures
            res == self.stats_spec(),
            res.logical_bytes >= res.payload_bytes ==> res.payload_bytes + res.saved_bytes
                == res.logical_bytes,
            res.logical_bytes < res.payload_bytes ==> res.saved_bytes == 0,
            res.logical_bytes > 0 ==> res.compression_ratio_hundredths == hundredths_of_percent(
                res.payload_bytes as nat,
                res.logical_bytes as nat,
            ),
            res.logical_bytes == 0 ==> res.compression_ratio_hundredths == 10000,
    {
        let (active_frames, payload_bytes, logical_bytes) = frame_totals(&self.toc.frames);
        let saved_bytes = logical_bytes.saturating_sub(payload_bytes);
        let capacity = self.capacity_limit();
        let compression_ratio_hundredths = if logical_bytes > 0 {
            ratio_hundredths(payload_bytes, logical_bytes)
        } else {
            10000u128
        };
        let savings_hundredths = if logical_bytes > 0 {
            ratio_hundredths(saved_bytes, logical_bytes)
        } else {
            0u128
        };
        let storage_utilisation_hundredths = if capacity > 0 {
            ratio_hundredths(self.file_len, capacity)
        } else {
            0u128
        };
        let remaining_capacity_bytes = capacity.saturating_sub(self.file_len);
        let average_payload = if active_frames > 0 {
            payload_bytes / active_frames
        } else {
            0
        };
        let average_logical = if active_frames > 0 {
            logical_bytes / active_frames
        } else {
            0
        };
        let (lex_index_bytes, _) = index_totals(
            &self.toc.indexes.lex,
            &self.toc.segment_catalog.lex_segments,
        );
        let (vec_index_bytes, vector_count) = index_totals(
            &self.toc.indexes.vec,
            &self.toc.segment_catalog.vec_segments,
        );
        let (time_index_bytes, _) = index_totals(
            &self.toc.indexes.time,
            &self.toc.segment_catalog.time_segments,
        );
        let clip_image_count = match self.toc.indexes.clip {
            Some(index) => index.count,
            None => 0,
        };
        let seq_no = if self.toc.ticket_ref.seq_no != 0 {
            Some(self.toc.ticket_ref.seq_no)
        } else {
            None
        };
        Stats {
            frame_count: self.toc.frames.len() as u64,
            size_bytes: self.file_len,
            tier: self.tier(),
            has_lex_index: self.has_lex_index(),
            has_vec_index: self.has_vec_index(),
            has_clip_index: self.has_clip_index(),
            has_time_index: self.has_time_index(),
            seq_no,
            capacity_bytes: capacity,
            active_frame_count: active_frames,
            payload_bytes,
            logical_bytes,
            saved_bytes,
            compression_ratio_hundredths,
            savings_hundredths,
            storage_utilisation_hundredths,
            remaining_capacity_bytes,
            average_frame_payload_bytes: average_payload,
            average_frame_logical_bytes: average_logical,
            wal_bytes: self.header.wal_size,
            lex_index_bytes,
            vec_index_bytes,
            time_index_bytes,
            vector_count,
            clip_image_count,
        }
    }

    /// Whether `ticket` may be applied: the handle is writable and the ticket
    /// comes after the one applied last.
    pub open spec fn accepts(&self, ticket: Ticket) -> bool {
        !self.read_only && ticket.seq_no > self.toc.ticket_ref.seq_no
    }

    /// The error with which `ticket` is refused where it is not accepted.
    pub open spec fn refusal(&self, ticket: Ticket) -> MemvidError {
        if self.read_only {
            MemvidError::ReadOnly
        } else {
            MemvidError::TicketSequence {
                expected: next_seq_no(self.toc.ticket_ref.seq_no),
                actual: ticket.seq_no,
            }
        }
    }

    /// Applies `ticket` if the handle is writable and the ticket's sequence
    /// number is greater than that of the ticket applied last: the table of
    /// contents then holds the ticket's issuer, sequence number, expiry and
    /// capacity (zero where it names none), the generation is one more, and
    /// the table is marked as ahead of the file. Any other ticket is refused
    /// and nothing changes.
    pub fn apply_ticket(&mut self, ticket: Ticket) -> (res: Result<(), MemvidError>)
        ensures
            res is Ok <==> old(self).accepts(ticket),
            !old(self).read_only ==> (res is Ok <==> old(self).toc.ticket_ref.seq_no
                < ticket.seq_no),
            res matches Err(e) ==> e == old(self).refusal(ticket) && *final(self) == *old(self),
            res is Ok ==> {
                &&& final(self).toc.ticket_ref@ == applied_ticket(ticket@)
                &&& final(self).toc.ticket_ref.seq_no > old(self).toc.ticket_ref.seq_no
                &&& final(self).header == (Header {
                    generation: next_generation(old(self).header.generation),
                    ..old(self).header
                })
                &&& final(self).dirty
                &&& final(self).toc.frames == old(self).toc.frames
                &&& final(self).toc.indexes == old(self).toc.indexes
                &&& final(self).toc.segment_catalog == old(self).toc.segment_catalog
                &&& final(self).toc.logic_mesh == old(self).toc.logic_mesh
                &&& final(self).toc.toc_checksum == old(self).toc.toc_checksum
                &&& final(self).file_len == old(self).file_len
                &&& final(self).read_only == old(self).read_only
                &&& final(self).wal_tail == old(self).wal_tail
            },
            old(self).wf() ==> final(self).wf(),
    {
        if self.read_only {
            return Err(MemvidError::ReadOnly);
        }
        let current_seq = self.toc.ticket_ref.seq_no;
        if ticket.seq_no <= current_seq {
            let expected = if current_seq < i64::MAX {
                current_seq + 1
            } else {
                i64::MAX
            };
            return Err(MemvidError::TicketSequence { expected, actual: ticket.seq_no });
        }
        self.toc.ticket_ref.capacity_bytes = match ticket.capacity_bytes {
            Some(capacity) => capacity,
            None => 0,
        };
        self.toc.ticket_ref.issuer = ticket.issuer;
        self.toc.ticket_ref.seq_no = ticket.seq_no;
        self.toc.ticket_ref.expires_in_secs = ticket.expires_in_secs;
        self.header.generation = self.header.generation.wrapping_add(1);
        self.dirty = true;
        Ok(())
    }

    /// The state of the ticket applied last.
    pub fn current_ticket(&self) -> (res: TicketRef)
        ensures
            res@ == self.toc.ticket_ref@,
    {
        self.toc.ticket_ref.clone()
    }

    /// The manifest of the logic mesh, if the store carries one.
    pub fn logic_mesh_manifest(&self) -> (res: Option<&LogicMeshManifest>)
        ensures
            res is Some <==> self.toc.logic_mesh is Some,
            res matches Some(manifest) ==> self.toc.logic_mesh == Some(*manifest),
    {
        self.toc.logic_mesh.as_ref()
    }
}

/// The sequence number that a store at `current` expects next; the largest
/// one has none after it.
pub open spec fn next_seq_no(current: i64) -> i64 {
    if current < i64::MAX {
        (current + 1) as i64
    } else {
        i64::MAX
    }
}

/// The generation after `generation`; the counter wraps.
pub open spec fn next_generation(generation: u64) -> u64 {
    if generation < u64::MAX {
        (generation + 1) as u64
    } else {
        0
    }
}

/// What the table of contents keeps of an applied ticket.
pub open spec fn applied_ticket(ticket: TicketView) -> TicketRefView {
    TicketRefView {
        issuer: ticket.issuer,
        seq_no: ticket.seq_no,
        expires_in_secs: ticket.expires_in_secs,
        capacity_bytes: match ticket.capacity_bytes {
            Some(capacity) => capacity,
            None => 0,
        },
    }
}

} // verus!
