//! Registering the serialized indexes that builders outside the store
//! produce. The store keeps their bytes and records where they lie; it does
//! not look into them.

use vstd::prelude::*;
use crate::error::InvalidField;
use crate::error::MemvidError;
use crate::memvid::lifecycle::Memvid;
use crate::storage::footer::checksum;
use crate::storage::footer::crc32;
use crate::types::index::IndexDescriptor;
use crate::types::index::IndexKind;
use crate::types::index::IndexManifests;
use crate::types::index::SegmentCatalog;
use crate::types::stats::saturated;
use crate::types::toc::Toc;

verus! {

impl Memvid {
    /// Why bytes of the given length cannot be appended to the file, if
    /// they cannot: by a handle that is not writable; where the file would
    /// grow beyond the capacity of the ticket, or beyond what an offset can
    /// address.
    pub open spec fn append_refusal(&self, length: nat) -> Option<MemvidError> {
        if self.read_only {
            Some(MemvidError::ReadOnly)
        } else if self.over_capacity(length) {
            Some(
                MemvidError::CapacityExceeded {
                    limit: self.toc.ticket_ref.capacity_bytes,
                    requested: saturated(self.file_len as nat + length),
                },
            )
        } else if self.file_len + length > u64::MAX {
            Some(MemvidError::Invalid { field: InvalidField::OversizedPayload })
        } else {
            None
        }
    }

    /// Appends `bytes` to the file: they are to be written at its end, at the
    /// offset that comes back together with their checksum, and the file is
    /// that much longer. A refusal changes nothing, and nothing is to be
    /// written.
    pub fn append_payload(&mut self, bytes: &[u8]) -> (res: Result<(u64, u32), MemvidError>)
        requires
            old(self).wf(),
        ensures
            final(self).wf(),
            match old(self).append_refusal(bytes@.len()) {
                Some(e) => res == Err::<(u64, u32), MemvidError>(e) && *final(self) == *old(self),
                None => {
                    &&& res == Ok::<(u64, u32), MemvidError>((old(self).file_len, crc32(bytes@)))
                    &&& *final(self) == (Memvid {
                        file_len: (old(self).file_len + bytes@.len()) as u64,
                        dirty: true,
                        ..*old(self)
                    })
                },
            },
    {
        if self.read_only {
            return Err(MemvidError::ReadOnly);
        }
        let capacity = self.toc.ticket_ref.capacity_bytes;
        let projected = self.file_len.checked_add(bytes.len() as u64);
        if capacity > 0 {
            match projected {
                Some(size) => {
                    if size > capacity {
                        return Err(
                            MemvidError::CapacityExceeded { limit: capacity, requested: size },
                        );
                    }
                },
                None => {
                    return Err(
                        MemvidError::CapacityExceeded { limit: capacity, requested: u64::MAX },
                    );
                },
            }
        }
        let new_len = match projected {
            Some(size) => size,
            None => {
                return Err(MemvidError::Invalid { field: InvalidField::OversizedPayload });
            },
        };
        let offset = self.file_len;
        self.file_len = new_len;
        self.dirty = true;
        proof {
            let frames = self.toc.frames@;
            assert forall|i: int| 0 <= i < frames.len() implies (#[trigger] frames[i]).end()
                <= new_len by {
                assert(old(self).toc.frames@[i].end() <= old(self).file_len);
            }
        }
        Ok((offset, checksum(bytes)))
    }

    /// The primary indexes after the one of `kind` was replaced.
    pub open spec fn with_primary(
        indexes: IndexManifests,
        kind: IndexKind,
        index: IndexDescriptor,
    ) -> IndexManifests {
        match kind {
            IndexKind::Lex => IndexManifests { lex: Some(index), ..indexes },
            IndexKind::Vec => IndexManifests { vec: Some(index), ..indexes },
            IndexKind::Clip => IndexManifests { clip: Some(index), ..indexes },
            IndexKind::Time => IndexManifests { time: Some(index), ..indexes },
        }
    }

    /// Registers `bytes` as the primary index of `kind`, with the number of
    /// vectors or images in it. The bytes are to be written at the end of
    /// the file, at the offset that comes back, and the table of contents in
    /// memory records them in place of any primary index of that kind;
    /// bytes of that one stay in the file unreferenced. A refusal changes
    /// nothing.
    pub fn register_primary_index(&mut self, kind: IndexKind, bytes: &[u8], count: u64) -> (res:
        Result<u64, MemvidError>)
        requires
            old(self).wf(),
        ensures
            final(self).wf(),
            match old(self).append_refusal(bytes@.len()) {
                Some(e) => res == Err::<u64, MemvidError>(e) && *final(self) == *old(self),
                None => {
                    &&& res == Ok::<u64, MemvidError>(old(self).file_len)
                    &&& *final(self) == (Memvid {
                        toc: Toc {
                            indexes: Self::with_primary(
                                old(self).toc.indexes,
                                kind,
                                IndexDescriptor {
                                    offset: old(self).file_len,
                                    length: bytes@.len() as u64,
                                    count,
                                },
                            ),
                            ..old(self).toc
                        },
                        file_len: (old(self).file_len + bytes@.len()) as u64,
                        dirty: true,
                        ..*old(self)
                    })
                },
            },
    {
        let offset = match self.append_payload(bytes) {
            Ok((offset, _)) => offset,
            Err(e) => {
                return Err(e);
            },
        };
        let index = IndexDescriptor { offset, length: bytes.len() as u64, count };
        match kind {
            IndexKind::Lex => {
                self.toc.indexes.lex = Some(index);
            },
            IndexKind::Vec => {
                self.toc.indexes.vec = Some(index);
            },
            IndexKind::Clip => {
                self.toc.indexes.clip = Some(index);
            },
            IndexKind::Time => {
                self.toc.indexes.time = Some(index);
            },
        }
        Ok(offset)
    }

    /// Why a segment of `kind` with bytes of the given length is refused,
    /// if it is: a kind without segments is invalid; else as for any bytes
    /// that are appended.
    pub open spec fn segment_refusal(&self, kind: IndexKind, length: nat) -> Option<MemvidError> {
        if kind == IndexKind::Clip {
            Some(MemvidError::Invalid { field: InvalidField::SegmentKind })
        } else {
            self.append_refusal(length)
        }
    }

    /// The segments of `kind` in a catalog; none for a kind without
    /// segments.
    pub open spec fn segments_of(catalog: SegmentCatalog, kind: IndexKind) -> Seq<
        IndexDescriptor,
    > {
        match kind {
            IndexKind::Lex => catalog.lex_segments@,
            IndexKind::Vec => catalog.vec_segments@,
            IndexKind::Time => catalog.time_segments@,
            IndexKind::Clip => Seq::empty(),
        }
    }

    /// Registers `bytes` as a further segment of the index of `kind`, which
    /// must be one of `Vec`, `Time` and `Lex`, with the number of vectors in
    /// it. The bytes are to be written at the end of the file, at the offset
    /// that comes back, and the table of contents in memory records the
    /// segment behind those of its kind; the segments of the other kinds,
    /// and the primary indexes, stay as they are. A refusal changes nothing.
    pub fn register_segment(&mut self, kind: IndexKind, bytes: &[u8], count: u64) -> (res: Result<
        u64,
        MemvidError,
    >)
        requires
            old(self).wf(),
        ensures
            final(self).wf(),
            match old(self).segment_refusal(kind, bytes@.len()) {
                Some(e) => res == Err::<u64, MemvidError>(e) && *final(self) == *old(self),
                None => {
                    &&& res == Ok::<u64, MemvidError>(old(self).file_len)
                    &&& Self::segments_of(final(self).toc.segment_catalog, kind)
                        == Self::segments_of(old(self).toc.segment_catalog, kind).push(
                        IndexDescriptor {
                            offset: old(self).file_len,
                            length: bytes@.len() as u64,
                            count,
                        },
                    )
                    &&& forall|other: IndexKind|
                        other != kind ==> #[trigger] Self::segments_of(
                            final(self).toc.segment_catalog,
                            other,
                        ) == Self::segments_of(old(self).toc.segment_catalog, other)
                    &&& final(self).file_len == old(self).file_len + bytes@.len()
                    &&& final(self).dirty
                    &&& final(self).header == old(self).header
                    &&& final(self).read_only == old(self).read_only
                    &&& final(self).wal_tail == old(self).wal_tail
                    &&& final(self).toc.frames == old(self).toc.frames
                    &&& final(self).toc.indexes == old(self).toc.indexes
                    &&& final(self).toc.ticket_ref == old(self).toc.ticket_ref
                    &&& final(self).toc.logic_mesh == old(self).toc.logic_mesh
                    &&& final(self).toc.toc_checksum == old(self).toc.toc_checksum
                },
            },
    {
        match kind {
            IndexKind::Clip => {
                return Err(MemvidError::Invalid { field: InvalidField::SegmentKind });
            },
            _ => {},
        }
        let offset = match self.append_payload(bytes) {
            Ok((offset, _)) => offset,
            Err(e) => {
                return Err(e);
            },
        };
        let segment = IndexDescriptor { offset, length: bytes.len() as u64, count };
        match kind {
            IndexKind::Lex => {
                self.toc.segment_catalog.lex_segments.push(segment);
            },
            IndexKind::Vec => {
                self.toc.segment_catalog.vec_segments.push(segment);
            },
            IndexKind::Time => {
                self.toc.segment_catalog.time_segments.push(segment);
            },
            IndexKind::Clip => {},
        }
        Ok(offset)
    }

    /// Whether the store has a lexical index: a primary one or a segment.
    pub fn has_lex_index(&self) -> (res: bool)
        ensures
            res == (self.toc.indexes.lex is Some || self.toc.segment_catalog.lex_segments@.len()
                > 0),
            res == self.stats_spec().has_lex_index,
    {
        self.toc.indexes.lex.is_some() || self.toc.segment_catalog.lex_segments.len() > 0
    }

    /// Whether the store has a vector index: a primary one or a segment.
    pub fn has_vec_index(&self) -> (res: bool)
        ensures
            res == (self.toc.indexes.vec is Some || self.toc.segment_catalog.vec_segments@.len()
                > 0),
            res == self.stats_spec().has_vec_index,
    {
        self.toc.indexes.vec.is_some() || self.toc.segment_catalog.vec_segments.len() > 0
    }

    /// Whether the store has an index of images. That kind has no segments.
    pub fn has_clip_index(&self) -> (res: bool)
        ensures
            res == self.toc.indexes.clip is Some,
            res == self.stats_spec().has_clip_index,
    {
        self.toc.indexes.clip.is_some()
    }

    /// Whether the store has a temporal index: a primary one or a segment.
    pub fn has_time_index(&self) -> (res: bool)
        ensures
            res == (self.toc.indexes.time is Some || self.toc.segment_catalog.time_segments@.len()
                > 0),
            res == self.stats_spec().has_time_index,
    {
        self.toc.indexes.time.is_some() || self.toc.segment_catalog.time_segments.len() > 0
    }
}

} // verus!
