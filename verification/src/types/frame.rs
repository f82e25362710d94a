//! Frames: the stored payloads and what is recorded about them.

use vstd::prelude::*;

verus! {

/// Whether a frame still counts. Only active frames enter the statistics.
#[derive(Clone, Copy, Debug, PartialEq, Eq, Structural)]
pub enum FrameStatus {
    Active,
    Deleted,
    Tombstoned,
}

/// What the producer of a payload says about it.
#[derive(Clone, Debug, PartialEq, Eq)]
pub struct PutOptions {
    pub title: Option<String>,
    pub uri: Option<String>,
    pub labels: Vec<String>,
    pub tags: Vec<(String, String)>,
    pub kind: Option<String>,
    pub timestamp: Option<i64>,
}

impl Default for PutOptions {
    fn default() -> (res: Self)
        ensures
            res.title is None,
            res.uri is None,
            res.labels@.len() == 0,
            res.tags@.len() == 0,
            res.kind is None,
            res.timestamp is None,
    {
        PutOptions {
            title: None,
            uri: None,
            labels: Vec::new(),
            tags: Vec::new(),
            kind: None,
            timestamp: None,
        }
    }
}

/// One stored payload: where it lies in the file and how long it is.
#[derive(Clone, Debug, PartialEq, Eq)]
pub struct Frame {
    /// Unique within the file; issued strictly increasing.
    pub frame_id: u64,
    pub status: FrameStatus,
    /// Bytes stored in the file, possibly compressed.
    pub payload_length: u64,
    /// Bytes of the payload before compression; absent where nothing was
    /// compressed.
    pub canonical_length: Option<u64>,
    /// Where in the file the payload starts.
    pub offset: u64,
    /// CRC-32 of the stored bytes.
    pub checksum: u32,
    pub metadata: PutOptions,
}

impl Frame {
    /// Where the payload ends in the file.
    pub open spec fn end(self) -> int {
        self.offset + self.payload_length
    }

    /// Whether the frame counts towards statistics and search.
    pub open spec fn is_active(self) -> bool {
        self.status == FrameStatus::Active
    }

    /// The bytes that an active frame stands for before compression. A frame
    /// that stores nothing stands for nothing.
    pub open spec fn logical_length(self) -> nat {
        if self.payload_length > 0 {
            match self.canonical_length {
                Some(length) => length as nat,
                None => self.payload_length as nat,
            }
        } else {
            0
        }
    }
}

} // verus!

verus! {

/// How many of `frames` are active.
pub open spec fn active_count(frames: Seq<Frame>) -> nat
    decreases frames.len(),
{
    if frames.len() == 0 {
        0
    } else {
        active_count(frames.drop_last()) + if frames.last().is_active() {
            1nat
        } else {
            0nat
        }
    }
}

/// The bytes that the active ones of `frames` store in the file.
pub open spec fn stored_total(frames: Seq<Frame>) -> nat
    decreases frames.len(),
{
    if frames.len() == 0 {
        0
    } else {
        stored_total(frames.drop_last()) + if frames.last().is_active() {
            frames.last().payload_length as nat
        } else {
            0nat
        }
    }
}

/// The bytes that the active ones of `frames` stand for before compression.
pub open spec fn logical_total(frames: Seq<Frame>) -> nat
    decreases frames.len(),
{
    if frames.len() == 0 {
        0
    } else {
        logical_total(frames.drop_last()) + if frames.last().is_active() {
            frames.last().logical_length()
        } else {
            0nat
        }
    }
}

} // verus!
