//! Errors that the store and the signature checks return.

use vstd::prelude::*;

verus! {

/// Why a detached signature, or the key it is checked with, was refused.
#[derive(Clone, Copy, Debug, PartialEq, Eq, Structural)]
pub enum SignatureFailure {
    /// The signature is not exactly 64 bytes long.
    SignatureLength,
    /// The signature does not belong to the payload under the given key.
    Mismatch,
    /// The public key is not valid base64.
    KeyEncoding,
    /// The decoded public key is not exactly 32 bytes long.
    KeyLength,
    /// The 32 bytes are not the encoding of a point of the curve.
    KeyInvalid,
}

/// Which input of a call was refused as invalid.
#[derive(Clone, Copy, Debug, PartialEq, Eq, Structural)]
pub enum InvalidField {
    /// The payload of a frame is empty.
    EmptyPayload,
    /// The payload or an index blob is too long to be recorded.
    OversizedPayload,
    /// An index kind has no segments.
    SegmentKind,
    /// The region of the write-ahead log cannot have the given size.
    WalSize,
    /// A record does not fit into what is left of the write-ahead log.
    WalRecord,
    /// No frame id is left to give.
    FrameId,
}

/// Errors of the store.
#[derive(Clone, Copy, Debug, PartialEq, Eq, Structural)]
pub enum MemvidError {
    /// The file does not begin with the store's magic bytes.
    NotMv2File,
    /// The header cannot be parsed.
    CorruptHeader,
    /// The table of contents is not the one whose checksum the header holds.
    CorruptToc,
    /// A write would take the file beyond the capacity of the ticket.
    CapacityExceeded { limit: u64, requested: u64 },
    /// A ticket does not come after the one applied last.
    TicketSequence { expected: i64, actual: i64 },
    /// A ticket's signature, or the key to check it with, was refused.
    TicketSignatureInvalid { reason: SignatureFailure },
    /// A model manifest's signature was refused.
    ModelSignatureInvalid { reason: SignatureFailure },
    /// A mutation was asked of a handle that is not writable.
    ReadOnly,
    /// No frame has the given id.
    FrameNotFound { id: u64 },
    /// An input was refused.
    Invalid { field: InvalidField },
}

} // verus!
