//! The table of contents that the footer of the file holds.

use vstd::prelude::*;
use crate::types::frame::Frame;
use crate::types::index::IndexManifests;
use crate::types::index::SegmentCatalog;
use crate::types::ticket::TicketRef;

verus! {

/// An opaque manifest that the store carries for the logic mesh.
#[derive(Clone, Debug, PartialEq, Eq)]
pub struct LogicMeshManifest {
    pub bytes: Vec<u8>,
}

/// The table of contents: the frames in the order of their insertion, the
/// indexes, and the state of the ticket applied last.
#[derive(Clone, Debug, PartialEq, Eq)]
pub struct Toc {
    pub frames: Vec<Frame>,
    pub indexes: IndexManifests,
    pub segment_catalog: SegmentCatalog,
    pub ticket_ref: TicketRef,
    pub logic_mesh: Option<LogicMeshManifest>,
    /// CRC-32 of the serialized table as it was last written.
    pub toc_checksum: u32,
}

} // verus!
