//! The fixed prefix of the store's file.

use vstd::prelude::*;

verus! {

/// The service tier that a store was created for.
#[derive(Clone, Copy, Debug, PartialEq, Eq, Structural)]
pub enum Tier {
    Free,
    Standard,
    Premium,
}

/// The header of the file. It is the only region that is written in place.
#[derive(Clone, Copy, Debug, PartialEq, Eq, Structural)]
pub struct Header {
    pub version: u16,
    pub tier: Tier,
    /// Size of the region reserved for the write-ahead log.
    pub wal_size: u64,
    /// Where the footer with the table of contents starts.
    pub toc_offset: u64,
    /// Length of that footer.
    pub toc_length: u64,
    /// CRC-32 of the serialized table of contents.
    pub toc_checksum: u32,
    /// Counts the commits and the applied tickets.
    pub generation: u64,
}

} // verus!
