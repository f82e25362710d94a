//! Where the serialized indexes lie in the file.

use vstd::prelude::*;

verus! {

/// The kinds of index that the store keeps bytes for.
#[derive(Clone, Copy, Debug, PartialEq, Eq, Structural)]
pub enum IndexKind {
    Lex,
    Vec,
    Clip,
    Time,
}

/// One serialized index, or one segment layered on top of it: a range of the
/// file and the number of vectors or images in it (zero where the kind counts
/// neither).
#[derive(Clone, Copy, Debug, PartialEq, Eq, Structural)]
pub struct IndexDescriptor {
    pub offset: u64,
    pub length: u64,
    pub count: u64,
}

impl IndexDescriptor {
    /// Where the index ends in the file.
    pub open spec fn end(self) -> int {
        self.offset + self.length
    }
}

/// The primary index of each kind, where there is one.
#[derive(Clone, Copy, Debug, PartialEq, Eq, Structural)]
pub struct IndexManifests {
    pub lex: Option<IndexDescriptor>,
    pub vec: Option<IndexDescriptor>,
    pub clip: Option<IndexDescriptor>,
    pub time: Option<IndexDescriptor>,
}

/// The segments added after the primary indexes, in the order of their
/// registration.
#[derive(Clone, Debug, PartialEq, Eq)]
pub struct SegmentCatalog {
    pub vec_segments: Vec<IndexDescriptor>,
    pub time_segments: Vec<IndexDescriptor>,
    pub lex_segments: Vec<IndexDescriptor>,
}

/// The sum of the lengths of `segments`.
pub open spec fn total_length(segments: Seq<IndexDescriptor>) -> nat
    decreases segments.len(),
{
    if segments.len() == 0 {
        0
    } else {
        total_length(segments.drop_last()) + segments.last().length as nat
    }
}

/// The sum of the counts of `segments`.
pub open spec fn total_count(segments: Seq<IndexDescriptor>) -> nat
    decreases segments.len(),
{
    if segments.len() == 0 {
        0
    } else {
        total_count(segments.drop_last()) + segments.last().count as nat
    }
}

/// The length of a primary index, zero where there is none.
pub open spec fn primary_length(primary: Option<IndexDescriptor>) -> nat {
    match primary {
        Some(index) => index.length as nat,
        None => 0,
    }
}

/// The count of a primary index, zero where there is none.
pub open spec fn primary_count(primary: Option<IndexDescriptor>) -> nat {
    match primary {
        Some(index) => index.count as nat,
        None => 0,
    }
}

} // verus!
