//! Plain data carried by the store.

pub mod frame;
pub mod header;
pub mod index;
pub mod stats;
pub mod ticket;
pub mod toc;

pub use frame::Frame;
pub use frame::FrameStatus;
pub use frame::PutOptions;
pub use header::Header;
pub use header::Tier;
pub use index::IndexDescriptor;
pub use index::IndexKind;
pub use index::IndexManifests;
pub use index::SegmentCatalog;
pub use stats::Stats;
pub use ticket::Ticket;
pub use ticket::TicketRef;
pub use toc::LogicMeshManifest;
pub use toc::Toc;
