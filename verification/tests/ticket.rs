use memvid_core::error::MemvidError;
use memvid_core::memvid::Memvid;
use memvid_core::types::Frame;
use memvid_core::types::FrameStatus;
use memvid_core::types::Header;
use memvid_core::types::IndexDescriptor;
use memvid_core::types::IndexManifests;
use memvid_core::types::PutOptions;
use memvid_core::types::SegmentCatalog;
use memvid_core::types::Ticket;
use memvid_core::types::TicketRef;
use memvid_core::types::Tier;
use memvid_core::types::Toc;

fn empty_store(file_len: u64) -> Memvid {
    Memvid {
        header: Header {
            version: 1,
            tier: Tier::Free,
            wal_size: 4096,
            toc_offset: 64 + 4096,
            toc_length: 12,
            toc_checksum: 0,
            generation: 0,
        },
        toc: Toc {
            frames: Vec::new(),
            indexes: IndexManifests { lex: None, vec: None, clip: None, time: None },
            segment_catalog: SegmentCatalog {
                vec_segments: Vec::new(),
                time_segments: Vec::new(),
                lex_segments: Vec::new(),
            },
            ticket_ref: TicketRef::empty(),
            logic_mesh: None,
            toc_checksum: 0,
        },
        file_len,
        read_only: false,
        dirty: false,
        wal_tail: 16,
    }
}

fn frame(id: u64, status: FrameStatus, stored: u64, canonical: Option<u64>) -> Frame {
    Frame {
        frame_id: id,
        status,
        payload_length: stored,
        canonical_length: canonical,
        offset: 5000 + id * 1000,
        checksum: 0,
        metadata: PutOptions::default(),
    }
}

#[test]
fn ticket_builder_sets_fields() {
    let ticket = Ticket::new("issuer", 5);
    assert_eq!(ticket.issuer, "issuer");
    assert_eq!(ticket.seq_no, 5);
    assert_eq!(ticket.expires_in_secs, 0);
    assert_eq!(ticket.capacity_bytes, None);
    let ticket = ticket.expires_in_secs(60).capacity_bytes(42);
    assert_eq!(ticket.issuer, "issuer");
    assert_eq!(ticket.seq_no, 5);
    assert_eq!(ticket.expires_in_secs, 60);
    assert_eq!(ticket.capacity_bytes, Some(42));
}

#[test]
fn ticket_sequence_must_increase() {
    let mut mem = empty_store(5000);
    assert_eq!(mem.apply_ticket(Ticket::new("control", 5)), Ok(()));
    assert_eq!(mem.current_ticket().seq_no, 5);
    assert_eq!(
        mem.apply_ticket(Ticket::new("control", 5)),
        Err(MemvidError::TicketSequence { expected: 6, actual: 5 })
    );
    assert_eq!(mem.apply_ticket(Ticket::new("control", 6)), Ok(()));
    assert_eq!(mem.current_ticket().seq_no, 6);
}

#[test]
fn applied_ticket_is_recorded() {
    let mut mem = empty_store(5000);
    let ticket = Ticket::new("control", 3).expires_in_secs(90).capacity_bytes(1 << 20);
    assert_eq!(mem.apply_ticket(ticket), Ok(()));
    let current = mem.current_ticket();
    assert_eq!(current.issuer, "control");
    assert_eq!(current.seq_no, 3);
    assert_eq!(current.expires_in_secs, 90);
    assert_eq!(current.capacity_bytes, 1 << 20);
    assert_eq!(mem.header.generation, 1);
    assert!(mem.dirty);
    // a ticket without a capacity sets none
    assert_eq!(mem.apply_ticket(Ticket::new("other", 4)), Ok(()));
    let current = mem.current_ticket();
    assert_eq!(current.issuer, "other");
    assert_eq!(current.capacity_bytes, 0);
    assert_eq!(mem.header.generation, 2);
}

#[test]
fn rejected_ticket_changes_nothing() {
    let mut mem = empty_store(5000);
    assert_eq!(mem.apply_ticket(Ticket::new("control", 7).capacity_bytes(9000)), Ok(()));
    let generation = mem.header.generation;
    assert_eq!(
        mem.apply_ticket(Ticket::new("intruder", -1).capacity_bytes(1)),
        Err(MemvidError::TicketSequence { expected: 8, actual: -1 })
    );
    let current = mem.current_ticket();
    assert_eq!(current.issuer, "control");
    assert_eq!(current.seq_no, 7);
    assert_eq!(current.capacity_bytes, 9000);
    assert_eq!(mem.header.generation, generation);
}

#[test]
fn read_only_handle_takes_no_ticket() {
    let mut mem = empty_store(5000);
    mem.read_only = true;
    assert_eq!(mem.apply_ticket(Ticket::new("control", 1)), Err(MemvidError::ReadOnly));
    assert_eq!(mem.current_ticket().seq_no, 0);
    assert!(!mem.dirty);
}

#[test]
fn last_sequence_number_has_no_successor() {
    let mut mem = empty_store(5000);
    assert_eq!(mem.apply_ticket(Ticket::new("control", i64::MAX)), Ok(()));
    assert_eq!(
        mem.apply_ticket(Ticket::new("control", i64::MAX)),
        Err(MemvidError::TicketSequence { expected: i64::MAX, actual: i64::MAX })
    );
}

#[test]
fn generation_wraps() {
    let mut mem = empty_store(5000);
    mem.header.generation = u64::MAX;
    assert_eq!(mem.apply_ticket(Ticket::new("control", 1)), Ok(()));
    assert_eq!(mem.header.generation, 0);
}

#[test]
fn stats_of_an_empty_store() {
    let mem = empty_store(4172);
    let stats = mem.stats();
    assert_eq!(stats.frame_count, 0);
    assert_eq!(stats.active_frame_count, 0);
    assert_eq!(stats.size_bytes, 4172);
    assert_eq!(stats.payload_bytes, 0);
    assert_eq!(stats.logical_bytes, 0);
    assert_eq!(stats.saved_bytes, 0);
    assert_eq!(stats.compression_ratio_hundredths, 10000);
    assert_eq!(stats.savings_hundredths, 0);
    assert_eq!(stats.storage_utilisation_hundredths, 0);
    assert_eq!(stats.remaining_capacity_bytes, 0);
    assert_eq!(stats.average_frame_payload_bytes, 0);
    assert_eq!(stats.average_frame_logical_bytes, 0);
    assert_eq!(stats.wal_bytes, 4096);
    assert_eq!(stats.seq_no, None);
    assert_eq!(stats.tier, Tier::Free);
    assert!(!stats.has_lex_index);
    assert!(!stats.has_vec_index);
    assert!(!stats.has_clip_index);
    assert!(!stats.has_time_index);
    assert!(mem.logic_mesh_manifest().is_none());
}

#[test]
fn stats_count_active_frames_only() {
    let mut mem = empty_store(10_000);
    mem.toc.frames.push(frame(1, FrameStatus::Active, 300, Some(1000)));
    mem.toc.frames.push(frame(2, FrameStatus::Deleted, 500, Some(5000)));
    mem.toc.frames.push(frame(3, FrameStatus::Active, 200, None));
    mem.toc.frames.push(frame(4, FrameStatus::Tombstoned, 700, None));
    mem.toc.frames.push(frame(5, FrameStatus::Active, 0, Some(77)));
    let stats = mem.stats();
    assert_eq!(stats.frame_count, 5);
    assert_eq!(stats.active_frame_count, 3);
    assert_eq!(stats.payload_bytes, 500);
    assert_eq!(stats.logical_bytes, 1200);
    assert_eq!(stats.saved_bytes, 700);
    assert_eq!(stats.payload_bytes + stats.saved_bytes, stats.logical_bytes);
    // 500 / 1200 = 41.666.. %
    assert_eq!(stats.compression_ratio_hundredths, 4167);
    // 700 / 1200 = 58.333.. %
    assert_eq!(stats.savings_hundredths, 5833);
    assert_eq!(stats.average_frame_payload_bytes, 166);
    assert_eq!(stats.average_frame_logical_bytes, 400);
}

#[test]
fn stats_round_half_up() {
    let mut mem = empty_store(10_000);
    // 1 / 80000 = 0.00125 %: an eighth of a hundredth; 1 / 20000 = 0.005 %: half a hundredth
    mem.toc.frames.push(frame(1, FrameStatus::Active, 1, Some(20_000)));
    let stats = mem.stats();
    assert_eq!(stats.compression_ratio_hundredths, 1);
    mem.toc.frames[0].canonical_length = Some(80_000);
    assert_eq!(mem.stats().compression_ratio_hundredths, 0);
}

#[test]
fn stats_saturate_where_stored_exceeds_logical() {
    let mut mem = empty_store(10_000);
    mem.toc.frames.push(frame(1, FrameStatus::Active, 10, Some(5)));
    let stats = mem.stats();
    assert_eq!(stats.payload_bytes, 10);
    assert_eq!(stats.logical_bytes, 5);
    assert_eq!(stats.saved_bytes, 0);
    assert_eq!(stats.compression_ratio_hundredths, 20000);
    assert_eq!(stats.savings_hundredths, 0);
    mem.toc.frames.push(frame(2, FrameStatus::Active, u64::MAX, None));
    let stats = mem.stats();
    assert_eq!(stats.payload_bytes, u64::MAX);
    assert_eq!(stats.logical_bytes, u64::MAX);
}

#[test]
fn stats_report_capacity_and_indexes() {
    let mut mem = empty_store(2500);
    assert_eq!(mem.apply_ticket(Ticket::new("control", 9).capacity_bytes(10_000)), Ok(()));
    mem.toc.indexes.lex = Some(IndexDescriptor { offset: 100, length: 40, count: 0 });
    mem.toc.segment_catalog.lex_segments.push(IndexDescriptor { offset: 200, length: 2, count: 0 });
    mem.toc.segment_catalog.vec_segments.push(IndexDescriptor { offset: 300, length: 64, count: 4 });
    mem.toc.segment_catalog.vec_segments.push(IndexDescriptor { offset: 400, length: 32, count: 2 });
    mem.toc.indexes.clip = Some(IndexDescriptor { offset: 500, length: 10, count: 3 });
    let stats = mem.stats();
    assert_eq!(stats.seq_no, Some(9));
    assert_eq!(stats.capacity_bytes, 10_000);
    assert_eq!(stats.remaining_capacity_bytes, 7500);
    assert_eq!(stats.storage_utilisation_hundredths, 2500);
    assert_eq!(stats.lex_index_bytes, 42);
    assert_eq!(stats.vec_index_bytes, 96);
    assert_eq!(stats.vector_count, 6);
    assert_eq!(stats.time_index_bytes, 0);
    assert_eq!(stats.clip_image_count, 3);
    assert!(stats.has_lex_index);
    assert!(stats.has_vec_index);
    assert!(stats.has_clip_index);
    assert!(!stats.has_time_index);
}
