use memvid_core::error::InvalidField;
use memvid_core::error::MemvidError;
use memvid_core::memvid::recovery::WalEntry;
use memvid_core::memvid::verify::VerifyReport;
use memvid_core::memvid::verify::VerifyStatus;
use memvid_core::memvid::Memvid;
use memvid_core::storage::footer::checksum;
use memvid_core::storage::footer::open_footer;
use memvid_core::storage::footer::seal_footer;
use memvid_core::storage::image::read_store;
use memvid_core::storage::wal::scan_log;
use memvid_core::storage::wal::scan_wal;
use memvid_core::storage::wal::wal_record;
use memvid_core::storage::wal::WalHeader;
use memvid_core::storage::HEADER_SIZE;
use memvid_core::types::Frame;
use memvid_core::types::FrameStatus;
use memvid_core::types::Header;
use memvid_core::types::IndexDescriptor;
use memvid_core::types::IndexKind;
use memvid_core::types::PutOptions;
use memvid_core::types::Ticket;
use memvid_core::types::Tier;
use memvid_core::types::Toc;

const WAL_SIZE: u64 = 4096;

/// A file in memory.
struct Disk {
    bytes: Vec<u8>,
}

impl Disk {
    fn new() -> Disk {
        Disk { bytes: Vec::new() }
    }

    fn write_at(&mut self, offset: u64, data: &[u8]) {
        let offset = offset as usize;
        if self.bytes.len() < offset + data.len() {
            self.bytes.resize(offset + data.len(), 0);
        }
        self.bytes[offset..offset + data.len()].copy_from_slice(data);
    }

    fn read(&self, offset: u64, length: u64) -> Option<&[u8]> {
        let end = offset.checked_add(length)?;
        self.bytes.get(offset as usize..end as usize)
    }

    fn header(&self) -> [u8; HEADER_SIZE] {
        self.bytes[..HEADER_SIZE].try_into().unwrap()
    }

    fn wal_region(&self) -> &[u8] {
        &self.bytes[HEADER_SIZE..HEADER_SIZE + WAL_SIZE as usize]
    }
}

/// Stands for the serialization of a table of contents: the tables are kept
/// by number, and the serialized form is the number.
struct Tables {
    tables: Vec<Toc>,
}

impl Tables {
    fn serialize(&mut self, toc: &Toc) -> Vec<u8> {
        self.tables.push(toc.clone());
        (self.tables.len() as u64 - 1).to_le_bytes().to_vec()
    }

    fn deserialize(&self, body: &[u8]) -> Toc {
        let number = u64::from_le_bytes(body.try_into().unwrap());
        self.tables[number as usize].clone()
    }
}

/// Stands for the serialization of a frame in a record of the log.
fn frame_record(frame: &Frame) -> Vec<u8> {
    let mut out = Vec::new();
    out.extend_from_slice(&frame.frame_id.to_le_bytes());
    out.extend_from_slice(&frame.offset.to_le_bytes());
    out.extend_from_slice(&frame.payload_length.to_le_bytes());
    out.extend_from_slice(&frame.checksum.to_le_bytes());
    out
}

fn frame_of_record(record: &[u8]) -> Frame {
    Frame {
        frame_id: u64::from_le_bytes(record[0..8].try_into().unwrap()),
        status: FrameStatus::Active,
        offset: u64::from_le_bytes(record[8..16].try_into().unwrap()),
        payload_length: u64::from_le_bytes(record[16..24].try_into().unwrap()),
        canonical_length: None,
        checksum: u32::from_le_bytes(record[24..28].try_into().unwrap()),
        metadata: PutOptions::default(),
    }
}

fn commit(mem: &mut Memvid, disk: &mut Disk, tables: &mut Tables) {
    let body = tables.serialize(&mem.toc);
    let plan = mem.commit(&body).expect("commit");
    disk.write_at(plan.footer.toc_offset, &plan.footer.footer);
    disk.write_at(0, &plan.footer.header);
    disk.write_at(HEADER_SIZE as u64, &plan.wal_header);
}

fn create(disk: &mut Disk, tables: &mut Tables) -> Memvid {
    let mut mem = Memvid::create(Tier::Free, WAL_SIZE).expect("create");
    disk.write_at(0, &vec![0u8; HEADER_SIZE + WAL_SIZE as usize]);
    commit(&mut mem, disk, tables);
    mem
}

fn put(mem: &mut Memvid, disk: &mut Disk, bytes: &[u8]) -> u64 {
    let id = mem.put_bytes(bytes).expect("put");
    let frame = mem.frame(id).expect("frame").clone();
    disk.write_at(frame.offset, bytes);
    let write = mem.wal_append(&frame_record(&frame)).expect("log");
    disk.write_at(write.offset, &write.record);
    disk.write_at(HEADER_SIZE as u64, &write.wal_header);
    id
}

/// Opens the store in `disk` and replays its log; says how many frames the
/// replay added.
fn open(disk: &Disk, tables: &Tables) -> (Memvid, usize) {
    let (header, body) = read_store(&disk.bytes).expect("read");
    let footer = disk.read(header.toc_offset, header.toc_length).expect("footer");
    let toc = tables.deserialize(body);
    let mut mem =
        Memvid::open(&disk.header(), footer, toc, disk.bytes.len() as u64, false).expect("open");
    let mut entries = Vec::new();
    for record in scan_wal(disk.wal_region()) {
        let frame = frame_of_record(&record);
        let found_checksum = disk.read(frame.offset, frame.payload_length).map(checksum);
        entries.push(Some(WalEntry { frame, found_checksum }));
    }
    let added = mem.replay(entries.clone());
    assert_eq!(mem.replay(entries), 0);
    (mem, added)
}

#[test]
fn create_and_commit_one_frame() {
    let mut disk = Disk::new();
    let mut tables = Tables { tables: Vec::new() };
    let mut mem = create(&mut disk, &mut tables);
    assert_eq!(put(&mut mem, &mut disk, b"hello"), 1);
    commit(&mut mem, &mut disk, &mut tables);
    assert_eq!(mem.file_len, disk.bytes.len() as u64);

    let (reopened, added) = open(&disk, &tables);
    assert_eq!(added, 0);
    let stats = reopened.stats();
    assert_eq!(stats.frame_count, 1);
    assert_eq!(stats.active_frame_count, 1);
    assert_eq!(stats.payload_bytes, 5);
    assert_eq!(stats.size_bytes, disk.bytes.len() as u64);
    assert_eq!(reopened.header, mem.header);
    assert_eq!(reopened.toc, mem.toc);
    let frame = reopened.frame(1).expect("frame");
    assert_eq!(disk.read(frame.offset, frame.payload_length), Some(&b"hello"[..]));
    assert_eq!(frame.checksum, checksum(b"hello"));
    assert_eq!(reopened.frame(2), Err(MemvidError::FrameNotFound { id: 2 }));
}

#[test]
fn reopened_checksum_is_that_of_the_table() {
    let mut disk = Disk::new();
    let mut tables = Tables { tables: Vec::new() };
    let mut mem = create(&mut disk, &mut tables);
    put(&mut mem, &mut disk, b"one");
    commit(&mut mem, &mut disk, &mut tables);
    put(&mut mem, &mut disk, b"two");
    put(&mut mem, &mut disk, b"three");
    commit(&mut mem, &mut disk, &mut tables);

    let (header, body) = read_store(&disk.bytes).expect("read");
    assert_eq!(header.toc_checksum, checksum(body));
    let (reopened, _) = open(&disk, &tables);
    assert_eq!(reopened.toc.toc_checksum, checksum(body));
    assert_eq!(reopened.header.toc_checksum, reopened.toc.toc_checksum);
    assert_eq!(reopened.header.generation, 3);
    assert_eq!(reopened.stats().frame_count, 3);
}

#[test]
fn frame_ids_increase_from_one() {
    let mut disk = Disk::new();
    let mut tables = Tables { tables: Vec::new() };
    let mut mem = create(&mut disk, &mut tables);
    let start = mem.file_len;
    assert_eq!(put(&mut mem, &mut disk, b"a"), 1);
    assert_eq!(put(&mut mem, &mut disk, b"bc"), 2);
    assert_eq!(put(&mut mem, &mut disk, b"def"), 3);
    assert_eq!(mem.frame(1).unwrap().offset, start);
    assert_eq!(mem.frame(2).unwrap().offset, start + 1);
    assert_eq!(mem.frame(3).unwrap().offset, start + 3);
    assert_eq!(mem.file_len, start + 6);
    assert!(mem.dirty);
    assert!(mem.is_well_formed());
}

#[test]
fn put_is_gated() {
    let mut disk = Disk::new();
    let mut tables = Tables { tables: Vec::new() };
    let mut mem = create(&mut disk, &mut tables);
    assert_eq!(
        mem.put_bytes(b""),
        Err(MemvidError::Invalid { field: InvalidField::EmptyPayload })
    );
    let size = mem.file_len;
    assert_eq!(mem.apply_ticket(Ticket::new("control", 1).capacity_bytes(size + 10)), Ok(()));
    let before = mem.toc.clone();
    assert_eq!(
        mem.put_bytes(&[7u8; 11]),
        Err(MemvidError::CapacityExceeded { limit: size + 10, requested: size + 11 })
    );
    assert_eq!(mem.toc, before);
    assert_eq!(mem.file_len, size);
    assert_eq!(mem.put_bytes(&[7u8; 10]), Ok(1));
    assert_eq!(mem.file_len, size + 10);
    // the file is full: the footer of a commit does not fit
    assert_eq!(
        mem.commit(b"table").map(|_| ()),
        Err(MemvidError::CapacityExceeded {
            limit: size + 10,
            requested: (size + 10 + 7) / 8 * 8 + 5 + 12
        })
    );
    mem.read_only = true;
    assert_eq!(mem.put_bytes(b"x"), Err(MemvidError::ReadOnly));
    assert_eq!(mem.commit(b"table").map(|_| ()), Err(MemvidError::ReadOnly));
    assert_eq!(mem.wal_append(b"record").map(|_| ()), Err(MemvidError::ReadOnly));
    assert_eq!(
        mem.register_primary_index(IndexKind::Lex, b"index", 0),
        Err(MemvidError::ReadOnly)
    );
}

#[test]
fn put_with_options_keeps_the_metadata() {
    let mut disk = Disk::new();
    let mut tables = Tables { tables: Vec::new() };
    let mut mem = create(&mut disk, &mut tables);
    let options = PutOptions {
        title: Some("doc".to_string()),
        labels: vec!["note".to_string()],
        ..Default::default()
    };
    let id = mem.put_bytes_with_options(b"hello", options.clone()).expect("put");
    assert_eq!(id, 1);
    let frame = mem.frame(1).unwrap();
    assert_eq!(frame.metadata, options);
    assert_eq!(frame.status, FrameStatus::Active);
    assert_eq!(frame.payload_length, 5);
    assert_eq!(frame.canonical_length, None);
    let id = mem.put_frame(&[1, 2, 3], Some(300), PutOptions::default()).expect("put");
    assert_eq!(id, 2);
    assert_eq!(mem.frame(2).unwrap().canonical_length, Some(300));
    let stats = mem.stats();
    assert_eq!(stats.payload_bytes, 8);
    assert_eq!(stats.logical_bytes, 305);
}

#[test]
fn crash_before_the_header_keeps_the_old_table() {
    let mut disk = Disk::new();
    let mut tables = Tables { tables: Vec::new() };
    let mut mem = create(&mut disk, &mut tables);
    for i in 0..10u8 {
        put(&mut mem, &mut disk, &[i; 100]);
    }
    // the commit gets as far as the footer
    let body = tables.serialize(&mem.toc);
    let plan = mem.commit(&body).expect("commit");
    disk.write_at(plan.footer.toc_offset, &plan.footer.footer);

    let (header, old_body) = read_store(&disk.bytes).expect("read");
    assert_eq!(header.generation, 1);
    assert_eq!(tables.deserialize(old_body).frames.len(), 0);

    let (mut recovered, added) = open(&disk, &tables);
    assert_eq!(added, 10);
    assert!(recovered.dirty);
    assert_eq!(recovered.stats().frame_count, 10);
    commit(&mut recovered, &mut disk, &mut tables);

    let (reopened, added) = open(&disk, &tables);
    assert_eq!(added, 0);
    let stats = reopened.stats();
    assert_eq!(stats.frame_count, 10);
    assert_eq!(stats.active_frame_count, 10);
    assert_eq!(stats.payload_bytes, 1000);
    for id in 1..=10u64 {
        let frame = reopened.frame(id).expect("frame");
        assert_eq!(disk.read(frame.offset, 100), Some(&[id as u8 - 1; 100][..]));
    }
    assert_eq!(reopened.verify(None).status, VerifyStatus::Healthy);
}

#[test]
fn crash_after_the_header_finds_the_new_table() {
    let mut disk = Disk::new();
    let mut tables = Tables { tables: Vec::new() };
    let mut mem = create(&mut disk, &mut tables);
    for i in 0..3u8 {
        put(&mut mem, &mut disk, &[i; 10]);
    }
    let body = tables.serialize(&mem.toc);
    let plan = mem.commit(&body).expect("commit");
    disk.write_at(plan.footer.toc_offset, &plan.footer.footer);
    disk.write_at(0, &plan.footer.header);
    // the log was not marked as empty: its records are passed over
    let (reopened, added) = open(&disk, &tables);
    assert_eq!(added, 0);
    assert_eq!(reopened.stats().frame_count, 3);
    assert_eq!(reopened.header.generation, 2);
}

#[test]
fn torn_record_ends_the_replay() {
    let mut disk = Disk::new();
    let mut tables = Tables { tables: Vec::new() };
    let mut mem = create(&mut disk, &mut tables);
    put(&mut mem, &mut disk, b"first");
    put(&mut mem, &mut disk, b"second");
    put(&mut mem, &mut disk, b"third");
    // the second payload never reached the file
    let second = mem.frame(2).unwrap().clone();
    disk.write_at(second.offset, &[0u8; 6]);
    let (recovered, added) = open(&disk, &tables);
    assert_eq!(added, 1);
    assert_eq!(recovered.stats().frame_count, 1);
    assert!(recovered.frame(1).is_ok());
    assert!(recovered.frame(3).is_err());
}

#[test]
fn log_records_are_framed_and_scanned() {
    let record = wal_record(b"abc");
    assert_eq!(record.len(), 11);
    assert_eq!(&record[0..4], &[3, 0, 0, 0]);
    assert_eq!(&record[4..8], &checksum(b"abc").to_le_bytes());
    assert_eq!(&record[8..], b"abc");

    let mut log = record.clone();
    log.extend_from_slice(&wal_record(b""));
    log.extend_from_slice(&wal_record(b"defgh"));
    assert_eq!(scan_log(&log), vec![b"abc".to_vec(), Vec::new(), b"defgh".to_vec()]);
    // a changed byte of a payload ends the scan before its record
    let mut changed = log.clone();
    let last = changed.len() - 1;
    changed[last] ^= 1;
    assert_eq!(scan_log(&changed), vec![b"abc".to_vec(), Vec::new()]);
    // so does a record that is cut short
    assert_eq!(scan_log(&log[..log.len() - 1]), vec![b"abc".to_vec(), Vec::new()]);
    assert_eq!(scan_log(&log[..5]), Vec::<Vec<u8>>::new());

    let header = WalHeader { head_offset: 16, tail_offset: 16 + 11, generation: 4 };
    let mut region = header.encode().to_vec();
    region.extend_from_slice(&log);
    assert_eq!(WalHeader::decode(&header.encode()), header);
    assert_eq!(scan_wal(&region), vec![b"abc".to_vec()]);
    let beyond = WalHeader { head_offset: 16, tail_offset: 5000, generation: 4 };
    region[..16].copy_from_slice(&beyond.encode());
    assert_eq!(scan_wal(&region), Vec::<Vec<u8>>::new());
    assert_eq!(scan_wal(&region[..7]), Vec::<Vec<u8>>::new());
}

#[test]
fn log_region_fills_up() {
    let mut mem = Memvid::create(Tier::Standard, 40).expect("create");
    let write = mem.wal_append(&[1u8; 10]).expect("record");
    assert_eq!(write.offset, HEADER_SIZE as u64 + 16);
    assert_eq!(write.record, wal_record(&[1u8; 10]));
    assert_eq!(
        WalHeader::decode(&write.wal_header),
        WalHeader { head_offset: 16, tail_offset: 34, generation: 0 }
    );
    assert_eq!(mem.wal_tail, 34);
    assert_eq!(
        mem.wal_append(&[1u8; 1]).map(|_| ()),
        Err(MemvidError::Invalid { field: InvalidField::WalRecord })
    );
    assert_eq!(mem.wal_tail, 34);
    // a commit empties the log
    let plan = mem.commit(b"table").expect("commit");
    assert_eq!(
        WalHeader::decode(&plan.wal_header),
        WalHeader { head_offset: 16, tail_offset: 16, generation: 1 }
    );
    assert_eq!(mem.wal_tail, 16);
    assert!(mem.wal_append(&[1u8; 16]).is_ok());
}

#[test]
fn create_checks_the_log_size() {
    assert_eq!(
        Memvid::create(Tier::Free, 15).map(|_| ()),
        Err(MemvidError::Invalid { field: InvalidField::WalSize })
    );
    assert_eq!(
        Memvid::create(Tier::Free, u32::MAX as u64 + 1).map(|_| ()),
        Err(MemvidError::Invalid { field: InvalidField::WalSize })
    );
    let mem = Memvid::create(Tier::Premium, 16).expect("create");
    assert_eq!(mem.file_len, 80);
    assert_eq!(mem.header.toc_offset, 80);
    assert_eq!(mem.tier(), Tier::Premium);
    assert!(mem.dirty);
    assert!(mem.is_well_formed());
}

#[test]
fn store_header_roundtrip() {
    let header = Header {
        version: 1,
        tier: Tier::Standard,
        wal_size: 0x0102_0304,
        toc_offset: 0x1122_3344_5566_7788,
        toc_length: 99,
        toc_checksum: 0xdead_beef,
        generation: 7,
    };
    let bytes = header.encode();
    assert_eq!(&bytes[0..4], b"MV2\0");
    assert_eq!(&bytes[4..6], &[1, 0]);
    assert_eq!(bytes[6], 1);
    assert_eq!(&bytes[7..15], &[4, 3, 2, 1, 0, 0, 0, 0]);
    assert_eq!(&bytes[15..23], &[0x88, 0x77, 0x66, 0x55, 0x44, 0x33, 0x22, 0x11]);
    assert_eq!(&bytes[23..31], &[99, 0, 0, 0, 0, 0, 0, 0]);
    assert_eq!(&bytes[31..35], &[0xef, 0xbe, 0xad, 0xde]);
    assert_eq!(&bytes[35..43], &[7, 0, 0, 0, 0, 0, 0, 0]);
    assert_eq!(&bytes[43..], &[0u8; 21]);
    assert_eq!(Header::decode(&bytes), Ok(header));

    let mut foreign = bytes;
    foreign[3] = b'E';
    assert_eq!(Header::decode(&foreign), Err(MemvidError::NotMv2File));
    let mut newer = bytes;
    newer[4] = 2;
    assert_eq!(Header::decode(&newer), Err(MemvidError::CorruptHeader));
    let mut tier = bytes;
    tier[6] = 3;
    assert_eq!(Header::decode(&tier), Err(MemvidError::CorruptHeader));
}

#[test]
fn footer_is_checked() {
    let footer = seal_footer(b"table");
    assert_eq!(footer.len(), 17);
    assert_eq!(&footer[0..8], &[5, 0, 0, 0, 0, 0, 0, 0]);
    assert_eq!(&footer[8..13], b"table");
    assert_eq!(&footer[13..], &checksum(b"table").to_le_bytes());
    assert_eq!(open_footer(&footer, checksum(b"table")), Ok(&b"table"[..]));
    assert_eq!(open_footer(&footer, checksum(b"table") ^ 1), Err(MemvidError::CorruptToc));
    for position in 0..footer.len() {
        let mut changed = footer.clone();
        changed[position] ^= 0x10;
        assert_eq!(open_footer(&changed, checksum(b"table")), Err(MemvidError::CorruptToc));
    }
    assert_eq!(open_footer(&footer[..11], checksum(b"table")), Err(MemvidError::CorruptToc));
    assert_eq!(checksum(b"123456789"), 0xcbf4_3926);
}

#[test]
fn open_refuses_damage() {
    let mut disk = Disk::new();
    let mut tables = Tables { tables: Vec::new() };
    let mut mem = create(&mut disk, &mut tables);
    put(&mut mem, &mut disk, b"hello");
    commit(&mut mem, &mut disk, &mut tables);
    let header = mem.header;
    let footer = disk.read(header.toc_offset, header.toc_length).unwrap().to_vec();
    let length = disk.bytes.len() as u64;

    let mut changed = footer.clone();
    changed[9] ^= 1;
    assert_eq!(
        Memvid::open(&disk.header(), &changed, mem.toc.clone(), length, false).map(|_| ()),
        Err(MemvidError::CorruptToc)
    );
    assert_eq!(
        Memvid::open(&disk.header(), &footer, mem.toc.clone(), length - 1, false).map(|_| ()),
        Err(MemvidError::CorruptHeader)
    );
    let mut foreign = disk.header();
    foreign[0] = b'X';
    assert_eq!(
        Memvid::open(&foreign, &footer, mem.toc.clone(), length, false).map(|_| ()),
        Err(MemvidError::NotMv2File)
    );
    // a table whose frame lies behind the footer
    let mut toc = mem.toc.clone();
    toc.frames[0].offset = header.toc_offset;
    assert_eq!(
        Memvid::open(&disk.header(), &footer, toc, length, false).map(|_| ()),
        Err(MemvidError::CorruptToc)
    );
    // a table with an id twice
    let mut toc = mem.toc.clone();
    let again = toc.frames[0].clone();
    toc.frames.push(again);
    assert_eq!(
        Memvid::open(&disk.header(), &footer, toc, length, false).map(|_| ()),
        Err(MemvidError::CorruptToc)
    );
    let mut short = disk.bytes.clone();
    short.truncate(length as usize - 1);
    assert_eq!(read_store(&short).map(|_| ()), Err(MemvidError::CorruptHeader));
    assert_eq!(read_store(&short[..10]).map(|_| ()), Err(MemvidError::NotMv2File));
    let reopened = Memvid::open(&disk.header(), &footer, mem.toc.clone(), length, true);
    assert!(reopened.expect("open").read_only);
}

#[test]
fn indexes_are_registered() {
    let mut disk = Disk::new();
    let mut tables = Tables { tables: Vec::new() };
    let mut mem = create(&mut disk, &mut tables);
    let start = mem.file_len;
    assert!(!mem.has_lex_index() && !mem.has_vec_index());
    assert!(!mem.has_clip_index() && !mem.has_time_index());
    assert_eq!(mem.register_primary_index(IndexKind::Lex, b"lexical", 0), Ok(start));
    assert_eq!(mem.register_primary_index(IndexKind::Clip, b"images", 3), Ok(start + 7));
    assert_eq!(mem.register_segment(IndexKind::Vec, b"vectors", 5), Ok(start + 13));
    assert_eq!(mem.register_segment(IndexKind::Vec, b"more", 2), Ok(start + 20));
    assert_eq!(mem.register_segment(IndexKind::Time, b"times", 0), Ok(start + 24));
    assert_eq!(
        mem.register_segment(IndexKind::Clip, b"images", 1),
        Err(MemvidError::Invalid { field: InvalidField::SegmentKind })
    );
    assert_eq!(mem.file_len, start + 29);
    assert!(mem.has_lex_index() && mem.has_vec_index());
    assert!(mem.has_clip_index() && mem.has_time_index());
    assert_eq!(
        mem.toc.indexes.lex,
        Some(IndexDescriptor { offset: start, length: 7, count: 0 })
    );
    assert_eq!(
        mem.toc.segment_catalog.vec_segments,
        vec![
            IndexDescriptor { offset: start + 13, length: 7, count: 5 },
            IndexDescriptor { offset: start + 20, length: 4, count: 2 },
        ]
    );
    // a new primary index replaces the old one
    assert_eq!(mem.register_primary_index(IndexKind::Lex, b"lex2", 0), Ok(start + 29));
    assert_eq!(
        mem.toc.indexes.lex,
        Some(IndexDescriptor { offset: start + 29, length: 4, count: 0 })
    );
    let stats = mem.stats();
    assert_eq!(stats.lex_index_bytes, 4);
    assert_eq!(stats.vec_index_bytes, 11);
    assert_eq!(stats.vector_count, 7);
    assert_eq!(stats.time_index_bytes, 5);
    assert_eq!(stats.clip_image_count, 3);
}

#[test]
fn verify_reports_each_check() {
    let mut disk = Disk::new();
    let mut tables = Tables { tables: Vec::new() };
    let mut mem = create(&mut disk, &mut tables);
    put(&mut mem, &mut disk, b"hello");
    put(&mut mem, &mut disk, b"world!");
    mem.register_segment(IndexKind::Lex, b"lexical", 0).unwrap();
    commit(&mut mem, &mut disk, &mut tables);

    let report = mem.verify(None);
    assert_eq!(report.status, VerifyStatus::Healthy);
    assert!(report.header_ok && report.toc_ok && report.payloads_ok);
    assert!(report.frames_disjoint && report.frames_before_toc);
    assert!(report.indexes_in_file && report.indexes_before_toc);

    let found = vec![Some(checksum(b"hello")), Some(checksum(b"world!"))];
    assert_eq!(mem.verify(Some(&found)).status, VerifyStatus::Healthy);
    let found = vec![Some(checksum(b"hello")), Some(checksum(b"world?"))];
    let report = mem.verify(Some(&found));
    assert_eq!(report.status, VerifyStatus::Corrupt);
    assert!(!report.payloads_ok);
    let found = vec![Some(checksum(b"hello")), None];
    assert!(!mem.verify(Some(&found)).payloads_ok);
    // a frame that is not active is not looked at
    let mut deleted = mem.toc.clone();
    deleted.frames[1].status = FrameStatus::Deleted;
    let other = Memvid { toc: deleted, ..copy_of(&mem) };
    assert_eq!(other.verify(Some(&found)).status, VerifyStatus::Healthy);

    let mut overlapping = copy_of(&mem);
    overlapping.toc.frames[1].offset -= 1;
    let report = overlapping.verify(None);
    assert_eq!(report.status, VerifyStatus::Corrupt);
    assert!(!report.frames_disjoint);

    let mut behind = copy_of(&mem);
    behind.toc.frames[1].offset = mem.header.toc_offset;
    let report = behind.verify(None);
    assert_eq!(report.status, VerifyStatus::Corrupt);
    assert!(report.frames_disjoint && !report.frames_before_toc);

    let mut lost_index = copy_of(&mem);
    lost_index.toc.segment_catalog.lex_segments[0].offset = mem.file_len;
    let report = lost_index.verify(None);
    assert_eq!(report.status, VerifyStatus::Degraded);
    assert!(!report.indexes_in_file && !report.indexes_before_toc);

    let mut stale = copy_of(&mem);
    stale.toc.toc_checksum ^= 1;
    let report = stale.verify(None);
    assert_eq!(report.status, VerifyStatus::Corrupt);
    assert!(!report.toc_ok);

    let mut cut = copy_of(&mem);
    cut.file_len = mem.header.toc_offset;
    let report = cut.verify(None);
    assert_eq!(report.status, VerifyStatus::Corrupt);
    assert!(!report.header_ok);
}

#[test]
fn file_that_does_not_open_is_corrupt() {
    let report = VerifyReport::unopened(MemvidError::CorruptToc);
    assert_eq!(report.status, VerifyStatus::Corrupt);
    assert!(report.header_ok && !report.toc_ok);
    let report = VerifyReport::unopened(MemvidError::CorruptHeader);
    assert_eq!(report.status, VerifyStatus::Corrupt);
    assert!(!report.header_ok && !report.toc_ok);
    assert!(!VerifyReport::unopened(MemvidError::NotMv2File).header_ok);
}

fn copy_of(mem: &Memvid) -> Memvid {
    Memvid {
        header: mem.header,
        toc: mem.toc.clone(),
        file_len: mem.file_len,
        read_only: mem.read_only,
        dirty: mem.dirty,
        wal_tail: mem.wal_tail,
    }
}

#[test]
fn ticket_is_persisted_by_a_new_footer() {
    let mut disk = Disk::new();
    let mut tables = Tables { tables: Vec::new() };
    let mut mem = create(&mut disk, &mut tables);
    assert_eq!(mem.apply_ticket(Ticket::new("control", 5).capacity_bytes(1 << 20)), Ok(()));
    assert!(mem.dirty);
    let body = tables.serialize(&mem.toc);
    let write = mem.rewrite_toc_footer(&body).expect("footer");
    disk.write_at(write.toc_offset, &write.footer);
    disk.write_at(0, &write.header);
    assert!(!mem.dirty);
    assert_eq!(write.toc_offset % 8, 0);

    let (reopened, _) = open(&disk, &tables);
    assert_eq!(reopened.current_ticket().seq_no, 5);
    assert_eq!(reopened.current_ticket().issuer, "control");
    assert_eq!(reopened.stats().seq_no, Some(5));
    assert_eq!(reopened.stats().capacity_bytes, 1 << 20);
    assert_eq!(reopened.header.generation, 2);
}

#[test]
fn record_without_a_frame_ends_the_replay() {
    let mut mem = Memvid::create(Tier::Free, WAL_SIZE).expect("create");
    let entry = |id: u64, offset: u64| {
        Some(WalEntry {
            frame: Frame {
                frame_id: id,
                status: FrameStatus::Active,
                payload_length: 4,
                canonical_length: None,
                offset,
                checksum: 9,
                metadata: PutOptions::default(),
            },
            found_checksum: Some(9),
        })
    };
    mem.file_len += 100;
    let start = mem.header.toc_offset;
    let entries = vec![entry(1, start), entry(2, start + 4), None, entry(3, start + 8)];
    assert_eq!(mem.replay(entries.clone()), 2);
    assert_eq!(mem.toc.frames.len(), 2);
    assert_eq!(mem.replay(entries), 0);
    // an id that is not above the greatest one is passed over, not an end
    let entries = vec![entry(2, start + 4), entry(1, start), entry(5, start + 8)];
    assert_eq!(mem.replay(entries), 1);
    assert_eq!(mem.frame(5).map(|frame| frame.offset), Ok(start + 8));
    // a payload beyond the end of the file, or with other bytes, is a torn write
    let beyond = vec![entry(6, mem.file_len - 3), entry(7, start + 12)];
    assert_eq!(mem.replay(beyond), 0);
    let mut other = entry(6, start + 12);
    other.as_mut().unwrap().found_checksum = Some(8);
    assert_eq!(mem.replay(vec![other, entry(7, start + 16)]), 0);
    let mut missing = entry(6, start + 12);
    missing.as_mut().unwrap().found_checksum = None;
    assert_eq!(mem.replay(vec![missing]), 0);
    assert!(mem.is_well_formed());
}

#[test]
fn put_meets_the_limits_of_the_format() {
    let mut mem = Memvid::create(Tier::Free, WAL_SIZE).expect("create");
    mem.file_len = u64::MAX - 2;
    assert_eq!(
        mem.put_bytes(b"abc"),
        Err(MemvidError::Invalid { field: InvalidField::OversizedPayload })
    );
    assert_eq!(
        mem.register_segment(IndexKind::Lex, b"abc", 0),
        Err(MemvidError::Invalid { field: InvalidField::OversizedPayload })
    );
    assert_eq!(
        mem.commit(b"").map(|_| ()),
        Err(MemvidError::Invalid { field: InvalidField::OversizedPayload })
    );
    assert_eq!(mem.apply_ticket(Ticket::new("control", 1).capacity_bytes(u64::MAX)), Ok(()));
    assert_eq!(
        mem.put_bytes(b"abc"),
        Err(MemvidError::CapacityExceeded { limit: u64::MAX, requested: u64::MAX })
    );
    assert_eq!(mem.put_bytes(b"ab"), Ok(1));

    let mut last = Memvid::create(Tier::Free, WAL_SIZE).expect("create");
    last.file_len += 1;
    let offset = last.header.toc_offset;
    last.toc.frames.push(Frame {
        frame_id: u64::MAX,
        status: FrameStatus::Active,
        payload_length: 1,
        canonical_length: None,
        offset,
        checksum: 0,
        metadata: PutOptions::default(),
    });
    assert!(last.is_well_formed());
    assert_eq!(
        last.put_bytes(b"abc"),
        Err(MemvidError::Invalid { field: InvalidField::FrameId })
    );
}

#[test]
fn appended_bytes_go_to_the_end_of_the_file() {
    let mut mem = Memvid::create(Tier::Free, WAL_SIZE).expect("create");
    let start = mem.file_len;
    assert_eq!(mem.append_payload(b"abc"), Ok((start, checksum(b"abc"))));
    assert_eq!(mem.append_payload(b""), Ok((start + 3, checksum(b""))));
    assert_eq!(mem.append_payload(b"de"), Ok((start + 3, checksum(b"de"))));
    assert_eq!(mem.file_len, start + 5);
    assert_eq!(mem.apply_ticket(Ticket::new("control", 1).capacity_bytes(start + 6)), Ok(()));
    assert_eq!(
        mem.append_payload(b"fg"),
        Err(MemvidError::CapacityExceeded { limit: start + 6, requested: start + 7 })
    );
    assert_eq!(mem.file_len, start + 5);
    assert_eq!(mem.append_payload(b"f"), Ok((start + 5, checksum(b"f"))));
}
