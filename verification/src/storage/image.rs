//! The file as a whole: what opening finds in it, and which writes leave
//! that unchanged. This is what makes a commit safe against a crash.

use vstd::prelude::*;
use crate::bytes::array_from_slice;
use crate::error::MemvidError;
use crate::storage::footer::crc32;
use crate::storage::footer::footer_body;
use crate::storage::footer::footer_bytes;
use crate::storage::footer::lemma_footer_len;
use crate::storage::footer::lemma_footer_round_trip;
use crate::storage::footer::open_footer;
use crate::storage::header::lemma_header_round_trip;
use crate::storage::header::lemma_store_header_fields;
use crate::storage::header::parsed_header;
use crate::storage::header::store_header_bytes;
use crate::storage::header::FORMAT_VERSION;
use crate::storage::header::HEADER_SIZE;
use crate::storage::wal::WAL_HEADER_SIZE;
use crate::types::header::Header;

verus! {

/// The file after `bytes` were written at `offset`. A write that ends
/// behind the end of the file makes the file longer; a gap between the old
/// end and the write reads as zeros.
pub open spec fn written(file: Seq<u8>, offset: nat, bytes: Seq<u8>) -> Seq<u8> {
    let end = if file.len() >= offset + bytes.len() {
        file.len()
    } else {
        offset + bytes.len()
    };
    Seq::new(
        end,
        |i: int|
            if offset <= i < offset + bytes.len() {
                bytes[i - offset]
            } else if i < file.len() {
                file[i]
            } else {
                0u8
            },
    )
}

/// Whether a header describes a layout that fits a file of `file_len`
/// bytes: the log region holds its own header and is addressable with 32
/// bits, and the footer lies behind the region and within the file.
pub open spec fn layout_fits(header: Header, file_len: nat) -> bool {
    &&& WAL_HEADER_SIZE <= header.wal_size <= u32::MAX
    &&& HEADER_SIZE + header.wal_size <= header.toc_offset
    &&& header.toc_offset + header.toc_length <= file_len
}

/// What opening finds in a file: the header, and the serialized table of
/// contents in the footer that the header points to.
pub open spec fn committed(file: Seq<u8>) -> Result<(Header, Seq<u8>), MemvidError> {
    if file.len() < 64 {
        Err(MemvidError::NotMv2File)
    } else {
        match parsed_header(file.take(64)) {
            Err(e) => Err(e),
            Ok(header) => if !layout_fits(header, file.len()) {
                Err(MemvidError::CorruptHeader)
            } else {
                match footer_body(
                    file.subrange(
                        header.toc_offset as int,
                        header.toc_offset + header.toc_length,
                    ),
                    header.toc_checksum,
                ) {
                    Err(e) => Err(e),
                    Ok(body) => Ok((header, body)),
                }
            },
        }
    }
}

/// In a file that opens, the checksum in the header is the CRC-32 of the
/// serialized table of contents in the footer.
pub proof fn lemma_committed_checksum(file: Seq<u8>)
    requires
        committed(file) is Ok,
    ensures
        committed(file)->Ok_0.0.toc_checksum == crc32(committed(file)->Ok_0.1),
{
}

/// A write that begins at or behind the end of the footer in force leaves
/// what opening finds unchanged, whatever is written: a payload, an index,
/// the footer of the next commit, or only a part of any of them.
pub proof fn lemma_write_behind_footer(file: Seq<u8>, offset: nat, bytes: Seq<u8>)
    requires
        committed(file) is Ok,
        offset >= committed(file)->Ok_0.0.toc_offset + committed(file)->Ok_0.0.toc_length,
    ensures
        committed(written(file, offset, bytes)) == committed(file),
{
    let header = committed(file)->Ok_0.0;
    let after = written(file, offset, bytes);
    assert(after.take(64) =~= file.take(64));
    assert(after.subrange(header.toc_offset as int, header.toc_offset + header.toc_length)
        =~= file.subrange(header.toc_offset as int, header.toc_offset + header.toc_length));
}

/// A write inside the region of the log leaves what opening finds
/// unchanged: a record, or the header of the region.
pub proof fn lemma_write_in_log(file: Seq<u8>, offset: nat, bytes: Seq<u8>)
    requires
        committed(file) is Ok,
        HEADER_SIZE <= offset,
        offset + bytes.len() <= HEADER_SIZE + committed(file)->Ok_0.0.wal_size,
    ensures
        committed(written(file, offset, bytes)) == committed(file),
{
    let header = committed(file)->Ok_0.0;
    let after = written(file, offset, bytes);
    assert(after.len() == file.len());
    assert(after.take(64) =~= file.take(64));
    assert(after.subrange(header.toc_offset as int, header.toc_offset + header.toc_length)
        =~= file.subrange(header.toc_offset as int, header.toc_offset + header.toc_length));
}

/// Once the footer of a table lies in the file, behind the header and the
/// region of the log, writing the header that points to it makes opening
/// find that table.
pub proof fn lemma_header_switch(file: Seq<u8>, header: Header, body: Seq<u8>)
    requires
        file.len() >= 64,
        header.version == FORMAT_VERSION,
        layout_fits(header, file.len()),
        header.toc_length == body.len() + 12,
        header.toc_checksum == crc32(body),
        file.subrange(header.toc_offset as int, header.toc_offset + header.toc_length)
            == footer_bytes(body),
    ensures
        committed(written(file, 0, store_header_bytes(header))) == Ok::<
            (Header, Seq<u8>),
            MemvidError,
        >((header, body)),
{
    let after = written(file, 0, store_header_bytes(header));
    lemma_store_header_fields(header);
    lemma_header_round_trip(header);
    lemma_footer_round_trip(body, header.toc_checksum);
    assert(after.len() == file.len());
    assert(after.take(64) =~= store_header_bytes(header));
    assert(after.subrange(header.toc_offset as int, header.toc_offset + header.toc_length)
        =~= file.subrange(header.toc_offset as int, header.toc_offset + header.toc_length));
}

/// Whatever a file held before: once the footer of a table and then the
/// header that points to it were written, opening finds that header and
/// that table, and the checksum in the header is that of the table.
pub proof fn lemma_commit_reopens(file: Seq<u8>, header: Header, body: Seq<u8>)
    requires
        header.version == FORMAT_VERSION,
        WAL_HEADER_SIZE <= header.wal_size <= u32::MAX,
        HEADER_SIZE + header.wal_size <= header.toc_offset,
        header.toc_length == body.len() + 12,
        header.toc_checksum == crc32(body),
    ensures
        committed(
            written(
                written(file, header.toc_offset as nat, footer_bytes(body)),
                0,
                store_header_bytes(header),
            ),
        ) == Ok::<(Header, Seq<u8>), MemvidError>((header, body)),
{
    let footer = footer_bytes(body);
    lemma_footer_len(body);
    let with_footer = written(file, header.toc_offset as nat, footer);
    assert(with_footer.subrange(header.toc_offset as int, header.toc_offset + header.toc_length)
        =~= footer);
    lemma_header_switch(with_footer, header, body);
}

/// A commit is atomic. Take a file that opens, the footer of a new table
/// placed at or behind the end of the footer in force, and the header that
/// points to the new footer. Then after the footer was written, whole or in
/// part, opening still finds the table of the commit before; after the
/// header was written, it finds the new table; and marking the log as empty
/// changes nothing of that. The header is taken to be written in one piece.
pub proof fn lemma_commit_atomic(
    file: Seq<u8>,
    header: Header,
    body: Seq<u8>,
    part: nat,
    wal_header: Seq<u8>,
)
    requires
        committed(file) is Ok,
        header.version == FORMAT_VERSION,
        WAL_HEADER_SIZE <= header.wal_size <= u32::MAX,
        HEADER_SIZE + header.wal_size <= header.toc_offset,
        header.toc_offset >= committed(file)->Ok_0.0.toc_offset + committed(
            file,
        )->Ok_0.0.toc_length,
        header.toc_length == body.len() + 12,
        header.toc_checksum == crc32(body),
        part <= body.len() + 12,
        wal_header.len() == WAL_HEADER_SIZE,
    ensures
        committed(
            written(file, header.toc_offset as nat, footer_bytes(body).take(part as int)),
        ) == committed(file),
        committed(written(file, header.toc_offset as nat, footer_bytes(body))) == committed(file),
        committed(
            written(
                written(file, header.toc_offset as nat, footer_bytes(body)),
                0,
                store_header_bytes(header),
            ),
        ) == Ok::<(Header, Seq<u8>), MemvidError>((header, body)),
        committed(
            written(
                written(
                    written(file, header.toc_offset as nat, footer_bytes(body)),
                    0,
                    store_header_bytes(header),
                ),
                HEADER_SIZE as nat,
                wal_header,
            ),
        ) == Ok::<(Header, Seq<u8>), MemvidError>((header, body)),
{
    let footer = footer_bytes(body);
    lemma_footer_len(body);
    lemma_write_behind_footer(file, header.toc_offset as nat, footer.take(part as int));
    lemma_write_behind_footer(file, header.toc_offset as nat, footer);
    let with_footer = written(file, header.toc_offset as nat, footer);
    lemma_commit_reopens(file, header, body);
    let switched = written(with_footer, 0, store_header_bytes(header));
    lemma_write_in_log(switched, HEADER_SIZE as nat, wal_header);
}

/// What opening finds in a file that is in memory as a whole: the header
/// and the serialized table of contents.
pub fn read_store(file: &[u8]) -> (res: Result<(Header, &[u8]), MemvidError>)
    ensures
        match res {
            Ok((header, body)) => committed(file@) == Ok::<(Header, Seq<u8>), MemvidError>(
                (header, body@),
            ),
            Err(e) => committed(file@) == Err::<(Header, Seq<u8>), MemvidError>(e),
        },
{
    if file.len() < HEADER_SIZE {
        return Err(MemvidError::NotMv2File);
    }
    let header_bytes = array_from_slice::<HEADER_SIZE>(
        vstd::slice::slice_subrange(file, 0, HEADER_SIZE),
    );
    proof {
        assert(file@.take(64) =~= header_bytes@);
    }
    let header = match Header::decode(&header_bytes) {
        Ok(header) => header,
        Err(e) => {
            return Err(e);
        },
    };
    let length = file.len() as u64;
    if header.wal_size < WAL_HEADER_SIZE as u64 || header.wal_size > u32::MAX as u64
        || HEADER_SIZE as u64 + header.wal_size > header.toc_offset || header.toc_offset > length
        || header.toc_length > length - header.toc_offset {
        return Err(MemvidError::CorruptHeader);
    }
    let footer = vstd::slice::slice_subrange(
        file,
        header.toc_offset as usize,
        (header.toc_offset + header.toc_length) as usize,
    );
    match open_footer(footer, header.toc_checksum) {
        Ok(body) => Ok((header, body)),
        Err(e) => Err(e),
    }
}

} // verus!
