//! Tests for the parser sources.

use fbxcel::pull_parser::reader::{ParserSource, PlainSource, PositionCacheReader, SeekableSource};
use fbxcel::stream::{IoError, MemoryReader};

fn prepare_iota() -> MemoryReader {
    let orig = (0..=255).collect::<Vec<u8>>();
    MemoryReader::new(orig)
}

fn check_read_with_offset(mut reader: PositionCacheReader, offset: usize) {
    const BUF_SIZE: usize = 128;

    let mut buf = [0; BUF_SIZE];
    let size = reader.read(&mut buf);

    assert!(size > 0, "Read from non-empty data should obtain some data");
    // "Offset" is for internal count, not for content to be read.
    // So here use `0..size`, not `OFFSET..(OFFSET+size)`.
    assert_eq!(
        &buf[..size],
        &(0..size as u8).into_iter().collect::<Vec<u8>>()[..],
        "Read should obtain correct data"
    );
    assert_eq!(
        reader.position(),
        offset + size,
        "Position should be correctly updated after a read"
    );
}

#[test]
fn position_cache_read() {
    let reader = PositionCacheReader::new(prepare_iota());
    assert_eq!(
        reader.position(),
        0,
        "`PositionCacheReader::new()` should return a reader with position 0"
    );
    check_read_with_offset(reader, 0);
}

#[test]
fn position_cache_read_with_offset() {
    const OFFSET: usize = 60;
    let reader = PositionCacheReader::with_offset(prepare_iota(), OFFSET);
    assert_eq!(
        reader.position(),
        OFFSET,
        "`PositionCacheReader::with_offset()` should return a reader with the given offset"
    );
    check_read_with_offset(reader, OFFSET)
}

#[test]
fn position_cache_skip_distance_and_into_inner() {
    let mut reader = PositionCacheReader::with_offset(prepare_iota(), 10);
    assert!(reader.skip_distance(100).is_ok());
    assert_eq!(reader.position(), 110);
    let mut buf = [0u8; 2];
    assert_eq!(reader.read(&mut buf), 2);
    assert_eq!(buf, [100, 101]);
    let inner = reader.into_inner();
    assert_eq!(inner.position(), 102);
}

#[test]
fn plain_source_skips_by_reading() {
    let mut source = PlainSource::with_offset(prepare_iota(), 5);
    assert_eq!(source.position(), 5);
    assert!(source.skip_to(15).is_ok());
    assert_eq!(source.position(), 15);
    let mut buf = [0u8; 1];
    assert_eq!(source.read(&mut buf), 1);
    assert_eq!(buf[0], 10);
    // Skipping past the end stops there.
    assert!(source.skip_distance(1000).is_ok());
    assert_eq!(source.position(), 256 + 5);
}

#[test]
fn seekable_source_seeks_past_the_end() {
    let mut source = SeekableSource::new(prepare_iota());
    assert!(source.skip_distance(300).is_ok());
    assert_eq!(source.position(), 300);
    let mut buf = [0u8; 4];
    assert_eq!(source.read(&mut buf), 0);
}

#[test]
fn memory_reader_read_exact_at_the_end() {
    let mut reader = MemoryReader::new(vec![1, 2, 3]);
    assert_eq!(reader.read_exact(2), Ok(vec![1, 2]));
    assert_eq!(reader.read_exact(2), Err(IoError::UnexpectedEof));
    assert_eq!(reader.remaining_len(), 0);
}
