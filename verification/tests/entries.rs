use tar_reader::entry::{Entry, EntryIterator, Phase, Step};
use tar_reader::error::TarError;
use tar_reader::header::Header;
use tar_reader::stream::ByteStream;

/// A header block with the given name and size field, a checksum field that
/// does not start with a zero byte, and the ustar signature.
fn header_block(name: &str, size_field: &[u8; 12]) -> [u8; 512] {
    let mut block = [0u8; 512];
    block[..name.len()].copy_from_slice(name.as_bytes());
    block[100..108].copy_from_slice(b"000644 \0");
    block[124..136].copy_from_slice(size_field);
    block[148..156].copy_from_slice(b"013414\0 ");
    block[156] = b'0';
    block[257..263].copy_from_slice(b"ustar\0");
    block
}

fn data_block(fill: u8) -> [u8; 512] {
    [fill; 512]
}

fn archive(blocks: &[[u8; 512]]) -> Vec<u8> {
    let mut bytes = Vec::new();
    for block in blocks {
        bytes.extend_from_slice(block);
    }
    bytes
}

/// Two files, of 1 byte and of 513 bytes, and two zero blocks: seven blocks.
fn simple_tar() -> Vec<u8> {
    archive(&[
        header_block("1", b"00000000001 "),
        data_block(b'a'),
        header_block("513", b"00000001001 "),
        data_block(b'b'),
        data_block(b'c'),
        [0u8; 512],
        [0u8; 512],
    ])
}

fn collect_entries(bytes: Vec<u8>) -> Vec<Result<Entry, TarError>> {
    let mut subject = EntryIterator::from_stream(ByteStream::new(bytes));
    let mut entries = Vec::new();
    while let Some(entry) = subject.next() {
        entries.push(entry);
    }
    entries
}

fn names(entries: &[Result<Entry, TarError>]) -> Vec<Result<String, TarError>> {
    entries.iter().map(|e| e.and_then(|entry| entry.header.name())).collect()
}

#[test]
fn test_entry_iterator() {
    let subject = collect_entries(simple_tar());
    let entries: Vec<Entry> = subject.into_iter().map(|e| e.unwrap()).collect();
    assert_eq!(3, entries.len());
    assert_eq!("1", entries[0].header.name().unwrap());
    assert_eq!("513", entries[1].header.name().unwrap());
    assert_eq!(true, entries[2].header.is_null());
}

#[test]
fn test_entries_carry_their_header_blocks() {
    let entries = collect_entries(simple_tar());
    assert_eq!(header_block("1", b"00000000001 "), entries[0].unwrap().header.block);
    assert_eq!(header_block("513", b"00000001001 "), entries[1].unwrap().header.block);
    assert_eq!(Ok(1), entries[0].unwrap().header.size());
    assert_eq!(Ok(513), entries[1].unwrap().header.size());
    assert!(entries[0].unwrap().header.has_magic());
}

#[test]
fn test_nothing_after_the_null_header() {
    // Behind the terminator stands a block that would make a fine entry.
    let bytes = archive(&[
        header_block("first", b"00000000000 "),
        [0u8; 512],
        header_block("late", b"00000000000 "),
    ]);
    let mut subject = EntryIterator::from_stream(ByteStream::new(bytes));
    assert_eq!("first", subject.next().unwrap().unwrap().header.name().unwrap());
    assert!(!subject.is_exhausted());
    assert!(subject.next().unwrap().unwrap().header.is_null());
    assert!(subject.is_exhausted());
    assert!(subject.next().is_none());
    assert!(subject.next().is_none());
    assert!(subject.is_exhausted());
}

#[test]
fn test_stream_without_terminator() {
    let bytes = archive(&[header_block("only", b"00000000002 "), data_block(1)]);
    let mut subject = EntryIterator::from_stream(ByteStream::new(bytes));
    assert_eq!("only", subject.next().unwrap().unwrap().header.name().unwrap());
    assert!(subject.next().is_none());
    assert!(!subject.is_exhausted());
    assert!(subject.next().is_none());
}

#[test]
fn test_empty_archive() {
    assert_eq!(0, collect_entries(Vec::new()).len());
}

#[test]
fn test_data_blocks_are_not_read_as_headers() {
    // The data of the first entry looks like a header and like a terminator.
    let bytes = archive(&[
        header_block("a", b"00000002000 "),
        header_block("decoy", b"00000000000 "),
        [0u8; 512],
        header_block("b", b"00000000000 "),
        [0u8; 512],
    ]);
    let entries = collect_entries(bytes);
    assert_eq!(3, entries.len());
    assert_eq!(
        vec![Ok(String::from("a")), Ok(String::from("b")), Ok(String::new())],
        names(&entries)
    );
    assert!(entries[2].unwrap().header.is_null());
}

#[test]
fn test_size_on_block_boundary() {
    // 512 bytes are one data block, 1024 are two.
    let bytes = archive(&[
        header_block("one", b"00000001000 "),
        data_block(1),
        header_block("two", b"00000002000 "),
        data_block(2),
        data_block(2),
        header_block("none", b"00000000000 "),
        [0u8; 512],
    ]);
    let entries = collect_entries(bytes);
    assert_eq!(
        vec![
            Ok(String::from("one")),
            Ok(String::from("two")),
            Ok(String::from("none")),
            Ok(String::new())
        ],
        names(&entries)
    );
}

#[test]
fn test_truncated_archive() {
    // The header declares 513 bytes, which are two blocks; one is there.
    let bytes = archive(&[header_block("cut", b"00000001001 "), data_block(9)]);
    let mut subject = EntryIterator::from_stream(ByteStream::new(bytes));
    assert_eq!(Some(TarError::TruncatedArchive), subject.next().map(|r| r.unwrap_err()));
    assert!(subject.is_exhausted());
    assert!(subject.next().is_none());
}

#[test]
fn test_truncated_archive_without_any_data() {
    let bytes = archive(&[header_block("cut", b"00000000001 ")]);
    let entries = collect_entries(bytes);
    assert_eq!(1, entries.len());
    assert_eq!(Some(TarError::TruncatedArchive), entries[0].err());
}

#[test]
fn test_short_block_among_the_data() {
    let mut bytes = archive(&[header_block("cut", b"00000002000 "), data_block(9)]);
    bytes.extend_from_slice(&[9u8; 17]);
    let mut subject = EntryIterator::from_stream(ByteStream::new(bytes));
    assert_eq!(Some(TarError::ShortBlock { got: 17 }), subject.next().map(|r| r.unwrap_err()));
    assert!(subject.is_exhausted());
    assert!(subject.next().is_none());
}

#[test]
fn test_short_block_where_a_header_is_due() {
    let mut bytes = archive(&[header_block("whole", b"00000000000 ")]);
    bytes.extend_from_slice(&[1u8; 300]);
    let mut subject = EntryIterator::from_stream(ByteStream::new(bytes));
    assert_eq!("whole", subject.next().unwrap().unwrap().header.name().unwrap());
    assert_eq!(Some(TarError::ShortBlock { got: 300 }), subject.next().map(|r| r.unwrap_err()));
    assert!(subject.is_exhausted());
    assert!(subject.next().is_none());
}

#[test]
fn test_invalid_size_does_not_end_the_iteration() {
    let bytes = archive(&[
        header_block("bad", b"0000000000z "),
        header_block("good", b"00000000001 "),
        data_block(5),
        [0u8; 512],
    ]);
    let mut subject = EntryIterator::from_stream(ByteStream::new(bytes));
    assert_eq!(
        Some(TarError::InvalidOctalDigit { byte: b'z' }),
        subject.next().map(|r| r.unwrap_err())
    );
    assert!(!subject.is_exhausted());
    assert_eq!("good", subject.next().unwrap().unwrap().header.name().unwrap());
    assert!(subject.next().unwrap().unwrap().header.is_null());
    assert!(subject.next().is_none());
}

#[test]
fn test_invalid_name_does_not_end_the_iteration() {
    let mut odd = header_block("", b"00000000000 ");
    odd[0] = 0xff;
    let bytes = archive(&[odd, header_block("fine", b"00000000000 "), [0u8; 512]]);
    let entries = collect_entries(bytes);
    assert_eq!(
        vec![Err(TarError::InvalidText), Ok(String::from("fine")), Ok(String::new())],
        names(&entries)
    );
}

#[test]
fn test_null_header_with_a_size() {
    // A terminator is told by byte 148 alone; its size field is not read.
    let mut block = header_block("ghost", b"00000001001 ");
    block[148] = 0;
    let bytes = archive(&[block, data_block(1)]);
    let mut subject = EntryIterator::from_stream(ByteStream::new(bytes));
    let entry = subject.next().unwrap().unwrap();
    assert!(entry.header.is_null());
    assert_eq!("ghost", entry.header.name().unwrap());
    assert!(subject.is_exhausted());
    assert!(subject.next().is_none());
}

#[test]
fn test_make_entry_passes_over_the_data() {
    let rest = archive(&[data_block(1), data_block(2), header_block("next", b"00000000000 ")]);
    let mut subject = EntryIterator::from_stream(ByteStream::new(rest));
    let entry = subject._make_entry(header_block("big", b"00000001001 ")).unwrap();
    assert_eq!("big", entry.header.name().unwrap());
    assert!(!subject.is_exhausted());
    assert_eq!("next", subject.next().unwrap().unwrap().header.name().unwrap());
}

#[test]
fn test_make_entry_on_null_header() {
    let rest = archive(&[header_block("next", b"00000000000 ")]);
    let mut subject = EntryIterator::from_stream(ByteStream::new(rest));
    let entry = subject._make_entry([0u8; 512]).unwrap();
    assert!(entry.header.is_null());
    assert!(subject.is_exhausted());
    assert!(subject.next().is_none());
}

#[test]
fn test_make_entry_on_truncated_data() {
    let mut subject = EntryIterator::from_stream(ByteStream::new(archive(&[data_block(1)])));
    assert_eq!(
        Some(TarError::TruncatedArchive),
        subject._make_entry(header_block("big", b"00000001001 ")).err()
    );
    assert!(subject.is_exhausted());
}

#[test]
fn test_make_entry_on_invalid_size() {
    let rest = archive(&[header_block("next", b"00000000000 ")]);
    let mut subject = EntryIterator::from_stream(ByteStream::new(rest));
    assert_eq!(
        Some(TarError::InvalidOctalDigit { byte: b' ' }),
        subject._make_entry(header_block("odd", b"       1001 ")).err()
    );
    assert!(!subject.is_exhausted());
    assert_eq!("next", subject.next().unwrap().unwrap().header.name().unwrap());
}

fn header_of(step: Step) -> Header {
    match step {
        Step::Yield(entry) => entry.header,
        other => panic!("no entry: {:?}", other),
    }
}

#[test]
fn test_phases_of_simple_tar() {
    let first = header_block("1", b"00000000001 ");
    let second = header_block("513", b"00000001001 ");

    let (phase, step) = Phase::Reading.advance(Some(Ok(first)));
    assert!(matches!(phase, Phase::Skipping { remaining: 1, .. }));
    assert!(step.needs_block());
    let (phase, step) = phase.advance(Some(Ok(data_block(b'a'))));
    assert!(matches!(phase, Phase::Reading));
    assert_eq!(first, header_of(step).block);

    let (phase, step) = phase.advance(Some(Ok(second)));
    assert!(matches!(phase, Phase::Skipping { remaining: 2, .. }));
    assert!(matches!(step, Step::More));
    let (phase, step) = phase.advance(Some(Ok(data_block(b'b'))));
    assert!(matches!(phase, Phase::Skipping { remaining: 1, .. }));
    assert!(matches!(step, Step::More));
    let (phase, step) = phase.advance(Some(Ok(data_block(b'c'))));
    assert!(matches!(phase, Phase::Reading));
    assert_eq!(second, header_of(step).block);

    let (phase, step) = phase.advance(Some(Ok([0u8; 512])));
    assert!(phase.is_exhausted());
    assert!(header_of(step).is_null());

    let (phase, step) = phase.advance(Some(Ok(first)));
    assert!(phase.is_exhausted());
    assert!(matches!(step, Step::End));
    let (phase, step) = phase.advance(None);
    assert!(phase.is_exhausted());
    assert!(matches!(step, Step::End));
}

#[test]
fn test_phase_reading_at_end_of_stream() {
    let (phase, step) = Phase::Reading.advance(None);
    assert!(matches!(phase, Phase::Reading));
    assert!(matches!(step, Step::End));
    assert!(!step.needs_block());
}

#[test]
fn test_phase_header_without_data() {
    let block = header_block("empty", b"00000000000 ");
    let (phase, step) = Phase::Reading.advance(Some(Ok(block)));
    assert!(matches!(phase, Phase::Reading));
    assert_eq!(block, header_of(step).block);
}

#[test]
fn test_phase_errors_of_the_block_reader() {
    let (phase, step) = Phase::Reading.advance(Some(Err(TarError::Stream)));
    assert!(phase.is_exhausted());
    assert!(matches!(step, Step::Fail(TarError::Stream)));

    let (phase, _) = Phase::Reading.advance(Some(Ok(header_block("x", b"00000002000 "))));
    let (phase, step) = phase.advance(Some(Err(TarError::ShortBlock { got: 5 })));
    assert!(phase.is_exhausted());
    assert!(matches!(step, Step::Fail(TarError::ShortBlock { got: 5 })));
}

#[test]
fn test_phase_end_of_stream_among_the_data() {
    let (phase, _) = Phase::Reading.advance(Some(Ok(header_block("x", b"00000002000 "))));
    let (phase, step) = phase.advance(None);
    assert!(phase.is_exhausted());
    assert!(matches!(step, Step::Fail(TarError::TruncatedArchive)));
}

#[test]
fn test_phase_invalid_size() {
    let (phase, step) = Phase::Reading.advance(Some(Ok(header_block("x", b"0000000000- "))));
    assert!(matches!(phase, Phase::Reading));
    assert!(matches!(step, Step::Fail(TarError::InvalidOctalDigit { byte: b'-' })));
}
