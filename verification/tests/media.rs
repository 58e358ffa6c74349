use lan_relay::content_type::{content_type_or_unknown, get_content_type};
use lan_relay::media::{
    content_range_value, get_video, parse_range, resolve_range, AndroidUsbStorageFileStream,
    ByteRange, FileReaderStream, FileStream, LocalFileStream, RangeError, ReadOutcome, StreamStep,
    CHUNK_SIZE,
};

#[test]
fn range_of_first_hundred_bytes() {
    let head = get_video("/media/clip.mp4", Some("bytes=0-99"), 1000).expect("a valid range");
    assert_eq!(head.status, 206);
    assert_eq!(head.content_range, "bytes 0-99/1000");
    assert_eq!(head.content_length, 1000);
    assert_eq!(head.content_type, "video/mp4");
    assert_eq!(head.start, 0);
}

#[test]
fn range_with_end_beyond_the_file_is_invalid() {
    assert_eq!(
        resolve_range(Some("bytes=990-1200"), 1000),
        Err(RangeError::InvalidRange)
    );
    assert!(matches!(
        get_video("a.mp4", Some("bytes=990-1200"), 1000),
        Err(RangeError::InvalidRange)
    ));
}

#[test]
fn range_with_start_behind_end_is_invalid() {
    assert_eq!(
        resolve_range(Some("bytes=500-100"), 1000),
        Err(RangeError::InvalidRange)
    );
}

#[test]
fn range_that_ends_at_the_length_is_invalid() {
    assert_eq!(resolve_range(Some("bytes=0-1000"), 1000), Err(RangeError::InvalidRange));
    assert_eq!(
        resolve_range(Some("bytes=0-999"), 1000),
        Ok(ByteRange { start: 0, end: 999 })
    );
}

#[test]
fn range_without_end_runs_to_the_last_byte() {
    assert_eq!(
        resolve_range(Some("bytes=200-"), 1000),
        Ok(ByteRange { start: 200, end: 999 })
    );
    assert_eq!(
        resolve_range(Some("bytes=200"), 1000),
        Ok(ByteRange { start: 200, end: 999 })
    );
    assert_eq!(
        resolve_range(Some("bytes=999-"), 1000),
        Ok(ByteRange { start: 999, end: 999 })
    );
    assert_eq!(resolve_range(Some("bytes=1000-"), 1000), Err(RangeError::InvalidRange));
}

#[test]
fn absent_header_serves_the_whole_file_as_partial_content() {
    let head = get_video("movie.mkv", None, 5).expect("the whole file");
    assert_eq!(head.status, 206);
    assert_eq!(head.content_range, "bytes 0-4/5");
    assert_eq!(head.content_length, 5);
    assert_eq!(head.content_type, "video/x-matroska");
    assert_eq!(head.start, 0);
}

#[test]
fn header_without_a_first_byte_counts_as_absent() {
    assert_eq!(
        resolve_range(Some("bytes=-500"), 1000),
        Ok(ByteRange { start: 0, end: 999 })
    );
    assert_eq!(
        resolve_range(Some("bytes=abc-5"), 1000),
        Ok(ByteRange { start: 0, end: 999 })
    );
    assert_eq!(resolve_range(Some(""), 1000), Ok(ByteRange { start: 0, end: 999 }));
}

#[test]
fn empty_file_has_no_valid_range() {
    assert_eq!(resolve_range(None, 0), Err(RangeError::InvalidRange));
    assert_eq!(resolve_range(Some("bytes=0-"), 0), Err(RangeError::InvalidRange));
    assert_eq!(resolve_range(Some("bytes=0-0"), 0), Err(RangeError::InvalidRange));
}

#[test]
fn parse_range_reads_both_fields() {
    assert_eq!(parse_range("bytes=0-99"), Some((0, Some(99))));
    assert_eq!(parse_range("bytes=12-"), Some((12, None)));
    assert_eq!(parse_range("bytes=12"), Some((12, None)));
    assert_eq!(parse_range("bytes=7-x"), Some((7, None)));
    assert_eq!(parse_range("bytes=1-2-3"), Some((1, Some(2))));
    assert_eq!(parse_range("bytes=+4-+9"), Some((4, Some(9))));
    assert_eq!(parse_range("bytes=007-010"), Some((7, Some(10))));
}

#[test]
fn parse_range_skips_units_and_outer_white_space() {
    assert_eq!(parse_range("bytes=bytes=3-4"), Some((3, Some(4))));
    assert_eq!(parse_range("bytes= 3-4 \t"), Some((3, Some(4))));
    assert_eq!(parse_range("3-4"), Some((3, Some(4))));
    assert_eq!(parse_range(" bytes=3-4"), None);
    assert_eq!(parse_range("bytes=3 -4"), None);
    assert_eq!(parse_range("bytes=3- 4"), Some((3, None)));
}

#[test]
fn parse_range_refuses_what_is_no_number() {
    assert_eq!(parse_range(""), None);
    assert_eq!(parse_range("bytes="), None);
    assert_eq!(parse_range("bytes=-5"), None);
    assert_eq!(parse_range("bytes=+-5"), None);
    assert_eq!(parse_range("bytes=1a-5"), None);
    assert_eq!(parse_range("Bytes=1-5"), None);
}

#[test]
fn parse_range_at_the_edge_of_64_bits() {
    assert_eq!(
        parse_range("bytes=18446744073709551615-"),
        Some((u64::MAX, None))
    );
    assert_eq!(parse_range("bytes=18446744073709551616-"), None);
    assert_eq!(
        parse_range("bytes=1-18446744073709551616"),
        Some((1, None))
    );
    assert_eq!(parse_range("bytes=99999999999999999999999-"), None);
}

#[test]
fn content_range_is_written_in_decimal() {
    assert_eq!(
        content_range_value(ByteRange { start: 0, end: 0 }, 1),
        "bytes 0-0/1"
    );
    assert_eq!(
        content_range_value(ByteRange { start: 1048576, end: 2097151 }, 10000000000),
        "bytes 1048576-2097151/10000000000"
    );
    assert_eq!(
        content_range_value(ByteRange { start: 0, end: u64::MAX - 1 }, u64::MAX),
        "bytes 0-18446744073709551614/18446744073709551615"
    );
}

#[test]
fn known_extensions_have_their_content_type() {
    let table = vec![
        ("index.html", "text/html"),
        ("s.css", "text/css"),
        ("a.js", "application/javascript"),
        ("a.json", "application/json"),
        ("p.jpg", "image/jpeg"),
        ("p.jpeg", "image/jpeg"),
        ("p.png", "image/png"),
        ("p.gif", "image/gif"),
        ("p.bmp", "image/bmp"),
        ("p.ico", "image/x-icon"),
        ("d.pdf", "application/pdf"),
        ("v.mp4", "video/mp4"),
        ("v.mov", "video/quicktime"),
        ("v.webm", "video/webm"),
        ("v.wmv", "video/x-ms-wmv"),
        ("v.mkv", "video/x-matroska"),
    ];
    for (path, expected) in table {
        assert_eq!(get_content_type(path), Some(expected));
    }
}

#[test]
fn extension_is_what_follows_the_last_dot() {
    assert_eq!(get_content_type("/a.b/c.tar.mp4"), Some("video/mp4"));
    assert_eq!(get_content_type("mp4"), Some("video/mp4"));
    assert_eq!(get_content_type(".png"), Some("image/png"));
    assert_eq!(get_content_type("a.mp4."), None);
    assert_eq!(get_content_type("a.mp4/b"), None);
    assert_eq!(get_content_type(""), None);
}

#[test]
fn extension_is_case_sensitive() {
    assert_eq!(get_content_type("a.MP4"), None);
    assert_eq!(get_content_type("a.Html"), None);
}

#[test]
fn unsupported_extension_still_has_a_content_type() {
    assert_eq!(get_content_type("notes.xyz"), None);
    assert_eq!(content_type_or_unknown("notes.xyz"), "err");
    let head = get_video("notes.xyz", None, 10).expect("the whole file");
    assert!(!head.content_type.is_empty());
    assert_eq!(head.content_type, "err");
    assert_eq!(content_type_or_unknown("clip.webm"), "video/webm");
}

#[test]
fn stream_hands_on_chunks_until_a_read_gives_nothing() {
    let mut stream = FileReaderStream::new(100);
    assert_eq!(
        stream.poll_next(ReadOutcome::Read(CHUNK_SIZE)),
        StreamStep::Chunk { offset: 100, len: CHUNK_SIZE }
    );
    assert_eq!(stream.position(), 100 + 1048576);
    assert_eq!(
        stream.poll_next(ReadOutcome::Read(17)),
        StreamStep::Chunk { offset: 100 + 1048576, len: 17 }
    );
    assert_eq!(stream.position(), 100 + 1048576 + 17);
    assert_eq!(stream.poll_next(ReadOutcome::Read(0)), StreamStep::Finished);
    assert_eq!(stream.position(), 100 + 1048576 + 17);
}

#[test]
fn stream_waits_on_interrupt_and_fails_on_error() {
    let mut stream = FileReaderStream::new(5);
    assert_eq!(stream.poll_next(ReadOutcome::Interrupted), StreamStep::Pending);
    assert_eq!(stream.position(), 5);
    assert_eq!(stream.poll_next(ReadOutcome::Failed), StreamStep::Failed);
    assert_eq!(stream.position(), 5);
}

#[test]
fn stream_fails_when_the_offset_would_overflow() {
    let mut stream = FileReaderStream::new(u64::MAX - 1);
    assert_eq!(stream.poll_next(ReadOutcome::Read(2)), StreamStep::Failed);
    assert_eq!(stream.position(), u64::MAX - 1);
    assert_eq!(
        stream.poll_next(ReadOutcome::Read(1)),
        StreamStep::Chunk { offset: u64::MAX - 1, len: 1 }
    );
    assert_eq!(stream.position(), u64::MAX);
}

#[test]
fn local_stream_knows_length_and_type() {
    let mut stream = LocalFileStream::new("/sdcard/a.mov", 10, 4000);
    assert_eq!(stream.get_file_length(), 4000);
    assert_eq!(stream.get_file_type(), "video/quicktime");
    assert_eq!(stream.position(), 10);
    assert_eq!(
        stream.poll_next(ReadOutcome::Read(90)),
        StreamStep::Chunk { offset: 10, len: 90 }
    );
    assert_eq!(stream.position(), 100);
    assert_eq!(stream.get_file_length(), 4000);
}

#[test]
fn usb_stream_knows_length_and_type_and_ends_at_once() {
    let stream = AndroidUsbStorageFileStream::new("/usb/a.bin", 3, 77);
    assert_eq!(stream.get_file_length(), 77);
    assert_eq!(stream.get_file_type(), "err");
    assert_eq!(stream.position(), 3);
    assert_eq!(stream.poll_next(), StreamStep::Finished);
}

fn stream_from(data: &[u8], start: u64) -> Vec<u8> {
    let mut stream = FileReaderStream::new(start);
    let mut body: Vec<u8> = Vec::new();
    loop {
        let at = usize::try_from(stream.position()).expect("an offset in memory");
        let n = std::cmp::min(CHUNK_SIZE, data.len().saturating_sub(at));
        match stream.poll_next(ReadOutcome::Read(n)) {
            StreamStep::Chunk { offset, len } => {
                let from = usize::try_from(offset).expect("an offset in memory");
                body.extend_from_slice(&data[from..from + len]);
            }
            StreamStep::Finished => return body,
            other => panic!("unexpected step: {:?}", other),
        }
    }
}

#[test]
fn range_body_starts_with_the_bytes_asked_for() {
    let data: Vec<u8> = (0..1000u32).map(|i| (i % 251) as u8).collect();
    let head = get_video("clip.mp4", Some("bytes=0-99"), 1000).expect("a valid range");
    let body = stream_from(&data, head.start);
    assert_eq!(&body[..100], &data[..100]);
    assert_eq!(body.len(), 1000);
}

#[test]
fn stream_runs_past_the_end_of_the_range() {
    let data: Vec<u8> = (0..3_000_000u32).map(|i| (i % 251) as u8).collect();
    let head = get_video("clip.mp4", Some("bytes=1000000-1000009"), 3_000_000)
        .expect("a valid range");
    assert_eq!(head.content_range, "bytes 1000000-1000009/3000000");
    let body = stream_from(&data, head.start);
    assert_eq!(body.len(), 2_000_000);
    assert_eq!(&body[..10], &data[1_000_000..1_000_010]);
    assert_eq!(&body[..], &data[1_000_000..]);
}
