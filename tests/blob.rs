use containrs::blob::{append_bounded, body_length, parse_content_range, range_header, Blob, ByteRange};
use containrs::client::validates_whole_object;
use containrs::digest::Digest;
use containrs::error::ErrorKind;

const HELLO: &str = "sha256:2cf24dba5fb0a30e26e83b2ac5b9e29e1b161e5c1fa7425e73043362938b9824";

#[test]
fn skipping_ten_bytes_of_a_hundred_gives_ninety() {
    let object: Vec<u8> = (0..100u8).collect();
    let range = ByteRange { start: 10, end: None };
    assert_eq!(range_header(&range), "bytes=10-");
    // what a server sends for that range
    let start = range.start as usize;
    let body = object[start..].to_vec();
    let content_range = format!("bytes {}-{}/{}", start, object.len() - 1, object.len());

    assert!(!validates_whole_object(206));
    for (header, expected) in [(Some(content_range.as_str()), Some(90)), (None, None)] {
        let mut blob = Blob::new(Digest::parse(HELLO).unwrap(), body_length(206, header, None), false);
        assert_eq!(blob.len(), expected);
        let mut got = Vec::new();
        let mut chunks = body.chunks(32).map(|c| c.to_vec());
        while blob.wants_chunk() {
            if let Some(c) = blob.next_chunk(chunks.next()) {
                got.extend(c);
            }
        }
        assert_eq!(got.len(), 90);
        assert_eq!(got, body);
        assert_eq!(blob.finish(), None);
    }
}

#[test]
fn exhausted_blob_stays_exhausted() {
    let mut blob = Blob::new(Digest::parse(HELLO).unwrap(), Some(5), true);
    assert_eq!(blob.next_chunk(Some(b"hello".to_vec())), Some(b"hello".to_vec()));
    assert_eq!(blob.next_chunk(None), None);
    assert!(!blob.wants_chunk());
    assert_eq!(blob.next_chunk(Some(b"more".to_vec())), None);
    assert_eq!(blob.next_chunk(None), None);
    assert!(!blob.wants_chunk());
    assert_eq!(blob.finish(), Some(true));
}

#[test]
fn blob_reports_a_digest_mismatch() {
    let mut blob = Blob::new(Digest::parse(HELLO).unwrap(), None, true);
    blob.next_chunk(Some(b"hellO".to_vec()));
    blob.next_chunk(None);
    assert_eq!(blob.finish(), Some(false));
}

#[test]
fn content_range_forms() {
    assert_eq!(parse_content_range("bytes 10-99/100"), Some((10, 99, Some(100))));
    assert_eq!(parse_content_range("bytes 0-0/*"), Some((0, 0, None)));
    assert_eq!(parse_content_range("bytes 10-99"), None);
    assert_eq!(parse_content_range("items 10-99/100"), None);
    assert_eq!(parse_content_range("bytes a-99/100"), None);
    assert_eq!(body_length(200, None, Some(7)), Some(7));
    assert_eq!(body_length(206, Some("bytes 5-4/10"), Some(7)), None);
    assert_eq!(body_length(206, Some("bytes 0-18446744073709551615/*"), None), None);
    assert_eq!(range_header(&ByteRange { start: 0, end: Some(9) }), "bytes=0-9");
}

#[test]
fn drain_is_bounded() {
    let blob = Blob::new(Digest::parse(HELLO).unwrap(), Some(11), true);
    assert_eq!(blob.check_declared(10).unwrap_err().kind, ErrorKind::PayloadTooLarge);
    assert!(blob.check_declared(11).is_ok());
    let mut buf = Vec::new();
    assert!(append_bounded(&mut buf, b"hello", 8).is_ok());
    let e = append_bounded(&mut buf, b"world", 8).unwrap_err();
    assert_eq!(e.kind, ErrorKind::PayloadTooLarge);
    assert_eq!(buf, b"hello");
    assert!(append_bounded(&mut buf, b"abc", 8).is_ok());
    assert_eq!(buf, b"helloabc");
}

#[test]
fn drain_chunk_reads_until_the_limit() {
    let mut blob = Blob::new(Digest::parse(HELLO).unwrap(), None, true);
    let mut buf = Vec::new();
    assert!(blob.drain_chunk(&mut buf, 5, Some(b"hel".to_vec())).is_ok());
    assert!(blob.drain_chunk(&mut buf, 5, Some(b"lo".to_vec())).is_ok());
    assert!(blob.drain_chunk(&mut buf, 5, None).is_ok());
    assert_eq!(buf, b"hello");
    assert!(!blob.wants_chunk());
    assert_eq!(blob.finish(), Some(true));

    let mut big = Blob::new(Digest::parse(HELLO).unwrap(), None, false);
    let mut small = Vec::new();
    assert!(big.drain_chunk(&mut small, 4, Some(b"hel".to_vec())).is_ok());
    let e = big.drain_chunk(&mut small, 4, Some(b"lo".to_vec())).unwrap_err();
    assert_eq!(e.kind, ErrorKind::PayloadTooLarge);
    assert_eq!(small, b"hel");
}
