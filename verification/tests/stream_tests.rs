use sunshade::ChunkedUtf8Reader;
use sunshade::FetchError;
use sunshade::ReadError;
use sunshade::load;

fn chunked(bytes: &[u8], size: usize) -> Vec<Vec<u8>> {
    let mut out: Vec<Vec<u8>> = Vec::new();
    let mut i = 0;
    while i < bytes.len() {
        let end = (i + size).min(bytes.len());
        out.push(bytes[i..end].to_vec());
        i = end;
    }
    out
}

#[test]
fn roundtrip_ascii_single_chunk() {
    let s = "sunrise and sunset";
    let chunks = chunked(s.as_bytes(), 256);
    assert_eq!(load(200, &chunks).unwrap(), s);
}

#[test]
fn roundtrip_multibyte_every_split() {
    // Two-, three- and four-byte characters; every chunk size splits
    // the encoding at a different place, many inside a character.
    let s = "caf\u{e9} \u{2713} d\u{e9}j\u{e0} \u{1f600} vu \u{6771}\u{4eac}";
    let bytes = s.as_bytes();
    for size in 1..=bytes.len() {
        let chunks = chunked(bytes, size);
        assert_eq!(load(200, &chunks).unwrap(), s, "chunk size {}", size);
    }
}

#[test]
fn truncated_multibyte_is_malformed() {
    // The encoding of U+00E9 is [0xC3, 0xA9]; ending after 0xC3
    // truncates a character.
    let mut bytes = "abc".as_bytes().to_vec();
    bytes.push(0xC3);
    let chunks = vec![bytes];
    assert_eq!(load(200, &chunks), Err(FetchError::MalformedStream));
}

#[test]
fn invalid_byte_is_malformed() {
    let chunks = vec![vec![0x61, 0xFF, 0x62]];
    assert_eq!(load(200, &chunks), Err(FetchError::MalformedStream));
}

#[test]
fn overlong_encoding_is_malformed() {
    // 0xC0 0xAF is an overlong encoding of '/'.
    let chunks = vec![vec![0xC0, 0xAF]];
    assert_eq!(load(200, &chunks), Err(FetchError::MalformedStream));
}

#[test]
fn surrogate_encoding_is_malformed() {
    // 0xED 0xA0 0x80 encodes the surrogate U+D800.
    let chunks = vec![vec![0xED, 0xA0, 0x80]];
    assert_eq!(load(200, &chunks), Err(FetchError::MalformedStream));
}

#[test]
fn failure_status_is_rejected_without_reading() {
    let chunks = vec![b"ignored".to_vec()];
    assert_eq!(load(404, &chunks), Err(FetchError::UnexpectedStatus(404)));
    assert_eq!(load(500, &chunks), Err(FetchError::UnexpectedStatus(500)));
    assert_eq!(load(199, &chunks), Err(FetchError::UnexpectedStatus(199)));
}

#[test]
fn status_class_bounds_are_inclusive() {
    let chunks = vec![b"ok".to_vec()];
    assert_eq!(load(200, &chunks).unwrap(), "ok");
    assert_eq!(load(299, &chunks).unwrap(), "ok");
    assert_eq!(load(300, &chunks), Err(FetchError::UnexpectedStatus(300)));
}

#[test]
fn reader_carries_tail_across_chunks() {
    let mut reader = ChunkedUtf8Reader::new();
    // "é✓" = [0xC3, 0xA9, 0xE2, 0x9C, 0x93], cut inside both characters.
    assert!(reader.push_chunk(&vec![0xC3]).is_ok());
    assert!(reader.push_chunk(&vec![0xA9, 0xE2, 0x9C]).is_ok());
    assert!(reader.push_chunk(&vec![0x93]).is_ok());
    assert_eq!(reader.finish().unwrap(), "\u{e9}\u{2713}");
}

#[test]
fn reader_rejects_unfinishable_bytes_at_once() {
    let mut reader = ChunkedUtf8Reader::new();
    // 0xE0 0x80 can never extend to a valid scalar (overlong).
    assert_eq!(
        reader.push_chunk(&vec![0xE0, 0x80]),
        Err(ReadError::MalformedStream)
    );
}

#[test]
fn reader_finish_rejects_pending_tail() {
    let mut reader = ChunkedUtf8Reader::new();
    assert!(reader.push_chunk(&vec![0x61, 0xE2, 0x9C]).is_ok());
    assert_eq!(reader.finish(), Err(ReadError::MalformedStream));
}

#[test]
fn reader_partial_text_drops_unfinished_character() {
    let mut reader = ChunkedUtf8Reader::new();
    assert!(reader.push_chunk(&vec![0x61, 0x62, 0xE2, 0x9C]).is_ok());
    assert_eq!(reader.partial_text(), "ab");
}

#[test]
fn empty_stream_is_empty_text() {
    let chunks: Vec<Vec<u8>> = Vec::new();
    assert_eq!(load(204, &chunks).unwrap(), "");
}
