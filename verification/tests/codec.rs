//! Tests of the output decoder: boundary reassembly, ordering, and the
//! lossy-flush ceiling.

use clawrunner::utf8_valid_prefix_len;
use clawrunner::ChunkOutput;
use clawrunner::OutputDecoder;
use clawrunner::OutputReader;
use clawrunner::SessionStatus;
use clawrunner::MAX_LEFTOVER_SIZE;
use clawrunner::READ_CHUNK_SIZE;

fn prefix_via_std(bytes: &[u8]) -> usize {
    match std::str::from_utf8(bytes) {
        Ok(_) => bytes.len(),
        Err(e) => e.valid_up_to(),
    }
}

#[test]
fn scanner_agrees_with_std_utf8_validation() {
    let cases: Vec<Vec<u8>> = vec![
        vec![],
        b"hello".to_vec(),
        "h\u{e9}llo w\u{f6}rld\u{20ac}\u{1f980}".as_bytes().to_vec(),
        vec![0x7f],
        vec![0x80],                   // bare continuation byte
        vec![0xc0, 0x80],             // overlong two-byte NUL
        vec![0xc1, 0xbf],             // overlong two-byte
        vec![0xc2, 0x80],             // U+0080, smallest two-byte
        vec![0xdf, 0xbf],             // U+07FF, largest two-byte
        vec![0xe0, 0x9f, 0xbf],       // overlong three-byte
        vec![0xe0, 0xa0, 0x80],       // U+0800, smallest three-byte
        vec![0xed, 0x9f, 0xbf],       // U+D7FF, below surrogates
        vec![0xed, 0xa0, 0x80],       // U+D800, a surrogate
        vec![0xed, 0xbf, 0xbf],       // U+DFFF, a surrogate
        vec![0xee, 0x80, 0x80],       // U+E000, above surrogates
        vec![0xef, 0xbf, 0xbf],       // U+FFFF
        vec![0xf0, 0x8f, 0xbf, 0xbf], // overlong four-byte
        vec![0xf0, 0x90, 0x80, 0x80], // U+10000, smallest four-byte
        vec![0xf4, 0x8f, 0xbf, 0xbf], // U+10FFFF, the largest scalar
        vec![0xf4, 0x90, 0x80, 0x80], // beyond U+10FFFF
        vec![0xf5, 0x80, 0x80, 0x80], // lead byte out of range
        vec![0xf8, 0xa0, 0xa0, 0xa0], // no lead byte at all
        vec![0x61, 0xc2],             // two-byte cut short
        vec![0x61, 0xe2, 0x82],       // three-byte cut short
        vec![0x61, 0xf0, 0x9f, 0xa6], // four-byte cut short
        vec![0xe2, 0x28, 0xa1],       // continuation replaced by ASCII
    ];
    for c in &cases {
        assert_eq!(utf8_valid_prefix_len(c), prefix_via_std(c));
    }
    for a in &cases {
        for b in &cases {
            let mut joined = a.clone();
            joined.extend_from_slice(b);
            assert_eq!(utf8_valid_prefix_len(&joined), prefix_via_std(&joined));
        }
    }
}

#[test]
fn split_character_reassembles_whole() {
    // A payload engineered so a three-byte character straddles the 8192-byte
    // read boundary: the first chunk ends mid-character.
    let mut payload = vec![b'a'; READ_CHUNK_SIZE - 2];
    payload.extend_from_slice("\u{20ac}".as_bytes());
    assert_eq!(payload.len(), READ_CHUNK_SIZE + 1);

    let mut reader = OutputReader::new(42);
    let first = reader.on_read(&payload[..READ_CHUNK_SIZE]).expect("complete prefix is emitted");
    assert_eq!(first.session_id, 42);
    assert!(!first.lossy);
    assert_eq!(first.bytes, vec![b'a'; READ_CHUNK_SIZE - 2]);

    let second = reader.on_read(&payload[READ_CHUNK_SIZE..]).expect("character completes");
    assert_eq!(second.session_id, 42);
    assert!(!second.lossy);
    // one clean event carries the character whole
    assert_eq!(String::from_utf8(second.bytes).unwrap(), "\u{20ac}");

    let (residue, status) = reader.on_close(None);
    assert!(residue.is_none());
    assert_eq!(status.session_id, 42);
    assert!(matches!(status.status, SessionStatus::Stopped));
}

#[test]
fn bytes_flow_through_in_order_without_loss() {
    // Mixed text and partial characters over several pushes: everything that
    // goes in comes out, in order.
    let input = "one \u{2603} two \u{1f980} three".as_bytes().to_vec();
    let mut decoder = OutputDecoder::new();
    let mut collected: Vec<u8> = Vec::new();
    for chunk in input.chunks(5) {
        match decoder.push_chunk(chunk) {
            ChunkOutput::Pending => {},
            ChunkOutput::Text(b) => {
                assert!(std::str::from_utf8(&b).is_ok());
                collected.extend_from_slice(&b);
            },
            ChunkOutput::LossyFlush(_) => panic!("valid text never flushes lossily"),
        }
    }
    if let Some(b) = decoder.finish() {
        collected.extend_from_slice(&b);
    }
    assert_eq!(collected, input);
}

#[test]
fn read_error_produces_error_status() {
    let mut reader = OutputReader::new(7);
    let ev = reader.on_read(b"partial \xf0\x9f");
    let ev = ev.expect("the decodable prefix is emitted");
    assert_eq!(String::from_utf8(ev.bytes).unwrap(), "partial ");
    let (residue, status) = reader.on_close(Some(String::from("broken pipe")));
    // the undecoded tail is still flushed, lossily
    let residue = residue.expect("two retained bytes flush at close");
    assert!(residue.lossy);
    assert_eq!(residue.bytes, vec![0xf0, 0x9f]);
    assert_eq!(residue.session_id, 7);
    assert_eq!(status.session_id, 7);
    match status.status {
        SessionStatus::Error(m) => assert_eq!(m, "broken pipe"),
        SessionStatus::Stopped => panic!("a read error must end in an error status"),
    }
}

#[test]
fn sustained_binary_output_flushes_lossily_and_stays_bounded() {
    let junk = vec![0xffu8; READ_CHUNK_SIZE];
    let mut decoder = OutputDecoder::new();
    let mut lossy_flushes = 0;
    for i in 0..9 {
        match decoder.push_chunk(&junk) {
            ChunkOutput::Pending => assert!(i < 8),
            ChunkOutput::Text(_) => panic!("0xFF bytes never form text"),
            ChunkOutput::LossyFlush(b) => {
                lossy_flushes += 1;
                assert_eq!(i, 8);
                assert_eq!(b.len(), MAX_LEFTOVER_SIZE + READ_CHUNK_SIZE);
            },
        }
        // the retained buffer never exceeds the ceiling
        assert!(decoder.leftover.len() <= MAX_LEFTOVER_SIZE);
    }
    assert_eq!(lossy_flushes, 1);
    assert!(decoder.finish().is_none());
}
