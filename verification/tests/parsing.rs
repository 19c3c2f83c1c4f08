use artemis_core::frames::extract_event;
use artemis_core::mevshare::{parse_frame, process_chunk};

#[test]
fn frame_extraction_basic() {
    // b"a\n\nb": the first call yields "a" and leaves "b"; with no separator
    // left, the second call reports "need more data" and leaves "b" alone.
    let mut buffer = b"a\n\nb".to_vec();
    let frame = extract_event(&mut buffer);
    assert_eq!(frame, Some(b"a".to_vec()));
    assert_eq!(buffer, b"b".to_vec());
    let frame = extract_event(&mut buffer);
    assert_eq!(frame, None);
    assert_eq!(buffer, b"b".to_vec());
}

#[test]
fn frame_extraction_prefers_crlf() {
    // Both separators are present: the four-byte CRLF-CRLF wins even though
    // an LF-LF occurs earlier in the buffer.
    let mut buffer = b"a\n\nb\r\n\r\nc".to_vec();
    let frame = extract_event(&mut buffer);
    assert_eq!(frame, Some(b"a\n\nb".to_vec()));
    assert_eq!(buffer, b"c".to_vec());
}

#[test]
fn frame_extraction_earliest_crlf_wins() {
    let mut buffer = b"x\r\n\r\ny\r\n\r\nz".to_vec();
    let frame = extract_event(&mut buffer);
    assert_eq!(frame, Some(b"x".to_vec()));
    assert_eq!(buffer, b"y\r\n\r\nz".to_vec());
}

#[test]
fn frame_extraction_lf_when_no_crlf() {
    let mut buffer = b"one\n\ntwo\n\nrest".to_vec();
    assert_eq!(extract_event(&mut buffer), Some(b"one".to_vec()));
    assert_eq!(extract_event(&mut buffer), Some(b"two".to_vec()));
    assert_eq!(extract_event(&mut buffer), None);
    assert_eq!(buffer, b"rest".to_vec());
}

fn valid_event_json() -> Vec<u8> {
    let hash = "0x0101010101010101010101010101010101010101010101010101010101010101";
    let address = "0x0202020202020202020202020202020202020202";
    format!(
        "{{\"hash\":\"{}\",\"txs\":[],\"logs\":[{{\"address\":\"{}\",\"topics\":[],\"data\":\"0x\"}}]}}",
        hash, address
    )
    .into_bytes()
}

#[test]
fn decode_drop_keeps_stream_alive() {
    // A malformed JSON frame followed by a well-formed frame yields exactly
    // one decoded event, and the parser keeps working afterwards.
    let mut chunk = b"data: {not json\n\n".to_vec();
    chunk.extend_from_slice(b"data: ");
    chunk.extend_from_slice(&valid_event_json());
    chunk.extend_from_slice(b"\n\n");

    let mut buffer: Vec<u8> = Vec::new();
    let events = process_chunk(&mut buffer, chunk);
    assert_eq!(events.len(), 1);
    assert_eq!(events[0].hash, vec![1u8; 32]);
    assert_eq!(events[0].transactions.len(), 0);
    assert_eq!(events[0].logs.len(), 1);
    assert_eq!(events[0].logs[0].address, vec![2u8; 20]);
    assert_eq!(events[0].logs[0].topics.len(), 0);
    assert!(buffer.is_empty());

    // Still alive: a further well-formed frame decodes as well.
    let mut chunk2 = b"data: ".to_vec();
    chunk2.extend_from_slice(&valid_event_json());
    chunk2.extend_from_slice(b"\r\n\r\n");
    let events2 = process_chunk(&mut buffer, chunk2);
    assert_eq!(events2.len(), 1);
}

#[test]
fn payload_rules() {
    // Lines without the data: prefix, empty payloads and the [DONE] sentinel
    // are all ignored.
    let mut frame = b": comment\nevent: something\ndata:   \ndata: [DONE]\ndata:".to_vec();
    frame.push(b'\n');
    let events = parse_frame(frame);
    assert_eq!(events.len(), 0);
}

#[test]
fn payload_trimmed_and_decoded() {
    // The payload is trimmed before decoding, and a trailing carriage return
    // does not break the prefix match.
    let mut frame = b"data:  ".to_vec();
    frame.extend_from_slice(&valid_event_json());
    frame.extend_from_slice(b" \r");
    let events = parse_frame(frame);
    assert_eq!(events.len(), 1);
    assert_eq!(events[0].hash, vec![1u8; 32]);
}

#[test]
fn incomplete_frame_waits_for_more_bytes() {
    let mut buffer: Vec<u8> = Vec::new();
    let mut chunk = b"data: ".to_vec();
    chunk.extend_from_slice(&valid_event_json());
    // No separator yet: nothing is emitted, everything is retained.
    let expected = chunk.clone();
    let events = process_chunk(&mut buffer, chunk);
    assert_eq!(events.len(), 0);
    assert_eq!(buffer, expected);
    // The separator arrives in the next chunk.
    let events = process_chunk(&mut buffer, b"\n\nrest".to_vec());
    assert_eq!(events.len(), 1);
    assert_eq!(buffer, b"rest".to_vec());
}
