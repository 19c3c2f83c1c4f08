use artemis_core::backoff::Backoff;
use artemis_core::session::{StreamCommand, StreamInput, StreamSession};

#[test]
fn backoff_doubles_and_caps() {
    // Five consecutive failures wait 1, 2, 4, 8, 16 units; the sixth would
    // wait 30, capped.
    let mut b = Backoff::new();
    let mut waited: Vec<u64> = Vec::new();
    for _ in 0..6 {
        waited.push(b.current());
        b.advance();
    }
    assert_eq!(waited, vec![1, 2, 4, 8, 16, 30]);
    b.advance();
    assert_eq!(b.current(), 30);
}

fn sleep_units(cmd: StreamCommand) -> u64 {
    match cmd {
        StreamCommand::Sleep(d) => d,
        _ => panic!("expected a sleep command"),
    }
}

#[test]
fn session_backoff_sequence() {
    // Five consecutive connect failures sleep 1, 2, 4, 8, 16 units.
    let mut s = StreamSession::new();
    let mut waited: Vec<u64> = Vec::new();
    for _ in 0..5 {
        waited.push(sleep_units(s.step(StreamInput::ConnectFailed)));
        assert!(matches!(s.step(StreamInput::Slept), StreamCommand::Connect));
    }
    assert_eq!(waited, vec![1, 2, 4, 8, 16]);
    assert_eq!(sleep_units(s.step(StreamInput::ConnectFailed)), 30);
}

#[test]
fn session_backoff_resets_on_success() {
    // A failed connect, then a successful connect whose stream ends at once:
    // the next failure waits the initial delay again, not the doubled one.
    let mut s = StreamSession::new();
    assert_eq!(sleep_units(s.step(StreamInput::ConnectFailed)), 1);
    assert!(matches!(s.step(StreamInput::Slept), StreamCommand::Connect));
    assert_eq!(sleep_units(s.step(StreamInput::ConnectFailed)), 2);
    assert!(matches!(s.step(StreamInput::Slept), StreamCommand::Connect));
    assert!(matches!(s.step(StreamInput::Connected), StreamCommand::ReadChunk));
    assert_eq!(sleep_units(s.step(StreamInput::StreamEnded)), 1);
}

#[test]
fn session_streams_chunks() {
    let mut s = StreamSession::new();
    assert!(matches!(s.step(StreamInput::Connected), StreamCommand::ReadChunk));
    let cmd = s.step(StreamInput::Chunk(b"data: junk\n\n".to_vec()));
    match cmd {
        StreamCommand::Emit(events) => assert_eq!(events.len(), 0),
        _ => panic!("expected an emit command"),
    }
    assert!(matches!(s.step(StreamInput::Forwarded), StreamCommand::ReadChunk));
}

#[test]
fn detachment_terminates() {
    // Once the consumer is dropped the client stops within the cycle: the
    // step that observes the detachment answers Stop, and no later step ever
    // asks for a connection attempt again.
    let mut s = StreamSession::new();
    assert_eq!(sleep_units(s.step(StreamInput::ConnectFailed)), 1);
    assert!(matches!(s.step(StreamInput::ReceiverClosed), StreamCommand::Stop));
    assert!(matches!(s.step(StreamInput::Slept), StreamCommand::Stop));
    assert!(matches!(s.step(StreamInput::Connected), StreamCommand::Stop));
    assert!(matches!(s.step(StreamInput::ConnectFailed), StreamCommand::Stop));
}

#[test]
fn detachment_while_streaming() {
    let mut s = StreamSession::new();
    assert!(matches!(s.step(StreamInput::Connected), StreamCommand::ReadChunk));
    assert!(matches!(s.step(StreamInput::ReceiverClosed), StreamCommand::Stop));
    assert!(matches!(s.step(StreamInput::StreamEnded), StreamCommand::Stop));
}

#[test]
fn session_decodes_events_and_survives_bad_frames() {
    let hash = "0x0303030303030303030303030303030303030303030303030303030303030303";
    let payload = format!(
        "data: {{\"hash\":\"{}\",\"txs\":[],\"logs\":[]}}\n\ndata: not json\n\n",
        hash
    );
    let mut s = StreamSession::new();
    assert!(matches!(s.step(StreamInput::Connected), StreamCommand::ReadChunk));
    match s.step(StreamInput::Chunk(payload.into_bytes())) {
        StreamCommand::Emit(events) => {
            assert_eq!(events.len(), 1);
            assert_eq!(events[0].hash, vec![3u8; 32]);
        },
        _ => panic!("expected an emit command"),
    }
    // The malformed frame was dropped without tearing the stream down.
    assert!(matches!(s.step(StreamInput::Forwarded), StreamCommand::ReadChunk));
}
