use dockwatch::logs::{
    assemble_logs, decode_frame, event_topic, process_feed, strip_frame, FeedItem, LogEvent,
    LogStreamSession, SessionState,
};

fn framed(payload: &str) -> Vec<u8> {
    let mut frame = vec![1u8, 0, 0, 0, 0, 0, 0, payload.len() as u8];
    frame.extend_from_slice(payload.as_bytes());
    frame
}

#[test]
fn long_frame_loses_its_header() {
    assert_eq!(strip_frame(&framed("hello")), b"hello".to_vec());
}

#[test]
fn short_frames_pass_through_unstripped() {
    assert_eq!(strip_frame(b"12345678"), b"12345678".to_vec());
    assert_eq!(strip_frame(b"abc"), b"abc".to_vec());
    assert_eq!(strip_frame(b""), Vec::<u8>::new());
}

#[test]
fn decoding_replaces_invalid_bytes() {
    // nine bytes: the header-stripping leaves one invalid byte
    let frame = vec![1u8, 0, 0, 0, 0, 0, 0, 1, 0xFF];
    assert_eq!(decode_frame(&frame), "\u{FFFD}");
}

#[test]
fn decoding_keeps_ascii_payloads() {
    assert_eq!(decode_frame(&framed("2024-01-01 ready\n")), "2024-01-01 ready\n");
}

#[test]
fn feed_with_error_publishes_two_data_then_one_error() {
    // first frame exceeds the header length, second is exactly the
    // header length, third is a read error
    let items = vec![
        FeedItem::Chunk(framed("hello")),
        FeedItem::Chunk(b"12345678".to_vec()),
        FeedItem::ReadError("connection reset".to_string()),
        FeedItem::Chunk(framed("never seen")),
        FeedItem::Closed,
    ];
    let events = process_feed("c1".to_string(), &items);
    assert_eq!(events.len(), 3);
    match &events[0] {
        LogEvent::Data(line) => assert_eq!(line, "hello"),
        other => panic!("expected a data event, got {:?}", other),
    }
    match &events[1] {
        LogEvent::Data(line) => assert_eq!(line, "12345678"),
        other => panic!("expected an unstripped data event, got {:?}", other),
    }
    match &events[2] {
        LogEvent::Error(msg) => assert_eq!(msg, "connection reset"),
        other => panic!("expected an error event, got {:?}", other),
    }
}

#[test]
fn clean_close_publishes_one_ended_event() {
    let items = vec![
        FeedItem::Chunk(framed("line")),
        FeedItem::Closed,
        FeedItem::Chunk(framed("late")),
    ];
    let events = process_feed("c1".to_string(), &items);
    assert_eq!(events.len(), 2);
    assert!(matches!(events[0], LogEvent::Data(_)));
    assert!(matches!(events[1], LogEvent::Ended));
}

#[test]
fn empty_feed_publishes_nothing() {
    let events = process_feed("c1".to_string(), &Vec::new());
    assert!(events.is_empty());
}

#[test]
fn session_walks_idle_streaming_ended() {
    let mut s = LogStreamSession::new("c9".to_string());
    assert_eq!(s.state, SessionState::Idle);
    s.start();
    assert_eq!(s.state, SessionState::Streaming);
    assert!(s.should_read());
    let ev = s.on_chunk(&framed("x"));
    assert!(matches!(ev, Some(LogEvent::Data(_))));
    let ev = s.on_close();
    assert!(matches!(ev, Some(LogEvent::Ended)));
    assert_eq!(s.state, SessionState::Ended);
    assert!(!s.should_read());
}

#[test]
fn read_error_fails_the_session_once() {
    let mut s = LogStreamSession::new("c9".to_string());
    s.start();
    let ev = s.on_error("boom".to_string());
    match ev {
        Some(LogEvent::Error(msg)) => assert_eq!(msg, "boom"),
        other => panic!("expected an error event, got {:?}", other),
    }
    assert_eq!(s.state, SessionState::Failed);
    // nothing more is published after the failure
    assert!(s.on_error("again".to_string()).is_none());
    assert!(s.on_chunk(&framed("x")).is_none());
    assert!(s.on_close().is_none());
    assert_eq!(s.state, SessionState::Failed);
}

#[test]
fn stop_request_is_announced_and_silences_the_stream() {
    let mut s = LogStreamSession::new("c9".to_string());
    s.start();
    let ev = s.request_stop();
    assert!(matches!(ev, LogEvent::StopRequested));
    assert_eq!(s.state, SessionState::Stopping);
    assert!(!s.should_read());
    // frames arriving while stopping are dropped
    assert!(s.on_chunk(&framed("late")).is_none());
    assert_eq!(s.state, SessionState::Stopping);
    // winding the feed down ends the session without a second event
    assert!(s.on_close().is_none());
    assert_eq!(s.state, SessionState::Ended);
}

#[test]
fn topics_are_stable_per_container_id() {
    let data = LogEvent::Data("x".to_string());
    let error = LogEvent::Error("x".to_string());
    assert_eq!(event_topic(&data, "abc"), "log-stream-abc");
    assert_eq!(event_topic(&error, "abc"), "log-stream-error-abc");
    assert_eq!(event_topic(&LogEvent::Ended, "abc"), "log-stream-ended-abc");
    assert_eq!(
        event_topic(&LogEvent::StopRequested, "abc"),
        "log-stream-stop-abc"
    );
}

#[test]
fn assembled_logs_concatenate_stripped_frames() {
    let frames = vec![framed("one\n"), framed("two\n"), b"short".to_vec()];
    assert_eq!(assemble_logs(&frames), "one\ntwo\nshort");
}

#[test]
fn assembling_nothing_yields_empty_text() {
    assert_eq!(assemble_logs(&Vec::new()), "");
}
