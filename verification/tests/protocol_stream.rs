use vibe_core::error::CoreError;
use vibe_core::events::{parse_chunk_events, parse_event_line, WorkerEvent};
use vibe_core::session::StreamAssembly;
use vibe_core::worker::parse_ready_signal;

#[test]
fn progress_event_parses() {
    match parse_event_line("{\"type\":\"progress\",\"progress\":42}") {
        Some(WorkerEvent::Progress { progress }) => assert_eq!(progress, 42),
        _ => panic!("expected progress event"),
    }
}

#[test]
fn segment_event_converts_seconds_to_centiseconds() {
    let line = "{\"type\":\"segment\",\"start\":1.5,\"end\":2.25,\"text\":\"hi there\"}";
    match parse_event_line(line) {
        Some(WorkerEvent::Segment {
            start,
            stop,
            text,
            speaker,
        }) => {
            assert_eq!(start, 150);
            assert_eq!(stop, 225);
            assert_eq!(text, "hi there");
            assert_eq!(speaker, None);
        }
        _ => panic!("expected segment event"),
    }
}

#[test]
fn segment_event_keeps_speaker_number() {
    let line = "{\"type\":\"segment\",\"start\":0,\"end\":1,\"text\":\"a\",\"speaker\":3}";
    match parse_event_line(line) {
        Some(WorkerEvent::Segment { speaker, .. }) => assert_eq!(speaker, Some(3)),
        _ => panic!("expected segment event"),
    }
}

#[test]
fn result_and_error_events_parse() {
    match parse_event_line("{\"type\":\"result\",\"text\":\"done\"}") {
        Some(WorkerEvent::Done { text }) => assert_eq!(text, "done"),
        _ => panic!("expected result event"),
    }
    match parse_event_line("{\"type\":\"error\",\"message\":\"boom\"}") {
        Some(WorkerEvent::ErrorMsg { message }) => assert_eq!(message, "boom"),
        _ => panic!("expected error event"),
    }
}

#[test]
fn string_escapes_are_unescaped() {
    let line = "{\"type\":\"result\",\"text\":\"a\\n\\\"b\\\"\\t\\\\c\"}";
    match parse_event_line(line) {
        Some(WorkerEvent::Done { text }) => assert_eq!(text, "a\n\"b\"\t\\c"),
        _ => panic!("expected result event"),
    }
}

#[test]
fn malformed_lines_are_skipped_not_fatal() {
    // nested objects, unicode escapes and exponents are outside the grammar
    assert!(parse_event_line("{\"type\":\"result\",\"text\":{\"nested\":1}}").is_none());
    assert!(parse_event_line("{\"type\":\"result\",\"text\":\"\\u0041\"}").is_none());
    assert!(parse_event_line("{\"type\":\"progress\",\"progress\":1e3}").is_none());
    assert!(parse_event_line("not json").is_none());
    assert!(parse_event_line("{\"type\":\"progress\",\"progress\":2.5}").is_none());

    let chunk = "\n{\"type\":\"progress\",\"progress\":10}\ngarbage\n{\"type\":\"result\",\"text\":\"ok\"}\n";
    let events = parse_chunk_events(chunk);
    assert_eq!(events.len(), 2);
    assert!(matches!(events[0], WorkerEvent::Progress { progress: 10 }));
    assert!(matches!(events[1], WorkerEvent::Done { .. }));
}

#[test]
fn key_order_and_whitespace_are_free() {
    let line = " { \"progress\" : 7 , \"type\" : \"progress\" } ";
    match parse_event_line(line) {
        Some(WorkerEvent::Progress { progress }) => assert_eq!(progress, 7),
        _ => panic!("expected progress event"),
    }
}

#[test]
fn ready_signal_parses_port() {
    let (status, port) = parse_ready_signal("{\"status\":\"ready\",\"port\":43210}")
        .expect("well-formed ready signal");
    assert_eq!(status, "ready");
    assert_eq!(port, 43210);
}

#[test]
fn ready_signal_rejects_bad_records() {
    assert!(parse_ready_signal("starting up...").is_none());
    assert!(parse_ready_signal("{\"status\":\"ready\"}").is_none());
    assert!(parse_ready_signal("{\"status\":\"ready\",\"port\":70000}").is_none());
    assert!(parse_ready_signal("{\"status\":\"ready\",\"port\":-1}").is_none());
}

#[test]
fn stream_assembles_into_ordered_transcript() {
    // a short stream carrying the recognized word
    let chunk = "{\"type\":\"progress\",\"progress\":50}\n\
                 {\"type\":\"segment\",\"start\":0.0,\"end\":1.0,\"text\":\" Experience\"}\n\
                 {\"type\":\"progress\",\"progress\":100}\n\
                 {\"type\":\"result\",\"text\":\" Experience\"}\n";
    let mut assembly = StreamAssembly::new();
    for ev in parse_chunk_events(chunk) {
        assembly.apply_event(ev);
    }
    assert_eq!(assembly.last_progress, 100);
    let transcript = assembly.finish(2).expect("stream with a segment assembles");
    assert!(!transcript.segments.is_empty());
    assert!(transcript.as_text().contains("Experience"));
    assert!(transcript.processing_time_sec >= 0);
    for w in transcript.segments.windows(2) {
        assert!(w[0].start <= w[1].start);
    }
}

#[test]
fn stream_error_event_fails_the_pass() {
    let chunk = "{\"type\":\"segment\",\"start\":0,\"end\":1,\"text\":\"a\"}\n\
                 {\"type\":\"error\",\"message\":\"model exploded\"}\n";
    let mut assembly = StreamAssembly::new();
    for ev in parse_chunk_events(chunk) {
        assembly.apply_event(ev);
    }
    match assembly.finish(1) {
        Err(CoreError::ProcessFailure(m)) => assert_eq!(m, "model exploded"),
        _ => panic!("expected process failure"),
    }
}

#[test]
fn stream_without_segments_is_a_decode_failure() {
    let mut assembly = StreamAssembly::new();
    for ev in parse_chunk_events("{\"type\":\"progress\",\"progress\":100}\n") {
        assembly.apply_event(ev);
    }
    match assembly.finish(1) {
        Err(CoreError::DecodeFailure(m)) => assert_eq!(m, "no segements found!"),
        _ => panic!("expected decode failure"),
    }
}

#[test]
fn stream_speaker_numbers_become_labels() {
    let line = "{\"type\":\"segment\",\"start\":0,\"end\":1,\"text\":\"a\",\"speaker\":2}";
    let mut assembly = StreamAssembly::new();
    assembly.apply_event(parse_event_line(line).unwrap());
    let t = assembly.finish(0).unwrap();
    assert_eq!(t.segments[0].speaker.as_deref(), Some("2"));
}
