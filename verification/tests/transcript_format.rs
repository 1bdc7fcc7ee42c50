use vibe_core::error::CoreError;
use vibe_core::session::assemble_transcript;
use vibe_core::transcript::{format_timestamp, Segment, Transcript};

#[test]
fn timestamp_zero() {
    assert_eq!(format_timestamp(0, false, "."), "00:00.000");
    assert_eq!(format_timestamp(0, true, ","), "00:00:00,000");
}

#[test]
fn timestamp_minutes_and_millis() {
    // 6150 centiseconds = 61.5 seconds
    assert_eq!(format_timestamp(6150, true, ","), "00:01:01,500");
    assert_eq!(format_timestamp(6150, false, "."), "01:01.500");
}

#[test]
fn timestamp_hours_shown_when_nonzero() {
    // 360000 centiseconds = exactly one hour
    assert_eq!(format_timestamp(360000, false, "."), "01:00:00.000");
}

fn seg(start: i64, stop: i64, text: &str) -> Segment {
    Segment {
        start,
        stop,
        text: text.to_string(),
        speaker: None,
    }
}

#[test]
fn segment_vtt_trims_and_defuses_arrows() {
    let s = seg(0, 150, "  Hello --> world  ");
    assert_eq!(s.as_vtt(), "00:00.000 --> 00:01.500\nHello -> world\n");
}

#[test]
fn segment_srt_numbered_with_hours() {
    let s = seg(0, 150, "Hi");
    assert_eq!(s.as_srt(1), "\n1\n00:00:00,000 --> 00:00:01,500\nHi\n");
}

#[test]
fn segment_as_text_is_raw() {
    let s = seg(0, 1, "  raw  ");
    assert_eq!(s.as_text(), "  raw  ");
}

#[test]
fn transcript_views_concatenate_in_order() {
    let t = Transcript {
        processing_time_sec: 3,
        segments: vec![seg(0, 100, "one "), seg(100, 200, "two")],
    };
    assert_eq!(t.as_text(), "one two");
    assert_eq!(
        t.as_vtt(),
        "00:00.000 --> 00:01.000\none\n00:01.000 --> 00:02.000\ntwo\n"
    );
    assert_eq!(
        t.as_srt(),
        "\n1\n00:00:00,000 --> 00:00:01,000\none\n\n2\n00:00:01,000 --> 00:00:02,000\ntwo\n"
    );
}

#[test]
fn assemble_rejects_empty_pass() {
    match assemble_transcript(vec![], 1) {
        Err(CoreError::DecodeFailure(m)) => assert_eq!(m, "no segements found!"),
        other => panic!("expected decode failure, got {:?}", other.map(|t| t.processing_time_sec)),
    }
}

#[test]
fn assemble_rejects_decreasing_starts() {
    let segs = vec![seg(200, 300, "b"), seg(0, 100, "a")];
    match assemble_transcript(segs, 1) {
        Err(CoreError::ProtocolError(m)) => assert_eq!(m, "segments out of order"),
        _ => panic!("expected protocol error"),
    }
}

#[test]
fn assemble_keeps_ordered_segments() {
    let segs = vec![seg(0, 100, "a"), seg(100, 200, "b"), seg(100, 400, "c")];
    let t = assemble_transcript(segs, 7).expect("ordered segments assemble");
    assert_eq!(t.processing_time_sec, 7);
    assert_eq!(t.segments.len(), 3);
    // non-decreasing start times
    for w in t.segments.windows(2) {
        assert!(w[0].start <= w[1].start);
    }
}

#[test]
fn assemble_rejects_negative_timestamp() {
    let segs = vec![seg(-5, 100, "a")];
    match assemble_transcript(segs, 0) {
        Err(CoreError::ProtocolError(m)) => assert_eq!(m, "segment timestamp out of range"),
        _ => panic!("expected protocol error"),
    }
}
