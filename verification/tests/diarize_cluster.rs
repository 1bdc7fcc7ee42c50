use vibe_core::diarize::{
    find_matching_segment, label_spans, merge_diarization, DiarizeSegment, MatchCandidate,
    SpeakerClusterer, SpeechSpan,
};
use vibe_core::error::CoreError;
use vibe_core::transcript::{Segment, Transcript};

fn span(start_cs: i64, duration_cs: i64) -> SpeechSpan {
    SpeechSpan {
        start_cs,
        duration_cs,
    }
}

fn dseg(start_cs: i64, duration_cs: i64, speaker: &str) -> DiarizeSegment {
    DiarizeSegment {
        start_cs,
        duration_cs,
        speaker: speaker.to_string(),
    }
}

fn tseg(start: i64, stop: i64, text: &str) -> Segment {
    Segment {
        start,
        stop,
        text: text.to_string(),
        speaker: None,
    }
}

#[test]
fn two_alternating_speakers_get_two_identities() {
    // two speakers alternating every 5 seconds over 30 seconds
    let spans: Vec<SpeechSpan> = (0..6).map(|i| span(i * 500, 500)).collect();
    let cands = vec![
        // nothing registered yet: a new identity
        MatchCandidate { nearest: None, above_threshold: false },
        // the second voice is unlike the first: a second identity
        MatchCandidate { nearest: Some(0), above_threshold: false },
        MatchCandidate { nearest: Some(0), above_threshold: true },
        MatchCandidate { nearest: Some(1), above_threshold: true },
        MatchCandidate { nearest: Some(0), above_threshold: true },
        MatchCandidate { nearest: Some(1), above_threshold: true },
    ];
    let labeled = label_spans(2, &spans, &cands).expect("consistent stream");
    let speakers: Vec<&str> = labeled.iter().map(|d| d.speaker.as_str()).collect();
    assert_eq!(speakers, vec!["0", "1", "0", "1", "0", "1"]);
    // exactly two distinct identities, covering the full duration
    let mut distinct: Vec<&str> = speakers.clone();
    distinct.sort();
    distinct.dedup();
    assert_eq!(distinct.len(), 2);
    assert_eq!(labeled[0].start_cs, 0);
    assert_eq!(labeled[5].start_cs + labeled[5].duration_cs, 3000);
}

#[test]
fn identities_never_exceed_the_cap() {
    // every span sounds new, but only two identities may exist
    let mut clusterer = SpeakerClusterer::new(2);
    let first = clusterer.classify(&MatchCandidate { nearest: None, above_threshold: false });
    assert_eq!(first, 0);
    let second = clusterer.classify(&MatchCandidate { nearest: Some(0), above_threshold: false });
    assert_eq!(second, 1);
    // at the cap the nearest speaker is taken unconditionally
    let third = clusterer.classify(&MatchCandidate { nearest: Some(0), above_threshold: false });
    assert_eq!(third, 0);
    assert_eq!(clusterer.count, 2);
}

#[test]
fn inconsistent_comparison_stream_is_rejected() {
    let spans = vec![span(0, 100)];
    // a nearest speaker reported while none is registered
    let cands = vec![MatchCandidate { nearest: Some(0), above_threshold: true }];
    match label_spans(2, &spans, &cands) {
        Err(CoreError::ConfigError(m)) => {
            assert_eq!(m, "speaker comparison stream inconsistent with registry")
        }
        _ => panic!("expected config error"),
    }
}

#[test]
fn first_containing_span_wins() {
    let spans = vec![dseg(0, 1000, "0"), dseg(0, 2000, "1")];
    // [500, 900] lies in both; the first match wins
    assert_eq!(find_matching_segment(&spans, 500, 900), Some(0));
    // [500, 1500] only fits the second
    assert_eq!(find_matching_segment(&spans, 500, 1500), Some(1));
    // nothing contains [500, 2500]
    assert_eq!(find_matching_segment(&spans, 500, 2500), None);
}

#[test]
fn starts_within_first_second_snap_to_zero() {
    // the span starts at 0.8s, the segment at 0.5s: without snapping no
    // match, with snapping both starts count as zero
    let spans = vec![dseg(80, 500, "0")];
    assert_eq!(find_matching_segment(&spans, 50, 300), Some(0));
    // a span that begins after the first second gets no snap, so a segment
    // starting before it does not match
    let late = vec![dseg(150, 500, "0")];
    assert_eq!(find_matching_segment(&late, 50, 300), None);
}

#[test]
fn merge_assigns_and_is_idempotent() {
    let spans = vec![dseg(0, 1000, "0"), dseg(1000, 1000, "1")];
    let transcript = Transcript {
        processing_time_sec: 1,
        segments: vec![tseg(0, 500, "a"), tseg(1200, 1800, "b"), tseg(5000, 6000, "c")],
    };
    let once = merge_diarization(spans, transcript).expect("merge never errors");
    assert_eq!(once.segments[0].speaker.as_deref(), Some("0"));
    assert_eq!(once.segments[1].speaker.as_deref(), Some("1"));
    assert_eq!(once.segments[2].speaker, None);
    let spans_again = vec![dseg(0, 1000, "0"), dseg(1000, 1000, "1")];
    let twice = merge_diarization(spans_again, once).expect("merge never errors");
    assert_eq!(twice.segments[0].speaker.as_deref(), Some("0"));
    assert_eq!(twice.segments[1].speaker.as_deref(), Some("1"));
    assert_eq!(twice.segments[2].speaker, None);
    assert_eq!(twice.processing_time_sec, 1);
}
