//! Speaker diarization: greedy online clustering of speech spans into
//! speaker identities, and best-effort merging of those spans into a
//! transcript. Spans carry centisecond times; the transcript's segments use
//! the same unit, so matching needs no unit conversion here.

use vstd::prelude::*;

use crate::error::CoreError;
use crate::text::{dec_str, push_u64_dec};
use crate::transcript::{Segment, Transcript, MAX_TIMESTAMP_CS};

verus! {

/// One detected speech span with its clustered speaker label.
pub struct DiarizeSegment {
    pub start_cs: i64,
    pub duration_cs: i64,
    pub speaker: String,
}

impl DiarizeSegment {
    /// Non-negative times whose end still fits the formattable range.
    pub open spec fn valid(&self) -> bool {
        0 <= self.start_cs && 0 <= self.duration_cs && self.start_cs + self.duration_cs
            <= MAX_TIMESTAMP_CS
    }
}

/// Every span is well-formed.
pub open spec fn all_spans_valid(ds: Seq<DiarizeSegment>) -> bool {
    forall|i: int| 0 <= i < ds.len() ==> (#[trigger] ds[i]).valid()
}

/// Whether the span contains the interval `[start, stop]`. When both the
/// interval and the span begin within the first second, both starts snap to
/// zero to absorb alignment jitter.
pub open spec fn matches_span(d: DiarizeSegment, start: int, stop: int) -> bool {
    let snap = start <= 100 && d.start_cs <= 100;
    let eff_start: int = if snap {
        0
    } else {
        start
    };
    let eff_span_start: int = if snap {
        0
    } else {
        d.start_cs as int
    };
    eff_start >= eff_span_start && stop <= d.start_cs + d.duration_cs
}

/// The first span containing the interval, if any: the first match wins.
pub open spec fn spec_find_match(ds: Seq<DiarizeSegment>, start: int, stop: int) -> Option<int>
    decreases ds.len(),
{
    if ds.len() == 0 {
        None
    } else if matches_span(ds[0], start, stop) {
        Some(0)
    } else {
        match spec_find_match(ds.skip(1), start, stop) {
            Some(i) => Some(i + 1),
            None => None,
        }
    }
}

proof fn lemma_find_match_at(ds: Seq<DiarizeSegment>, start: int, stop: int, k: int)
    requires
        0 <= k < ds.len(),
        matches_span(ds[k], start, stop),
        forall|j: int| 0 <= j < k ==> !matches_span(#[trigger] ds[j], start, stop),
    ensures
        spec_find_match(ds, start, stop) == Some(k),
    decreases k,
{
    if k == 0 {
    } else {
        let t = ds.skip(1);
        assert(forall|j: int| 0 <= j < k - 1 ==> !matches_span(#[trigger] t[j], start, stop));
        lemma_find_match_at(t, start, stop, k - 1);
    }
}

proof fn lemma_find_match_none(ds: Seq<DiarizeSegment>, start: int, stop: int)
    requires
        forall|j: int| 0 <= j < ds.len() ==> !matches_span(#[trigger] ds[j], start, stop),
    ensures
        spec_find_match(ds, start, stop) is None,
    decreases ds.len(),
{
    if ds.len() > 0 {
        let t = ds.skip(1);
        assert(forall|j: int| 0 <= j < t.len() ==> !matches_span(#[trigger] t[j], start, stop));
        lemma_find_match_none(t, start, stop);
    }
}

/// Whether the span contains `[start, stop]`, with the first-second snap.
pub fn matches_span_exec(d: &DiarizeSegment, start: i64, stop: i64) -> (r: bool)
    requires
        d.valid(),
    ensures
        r == matches_span(*d, start as int, stop as int),
{
    let snap = start <= 100 && d.start_cs <= 100;
    let eff_start: i64 = if snap {
        0
    } else {
        start
    };
    let eff_span_start: i64 = if snap {
        0
    } else {
        d.start_cs
    };
    eff_start >= eff_span_start && stop <= d.start_cs + d.duration_cs
}

/// The index of the first span containing `[start, stop]`, if any.
pub fn find_matching_segment(ds: &Vec<DiarizeSegment>, start: i64, stop: i64) -> (r: Option<usize>)
    requires
        all_spans_valid(ds@),
    ensures
        match r {
            Some(k) => k < ds@.len() && spec_find_match(ds@, start as int, stop as int) == Some(
                k as int,
            ),
            None => spec_find_match(ds@, start as int, stop as int) is None,
        },
{
    let n = ds.len();
    let mut k: usize = 0;
    while k < n
        invariant
            0 <= k <= n,
            n == ds@.len(),
            all_spans_valid(ds@),
            forall|j: int| 0 <= j < k ==> !matches_span(#[trigger] ds@[j], start as int, stop as int),
        decreases n - k,
    {
        if matches_span_exec(&ds[k], start, stop) {
            proof {
                lemma_find_match_at(ds@, start as int, stop as int, k as int);
            }
            return Some(k);
        }
        k = k + 1;
    }
    proof {
        lemma_find_match_none(ds@, start as int, stop as int);
    }
    None
}

/// The segment after merging: the first containing span's speaker label, or
/// the segment unchanged when no span contains it.
pub open spec fn merged_segment_spec(seg: Segment, ds: Seq<DiarizeSegment>) -> Segment {
    match spec_find_match(ds, seg.start as int, seg.stop as int) {
        Some(i) => Segment { start: seg.start, stop: seg.stop, text: seg.text, speaker: Some(ds[i].speaker) },
        None => seg,
    }
}

/// Attaches speaker labels to a transcript: each segment takes the label of
/// the first span containing it, and keeps its speaker unchanged otherwise.
/// Diarization is best-effort enrichment, so this never errors.
pub fn merge_diarization(diarize_segments: Vec<DiarizeSegment>, transcript: Transcript) -> (r:
    Result<Transcript, CoreError>)
    requires
        all_spans_valid(diarize_segments@),
    ensures
        r matches Ok(t) && t.processing_time_sec == transcript.processing_time_sec && t.segments@.len()
            == transcript.segments@.len() && (forall|i: int|
            0 <= i < t.segments@.len() ==> t.segments@[i] == merged_segment_spec(
                #[trigger] transcript.segments@[i],
                diarize_segments@,
            )),
{
    let n = transcript.segments.len();
    let mut out: Vec<Segment> = Vec::new();
    let mut i: usize = 0;
    while i < n
        invariant
            0 <= i <= n,
            n == transcript.segments@.len(),
            all_spans_valid(diarize_segments@),
            out@.len() == i,
            forall|k: int|
                0 <= k < i ==> out@[k] == merged_segment_spec(
                    #[trigger] transcript.segments@[k],
                    diarize_segments@,
                ),
        decreases n - i,
    {
        let seg = &transcript.segments[i];
        let merged = match find_matching_segment(&diarize_segments, seg.start, seg.stop) {
            Some(k) => Segment {
                start: seg.start,
                stop: seg.stop,
                text: seg.text.clone(),
                speaker: Some(diarize_segments[k].speaker.clone()),
            },
            None => Segment {
                start: seg.start,
                stop: seg.stop,
                text: seg.text.clone(),
                speaker: match &seg.speaker {
                    Some(x) => Some(x.clone()),
                    None => None,
                },
            },
        };
        out.push(merged);
        i = i + 1;
    }
    Ok(Transcript { processing_time_sec: transcript.processing_time_sec, segments: out })
}

/// Merging is idempotent: a second merge with the same spans leaves every
/// already-labeled segment unchanged, because matching reads only the
/// segment's times and the merge rewrites only its speaker.
pub proof fn lemma_merge_idempotent(seg: Segment, ds: Seq<DiarizeSegment>)
    ensures
        merged_segment_spec(merged_segment_spec(seg, ds), ds) == merged_segment_spec(seg, ds),
{
    let m = merged_segment_spec(seg, ds);
    assert(m.start == seg.start && m.stop == seg.stop);
}

/// Online greedy clustering state: how many distinct speaker identities were
/// registered, out of at most `max_speakers`.
pub struct SpeakerClusterer {
    pub max_speakers: usize,
    pub count: usize,
}

/// What the embedding comparison reported for one span: the nearest known
/// speaker, if any is registered, and whether its similarity reached the
/// clustering threshold.
#[derive(Debug, Clone, Copy, PartialEq, Eq, Structural)]
pub struct MatchCandidate {
    pub nearest: Option<usize>,
    pub above_threshold: bool,
}

/// One clustering step: with the cap reached, the nearest known speaker is
/// taken unconditionally; below the cap, the nearest speaker is taken when
/// similar enough, and a new identity is registered otherwise. Returns the
/// new count and the assigned identity.
pub open spec fn classify_spec(count: nat, max: nat, c: MatchCandidate) -> (nat, nat) {
    if count >= max {
        (count, c.nearest->0 as nat)
    } else if c.nearest is Some && c.above_threshold {
        (count, c.nearest->0 as nat)
    } else {
        ((count + 1) as nat, count)
    }
}

impl SpeakerClusterer {
    /// At most the cap, and the cap is positive.
    pub open spec fn inv(&self) -> bool {
        self.count <= self.max_speakers && self.max_speakers >= 1
    }

    /// Starts with no registered identities.
    pub fn new(max_speakers: usize) -> (r: SpeakerClusterer)
        requires
            max_speakers >= 1,
        ensures
            r.inv(),
            r.max_speakers == max_speakers,
            r.count == 0,
    {
        SpeakerClusterer { max_speakers, count: 0 }
    }

    /// Assigns one span to a speaker identity, registering a new identity
    /// only below the cap: the distinct identities never exceed the cap.
    pub fn classify(&mut self, c: &MatchCandidate) -> (id: usize)
        requires
            old(self).inv(),
            (old(self).count > 0) <==> (c.nearest is Some),
            c.nearest matches Some(i) ==> i < old(self).count,
        ensures
            final(self).inv(),
            final(self).max_speakers == old(self).max_speakers,
            final(self).count as nat == classify_spec(
                old(self).count as nat,
                old(self).max_speakers as nat,
                *c,
            ).0,
            id as nat == classify_spec(
                old(self).count as nat,
                old(self).max_speakers as nat,
                *c,
            ).1,
            id < final(self).count,
    {
        if self.count >= self.max_speakers {
            match c.nearest {
                Some(i) => i,
                None => 0,
            }
        } else {
            match c.nearest {
                Some(i) => {
                    if c.above_threshold {
                        i
                    } else {
                        let id = self.count;
                        self.count = self.count + 1;
                        id
                    }
                },
                None => {
                    let id = self.count;
                    self.count = self.count + 1;
                    id
                },
            }
        }
    }
}

/// The identity count after a whole stream of clustering steps.
pub open spec fn run_count(count: nat, max: nat, cs: Seq<MatchCandidate>) -> nat
    decreases cs.len(),
{
    if cs.len() == 0 {
        count
    } else {
        run_count(classify_spec(count, max, cs[0]).0, max, cs.skip(1))
    }
}

/// For any stream of embedding comparisons, the number of distinct speaker
/// identities never exceeds the cap.
pub proof fn lemma_speaker_cap(count: nat, max: nat, cs: Seq<MatchCandidate>)
    requires
        count <= max,
        max >= 1,
    ensures
        run_count(count, max, cs) <= max,
    decreases cs.len(),
{
    if cs.len() > 0 {
        lemma_speaker_cap(classify_spec(count, max, cs[0]).0, max, cs.skip(1));
    }
}

/// One detected speech span, before a speaker is assigned.
#[derive(Debug, Clone, Copy, PartialEq, Eq, Structural)]
pub struct SpeechSpan {
    pub start_cs: i64,
    pub duration_cs: i64,
}

impl SpeechSpan {
    /// Non-negative times whose end still fits the formattable range.
    pub open spec fn valid(&self) -> bool {
        0 <= self.start_cs && 0 <= self.duration_cs && self.start_cs + self.duration_cs
            <= MAX_TIMESTAMP_CS
    }
}

/// The identities a whole stream of clustering steps assigns, in order.
pub open spec fn classify_ids(count: nat, max: nat, cs: Seq<MatchCandidate>) -> Seq<nat>
    decreases cs.len(),
{
    if cs.len() == 0 {
        Seq::empty()
    } else {
        seq![classify_spec(count, max, cs[0]).1] + classify_ids(
            classify_spec(count, max, cs[0]).0,
            max,
            cs.skip(1),
        )
    }
}

/// Whether a comparison stream is consistent with greedy clustering from an
/// empty registry: a nearest speaker is reported exactly when one is
/// registered, and its index is in range.
pub open spec fn cands_consistent(count: nat, max: nat, cs: Seq<MatchCandidate>) -> bool
    decreases cs.len(),
{
    if cs.len() == 0 {
        true
    } else {
        &&& ((count > 0) <==> (cs[0].nearest is Some))
        &&& (cs[0].nearest matches Some(i) ==> i < count)
        &&& cands_consistent(classify_spec(count, max, cs[0]).0, max, cs.skip(1))
    }
}

/// Labels each detected span with its clustered speaker identity, in span
/// order. Rejects a comparison stream that is inconsistent with the registry
/// (a nearest index out of range, or reported for an empty registry).
pub fn label_spans(
    max_speakers: usize,
    spans: &Vec<SpeechSpan>,
    cands: &Vec<MatchCandidate>,
) -> (r: Result<Vec<DiarizeSegment>, CoreError>)
    requires
        max_speakers >= 1,
        spans@.len() == cands@.len(),
        forall|i: int| 0 <= i < spans@.len() ==> (#[trigger] spans@[i]).valid(),
    ensures
        cands_consistent(0, max_speakers as nat, cands@) ==> (r matches Ok(out) && out@.len()
            == spans@.len() && (forall|i: int|
            0 <= i < out@.len() ==> {
                let ids = classify_ids(0, max_speakers as nat, cands@);
                &&& (#[trigger] out@[i]).start_cs == spans@[i].start_cs
                &&& out@[i].duration_cs == spans@[i].duration_cs
                &&& out@[i].speaker@ == dec_str(ids[i])
                &&& out@[i].valid()
            })),
        !cands_consistent(0, max_speakers as nat, cands@) ==> (r matches Err(
            CoreError::ConfigError(m),
        ) && m@ == "speaker comparison stream inconsistent with registry"@),
{
    let ghost max_n = max_speakers as nat;
    let ghost full_ids = classify_ids(0, max_speakers as nat, cands@);
    let n = spans.len();
    let mut clusterer = SpeakerClusterer::new(max_speakers);
    let mut out: Vec<DiarizeSegment> = Vec::new();
    let mut i: usize = 0;
    proof {
        assert(cands@.take(0) =~= Seq::<MatchCandidate>::empty());
        assert(cands@.skip(0) =~= cands@);
    }
    while i < n
        invariant
            0 <= i <= n,
            n == spans@.len(),
            n == cands@.len(),
            max_n == max_speakers as nat,
            full_ids == classify_ids(0, max_n, cands@),
            forall|k: int| 0 <= k < n ==> (#[trigger] spans@[k]).valid(),
            clusterer.inv(),
            clusterer.max_speakers == max_speakers,
            out@.len() == i,
            clusterer.count as nat == run_count(0, max_n, cands@.take(i as int)),
            cands_consistent(0, max_n, cands@) <==> cands_consistent(
                clusterer.count as nat,
                max_n,
                cands@.skip(i as int),
            ),
            cands_consistent(0, max_n, cands@) ==> (forall|k: int|
                0 <= k < i ==> {
                    &&& (#[trigger] out@[k]).start_cs == spans@[k].start_cs
                    &&& out@[k].duration_cs == spans@[k].duration_cs
                    &&& out@[k].speaker@ == dec_str(full_ids[k])
                    &&& out@[k].valid()
                }),
        decreases n - i,
    {
        let ghost consistent = cands_consistent(0, max_n, cands@);
        let ghost rest_pre = cands@.skip(i as int);
        proof {
            if consistent {
                assert(rest_pre[0] == cands@[i as int]);
            }
        }
        let c = &cands[i];
        let nearest_ok = match c.nearest {
            Some(x) => clusterer.count > 0 && x < clusterer.count,
            None => clusterer.count == 0,
        };
        if !nearest_ok {
            proof {
                assert(!cands_consistent(clusterer.count as nat, max_n, rest_pre));
            }
            return Err(CoreError::ConfigError(String::from_str(
                "speaker comparison stream inconsistent with registry",
            )));
        }
        let ghost pre_count = clusterer.count as nat;
        let id = clusterer.classify(c);
        let mut label = String::new();
        push_u64_dec(&mut label, id as u64);
        let span = &spans[i];
        out.push(
            DiarizeSegment {
                start_cs: span.start_cs,
                duration_cs: span.duration_cs,
                speaker: label,
            },
        );
        i = i + 1;
        proof {
            let pre = cands@.take(i - 1);
            let cur = cands@.take(i as int);
            let rest = cands@.skip(i as int);
            assert(rest_pre[0] == cands@[i - 1]);
            assert(rest_pre.skip(1) =~= rest);
            lemma_run_count_snoc(0, max_n, cands@, i - 1);
            assert(clusterer.count as nat == run_count(0, max_n, cur));
            // one consistency step: the element just checked satisfies its
            // conditions, so consistency of the remainder carries over
            assert(cands_consistent(pre_count, max_n, rest_pre) <==> cands_consistent(
                clusterer.count as nat,
                max_n,
                rest,
            ));
            if consistent {
                // the identity just assigned is the latest of the whole stream
                lemma_classify_ids_split(0, max_n, cands@, i - 1);
                lemma_classify_ids_len(0, max_n, pre);
                let tail1 = classify_ids(pre_count, max_n, rest_pre);
                assert(full_ids == classify_ids(0, max_n, pre) + tail1);
                assert(tail1[0] == classify_spec(pre_count, max_n, rest_pre[0]).1);
                assert(full_ids[i - 1] == id as nat);
            }
        }
    }
    Ok(out)
}

/// Running one more step extends the count fold by that step.
proof fn lemma_run_count_snoc(count: nat, max: nat, cs: Seq<MatchCandidate>, i: int)
    requires
        0 <= i < cs.len(),
    ensures
        run_count(count, max, cs.take(i + 1)) == classify_spec(
            run_count(count, max, cs.take(i)),
            max,
            cs[i],
        ).0,
    decreases i,
{
    if i == 0 {
        let c1 = classify_spec(count, max, cs[0]).0;
        assert(cs.take(0) =~= Seq::<MatchCandidate>::empty());
        assert(cs.take(1) =~= seq![cs[0]]);
        assert(cs.take(1).skip(1) =~= Seq::<MatchCandidate>::empty());
        assert(run_count(count, max, cs.take(0)) == count);
        assert(run_count(c1, max, cs.take(1).skip(1)) == c1);
        assert(run_count(count, max, cs.take(1)) == run_count(c1, max, cs.take(1).skip(1)));
    } else {
        let t = cs.skip(1);
        let c1 = classify_spec(count, max, cs[0]).0;
        assert(cs.take(i + 1)[0] == cs[0]);
        assert(cs.take(i + 1).skip(1) =~= t.take(i));
        assert(cs.take(i).skip(1) =~= t.take(i - 1));
        assert(cs.take(i)[0] == cs[0]);
        assert(t[i - 1] == cs[i]);
        lemma_run_count_snoc(c1, max, t, i - 1);
        assert(run_count(count, max, cs.take(i + 1)) == run_count(c1, max, t.take(i)));
        assert(run_count(count, max, cs.take(i)) == run_count(c1, max, t.take(i - 1)));
    }
}

/// The assigned identities split at any boundary into the identities of the
/// prefix and those of the remainder, continued from the prefix's count.
proof fn lemma_classify_ids_split(count: nat, max: nat, cs: Seq<MatchCandidate>, i: int)
    requires
        0 <= i <= cs.len(),
    ensures
        classify_ids(count, max, cs) == classify_ids(count, max, cs.take(i)) + classify_ids(
            run_count(count, max, cs.take(i)),
            max,
            cs.skip(i),
        ),
    decreases i,
{
    if i == 0 {
        assert(cs.take(0) =~= Seq::<MatchCandidate>::empty());
        assert(cs.skip(0) =~= cs);
        assert(classify_ids(count, max, cs) =~= classify_ids(count, max, cs.take(0)) + classify_ids(
            run_count(count, max, cs.take(0)),
            max,
            cs.skip(0),
        ));
    } else {
        let t = cs.skip(1);
        assert(cs.take(i)[0] == cs[0]);
        assert(cs.take(i).skip(1) =~= t.take(i - 1));
        lemma_classify_ids_split(classify_spec(count, max, cs[0]).0, max, t, i - 1);
        assert(t.skip(i - 1) =~= cs.skip(i));
        assert(classify_ids(count, max, cs) =~= classify_ids(count, max, cs.take(i))
            + classify_ids(run_count(count, max, cs.take(i)), max, cs.skip(i)));
    }
}

/// One identity per step.
proof fn lemma_classify_ids_len(count: nat, max: nat, cs: Seq<MatchCandidate>)
    ensures
        classify_ids(count, max, cs).len() == cs.len(),
    decreases cs.len(),
{
    if cs.len() > 0 {
        lemma_classify_ids_len(classify_spec(count, max, cs[0]).0, max, cs.skip(1));
    }
}

} // verus!
