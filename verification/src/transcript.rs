//! Transcript data model: ordered, timestamped text segments with optional
//! speaker labels, and the plain-text, VTT and SRT renderings.

use vstd::prelude::*;

use crate::text::{
    int_str, pad2, pad3, push_char, push_i64_dec, push_pad2, push_pad3, push_str, replace_arrows,
    replace_arrows_text, trim_spec, trim_text,
};

verus! {

/// Largest timestamp (in centiseconds) the formatter accepts: ten times it
/// must still fit in a signed 64-bit millisecond count.
pub const MAX_TIMESTAMP_CS: i64 = 922337203685477580;

/// The rendering of a non-negative centisecond timestamp as
/// `[hh:]mm:ss<marker>mmm`, with the hour field present when requested or
/// non-zero.
pub open spec fn spec_format_timestamp(cs: int, always_include_hours: bool, marker: Seq<char>) -> Seq<
    char,
> {
    let ms = cs * 10;
    let hours = ms / 3600000;
    let rem1 = ms % 3600000;
    let minutes = rem1 / 60000;
    let rem2 = rem1 % 60000;
    let seconds = rem2 / 1000;
    let millis = rem2 % 1000;
    let hours_marker: Seq<char> = if always_include_hours || hours != 0 {
        pad2(hours as nat) + seq![':']
    } else {
        Seq::empty()
    };
    hours_marker + pad2(minutes as nat) + seq![':'] + pad2(seconds as nat) + marker + pad3(
        millis as nat,
    )
}

/// Renders a centisecond timestamp as `[hh:]mm:ss<marker>mmm`.
pub fn format_timestamp(cs: i64, always_include_hours: bool, decimal_marker: &str) -> (r: String)
    requires
        0 <= cs <= MAX_TIMESTAMP_CS,
    ensures
        r@ == spec_format_timestamp(cs as int, always_include_hours, decimal_marker@),
{
    let total_ms: u64 = (cs as u64) * 10;
    let hours: u64 = total_ms / 3600000;
    let rem1: u64 = total_ms % 3600000;
    let minutes: u64 = rem1 / 60000;
    let rem2: u64 = rem1 % 60000;
    let seconds: u64 = rem2 / 1000;
    let millis: u64 = rem2 % 1000;
    let mut out = String::new();
    if always_include_hours || hours != 0 {
        push_pad2(&mut out, hours);
        push_char(&mut out, ':');
    }
    push_pad2(&mut out, minutes);
    push_char(&mut out, ':');
    push_pad2(&mut out, seconds);
    push_str(&mut out, decimal_marker);
    push_pad3(&mut out, millis);
    proof {
        assert(out@ =~= spec_format_timestamp(cs as int, always_include_hours, decimal_marker@));
    }
    out
}

/// One contiguous span of transcribed text. `start` and `stop` are
/// centiseconds from the beginning of the audio; `speaker` is filled by
/// diarization when a matching speech span exists.
pub struct Segment {
    pub start: i64,
    pub stop: i64,
    pub text: String,
    pub speaker: Option<String>,
}

impl Segment {
    /// Timestamps are non-negative and small enough to format.
    pub open spec fn valid(&self) -> bool {
        0 <= self.start <= MAX_TIMESTAMP_CS && 0 <= self.stop <= MAX_TIMESTAMP_CS
    }

    /// The VTT cue for this segment.
    pub open spec fn vtt_spec(&self) -> Seq<char> {
        spec_format_timestamp(self.start as int, false, "."@) + " --> "@
            + spec_format_timestamp(self.stop as int, false, "."@) + "\n"@ + replace_arrows(
            trim_spec(self.text@),
        ) + "\n"@
    }

    /// The SRT entry for this segment under sequence number `index`.
    pub open spec fn srt_spec(&self, index: int) -> Seq<char> {
        "\n"@ + int_str(index) + "\n"@ + spec_format_timestamp(self.start as int, true, ","@)
            + " --> "@ + spec_format_timestamp(self.stop as int, true, ","@) + "\n"@
            + replace_arrows(trim_spec(self.text@)) + "\n"@
    }

    /// The raw segment text.
    pub fn as_text(&self) -> (r: String)
        ensures
            r@ == self.text@,
    {
        self.text.clone()
    }

    /// The segment as one VTT cue: `start --> stop` then the trimmed text,
    /// with any `-->` inside the text defused to `->`.
    pub fn as_vtt(&self) -> (r: String)
        requires
            self.valid(),
        ensures
            r@ == self.vtt_spec(),
    {
        let mut out = format_timestamp(self.start, false, ".");
        push_str(&mut out, " --> ");
        let stop_ts = format_timestamp(self.stop, false, ".");
        push_str(&mut out, stop_ts.as_str());
        push_str(&mut out, "\n");
        let trimmed = trim_text(self.text.as_str());
        let body = replace_arrows_text(trimmed.as_str());
        push_str(&mut out, body.as_str());
        push_str(&mut out, "\n");
        proof {
            assert(out@ =~= self.vtt_spec());
        }
        out
    }

    /// The segment as one SRT entry with the given sequence number.
    pub fn as_srt(&self, index: i32) -> (r: String)
        requires
            self.valid(),
        ensures
            r@ == self.srt_spec(index as int),
    {
        let mut out = String::new();
        push_str(&mut out, "\n");
        push_i64_dec(&mut out, index as i64);
        push_str(&mut out, "\n");
        let start_ts = format_timestamp(self.start, true, ",");
        push_str(&mut out, start_ts.as_str());
        push_str(&mut out, " --> ");
        let stop_ts = format_timestamp(self.stop, true, ",");
        push_str(&mut out, stop_ts.as_str());
        push_str(&mut out, "\n");
        let trimmed = trim_text(self.text.as_str());
        let body = replace_arrows_text(trimmed.as_str());
        push_str(&mut out, body.as_str());
        push_str(&mut out, "\n");
        proof {
            assert(out@ =~= self.srt_spec(index as int));
        }
        out
    }
}

/// Segment starts never decrease along the sequence.
pub open spec fn segments_ordered(s: Seq<Segment>) -> bool {
    forall|i: int| 0 < i < s.len() ==> #[trigger] s[i].start >= s[i - 1].start
}

/// A finished transcription: the ordered segments and the wall-clock seconds
/// the pass took.
pub struct Transcript {
    pub processing_time_sec: u64,
    pub segments: Vec<Segment>,
}

/// The concatenation of the raw texts of all segments.
pub open spec fn texts_concat(s: Seq<Segment>) -> Seq<char>
    decreases s.len(),
{
    if s.len() == 0 {
        Seq::empty()
    } else {
        texts_concat(s.drop_last()) + s.last().text@
    }
}

/// The concatenation of the VTT cues of all segments.
pub open spec fn vtt_concat(s: Seq<Segment>) -> Seq<char>
    decreases s.len(),
{
    if s.len() == 0 {
        Seq::empty()
    } else {
        vtt_concat(s.drop_last()) + s.last().vtt_spec()
    }
}

/// The concatenation of the SRT entries of all segments, numbered from `idx`.
pub open spec fn srt_concat_from(s: Seq<Segment>, idx: int) -> Seq<char>
    decreases s.len(),
{
    if s.len() == 0 {
        Seq::empty()
    } else {
        s[0].srt_spec(idx) + srt_concat_from(s.skip(1), idx + 1)
    }
}

impl Transcript {
    /// Every segment is well-formed and the sequence is ordered by
    /// non-decreasing start time.
    pub open spec fn wf(&self) -> bool {
        &&& segments_ordered(self.segments@)
        &&& forall|i: int| 0 <= i < self.segments@.len() ==> self.segments@[i].valid()
    }

    /// The plain-text rendering: all segment texts, joined unchanged.
    pub fn as_text(&self) -> (r: String)
        ensures
            r@ == texts_concat(self.segments@),
    {
        let mut out = String::new();
        let n = self.segments.len();
        let mut k: usize = 0;
        while k < n
            invariant
                0 <= k <= n,
                n == self.segments@.len(),
                out@ == texts_concat(self.segments@.take(k as int)),
            decreases n - k,
        {
            push_str(&mut out, self.segments[k].text.as_str());
            k = k + 1;
            proof {
                let pre = self.segments@.take(k as int);
                assert(pre.drop_last() =~= self.segments@.take(k - 1));
                assert(out@ == texts_concat(pre));
            }
        }
        proof {
            assert(self.segments@.take(n as int) =~= self.segments@);
        }
        out
    }

    /// The VTT rendering: each segment's cue in order.
    pub fn as_vtt(&self) -> (r: String)
        requires
            self.wf(),
        ensures
            r@ == vtt_concat(self.segments@),
    {
        let mut out = String::new();
        let n = self.segments.len();
        let mut k: usize = 0;
        while k < n
            invariant
                0 <= k <= n,
                n == self.segments@.len(),
                forall|i: int| 0 <= i < n ==> self.segments@[i].valid(),
                out@ == vtt_concat(self.segments@.take(k as int)),
            decreases n - k,
        {
            let cue = self.segments[k].as_vtt();
            push_str(&mut out, cue.as_str());
            k = k + 1;
            proof {
                let pre = self.segments@.take(k as int);
                assert(pre.drop_last() =~= self.segments@.take(k - 1));
                assert(out@ == vtt_concat(pre));
            }
        }
        proof {
            assert(self.segments@.take(n as int) =~= self.segments@);
        }
        out
    }

    /// The SRT rendering: each segment's entry in order, numbered from 1.
    pub fn as_srt(&self) -> (r: String)
        requires
            self.wf(),
            self.segments@.len() < 0x7fffffff,
        ensures
            r@ == srt_concat_from(self.segments@, 1),
    {
        let mut out = String::new();
        let n = self.segments.len();
        let mut k: usize = 0;
        proof {
            assert(self.segments@.skip(0) =~= self.segments@);
        }
        while k < n
            invariant
                0 <= k <= n,
                n == self.segments@.len(),
                n < 0x7fffffff,
                forall|i: int| 0 <= i < n ==> self.segments@[i].valid(),
                srt_concat_from(self.segments@, 1) == out@ + srt_concat_from(
                    self.segments@.skip(k as int),
                    k + 1,
                ),
            decreases n - k,
        {
            let ghost rest = self.segments@.skip(k as int);
            let entry = self.segments[k].as_srt((k + 1) as i32);
            push_str(&mut out, entry.as_str());
            k = k + 1;
            proof {
                assert(rest[0] == self.segments@[k - 1]);
                assert(rest.skip(1) =~= self.segments@.skip(k as int));
            }
        }
        proof {
            assert(self.segments@.skip(n as int) =~= Seq::<Segment>::empty());
        }
        out
    }
}


/// Renders a transcript in the named export format; an unknown format falls
/// back to SRT. The JSON export is serialization, which lives with the
/// caller.
pub fn render_transcript(t: &Transcript, format: &str) -> (r: String)
    requires
        t.wf(),
        t.segments@.len() < 0x7fffffff,
    ensures
        format@ == "txt"@ ==> r@ == texts_concat(t.segments@),
        format@ == "vtt"@ ==> r@ == vtt_concat(t.segments@),
        format@ != "txt"@ && format@ != "vtt"@ ==> r@ == srt_concat_from(t.segments@, 1),
{
    proof {
        reveal_strlit("txt");
        reveal_strlit("vtt");
        assert("txt"@[0] == 't' && "vtt"@[0] == 'v');
        assert("txt"@ != "vtt"@);
    }
    let txt = String::from_str("txt");
    let vtt = String::from_str("vtt");
    let f = String::from_str(format);
    if f == txt {
        t.as_text()
    } else if f == vtt {
        t.as_vtt()
    } else {
        t.as_srt()
    }
}

} // verus!
