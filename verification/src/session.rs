//! Assembling the outcome of one inference pass into a transcript: the empty
//! result is a decode failure, and a successful transcript always carries
//! well-formed, start-ordered segments.

use vstd::prelude::*;

use crate::error::CoreError;
use crate::events::WorkerEvent;
use crate::text::{int_str, push_i64_dec};
use crate::transcript::{segments_ordered, Segment, Transcript, MAX_TIMESTAMP_CS};

verus! {

/// Every segment's timestamps are non-negative and small enough to format.
pub open spec fn all_segments_valid(s: Seq<Segment>) -> bool {
    forall|i: int| 0 <= i < s.len() ==> (#[trigger] s[i]).valid()
}

/// Turns the segments produced by one inference pass into a transcript.
/// An empty pass is a decode failure; a segment with timestamps outside the
/// formattable range, or a sequence whose start times decrease, is a
/// protocol violation. On success the transcript holds exactly the given
/// segments, so its segments are non-decreasing in start time.
pub fn assemble_transcript(segments: Vec<Segment>, processing_time_sec: u64) -> (r: Result<
    Transcript,
    CoreError,
>)
    ensures
        segments@.len() == 0 ==> (r matches Err(CoreError::DecodeFailure(m)) && m@
            == "no segements found!"@),
        segments@.len() > 0 && !all_segments_valid(segments@) ==> (r matches Err(
            CoreError::ProtocolError(m),
        ) && m@ == "segment timestamp out of range"@),
        segments@.len() > 0 && all_segments_valid(segments@) && !segments_ordered(segments@) ==> (r
            matches Err(CoreError::ProtocolError(m)) && m@ == "segments out of order"@),
        segments@.len() > 0 && all_segments_valid(segments@) && segments_ordered(segments@) ==> (r
            matches Ok(t) && t.segments@ == segments@ && t.processing_time_sec
            == processing_time_sec && t.wf()),
{
    let n = segments.len();
    if n == 0 {
        return Err(CoreError::DecodeFailure(String::from_str("no segements found!")));
    }
    let mut i: usize = 0;
    while i < n
        invariant
            0 <= i <= n,
            n == segments@.len(),
            forall|k: int| 0 <= k < i ==> (#[trigger] segments@[k]).valid(),
        decreases n - i,
    {
        let s = &segments[i];
        if !(0 <= s.start && s.start <= MAX_TIMESTAMP_CS && 0 <= s.stop && s.stop
            <= MAX_TIMESTAMP_CS) {
            return Err(CoreError::ProtocolError(String::from_str(
                "segment timestamp out of range",
            )));
        }
        i = i + 1;
    }
    proof {
        assert(all_segments_valid(segments@));
    }
    let mut j: usize = 1;
    while j < n
        invariant
            1 <= j <= n,
            n == segments@.len(),
            all_segments_valid(segments@),
            forall|k: int| 0 < k < j ==> #[trigger] segments@[k].start >= segments@[k - 1].start,
        decreases n - j,
    {
        if segments[j].start < segments[j - 1].start {
            return Err(CoreError::ProtocolError(String::from_str("segments out of order")));
        }
        j = j + 1;
    }
    Ok(Transcript { processing_time_sec, segments })
}


/// What has been gathered from the worker's event stream so far: already-
/// delivered segments are kept even if the stream later fails.
pub struct StreamAssembly {
    pub segments: Vec<Segment>,
    pub final_text: Option<String>,
    pub error: Option<String>,
    pub last_progress: i32,
}

impl StreamAssembly {
    /// Nothing received yet.
    pub fn new() -> (r: StreamAssembly)
        ensures
            r.segments@.len() == 0,
            r.final_text is None,
            r.error is None,
            r.last_progress == 0,
    {
        StreamAssembly { segments: Vec::new(), final_text: None, error: None, last_progress: 0 }
    }

    /// Applies one event: progress updates the counter, a segment event
    /// appends one segment with its speaker number rendered as a label, a
    /// result records the final text, and an error records the first error
    /// message. Already-collected segments are never retracted.
    pub fn apply_event(&mut self, ev: WorkerEvent)
        ensures
            ev matches WorkerEvent::Progress { progress } ==> (final (self).segments@ == old(self).segments@ && final (self).final_text == old(self).final_text && final (self).error
                == old(self).error && final (self).last_progress == progress),
            ev matches WorkerEvent::Segment { start, stop, text, speaker } ==> ({
                let segs = final (self).segments@;
                &&& segs.len() == old(self).segments@.len() + 1
                &&& segs.take(segs.len() - 1) == old(self).segments@
                &&& segs.last().start == start
                &&& segs.last().stop == stop
                &&& segs.last().text@ == text@
                &&& (speaker is None ==> segs.last().speaker is None)
                &&& (speaker matches Some(sp) ==> (segs.last().speaker matches Some(l) && l@
                    == int_str(sp as int)))
                &&& final (self).final_text == old(self).final_text
                &&& final (self).error == old(self).error
                &&& final (self).last_progress == old(self).last_progress
            }),
            ev matches WorkerEvent::Done { text } ==> (final (self).segments@ == old(self).segments@ && (final (self).final_text matches Some(t) && t@ == text@) && final (self).error == old(self).error && final (self).last_progress == old(self).last_progress),
            ev matches WorkerEvent::ErrorMsg { message } ==> (final (self).segments@ == old(self).segments@ && final (self).final_text == old(self).final_text && (old(self).error is None ==> (final (self).error matches Some(m) && m@ == message@)) && (old(self).error is Some ==> final (self).error == old(self).error) && final (self).last_progress
                == old(self).last_progress),
    {
        match ev {
            WorkerEvent::Progress { progress } => {
                self.last_progress = progress;
            },
            WorkerEvent::Segment { start, stop, text, speaker } => {
                let label: Option<String> = match speaker {
                    Some(sp) => {
                        let mut l = String::new();
                        push_i64_dec(&mut l, sp as i64);
                        Some(l)
                    },
                    None => None,
                };
                let seg = Segment { start, stop, text, speaker: label };
                let ghost pre = self.segments@;
                self.segments.push(seg);
                proof {
                    assert(self.segments@.take(self.segments@.len() - 1) =~= pre);
                }
            },
            WorkerEvent::Done { text } => {
                self.final_text = Some(text);
            },
            WorkerEvent::ErrorMsg { message } => {
                if self.error.is_none() {
                    self.error = Some(message);
                }
            },
        }
    }

    /// Closes the stream: a recorded error fails the pass as a process
    /// failure; otherwise the collected segments are assembled into a
    /// transcript, whose segments are then non-decreasing in start time.
    pub fn finish(self, processing_time_sec: u64) -> (r: Result<Transcript, CoreError>)
        ensures
            self.error matches Some(m) ==> (r matches Err(CoreError::ProcessFailure(msg)) && msg@
                == m@),
            self.error is None && self.segments@.len() == 0 ==> (r matches Err(
                CoreError::DecodeFailure(m),
            ) && m@ == "no segements found!"@),
            self.error is None && self.segments@.len() > 0 && !all_segments_valid(self.segments@)
                ==> (r matches Err(CoreError::ProtocolError(m)) && m@
                == "segment timestamp out of range"@),
            self.error is None && self.segments@.len() > 0 && all_segments_valid(self.segments@)
                && !segments_ordered(self.segments@) ==> (r matches Err(CoreError::ProtocolError(m))
                && m@ == "segments out of order"@),
            self.error is None && self.segments@.len() > 0 && all_segments_valid(self.segments@)
                && segments_ordered(self.segments@) ==> (r matches Ok(t) && t.segments@
                == self.segments@ && t.processing_time_sec == processing_time_sec && t.wf()),
    {
        match self.error {
            Some(m) => Err(CoreError::ProcessFailure(m)),
            None => assemble_transcript(self.segments, processing_time_sec),
        }
    }
}

} // verus!
