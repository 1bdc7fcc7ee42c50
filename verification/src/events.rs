//! The worker's streaming events: one flat JSON record per line, classified
//! into progress, segment, final-result and error events. Malformed lines
//! are skipped, never fatal.

use vstd::prelude::*;

use crate::json::{
    dval, is_digit, member_views, parse_json_object, spec_parse_object, JsonMember, JsonNum,
    JsonValue, SpecJsonValue,
};
use crate::text::{push_char, trim_spec, trim_text};

verus! {

/// One event from the worker's stream. Times are centiseconds.
pub enum WorkerEvent {
    Progress { progress: i32 },
    Segment { start: i64, stop: i64, text: String, speaker: Option<i32> },
    Done { text: String },
    ErrorMsg { message: String },
}

/// The specification-level event.
pub enum SpecWorkerEvent {
    Progress { progress: int },
    Segment { start: int, stop: int, text: Seq<char>, speaker: Option<int> },
    Done { text: Seq<char> },
    ErrorMsg { message: Seq<char> },
}

impl WorkerEvent {
    /// The specification-level event this value denotes.
    pub open spec fn as_spec(&self) -> SpecWorkerEvent {
        match self {
            WorkerEvent::Progress { progress } => SpecWorkerEvent::Progress {
                progress: *progress as int,
            },
            WorkerEvent::Segment { start, stop, text, speaker } => SpecWorkerEvent::Segment {
                start: *start as int,
                stop: *stop as int,
                text: text@,
                speaker: match speaker {
                    Some(s) => Some(*s as int),
                    None => None,
                },
            },
            WorkerEvent::Done { text } => SpecWorkerEvent::Done { text: text@ },
            WorkerEvent::ErrorMsg { message } => SpecWorkerEvent::ErrorMsg { message: message@ },
        }
    }
}

/// The value under the first occurrence of `key`.
pub open spec fn spec_lookup(ms: Seq<(Seq<char>, SpecJsonValue)>, key: Seq<char>) -> Option<
    SpecJsonValue,
>
    decreases ms.len(),
{
    if ms.len() == 0 {
        None
    } else if ms[0].0 == key {
        Some(ms[0].1)
    } else {
        spec_lookup(ms.skip(1), key)
    }
}

proof fn lemma_lookup_at(ms: Seq<(Seq<char>, SpecJsonValue)>, key: Seq<char>, k: int)
    requires
        0 <= k < ms.len(),
        ms[k].0 == key,
        forall|j: int| 0 <= j < k ==> (#[trigger] ms[j]).0 != key,
    ensures
        spec_lookup(ms, key) == Some(ms[k].1),
    decreases k,
{
    if k > 0 {
        let t = ms.skip(1);
        assert(forall|j: int| 0 <= j < k - 1 ==> (#[trigger] t[j]).0 != key);
        lemma_lookup_at(t, key, k - 1);
    }
}

proof fn lemma_lookup_none(ms: Seq<(Seq<char>, SpecJsonValue)>, key: Seq<char>)
    requires
        forall|j: int| 0 <= j < ms.len() ==> (#[trigger] ms[j]).0 != key,
    ensures
        spec_lookup(ms, key) is None,
    decreases ms.len(),
{
    if ms.len() > 0 {
        let t = ms.skip(1);
        assert(forall|j: int| 0 <= j < t.len() ==> (#[trigger] t[j]).0 != key);
        lemma_lookup_none(t, key);
    }
}

/// The index of the first member named `key`.
pub(crate) fn lookup(ms: &Vec<JsonMember>, key: &str) -> (r: Option<usize>)
    ensures
        match r {
            Some(ix) => ix < ms@.len() && spec_lookup(member_views(ms@), key@) == Some(
                ms@[ix as int].value.as_spec(),
            ),
            None => spec_lookup(member_views(ms@), key@) is None,
        },
{
    let n = ms.len();
    let key_string = String::from_str(key);
    let mut k: usize = 0;
    while k < n
        invariant
            0 <= k <= n,
            n == ms@.len(),
            key_string@ == key@,
            forall|j: int| 0 <= j < k ==> (#[trigger] member_views(ms@)[j]).0 != key@,
        decreases n - k,
    {
        if ms[k].key == key_string {
            proof {
                assert(member_views(ms@)[k as int].0 == key@);
                lemma_lookup_at(member_views(ms@), key@, k as int);
            }
            return Some(k);
        }
        proof {
            assert(member_views(ms@)[k as int].0 == ms@[k as int].key@);
        }
        k = k + 1;
    }
    proof {
        lemma_lookup_none(member_views(ms@), key@);
    }
    None
}

/// A parsed number as a 32-bit integer: no fraction, value in range.
pub open spec fn spec_num_to_i32(neg: bool, int_part: int, frac: Seq<char>) -> Option<int> {
    if frac.len() != 0 {
        None
    } else if neg {
        if int_part <= 2147483648 {
            Some(-int_part)
        } else {
            None
        }
    } else {
        if int_part <= 2147483647 {
            Some(int_part)
        } else {
            None
        }
    }
}

fn num_to_i32(n: &JsonNum) -> (r: Option<i32>)
    ensures
        match r {
            Some(x) => spec_num_to_i32(n.neg, n.int_part as int, n.frac@) == Some(x as int),
            None => spec_num_to_i32(n.neg, n.int_part as int, n.frac@) is None,
        },
{
    if !n.frac.as_str().is_empty() {
        return None;
    }
    if n.neg {
        if n.int_part <= 2147483648 {
            Some((-(n.int_part as i64)) as i32)
        } else {
            None
        }
    } else {
        if n.int_part <= 2147483647 {
            Some(n.int_part as i32)
        } else {
            None
        }
    }
}

/// A parsed number of seconds as non-negative centiseconds: the integer
/// part times one hundred plus the first two fraction digits, further
/// fraction digits truncated. Negative times and out-of-range values are
/// rejected.
pub open spec fn spec_num_to_cs(neg: bool, int_part: int, frac: Seq<char>) -> Option<int> {
    if neg || int_part >= 1000000000000000 {
        None
    } else {
        let f0: int = if frac.len() > 0 && is_digit(frac[0]) {
            dval(frac[0])
        } else {
            0
        };
        let f1: int = if frac.len() > 1 && is_digit(frac[1]) {
            dval(frac[1])
        } else {
            0
        };
        Some(int_part * 100 + f0 * 10 + f1)
    }
}

fn num_to_cs(n: &JsonNum) -> (r: Option<i64>)
    ensures
        match r {
            Some(x) => spec_num_to_cs(n.neg, n.int_part as int, n.frac@) == Some(x as int) && 0 <= x
                <= crate::transcript::MAX_TIMESTAMP_CS,
            None => spec_num_to_cs(n.neg, n.int_part as int, n.frac@) is None,
        },
{
    if n.neg || n.int_part >= 1000000000000000 {
        return None;
    }
    let frac = n.frac.as_str();
    let flen = frac.unicode_len();
    let f0: i64 = if flen > 0 {
        let c = frac.get_char(0);
        if is_digit_exec_local(c) {
            (c as u8 - 48) as i64
        } else {
            0
        }
    } else {
        0
    };
    let f1: i64 = if flen > 1 {
        let c = frac.get_char(1);
        if is_digit_exec_local(c) {
            (c as u8 - 48) as i64
        } else {
            0
        }
    } else {
        0
    };
    Some((n.int_part as i64) * 100 + f0 * 10 + f1)
}

fn is_digit_exec_local(c: char) -> (r: bool)
    ensures
        r == is_digit(c),
{
    '0' <= c && c <= '9'
}

/// The event denoted by a record's members, if the record is one of the
/// four event shapes: a `type` tag of `progress`, `segment`, `result` or
/// `error` with the fields that shape requires.
pub open spec fn spec_event_of_members(ms: Seq<(Seq<char>, SpecJsonValue)>) -> Option<
    SpecWorkerEvent,
> {
    match spec_lookup(ms, "type"@) {
        Some(SpecJsonValue::Text(t)) => {
            if t == "progress"@ {
                match spec_lookup(ms, "progress"@) {
                    Some(SpecJsonValue::Number { neg, int_part, frac }) => {
                        match spec_num_to_i32(neg, int_part, frac) {
                            Some(p) => Some(SpecWorkerEvent::Progress { progress: p }),
                            None => None,
                        }
                    },
                    _ => None,
                }
            } else if t == "segment"@ {
                match (spec_lookup(ms, "start"@), spec_lookup(ms, "end"@), spec_lookup(
                    ms,
                    "text"@,
                )) {
                    (
                        Some(SpecJsonValue::Number { neg: n0, int_part: i0, frac: v0 }),
                        Some(SpecJsonValue::Number { neg: n1, int_part: i1, frac: v1 }),
                        Some(SpecJsonValue::Text(txt)),
                    ) => {
                        match (spec_num_to_cs(n0, i0, v0), spec_num_to_cs(n1, i1, v1)) {
                            (Some(start), Some(stop)) => {
                                match spec_lookup(ms, "speaker"@) {
                                    None => Some(
                                        SpecWorkerEvent::Segment {
                                            start,
                                            stop,
                                            text: txt,
                                            speaker: None,
                                        },
                                    ),
                                    Some(SpecJsonValue::Null) => Some(
                                        SpecWorkerEvent::Segment {
                                            start,
                                            stop,
                                            text: txt,
                                            speaker: None,
                                        },
                                    ),
                                    Some(SpecJsonValue::Number { neg, int_part, frac }) => {
                                        match spec_num_to_i32(neg, int_part, frac) {
                                            Some(sp) => Some(
                                                SpecWorkerEvent::Segment {
                                                    start,
                                                    stop,
                                                    text: txt,
                                                    speaker: Some(sp),
                                                },
                                            ),
                                            None => None,
                                        }
                                    },
                                    _ => None,
                                }
                            },
                            _ => None,
                        }
                    },
                    _ => None,
                }
            } else if t == "result"@ {
                match spec_lookup(ms, "text"@) {
                    Some(SpecJsonValue::Text(txt)) => Some(SpecWorkerEvent::Done { text: txt }),
                    _ => None,
                }
            } else if t == "error"@ {
                match spec_lookup(ms, "message"@) {
                    Some(SpecJsonValue::Text(m)) => Some(SpecWorkerEvent::ErrorMsg { message: m }),
                    _ => None,
                }
            } else {
                None
            }
        },
        _ => None,
    }
}

/// The event denoted by one line: its record's event, if the line is a
/// record of one of the event shapes.
pub open spec fn spec_parse_event(s: Seq<char>) -> Option<SpecWorkerEvent> {
    match spec_parse_object(s) {
        Some(ms) => spec_event_of_members(ms),
        None => None,
    }
}

fn event_of_members(ms: &Vec<JsonMember>) -> (r: Option<WorkerEvent>)
    ensures
        match r {
            Some(ev) => spec_event_of_members(member_views(ms@)) == Some(ev.as_spec()),
            None => spec_event_of_members(member_views(ms@)) is None,
        },
{
    let tag_ix = match lookup(ms, "type") {
        Some(ix) => ix,
        None => {
            return None;
        },
    };
    let tag = match &ms[tag_ix].value {
        JsonValue::Text(t) => t,
        _ => {
            return None;
        },
    };
    let t_progress = String::from_str("progress");
    let t_segment = String::from_str("segment");
    let t_result = String::from_str("result");
    let t_error = String::from_str("error");
    if *tag == t_progress {
        let ix = match lookup(ms, "progress") {
            Some(ix) => ix,
            None => {
                return None;
            },
        };
        match &ms[ix].value {
            JsonValue::Number(num) => match num_to_i32(num) {
                Some(p) => Some(WorkerEvent::Progress { progress: p }),
                None => None,
            },
            _ => None,
        }
    } else if *tag == t_segment {
        let six = match lookup(ms, "start") {
            Some(ix) => ix,
            None => {
                return None;
            },
        };
        let eix = match lookup(ms, "end") {
            Some(ix) => ix,
            None => {
                return None;
            },
        };
        let tix = match lookup(ms, "text") {
            Some(ix) => ix,
            None => {
                return None;
            },
        };
        let start = match &ms[six].value {
            JsonValue::Number(num) => match num_to_cs(num) {
                Some(v) => v,
                None => {
                    return None;
                },
            },
            _ => {
                return None;
            },
        };
        let stop = match &ms[eix].value {
            JsonValue::Number(num) => match num_to_cs(num) {
                Some(v) => v,
                None => {
                    return None;
                },
            },
            _ => {
                return None;
            },
        };
        let txt = match &ms[tix].value {
            JsonValue::Text(t) => t.clone(),
            _ => {
                return None;
            },
        };
        let speaker: Option<i32> = match lookup(ms, "speaker") {
            None => None,
            Some(ix) => match &ms[ix].value {
                JsonValue::Null => None,
                JsonValue::Number(num) => match num_to_i32(num) {
                    Some(sp) => Some(sp),
                    None => {
                        return None;
                    },
                },
                _ => {
                    return None;
                },
            },
        };
        Some(WorkerEvent::Segment { start, stop, text: txt, speaker })
    } else if *tag == t_result {
        let ix = match lookup(ms, "text") {
            Some(ix) => ix,
            None => {
                return None;
            },
        };
        match &ms[ix].value {
            JsonValue::Text(t) => Some(WorkerEvent::Done { text: t.clone() }),
            _ => None,
        }
    } else if *tag == t_error {
        let ix = match lookup(ms, "message") {
            Some(ix) => ix,
            None => {
                return None;
            },
        };
        match &ms[ix].value {
            JsonValue::Text(t) => Some(WorkerEvent::ErrorMsg { message: t.clone() }),
            _ => None,
        }
    } else {
        None
    }
}

/// Parses one stream line into its event, or nothing for a malformed line.
pub fn parse_event_line(line: &str) -> (r: Option<WorkerEvent>)
    ensures
        match r {
            Some(ev) => spec_parse_event(line@) == Some(ev.as_spec()),
            None => spec_parse_event(line@) is None,
        },
{
    match parse_json_object(line) {
        Some(ms) => event_of_members(&ms),
        None => None,
    }
}

/// The lines of a chunk, split at newline characters.
pub open spec fn spec_split_lines(s: Seq<char>) -> Seq<Seq<char>>
    decreases s.len(),
{
    let nl = spec_find_nl(s, 0);
    if !(0 <= nl <= s.len()) {
        Seq::empty()
    } else if nl == s.len() {
        seq![s]
    } else {
        seq![s.take(nl)] + spec_split_lines(s.skip(nl + 1))
    }
}

/// The first newline at or after `i`, or the length when there is none.
pub open spec fn spec_find_nl(s: Seq<char>, i: int) -> int
    decreases s.len() - i,
    when 0 <= i <= s.len()
{
    if i < s.len() {
        if s[i] == '\n' {
            i
        } else {
            spec_find_nl(s, i + 1)
        }
    } else {
        i
    }
}


/// The events carried by a sequence of lines: each line trimmed, empty
/// lines and malformed lines skipped.
pub open spec fn spec_events_of_lines(lines: Seq<Seq<char>>) -> Seq<SpecWorkerEvent>
    decreases lines.len(),
{
    if lines.len() == 0 {
        Seq::empty()
    } else {
        let t = trim_spec(lines[0]);
        let rest = spec_events_of_lines(lines.skip(1));
        if t.len() == 0 {
            rest
        } else {
            match spec_parse_event(t) {
                Some(e) => seq![e] + rest,
                None => rest,
            }
        }
    }
}

/// The events carried by one chunk of the stream.
pub open spec fn spec_chunk_events(s: Seq<char>) -> Seq<SpecWorkerEvent> {
    spec_events_of_lines(spec_split_lines(s))
}

/// The specification-level view of an event list.
pub open spec fn event_views(evs: Seq<WorkerEvent>) -> Seq<SpecWorkerEvent> {
    evs.map_values(|e: WorkerEvent| e.as_spec())
}

/// Splits one stream chunk into lines and parses each: whitespace-only
/// lines and malformed lines are skipped, never fatal.
pub fn parse_chunk_events(chunk: &str) -> (r: Vec<WorkerEvent>)
    requires
        chunk@.len() < usize::MAX,
    ensures
        event_views(r@) == spec_chunk_events(chunk@),
{
    let n = chunk.unicode_len();
    let mut out: Vec<WorkerEvent> = Vec::new();
    let mut pos: usize = 0;
    let ghost whole = chunk@;
    proof {
        assert(whole.skip(0) =~= whole);
        assert(event_views(out@) =~= Seq::<SpecWorkerEvent>::empty());
    }
    while pos <= n
        invariant
            0 <= pos <= n + 1,
            n == chunk@.len(),
            n < usize::MAX,
            whole == chunk@,
            event_views(out@) + (if pos <= n {
                spec_events_of_lines(spec_split_lines(whole.skip(pos as int)))
            } else {
                Seq::<SpecWorkerEvent>::empty()
            }) == spec_chunk_events(whole),
        decreases n + 1 - pos,
    {
        let ghost pos0 = pos as int;
        let ghost rest = whole.skip(pos0);
        // find the end of the current line
        let mut e: usize = pos;
        while e < n && !(chunk.get_char(e) == '\n')
            invariant
                pos <= e <= n,
                n == chunk@.len(),
                forall|q: int| pos <= q < e ==> chunk@[q] != '\n',
            decreases n - e,
        {
            e = e + 1;
        }
        // the current line is chunk[pos..e]
        let mut line = String::new();
        let mut q = pos;
        while q < e
            invariant
                pos <= q <= e <= n,
                n == chunk@.len(),
                line@ =~= chunk@.subrange(pos as int, q as int),
            decreases e - q,
        {
            push_char(&mut line, chunk.get_char(q));
            q = q + 1;
            proof {
                assert(line@ =~= chunk@.subrange(pos as int, q as int));
            }
        }
        let ghost lines_all = spec_split_lines(rest);
        proof {
            lemma_split_step(whole, pos0, e as int);
            assert(line@ =~= whole.subrange(pos0, e as int));
            if e < n {
                assert(lines_all =~= seq![line@] + spec_split_lines(whole.skip(e + 1)));
                assert(lines_all[0] == line@);
                assert(lines_all.skip(1) =~= spec_split_lines(whole.skip(e + 1)));
            } else {
                assert(lines_all =~= seq![line@]);
                assert(lines_all[0] == line@);
                assert(lines_all.skip(1) =~= Seq::<Seq<char>>::empty());
                assert(spec_events_of_lines(lines_all.skip(1)) =~= Seq::<SpecWorkerEvent>::empty());
            }
        }
        let ghost pending_new = spec_events_of_lines(lines_all.skip(1));
        let trimmed = trim_text(line.as_str());
        let ghost done = event_views(out@);
        proof {
            assert(spec_events_of_lines(lines_all) == (if trim_spec(line@).len() == 0 {
                pending_new
            } else {
                match spec_parse_event(trim_spec(line@)) {
                    Some(ev) => seq![ev] + pending_new,
                    None => pending_new,
                }
            }));
        }
        if !trimmed.as_str().is_empty() {
            match parse_event_line(trimmed.as_str()) {
                Some(ev) => {
                    let ghost evs = ev.as_spec();
                    out.push(ev);
                    proof {
                        assert(event_views(out@) =~= done + seq![evs]);
                        assert(event_views(out@) + pending_new =~= done + (seq![evs]
                            + pending_new));
                    }
                },
                None => {
                },
            }
        }
        pos = e + 1;
        proof {
            assert(event_views(out@) + pending_new == spec_chunk_events(whole));
            if pos <= n {
                assert(whole.skip(pos as int) =~= whole.skip(e + 1));
                assert(lines_all.skip(1) =~= spec_split_lines(whole.skip(pos as int)));
            }
        }
    }
    proof {
        assert(event_views(out@) + Seq::<SpecWorkerEvent>::empty() =~= event_views(out@));
    }
    out
}


/// When no newline sits in `[i, e)` the first newline search from `i` ends
/// at `e` (a newline) or at the chunk's end.
proof fn lemma_find_nl_from(s: Seq<char>, i: int, e: int)
    requires
        0 <= i <= e <= s.len(),
        forall|q: int| i <= q < e ==> s[q] != '\n',
        e == s.len() || s[e] == '\n',
    ensures
        spec_find_nl(s, i) == e,
    decreases e - i,
{
    if i < e {
        lemma_find_nl_from(s, i + 1, e);
    }
}

/// One splitting step: the lines of the suffix at `pos` are the current
/// line followed by the lines of the suffix after its newline (or just the
/// current line when it runs to the end).
proof fn lemma_split_step(s: Seq<char>, pos: int, e: int)
    requires
        0 <= pos <= e <= s.len(),
        forall|q: int| pos <= q < e ==> s[q] != '\n',
        e == s.len() || s[e] == '\n',
    ensures
        e < s.len() ==> spec_split_lines(s.skip(pos)) == seq![s.subrange(pos, e)]
            + spec_split_lines(s.skip(e + 1)),
        e == s.len() ==> spec_split_lines(s.skip(pos)) == seq![s.subrange(pos, e)],
{
    let rest = s.skip(pos);
    assert(forall|q: int| 0 <= q < e - pos ==> rest[q] != '\n');
    if e < s.len() {
        assert(rest[e - pos] == '\n');
        lemma_find_nl_from(rest, 0, e - pos);
        assert(rest.take(e - pos) =~= s.subrange(pos, e));
        assert(rest.skip(e - pos + 1) =~= s.skip(e + 1));
    } else {
        lemma_find_nl_from(rest, 0, e - pos);
        assert(spec_find_nl(rest, 0) == rest.len());
        assert(rest.take(e - pos) =~= s.subrange(pos, e));
        assert(rest =~= s.subrange(pos, e));
    }
}

} // verus!
