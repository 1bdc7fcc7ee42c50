//! Supervision of the separate worker process: its lifecycle state machine,
//! the readiness handshake, model-load retries with exponential backoff and
//! the one-shot CPU fallback after persistent GPU failure, and the form
//! fields of a streaming transcription request.

use vstd::prelude::*;

use crate::error::CoreError;
use crate::events::{lookup, spec_lookup};
use crate::json::{member_views, parse_json_object, spec_parse_object, JsonValue, SpecJsonValue};
use crate::options::TranscribeOptions;
use crate::text::{dec_str, int_str, pad2, push_char, push_i64_dec, push_str, push_u64_dec};

verus! {

/// The worker lifecycle: spawned but not yet ready, ready for loads, a
/// model loaded, a request in flight, or failed after a crash or exit.
#[derive(Debug, Clone, Copy, PartialEq, Eq, Structural)]
pub enum WorkerState {
    NotStarted,
    Starting,
    Ready,
    ModelLoaded,
    Busy,
    Failed,
}

/// The readiness record printed as the worker's first stdout line: its
/// status text and the bound ephemeral port.
pub open spec fn spec_ready_signal(s: Seq<char>) -> Option<(Seq<char>, int)> {
    match spec_parse_object(s) {
        Some(ms) => match (spec_lookup(ms, "status"@), spec_lookup(ms, "port"@)) {
            (
                Some(SpecJsonValue::Text(st)),
                Some(SpecJsonValue::Number { neg, int_part, frac }),
            ) => {
                if !neg && frac.len() == 0 && int_part <= 65535 {
                    Some((st, int_part))
                } else {
                    None
                }
            },
            _ => None,
        },
        None => None,
    }
}

/// Parses the readiness handshake line: a record with a `status` text and a
/// `port` that fits an unsigned 16-bit integer.
pub fn parse_ready_signal(line: &str) -> (r: Option<(String, u16)>)
    ensures
        match r {
            Some((st, p)) => spec_ready_signal(line@) == Some((st@, p as int)),
            None => spec_ready_signal(line@) is None,
        },
{
    let ms = match parse_json_object(line) {
        Some(ms) => ms,
        None => {
            return None;
        },
    };
    let six = match lookup(&ms, "status") {
        Some(ix) => ix,
        None => {
            return None;
        },
    };
    let pix = match lookup(&ms, "port") {
        Some(ix) => ix,
        None => {
            return None;
        },
    };
    let st = match &ms[six].value {
        JsonValue::Text(t) => t.clone(),
        _ => {
            return None;
        },
    };
    match &ms[pix].value {
        JsonValue::Number(num) => {
            if !num.neg && num.frac.as_str().is_empty() && num.int_part <= 65535 {
                Some((st, num.int_part as u16))
            } else {
                None
            }
        },
        _ => None,
    }
}

/// One worker process under supervision.
pub struct WorkerSupervisor {
    pub state: WorkerState,
    pub port: Option<u16>,
}

impl WorkerSupervisor {
    /// No process yet.
    pub fn new() -> (r: WorkerSupervisor)
        ensures
            r.state == WorkerState::NotStarted,
            r.port is None,
    {
        WorkerSupervisor { state: WorkerState::NotStarted, port: None }
    }

    /// Decides a spawn attempt: a missing worker binary is reported as a
    /// missing resource and the supervisor does not move, so no request of
    /// any kind is issued; with the binary present the worker is starting.
    pub fn spawn(&mut self, binary_exists: bool) -> (r: Result<(), CoreError>)
        ensures
            !binary_exists ==> (r matches Err(CoreError::ResourceMissing(m)) && m@
                == "worker binary not found"@ && *final (self) == *old(self)),
            binary_exists ==> (r is Ok && final (self).state == WorkerState::Starting
                && final (self).port is None),
    {
        if !binary_exists {
            return Err(CoreError::ResourceMissing(String::from_str("worker binary not found")));
        }
        self.state = WorkerState::Starting;
        self.port = None;
        Ok(())
    }

    /// Consumes the handshake line. A parseable readiness record makes the
    /// worker ready on its port; anything else is a protocol error carrying
    /// the worker's captured stderr for diagnostics, and the worker counts
    /// as failed.
    pub fn handshake(&mut self, line: &str, stderr_excerpt: &str) -> (r: Result<u16, CoreError>)
        requires
            old(self).state == WorkerState::Starting,
        ensures
            spec_ready_signal(line@) matches Some((st, p)) ==> (r matches Ok(port) && port as int
                == p && final (self).state == WorkerState::Ready && final (self).port == Some(
                port,
            )),
            spec_ready_signal(line@) is None ==> (r matches Err(CoreError::ProtocolError(m)) && m@
                == handshake_error_message(stderr_excerpt@) && final (self).state
                == WorkerState::Failed),
    {
        match parse_ready_signal(line) {
            Some((_status, port)) => {
                self.state = WorkerState::Ready;
                self.port = Some(port);
                Ok(port)
            },
            None => {
                self.state = WorkerState::Failed;
                let mut m = String::from_str("failed to parse sona ready signal");
                if !stderr_excerpt.is_empty() {
                    push_str(&mut m, "\n\nsona stderr: ");
                    push_str(&mut m, stderr_excerpt);
                }
                proof {
                    assert(m@ =~= handshake_error_message(stderr_excerpt@));
                }
                Err(CoreError::ProtocolError(m))
            },
        }
    }

    /// A successful model load makes the worker ready for requests.
    pub fn model_loaded(&mut self)
        requires
            old(self).state == WorkerState::Ready || old(self).state == WorkerState::ModelLoaded,
        ensures
            final (self).state == WorkerState::ModelLoaded,
            final (self).port == old(self).port,
    {
        self.state = WorkerState::ModelLoaded;
    }

    /// Starts one request: only one inference runs at a time, so a request
    /// during another is rejected as busy, and one before any model is
    /// loaded is rejected outright.
    pub fn begin_request(&mut self) -> (r: Result<(), CoreError>)
        ensures
            old(self).state == WorkerState::ModelLoaded ==> (r is Ok && final (self).state
                == WorkerState::Busy && final (self).port == old(self).port),
            old(self).state == WorkerState::Busy ==> (r matches Err(CoreError::ConfigError(m)) && m@
                == "a transcription is already running"@ && *final (self) == *old(self)),
            old(self).state != WorkerState::ModelLoaded && old(self).state != WorkerState::Busy
                ==> (r matches Err(CoreError::ConfigError(m)) && m@ == "Please load model first"@
                && *final (self) == *old(self)),
    {
        match self.state {
            WorkerState::ModelLoaded => {
                self.state = WorkerState::Busy;
                Ok(())
            },
            WorkerState::Busy => Err(
                CoreError::ConfigError(String::from_str("a transcription is already running")),
            ),
            _ => Err(CoreError::ConfigError(String::from_str("Please load model first"))),
        }
    }

    /// The in-flight request finished.
    pub fn request_finished(&mut self)
        requires
            old(self).state == WorkerState::Busy,
        ensures
            final (self).state == WorkerState::ModelLoaded,
            final (self).port == old(self).port,
    {
        self.state = WorkerState::ModelLoaded;
    }

    /// The process exited or crashed: every state may fail.
    pub fn process_died(&mut self)
        ensures
            final (self).state == WorkerState::Failed,
            final (self).port is None,
    {
        self.state = WorkerState::Failed;
        self.port = None;
    }

    /// Termination is idempotent and always leaves a clean slate, from
    /// which a respawn is possible.
    pub fn kill(&mut self)
        ensures
            final (self).state == WorkerState::NotStarted,
            final (self).port is None,
    {
        self.state = WorkerState::NotStarted;
        self.port = None;
    }
}

/// The handshake failure message: the base text, with the worker's stderr
/// appended when any was captured.
pub open spec fn handshake_error_message(stderr_excerpt: Seq<char>) -> Seq<char> {
    if stderr_excerpt.len() == 0 {
        "failed to parse sona ready signal"@
    } else {
        "failed to parse sona ready signal"@ + "\n\nsona stderr: "@ + stderr_excerpt
    }
}

/// What one load attempt came back with.
pub enum LoadOutcome {
    TransportFailure,
    HttpError { body: String },
    Success,
}

/// Its specification-level form.
pub enum SpecLoadOutcome {
    TransportFailure,
    HttpError { body: Seq<char> },
    Success,
}

impl LoadOutcome {
    pub open spec fn as_spec(&self) -> SpecLoadOutcome {
        match self {
            LoadOutcome::TransportFailure => SpecLoadOutcome::TransportFailure,
            LoadOutcome::HttpError { body } => SpecLoadOutcome::HttpError { body: body@ },
            LoadOutcome::Success => SpecLoadOutcome::Success,
        }
    }
}

/// What the caller must do next after reporting a load outcome.
pub enum LoadAction {
    Wait { delay_ms: u64 },
    FallbackRespawn,
    Fail { error: CoreError },
    Done { fallback_used: bool },
}

/// Its specification-level form.
pub enum SpecLoadAction {
    Wait { delay_ms: int },
    FallbackRespawn,
    Fail { message: Seq<char> },
    Done { fallback_used: bool },
}

impl LoadAction {
    pub open spec fn as_spec(&self) -> SpecLoadAction {
        match self {
            LoadAction::Wait { delay_ms } => SpecLoadAction::Wait { delay_ms: *delay_ms as int },
            LoadAction::FallbackRespawn => SpecLoadAction::FallbackRespawn,
            LoadAction::Fail { error } => SpecLoadAction::Fail { message: error.message_spec() },
            LoadAction::Done { fallback_used } => SpecLoadAction::Done {
                fallback_used: *fallback_used,
            },
        }
    }
}

/// The message of a load that kept failing at the transport after all its
/// attempts.
pub open spec fn load_exhausted_message() -> Seq<char> {
    "failed to send load_model request to sona after 3 attempts"@
}

/// The message of a load the worker itself rejected.
pub open spec fn load_rejected_message(body: Seq<char>) -> Seq<char> {
    "sona load_model failed: "@ + body
}

/// One retry-supervision step. A transport failure is retried with a
/// doubling delay until three attempts are spent; a rejected load fails at
/// once. When GPU was requested and loading persistently fails, exactly one
/// kill-and-respawn with GPU disabled is granted, with a single further
/// attempt; a remaining failure propagates. Returns the new attempt count,
/// the new fallback flag, and the action.
pub open spec fn spec_load_step(
    attempts: nat,
    gpu_requested: bool,
    fallback_done: bool,
    outcome: SpecLoadOutcome,
) -> (nat, bool, SpecLoadAction) {
    match outcome {
        SpecLoadOutcome::Success => (
            attempts,
            fallback_done,
            SpecLoadAction::Done { fallback_used: fallback_done },
        ),
        SpecLoadOutcome::TransportFailure => {
            if attempts + 1 < 3 {
                (
                    (attempts + 1) as nat,
                    fallback_done,
                    SpecLoadAction::Wait { delay_ms: if attempts + 1 == 1 {
                        1000
                    } else {
                        2000
                    } },
                )
            } else if gpu_requested && !fallback_done {
                (2, true, SpecLoadAction::FallbackRespawn)
            } else {
                (3, fallback_done, SpecLoadAction::Fail { message: load_exhausted_message() })
            }
        },
        SpecLoadOutcome::HttpError { body } => {
            if gpu_requested && !fallback_done {
                (2, true, SpecLoadAction::FallbackRespawn)
            } else {
                (attempts, fallback_done, SpecLoadAction::Fail {
                    message: load_rejected_message(body),
                })
            }
        },
    }
}

/// Retry supervision for one model load.
pub struct LoadSupervisor {
    pub attempts: u32,
    pub gpu_requested: bool,
    pub fallback_done: bool,
}

impl LoadSupervisor {
    pub open spec fn inv(&self) -> bool {
        self.attempts <= 3
    }

    /// A fresh load: no attempts spent, no fallback used.
    pub fn new(gpu_requested: bool) -> (r: LoadSupervisor)
        ensures
            r.attempts == 0,
            r.gpu_requested == gpu_requested,
            !r.fallback_done,
            r.inv(),
    {
        LoadSupervisor { attempts: 0, gpu_requested, fallback_done: false }
    }

    /// Reports one attempt's outcome and learns what to do next.
    pub fn next_action(&mut self, outcome: LoadOutcome) -> (r: LoadAction)
        requires
            old(self).inv(),
        ensures
            final (self).inv(),
            final (self).gpu_requested == old(self).gpu_requested,
            ({
                let (attempts2, fallback2, action) = spec_load_step(
                    old(self).attempts as nat,
                    old(self).gpu_requested,
                    old(self).fallback_done,
                    outcome.as_spec(),
                );
                &&& final (self).attempts as nat == attempts2
                &&& final (self).fallback_done == fallback2
                &&& r.as_spec() == action
            }),
    {
        match outcome {
            LoadOutcome::Success => LoadAction::Done { fallback_used: self.fallback_done },
            LoadOutcome::TransportFailure => {
                if self.attempts + 1 < 3 {
                    self.attempts = self.attempts + 1;
                    let delay: u64 = if self.attempts == 1 {
                        1000
                    } else {
                        2000
                    };
                    LoadAction::Wait { delay_ms: delay }
                } else if self.gpu_requested && !self.fallback_done {
                    self.attempts = 2;
                    self.fallback_done = true;
                    LoadAction::FallbackRespawn
                } else {
                    self.attempts = 3;
                    LoadAction::Fail {
                        error: CoreError::ProcessFailure(
                            String::from_str(
                                "failed to send load_model request to sona after 3 attempts",
                            ),
                        ),
                    }
                }
            },
            LoadOutcome::HttpError { body } => {
                if self.gpu_requested && !self.fallback_done {
                    self.attempts = 2;
                    self.fallback_done = true;
                    LoadAction::FallbackRespawn
                } else {
                    let mut m = String::from_str("sona load_model failed: ");
                    push_str(&mut m, body.as_str());
                    LoadAction::Fail { error: CoreError::ProcessFailure(m) }
                }
            },
        }
    }
}

/// Three consecutive transport failures of a fresh load without GPU exhaust
/// the attempts and fail with the message naming the three attempts; with
/// GPU requested, the same three failures grant exactly one respawn-and-
/// retry cycle, and one further failure after the fallback propagates
/// instead of granting another cycle.
pub proof fn lemma_load_retry_exhaustion(gpu: bool)
    ensures
        ({
            let s1 = spec_load_step(0, gpu, false, SpecLoadOutcome::TransportFailure);
            let s2 = spec_load_step(s1.0, gpu, s1.1, SpecLoadOutcome::TransportFailure);
            let s3 = spec_load_step(s2.0, gpu, s2.1, SpecLoadOutcome::TransportFailure);
            &&& s1.2 == SpecLoadAction::Wait { delay_ms: 1000int }
            &&& s2.2 == SpecLoadAction::Wait { delay_ms: 2000int }
            &&& (!gpu ==> s3.2 == SpecLoadAction::Fail { message: load_exhausted_message() })
            &&& (gpu ==> s3.2 == SpecLoadAction::FallbackRespawn && s3.1)
            &&& (gpu ==> spec_load_step(s3.0, gpu, s3.1, SpecLoadOutcome::TransportFailure).2
                == SpecLoadAction::Fail { message: load_exhausted_message() })
        }),
{
}

/// One form field of the streaming request.
pub struct FormField {
    pub name: String,
    pub value: String,
}

/// The specification-level view of the fields.
pub open spec fn form_views(fs: Seq<FormField>) -> Seq<(Seq<char>, Seq<char>)> {
    fs.map_values(|f: FormField| (f.name@, f.value@))
}

/// The decimal rendering of a temperature in hundredths, as its shortest
/// decimal form: `40` is `0.4`, `125` is `1.25`, `200` is `2`.
pub open spec fn temp_str(t: int) -> Seq<char>
    recommends
        t >= 0,
{
    let whole = t / 100;
    let frac = t % 100;
    if frac == 0 {
        dec_str(whole as nat)
    } else if frac % 10 == 0 {
        dec_str(whole as nat) + "."@ + dec_str((frac / 10) as nat)
    } else {
        dec_str(whole as nat) + "."@ + pad2(frac as nat)
    }
}

/// Appends the shortest decimal form of a temperature in hundredths.
fn push_temp(s: &mut String, t: i32)
    requires
        t > 0,
    ensures
        final (s)@ == old(s)@ + temp_str(t as int),
{
    let whole: u64 = (t as u64) / 100;
    let frac: u64 = (t as u64) % 100;
    if frac == 0 {
        push_u64_dec(s, whole);
    } else if frac % 10 == 0 {
        push_u64_dec(s, whole);
        push_str(s, ".");
        push_u64_dec(s, frac / 10);
        proof {
            assert(s@ =~= old(s)@ + temp_str(t as int));
        }
    } else {
        push_u64_dec(s, whole);
        push_str(s, ".");
        if frac < 10 {
            push_char(s, '0');
        }
        push_u64_dec(s, frac);
        proof {
            assert(s@ =~= old(s)@ + temp_str(t as int));
        }
    }
}

/// The first half of the request's form fields: the streaming marker, then
/// language, translate, prompt, thread count, temperature and text context
/// when set and meaningful.
pub open spec fn spec_form_fields_head(o: &TranscribeOptions) -> Seq<(Seq<char>, Seq<char>)> {
    seq![("stream"@, "true"@)] + (if o.lang is Some && o.lang->0@.len() > 0 {
        seq![("language"@, o.lang->0@)]
    } else {
        Seq::empty()
    }) + (if o.translate matches Some(true) {
        seq![("translate"@, "true"@)]
    } else {
        Seq::empty()
    }) + (if o.init_prompt is Some && o.init_prompt->0@.len() > 0 {
        seq![("prompt"@, o.init_prompt->0@)]
    } else {
        Seq::empty()
    }) + (if o.n_threads is Some && o.n_threads->0 > 0 {
        seq![("n_threads"@, int_str(o.n_threads->0 as int))]
    } else {
        Seq::empty()
    }) + (if o.temperature_hundredths is Some && o.temperature_hundredths->0 > 0 {
        seq![("temperature"@, temp_str(o.temperature_hundredths->0 as int))]
    } else {
        Seq::empty()
    }) + (if o.max_text_ctx is Some && o.max_text_ctx->0 > 0 {
        seq![("max_text_ctx"@, int_str(o.max_text_ctx->0 as int))]
    } else {
        Seq::empty()
    })
}

/// The second half: word timestamps, segment length, sampling strategy and
/// its widths, and the diarization model, when set and meaningful.
pub open spec fn spec_form_fields_tail(o: &TranscribeOptions) -> Seq<(Seq<char>, Seq<char>)> {
    (if o.word_timestamps matches Some(true) {
        seq![("word_timestamps"@, "true"@)]
    } else {
        Seq::empty()
    }) + (if o.max_sentence_len is Some && o.max_sentence_len->0 > 0 {
        seq![("max_segment_len"@, int_str(o.max_sentence_len->0 as int))]
    } else {
        Seq::empty()
    }) + (if o.sampling_strategy is Some && o.sampling_strategy->0@ == "beam search"@ {
        seq![("sampling_strategy"@, "beam_search"@)]
    } else {
        Seq::empty()
    }) + (if o.best_of is Some && o.best_of->0 > 0 {
        seq![("best_of"@, int_str(o.best_of->0 as int))]
    } else {
        Seq::empty()
    }) + (if o.beam_size is Some && o.beam_size->0 > 0 {
        seq![("beam_size"@, int_str(o.beam_size->0 as int))]
    } else {
        Seq::empty()
    }) + (if o.diarize_model is Some && o.diarize_model->0@.len() > 0 {
        seq![("diarize_model"@, o.diarize_model->0@)]
    } else {
        Seq::empty()
    })
}

/// The form fields the request carries for the given options: the streaming
/// marker, then one field per set and meaningful option, in a fixed order.
pub open spec fn spec_form_fields(o: &TranscribeOptions) -> Seq<(Seq<char>, Seq<char>)> {
    spec_form_fields_head(o) + spec_form_fields_tail(o)
}

#[verifier::rlimit(80)]
fn form_fields_head(options: &TranscribeOptions, v: &mut Vec<FormField>)
    requires
        old(v)@.len() == 0,
    ensures
        form_views(final (v)@) == spec_form_fields_head(options),
{
    let o = options;
    v.push(FormField { name: String::from_str("stream"), value: String::from_str("true") });
    let ghost mut acc: Seq<(Seq<char>, Seq<char>)> = seq![("stream"@, "true"@)];
    proof {
        assert(form_views(v@) =~= acc);
    }
    if let Some(lang) = &options.lang {
        if !lang.as_str().is_empty() {
            v.push(FormField { name: String::from_str("language"), value: lang.clone() });
        }
    }
    proof {
        acc = acc + (if o.lang is Some && o.lang->0@.len() > 0 {
            seq![("language"@, o.lang->0@)]
        } else {
            Seq::empty()
        });
        assert(form_views(v@) =~= acc);
    }
    if matches!(options.translate, Some(true)) {
        v.push(FormField { name: String::from_str("translate"), value: String::from_str("true") });
    }
    proof {
        acc = acc + (if o.translate matches Some(true) {
            seq![("translate"@, "true"@)]
        } else {
            Seq::empty()
        });
        assert(form_views(v@) =~= acc);
    }
    if let Some(p) = &options.init_prompt {
        if !p.as_str().is_empty() {
            v.push(FormField { name: String::from_str("prompt"), value: p.clone() });
        }
    }
    proof {
        acc = acc + (if o.init_prompt is Some && o.init_prompt->0@.len() > 0 {
            seq![("prompt"@, o.init_prompt->0@)]
        } else {
            Seq::empty()
        });
        assert(form_views(v@) =~= acc);
    }
    if let Some(n) = options.n_threads {
        if n > 0 {
            let mut val = String::new();
            push_i64_dec(&mut val, n as i64);
            v.push(FormField { name: String::from_str("n_threads"), value: val });
        }
    }
    proof {
        acc = acc + (if o.n_threads is Some && o.n_threads->0 > 0 {
            seq![("n_threads"@, int_str(o.n_threads->0 as int))]
        } else {
            Seq::empty()
        });
        assert(form_views(v@) =~= acc);
    }
    if let Some(t) = options.temperature_hundredths {
        if t > 0 {
            let mut val = String::new();
            push_temp(&mut val, t);
            v.push(FormField { name: String::from_str("temperature"), value: val });
        }
    }
    proof {
        acc = acc + (if o.temperature_hundredths is Some && o.temperature_hundredths->0 > 0 {
            seq![("temperature"@, temp_str(o.temperature_hundredths->0 as int))]
        } else {
            Seq::empty()
        });
        assert(form_views(v@) =~= acc);
    }
    if let Some(n) = options.max_text_ctx {
        if n > 0 {
            let mut val = String::new();
            push_i64_dec(&mut val, n as i64);
            v.push(FormField { name: String::from_str("max_text_ctx"), value: val });
        }
    }
    proof {
        acc = acc + (if o.max_text_ctx is Some && o.max_text_ctx->0 > 0 {
            seq![("max_text_ctx"@, int_str(o.max_text_ctx->0 as int))]
        } else {
            Seq::empty()
        });
        assert(form_views(v@) =~= acc);
        assert(acc == spec_form_fields_head(options));
    }
}

#[verifier::rlimit(80)]
fn form_fields_tail(options: &TranscribeOptions, v: &mut Vec<FormField>)
    ensures
        form_views(final (v)@) == form_views(old(v)@) + spec_form_fields_tail(options),
{
    let o = options;
    let ghost base: Seq<(Seq<char>, Seq<char>)> = form_views(v@);
    let ghost mut acc: Seq<(Seq<char>, Seq<char>)> = base;
    if matches!(options.word_timestamps, Some(true)) {
        v.push(
            FormField {
                name: String::from_str("word_timestamps"),
                value: String::from_str("true"),
            },
        );
    }
    proof {
        acc = acc + (if o.word_timestamps matches Some(true) {
            seq![("word_timestamps"@, "true"@)]
        } else {
            Seq::empty()
        });
        assert(form_views(v@) =~= acc);
    }
    if let Some(n) = options.max_sentence_len {
        if n > 0 {
            let mut val = String::new();
            push_i64_dec(&mut val, n as i64);
            v.push(FormField { name: String::from_str("max_segment_len"), value: val });
        }
    }
    proof {
        acc = acc + (if o.max_sentence_len is Some && o.max_sentence_len->0 > 0 {
            seq![("max_segment_len"@, int_str(o.max_sentence_len->0 as int))]
        } else {
            Seq::empty()
        });
        assert(form_views(v@) =~= acc);
    }
    if let Some(strategy) = &options.sampling_strategy {
        let beam = String::from_str("beam search");
        if *strategy == beam {
            v.push(
                FormField {
                    name: String::from_str("sampling_strategy"),
                    value: String::from_str("beam_search"),
                },
            );
        }
    }
    proof {
        acc = acc + (if o.sampling_strategy is Some && o.sampling_strategy->0@ == "beam search"@ {
            seq![("sampling_strategy"@, "beam_search"@)]
        } else {
            Seq::empty()
        });
        assert(form_views(v@) =~= acc);
    }
    if let Some(n) = options.best_of {
        if n > 0 {
            let mut val = String::new();
            push_i64_dec(&mut val, n as i64);
            v.push(FormField { name: String::from_str("best_of"), value: val });
        }
    }
    proof {
        acc = acc + (if o.best_of is Some && o.best_of->0 > 0 {
            seq![("best_of"@, int_str(o.best_of->0 as int))]
        } else {
            Seq::empty()
        });
        assert(form_views(v@) =~= acc);
    }
    if let Some(n) = options.beam_size {
        if n > 0 {
            let mut val = String::new();
            push_i64_dec(&mut val, n as i64);
            v.push(FormField { name: String::from_str("beam_size"), value: val });
        }
    }
    proof {
        acc = acc + (if o.beam_size is Some && o.beam_size->0 > 0 {
            seq![("beam_size"@, int_str(o.beam_size->0 as int))]
        } else {
            Seq::empty()
        });
        assert(form_views(v@) =~= acc);
    }
    if let Some(m) = &options.diarize_model {
        if !m.as_str().is_empty() {
            v.push(FormField { name: String::from_str("diarize_model"), value: m.clone() });
        }
    }
    proof {
        acc = acc + (if o.diarize_model is Some && o.diarize_model->0@.len() > 0 {
            seq![("diarize_model"@, o.diarize_model->0@)]
        } else {
            Seq::empty()
        });
        assert(form_views(v@) =~= acc);
        assert(acc == base + spec_form_fields_tail(options));
    }
}

/// Builds the form fields of one streaming transcription request: the
/// streaming marker always, then each option that is set and meaningful,
/// rendered as its field.
pub fn transcribe_form_fields(options: &TranscribeOptions) -> (r: Vec<FormField>)
    ensures
        form_views(r@) == spec_form_fields(options),
{
    let mut v: Vec<FormField> = Vec::new();
    form_fields_head(options, &mut v);
    form_fields_tail(options, &mut v);
    v
}

} // verus!
