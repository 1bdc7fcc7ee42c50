use vibe_core::error::CoreError;
use vibe_core::options::TranscribeOptions;
use vibe_core::worker::{
    transcribe_form_fields, LoadAction, LoadOutcome, LoadSupervisor, WorkerState, WorkerSupervisor,
};

#[test]
fn spawn_with_missing_binary_is_resource_missing() {
    let mut supervisor = WorkerSupervisor::new();
    match supervisor.spawn(false) {
        Err(CoreError::ResourceMissing(m)) => assert_eq!(m, "worker binary not found"),
        _ => panic!("expected resource missing"),
    }
    // the supervisor did not move: nothing was started, no port to talk to
    assert_eq!(supervisor.state, WorkerState::NotStarted);
    assert_eq!(supervisor.port, None);
}

#[test]
fn spawn_handshake_load_request_cycle() {
    let mut supervisor = WorkerSupervisor::new();
    supervisor.spawn(true).expect("binary present");
    assert_eq!(supervisor.state, WorkerState::Starting);
    let port = supervisor
        .handshake("{\"status\":\"ready\",\"port\":8123}", "")
        .expect("handshake parses");
    assert_eq!(port, 8123);
    assert_eq!(supervisor.state, WorkerState::Ready);
    assert_eq!(supervisor.port, Some(8123));
    supervisor.model_loaded();
    assert_eq!(supervisor.state, WorkerState::ModelLoaded);
    supervisor.begin_request().expect("model loaded");
    assert_eq!(supervisor.state, WorkerState::Busy);
    match supervisor.begin_request() {
        Err(CoreError::ConfigError(m)) => assert_eq!(m, "a transcription is already running"),
        _ => panic!("expected busy rejection"),
    }
    supervisor.request_finished();
    assert_eq!(supervisor.state, WorkerState::ModelLoaded);
    supervisor.kill();
    assert_eq!(supervisor.state, WorkerState::NotStarted);
    assert_eq!(supervisor.port, None);
}

#[test]
fn requests_need_a_loaded_model() {
    let mut supervisor = WorkerSupervisor::new();
    match supervisor.begin_request() {
        Err(CoreError::ConfigError(m)) => assert_eq!(m, "Please load model first"),
        _ => panic!("expected rejection"),
    }
}

#[test]
fn handshake_failure_carries_stderr() {
    let mut supervisor = WorkerSupervisor::new();
    supervisor.spawn(true).unwrap();
    match supervisor.handshake("garbage", "cannot bind port") {
        Err(CoreError::ProtocolError(m)) => assert_eq!(
            m,
            "failed to parse sona ready signal\n\nsona stderr: cannot bind port"
        ),
        _ => panic!("expected protocol error"),
    }
    assert_eq!(supervisor.state, WorkerState::Failed);
}

#[test]
fn three_transport_failures_exhaust_the_attempts() {
    let mut load = LoadSupervisor::new(false);
    match load.next_action(LoadOutcome::TransportFailure) {
        LoadAction::Wait { delay_ms } => assert_eq!(delay_ms, 1000),
        _ => panic!("expected a retry wait"),
    }
    match load.next_action(LoadOutcome::TransportFailure) {
        LoadAction::Wait { delay_ms } => assert_eq!(delay_ms, 2000),
        _ => panic!("expected a retry wait"),
    }
    match load.next_action(LoadOutcome::TransportFailure) {
        LoadAction::Fail { error: CoreError::ProcessFailure(m) } => {
            assert!(m.contains("after 3 attempts"));
            assert_eq!(m, "failed to send load_model request to sona after 3 attempts");
        }
        _ => panic!("expected a failure"),
    }
}

#[test]
fn gpu_failure_grants_exactly_one_respawn_cycle() {
    let mut load = LoadSupervisor::new(true);
    assert!(matches!(
        load.next_action(LoadOutcome::TransportFailure),
        LoadAction::Wait { .. }
    ));
    assert!(matches!(
        load.next_action(LoadOutcome::TransportFailure),
        LoadAction::Wait { .. }
    ));
    // the third failure triggers the single CPU fallback respawn
    assert!(matches!(
        load.next_action(LoadOutcome::TransportFailure),
        LoadAction::FallbackRespawn
    ));
    // one more failure after the fallback propagates instead of respawning
    match load.next_action(LoadOutcome::TransportFailure) {
        LoadAction::Fail { error: CoreError::ProcessFailure(m) } => {
            assert!(m.contains("after 3 attempts"))
        }
        _ => panic!("expected a failure"),
    }
}

#[test]
fn successful_fallback_is_reported_distinctly() {
    let mut load = LoadSupervisor::new(true);
    assert!(matches!(
        load.next_action(LoadOutcome::HttpError { body: "gpu init failed".to_string() }),
        LoadAction::FallbackRespawn
    ));
    match load.next_action(LoadOutcome::Success) {
        LoadAction::Done { fallback_used } => assert!(fallback_used),
        _ => panic!("expected done"),
    }
    // an ordinary success reports no fallback
    let mut plain = LoadSupervisor::new(true);
    match plain.next_action(LoadOutcome::Success) {
        LoadAction::Done { fallback_used } => assert!(!fallback_used),
        _ => panic!("expected done"),
    }
}

#[test]
fn rejected_load_fails_with_the_body() {
    let mut load = LoadSupervisor::new(false);
    match load.next_action(LoadOutcome::HttpError { body: "no such model".to_string() }) {
        LoadAction::Fail { error: CoreError::ProcessFailure(m) } => {
            assert_eq!(m, "sona load_model failed: no such model")
        }
        _ => panic!("expected a failure"),
    }
}

fn base_options() -> TranscribeOptions {
    TranscribeOptions {
        path: "audio.wav".to_string(),
        lang: None,
        verbose: None,
        n_threads: None,
        init_prompt: None,
        temperature_hundredths: None,
        translate: None,
        max_text_ctx: None,
        word_timestamps: None,
        max_sentence_len: None,
        sampling_strategy: None,
        best_of: None,
        beam_size: None,
        diarize_model: None,
    }
}

fn pairs(fields: Vec<vibe_core::worker::FormField>) -> Vec<(String, String)> {
    fields.into_iter().map(|f| (f.name, f.value)).collect()
}

#[test]
fn minimal_request_only_streams() {
    let fields = pairs(transcribe_form_fields(&base_options()));
    assert_eq!(fields, vec![("stream".to_string(), "true".to_string())]);
}

#[test]
fn set_options_become_fields_in_order() {
    let mut o = base_options();
    o.lang = Some("en".to_string());
    o.translate = Some(true);
    o.n_threads = Some(4);
    o.temperature_hundredths = Some(40);
    o.word_timestamps = Some(true);
    o.max_sentence_len = Some(24);
    o.sampling_strategy = Some("beam search".to_string());
    o.beam_size = Some(5);
    let fields = pairs(transcribe_form_fields(&o));
    assert_eq!(
        fields,
        vec![
            ("stream".to_string(), "true".to_string()),
            ("language".to_string(), "en".to_string()),
            ("translate".to_string(), "true".to_string()),
            ("n_threads".to_string(), "4".to_string()),
            ("temperature".to_string(), "0.4".to_string()),
            ("word_timestamps".to_string(), "true".to_string()),
            ("max_segment_len".to_string(), "24".to_string()),
            ("sampling_strategy".to_string(), "beam_search".to_string()),
            ("beam_size".to_string(), "5".to_string()),
        ]
    );
}

#[test]
fn empty_and_zero_options_send_no_fields() {
    let mut o = base_options();
    o.lang = Some(String::new());
    o.init_prompt = Some(String::new());
    o.n_threads = Some(0);
    o.temperature_hundredths = Some(0);
    o.sampling_strategy = Some("greedy".to_string());
    let fields = pairs(transcribe_form_fields(&o));
    assert_eq!(fields, vec![("stream".to_string(), "true".to_string())]);
}

#[test]
fn temperature_renders_shortest_decimal() {
    let mut o = base_options();
    o.temperature_hundredths = Some(125);
    let fields = pairs(transcribe_form_fields(&o));
    assert_eq!(fields[1], ("temperature".to_string(), "1.25".to_string()));
    o.temperature_hundredths = Some(200);
    let fields = pairs(transcribe_form_fields(&o));
    assert_eq!(fields[1], ("temperature".to_string(), "2".to_string()));
    o.temperature_hundredths = Some(5);
    let fields = pairs(transcribe_form_fields(&o));
    assert_eq!(fields[1], ("temperature".to_string(), "0.05".to_string()));
}
