use vibe_core::downloader::{filename_from_content_disposition, DownloadProgress};
use vibe_core::error::CoreError;
use vibe_core::audio::{choose_recording_output, RecordingOutput};
use vibe_core::language::{language_name_to_whisper_lang, Language};
use vibe_core::transcript::{render_transcript, Segment, Transcript};
use vibe_core::model::{create_context, ModelContext};
use vibe_core::options::{configure_params, SamplingStrategy, TranscribeOptions};
use vibe_core::utils::{
    cleanup_pattern, dst_name_candidate, get_binary_name, get_issue_url, get_possible_formats,
    is_aptabase_configured, is_cli_detected, random_string, AudioDevice, HostOs, X86feature,
    X86features,
};

fn base_options() -> TranscribeOptions {
    TranscribeOptions {
        path: "audio.wav".to_string(),
        lang: None,
        verbose: None,
        n_threads: None,
        init_prompt: None,
        temperature_hundredths: None,
        translate: None,
        max_text_ctx: None,
        word_timestamps: None,
        max_sentence_len: None,
        sampling_strategy: None,
        best_of: None,
        beam_size: None,
        diarize_model: None,
    }
}

#[test]
fn beam_search_width_five_is_the_default() {
    let params = configure_params(&base_options(), false);
    assert_eq!(params.strategy, SamplingStrategy::BeamSearch { beam_size: 5 });
    assert_eq!(params.language, None);
    assert!(!params.translate);
    assert!(params.token_timestamps);
    assert!(!params.split_on_word);
    assert_eq!(params.max_len, 0);
    assert!(!params.single_segment);
    assert!(params.suppress_blank);
    assert!(!params.print_special);
    assert!(!params.print_progress);
    assert!(!params.print_realtime);
    assert!(!params.print_timestamps);
}

#[test]
fn greedy_is_selected_on_request() {
    let mut o = base_options();
    o.sampling_strategy = Some("greedy".to_string());
    o.best_of = Some(3);
    let params = configure_params(&o, false);
    assert_eq!(params.strategy, SamplingStrategy::Greedy { best_of: 3 });
}

#[test]
fn word_timestamps_force_near_single_word_segments() {
    let mut o = base_options();
    o.word_timestamps = Some(true);
    let params = configure_params(&o, false);
    assert!(params.split_on_word);
    assert_eq!(params.max_len, 1);
    o.max_sentence_len = Some(24);
    let params = configure_params(&o, false);
    assert_eq!(params.max_len, 24);
}

#[test]
fn diarization_forces_single_segment_decoding() {
    let params = configure_params(&base_options(), true);
    assert!(params.single_segment);
}

#[test]
fn options_pass_through() {
    let mut o = base_options();
    o.lang = Some("he".to_string());
    o.n_threads = Some(8);
    o.init_prompt = Some("context".to_string());
    o.temperature_hundredths = Some(40);
    o.max_text_ctx = Some(64);
    o.translate = Some(true);
    let params = configure_params(&o, false);
    assert_eq!(params.language.as_deref(), Some("he"));
    assert_eq!(params.n_threads, Some(8));
    assert_eq!(params.initial_prompt.as_deref(), Some("context"));
    assert_eq!(params.temperature_hundredths, Some(40));
    assert_eq!(params.max_text_ctx, Some(64));
    assert!(params.translate);
}

#[test]
fn missing_model_file_is_resource_missing() {
    match create_context("model.bin", false, None, None, true) {
        Err(CoreError::ResourceMissing(m)) => assert_eq!(m, "whisper file doesn't exist"),
        _ => panic!("expected resource missing"),
    }
}

#[test]
fn failed_load_is_reported_not_crashed() {
    match create_context("model.bin", true, Some(1), None, false) {
        Err(CoreError::ProcessFailure(m)) => assert_eq!(m, "failed to open model"),
        _ => panic!("expected process failure"),
    }
}

#[test]
fn loaded_context_keeps_its_identity() {
    let ctx = create_context("model.bin", true, Some(1), Some(true), true).unwrap();
    assert_eq!(ctx.path, "model.bin");
    assert_eq!(ctx.gpu_device, Some(1));
    assert_eq!(ctx.use_gpu, Some(true));
    assert!(ctx.matches_request("model.bin", Some(1)));
    assert!(!ctx.matches_request("model.bin", Some(0)));
    assert!(!ctx.matches_request("other.bin", Some(1)));
    let _ = ModelContext {
        path: "x".to_string(),
        gpu_device: None,
        use_gpu: None,
    };
}

#[test]
fn language_codes_match_the_decoder() {
    assert_eq!(Language::Auto.code(), "auto");
    assert_eq!(Language::English.code(), "en");
    assert_eq!(Language::Chinese.code(), "zh");
    assert_eq!(Language::Hebrew.code(), "he");
    assert_eq!(Language::Hawaiian.code(), "haw");
    assert_eq!(Language::Sundanese.code(), "su");
}

#[test]
fn export_formats_are_fixed() {
    assert_eq!(get_possible_formats(), vec!["txt", "srt", "vtt"]);
}

#[test]
fn binary_name_follows_platform() {
    assert_eq!(get_binary_name(HostOs::Windows), "yt-dlp.exe");
    assert_eq!(get_binary_name(HostOs::Linux), "yt-dlp_linux");
    assert_eq!(get_binary_name(HostOs::MacOs), "yt-dlp_macos");
}

#[test]
fn analytics_need_both_endpoints() {
    assert!(is_aptabase_configured("key", "https://example.test"));
    assert!(!is_aptabase_configured("", "https://example.test"));
    assert!(!is_aptabase_configured("key", ""));
}

#[test]
fn issue_url_percent_encodes_the_report() {
    let url = get_issue_url("App v1", "a line\nanother line");
    let expected_payload = urlencoding::encode("App v1\n\na line\nanother line").into_owned();
    assert!(url.starts_with("https://github.com/thewh1teagle/vibe/issues/new?"));
    assert!(url.ends_with(&expected_payload));
    assert!(!url.contains("a line\n"));
}

#[test]
fn random_names_have_the_requested_length() {
    assert_eq!(random_string(10).chars().count(), 10);
    assert_eq!(random_string(0), "");
    // two draws almost surely differ; equal draws would suggest the wrapper
    // ignores its generator
    let a = random_string(32);
    let b = random_string(32);
    assert!(a != b || a.is_empty());
}

#[test]
fn feature_records_keep_their_fields() {
    let on = X86feature {
        enabled: true,
        support: true,
    };
    let off = X86feature {
        enabled: false,
        support: false,
    };
    let features = X86features::new(on, off, on, off);
    assert_eq!(features.avx, on);
    assert_eq!(features.avx2, off);
    assert_eq!(features.fma, on);
    assert_eq!(features.f16c, off);
    let dev = AudioDevice {
        is_default: true,
        is_input: false,
        id: "3".to_string(),
        name: "Speakers".to_string(),
    };
    assert_eq!(dev.id, "3");
}

#[test]
fn filename_comes_from_the_first_filename_part() {
    assert_eq!(
        filename_from_content_disposition("attachment; filename=\"model.bin\""),
        Some("model.bin".to_string())
    );
    assert_eq!(
        filename_from_content_disposition("filename=plain.bin; filename=\"second.bin\""),
        Some("plain.bin".to_string())
    );
    assert_eq!(filename_from_content_disposition("attachment; size=4"), None);
    assert_eq!(filename_from_content_disposition(""), None);
}

#[test]
fn download_progress_rate_limits_the_callback() {
    let mut p = DownloadProgress::new(100);
    assert!(!p.step(50)); // 0 downloaded, nothing due
    assert!(!p.step(60)); // 50 <= 0 + 100
    assert!(p.step(10)); // 110 > 0 + 100: due, offset moves to 110
    assert!(!p.step(100)); // 120 <= 110 + 100
    assert!(p.step(1)); // 220 > 110 + 100
    assert_eq!(p.downloaded, 221);
}

#[test]
fn cli_mode_is_detected_from_arguments() {
    assert!(is_cli_detected(&vec!["--file".to_string()]));
    assert!(is_cli_detected(&vec!["app".to_string(), "-h".to_string()]));
    assert!(!is_cli_detected(&vec!["app".to_string(), "-v".to_string()]));
    assert!(!is_cli_detected(&vec![]));
}

#[test]
fn destination_names_count_up() {
    assert_eq!(dst_name_candidate("talk", ".srt", None), "talk.srt");
    assert_eq!(dst_name_candidate("talk", ".srt", Some(0)), "talk (0).srt");
    assert_eq!(dst_name_candidate("talk", ".srt", Some(12)), "talk (12).srt");
}

#[test]
fn cleanup_patterns_normalize_the_folder() {
    assert_eq!(cleanup_pattern("/tmp/logs/", "log_", ".txt"), "/tmp/logs/log_*.txt");
    assert_eq!(cleanup_pattern("/tmp/logs", "log_", ".txt"), "/tmp/logs/log_*.txt");
    assert_eq!(cleanup_pattern("C:\\logs\\", "log_", ".txt"), "C:\\logs/log_*.txt");
}

#[test]
fn language_names_map_through_the_shipped_list() {
    let asset = "{\"english\":\"en\",\"hebrew\":\"he\"}";
    assert_eq!(language_name_to_whisper_lang(asset, "hebrew").unwrap(), "he");
    match language_name_to_whisper_lang(asset, "klingon") {
        Err(CoreError::ConfigError(m)) => assert_eq!(m, "unknown language name"),
        _ => panic!("expected config error"),
    }
    match language_name_to_whisper_lang("[]", "english") {
        Err(CoreError::ProtocolError(m)) => assert_eq!(m, "language list is not a flat record"),
        _ => panic!("expected protocol error"),
    }
}

#[test]
fn recording_output_prefers_real_captures() {
    assert_eq!(choose_recording_output(&vec![0]), RecordingOutput::UseFirst);
    assert_eq!(choose_recording_output(&vec![5, 9]), RecordingOutput::MergeBoth);
    assert_eq!(choose_recording_output(&vec![5, 0]), RecordingOutput::UseFirst);
    assert_eq!(choose_recording_output(&vec![0, 5]), RecordingOutput::UseSecond);
    assert_eq!(choose_recording_output(&vec![0, 0]), RecordingOutput::UseSecond);
}

#[test]
fn render_dispatches_on_format() {
    let t = Transcript {
        processing_time_sec: 0,
        segments: vec![Segment {
            start: 0,
            stop: 100,
            text: "hi".to_string(),
            speaker: None,
        }],
    };
    assert_eq!(render_transcript(&t, "txt"), t.as_text());
    assert_eq!(render_transcript(&t, "vtt"), t.as_vtt());
    assert_eq!(render_transcript(&t, "srt"), t.as_srt());
    // an unknown format falls back to SRT
    assert_eq!(render_transcript(&t, "pdf"), t.as_srt());
}
