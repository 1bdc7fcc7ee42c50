use std::io::Cursor;

use vibe_core::audio::{
    check_wav_spec, is_canonical, merge_wav_files, normalize_args, parse_wav_file,
    should_normalize, Audio, AudioSpec,
};
use vibe_core::error::CoreError;
use vibe_core::integrity::fast_hash;

fn wav_bytes(channels: u16, sample_rate: u32, bits: u16) -> Vec<u8> {
    let spec = hound::WavSpec {
        channels,
        sample_rate,
        bits_per_sample: bits,
        sample_format: hound::SampleFormat::Int,
    };
    let mut cursor = Cursor::new(Vec::new());
    {
        let mut writer = hound::WavWriter::new(&mut cursor, spec).unwrap();
        for i in 0..16i16 {
            for _ in 0..channels {
                writer.write_sample(i).unwrap();
            }
        }
        writer.finalize().unwrap();
    }
    cursor.into_inner()
}

#[test]
fn canonical_wav_skips_normalization() {
    let bytes = wav_bytes(1, 16000, 16);
    assert!(!should_normalize(&bytes));
    let header = parse_wav_file(&bytes).expect("canonical header passes");
    assert!(is_canonical(&header));
    assert!(check_wav_spec(&header).is_ok());
    assert_eq!(header.channels, 1);
    assert_eq!(header.sample_rate, 16000);
    assert_eq!(header.bits_per_sample, 16);
    assert!(header.int_samples);
}

#[test]
fn non_canonical_wav_needs_normalization() {
    assert!(should_normalize(&wav_bytes(2, 16000, 16)));
    assert!(should_normalize(&wav_bytes(1, 44100, 16)));
    assert!(should_normalize(&wav_bytes(1, 16000, 8)));
    assert!(should_normalize(b"not a wav file at all"));
    match parse_wav_file(b"not a wav file at all") {
        Err(vibe_core::error::CoreError::ProcessFailure(m)) => {
            assert_eq!(m, "failed to read file")
        }
        _ => panic!("expected process failure"),
    }
    match parse_wav_file(&wav_bytes(2, 16000, 16)) {
        Err(vibe_core::error::CoreError::ProcessFailure(m)) => {
            assert_eq!(m, "expected mono audio file and found 2 channels!")
        }
        _ => panic!("expected process failure"),
    }
}

#[test]
fn wav_spec_errors_name_the_mismatch() {
    let stereo = AudioSpec {
        channels: 2,
        sample_rate: 16000,
        bits_per_sample: 16,
        int_samples: true,
    };
    match check_wav_spec(&stereo) {
        Err(CoreError::ProcessFailure(m)) => {
            assert_eq!(m, "expected mono audio file and found 2 channels!")
        }
        _ => panic!("expected process failure"),
    }
    let float = AudioSpec {
        int_samples: false,
        ..stereo
    };
    let float = AudioSpec { channels: 1, ..float };
    match check_wav_spec(&float) {
        Err(CoreError::ProcessFailure(m)) => assert_eq!(m, "expected integer sample format"),
        _ => panic!("expected process failure"),
    }
    let slow = AudioSpec {
        channels: 1,
        sample_rate: 8000,
        bits_per_sample: 16,
        int_samples: true,
    };
    match check_wav_spec(&slow) {
        Err(CoreError::ProcessFailure(m)) => assert_eq!(m, "expected 16KHz sample rate"),
        _ => panic!("expected process failure"),
    }
    let wide = AudioSpec {
        channels: 1,
        sample_rate: 16000,
        bits_per_sample: 24,
        int_samples: true,
    };
    match check_wav_spec(&wide) {
        Err(CoreError::ProcessFailure(m)) => assert_eq!(m, "expected 16 bits per sample"),
        _ => panic!("expected process failure"),
    }
}

#[test]
fn normalize_args_force_canonical_format() {
    let args = normalize_args("in.mp3", "out.wav", &vec![]);
    assert_eq!(
        args,
        vec![
            "-i",
            "in.mp3",
            "-ar",
            "16000",
            "-ac",
            "1",
            "-c:a",
            "pcm_s16le",
            "out.wav",
            "-hide_banner",
            "-y",
            "-loglevel",
            "error"
        ]
    );
}

#[test]
fn normalize_args_splice_extra_arguments() {
    let extra = vec!["-ss".to_string(), "5".to_string()];
    let args = normalize_args("a", "b", &extra);
    assert_eq!(&args[8..10], &["-ss".to_string(), "5".to_string()]);
    assert_eq!(args[10], "b");
}

#[test]
fn merge_args_mix_to_shortest_stereo() {
    let args = merge_wav_files("a.wav", "b.wav", "out.wav");
    assert_eq!(
        args,
        vec![
            "-i",
            "a.wav",
            "-i",
            "b.wav",
            "-filter_complex",
            "amix=inputs=2:duration=shortest",
            "-ac",
            "2",
            "out.wav",
            "-hide_banner",
            "-y",
            "-loglevel",
            "error"
        ]
    );
}

#[test]
fn audio_converter_plans_canonical_conversion() {
    let audio = Audio::try_create().expect("creation cannot fail");
    let args = audio.convert("input.mp3", "output.wav");
    assert_eq!(args, normalize_args("input.mp3", "output.wav", &vec![]));
}

#[test]
fn fast_hash_small_input_hashes_everything() {
    // the digest of "hello", as the hashing crate documents it
    assert_eq!(
        fast_hash(b"hello"),
        "2cf24dba5fb0a30e26e83b2ac5b9e29e1b161e5c1fa7425e73043362938b9824"
    );
    assert_eq!(fast_hash(b"hello"), sha256::digest(&b"hello"[..]));
}

#[test]
fn fast_hash_large_input_hashes_both_ends() {
    let mut data = vec![7u8; 1_000_000];
    data[0] = 1;
    let last = data.len() - 1;
    data[last] = 2;
    let mut expected_input = Vec::new();
    expected_input.extend_from_slice(&data[..1024]);
    expected_input.extend_from_slice(&data[data.len() - 1024..]);
    assert_eq!(fast_hash(&data), sha256::digest(&expected_input[..]));
    // middle bytes do not matter
    let mut data2 = data.clone();
    data2[500_000] = 99;
    assert_eq!(fast_hash(&data), fast_hash(&data2));
    assert_eq!(fast_hash(&data).len(), 64);
}
