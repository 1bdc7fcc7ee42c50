//! Per-request transcription options and their translation into the decoding
//! parameters handed to the inference pass.

use vstd::prelude::*;

verus! {

/// Immutable configuration for one transcription request. `temperature_hundredths`
/// carries the decoding temperature scaled by 100 (40 means 0.40), so option
/// handling stays in integer arithmetic.
pub struct TranscribeOptions {
    pub path: String,
    pub lang: Option<String>,
    pub verbose: Option<bool>,
    pub n_threads: Option<i32>,
    pub init_prompt: Option<String>,
    pub temperature_hundredths: Option<i32>,
    pub translate: Option<bool>,
    pub max_text_ctx: Option<i32>,
    pub word_timestamps: Option<bool>,
    pub max_sentence_len: Option<i32>,
    pub sampling_strategy: Option<String>,
    pub best_of: Option<i32>,
    pub beam_size: Option<i32>,
    pub diarize_model: Option<String>,
}

/// The decoding search strategy: beam search of a given width, or greedy
/// decoding keeping the best of several candidates.
#[derive(Debug, Clone, Copy, PartialEq, Eq, Structural)]
pub enum SamplingStrategy {
    BeamSearch { beam_size: i32 },
    Greedy { best_of: i32 },
}

/// Everything the inference pass is configured with for one request.
pub struct DecodeParams {
    pub strategy: SamplingStrategy,
    pub language: Option<String>,
    pub translate: bool,
    pub token_timestamps: bool,
    pub split_on_word: bool,
    pub max_len: i32,
    pub single_segment: bool,
    pub suppress_blank: bool,
    pub print_special: bool,
    pub print_progress: bool,
    pub print_realtime: bool,
    pub print_timestamps: bool,
    pub temperature_hundredths: Option<i32>,
    pub max_text_ctx: Option<i32>,
    pub initial_prompt: Option<String>,
    pub n_threads: Option<i32>,
}

/// Translates request options into decoding parameters:
/// beam search of width 5 is the default strategy unless greedy is asked
/// for; the language auto-detects unless given; word timestamps switch on
/// near-single-word segmentation; diarization forces single-segment
/// decoding; temperature, prompt, text context and thread count pass
/// through when present.
pub fn configure_params(options: &TranscribeOptions, diarize: bool) -> (r: DecodeParams)
    ensures
        r.strategy == (if options.sampling_strategy matches Some(s) && s@ == "greedy"@ {
            SamplingStrategy::Greedy {
                best_of: (if options.best_of is Some {
                    options.best_of->0
                } else {
                    1
                }),
            }
        } else {
            SamplingStrategy::BeamSearch {
                beam_size: (if options.beam_size is Some {
                    options.beam_size->0
                } else {
                    5
                }),
            }
        }),
        r.language == options.lang,
        r.translate == (options.translate matches Some(true)),
        r.token_timestamps == true,
        r.split_on_word == (options.word_timestamps matches Some(true)),
        r.max_len == (if options.word_timestamps matches Some(true) {
            if options.max_sentence_len is Some {
                options.max_sentence_len->0
            } else {
                1
            }
        } else {
            0
        }),
        r.single_segment == diarize,
        r.suppress_blank == true,
        r.print_special == false,
        r.print_progress == false,
        r.print_realtime == false,
        r.print_timestamps == false,
        r.temperature_hundredths == options.temperature_hundredths,
        r.max_text_ctx == options.max_text_ctx,
        r.initial_prompt == options.init_prompt,
        r.n_threads == options.n_threads,
{
    let strategy = match &options.sampling_strategy {
        Some(s) => {
            let greedy = String::from_str("greedy");
            if *s == greedy {
                SamplingStrategy::Greedy {
                    best_of: match options.best_of {
                        Some(b) => b,
                        None => 1,
                    },
                }
            } else {
                SamplingStrategy::BeamSearch {
                    beam_size: match options.beam_size {
                        Some(b) => b,
                        None => 5,
                    },
                }
            }
        },
        None => SamplingStrategy::BeamSearch {
            beam_size: match options.beam_size {
                Some(b) => b,
                None => 5,
            },
        },
    };
    let word_ts = matches!(options.word_timestamps, Some(true));
    DecodeParams {
        strategy,
        language: match &options.lang {
            Some(l) => Some(l.clone()),
            None => None,
        },
        translate: matches!(options.translate, Some(true)),
        token_timestamps: true,
        split_on_word: word_ts,
        max_len: if word_ts {
            match options.max_sentence_len {
                Some(n) => n,
                None => 1,
            }
        } else {
            0
        },
        single_segment: diarize,
        suppress_blank: true,
        print_special: false,
        print_progress: false,
        print_realtime: false,
        print_timestamps: false,
        temperature_hundredths: options.temperature_hundredths,
        max_text_ctx: options.max_text_ctx,
        initial_prompt: match &options.init_prompt {
            Some(p) => Some(p.clone()),
            None => None,
        },
        n_threads: options.n_threads,
    }
}

} // verus!
