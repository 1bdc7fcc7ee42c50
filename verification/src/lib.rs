//! Transcription orchestration core: audio normalization decisions, transcript
//! assembly and formatting, speaker diarization merging, and supervision of a
//! worker process speaking a local NDJSON streaming protocol.

use vstd::prelude::*;

pub mod audio;
pub mod diarize;
pub mod downloader;
pub mod error;
pub mod events;
pub mod integrity;
pub mod json;
pub mod language;
pub mod model;
pub mod options;
pub mod session;
pub mod text;
pub mod transcript;
pub mod utils;
pub mod worker;

verus! {

} // verus!
