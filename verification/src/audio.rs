//! Audio normalization: deciding whether a source already has the canonical
//! format (mono, 16000 Hz, signed 16-bit integer samples), validating parsed
//! WAV headers, and building the exact transcoding-tool invocations that
//! force the canonical format or mix two captures into one file.

use vstd::prelude::*;

use crate::error::CoreError;
use crate::text::{dec_str, push_str, push_u64_dec};

verus! {

/// The audio format fields read from a WAV header.
#[derive(Debug, Clone, Copy, PartialEq, Eq, Structural)]
pub struct AudioSpec {
    pub channels: u16,
    pub sample_rate: u32,
    pub bits_per_sample: u16,
    /// True for integer samples, false for floating-point samples.
    pub int_samples: bool,
}

/// The canonical format every input is normalized to before inference.
pub open spec fn canonical_spec(s: AudioSpec) -> bool {
    s.channels == 1 && s.sample_rate == 16000 && s.bits_per_sample == 16 && s.int_samples
}

/// What a WAV header parse of these bytes yields: the format fields on
/// success, nothing when the bytes are not a well-formed WAV file.
pub uninterp spec fn wav_header_of(b: Seq<u8>) -> Option<AudioSpec>;

/// Relies on hound::WavReader::new, which reads a WAV header from the given
/// bytes and reports its channel count, sample rate, bits per sample and
/// sample format; the parse depends on the bytes alone.
#[verifier::external_body]
pub(crate) fn read_wav_header(bytes: &[u8]) -> (r: Option<AudioSpec>)
    ensures
        r == wav_header_of(bytes@),
{
    match hound::WavReader::new(std::io::Cursor::new(bytes)) {
        Ok(reader) => {
            let s = reader.spec();
            let int_samples = match s.sample_format {
                hound::SampleFormat::Int => true,
                hound::SampleFormat::Float => false,
            };
            let (channels, sample_rate, bits_per_sample) = (s.channels, s.sample_rate, s.bits_per_sample);
            Some(AudioSpec { channels, sample_rate, bits_per_sample, int_samples })
        },
        Err(_) => None,
    }
}

/// True iff the format is already canonical.
pub fn is_canonical(s: &AudioSpec) -> (r: bool)
    ensures
        r == canonical_spec(*s),
{
    s.channels == 1 && s.sample_rate == 16000 && s.bits_per_sample == 16 && s.int_samples
}

/// Checks a parsed WAV header against the canonical format, reporting the
/// first mismatch: channel count, sample format, sample rate, then bit depth.
pub fn check_wav_spec(s: &AudioSpec) -> (r: Result<(), CoreError>)
    ensures
        r.is_ok() <==> canonical_spec(*s),
        !canonical_spec(*s) ==> r->Err_0 matches CoreError::ProcessFailure(_),
        s.channels != 1 ==> (r->Err_0 matches CoreError::ProcessFailure(m) && m@
            == "expected mono audio file and found "@ + dec_str(s.channels as nat)
            + " channels!"@),
{
    if s.channels != 1 {
        let mut m = String::new();
        push_str(&mut m, "expected mono audio file and found ");
        push_u64_dec(&mut m, s.channels as u64);
        push_str(&mut m, " channels!");
        proof {
            assert(m@ =~= "expected mono audio file and found "@ + dec_str(s.channels as nat)
                + " channels!"@);
        }
        return Err(CoreError::ProcessFailure(m));
    }
    if !s.int_samples {
        return Err(CoreError::ProcessFailure(String::from_str("expected integer sample format")));
    }
    if s.sample_rate != 16000 {
        return Err(CoreError::ProcessFailure(String::from_str("expected 16KHz sample rate")));
    }
    if s.bits_per_sample != 16 {
        return Err(CoreError::ProcessFailure(String::from_str("expected 16 bits per sample")));
    }
    Ok(())
}

/// Parses a WAV file's header and holds it to the canonical format: the
/// format fields when the file is canonical, the first mismatch otherwise,
/// and a read failure when the bytes are no WAV file at all.
pub fn parse_wav_file(bytes: &[u8]) -> (r: Result<AudioSpec, CoreError>)
    ensures
        wav_header_of(bytes@) is None ==> (r matches Err(CoreError::ProcessFailure(m)) && m@
            == "failed to read file"@),
        wav_header_of(bytes@) matches Some(h) ==> (canonical_spec(h) ==> r == Ok::<
            AudioSpec,
            CoreError,
        >(h)),
        wav_header_of(bytes@) matches Some(h) ==> (!canonical_spec(h) ==> (r matches Err(
            CoreError::ProcessFailure(_),
        ))),
        wav_header_of(bytes@) matches Some(h) ==> (h.channels != 1 ==> (r matches Err(
            CoreError::ProcessFailure(m),
        ) && m@ == "expected mono audio file and found "@ + dec_str(h.channels as nat)
            + " channels!"@)),
{
    match read_wav_header(bytes) {
        None => Err(CoreError::ProcessFailure(String::from_str("failed to read file"))),
        Some(h) => match check_wav_spec(&h) {
            Ok(()) => Ok(h),
            Err(e) => Err(e),
        },
    }
}

/// True iff the source must pass through the transcoding tool: anything
/// that is not already a canonical WAV file.
pub fn should_normalize(bytes: &[u8]) -> (r: bool)
    ensures
        r == !(wav_header_of(bytes@) matches Some(h) && canonical_spec(h)),
{
    match read_wav_header(bytes) {
        Some(h) => !is_canonical(&h),
        None => true,
    }
}

/// A source that needs no normalization already has exactly the canonical
/// format, so re-normalizing it cannot change its format: the fast-path
/// skip is a no-op on the file's format fields.
pub proof fn lemma_skip_is_noop(b: Seq<u8>)
    requires
        wav_header_of(b) matches Some(h) && canonical_spec(h),
    ensures
        wav_header_of(b) == Some(
            AudioSpec { channels: 1, sample_rate: 16000, bits_per_sample: 16, int_samples: true },
        ),
{
}

/// A normalization output that passes the header check has exactly one
/// channel, a 16000 Hz rate, and 16-bit integer samples: the canonical
/// format pins every field.
pub proof fn lemma_canonical_fields(s: AudioSpec)
    requires
        canonical_spec(s),
    ensures
        s.channels == 1,
        s.sample_rate == 16000,
        s.bits_per_sample == 16,
        s.int_samples,
{
}

/// The fixed transcoding-tool arguments that force the canonical format,
/// with the caller's extra arguments spliced in between format flags and
/// output path.
pub open spec fn normalize_args_spec(input: Seq<char>, output: Seq<char>, extra: Seq<Seq<char>>) -> Seq<
    Seq<char>,
> {
    seq!["-i"@, input, "-ar"@, "16000"@, "-ac"@, "1"@, "-c:a"@, "pcm_s16le"@] + extra + seq![
        output,
        "-hide_banner"@,
        "-y"@,
        "-loglevel"@,
        "error"@,
    ]
}

/// Builds the transcoding-tool argument list for normalizing `input` into
/// `output`, forcing mono, 16000 Hz, signed 16-bit PCM.
pub fn normalize_args(input: &str, output: &str, extra: &Vec<String>) -> (r: Vec<String>)
    ensures
        r.deep_view() == normalize_args_spec(input@, output@, extra.deep_view()),
{
    let mut v: Vec<String> = Vec::new();
    v.push(String::from_str("-i"));
    v.push(String::from_str(input));
    v.push(String::from_str("-ar"));
    v.push(String::from_str("16000"));
    v.push(String::from_str("-ac"));
    v.push(String::from_str("1"));
    v.push(String::from_str("-c:a"));
    v.push(String::from_str("pcm_s16le"));
    let mut j: usize = 0;
    while j < extra.len()
        invariant
            0 <= j <= extra@.len(),
            v.deep_view() =~~= seq!["-i"@, input@, "-ar"@, "16000"@, "-ac"@, "1"@, "-c:a"@,
                "pcm_s16le"@] + extra.deep_view().take(j as int),
        decreases extra@.len() - j,
    {
        let ghost old_dv = v.deep_view();
        let ghost old_vs = v@;
        let piece = extra[j].clone();
        proof {
            assert(piece@ == extra@[j as int]@);
        }
        v.push(piece);
        j = j + 1;
        proof {
            assert(v@ == old_vs.push(piece));
            assert forall|k: int| 0 <= k < v@.len() implies v.deep_view()[k] == (old_dv + seq![
                piece@,
            ])[k] by {
                if k < old_vs.len() {
                    assert(v@[k] == old_vs[k]);
                }
            }
            assert(v.deep_view() =~~= old_dv + seq![piece@]);
            assert(extra.deep_view()[j - 1] == extra@[j - 1]@);
            assert(extra.deep_view().take(j as int) =~= extra.deep_view().take(j - 1).push(
                extra.deep_view()[j - 1],
            ));
            assert(v.deep_view() =~~= seq!["-i"@, input@, "-ar"@, "16000"@, "-ac"@, "1"@, "-c:a"@,
                "pcm_s16le"@] + extra.deep_view().take(j as int));
        }
    }
    proof {
        assert(extra.deep_view().take(extra@.len() as int) =~= extra.deep_view());
    }
    v.push(String::from_str(output));
    v.push(String::from_str("-hide_banner"));
    v.push(String::from_str("-y"));
    v.push(String::from_str("-loglevel"));
    v.push(String::from_str("error"));
    proof {
        assert(v.deep_view() =~~= normalize_args_spec(input@, output@, extra.deep_view()));
    }
    v
}

/// Whatever the caller's extra arguments are, the built invocation carries
/// the flags that force one channel, a 16000 Hz rate and signed 16-bit
/// integer samples.
pub proof fn lemma_normalize_args_force_canonical(
    input: Seq<char>,
    output: Seq<char>,
    extra: Seq<Seq<char>>,
)
    ensures
        normalize_args_spec(input, output, extra)[2] == "-ar"@,
        normalize_args_spec(input, output, extra)[3] == "16000"@,
        normalize_args_spec(input, output, extra)[4] == "-ac"@,
        normalize_args_spec(input, output, extra)[5] == "1"@,
        normalize_args_spec(input, output, extra)[6] == "-c:a"@,
        normalize_args_spec(input, output, extra)[7] == "pcm_s16le"@,
{
}

/// The transcoding-tool arguments that mix two inputs down to the length of
/// the shorter one into a single stereo file.
pub open spec fn merge_args_spec(a: Seq<char>, b: Seq<char>, dst: Seq<char>) -> Seq<Seq<char>> {
    seq![
        "-i"@,
        a,
        "-i"@,
        b,
        "-filter_complex"@,
        "amix=inputs=2:duration=shortest"@,
        "-ac"@,
        "2"@,
        dst,
        "-hide_banner"@,
        "-y"@,
        "-loglevel"@,
        "error"@,
    ]
}

/// Builds the transcoding-tool argument list that merges audio files `a`
/// and `b` into `dst`, mixing to the shortest input.
pub fn merge_wav_files(a: &str, b: &str, dst: &str) -> (r: Vec<String>)
    ensures
        r.deep_view() == merge_args_spec(a@, b@, dst@),
{
    let mut v: Vec<String> = Vec::new();
    v.push(String::from_str("-i"));
    v.push(String::from_str(a));
    v.push(String::from_str("-i"));
    v.push(String::from_str(b));
    v.push(String::from_str("-filter_complex"));
    v.push(String::from_str("amix=inputs=2:duration=shortest"));
    v.push(String::from_str("-ac"));
    v.push(String::from_str("2"));
    v.push(String::from_str(dst));
    v.push(String::from_str("-hide_banner"));
    v.push(String::from_str("-y"));
    v.push(String::from_str("-loglevel"));
    v.push(String::from_str("error"));
    proof {
        assert(v.deep_view() =~~= merge_args_spec(a@, b@, dst@));
    }
    v
}

/// Handle for the sample-rate converter: its conversions are the canonical
/// normalization plan.
pub struct Audio {}

impl Audio {
    /// Creates the converter handle; creation itself cannot fail.
    pub fn try_create() -> (r: Result<Audio, CoreError>)
        ensures
            r.is_ok(),
    {
        Ok(Audio {  })
    }

    /// The invocation converting `input` into a canonical 16 kHz mono file
    /// at `output`, with no extra arguments.
    pub fn convert(&self, input: &str, output: &str) -> (r: Vec<String>)
        ensures
            r.deep_view() == normalize_args_spec(input@, output@, Seq::empty()),
    {
        let extra: Vec<String> = Vec::new();
        normalize_args(input, output, &extra)
    }
}


/// Which recorded capture becomes the session's audio: the only one, the
/// mix of both, or the one that actually captured samples.
#[derive(Debug, Clone, Copy, PartialEq, Eq, Structural)]
pub enum RecordingOutput {
    UseFirst,
    UseSecond,
    MergeBoth,
}

/// Picks the output of a recording session from the captures' sample
/// counts: a single capture is used as it is; two captures that both heard
/// something are mixed; otherwise the one with more samples wins, the
/// second on a tie of empties.
pub fn choose_recording_output(counts: &Vec<u32>) -> (r: RecordingOutput)
    requires
        counts@.len() >= 1,
    ensures
        counts@.len() == 1 ==> r == RecordingOutput::UseFirst,
        counts@.len() > 1 && counts@[0] > 0 && counts@[1] > 0 ==> r == RecordingOutput::MergeBoth,
        counts@.len() > 1 && !(counts@[0] > 0 && counts@[1] > 0) && counts@[0] > counts@[1] ==> r
            == RecordingOutput::UseFirst,
        counts@.len() > 1 && !(counts@[0] > 0 && counts@[1] > 0) && counts@[0] <= counts@[1] ==> r
            == RecordingOutput::UseSecond,
{
    if counts.len() == 1 {
        RecordingOutput::UseFirst
    } else if counts[0] > 0 && counts[1] > 0 {
        RecordingOutput::MergeBoth
    } else if counts[0] > counts[1] {
        RecordingOutput::UseFirst
    } else {
        RecordingOutput::UseSecond
    }
}

} // verus!
