//! Small helpers around the core: random temporary-file names, the
//! bug-report URL, export formats, and host-specific tool names.

use vstd::prelude::*;

use crate::text::push_str;

verus! {

/// Relies on rand::Rng::sample_iter over rand::distributions::Alphanumeric:
/// the result draws from the thread-local generator, so nothing holds of its
/// characters beyond the requested length.
#[verifier::external_body]
pub fn random_string(length: usize) -> (r: String)
    ensures
        r@.len() == length,
{
    let rng = rand::thread_rng();
    rand::Rng::sample_iter(rng, &rand::distributions::Alphanumeric).take(length).map(
        char::from,
    ).collect()
}

/// The percent-encoding of the string: every byte except ASCII
/// alphanumerics and `-`, `_`, `.`, `~` escaped.
pub uninterp spec fn url_encoded_of(s: Seq<char>) -> Seq<char>;

/// Relies on urlencoding::encode, which percent-encodes every byte except
/// alphanumerics and `-`, `_`, `.`, `~`; a function of the string alone,
/// and empty input stays empty.
#[verifier::external_body]
fn url_encode(s: &str) -> (r: String)
    ensures
        r@ == url_encoded_of(s@),
        s@.len() == 0 ==> r@.len() == 0,
{
    urlencoding::encode(s).into_owned()
}

/// The issue-tracker address that a bug report opens, with the collected
/// application info and logs percent-encoded into the query.
pub open spec fn issue_url_spec(app_info: Seq<char>, logs: Seq<char>) -> Seq<char> {
    "https://github.com/thewh1teagle/vibe/issues/new?assignees=octocat&labels=bug&projects=&template=bug_report.yaml&title=App+reports+bug&logs="@
        + url_encoded_of(app_info + "\n\n"@ + logs)
}

/// Builds the bug-report URL from the application info and the logs.
pub fn get_issue_url(app_info: &str, logs: &str) -> (r: String)
    ensures
        r@ == issue_url_spec(app_info@, logs@),
{
    let mut payload = String::from_str(app_info);
    push_str(&mut payload, "\n\n");
    push_str(&mut payload, logs);
    let encoded = url_encode(payload.as_str());
    let mut out = String::from_str(
        "https://github.com/thewh1teagle/vibe/issues/new?assignees=octocat&labels=bug&projects=&template=bug_report.yaml&title=App+reports+bug&logs=",
    );
    push_str(&mut out, encoded.as_str());
    out
}

/// The transcript export formats offered to callers.
pub fn get_possible_formats() -> (r: Vec<String>)
    ensures
        r.deep_view() == seq!["txt"@, "srt"@, "vtt"@],
{
    let mut v: Vec<String> = Vec::new();
    v.push(String::from_str("txt"));
    v.push(String::from_str("srt"));
    v.push(String::from_str("vtt"));
    proof {
        assert(v.deep_view() =~~= seq!["txt"@, "srt"@, "vtt"@]);
    }
    v
}

/// The host platform, passed in by the caller since the library itself is
/// platform-independent.
#[derive(Debug, Clone, Copy, PartialEq, Eq, Structural)]
pub enum HostOs {
    Windows,
    Linux,
    MacOs,
}

/// The downloader-tool binary name for the host platform.
pub fn get_binary_name(os: HostOs) -> (r: String)
    ensures
        os == HostOs::Windows ==> r@ == "yt-dlp.exe"@,
        os == HostOs::Linux ==> r@ == "yt-dlp_linux"@,
        os == HostOs::MacOs ==> r@ == "yt-dlp_macos"@,
{
    match os {
        HostOs::Windows => String::from_str("yt-dlp.exe"),
        HostOs::Linux => String::from_str("yt-dlp_linux"),
        HostOs::MacOs => String::from_str("yt-dlp_macos"),
    }
}

/// True iff both analytics endpoints were configured at build time.
pub fn is_aptabase_configured(app_key: &str, base_url: &str) -> (r: bool)
    ensures
        r == (app_key@.len() != 0 && base_url@.len() != 0),
{
    !app_key.is_empty() && !base_url.is_empty()
}

/// One instruction-set feature: whether the build enabled it and whether
/// the processor supports it.
#[derive(Debug, Clone, Copy, PartialEq, Eq, Structural)]
pub struct X86feature {
    pub enabled: bool,
    pub support: bool,
}

/// The instruction-set features the inference build cares about.
#[derive(Debug, Clone, Copy, PartialEq, Eq, Structural)]
pub struct X86features {
    pub avx: X86feature,
    pub avx2: X86feature,
    pub fma: X86feature,
    pub f16c: X86feature,
}

impl X86features {
    /// Gathers the four feature records; build flags and processor support
    /// are read by the caller.
    pub fn new(avx: X86feature, avx2: X86feature, fma: X86feature, f16c: X86feature) -> (r:
        X86features)
        ensures
            r.avx == avx,
            r.avx2 == avx2,
            r.fma == fma,
            r.f16c == f16c,
    {
        X86features { avx, avx2, fma, f16c }
    }
}

/// One audio capture or playback device as listed to the user.
#[derive(Debug, Clone, PartialEq, Eq)]
pub struct AudioDevice {
    pub is_default: bool,
    pub is_input: bool,
    pub id: String,
    pub name: String,
}


/// True iff the arguments ask for command-line mode: any argument starting
/// with `--`, or a lone `-h`.
pub open spec fn spec_cli_detected(args: Seq<Seq<char>>) -> bool {
    exists|i: int|
        0 <= i < args.len() && ((args[i].len() >= 2 && args[i].take(2) == "--"@) || args[i]
            == "-h"@)
}

/// Whether any argument starts with `--` or equals `-h`.
pub fn is_cli_detected(args: &Vec<String>) -> (r: bool)
    ensures
        r == spec_cli_detected(args.deep_view()),
{
    let n = args.len();
    let mut k: usize = 0;
    while k < n
        invariant
            0 <= k <= n,
            n == args@.len(),
            forall|i: int|
                0 <= i < k ==> !((#[trigger] args.deep_view()[i]).len() >= 2
                    && args.deep_view()[i].take(2) == "--"@ || args.deep_view()[i] == "-h"@),
        decreases n - k,
    {
        let a = &args[k];
        let astr = a.as_str();
        let len = astr.unicode_len();
        let dashes = len >= 2 && astr.get_char(0) == '-' && astr.get_char(1) == '-';
        let h = String::from_str("-h");
        let is_help = *a == h;
        proof {
            reveal_strlit("--");
            reveal_strlit("-h");
            assert(args.deep_view()[k as int] == a@);
            if dashes {
                assert(a@.take(2) =~= "--"@);
            }
            if len >= 2 && a@.take(2) == "--"@ {
                assert(a@.take(2)[0] == '-' && a@.take(2)[1] == '-');
                assert(a@[0] == '-' && a@[1] == '-');
            }
        }
        if dashes || is_help {
            return true;
        }
        k = k + 1;
    }
    false
}

/// The destination name for an export next to its source: the source stem
/// with the format suffix, or with a counter spliced in when the plain name
/// is taken.
pub open spec fn spec_dst_name(stem: Seq<char>, suffix: Seq<char>, counter: Option<int>) -> Seq<
    char,
> {
    match counter {
        None => stem + suffix,
        Some(c) => stem + " ("@ + crate::text::int_str(c) + ")"@ + suffix,
    }
}

/// Builds one candidate destination name; the caller walks counters until a
/// free name is found.
pub fn dst_name_candidate(stem: &str, suffix: &str, counter: Option<i64>) -> (r: String)
    ensures
        match counter {
            None => r@ == spec_dst_name(stem@, suffix@, None),
            Some(c) => r@ == spec_dst_name(stem@, suffix@, Some(c as int)),
        },
{
    let mut out = String::from_str(stem);
    match counter {
        None => {
            push_str(&mut out, suffix);
        },
        Some(c) => {
            push_str(&mut out, " (");
            crate::text::push_i64_dec(&mut out, c);
            push_str(&mut out, ")");
            push_str(&mut out, suffix);
        },
    }
    out
}

/// A folder path with one trailing path separator removed, as the cleanup
/// scan normalizes it.
pub open spec fn spec_strip_sep(folder: Seq<char>) -> Seq<char> {
    if folder.len() > 0 && (folder.last() == '/' || folder.last() == '\\') {
        folder.take(folder.len() - 1)
    } else {
        folder
    }
}

/// The glob pattern that finds a cleanup scan's files: the normalized
/// folder, a slash, the prefix, a wildcard, and the suffix.
pub open spec fn spec_cleanup_pattern(folder: Seq<char>, prefix: Seq<char>, suffix: Seq<char>) -> Seq<
    char,
> {
    spec_strip_sep(folder) + "/"@ + prefix + "*"@ + suffix
}

/// Builds the glob pattern for one cleanup scan.
pub fn cleanup_pattern(folder: &str, prefix: &str, suffix: &str) -> (r: String)
    ensures
        r@ == spec_cleanup_pattern(folder@, prefix@, suffix@),
{
    let n = folder.unicode_len();
    let keep: usize = if n > 0 {
        let last = folder.get_char(n - 1);
        if last == '/' || last == '\\' {
            n - 1
        } else {
            n
        }
    } else {
        n
    };
    let base = folder.substring_char(0, keep);
    let mut out = String::from_str(base);
    push_str(&mut out, "/");
    push_str(&mut out, prefix);
    push_str(&mut out, "*");
    push_str(&mut out, suffix);
    proof {
        assert(base@ =~= spec_strip_sep(folder@));
        assert(out@ =~= spec_cleanup_pattern(folder@, prefix@, suffix@));
    }
    out
}

} // verus!
