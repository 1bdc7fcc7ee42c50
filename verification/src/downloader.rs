//! Model downloading support: picking the served filename out of a
//! Content-Disposition header, and deciding when the progress callback
//! fires while chunks arrive.

use vstd::prelude::*;

use crate::text::{push_char, trim_spec, trim_text};

verus! {

/// `s` with leading quote characters removed.
pub open spec fn trim_quotes_front(s: Seq<char>) -> Seq<char>
    decreases s.len(),
{
    if s.len() > 0 && s[0] == '"' {
        trim_quotes_front(s.skip(1))
    } else {
        s
    }
}

/// `s` with trailing quote characters removed.
pub open spec fn trim_quotes_back(s: Seq<char>) -> Seq<char>
    decreases s.len(),
{
    if s.len() > 0 && s.last() == '"' {
        trim_quotes_back(s.drop_last())
    } else {
        s
    }
}

/// `s` with quote characters removed from both ends.
pub open spec fn trim_quotes(s: Seq<char>) -> Seq<char> {
    trim_quotes_back(trim_quotes_front(s))
}

proof fn lemma_trim_quotes_front_skip(s: Seq<char>, i: int)
    requires
        0 <= i <= s.len(),
        forall|k: int| 0 <= k < i ==> s[k] == '"',
        i == s.len() || s[i] != '"',
    ensures
        trim_quotes_front(s) == s.skip(i),
    decreases i,
{
    if i == 0 {
        assert(s.skip(0) =~= s);
    } else {
        let t = s.skip(1);
        assert(forall|k: int| 0 <= k < i - 1 ==> #[trigger] t[k] == '"');
        lemma_trim_quotes_front_skip(t, i - 1);
        assert(t.skip(i - 1) =~= s.skip(i));
    }
}

proof fn lemma_trim_quotes_back_take(s: Seq<char>, j: int)
    requires
        0 <= j <= s.len(),
        forall|k: int| j <= k < s.len() ==> s[k] == '"',
        j == 0 || s[j - 1] != '"',
    ensures
        trim_quotes_back(s) == s.take(j),
    decreases s.len() - j,
{
    if j == s.len() {
        assert(s.take(j) =~= s);
    } else {
        let t = s.drop_last();
        lemma_trim_quotes_back_take(t, j);
        assert(t.take(j) =~= s.take(j));
    }
}

/// `s` with quote characters stripped from both ends.
fn trim_quotes_text(s: &str) -> (r: String)
    ensures
        r@ == trim_quotes(s@),
{
    let n = s.unicode_len();
    let mut i: usize = 0;
    while i < n && s.get_char(i) == '"'
        invariant
            0 <= i <= n,
            n == s@.len(),
            forall|k: int| 0 <= k < i ==> s@[k] == '"',
        decreases n - i,
    {
        i = i + 1;
    }
    proof {
        lemma_trim_quotes_front_skip(s@, i as int);
    }
    let mut j: usize = n;
    while j > i && s.get_char(j - 1) == '"'
        invariant
            i <= j <= n,
            n == s@.len(),
            forall|k: int| j <= k < n ==> s@[k] == '"',
        decreases j,
    {
        j = j - 1;
    }
    let ghost f = s@.skip(i as int);
    proof {
        assert(forall|k: int| (j - i) <= k < f.len() ==> #[trigger] f[k] == '"');
        lemma_trim_quotes_back_take(f, j - i);
    }
    let mut out = String::new();
    let mut k: usize = i;
    while k < j
        invariant
            i <= k <= j <= n,
            n == s@.len(),
            out@ =~= s@.skip(i as int).take(k - i),
        decreases j - k,
    {
        push_char(&mut out, s.get_char(k));
        k = k + 1;
        proof {
            assert(out@ =~= s@.skip(i as int).take(k - i));
        }
    }
    proof {
        assert(out@ =~= trim_quotes(s@));
    }
    out
}

/// Whether a trimmed header part names the filename.
pub open spec fn is_filename_part(t: Seq<char>) -> bool {
    t.len() >= 9 && t.take(9) == "filename="@
}

/// The filename a trimmed `filename=` part carries: everything after the
/// equals sign, with surrounding quotes stripped.
pub open spec fn filename_of_part(t: Seq<char>) -> Seq<char> {
    trim_quotes(t.skip(9))
}

/// The first semicolon at or after `i`, or the length when there is none.
pub open spec fn spec_find_semi(s: Seq<char>, i: int) -> int
    decreases s.len() - i,
    when 0 <= i <= s.len()
{
    if i < s.len() {
        if s[i] == ';' {
            i
        } else {
            spec_find_semi(s, i + 1)
        }
    } else {
        i
    }
}

/// The parts of a header value, split at semicolons.
pub open spec fn spec_split_semi(s: Seq<char>) -> Seq<Seq<char>>
    decreases s.len(),
{
    let sc = spec_find_semi(s, 0);
    if !(0 <= sc <= s.len()) {
        Seq::empty()
    } else if sc == s.len() {
        seq![s]
    } else {
        seq![s.take(sc)] + spec_split_semi(s.skip(sc + 1))
    }
}

/// The filename named by a list of header parts: the first part that, after
/// trimming, begins with `filename=`.
pub open spec fn spec_filename_of_parts(parts: Seq<Seq<char>>) -> Option<Seq<char>>
    decreases parts.len(),
{
    if parts.len() == 0 {
        None
    } else {
        let t = trim_spec(parts[0]);
        if is_filename_part(t) {
            Some(filename_of_part(t))
        } else {
            spec_filename_of_parts(parts.skip(1))
        }
    }
}

/// The filename a Content-Disposition header value names, if any.
pub open spec fn spec_filename_of(header: Seq<char>) -> Option<Seq<char>> {
    spec_filename_of_parts(spec_split_semi(header))
}

proof fn lemma_find_semi_from(s: Seq<char>, i: int, e: int)
    requires
        0 <= i <= e <= s.len(),
        forall|q: int| i <= q < e ==> s[q] != ';',
        e == s.len() || s[e] == ';',
    ensures
        spec_find_semi(s, i) == e,
    decreases e - i,
{
    if i < e {
        lemma_find_semi_from(s, i + 1, e);
    }
}

proof fn lemma_semi_split_step(s: Seq<char>, pos: int, e: int)
    requires
        0 <= pos <= e <= s.len(),
        forall|q: int| pos <= q < e ==> s[q] != ';',
        e == s.len() || s[e] == ';',
    ensures
        e < s.len() ==> spec_split_semi(s.skip(pos)) == seq![s.subrange(pos, e)] + spec_split_semi(
            s.skip(e + 1),
        ),
        e == s.len() ==> spec_split_semi(s.skip(pos)) == seq![s.subrange(pos, e)],
{
    let rest = s.skip(pos);
    assert(forall|q: int| 0 <= q < e - pos ==> rest[q] != ';');
    if e < s.len() {
        assert(rest[e - pos] == ';');
        lemma_find_semi_from(rest, 0, e - pos);
        assert(rest.take(e - pos) =~= s.subrange(pos, e));
        assert(rest.skip(e - pos + 1) =~= s.skip(e + 1));
    } else {
        lemma_find_semi_from(rest, 0, e - pos);
        assert(rest.take(e - pos) =~= s.subrange(pos, e));
        assert(rest =~= s.subrange(pos, e));
    }
}

/// Whether the trimmed part begins with `filename=`.
fn starts_with_filename(t: &str) -> (r: bool)
    ensures
        r == is_filename_part(t@),
{
    let n = t.unicode_len();
    if n < 9 {
        proof {
            assert(!is_filename_part(t@));
        }
        return false;
    }
    let head = t.substring_char(0, 9);
    let marker = "filename=";
    let head_string = head.to_owned();
    let marker_string = marker.to_owned();
    let r = head_string == marker_string;
    proof {
        assert(head@ == t@.take(9));
    }
    r
}

/// Picks the filename out of a Content-Disposition header value: the first
/// `filename=` part, trimmed, with surrounding quotes stripped. Nothing when
/// no part names one.
pub fn filename_from_content_disposition(header: &str) -> (r: Option<String>)
    requires
        header@.len() < usize::MAX,
    ensures
        match r {
            Some(name) => spec_filename_of(header@) == Some(name@),
            None => spec_filename_of(header@) is None,
        },
{
    let n = header.unicode_len();
    let mut pos: usize = 0;
    let ghost whole = header@;
    proof {
        assert(whole.skip(0) =~= whole);
    }
    while pos <= n
        invariant
            0 <= pos <= n + 1,
            n == header@.len(),
            n < usize::MAX,
            whole == header@,
            pos <= n ==> spec_filename_of(whole) == spec_filename_of_parts(
                spec_split_semi(whole.skip(pos as int)),
            ),
            pos > n ==> spec_filename_of(whole) is None,
        decreases n + 1 - pos,
    {
        let ghost pos0 = pos as int;
        let ghost rest = whole.skip(pos0);
        let mut e: usize = pos;
        while e < n && !(header.get_char(e) == ';')
            invariant
                pos <= e <= n,
                n == header@.len(),
                forall|q: int| pos <= q < e ==> header@[q] != ';',
            decreases n - e,
        {
            e = e + 1;
        }
        let mut part = String::new();
        let mut q = pos;
        while q < e
            invariant
                pos <= q <= e <= n,
                n == header@.len(),
                part@ =~= header@.subrange(pos as int, q as int),
            decreases e - q,
        {
            push_char(&mut part, header.get_char(q));
            q = q + 1;
            proof {
                assert(part@ =~= header@.subrange(pos as int, q as int));
            }
        }
        let ghost parts_all = spec_split_semi(rest);
        proof {
            lemma_semi_split_step(whole, pos0, e as int);
            assert(part@ =~= whole.subrange(pos0, e as int));
            if e < n {
                assert(parts_all =~= seq![part@] + spec_split_semi(whole.skip(e + 1)));
                assert(parts_all[0] == part@);
                assert(parts_all.skip(1) =~= spec_split_semi(whole.skip(e + 1)));
            } else {
                assert(parts_all =~= seq![part@]);
                assert(parts_all[0] == part@);
                assert(parts_all.skip(1) =~= Seq::<Seq<char>>::empty());
            }
        }
        let trimmed = trim_text(part.as_str());
        if starts_with_filename(trimmed.as_str()) {
            let name_part = trimmed.as_str().substring_char(9, trimmed.as_str().unicode_len());
            let name = trim_quotes_text(name_part);
            proof {
                assert(name_part@ =~= trim_spec(part@).skip(9));
                assert(spec_filename_of_parts(parts_all) == Some(filename_of_part(trim_spec(
                    part@,
                ))));
            }
            return Some(name);
        }
        pos = e + 1;
        proof {
            assert(spec_filename_of_parts(parts_all) == spec_filename_of_parts(
                parts_all.skip(1),
            ));
            if pos <= n {
                assert(whole.skip(pos as int) =~= whole.skip(e + 1));
            } else {
                assert(parts_all.skip(1) =~= Seq::<Seq<char>>::empty());
            }
        }
    }
    None
}

/// Progress bookkeeping for one download: the callback fires only after at
/// least `callback_limit` further bytes since it last fired, so slow
/// consumers are not flooded.
pub struct DownloadProgress {
    pub downloaded: u64,
    pub callback_offset: u64,
    pub callback_limit: u64,
}

impl DownloadProgress {
    /// A fresh download with the given callback rate limit.
    pub fn new(callback_limit: u64) -> (r: DownloadProgress)
        ensures
            r.downloaded == 0,
            r.callback_offset == 0,
            r.callback_limit == callback_limit,
    {
        DownloadProgress { downloaded: 0, callback_offset: 0, callback_limit }
    }

    /// Accounts one received chunk: says whether the progress callback is
    /// due, which also resets the rate limiter to the current position.
    pub fn step(&mut self, chunk_len: u64) -> (notify: bool)
        requires
            old(self).downloaded + chunk_len <= u64::MAX,
            old(self).callback_offset + old(self).callback_limit <= u64::MAX,
        ensures
            notify == (old(self).downloaded > old(self).callback_offset + old(
                self,
            ).callback_limit),
            final (self).callback_offset == (if notify {
                old(self).downloaded
            } else {
                old(self).callback_offset
            }),
            final (self).downloaded == old(self).downloaded + chunk_len,
            final (self).callback_limit == old(self).callback_limit,
    {
        let notify = self.downloaded > self.callback_offset + self.callback_limit;
        if notify {
            self.callback_offset = self.downloaded;
        }
        self.downloaded = self.downloaded + chunk_len;
        notify
    }
}

} // verus!
