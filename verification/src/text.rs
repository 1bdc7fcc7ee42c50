//! Character-level string building and the decimal / timestamp formatting
//! used by the transcript views.

use vstd::prelude::*;

verus! {

/// Relies on String::push, which appends exactly one character to the string.
#[verifier::external_body]
pub(crate) fn push_char(s: &mut String, c: char)
    ensures
        final(s)@ == old(s)@ + seq![c],
{
    s.push(c);
}

/// The character for one decimal digit.
pub open spec fn digit_char(d: nat) -> char {
    if d == 0 {
        '0'
    } else if d == 1 {
        '1'
    } else if d == 2 {
        '2'
    } else if d == 3 {
        '3'
    } else if d == 4 {
        '4'
    } else if d == 5 {
        '5'
    } else if d == 6 {
        '6'
    } else if d == 7 {
        '7'
    } else if d == 8 {
        '8'
    } else {
        '9'
    }
}

/// The decimal rendering of a natural number, without padding.
pub open spec fn dec_str(n: nat) -> Seq<char>
    decreases n,
{
    if n < 10 {
        seq![digit_char(n)]
    } else {
        dec_str(n / 10).push(digit_char(n % 10))
    }
}

/// The decimal rendering of an integer: a minus sign for negatives.
pub open spec fn int_str(i: int) -> Seq<char> {
    if i < 0 {
        seq!['-'] + dec_str((-i) as nat)
    } else {
        dec_str(i as nat)
    }
}

/// Decimal rendering padded with zeros to at least two characters.
pub open spec fn pad2(n: nat) -> Seq<char> {
    if n < 10 {
        seq!['0'] + dec_str(n)
    } else {
        dec_str(n)
    }
}

/// Decimal rendering padded with zeros to at least three characters.
pub open spec fn pad3(n: nat) -> Seq<char> {
    if n < 100 {
        seq!['0'] + pad2(n)
    } else {
        dec_str(n)
    }
}

/// Appends the decimal rendering of `n`.
pub fn push_u64_dec(s: &mut String, n: u64)
    ensures
        final(s)@ == old(s)@ + dec_str(n as nat),
    decreases n,
{
    if n >= 10 {
        push_u64_dec(s, n / 10);
    }
    let d = (n % 10) as u8;
    let c: char = match d {
        0 => '0',
        1 => '1',
        2 => '2',
        3 => '3',
        4 => '4',
        5 => '5',
        6 => '6',
        7 => '7',
        8 => '8',
        _ => '9',
    };
    push_char(s, c);
    proof {
        assert(s@ =~= old(s)@ + dec_str(n as nat));
    }
}

/// Appends the decimal rendering of `i`, with a minus sign when negative.
pub fn push_i64_dec(s: &mut String, i: i64)
    ensures
        final(s)@ == old(s)@ + int_str(i as int),
{
    if i < 0 {
        push_char(s, '-');
        let m: u64 = if i == i64::MIN {
            9223372036854775808u64
        } else {
            (-i) as u64
        };
        push_u64_dec(s, m);
        proof {
            assert(s@ =~= old(s)@ + int_str(i as int));
        }
    } else {
        push_u64_dec(s, i as u64);
    }
}

/// Appends the decimal rendering of `n` padded to at least two characters.
pub fn push_pad2(s: &mut String, n: u64)
    ensures
        final(s)@ == old(s)@ + pad2(n as nat),
{
    if n < 10 {
        push_char(s, '0');
    }
    push_u64_dec(s, n);
    proof {
        assert(s@ =~= old(s)@ + pad2(n as nat));
    }
}

/// Appends the decimal rendering of `n` padded to at least three characters.
pub fn push_pad3(s: &mut String, n: u64)
    ensures
        final(s)@ == old(s)@ + pad3(n as nat),
{
    if n < 100 {
        push_char(s, '0');
    }
    push_pad2(s, n);
    proof {
        assert(s@ =~= old(s)@ + pad3(n as nat));
    }
}

/// The whitespace characters stripped from segment text before rendering.
pub open spec fn is_space(c: char) -> bool {
    c == ' ' || c == '\t' || c == '\n' || c == '\r'
}

/// `s` with leading whitespace removed.
pub open spec fn trim_front(s: Seq<char>) -> Seq<char>
    decreases s.len(),
{
    if s.len() > 0 && is_space(s[0]) {
        trim_front(s.skip(1))
    } else {
        s
    }
}

/// `s` with trailing whitespace removed.
pub open spec fn trim_back(s: Seq<char>) -> Seq<char>
    decreases s.len(),
{
    if s.len() > 0 && is_space(s.last()) {
        trim_back(s.drop_last())
    } else {
        s
    }
}

/// `s` with leading and trailing whitespace removed.
pub open spec fn trim_spec(s: Seq<char>) -> Seq<char> {
    trim_back(trim_front(s))
}

proof fn lemma_trim_front_skip(s: Seq<char>, i: int)
    requires
        0 <= i <= s.len(),
        forall|k: int| 0 <= k < i ==> is_space(s[k]),
        i == s.len() || !is_space(s[i]),
    ensures
        trim_front(s) == s.skip(i),
    decreases i,
{
    if i == 0 {
        assert(s.skip(0) =~= s);
    } else {
        let t = s.skip(1);
        assert(forall|k: int| 0 <= k < i - 1 ==> is_space(#[trigger] t[k]));
        lemma_trim_front_skip(t, i - 1);
        assert(t.skip(i - 1) =~= s.skip(i));
    }
}

proof fn lemma_trim_back_subrange(s: Seq<char>, j: int)
    requires
        0 <= j <= s.len(),
        forall|k: int| j <= k < s.len() ==> is_space(s[k]),
        j == 0 || !is_space(s[j - 1]),
    ensures
        trim_back(s) == s.take(j),
    decreases s.len() - j,
{
    if j == s.len() {
        assert(s.take(j) =~= s);
    } else {
        let t = s.drop_last();
        assert(is_space(s.last()));
        lemma_trim_back_subrange(t, j);
        assert(t.take(j) =~= s.take(j));
    }
}

/// `s` with leading and trailing whitespace removed, as `str::trim` does
/// for these whitespace characters.
pub fn trim_text(s: &str) -> (r: String)
    ensures
        r@ == trim_spec(s@),
{
    let n = s.unicode_len();
    let mut i: usize = 0;
    while i < n && is_space_exec(s.get_char(i))
        invariant
            0 <= i <= n,
            n == s@.len(),
            forall|k: int| 0 <= k < i ==> is_space(s@[k]),
        decreases n - i,
    {
        i = i + 1;
    }
    proof {
        lemma_trim_front_skip(s@, i as int);
    }
    let mut j: usize = n;
    while j > i && is_space_exec(s.get_char(j - 1))
        invariant
            i <= j <= n,
            n == s@.len(),
            forall|k: int| j <= k < n ==> is_space(s@[k]),
        decreases j,
    {
        j = j - 1;
    }
    let ghost f = s@.skip(i as int);
    proof {
        assert(forall|k: int| (j - i) <= k < f.len() ==> is_space(#[trigger] f[k]));
        lemma_trim_back_subrange(f, j - i);
    }
    let mut out = String::new();
    let mut k: usize = i;
    while k < j
        invariant
            i <= k <= j <= n,
            n == s@.len(),
            out@ =~= s@.skip(i as int).take(k - i),
        decreases j - k,
    {
        push_char(&mut out, s.get_char(k));
        k = k + 1;
        proof {
            assert(out@ =~= s@.skip(i as int).take(k - i));
        }
    }
    proof {
        assert(out@ =~= trim_spec(s@));
    }
    out
}

/// Executable test for the whitespace set of `is_space`.
pub fn is_space_exec(c: char) -> (r: bool)
    ensures
        r == is_space(c),
{
    c == ' ' || c == '\t' || c == '\n' || c == '\r'
}

/// `s` with every occurrence of `-->` replaced by `->`, scanning left to
/// right; applied to segment text so it cannot break the cue separator of
/// subtitle formats.
pub open spec fn replace_arrows(s: Seq<char>) -> Seq<char>
    decreases s.len(),
{
    if s.len() == 0 {
        s
    } else if s.len() >= 3 && s[0] == '-' && s[1] == '-' && s[2] == '>' {
        seq!['-', '>'] + replace_arrows(s.skip(3))
    } else {
        seq![s[0]] + replace_arrows(s.skip(1))
    }
}

/// `s` with every `-->` replaced by `->`.
pub fn replace_arrows_text(s: &str) -> (r: String)
    ensures
        r@ == replace_arrows(s@),
{
    let n = s.unicode_len();
    let mut out = String::new();
    let mut k: usize = 0;
    proof {
        assert(s@.skip(0) =~= s@);
    }
    while k < n
        invariant
            0 <= k <= n,
            n == s@.len(),
            replace_arrows(s@) == out@ + replace_arrows(s@.skip(k as int)),
        decreases n - k,
    {
        let ghost pre = out@;
        let ghost rest = s@.skip(k as int);
        if n - k > 2 && s.get_char(k) == '-' && s.get_char(k + 1) == '-' && s.get_char(k + 2) == '>'
        {
            push_char(&mut out, '-');
            push_char(&mut out, '>');
            k = k + 3;
            proof {
                assert(rest.skip(3) =~= s@.skip(k as int));
                assert(rest[0] == '-' && rest[1] == '-' && rest[2] == '>');
                assert(replace_arrows(rest) == seq!['-', '>'] + replace_arrows(s@.skip(k as int)));
                assert(out@ =~= pre + seq!['-', '>']);
                assert(replace_arrows(s@) == out@ + replace_arrows(s@.skip(k as int)));
            }
        } else {
            let c = s.get_char(k);
            push_char(&mut out, c);
            k = k + 1;
            proof {
                assert(rest.skip(1) =~= s@.skip(k as int));
                assert(rest.len() >= 3 ==> !(rest[0] == '-' && rest[1] == '-' && rest[2] == '>'));
                assert(replace_arrows(rest) == seq![rest[0]] + replace_arrows(s@.skip(k as int)));
                assert(out@ =~= pre + seq![c]);
                assert(replace_arrows(s@) == out@ + replace_arrows(s@.skip(k as int)));
            }
        }
    }
    proof {
        assert(s@.skip(n as int) =~= Seq::<char>::empty());
        assert(replace_arrows(s@.skip(n as int)) =~= Seq::<char>::empty());
        assert(replace_arrows(s@) =~= out@);
    }
    out
}

/// Appends a string slice.
pub fn push_str(s: &mut String, piece: &str)
    ensures
        final(s)@ == old(s)@ + piece@,
{
    s.append(piece);
}

} // verus!
