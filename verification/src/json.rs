//! A verified parser for the flat JSON records of the worker protocol:
//! one object per line, string keys, and scalar values (strings with the
//! common escapes, decimal numbers, booleans, null). Nested values, unicode
//! escapes and exponents are outside the protocol's grammar and make the
//! line malformed, which callers skip.

use vstd::prelude::*;

use crate::text::{is_space, is_space_exec, push_char};

verus! {

/// The first index at or after `i` holding a non-whitespace character.
pub open spec fn spec_skip_ws(s: Seq<char>, i: int) -> int
    decreases s.len() - i,
    when 0 <= i <= s.len()
{
    if i < s.len() && is_space(s[i]) {
        spec_skip_ws(s, i + 1)
    } else {
        i
    }
}


/// Advances past whitespace.
pub fn skip_ws(v: &Vec<char>, i: usize) -> (r: usize)
    requires
        i <= v@.len(),
    ensures
        r as int == spec_skip_ws(v@, i as int),
        i <= r <= v@.len(),
{
    let n = v.len();
    let mut k = i;
    while k < n && is_space_exec(v[k])
        invariant
            i <= k <= n,
            n == v@.len(),
            spec_skip_ws(v@, i as int) == spec_skip_ws(v@, k as int),
        decreases n - k,
    {
        k = k + 1;
    }
    k
}

/// What a backslash escape denotes, if it is one the grammar knows.
pub open spec fn spec_unescape(c: char) -> Option<char> {
    if c == '"' {
        Some('"')
    } else if c == '\\' {
        Some('\\')
    } else if c == '/' {
        Some('/')
    } else if c == 'n' {
        Some('\n')
    } else if c == 't' {
        Some('\t')
    } else if c == 'r' {
        Some('\r')
    } else if c == 'b' {
        Some('\u{8}')
    } else if c == 'f' {
        Some('\u{c}')
    } else {
        None
    }
}

fn unescape(c: char) -> (r: Option<char>)
    ensures
        r == spec_unescape(c),
{
    if c == '"' {
        Some('"')
    } else if c == '\\' {
        Some('\\')
    } else if c == '/' {
        Some('/')
    } else if c == 'n' {
        Some('\n')
    } else if c == 't' {
        Some('\t')
    } else if c == 'r' {
        Some('\r')
    } else if c == 'b' {
        Some('\u{8}')
    } else if c == 'f' {
        Some('\u{c}')
    } else {
        None
    }
}

/// The body of a string literal from position `i` (just after the opening
/// quote) to its closing quote: the unescaped content and the position just
/// after the closing quote.
pub open spec fn spec_str_body(s: Seq<char>, i: int) -> Option<(Seq<char>, int)>
    decreases s.len() - i,
    when 0 <= i <= s.len()
{
    if i >= s.len() {
        None
    } else if s[i] == '"' {
        Some((Seq::empty(), i + 1))
    } else if s[i] == '\\' {
        if i + 1 >= s.len() {
            None
        } else {
            match spec_unescape(s[i + 1]) {
                Some(c) => match spec_str_body(s, i + 2) {
                    Some((t, j)) => Some((seq![c] + t, j)),
                    None => None,
                },
                None => None,
            }
        }
    } else {
        match spec_str_body(s, i + 1) {
            Some((t, j)) => Some((seq![s[i]] + t, j)),
            None => None,
        }
    }
}

pub proof fn lemma_str_body_bounds(s: Seq<char>, i: int)
    requires
        0 <= i <= s.len(),
    ensures
        spec_str_body(s, i) matches Some((t, j)) ==> i < j <= s.len(),
    decreases s.len() - i,
{
    if i < s.len() && s[i] != '"' {
        if s[i] == '\\' {
            if i + 1 < s.len() {
                lemma_str_body_bounds(s, i + 2);
            }
        } else {
            lemma_str_body_bounds(s, i + 1);
        }
    }
}

/// Parses a string body starting just after the opening quote.
pub fn parse_str_body(v: &Vec<char>, i: usize) -> (r: Option<(String, usize)>)
    requires
        i <= v@.len(),
    ensures
        match r {
            Some((t, j)) => spec_str_body(v@, i as int) == Some((t@, j as int)) && i < j
                && j <= v@.len(),
            None => spec_str_body(v@, i as int) is None,
        },
{
    let n = v.len();
    let mut out = String::new();
    let mut k = i;
    loop
        invariant
            i <= k <= n,
            n == v@.len(),
            match spec_str_body(v@, k as int) {
                Some((t, j)) => spec_str_body(v@, i as int) == Some((out@ + t, j)),
                None => spec_str_body(v@, i as int) is None,
            },
        decreases n - k,
    {
        if k >= n {
            return None;
        }
        let c = v[k];
        if c == '"' {
            proof {
                lemma_str_body_bounds(v@, i as int);
                assert(spec_str_body(v@, k as int) == Some((Seq::<char>::empty(), k + 1)));
                assert(out@ + Seq::<char>::empty() =~= out@);
            }
            return Some((out, k + 1));
        } else if c == '\\' {
            if k + 1 >= n {
                return None;
            }
            match unescape(v[k + 1]) {
                Some(e) => {
                    let ghost pre = out@;
                    push_char(&mut out, e);
                    k = k + 2;
                    proof {
                        assert(spec_str_body(v@, k as int) matches Some((t, j)) ==> pre + (
                        seq![e] + t) =~= out@ + t);
                    }
                },
                None => {
                    return None;
                },
            }
        } else {
            let ghost pre = out@;
            push_char(&mut out, c);
            k = k + 1;
            proof {
                assert(spec_str_body(v@, k as int) matches Some((t, j)) ==> pre + (seq![c] + t)
                    =~= out@ + t);
            }
        }
    }
}

/// Decimal digit test.
pub open spec fn is_digit(c: char) -> bool {
    '0' <= c && c <= '9'
}

fn is_digit_exec(c: char) -> (r: bool)
    ensures
        r == is_digit(c),
{
    '0' <= c && c <= '9'
}

/// The numeric value of a digit character.
pub open spec fn dval(c: char) -> int {
    c as int - 48
}

fn dval_exec(c: char) -> (r: u64)
    requires
        is_digit(c),
    ensures
        r as int == dval(c),
        r <= 9,
{
    (c as u8 - 48) as u64
}

/// The end of the digit run starting at `i`.
pub open spec fn spec_scan_digits(s: Seq<char>, i: int) -> int
    decreases s.len() - i,
    when 0 <= i <= s.len()
{
    if i < s.len() && is_digit(s[i]) {
        spec_scan_digits(s, i + 1)
    } else {
        i
    }
}

pub proof fn lemma_scan_digits_bounds(s: Seq<char>, i: int)
    requires
        0 <= i <= s.len(),
    ensures
        i <= spec_scan_digits(s, i) <= s.len(),
        forall|k: int| i <= k < spec_scan_digits(s, i) ==> is_digit(s[k]),
    decreases s.len() - i,
{
    if i < s.len() && is_digit(s[i]) {
        lemma_scan_digits_bounds(s, i + 1);
    }
}

fn scan_digits(v: &Vec<char>, i: usize) -> (r: usize)
    requires
        i <= v@.len(),
    ensures
        r as int == spec_scan_digits(v@, i as int),
        i <= r <= v@.len(),
{
    let n = v.len();
    let mut k = i;
    while k < n && is_digit_exec(v[k])
        invariant
            i <= k <= n,
            n == v@.len(),
            spec_scan_digits(v@, i as int) == spec_scan_digits(v@, k as int),
        decreases n - k,
    {
        k = k + 1;
    }
    k
}

/// The value of the digit run `s[i..j]`, most significant digit first.
pub open spec fn digits_val(s: Seq<char>, i: int, j: int) -> int
    decreases j - i,
    when i <= j
{
    if j <= i {
        0
    } else {
        digits_val(s, i, j - 1) * 10 + dval(s[j - 1])
    }
}

/// Ten to the `n`.
pub open spec fn pow10(n: nat) -> int
    decreases n,
{
    if n == 0 {
        1
    } else {
        10 * pow10((n - 1) as nat)
    }
}

pub proof fn lemma_digits_val_bound(s: Seq<char>, i: int, j: int)
    requires
        0 <= i <= j <= s.len(),
        forall|k: int| i <= k < j ==> is_digit(s[k]),
    ensures
        0 <= digits_val(s, i, j) < pow10((j - i) as nat),
    decreases j - i,
{
    if j > i {
        lemma_digits_val_bound(s, i, j - 1);
        assert(is_digit(s[j - 1]));
        assert(0 <= dval(s[j - 1]) <= 9);
    }
}

proof fn lemma_pow10_15()
    ensures
        pow10(15) == 0x38d7ea4c68000,
        pow10(14) == 0x5af3107a4000,
{
    assert(pow10(0) == 1);
    assert(pow10(1) == 10);
    assert(pow10(2) == 100);
    assert(pow10(3) == 1000);
    assert(pow10(4) == 10000);
    assert(pow10(5) == 100000);
    assert(pow10(6) == 1000000);
    assert(pow10(7) == 10000000);
    assert(pow10(8) == 100000000);
    assert(pow10(9) == 1000000000);
    assert(pow10(10) == 10000000000);
    assert(pow10(11) == 100000000000);
    assert(pow10(12) == 1000000000000);
    assert(pow10(13) == 10000000000000);
    assert(pow10(14) == 100000000000000);
    assert(pow10(15) == 1000000000000000);
}

/// At most this many digits are accepted in the integer part of a number:
/// enough for any timestamp, and small enough that the value fits in `u64`.
pub const MAX_INT_DIGITS: usize = 15;

/// Computes the value of a digit run already known to be at most 15 digits.
fn digits_value(v: &Vec<char>, i: usize, j: usize) -> (r: u64)
    requires
        i <= j <= v@.len(),
        j - i <= MAX_INT_DIGITS,
        forall|k: int| i <= k < j ==> is_digit(v@[k]),
    ensures
        r as int == digits_val(v@, i as int, j as int),
        r < 1000000000000000,
{
    proof {
        lemma_pow10_15();
    }
    let mut acc: u64 = 0;
    let mut k = i;
    while k < j
        invariant
            i <= k <= j <= v@.len(),
            j - i <= 15,
            forall|q: int| i <= q < j ==> is_digit(v@[q]),
            acc as int == digits_val(v@, i as int, k as int),
            (acc as int) < pow10((k - i) as nat),
            pow10(15) == 0x38d7ea4c68000,
            pow10(14) == 0x5af3107a4000,
        decreases j - k,
    {
        proof {
            lemma_digits_val_bound(v@, i as int, k as int);
            lemma_pow10_increases(((k - i) as nat), 14);
        }
        let d = dval_exec(v[k]);
        acc = acc * 10 + d;
        k = k + 1;
    }
    proof {
        lemma_digits_val_bound(v@, i as int, j as int);
        lemma_pow10_increases(((j - i) as nat), 15);
    }
    acc
}

proof fn lemma_pow10_increases(a: nat, b: nat)
    requires
        a <= b,
    ensures
        pow10(a) <= pow10(b),
        pow10(a) >= 1,
    decreases b,
{
    if a < b {
        lemma_pow10_increases(a, (b - 1) as nat);
    } else if b > 0 {
        lemma_pow10_increases((a - 1) as nat, (b - 1) as nat);
    }
}

/// A parsed JSON number: sign, integer part, and the fraction's digit run
/// kept verbatim (interpretation is up to the consumer).
pub struct JsonNum {
    pub neg: bool,
    pub int_part: u64,
    pub frac: String,
}

/// A number at position `i`: optional minus, one to fifteen integer digits,
/// and an optional fraction with at least one digit. Yields the sign, the
/// integer value, the fraction digits, and the position after the number.
pub open spec fn spec_parse_number(s: Seq<char>, i: int) -> Option<((bool, int, Seq<char>), int)> {
    if i < 0 || i >= s.len() {
        None
    } else {
        let neg = s[i] == '-';
        let d0 = if neg {
            i + 1
        } else {
            i
        };
        if d0 >= s.len() {
            None
        } else {
            let d1 = spec_scan_digits(s, d0);
            if d1 == d0 || d1 - d0 > MAX_INT_DIGITS {
                None
            } else {
                let ival = digits_val(s, d0, d1);
                if d1 < s.len() && s[d1] == '.' {
                    let f1 = spec_scan_digits(s, d1 + 1);
                    if f1 == d1 + 1 {
                        None
                    } else {
                        Some(((neg, ival, s.subrange(d1 + 1, f1)), f1))
                    }
                } else {
                    Some(((neg, ival, Seq::empty()), d1))
                }
            }
        }
    }
}

/// Parses a number at position `i`.
pub fn parse_number(v: &Vec<char>, i: usize) -> (r: Option<(JsonNum, usize)>)
    requires
        i <= v@.len(),
    ensures
        match r {
            Some((num, j)) => spec_parse_number(v@, i as int) == Some(
                ((num.neg, num.int_part as int, num.frac@), j as int),
            ) && i < j <= v@.len() && num.int_part < 1000000000000000,
            None => spec_parse_number(v@, i as int) is None,
        },
{
    let n = v.len();
    if i >= n {
        return None;
    }
    let neg = v[i] == '-';
    let d0 = if neg {
        i + 1
    } else {
        i
    };
    if d0 >= n {
        return None;
    }
    let d1 = scan_digits(v, d0);
    if d1 == d0 || d1 - d0 > MAX_INT_DIGITS {
        return None;
    }
    proof {
        lemma_scan_digits_bounds(v@, d0 as int);
    }
    let ival = digits_value(v, d0, d1);
    if d1 < n && v[d1] == '.' {
        let f1 = scan_digits(v, d1 + 1);
        if f1 == d1 + 1 {
            return None;
        }
        let mut frac = String::new();
        let mut k = d1 + 1;
        while k < f1
            invariant
                d1 + 1 <= k <= f1 <= v@.len(),
                frac@ =~= v@.subrange(d1 + 1, k as int),
            decreases f1 - k,
        {
            push_char(&mut frac, v[k]);
            k = k + 1;
            proof {
                assert(frac@ =~= v@.subrange(d1 + 1, k as int));
            }
        }
        Some((JsonNum { neg, int_part: ival, frac }, f1))
    } else {
        Some((JsonNum { neg, int_part: ival, frac: String::new() }, d1))
    }
}

/// A scalar JSON value at the specification level.
pub enum SpecJsonValue {
    Text(Seq<char>),
    Number { neg: bool, int_part: int, frac: Seq<char> },
    Boolean(bool),
    Null,
}

/// A scalar JSON value as parsed.
pub enum JsonValue {
    Text(String),
    Number(JsonNum),
    Boolean(bool),
    Null,
}

impl JsonValue {
    /// The specification-level value this parse result denotes.
    pub open spec fn as_spec(&self) -> SpecJsonValue {
        match self {
            JsonValue::Text(s) => SpecJsonValue::Text(s@),
            JsonValue::Number(n) => SpecJsonValue::Number {
                neg: n.neg,
                int_part: n.int_part as int,
                frac: n.frac@,
            },
            JsonValue::Boolean(b) => SpecJsonValue::Boolean(*b),
            JsonValue::Null => SpecJsonValue::Null,
        }
    }
}

/// A scalar value at position `i`: a string, a number, `true`, `false` or
/// `null`. Anything else, including a nested object or array, is outside the
/// protocol's grammar.
pub open spec fn spec_parse_value(s: Seq<char>, i: int) -> Option<(SpecJsonValue, int)> {
    if i < 0 || i >= s.len() {
        None
    } else if s[i] == '"' {
        match spec_str_body(s, i + 1) {
            Some((t, j)) => Some((SpecJsonValue::Text(t), j)),
            None => None,
        }
    } else if s[i] == '-' || is_digit(s[i]) {
        match spec_parse_number(s, i) {
            Some(((neg, ival, frac), j)) => Some(
                (SpecJsonValue::Number { neg, int_part: ival, frac }, j),
            ),
            None => None,
        }
    } else if i + 4 <= s.len() && s[i] == 't' && s[i + 1] == 'r' && s[i + 2] == 'u' && s[i + 3]
        == 'e' {
        Some((SpecJsonValue::Boolean(true), i + 4))
    } else if i + 5 <= s.len() && s[i] == 'f' && s[i + 1] == 'a' && s[i + 2] == 'l' && s[i + 3]
        == 's' && s[i + 4] == 'e' {
        Some((SpecJsonValue::Boolean(false), i + 5))
    } else if i + 4 <= s.len() && s[i] == 'n' && s[i + 1] == 'u' && s[i + 2] == 'l' && s[i + 3]
        == 'l' {
        Some((SpecJsonValue::Null, i + 4))
    } else {
        None
    }
}

/// Parses one scalar value at position `i`.
pub fn parse_value(v: &Vec<char>, i: usize) -> (r: Option<(JsonValue, usize)>)
    requires
        i <= v@.len(),
    ensures
        match r {
            Some((jv, j)) => spec_parse_value(v@, i as int) == Some((jv.as_spec(), j as int)) && i
                < j <= v@.len(),
            None => spec_parse_value(v@, i as int) is None,
        },
{
    let n = v.len();
    if i >= n {
        return None;
    }
    let c = v[i];
    if c == '"' {
        proof {
            lemma_str_body_bounds(v@, i + 1);
        }
        match parse_str_body(v, i + 1) {
            Some((t, j)) => Some((JsonValue::Text(t), j)),
            None => None,
        }
    } else if c == '-' || is_digit_exec(c) {
        match parse_number(v, i) {
            Some((num, j)) => Some((JsonValue::Number(num), j)),
            None => None,
        }
    } else if c == 't' {
        if n - i >= 4 && v[i + 1] == 'r' && v[i + 2] == 'u' && v[i + 3] == 'e' {
            Some((JsonValue::Boolean(true), i + 4))
        } else {
            None
        }
    } else if c == 'f' {
        if n - i >= 5 && v[i + 1] == 'a' && v[i + 2] == 'l' && v[i + 3] == 's' && v[i + 4] == 'e' {
            Some((JsonValue::Boolean(false), i + 5))
        } else {
            None
        }
    } else if c == 'n' {
        if n - i >= 4 && v[i + 1] == 'u' && v[i + 2] == 'l' && v[i + 3] == 'l' {
            Some((JsonValue::Null, i + 4))
        } else {
            None
        }
    } else {
        None
    }
}

/// One parsed key-value pair of the record.
pub struct JsonMember {
    pub key: String,
    pub value: JsonValue,
}

/// The specification-level view of parsed members.
pub open spec fn member_views(ms: Seq<JsonMember>) -> Seq<(Seq<char>, SpecJsonValue)> {
    ms.map_values(|m: JsonMember| (m.key@, m.value.as_spec()))
}

/// The members of an object from position `i` (just after `{` or a comma)
/// up to and including the closing brace: `"key": value` pairs separated by
/// commas. The bound guards only restate facts that always hold; they let
/// the recursion terminate structurally.
pub open spec fn spec_parse_members(s: Seq<char>, i: int) -> Option<
    (Seq<(Seq<char>, SpecJsonValue)>, int),
>
    decreases s.len() - i,
    when 0 <= i <= s.len()
{
    let i0 = spec_skip_ws(s, i);
    if !(i <= i0 <= s.len()) {
        None
    } else if i0 >= s.len() || s[i0] != '"' {
        None
    } else {
        match spec_str_body(s, i0 + 1) {
            None => None,
            Some((key, i1)) => {
                if !(i0 < i1 <= s.len()) {
                    None
                } else {
                    let i2 = spec_skip_ws(s, i1);
                    if !(i1 <= i2 <= s.len()) || i2 >= s.len() || s[i2] != ':' {
                        None
                    } else {
                        let i3 = spec_skip_ws(s, i2 + 1);
                        if !(i2 + 1 <= i3 <= s.len()) {
                            None
                        } else {
                            match spec_parse_value(s, i3) {
                                None => None,
                                Some((val, i4)) => {
                                    if !(i3 < i4 <= s.len()) {
                                        None
                                    } else {
                                        let i5 = spec_skip_ws(s, i4);
                                        if !(i4 <= i5 <= s.len()) || i5 >= s.len() {
                                            None
                                        } else if s[i5] == ',' {
                                            match spec_parse_members(s, i5 + 1) {
                                                None => None,
                                                Some((rest, j)) => Some(
                                                    (seq![(key, val)] + rest, j),
                                                ),
                                            }
                                        } else if s[i5] == '}' {
                                            Some((seq![(key, val)], i5 + 1))
                                        } else {
                                            None
                                        }
                                    }
                                },
                            }
                        }
                    }
                }
            },
        }
    }
}

/// Parses the members of an object from position `i` up to and including
/// the closing brace.
pub fn parse_members(v: &Vec<char>, i: usize) -> (r: Option<(Vec<JsonMember>, usize)>)
    requires
        i <= v@.len(),
    ensures
        match r {
            Some((ms, j)) => spec_parse_members(v@, i as int) == Some(
                (member_views(ms@), j as int),
            ) && j <= v@.len(),
            None => spec_parse_members(v@, i as int) is None,
        },
{
    let n = v.len();
    let mut out: Vec<JsonMember> = Vec::new();
    let mut k = i;
    proof {
        assert(member_views(out@) =~= Seq::<(Seq<char>, SpecJsonValue)>::empty());
    }
    loop
        invariant
            i <= k <= n,
            n == v@.len(),
            match spec_parse_members(v@, k as int) {
                Some((rest, j)) => spec_parse_members(v@, i as int) == Some(
                    (member_views(out@) + rest, j),
                ),
                None => spec_parse_members(v@, i as int) is None,
            },
        decreases n - k,
    {
        let ghost done = member_views(out@);
        let i0 = skip_ws(v, k);
        if i0 >= n || v[i0] != '"' {
            return None;
        }
        let (key, i1) = match parse_str_body(v, i0 + 1) {
            Some(p) => p,
            None => {
                return None;
            },
        };
        let i2 = skip_ws(v, i1);
        if i2 >= n || v[i2] != ':' {
            return None;
        }
        let i3 = skip_ws(v, i2 + 1);
        let (val, i4) = match parse_value(v, i3) {
            Some(p) => p,
            None => {
                return None;
            },
        };
        let i5 = skip_ws(v, i4);
        if i5 >= n {
            return None;
        }
        let sep = v[i5];
        let ghost pair = (key@, val.as_spec());
        let member = JsonMember { key, value: val };
        out.push(member);
        proof {
            assert(member_views(out@) =~= done + seq![pair]);
        }
        if sep == ',' {
            k = i5 + 1;
            proof {
                assert(spec_parse_members(v@, i5 + 1) matches Some((rest, j)) ==> done + (
                seq![pair] + rest) =~= member_views(out@) + rest);
            }
        } else if sep == '}' {
            proof {
                assert(done + seq![pair] =~= member_views(out@));
            }
            return Some((out, i5 + 1));
        } else {
            return None;
        }
    }
}

/// A whole record: one flat object, possibly surrounded by whitespace, with
/// nothing after it. Yields its members in order.
pub open spec fn spec_parse_object(s: Seq<char>) -> Option<Seq<(Seq<char>, SpecJsonValue)>> {
    let i0 = spec_skip_ws(s, 0);
    if !(0 <= i0 <= s.len()) || i0 >= s.len() || s[i0] != '{' {
        None
    } else {
        let i1 = spec_skip_ws(s, i0 + 1);
        if (i0 + 1 <= i1 <= s.len()) && i1 < s.len() && s[i1] == '}' {
            if spec_skip_ws(s, i1 + 1) == s.len() {
                Some(Seq::empty())
            } else {
                None
            }
        } else {
            match spec_parse_members(s, i0 + 1) {
                None => None,
                Some((ms, j)) => {
                    if !(0 <= j <= s.len()) {
                        None
                    } else if spec_skip_ws(s, j) == s.len() {
                        Some(ms)
                    } else {
                        None
                    }
                },
            }
        }
    }
}

/// The characters of a string slice, for positional parsing.
pub fn chars_of(s: &str) -> (r: Vec<char>)
    ensures
        r@ == s@,
{
    let n = s.unicode_len();
    let mut v: Vec<char> = Vec::new();
    let mut k: usize = 0;
    while k < n
        invariant
            0 <= k <= n,
            n == s@.len(),
            v@ =~= s@.take(k as int),
        decreases n - k,
    {
        v.push(s.get_char(k));
        k = k + 1;
        proof {
            assert(v@ =~= s@.take(k as int));
        }
    }
    proof {
        assert(v@ =~= s@);
    }
    v
}

/// Parses one line as a flat JSON object, yielding its members in order, or
/// nothing when the line is not in the protocol's grammar.
pub fn parse_json_object(line: &str) -> (r: Option<Vec<JsonMember>>)
    ensures
        match r {
            Some(ms) => spec_parse_object(line@) == Some(member_views(ms@)),
            None => spec_parse_object(line@) is None,
        },
{
    let v = chars_of(line);
    let n = v.len();
    let i0 = skip_ws(&v, 0);
    if i0 >= n || v[i0] != '{' {
        return None;
    }
    let i1 = skip_ws(&v, i0 + 1);
    if i1 < n && v[i1] == '}' {
        if skip_ws(&v, i1 + 1) == n {
            let empty_members: Vec<JsonMember> = Vec::new();
            proof {
                assert(member_views(Seq::<JsonMember>::empty()) =~= Seq::<
                    (Seq<char>, SpecJsonValue),
                >::empty());
            }
            return Some(empty_members);
        } else {
            return None;
        }
    }
    match parse_members(&v, i0 + 1) {
        None => None,
        Some((ms, j)) => {
            if skip_ws(&v, j) == n {
                Some(ms)
            } else {
                None
            }
        },
    }
}

} // verus!
