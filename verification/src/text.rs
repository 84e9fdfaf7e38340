//! Character-level helpers over `String` / `&str`, stated over the
//! `Seq<char>` view of a string: trimming, prefix / substring search,
//! decimal rendering and decimal parsing.

use vstd::prelude::*;

verus! {

// ─── std glue ────────────────────────────────────────────────

/// Builds a `String` from a sequence of characters
/// (`Iterator::collect` into `String`).
#[verifier::external_body]
pub fn string_from_chars(cs: &Vec<char>) -> (r: String)
    ensures
        r@ == cs@,
{
    cs.iter().collect()
}

/// The characters of `s`, in order (`str::chars` collected).
#[verifier::external_body]
pub fn chars_of(s: &str) -> (r: Vec<char>)
    ensures
        r@ == s@,
{
    s.chars().collect()
}

/// `a == b` on string slices.
#[verifier::external_body]
pub fn str_eq(a: &str, b: &str) -> (r: bool)
    ensures
        r == (a@ == b@),
{
    a == b
}

/// What `str::to_lowercase` returns for the characters `s`.
pub uninterp spec fn unicode_lowercase(s: Seq<char>) -> Seq<char>;

/// `str::to_lowercase`. Its documentation defines the result by the
/// Unicode `Lowercase` mapping; stated here: it is a function of the
/// characters alone, and on ASCII text it lowercases `A`–`Z` one for
/// one and leaves every other character unchanged.
#[verifier::external_body]
pub fn to_lowercase(s: &str) -> (r: String)
    ensures
        r@ == unicode_lowercase(s@),
        all_ascii(s@) ==> r@ == ascii_lower_seq(s@),
{
    s.to_lowercase()
}

// ─── character classes ───────────────────────────────────────

/// Unicode `White_Space`, the set `char::is_whitespace` tests.
pub open spec fn is_ws(c: char) -> bool {
    ||| ('\u{9}' <= c && c <= '\u{d}')
    ||| c == ' '
    ||| c == '\u{85}'
    ||| c == '\u{a0}'
    ||| c == '\u{1680}'
    ||| ('\u{2000}' <= c && c <= '\u{200a}')
    ||| c == '\u{2028}'
    ||| c == '\u{2029}'
    ||| c == '\u{202f}'
    ||| c == '\u{205f}'
    ||| c == '\u{3000}'
}

/// `char::is_whitespace`.
pub fn is_whitespace(c: char) -> (r: bool)
    ensures
        r == is_ws(c),
{
    ('\u{9}' <= c && c <= '\u{d}') || c == ' ' || c == '\u{85}' || c == '\u{a0}'
        || c == '\u{1680}' || ('\u{2000}' <= c && c <= '\u{200a}') || c == '\u{2028}'
        || c == '\u{2029}' || c == '\u{202f}' || c == '\u{205f}' || c == '\u{3000}'
}

pub open spec fn is_ascii_digit(c: char) -> bool {
    '0' <= c && c <= '9'
}

pub open spec fn is_ascii_upper(c: char) -> bool {
    'A' <= c && c <= 'Z'
}

pub open spec fn is_ascii_lower(c: char) -> bool {
    'a' <= c && c <= 'z'
}

pub open spec fn is_ascii_alnum(c: char) -> bool {
    is_ascii_digit(c) || is_ascii_upper(c) || is_ascii_lower(c)
}

pub open spec fn all_ascii(s: Seq<char>) -> bool {
    forall|i: int| 0 <= i < s.len() ==> (s[i] as u32) < 128
}

pub open spec fn ascii_lower(c: char) -> char {
    if is_ascii_upper(c) {
        ((c as u32) + 32) as char
    } else {
        c
    }
}

pub open spec fn ascii_lower_seq(s: Seq<char>) -> Seq<char> {
    Seq::new(s.len(), |i: int| ascii_lower(s[i]))
}

/// `char::to_ascii_lowercase`.
pub fn ascii_lower_char(c: char) -> (r: char)
    ensures
        r == ascii_lower(c),
{
    if 'A' <= c && c <= 'Z' {
        let b: u8 = c as u8;
        let l: u8 = b + 32;
        let r = l as char;
        proof {
            assert(r as u32 == (c as u32) + 32);
        }
        r
    } else {
        c
    }
}

/// `str::to_ascii_lowercase` on character vectors.
pub fn ascii_lower_chars(s: &Vec<char>) -> (r: Vec<char>)
    ensures
        r@ == ascii_lower_seq(s@),
{
    let mut out: Vec<char> = Vec::new();
    let mut i: usize = 0;
    while i < s.len()
        invariant
            i <= s@.len(),
            out@ == ascii_lower_seq(s@).take(i as int),
        decreases s@.len() - i,
    {
        out.push(ascii_lower_char(s[i]));
        i = i + 1;
        proof {
            assert(out@ =~= ascii_lower_seq(s@).take(i as int));
        }
    }
    proof {
        assert(out@ =~= ascii_lower_seq(s@));
    }
    out
}

pub open spec fn digit_val(c: char) -> nat {
    ((c as u32) - ('0' as u32)) as nat
}

// ─── trimming ────────────────────────────────────────────────

/// Number of leading whitespace characters.
pub open spec fn lead_ws(s: Seq<char>) -> nat
    decreases s.len(),
{
    if s.len() > 0 && is_ws(s[0]) {
        1 + lead_ws(s.drop_first())
    } else {
        0
    }
}

/// Number of trailing whitespace characters.
pub open spec fn trail_ws(s: Seq<char>) -> nat
    decreases s.len(),
{
    if s.len() > 0 && is_ws(s.last()) {
        1 + trail_ws(s.drop_last())
    } else {
        0
    }
}

pub open spec fn trim_start(s: Seq<char>) -> Seq<char> {
    s.subrange(lead_ws(s) as int, s.len() as int)
}

pub open spec fn trim_end(s: Seq<char>) -> Seq<char> {
    s.subrange(0, s.len() - trail_ws(s))
}

/// `str::trim`.
pub open spec fn trim(s: Seq<char>) -> Seq<char> {
    trim_end(trim_start(s))
}

pub proof fn lemma_lead_ws(s: Seq<char>)
    ensures
        lead_ws(s) <= s.len(),
        forall|i: int| 0 <= i < lead_ws(s) ==> is_ws(#[trigger] s[i]),
        lead_ws(s) < s.len() ==> !is_ws(s[lead_ws(s) as int]),
    decreases s.len(),
{
    if s.len() > 0 && is_ws(s[0]) {
        lemma_lead_ws(s.drop_first());
        assert forall|i: int| 0 <= i < lead_ws(s) implies is_ws(#[trigger] s[i]) by {
            if i > 0 {
                assert(s[i] == s.drop_first()[i - 1]);
            }
        }
        if lead_ws(s) < s.len() {
            assert(s[lead_ws(s) as int] == s.drop_first()[lead_ws(s.drop_first()) as int]);
        }
    }
}

pub proof fn lemma_trail_ws(s: Seq<char>)
    ensures
        trail_ws(s) <= s.len(),
        forall|i: int| s.len() - trail_ws(s) <= i < s.len() ==> is_ws(#[trigger] s[i]),
        trail_ws(s) < s.len() ==> !is_ws(s[s.len() - trail_ws(s) - 1]),
    decreases s.len(),
{
    if s.len() > 0 && is_ws(s.last()) {
        lemma_trail_ws(s.drop_last());
        assert forall|i: int| s.len() - trail_ws(s) <= i < s.len() implies is_ws(#[trigger] s[i]) by {
            if i < s.len() - 1 {
                assert(s[i] == s.drop_last()[i]);
            }
        }
        if trail_ws(s) < s.len() {
            assert(s[s.len() - trail_ws(s) - 1] == s.drop_last()[s.drop_last().len() - trail_ws(
                s.drop_last(),
            ) - 1]);
        }
    }
}

/// `lead_ws` characterised by its witnesses.
pub proof fn lemma_lead_ws_is(s: Seq<char>, k: nat)
    requires
        k <= s.len(),
        forall|i: int| 0 <= i < k ==> is_ws(#[trigger] s[i]),
        k < s.len() ==> !is_ws(s[k as int]),
    ensures
        lead_ws(s) == k,
    decreases s.len(),
{
    if k > 0 {
        assert(is_ws(s[0]));
        assert forall|i: int| 0 <= i < k - 1 implies is_ws(#[trigger] s.drop_first()[i]) by {
            assert(s.drop_first()[i] == s[i + 1]);
        }
        if k - 1 < s.drop_first().len() {
            assert(s.drop_first()[k - 1] == s[k as int]);
        }
        lemma_lead_ws_is(s.drop_first(), (k - 1) as nat);
    }
}

/// `trail_ws` characterised by its witnesses.
pub proof fn lemma_trail_ws_is(s: Seq<char>, k: nat)
    requires
        k <= s.len(),
        forall|i: int| s.len() - k <= i < s.len() ==> is_ws(#[trigger] s[i]),
        k < s.len() ==> !is_ws(s[s.len() - k - 1]),
    ensures
        trail_ws(s) == k,
    decreases s.len(),
{
    if k > 0 {
        assert(is_ws(s[s.len() - 1]));
        let t = s.drop_last();
        assert forall|i: int| t.len() - (k - 1) <= i < t.len() implies is_ws(#[trigger] t[i]) by {
            assert(t[i] == s[i]);
        }
        if k - 1 < t.len() {
            assert(t[t.len() - (k - 1) - 1] == s[s.len() - k - 1]);
        }
        lemma_trail_ws_is(t, (k - 1) as nat);
    }
}

/// Index of the first non-whitespace character at or after `lo`, below `hi`.
pub(crate) fn skip_ws_forward(s: &Vec<char>, lo: usize, hi: usize) -> (r: usize)
    requires
        lo <= hi <= s.len(),
    ensures
        lo <= r <= hi,
        forall|i: int| lo <= i < r ==> is_ws(#[trigger] s@[i]),
        r < hi ==> !is_ws(s@[r as int]),
{
    let mut i = lo;
    while i < hi && is_whitespace(s[i])
        invariant
            lo <= i <= hi <= s.len(),
            forall|j: int| lo <= j < i ==> is_ws(#[trigger] s@[j]),
        decreases hi - i,
    {
        i = i + 1;
    }
    i
}

/// One past the last non-whitespace character below `hi`, not below `lo`.
fn skip_ws_backward(s: &Vec<char>, lo: usize, hi: usize) -> (r: usize)
    requires
        lo <= hi <= s.len(),
    ensures
        lo <= r <= hi,
        forall|i: int| r <= i < hi ==> is_ws(#[trigger] s@[i]),
        r > lo ==> !is_ws(s@[r - 1]),
{
    let mut j = hi;
    while j > lo && is_whitespace(s[j - 1])
        invariant
            lo <= j <= hi <= s.len(),
            forall|k: int| j <= k < hi ==> is_ws(#[trigger] s@[k]),
        decreases j,
    {
        j = j - 1;
    }
    j
}

/// Copy of `s[lo..hi]`.
pub fn slice_chars(s: &Vec<char>, lo: usize, hi: usize) -> (r: Vec<char>)
    requires
        lo <= hi <= s.len(),
    ensures
        r@ == s@.subrange(lo as int, hi as int),
{
    let mut r: Vec<char> = Vec::new();
    let mut i = lo;
    while i < hi
        invariant
            lo <= i <= hi <= s.len(),
            r@ == s@.subrange(lo as int, i as int),
        decreases hi - i,
    {
        r.push(s[i]);
        i = i + 1;
    }
    r
}

/// Bounds `(lo, hi)` of `trim(s[a..b])` inside `s`.
pub fn trim_bounds(s: &Vec<char>, a: usize, b: usize) -> (r: (usize, usize))
    requires
        a <= b <= s.len(),
    ensures
        a <= r.0 <= r.1 <= b,
        s@.subrange(r.0 as int, r.1 as int) == trim(s@.subrange(a as int, b as int)),
{
    let ghost w = s@.subrange(a as int, b as int);
    let lo = skip_ws_forward(s, a, b);
    let hi = skip_ws_backward(s, lo, b);
    proof {
        lemma_lead_ws_is(w, (lo - a) as nat);
        let t = trim_start(w);
        assert(t =~= s@.subrange(lo as int, b as int));
        lemma_trail_ws_is(t, (b - hi) as nat);
        assert(trim_end(t) =~= s@.subrange(lo as int, hi as int));
    }
    (lo, hi)
}

/// `str::trim` on a character vector.
pub fn trim_chars(s: &Vec<char>) -> (r: Vec<char>)
    ensures
        r@ == trim(s@),
{
    let (lo, hi) = trim_bounds(s, 0, s.len());
    proof {
        assert(s@.subrange(0, s@.len() as int) =~= s@);
    }
    slice_chars(s, lo, hi)
}

/// `str::trim`, returned as an owned string.
pub fn trim_str(s: &str) -> (r: String)
    ensures
        r@ == trim(s@),
{
    let cs = chars_of(s);
    let t = trim_chars(&cs);
    string_from_chars(&t)
}

// ─── prefix / substring search ───────────────────────────────

/// `p` occurs in `s` starting at index `i`.
pub open spec fn occurs_at(s: Seq<char>, p: Seq<char>, i: int) -> bool {
    0 <= i && i + p.len() <= s.len() && s.subrange(i, i + p.len()) == p
}

/// `str::contains` with a string pattern.
pub open spec fn contains_seq(s: Seq<char>, p: Seq<char>) -> bool {
    exists|i: int| occurs_at(s, p, i)
}

/// `str::starts_with` with a string pattern.
pub open spec fn starts_with_seq(s: Seq<char>, p: Seq<char>) -> bool {
    occurs_at(s, p, 0)
}

/// Whether `p` occurs in `s` at index `i`.
pub fn matches_at(s: &Vec<char>, p: &Vec<char>, i: usize) -> (r: bool)
    ensures
        r == occurs_at(s@, p@, i as int),
{
    if i > s.len() || p.len() > s.len() - i {
        return false;
    }
    let mut k: usize = 0;
    while k < p.len()
        invariant
            i + p.len() <= s.len(),
            k <= p.len(),
            forall|j: int| 0 <= j < k ==> s@[i + j] == p@[j],
        decreases p.len() - k,
    {
        if s[i + k] != p[k] {
            proof {
                assert(s@.subrange(i as int, i + p.len())[k as int] == s@[i + k]);
            }
            return false;
        }
        k = k + 1;
    }
    proof {
        assert(s@.subrange(i as int, i + p.len()) =~= p@);
    }
    true
}

/// First index at or after `from` where `p` occurs in `s`.
pub fn find_from(s: &Vec<char>, p: &Vec<char>, from: usize) -> (r: Option<usize>)
    ensures
        match r {
            Some(i) => from <= i && occurs_at(s@, p@, i as int) && forall|j: int|
                from <= j < i ==> !occurs_at(s@, p@, j),
            None => forall|j: int| from <= j ==> !occurs_at(s@, p@, j),
        },
{
    if from > s.len() {
        return None;
    }
    let mut i = from;
    while i < s.len()
        invariant
            from <= i <= s.len(),
            forall|j: int| from <= j < i ==> !occurs_at(s@, p@, j),
        decreases s.len() - i,
    {
        if matches_at(s, p, i) {
            return Some(i);
        }
        i = i + 1;
    }
    if matches_at(s, p, i) {
        return Some(i);
    }
    None
}

/// `str::contains` on character vectors.
pub fn contains_chars(s: &Vec<char>, p: &Vec<char>) -> (r: bool)
    ensures
        r == contains_seq(s@, p@),
{
    match find_from(s, p, 0) {
        Some(i) => true,
        None => {
            assert forall|j: int| !occurs_at(s@, p@, j) by {
                if j >= 0 {
                }
            }
            false
        },
    }
}

/// `str::starts_with` on character vectors.
pub fn starts_with_chars(s: &Vec<char>, p: &Vec<char>) -> (r: bool)
    ensures
        r == starts_with_seq(s@, p@),
{
    matches_at(s, p, 0)
}

/// Whether any character of `s` satisfies nothing but a comparison with `c`.
pub fn contains_char(s: &Vec<char>, c: char) -> (r: bool)
    ensures
        r == s@.contains(c),
{
    let mut i: usize = 0;
    while i < s.len()
        invariant
            i <= s.len(),
            forall|j: int| 0 <= j < i ==> s@[j] != c,
        decreases s.len() - i,
    {
        if s[i] == c {
            return true;
        }
        i = i + 1;
    }
    false
}

/// Append all of `t` to `v`.
pub fn push_all(v: &mut Vec<char>, t: &Vec<char>)
    ensures
        final(v)@ == old(v)@ + t@,
{
    let ghost v0 = v@;
    let mut i: usize = 0;
    while i < t.len()
        invariant
            i <= t.len(),
            v@ == v0 + t@.subrange(0, i as int),
        decreases t.len() - i,
    {
        v.push(t[i]);
        i = i + 1;
        proof {
            assert(t@.subrange(0, i as int) =~= t@.subrange(0, i - 1).push(t@[i - 1]));
        }
    }
    proof {
        assert(t@.subrange(0, t@.len() as int) =~= t@);
    }
}

/// Append the characters of `t` to `v`.
pub fn push_str(v: &mut Vec<char>, t: &str)
    ensures
        final(v)@ == old(v)@ + t@,
{
    let cs = chars_of(t);
    push_all(v, &cs);
}

// ─── decimal rendering ───────────────────────────────────────

/// Decimal digits of `n`, most significant first, no sign.
pub open spec fn dec_nat(n: nat) -> Seq<char>
    decreases n,
{
    if n < 10 {
        seq![(('0' as u32) + n) as char]
    } else {
        dec_nat(n / 10).push((('0' as u32) + (n % 10)) as char)
    }
}

/// `Display` of a signed integer.
pub open spec fn dec_int(n: int) -> Seq<char> {
    if n < 0 {
        seq!['-'] + dec_nat((-n) as nat)
    } else {
        dec_nat(n as nat)
    }
}

/// `n` zeros.
pub open spec fn zeros(n: int) -> Seq<char> {
    Seq::new(if n > 0 { n as nat } else { 0 }, |i: int| '0')
}

/// `format!("{:0w$}", n)`: the sign, then zeros up to width `w`, then the digits.
pub open spec fn dec_int_padded(n: int, w: nat) -> Seq<char> {
    if n < 0 {
        seq!['-'] + zeros(w - 1 - dec_nat((-n) as nat).len()) + dec_nat((-n) as nat)
    } else {
        zeros(w - dec_nat(n as nat).len()) + dec_nat(n as nat)
    }
}

pub proof fn lemma_dec_nat_len(n: nat)
    ensures
        dec_nat(n).len() >= 1,
    decreases n,
{
    if n >= 10 {
        lemma_dec_nat_len(n / 10);
    }
}

/// Decimal digits of `n` appended to `out`.
pub fn push_dec_u64(out: &mut Vec<char>, n: u64)
    ensures
        final(out)@ == old(out)@ + dec_nat(n as nat),
    decreases n,
{
    if n < 10 {
        let c = char_of_digit(n as u8);
        out.push(c);
        proof {
            assert(dec_nat(n as nat) =~= seq![c]);
        }
    } else {
        let ghost o0 = out@;
        push_dec_u64(out, n / 10);
        let c = char_of_digit((n % 10) as u8);
        out.push(c);
        proof {
            assert(o0 + dec_nat(n as nat) =~= o0 + dec_nat((n / 10) as nat) + seq![c]);
        }
    }
}

fn char_of_digit(d: u8) -> (c: char)
    requires
        d < 10,
    ensures
        c == ((('0' as u32) + d as u32) as char),
{
    match d {
        0 => '0',
        1 => '1',
        2 => '2',
        3 => '3',
        4 => '4',
        5 => '5',
        6 => '6',
        7 => '7',
        8 => '8',
        _ => '9',
    }
}

/// Magnitude of an `i64` as a `u64`.
pub fn abs_u64(n: i64) -> (r: u64)
    ensures
        r as int == if n < 0 { -n } else { n as int },
{
    if n < 0 {
        if n == i64::MIN {
            9223372036854775808u64
        } else {
            (-n) as u64
        }
    } else {
        n as u64
    }
}

/// `Display` of an `i64` appended to `out`.
pub fn push_dec_i64(out: &mut Vec<char>, n: i64)
    ensures
        final(out)@ == old(out)@ + dec_int(n as int),
{
    let ghost o0 = out@;
    if n < 0 {
        out.push('-');
    }
    push_dec_u64(out, abs_u64(n));
    proof {
        if n < 0 {
            assert(o0 + dec_int(n as int) =~= o0.push('-') + dec_nat((-n) as nat));
        }
    }
}

fn push_zeros(out: &mut Vec<char>, k: u64)
    ensures
        final(out)@ == old(out)@ + zeros(k as int),
{
    let ghost o0 = out@;
    let mut i: u64 = 0;
    while i < k
        invariant
            i <= k,
            out@ == o0 + zeros(i as int),
        decreases k - i,
    {
        out.push('0');
        i = i + 1;
        proof {
            assert(zeros(i as int) =~= zeros(i - 1).push('0'));
        }
    }
}

/// `format!("{:0w$}", n)` appended to `out`.
pub fn push_dec_i64_padded(out: &mut Vec<char>, n: i64, w: u64)
    ensures
        final(out)@ == old(out)@ + dec_int_padded(n as int, w as nat),
{
    let ghost o0 = out@;
    let mut digits: Vec<char> = Vec::new();
    push_dec_u64(&mut digits, abs_u64(n));
    let len = digits.len() as u64;
    if n < 0 {
        out.push('-');
        if w >= 1 && w - 1 >= len {
            push_zeros(out, w - 1 - len);
        } else {
            push_zeros(out, 0);
        }
    } else {
        if w >= len {
            push_zeros(out, w - len);
        } else {
            push_zeros(out, 0);
        }
    }
    push_all(out, &digits);
    proof {
        assert(digits@ =~= seq![] + dec_nat(abs_u64_spec(n)));
        if n < 0 {
            assert(zeros(w - 1 - len) =~= zeros(if w >= 1 && w - 1 >= len { w - 1 - len } else { 0 }));
            assert(o0 + dec_int_padded(n as int, w as nat) =~= o0.push('-') + zeros(
                w - 1 - len,
            ) + digits@);
        } else {
            assert(zeros(w - len) =~= zeros(if w >= len { w - len } else { 0 }));
            assert(o0 + dec_int_padded(n as int, w as nat) =~= o0 + zeros(w - len) + digits@);
        }
    }
}

pub open spec fn abs_u64_spec(n: i64) -> nat {
    if n < 0 { (-n) as nat } else { n as nat }
}

/// `i64::to_string`.
pub fn i64_to_string(n: i64) -> (r: String)
    ensures
        r@ == dec_int(n as int),
{
    let mut v: Vec<char> = Vec::new();
    push_dec_i64(&mut v, n);
    assert(v@ =~= dec_int(n as int));
    string_from_chars(&v)
}

// ─── decimal parsing ─────────────────────────────────────────

/// Value of an all-digit sequence.
pub open spec fn digits_value(s: Seq<char>) -> nat
    decreases s.len(),
{
    if s.len() == 0 {
        0
    } else {
        digits_value(s.drop_last()) * 10 + digit_val(s.last())
    }
}

pub open spec fn all_digits(s: Seq<char>) -> bool {
    forall|i: int| 0 <= i < s.len() ==> is_ascii_digit(#[trigger] s[i])
}

/// What integer `str::parse` reads from `s`, before the range check of
/// the target type: an optional sign (`-` only where `signed`), then
/// one or more ASCII digits and nothing else.
pub open spec fn parse_int_spec(s: Seq<char>, signed: bool) -> Option<int> {
    if s.len() > 0 && s[0] == '+' {
        let d = s.drop_first();
        if d.len() > 0 && all_digits(d) { Some(digits_value(d) as int) } else { None }
    } else if signed && s.len() > 0 && s[0] == '-' {
        let d = s.drop_first();
        if d.len() > 0 && all_digits(d) { Some(-(digits_value(d) as int)) } else { None }
    } else {
        if s.len() > 0 && all_digits(s) { Some(digits_value(s) as int) } else { None }
    }
}

pub proof fn lemma_digits_value_mono(s: Seq<char>, i: int)
    requires
        0 <= i <= s.len(),
    ensures
        digits_value(s.subrange(0, i)) <= digits_value(s),
    decreases s.len() - i,
{
    if i < s.len() {
        lemma_digits_value_mono(s, i + 1);
        assert(s.subrange(0, i + 1).drop_last() =~= s.subrange(0, i));
    } else {
        assert(s.subrange(0, i) =~= s);
    }
}

/// Reads the digits `s[lo..]` as a number not above `bound`; `None` if
/// a non-digit occurs, if there are no digits, or if the value exceeds
/// `bound`.
fn read_digits(s: &Vec<char>, lo: usize, bound: u64) -> (r: Option<u64>)
    requires
        lo <= s.len(),
    ensures
        ({
            let d = s@.subrange(lo as int, s@.len() as int);
            match r {
                Some(v) => d.len() > 0 && all_digits(d) && v == digits_value(d) && v <= bound,
                None => !(d.len() > 0 && all_digits(d) && digits_value(d) <= bound),
            }
        }),
{
    let ghost d = s@.subrange(lo as int, s@.len() as int);
    if lo == s.len() {
        return None;
    }
    let mut acc: u64 = 0;
    let mut i = lo;
    while i < s.len()
        invariant
            lo <= i <= s.len(),
            d == s@.subrange(lo as int, s@.len() as int),
            acc <= bound,
            all_digits(s@.subrange(lo as int, i as int)),
            acc == digits_value(s@.subrange(lo as int, i as int)),
        decreases s.len() - i,
    {
        let c = s[i];
        if !('0' <= c && c <= '9') {
            proof {
                assert(d[i - lo] == c);
            }
            return None;
        }
        let dv = (c as u32 - '0' as u32) as u64;
        proof {
            assert(s@.subrange(lo as int, i + 1).drop_last() =~= s@.subrange(lo as int, i as int));
            assert(s@.subrange(lo as int, i + 1).last() == c);
        }
        if dv > bound || acc > (bound - dv) / 10 {
            proof {
                if dv <= bound {
                    assert(acc * 10 + dv > bound) by (nonlinear_arith)
                        requires
                            acc > (bound - dv) / 10,
                            dv <= bound,
                    ;
                }
                assert(s@.subrange(lo as int, i + 1) =~= d.subrange(0, i + 1 - lo));
                lemma_digits_value_mono(d, i + 1 - lo);
            }
            return None;
        }
        proof {
            assert(acc * 10 + dv <= bound) by (nonlinear_arith)
                requires
                    acc <= (bound - dv) / 10,
                    dv <= bound,
            ;
        }
        acc = acc * 10 + dv;
        i = i + 1;
        proof {
            assert forall|j: int| 0 <= j < s@.subrange(lo as int, i as int).len() implies is_ascii_digit(
                #[trigger] s@.subrange(lo as int, i as int)[j],
            ) by {
                if j < i - 1 - lo {
                    assert(s@.subrange(lo as int, i as int)[j] == s@.subrange(lo as int, i - 1)[j]);
                }
            }
        }
    }
    Some(acc)
}

/// Signed or unsigned decimal parse into a magnitude and a sign.
/// The result holds `Some(v)` iff `parse_int_spec(s, signed) == Some(v)`
/// and `-neg_bound <= v <= pos_bound`.
pub fn parse_decimal(s: &Vec<char>, signed: bool, pos_bound: u64, neg_bound: u64) -> (r: Option<(bool, u64)>)
    ensures
        match r {
            Some((neg, m)) => parse_int_spec(s@, signed) == Some(if neg { -(m as int) } else { m as int })
                && (neg ==> m <= neg_bound && m > 0) && (!neg ==> m <= pos_bound),
            None => match parse_int_spec(s@, signed) {
                Some(v) => v > pos_bound || v < -(neg_bound as int),
                None => true,
            },
        },
{
    if s.len() > 0 && s[0] == '+' {
        let r = read_digits(s, 1, pos_bound);
        proof {
            assert(s@.subrange(1, s@.len() as int) =~= s@.drop_first());
        }
        match r {
            Some(m) => Some((false, m)),
            None => None,
        }
    } else if signed && s.len() > 0 && s[0] == '-' {
        let r = read_digits(s, 1, neg_bound);
        proof {
            assert(s@.subrange(1, s@.len() as int) =~= s@.drop_first());
        }
        match r {
            Some(m) => if m == 0 { Some((false, 0)) } else { Some((true, m)) },
            None => None,
        }
    } else {
        let r = read_digits(s, 0, pos_bound);
        proof {
            assert(s@.subrange(0, s@.len() as int) =~= s@);
        }
        match r {
            Some(m) => Some((false, m)),
            None => None,
        }
    }
}

/// `str::parse::<i64>()`.
pub fn parse_i64(s: &Vec<char>) -> (r: Option<i64>)
    ensures
        match r {
            Some(v) => parse_int_spec(s@, true) == Some(v as int),
            None => match parse_int_spec(s@, true) {
                Some(v) => v > i64::MAX || v < i64::MIN,
                None => true,
            },
        },
{
    match parse_decimal(s, true, 9223372036854775807u64, 9223372036854775808u64) {
        Some((neg, m)) => {
            if neg {
                if m == 9223372036854775808u64 {
                    Some(i64::MIN)
                } else {
                    Some(-(m as i64))
                }
            } else {
                Some(m as i64)
            }
        },
        None => None,
    }
}

/// `str::parse::<u64>()`.
pub fn parse_u64(s: &Vec<char>) -> (r: Option<u64>)
    ensures
        match r {
            Some(v) => parse_int_spec(s@, false) == Some(v as int),
            None => match parse_int_spec(s@, false) {
                Some(v) => v > u64::MAX,
                None => true,
            },
        },
{
    match parse_decimal(s, false, u64::MAX, 0) {
        Some((neg, m)) => Some(m),
        None => None,
    }
}

/// `str::parse::<u8>()`.
pub fn parse_u8(s: &Vec<char>) -> (r: Option<u8>)
    ensures
        match r {
            Some(v) => parse_int_spec(s@, false) == Some(v as int),
            None => match parse_int_spec(s@, false) {
                Some(v) => v > u8::MAX,
                None => true,
            },
        },
{
    match parse_decimal(s, false, 255, 0) {
        Some((neg, m)) => Some(m as u8),
        None => None,
    }
}

/// `str::parse::<i32>()`.
pub fn parse_i32(s: &Vec<char>) -> (r: Option<i32>)
    ensures
        match r {
            Some(v) => parse_int_spec(s@, true) == Some(v as int),
            None => match parse_int_spec(s@, true) {
                Some(v) => v > i32::MAX || v < i32::MIN,
                None => true,
            },
        },
{
    match parse_decimal(s, true, 2147483647u64, 2147483648u64) {
        Some((neg, m)) => {
            if neg {
                if m == 2147483648u64 {
                    Some(i32::MIN)
                } else {
                    Some(-(m as i32))
                }
            } else {
                Some(m as i32)
            }
        },
        None => None,
    }
}

// ─── splitting ───────────────────────────────────────────────

/// Index of the first `c` in `s`.
pub open spec fn first_index_of(s: Seq<char>, c: char) -> Option<int>
    decreases s.len(),
{
    if s.len() == 0 {
        None
    } else if s[0] == c {
        Some(0)
    } else {
        match first_index_of(s.drop_first(), c) {
            Some(i) => Some(i + 1),
            None => None,
        }
    }
}

pub proof fn lemma_first_index_of(s: Seq<char>, c: char)
    ensures
        match first_index_of(s, c) {
            Some(i) => 0 <= i < s.len() && s[i] == c && forall|j: int| 0 <= j < i ==> s[j] != c,
            None => forall|j: int| 0 <= j < s.len() ==> s[j] != c,
        },
    decreases s.len(),
{
    if s.len() > 0 && s[0] != c {
        lemma_first_index_of(s.drop_first(), c);
        match first_index_of(s.drop_first(), c) {
            Some(i) => {
                assert forall|j: int| 0 <= j < i + 1 implies s[j] != c by {
                    if j > 0 {
                        assert(s[j] == s.drop_first()[j - 1]);
                    }
                }
            },
            None => {
                assert forall|j: int| 0 <= j < s.len() implies s[j] != c by {
                    if j > 0 {
                        assert(s[j] == s.drop_first()[j - 1]);
                    }
                }
            },
        }
    }
}

pub proof fn lemma_first_index_of_is(s: Seq<char>, c: char, i: int)
    requires
        0 <= i <= s.len(),
        forall|j: int| 0 <= j < i ==> s[j] != c,
        i < s.len() ==> s[i] == c,
    ensures
        first_index_of(s, c) == (if i < s.len() { Some(i) } else { None::<int> }),
{
    lemma_first_index_of(s, c);
}

/// The `k`-th piece of `s.split(sep)`, if there is one.
pub open spec fn split_field(s: Seq<char>, sep: char, k: nat) -> Option<Seq<char>>
    decreases k,
{
    match first_index_of(s, sep) {
        None => if k == 0 { Some(s) } else { None },
        Some(i) => if k == 0 { Some(s.take(i)) } else { split_field(s.skip(i + 1), sep, (k - 1) as nat) },
    }
}

/// Index of the first `c` at or after `from`.
pub fn find_char_from(s: &Vec<char>, c: char, from: usize) -> (r: Option<usize>)
    requires
        from <= s.len(),
    ensures
        match r {
            Some(i) => first_index_of(s@.skip(from as int), c) == Some(i - from) && from <= i < s.len(),
            None => first_index_of(s@.skip(from as int), c) is None,
        },
{
    let mut i = from;
    while i < s.len()
        invariant
            from <= i <= s.len(),
            forall|j: int| from <= j < i ==> s@[j] != c,
        decreases s.len() - i,
    {
        if s[i] == c {
            proof {
                lemma_first_index_of_is(s@.skip(from as int), c, i - from);
            }
            return Some(i);
        }
        i = i + 1;
    }
    proof {
        lemma_first_index_of_is(s@.skip(from as int), c, s.len() - from);
    }
    None
}

/// `s.split(sep).nth(k)`, as characters.
pub fn nth_field(s: &Vec<char>, sep: char, k: usize) -> (r: Option<Vec<char>>)
    ensures
        match r {
            Some(f) => split_field(s@, sep, k as nat) == Some(f@),
            None => split_field(s@, sep, k as nat) is None,
        },
{
    let mut p: usize = 0;
    let mut j: usize = 0;
    proof {
        assert(s@.skip(0) =~= s@);
    }
    while j < k
        invariant
            j <= k,
            p <= s.len(),
            split_field(s@, sep, k as nat) == split_field(s@.skip(p as int), sep, (k - j) as nat),
        decreases k - j,
    {
        match find_char_from(s, sep, p) {
            None => {
                return None;
            },
            Some(i) => {
                proof {
                    assert(s@.skip(p as int).skip(i - p + 1) =~= s@.skip(i + 1));
                }
                p = i + 1;
                j = j + 1;
            },
        }
    }
    match find_char_from(s, sep, p) {
        None => {
            let f = slice_chars(s, p, s.len());
            proof {
                assert(f@ =~= s@.skip(p as int));
            }
            Some(f)
        },
        Some(i) => {
            let f = slice_chars(s, p, i);
            proof {
                assert(f@ =~= s@.skip(p as int).take(i - p));
            }
            Some(f)
        },
    }
}

// ─── str conveniences ────────────────────────────────────────

/// `str::contains` with a string pattern.
pub fn str_contains(s: &str, p: &str) -> (r: bool)
    ensures
        r == contains_seq(s@, p@),
{
    let sc = chars_of(s);
    let pc = chars_of(p);
    contains_chars(&sc, &pc)
}

/// `str::starts_with` with a string pattern.
pub fn str_starts_with(s: &str, p: &str) -> (r: bool)
    ensures
        r == starts_with_seq(s@, p@),
{
    let sc = chars_of(s);
    let pc = chars_of(p);
    starts_with_chars(&sc, &pc)
}

// ─── lines ───────────────────────────────────────────────────

/// `s` without one trailing `\r`, if it has one.
pub open spec fn strip_cr(s: Seq<char>) -> Seq<char> {
    if s.len() > 0 && s.last() == '\r' {
        s.drop_last()
    } else {
        s
    }
}

/// `str::lines`: the pieces between `\n`s, a `\r` before a `\n`
/// dropped, and no empty piece after a final `\n`.
pub open spec fn lines_spec(s: Seq<char>) -> Seq<Seq<char>>
    decreases s.len(),
{
    if s.len() == 0 {
        seq![]
    } else {
        match first_index_of(s, '\n') {
            None => seq![s],
            Some(i) => {
                proof {
                    lemma_first_index_of(s, '\n');
                }
                seq![strip_cr(s.take(i))] + lines_spec(s.skip(i + 1))
            },
        }
    }
}

/// `str::lines` collected, each line as characters.
pub fn lines_of(s: &Vec<char>) -> (r: Vec<Vec<char>>)
    ensures
        r@.len() == lines_spec(s@).len(),
        forall|i: int| 0 <= i < r@.len() ==> (#[trigger] r@[i])@ == lines_spec(s@)[i],
{
    let mut out: Vec<Vec<char>> = Vec::new();
    let mut p: usize = 0;
    let ghost mut done: Seq<Seq<char>> = seq![];
    proof {
        assert(s@.skip(0) =~= s@);
    }
    while p < s.len()
        invariant
            p <= s.len(),
            out@.len() == done.len(),
            forall|i: int| 0 <= i < out@.len() ==> (#[trigger] out@[i])@ == done[i],
            done + lines_spec(s@.skip(p as int)) == lines_spec(s@),
        decreases s.len() - p,
    {
        let ghost rest = s@.skip(p as int);
        match find_char_from(s, '\n', p) {
            None => {
                let line = slice_chars(s, p, s.len());
                proof {
                    assert(line@ =~= rest);
                    assert(lines_spec(rest) == seq![rest]);
                    assert(s@.skip(s@.len() as int) =~= Seq::<char>::empty());
                    assert(done.push(rest) + lines_spec(s@.skip(s@.len() as int)) =~= done + lines_spec(rest));
                    done = done.push(rest);
                }
                out.push(line);
                p = s.len();
            },
            Some(i) => {
                let mut line = slice_chars(s, p, i);
                if line.len() > 0 && line[line.len() - 1] == '\r' {
                    line.pop();
                }
                proof {
                    lemma_first_index_of(rest, '\n');
                    assert(s@.subrange(p as int, i as int) =~= rest.take(i - p));
                    assert(line@ == strip_cr(rest.take(i - p)));
                    assert(rest.skip(i - p + 1) =~= s@.skip(i + 1));
                    assert(lines_spec(rest) == seq![strip_cr(rest.take(i - p))] + lines_spec(rest.skip(i - p + 1)));
                    assert(done.push(line@) + lines_spec(s@.skip(i + 1)) =~= done + lines_spec(rest));
                    done = done.push(line@);
                }
                out.push(line);
                p = i + 1;
            },
        }
    }
    proof {
        assert(s@.skip(p as int) =~= Seq::<char>::empty());
        assert(done =~= lines_spec(s@));
    }
    out
}

// ─── searching lists ─────────────────────────────────────────

/// Index of the first `x` in `ids`.
pub open spec fn index_of_first(ids: Seq<Seq<char>>, x: Seq<char>) -> Option<int>
    decreases ids.len(),
{
    if ids.len() == 0 {
        None
    } else {
        match index_of_first(ids.drop_last(), x) {
            Some(i) => Some(i),
            None => if ids.last() == x { Some(ids.len() - 1) } else { None },
        }
    }
}

pub proof fn lemma_index_of_first(ids: Seq<Seq<char>>, x: Seq<char>)
    ensures
        match index_of_first(ids, x) {
            Some(i) => 0 <= i < ids.len() && ids[i] == x && forall|j: int| 0 <= j < i ==> ids[j] != x,
            None => forall|j: int| 0 <= j < ids.len() ==> ids[j] != x,
        },
    decreases ids.len(),
{
    if ids.len() > 0 {
        let t = ids.drop_last();
        lemma_index_of_first(t, x);
        assert forall|j: int| 0 <= j < t.len() implies t[j] == ids[j] by {}
    }
}

pub proof fn lemma_index_of_first_is(ids: Seq<Seq<char>>, x: Seq<char>, k: int)
    requires
        0 <= k <= ids.len(),
        forall|j: int| 0 <= j < k ==> ids[j] != x,
        k < ids.len() ==> ids[k] == x,
    ensures
        index_of_first(ids, x) == (if k < ids.len() { Some(k) } else { None::<int> }),
{
    lemma_index_of_first(ids, x);
}

/// Index of the first pattern of `pats` that occurs in `s`, from `k` on.
pub open spec fn first_contained_from(s: Seq<char>, pats: Seq<Seq<char>>, k: int) -> Option<int>
    decreases pats.len() - k,
{
    if k < 0 || k >= pats.len() {
        None
    } else if contains_seq(s, pats[k]) {
        Some(k)
    } else {
        first_contained_from(s, pats, k + 1)
    }
}

pub proof fn lemma_first_contained(s: Seq<char>, pats: Seq<Seq<char>>, k: int)
    requires
        0 <= k,
    ensures
        match first_contained_from(s, pats, k) {
            Some(i) => k <= i < pats.len() && contains_seq(s, pats[i])
                && forall|j: int| k <= j < i ==> !contains_seq(s, #[trigger] pats[j]),
            None => forall|j: int| k <= j < pats.len() ==> !contains_seq(s, #[trigger] pats[j]),
        },
    decreases pats.len() - k,
{
    if k < pats.len() && !contains_seq(s, pats[k]) {
        lemma_first_contained(s, pats, k + 1);
    }
}

/// Whether some pattern of `pats` occurs in `s`.
pub open spec fn any_contained(s: Seq<char>, pats: Seq<Seq<char>>) -> bool {
    exists|k: int| 0 <= k < pats.len() && contains_seq(s, #[trigger] pats[k])
}

/// Whether `s` starts with some pattern of `pats`.
pub open spec fn any_prefix(s: Seq<char>, pats: Seq<Seq<char>>) -> bool {
    exists|k: int| 0 <= k < pats.len() && starts_with_seq(s, #[trigger] pats[k])
}

/// The views of a list of string slices.
pub open spec fn strs_view(v: Seq<&str>) -> Seq<Seq<char>> {
    Seq::new(v.len(), |i: int| v[i]@)
}

/// Index of the first of `pats` occurring in `s`.
pub fn first_contained(s: &Vec<char>, pats: &Vec<&str>) -> (r: Option<usize>)
    ensures
        match r {
            Some(k) => first_contained_from(s@, strs_view(pats@), 0) == Some(k as int),
            None => first_contained_from(s@, strs_view(pats@), 0) is None,
        },
{
    let ghost ps = strs_view(pats@);
    let mut k: usize = pats.len();
    let mut found: Option<usize> = None;
    while k > 0
        invariant
            k <= pats@.len(),
            ps == strs_view(pats@),
            match found {
                Some(f) => first_contained_from(s@, ps, k as int) == Some(f as int),
                None => first_contained_from(s@, ps, k as int) is None,
            },
        decreases k,
    {
        k = k - 1;
        let pc = chars_of(pats[k]);
        if contains_chars(s, &pc) {
            found = Some(k);
        }
    }
    found
}

/// Whether some of `pats` occurs in `s`.
pub fn contains_any(s: &Vec<char>, pats: &Vec<&str>) -> (r: bool)
    ensures
        r == any_contained(s@, strs_view(pats@)),
{
    let mut k: usize = 0;
    while k < pats.len()
        invariant
            k <= pats@.len(),
            forall|j: int| 0 <= j < k ==> !contains_seq(s@, #[trigger] strs_view(pats@)[j]),
        decreases pats@.len() - k,
    {
        let pc = chars_of(pats[k]);
        if contains_chars(s, &pc) {
            proof {
                assert(contains_seq(s@, strs_view(pats@)[k as int]));
            }
            return true;
        }
        k = k + 1;
    }
    false
}

/// Whether `s` starts with some of `pats`.
pub fn starts_with_any(s: &Vec<char>, pats: &Vec<&str>) -> (r: bool)
    ensures
        r == any_prefix(s@, strs_view(pats@)),
{
    let mut k: usize = 0;
    while k < pats.len()
        invariant
            k <= pats@.len(),
            forall|j: int| 0 <= j < k ==> !starts_with_seq(s@, #[trigger] strs_view(pats@)[j]),
        decreases pats@.len() - k,
    {
        let pc = chars_of(pats[k]);
        if starts_with_chars(s, &pc) {
            proof {
                assert(starts_with_seq(s@, strs_view(pats@)[k as int]));
            }
            return true;
        }
        k = k + 1;
    }
    false
}

/// `a == b` on character vectors.
pub fn chars_eq(a: &Vec<char>, b: &Vec<char>) -> (r: bool)
    ensures
        r == (a@ == b@),
{
    if a.len() != b.len() {
        return false;
    }
    let mut i: usize = 0;
    while i < a.len()
        invariant
            i <= a@.len(),
            a@.len() == b@.len(),
            forall|j: int| 0 <= j < i ==> a@[j] == b@[j],
        decreases a@.len() - i,
    {
        if a[i] != b[i] {
            return false;
        }
        i = i + 1;
    }
    proof {
        assert(a@ =~= b@);
    }
    true
}

/// `s.trim_end_matches(p)` for a non-empty `p`: `p` removed from the
/// end as often as it stands there.
pub open spec fn trim_end_all(s: Seq<char>, p: Seq<char>) -> Seq<char>
    decreases s.len(),
{
    if p.len() > 0 && p.len() <= s.len() && s.skip(s.len() - p.len()) == p {
        trim_end_all(s.take(s.len() - p.len()), p)
    } else {
        s
    }
}

/// `str::trim_end_matches` with a non-empty pattern, on characters.
pub fn trim_end_matches_chars(s: &Vec<char>, p: &Vec<char>) -> (r: Vec<char>)
    requires
        p@.len() > 0,
    ensures
        r@ == trim_end_all(s@, p@),
{
    let mut end = s.len();
    proof {
        assert(s@.take(s@.len() as int) =~= s@);
    }
    while end >= p.len() && matches_at(s, p, end - p.len())
        invariant
            end <= s@.len(),
            p@.len() > 0,
            trim_end_all(s@.take(end as int), p@) == trim_end_all(s@, p@),
        decreases end,
    {
        proof {
            let t = s@.take(end as int);
            assert(t.skip(t.len() - p@.len()) =~= s@.subrange(end - p@.len(), end as int));
            assert(t.take(t.len() - p@.len()) =~= s@.take(end - p@.len()));
        }
        end = end - p.len();
    }
    proof {
        let t = s@.take(end as int);
        if p@.len() <= t.len() && t.skip(t.len() - p@.len()) == p@ {
            assert(t.skip(t.len() - p@.len()) =~= s@.subrange(end - p@.len(), end as int));
        }
        assert(s@.take(s@.len() as int) =~= s@);
    }
    slice_chars(s, 0, end)
}

} // verus!
