//! Left-to-right pattern scanning over text: the match rules the prompt
//! sanitizer applies (environment-variable names, secret assignments,
//! `ACTION:` directives, literal substrings), each a function giving the
//! length of the match at the start of a text, and the leftmost,
//! non-overlapping replacement of every match.

use vstd::prelude::*;
use crate::text::{chars_of, is_ascii_alnum, is_ascii_upper, is_ws, is_whitespace, matches_at, occurs_at, push_all, starts_with_seq};

verus! {

/// Every match of `m` (a match length, 0 for none, at the start of a
/// text) replaced by `rep`, scanning left to right; text between
/// matches is kept.
pub open spec fn scan_replace(s: Seq<char>, m: spec_fn(Seq<char>) -> nat, rep: Seq<char>) -> Seq<char>
    decreases s.len(),
{
    if s.len() == 0 {
        seq![]
    } else if 0 < m(s) && m(s) <= s.len() {
        rep + scan_replace(s.skip(m(s) as int), m, rep)
    } else {
        seq![s[0]] + scan_replace(s.drop_first(), m, rep)
    }
}

// ─── runs ────────────────────────────────────────────────────

/// `A`–`Z` or `_`.
pub open spec fn is_env_tail(c: char) -> bool {
    is_ascii_upper(c) || c == '_'
}

/// `a`–`z`, `A`–`Z`, `0`–`9`, `_` or `-`.
pub open spec fn is_id_char(c: char) -> bool {
    is_ascii_alnum(c) || c == '_' || c == '-'
}

/// Which run of characters is meant.
pub enum RunKind {
    EnvTail,
    IdChar,
    Space,
    NonSpace,
}

pub open spec fn in_run(k: RunKind, c: char) -> bool {
    match k {
        RunKind::EnvTail => is_env_tail(c),
        RunKind::IdChar => is_id_char(c),
        RunKind::Space => is_ws(c),
        RunKind::NonSpace => !is_ws(c),
    }
}

/// Length of the longest prefix of `s` in the run class `k`.
pub open spec fn run_len(s: Seq<char>, k: RunKind) -> nat
    decreases s.len(),
{
    if s.len() > 0 && in_run(k, s[0]) {
        1 + run_len(s.drop_first(), k)
    } else {
        0
    }
}

pub proof fn lemma_run_len(s: Seq<char>, k: RunKind)
    ensures
        run_len(s, k) <= s.len(),
        forall|i: int| 0 <= i < run_len(s, k) ==> in_run(k, #[trigger] s[i]),
        run_len(s, k) < s.len() ==> !in_run(k, s[run_len(s, k) as int]),
    decreases s.len(),
{
    if s.len() > 0 && in_run(k, s[0]) {
        lemma_run_len(s.drop_first(), k);
        assert forall|i: int| 0 <= i < run_len(s, k) implies in_run(k, #[trigger] s[i]) by {
            if i > 0 {
                assert(s[i] == s.drop_first()[i - 1]);
            }
        }
    }
}

pub proof fn lemma_run_len_is(s: Seq<char>, k: RunKind, n: int)
    requires
        0 <= n <= s.len(),
        forall|i: int| 0 <= i < n ==> in_run(k, #[trigger] s[i]),
        n < s.len() ==> !in_run(k, s[n]),
    ensures
        run_len(s, k) == n,
    decreases s.len(),
{
    if n > 0 {
        assert(in_run(k, s[0]));
        assert forall|i: int| 0 <= i < n - 1 implies in_run(k, #[trigger] s.drop_first()[i]) by {
            assert(s.drop_first()[i] == s[i + 1]);
        }
        if n - 1 < s.drop_first().len() {
            assert(s.drop_first()[n - 1] == s[n]);
        }
        lemma_run_len_is(s.drop_first(), k, n - 1);
    }
}

pub fn in_run_exec(k: &RunKind, c: char) -> (r: bool)
    ensures
        r == in_run(*k, c),
{
    match k {
        RunKind::EnvTail => ('A' <= c && c <= 'Z') || c == '_',
        RunKind::IdChar => ('a' <= c && c <= 'z') || ('A' <= c && c <= 'Z') || ('0' <= c && c <= '9') || c == '_' || c == '-',
        RunKind::Space => is_whitespace(c),
        RunKind::NonSpace => !is_whitespace(c),
    }
}

/// Length of the run of class `k` starting at `i`.
pub fn run_at(s: &Vec<char>, i: usize, k: &RunKind) -> (r: usize)
    requires
        i <= s.len(),
    ensures
        r == run_len(s@.skip(i as int), *k),
        i + r <= s.len(),
{
    let mut j = i;
    while j < s.len() && in_run_exec(k, s[j])
        invariant
            i <= j <= s.len(),
            forall|t: int| i <= t < j ==> in_run(*k, #[trigger] s@[t]),
        decreases s.len() - j,
    {
        j = j + 1;
    }
    proof {
        let t = s@.skip(i as int);
        assert forall|x: int| 0 <= x < j - i implies in_run(*k, #[trigger] t[x]) by {
            assert(t[x] == s@[i + x]);
        }
        if j < s.len() {
            assert(t[j - i] == s@[j as int]);
        }
        lemma_run_len_is(t, *k, j - i);
    }
    j - i
}

// ─── environment-variable names: `RUSSELL_[A-Z_]+` ───────────

/// Length of a `RUSSELL_[A-Z_]+` match at the start of `s` (greedy), 0
/// for none.
pub open spec fn env_match_len(s: Seq<char>) -> nat {
    if starts_with_seq(s, "RUSSELL_"@) && run_len(s.skip(8), RunKind::EnvTail) > 0 {
        8 + run_len(s.skip(8), RunKind::EnvTail)
    } else {
        0
    }
}

// ─── secret assignments ──────────────────────────────────────

/// `c` matches the lowercase ASCII letter `l` case-insensitively, by
/// Unicode simple case folding (`k` also matches the Kelvin sign, `s`
/// the long s).
pub open spec fn ci_char(c: char, l: char) -> bool {
    ||| c == l
    ||| (c as u32) + 32 == (l as u32)
    ||| (l == 'k' && c == '\u{212A}')
    ||| (l == 's' && c == '\u{17F}')
}

/// `s` starts with the ASCII lowercase word `w`, case-insensitively.
pub open spec fn ci_prefix(s: Seq<char>, w: Seq<char>) -> bool {
    w.len() <= s.len() && forall|i: int| 0 <= i < w.len() ==> ci_char(#[trigger] s[i], w[i])
}

/// Length of `a[_-]?b` at the start of `s`, 0 for none.
pub open spec fn sep_word_len(s: Seq<char>, a: Seq<char>, b: Seq<char>) -> nat {
    if ci_prefix(s, a) {
        let t = s.skip(a.len() as int);
        if t.len() > 0 && (t[0] == '_' || t[0] == '-') && ci_prefix(t.skip(1), b) {
            a.len() + 1 + b.len()
        } else if ci_prefix(t, b) {
            a.len() + b.len()
        } else {
            0
        }
    } else {
        0
    }
}

/// Length of the secret keyword at the start of `s`: `api[_-]?key`,
/// `secret[_-]?key`, `access[_-]?token`, `auth[_-]?token`, `password`,
/// `passwd` or `pwd`, case-insensitively, tried in that order; 0 for
/// none.
pub open spec fn keyword_len(s: Seq<char>) -> nat {
    if sep_word_len(s, "api"@, "key"@) > 0 {
        sep_word_len(s, "api"@, "key"@)
    } else if sep_word_len(s, "secret"@, "key"@) > 0 {
        sep_word_len(s, "secret"@, "key"@)
    } else if sep_word_len(s, "access"@, "token"@) > 0 {
        sep_word_len(s, "access"@, "token"@)
    } else if sep_word_len(s, "auth"@, "token"@) > 0 {
        sep_word_len(s, "auth"@, "token"@)
    } else if ci_prefix(s, "password"@) {
        8
    } else if ci_prefix(s, "passwd"@) {
        6
    } else if ci_prefix(s, "pwd"@) {
        3
    } else {
        0
    }
}

/// Length of a secret assignment at the start of `s`: a keyword, then
/// whitespace, `=` or `:`, whitespace, and a non-empty run of
/// non-whitespace, all taken greedily; 0 for none.
pub open spec fn secret_match_len(s: Seq<char>) -> nat {
    let k = keyword_len(s);
    if k == 0 {
        0
    } else {
        let t = s.skip(k as int);
        let w1 = run_len(t, RunKind::Space);
        let u = t.skip(w1 as int);
        if u.len() > 0 && (u[0] == '=' || u[0] == ':') {
            let v = u.skip(1);
            let w2 = run_len(v, RunKind::Space);
            let x = run_len(v.skip(w2 as int), RunKind::NonSpace);
            if x > 0 {
                k + w1 + 1 + w2 + x
            } else {
                0
            }
        } else {
            0
        }
    }
}

// ─── ACTION directives ───────────────────────────────────────

/// An `ACTION:` directive at the start of `s`: `ACTION:`, whitespace,
/// an ID, `/`, an ID (IDs of `[a-zA-Z0-9_-]`, greedy). Gives the match
/// length and the two IDs.
pub open spec fn action_match(s: Seq<char>) -> Option<(nat, Seq<char>, Seq<char>)> {
    if starts_with_seq(s, "ACTION:"@) {
        let t = s.skip(7);
        let w = run_len(t, RunKind::Space);
        let u = t.skip(w as int);
        let a = run_len(u, RunKind::IdChar);
        if a > 0 && a < u.len() && u[a as int] == '/' {
            let v = u.skip(a as int + 1);
            let b = run_len(v, RunKind::IdChar);
            if b > 0 {
                Some(((7 + w + a + 1 + b) as nat, u.take(a as int), v.take(b as int)))
            } else {
                None
            }
        } else {
            None
        }
    } else {
        None
    }
}

/// Every `ACTION:` directive in `s`, leftmost first, non-overlapping:
/// its text as written, and its skill and action IDs.
pub open spec fn action_captures(s: Seq<char>) -> Seq<(Seq<char>, Seq<char>, Seq<char>)>
    decreases s.len(),
{
    if s.len() == 0 {
        seq![]
    } else {
        match action_match(s) {
            Some((n, a, b)) => if 0 < n <= s.len() {
                seq![(s.take(n as int), a, b)] + action_captures(s.skip(n as int))
            } else {
                action_captures(s.drop_first())
            },
            None => action_captures(s.drop_first()),
        }
    }
}

// ─── literal replacement ─────────────────────────────────────

/// Length of `p` if `s` starts with it.
pub open spec fn literal_len(s: Seq<char>, p: Seq<char>) -> nat {
    if starts_with_seq(s, p) { p.len() } else { 0 }
}

/// `str::replace(from, to)` for a non-empty `from`.
pub open spec fn replace_all(s: Seq<char>, from: Seq<char>, to: Seq<char>) -> Seq<char> {
    scan_replace(s, |t: Seq<char>| literal_len(t, from), to)
}

// ─── executable matchers ─────────────────────────────────────

/// Which rule a scan applies.
pub enum Matcher {
    /// `RUSSELL_[A-Z_]+`.
    Env,
    /// A secret assignment.
    Secret,
    /// A literal, non-empty substring.
    Literal { pat: Vec<char> },
}

/// The match-length function of a rule.
pub open spec fn match_fn(m: Matcher) -> spec_fn(Seq<char>) -> nat {
    match m {
        Matcher::Env => |t: Seq<char>| env_match_len(t),
        Matcher::Secret => |t: Seq<char>| secret_match_len(t),
        Matcher::Literal { pat } => |t: Seq<char>| literal_len(t, pat@),
    }
}

proof fn lemma_literals()
    ensures
        "RUSSELL_"@.len() == 8,
        "ACTION:"@.len() == 7,
{
    reveal_strlit("RUSSELL_");
    reveal_strlit("ACTION:");
}

/// Whether `s[i..]` starts with the ASCII lowercase word `w`,
/// case-insensitively.
fn ci_prefix_at(s: &Vec<char>, i: usize, w: &str) -> (r: bool)
    requires
        i <= s.len(),
    ensures
        r == ci_prefix(s@.skip(i as int), w@),
{
    let wc = chars_of(w);
    if wc.len() > s.len() - i {
        return false;
    }
    let n = s.len();
    let mut k: usize = 0;
    while k < wc.len()
        invariant
            n == s@.len(),
            i <= s@.len(),
            i + wc@.len() <= s@.len(),
            k <= wc@.len(),
            wc@ == w@,
            forall|j: int| 0 <= j < k ==> ci_char(#[trigger] s@.skip(i as int)[j], wc@[j]),
        decreases wc@.len() - k,
    {
        let c = s[i + k];
        let l = wc[k];
        let ok = c == l || ((l as u32) >= 32 && (c as u32) == (l as u32) - 32) || (l == 'k' && c == '\u{212A}') || (l == 's' && c == '\u{17F}');
        proof {
            assert(s@.skip(i as int)[k as int] == c);
        }
        if !ok {
            return false;
        }
        k = k + 1;
    }
    true
}

fn sep_word_at(s: &Vec<char>, i: usize, a: &str, b: &str) -> (r: usize)
    requires
        i <= s.len(),
    ensures
        r == sep_word_len(s@.skip(i as int), a@, b@),
        i + r <= s.len(),
{
    let ghost t0 = s@.skip(i as int);
    if !ci_prefix_at(s, i, a) {
        return 0;
    }
    let al = chars_of(a).len();
    let bl = chars_of(b).len();
    let j = i + al;
    proof {
        assert(t0.skip(al as int) =~= s@.skip(j as int));
    }
    if j < s.len() && (s[j] == '_' || s[j] == '-') {
        proof {
            assert(s@.skip(j as int)[0] == s[j as int]);
            assert(s@.skip(j as int).skip(1) =~= s@.skip(j + 1));
        }
        if ci_prefix_at(s, j + 1, b) {
            return al + 1 + bl;
        }
    }
    if ci_prefix_at(s, j, b) {
        return al + bl;
    }
    0
}

fn keyword_at(s: &Vec<char>, i: usize) -> (r: usize)
    requires
        i <= s.len(),
    ensures
        r == keyword_len(s@.skip(i as int)),
        i + r <= s.len(),
{
    let n = sep_word_at(s, i, "api", "key");
    if n > 0 {
        return n;
    }
    let n = sep_word_at(s, i, "secret", "key");
    if n > 0 {
        return n;
    }
    let n = sep_word_at(s, i, "access", "token");
    if n > 0 {
        return n;
    }
    let n = sep_word_at(s, i, "auth", "token");
    if n > 0 {
        return n;
    }
    proof {
        reveal_strlit("password");
        reveal_strlit("passwd");
        reveal_strlit("pwd");
    }
    if ci_prefix_at(s, i, "password") {
        return 8;
    }
    if ci_prefix_at(s, i, "passwd") {
        return 6;
    }
    if ci_prefix_at(s, i, "pwd") {
        return 3;
    }
    0
}

/// Length of the secret assignment at `s[i..]`, 0 for none.
pub fn secret_match_at(s: &Vec<char>, i: usize) -> (r: usize)
    requires
        i <= s.len(),
    ensures
        r == secret_match_len(s@.skip(i as int)),
        i + r <= s.len(),
{
    let ghost t0 = s@.skip(i as int);
    let k = keyword_at(s, i);
    if k == 0 {
        return 0;
    }
    let p1 = i + k;
    let w1 = run_at(s, p1, &RunKind::Space);
    let p2 = p1 + w1;
    proof {
        assert(t0.skip(k as int) =~= s@.skip(p1 as int));
        assert(s@.skip(p1 as int).skip(w1 as int) =~= s@.skip(p2 as int));
    }
    if p2 < s.len() && (s[p2] == '=' || s[p2] == ':') {
        proof {
            assert(s@.skip(p2 as int)[0] == s[p2 as int]);
            assert(s@.skip(p2 as int).skip(1) =~= s@.skip(p2 + 1));
        }
        let p3 = p2 + 1;
        let w2 = run_at(s, p3, &RunKind::Space);
        let p4 = p3 + w2;
        proof {
            assert(s@.skip(p3 as int).skip(w2 as int) =~= s@.skip(p4 as int));
        }
        let x = run_at(s, p4, &RunKind::NonSpace);
        if x > 0 {
            return k + w1 + 1 + w2 + x;
        }
        return 0;
    }
    0
}

/// Length of the `RUSSELL_[A-Z_]+` match at `s[i..]`, 0 for none.
pub fn env_match_at(s: &Vec<char>, i: usize) -> (r: usize)
    requires
        i <= s.len(),
    ensures
        r == env_match_len(s@.skip(i as int)),
        i + r <= s.len(),
{
    proof {
        lemma_literals();
    }
    let pre = chars_of("RUSSELL_");
    if !matches_at(s, &pre, i) {
        proof {
            assert(!starts_with_seq(s@.skip(i as int), "RUSSELL_"@)) by {
                if starts_with_seq(s@.skip(i as int), "RUSSELL_"@) {
                    assert(s@.subrange(i as int, i + 8) =~= s@.skip(i as int).subrange(0, 8));
                }
            }
        }
        return 0;
    }
    proof {
        assert(s@.subrange(i as int, i + 8) =~= s@.skip(i as int).subrange(0, 8));
        assert(s@.skip(i as int).skip(8) =~= s@.skip(i + 8));
    }
    let n = run_at(s, i + 8, &RunKind::EnvTail);
    if n > 0 { 8 + n } else { 0 }
}

/// Length of the match of `m` at `s[i..]`, 0 for none.
pub fn match_at(s: &Vec<char>, i: usize, m: &Matcher) -> (r: usize)
    requires
        i <= s.len(),
    ensures
        r == (match_fn(*m))(s@.skip(i as int)),
        i + r <= s.len(),
{
    match m {
        Matcher::Env => env_match_at(s, i),
        Matcher::Secret => secret_match_at(s, i),
        Matcher::Literal { pat } => {
            if matches_at(s, pat, i) {
                proof {
                    assert(s@.subrange(i as int, i + pat@.len()) =~= s@.skip(i as int).subrange(0, pat@.len() as int));
                }
                pat.len()
            } else {
                proof {
                    if starts_with_seq(s@.skip(i as int), pat@) {
                        assert(s@.subrange(i as int, i + pat@.len()) =~= s@.skip(i as int).subrange(0, pat@.len() as int));
                    }
                }
                0
            }
        },
    }
}

/// Every match of `m` in `s` replaced by `rep`, left to right.
pub fn scan_replace_exec(s: &Vec<char>, m: &Matcher, rep: &Vec<char>) -> (r: Vec<char>)
    ensures
        r@ == scan_replace(s@, match_fn(*m), rep@),
{
    let ghost f = match_fn(*m);
    let mut out: Vec<char> = Vec::new();
    let mut p: usize = 0;
    proof {
        assert(s@.skip(0) =~= s@);
    }
    while p < s.len()
        invariant
            p <= s.len(),
            f == match_fn(*m),
            out@ + scan_replace(s@.skip(p as int), f, rep@) == scan_replace(s@, f, rep@),
        decreases s.len() - p,
    {
        let ghost t = s@.skip(p as int);
        let n = match_at(s, p, m);
        if n > 0 {
            proof {
                assert(t.skip(n as int) =~= s@.skip(p + n));
                assert(out@ + rep@ + scan_replace(s@.skip(p + n), f, rep@) =~= out@ + scan_replace(t, f, rep@));
            }
            push_all(&mut out, rep);
            p = p + n;
        } else {
            proof {
                assert(t.drop_first() =~= s@.skip(p + 1));
                assert(t[0] == s@[p as int]);
                assert(out@.push(s@[p as int]) + scan_replace(s@.skip(p + 1), f, rep@) =~= out@ + scan_replace(t, f, rep@));
            }
            out.push(s[p]);
            p = p + 1;
        }
    }
    proof {
        assert(s@.skip(p as int) =~= Seq::<char>::empty());
        assert(out@ + Seq::<char>::empty() =~= out@);
    }
    out
}

/// The `ACTION:` directive at `s[i..]`, if one starts there.
pub fn action_match_at(s: &Vec<char>, i: usize) -> (r: Option<(usize, Vec<char>, Vec<char>)>)
    requires
        i <= s.len(),
    ensures
        match r {
            Some((n, a, b)) => action_match(s@.skip(i as int)) == Some((n as nat, a@, b@)) && i + n <= s.len() && n >= 10,
            None => action_match(s@.skip(i as int)) is None,
        },
{
    proof {
        lemma_literals();
    }
    let ghost t0 = s@.skip(i as int);
    let pre = chars_of("ACTION:");
    if !matches_at(s, &pre, i) {
        proof {
            if starts_with_seq(t0, "ACTION:"@) {
                assert(s@.subrange(i as int, i + 7) =~= t0.subrange(0, 7));
            }
        }
        return None;
    }
    proof {
        assert(s@.subrange(i as int, i + 7) =~= t0.subrange(0, 7));
        assert(t0.skip(7) =~= s@.skip(i + 7));
    }
    let p1 = i + 7;
    let w = run_at(s, p1, &RunKind::Space);
    let p2 = p1 + w;
    proof {
        assert(s@.skip(p1 as int).skip(w as int) =~= s@.skip(p2 as int));
    }
    let a = run_at(s, p2, &RunKind::IdChar);
    let p3 = p2 + a;
    if a > 0 && p3 < s.len() && s[p3] == '/' {
        proof {
            assert(s@.skip(p2 as int)[a as int] == s[p3 as int]);
            assert(s@.skip(p2 as int).skip(a + 1) =~= s@.skip(p3 + 1));
        }
        let p4 = p3 + 1;
        let b = run_at(s, p4, &RunKind::IdChar);
        if b > 0 {
            let av = crate::text::slice_chars(s, p2, p3);
            let bv = crate::text::slice_chars(s, p4, p4 + b);
            proof {
                assert(av@ =~= s@.skip(p2 as int).take(a as int));
                assert(bv@ =~= s@.skip(p4 as int).take(b as int));
            }
            return Some((7 + w + a + 1 + b, av, bv));
        }
        return None;
    }
    proof {
        if a > 0 && p3 < s.len() {
            assert(s@.skip(p2 as int)[a as int] == s[p3 as int]);
        }
    }
    None
}

/// Every `ACTION:` directive in `s`: its text as written, and its skill
/// and action IDs.
pub fn action_captures_exec(s: &Vec<char>) -> (r: Vec<(Vec<char>, Vec<char>, Vec<char>)>)
    ensures
        r@.len() == action_captures(s@).len(),
        r@.len() * 10 <= s@.len(),
        forall|i: int| 0 <= i < r@.len() ==> (#[trigger] r@[i]).0@ == action_captures(s@)[i].0
            && r@[i].1@ == action_captures(s@)[i].1 && r@[i].2@ == action_captures(s@)[i].2,
{
    let mut out: Vec<(Vec<char>, Vec<char>, Vec<char>)> = Vec::new();
    let ghost mut done: Seq<(Seq<char>, Seq<char>, Seq<char>)> = seq![];
    let mut p: usize = 0;
    proof {
        assert(s@.skip(0) =~= s@);
    }
    while p < s.len()
        invariant
            p <= s.len(),
            out@.len() == done.len(),
            done.len() * 10 <= p,
            forall|i: int| 0 <= i < out@.len() ==> (#[trigger] out@[i]).0@ == done[i].0 && out@[i].1@ == done[i].1
                && out@[i].2@ == done[i].2,
            done + action_captures(s@.skip(p as int)) == action_captures(s@),
        decreases s.len() - p,
    {
        let ghost t = s@.skip(p as int);
        match action_match_at(s, p) {
            Some((n, a, b)) => {
                let m = crate::text::slice_chars(s, p, p + n);
                proof {
                    assert(m@ =~= t.take(n as int));
                    assert(t.skip(n as int) =~= s@.skip(p + n));
                    assert(done.push((m@, a@, b@)) + action_captures(s@.skip(p + n)) =~= done + action_captures(t));
                    done = done.push((m@, a@, b@));
                }
                out.push((m, a, b));
                p = p + n;
            },
            None => {
                proof {
                    assert(t.drop_first() =~= s@.skip(p + 1));
                }
                p = p + 1;
            },
        }
    }
    proof {
        assert(s@.skip(p as int) =~= Seq::<char>::empty());
        assert(done + Seq::<(Seq<char>, Seq<char>, Seq<char>)>::empty() =~= done);
    }
    out
}

// ─── laws ────────────────────────────────────────────────────

/// The secret keywords, in their lowercase spellings: `api`, `secret`,
/// `access` and `auth` words joined by `_`, `-` or nothing to `key` or
/// `token`, and `password`, `passwd`, `pwd`.
pub open spec fn secret_keywords() -> Seq<Seq<char>> {
    seq![
        "api_key"@, "api-key"@, "apikey"@, "secret_key"@, "secret-key"@, "secretkey"@,
        "access_token"@, "access-token"@, "accesstoken"@, "auth_token"@, "auth-token"@, "authtoken"@,
        "password"@, "passwd"@, "pwd"@,
    ]
}

proof fn lemma_keyword_len(k: int, rest: Seq<char>)
    requires
        0 <= k < secret_keywords().len(),
        rest.len() > 0,
        rest[0] == '=',
    ensures
        keyword_len(secret_keywords()[k] + rest) == secret_keywords()[k].len(),
        secret_keywords()[k].len() >= 3,
        'a' <= secret_keywords()[k][0] <= 'z',
{
    reveal_strlit("api_key");
    reveal_strlit("api-key");
    reveal_strlit("apikey");
    reveal_strlit("secret_key");
    reveal_strlit("secret-key");
    reveal_strlit("secretkey");
    reveal_strlit("access_token");
    reveal_strlit("access-token");
    reveal_strlit("accesstoken");
    reveal_strlit("auth_token");
    reveal_strlit("auth-token");
    reveal_strlit("authtoken");
    reveal_strlit("password");
    reveal_strlit("passwd");
    reveal_strlit("pwd");
    reveal_strlit("api");
    reveal_strlit("key");
    reveal_strlit("secret");
    reveal_strlit("access");
    reveal_strlit("token");
    reveal_strlit("auth");
    let kw = secret_keywords()[k];
    let s = kw + rest;
    assert(forall|i: int| 0 <= i < kw.len() ==> s[i] == kw[i]);
    assert(s[kw.len() as int] == '=');
    if k == 0 {
        assert(sep_word_len(s, "api"@, "key"@) == 7);
    } else if k == 1 {
        assert(sep_word_len(s, "api"@, "key"@) == 7);
    } else if k == 2 {
        assert(sep_word_len(s, "api"@, "key"@) == 6);
    } else if k == 3 {
        assert(!ci_char(s[0], "api"@[0]));
        assert(sep_word_len(s, "secret"@, "key"@) == 10);
    } else if k == 4 {
        assert(!ci_char(s[0], "api"@[0]));
        assert(sep_word_len(s, "secret"@, "key"@) == 10);
    } else if k == 5 {
        assert(!ci_char(s[0], "api"@[0]));
        assert(sep_word_len(s, "secret"@, "key"@) == 9);
    } else if k == 6 {
        assert(!ci_char(s[1], "api"@[1]));
        assert(!ci_char(s[0], "secret"@[0]));
        assert(sep_word_len(s, "access"@, "token"@) == 12);
    } else if k == 7 {
        assert(!ci_char(s[1], "api"@[1]));
        assert(!ci_char(s[0], "secret"@[0]));
        assert(sep_word_len(s, "access"@, "token"@) == 12);
    } else if k == 8 {
        assert(!ci_char(s[1], "api"@[1]));
        assert(!ci_char(s[0], "secret"@[0]));
        assert(sep_word_len(s, "access"@, "token"@) == 11);
    } else if k == 9 {
        assert(!ci_char(s[1], "api"@[1]));
        assert(!ci_char(s[0], "secret"@[0]));
        assert(!ci_char(s[1], "access"@[1]));
        assert(sep_word_len(s, "auth"@, "token"@) == 10);
    } else if k == 10 {
        assert(!ci_char(s[1], "api"@[1]));
        assert(!ci_char(s[0], "secret"@[0]));
        assert(!ci_char(s[1], "access"@[1]));
        assert(sep_word_len(s, "auth"@, "token"@) == 10);
    } else if k == 11 {
        assert(!ci_char(s[1], "api"@[1]));
        assert(!ci_char(s[0], "secret"@[0]));
        assert(!ci_char(s[1], "access"@[1]));
        assert(sep_word_len(s, "auth"@, "token"@) == 9);
    } else if k == 12 {
        assert(!ci_char(s[0], "api"@[0]));
        assert(!ci_char(s[0], "secret"@[0]));
        assert(!ci_char(s[0], "access"@[0]));
        assert(!ci_char(s[0], "auth"@[0]));
        assert(ci_prefix(s, "password"@));
    } else if k == 13 {
        assert(!ci_char(s[0], "api"@[0]));
        assert(!ci_char(s[0], "secret"@[0]));
        assert(!ci_char(s[0], "access"@[0]));
        assert(!ci_char(s[0], "auth"@[0]));
        assert(!ci_char(s[5], "password"@[5]));
        assert(ci_prefix(s, "passwd"@));
    } else if k == 14 {
        assert(!ci_char(s[0], "api"@[0]));
        assert(!ci_char(s[0], "secret"@[0]));
        assert(!ci_char(s[0], "access"@[0]));
        assert(!ci_char(s[0], "auth"@[0]));
        assert(!ci_char(s[1], "password"@[1]));
        assert(!ci_char(s[1], "passwd"@[1]));
        assert(ci_prefix(s, "pwd"@));
    }
}

/// Every secret keyword followed by `=` and a value that starts with a
/// non-space character is a secret assignment, running to the end of
/// the value's first non-space run.
pub proof fn lemma_secret_assignment_matches(k: int, v: Seq<char>)
    requires
        0 <= k < secret_keywords().len(),
        v.len() > 0,
        !is_ws(v[0]),
    ensures
        secret_match_len(secret_keywords()[k] + seq!['='] + v)
            == secret_keywords()[k].len() + 1 + run_len(v, RunKind::NonSpace),
        run_len(v, RunKind::NonSpace) >= 1,
        'a' <= (secret_keywords()[k] + seq!['='] + v)[0] <= 'z',
{
    let kw = secret_keywords()[k];
    let s = kw + seq!['='] + v;
    lemma_keyword_len(k, seq!['='] + v);
    assert(s =~= kw + (seq!['='] + v));
    assert(keyword_len(s) == kw.len());
    let t = s.skip(kw.len() as int);
    assert(t =~= seq!['='] + v);
    assert(!is_ws(t[0]));
    assert(run_len(t, RunKind::Space) == 0);
    let u = t.skip(0);
    assert(u =~= t);
    assert(u.len() > 0 && u[0] == '=');
    let vv = u.skip(1);
    assert(vv =~= v);
    assert(run_len(vv, RunKind::Space) == 0);
    assert(vv.skip(0) =~= v);
    assert(in_run(RunKind::NonSpace, v[0]));
    assert(run_len(v, RunKind::NonSpace) >= 1);
    let k2 = keyword_len(s);
    let t2 = s.skip(k2 as int);
    assert(t2 =~= t);
    let w1 = run_len(t2, RunKind::Space);
    assert(w1 == 0);
    let u2 = t2.skip(w1 as int);
    assert(u2 =~= t);
    assert(u2.len() > 0 && (u2[0] == '=' || u2[0] == ':'));
    let v2 = u2.skip(1);
    assert(v2 =~= v);
    let w2 = run_len(v2, RunKind::Space);
    assert(w2 == 0);
    let x = run_len(v2.skip(w2 as int), RunKind::NonSpace);
    assert(v2.skip(w2 as int) =~= v);
    assert(x == run_len(v, RunKind::NonSpace));
    assert(x > 0);
    assert(secret_match_len(s) == k2 + w1 + 1 + w2 + x);
}

/// A text that matches the whole of `s` is replaced by `rep` alone.
pub proof fn lemma_scan_replace_whole(s: Seq<char>, m: spec_fn(Seq<char>) -> nat, rep: Seq<char>)
    requires
        s.len() > 0,
        m(s) == s.len(),
    ensures
        scan_replace(s, m, rep) == rep,
{
    let e = s.skip(s.len() as int);
    assert(e =~= Seq::<char>::empty());
    assert(scan_replace(e, m, rep) == Seq::<char>::empty());
    assert(scan_replace(s, m, rep) == rep + scan_replace(e, m, rep));
    assert(rep + Seq::<char>::empty() =~= rep);
}

/// Replacing a literal that does not occur leaves the text as it is.
pub proof fn lemma_replace_absent(text: Seq<char>, from: Seq<char>, to: Seq<char>)
    requires
        forall|i: int| !occurs_at(text, from, i),
    ensures
        replace_all(text, from, to) == text,
    decreases text.len(),
{
    if text.len() > 0 {
        assert(!occurs_at(text, from, 0));
        assert(literal_len(text, from) == 0);
        let rest = text.drop_first();
        assert forall|i: int| !occurs_at(rest, from, i) by {
            if occurs_at(rest, from, i) {
                assert(text.subrange(i + 1, i + 1 + from.len()) =~= rest.subrange(i, i + from.len()));
                assert(occurs_at(text, from, i + 1));
            }
        }
        lemma_replace_absent(rest, from, to);
        assert(seq![text[0]] + rest =~= text);
    }
}

/// Every directive captured is written `ACTION:` first: its seventh
/// character is the colon.
pub proof fn lemma_captures_written(s: Seq<char>)
    ensures
        forall|j: int| 0 <= j < action_captures(s).len() ==>
            (#[trigger] action_captures(s)[j]).0.len() > 6 && action_captures(s)[j].0[6] == ':',
    decreases s.len(),
{
    reveal_strlit("ACTION:");
    if s.len() > 0 {
        match action_match(s) {
            Some((n, a, b)) => {
                if 0 < n <= s.len() {
                    lemma_captures_written(s.skip(n as int));
                    let head = s.take(n as int);
                    assert(starts_with_seq(s, "ACTION:"@));
                    assert(s.subrange(0, 7)[6] == ':');
                    assert(n >= 7);
                    assert(head.len() > 6 && head[6] == ':');
                    let rest = action_captures(s.skip(n as int));
                    assert(action_captures(s) == seq![(head, a, b)] + rest);
                    assert forall|j: int| 0 <= j < action_captures(s).len() implies
                        (#[trigger] action_captures(s)[j]).0.len() > 6 && action_captures(s)[j].0[6] == ':' by {
                        if j > 0 {
                            assert(action_captures(s)[j] == rest[j - 1]);
                        }
                    }
                } else {
                    lemma_captures_written(s.drop_first());
                    assert(action_captures(s) == action_captures(s.drop_first()));
                }
            },
            None => {
                lemma_captures_written(s.drop_first());
                assert(action_captures(s) == action_captures(s.drop_first()));
            },
        }
    }
}

/// A `RUSSELL_` name is matched whole: `RUSSELL_` followed by a
/// non-empty run of `A`–`Z` and `_` matches to the end of that run.
pub proof fn lemma_env_name_matches(t: Seq<char>, rest: Seq<char>)
    requires
        t.len() > 0,
        forall|i: int| 0 <= i < t.len() ==> is_env_tail(#[trigger] t[i]),
        rest.len() > 0 ==> !is_env_tail(rest[0]),
    ensures
        env_match_len("RUSSELL_"@ + t + rest) == 8 + t.len(),
{
    reveal_strlit("RUSSELL_");
    let s = "RUSSELL_"@ + t + rest;
    assert(s.subrange(0, 8) =~= "RUSSELL_"@);
    let u = s.skip(8);
    assert(u =~= t + rest);
    assert forall|i: int| 0 <= i < t.len() implies in_run(RunKind::EnvTail, #[trigger] u[i]) by {
        assert(u[i] == t[i]);
    }
    if t.len() < u.len() {
        assert(u[t.len() as int] == rest[0]);
    }
    lemma_run_len_is(u, RunKind::EnvTail, t.len() as int);
}

} // verus!
