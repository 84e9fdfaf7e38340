//! Prompt sanitisation — defence against prompt injection and secret
//! exfiltration.
//!
//! Operator input is stripped of `RUSSELL_*` variable names (and, when
//! configured, of shell metacharacters), cut to its maximum length, and checked
//! for known injection phrases before it enters a prompt. LLM output is
//! stripped of secret assignments, its `ACTION:` directives are checked
//! against the registered skill and action IDs, and (when configured)
//! shell metacharacters are removed.

use vstd::prelude::*;
use crate::meta::action::ResolvedAction;
use crate::meta::scan::{
    action_captures, action_captures_exec, lemma_captures_written, lemma_replace_absent, lemma_scan_replace_whole,
    lemma_secret_assignment_matches, lemma_run_len_is, lemma_env_name_matches, env_match_len, is_env_tail, match_fn, replace_all, run_len, scan_replace, scan_replace_exec,
    secret_keywords, secret_match_len, Matcher, RunKind,
};
use crate::skill::strings_view;
use crate::text::{
    chars_of, contains_seq, first_contained, first_contained_from, is_ws, occurs_at, push_all, push_str, str_eq,
    string_from_chars, strs_view, to_lowercase, unicode_lowercase,
};
use vstd::utf8::encode_utf8;

verus! {

/// Sanitisation result with what was filtered.
#[derive(Debug, Clone)]
pub struct SanitizationResult {
    /// The sanitised text.
    pub text: String,
    /// Whether any filtering was applied.
    pub was_filtered: bool,
    /// Count of patterns filtered.
    pub patterns_filtered: usize,
    /// Human-readable description of the filtering applied.
    pub filter_reason: Option<String>,
}

impl SanitizationResult {
    /// A result with no filtering applied.
    pub fn clean(text: String) -> (r: Self)
        ensures
            r.text@ == text@,
            !r.was_filtered,
            r.patterns_filtered == 0,
            r.filter_reason is None,
    {
        SanitizationResult { text, was_filtered: false, patterns_filtered: 0, filter_reason: None }
    }

    /// A result with filtering applied.
    pub fn filtered(text: String, count: usize, reason: String) -> (r: Self)
        ensures
            r.text@ == text@,
            r.was_filtered,
            r.patterns_filtered == count,
            r.filter_reason matches Some(m) && m@ == reason@,
    {
        SanitizationResult { text, was_filtered: true, patterns_filtered: count, filter_reason: Some(reason) }
    }
}

/// Prompt sanitiser for input and output filtering.
#[derive(Debug, Clone)]
pub struct PromptSanitizer {
    /// Whether to strip shell metacharacters.
    pub strip_shell_metachars: bool,
    /// Whether to detect prompt-injection phrases.
    pub detect_injection: bool,
    /// Maximum allowed input length, in bytes.
    pub max_input_length: usize,
}

impl Default for PromptSanitizer {
    /// No metacharacter stripping or injection detection; input capped
    /// at 4000 bytes, as for the strict sanitizer.
    fn default() -> (r: Self)
        ensures
            !r.strip_shell_metachars && !r.detect_injection && r.max_input_length == 4000,
    {
        PromptSanitizer { strip_shell_metachars: false, detect_injection: false, max_input_length: 4000 }
    }
}

// ─── character rules ─────────────────────────────────────────

/// The shell metacharacters `; & | ` $ ( ) { } \`.
pub open spec fn is_metachar(c: char) -> bool {
    c == ';' || c == '&' || c == '|' || c == '`' || c == '$' || c == '(' || c == ')' || c == '{' || c == '}' || c == '\\'
}

/// `s` without its shell metacharacters.
pub open spec fn strip_meta(s: Seq<char>) -> Seq<char> {
    s.filter(|c: char| !is_metachar(c))
}

fn strip_metachars(s: &Vec<char>) -> (r: Vec<char>)
    ensures
        r@ == strip_meta(s@),
{
    let mut out: Vec<char> = Vec::new();
    let mut i: usize = 0;
    while i < s.len()
        invariant
            i <= s@.len(),
            out@ == strip_meta(s@.take(i as int)),
        decreases s@.len() - i,
    {
        let c = s[i];
        proof {
            reveal(Seq::filter);
            assert(s@.take(i as int + 1).drop_last() =~= s@.take(i as int));
        }
        if !(c == ';' || c == '&' || c == '|' || c == '`' || c == '$' || c == '(' || c == ')' || c == '{' || c == '}' || c == '\\') {
            out.push(c);
        }
        i = i + 1;
    }
    proof {
        assert(s@.take(s@.len() as int) =~= s@);
    }
    out
}

/// UTF-8 width of a character in bytes.
pub open spec fn utf8_width(c: char) -> nat {
    if (c as u32) < 0x80 {
        1
    } else if (c as u32) < 0x800 {
        2
    } else if (c as u32) < 0x10000 {
        3
    } else {
        4
    }
}

/// UTF-8 length of a text in bytes.
pub open spec fn utf8_len(s: Seq<char>) -> nat
    decreases s.len(),
{
    if s.len() == 0 {
        0
    } else {
        utf8_width(s[0]) + utf8_len(s.drop_first())
    }
}

pub proof fn lemma_encode_len(s: Seq<char>)
    ensures
        encode_utf8(s).len() == utf8_len(s),
    decreases s.len(),
{
    if s.len() > 0 {
        lemma_encode_len(s.drop_first());
        vstd::utf8::char_is_scalar(s[0]);
    }
}

/// How many leading characters fit in `max` bytes.
pub open spec fn byte_prefix_len(s: Seq<char>, max: int) -> nat
    decreases s.len(),
{
    if s.len() == 0 || utf8_width(s[0]) > max {
        0
    } else {
        1 + byte_prefix_len(s.drop_first(), max - utf8_width(s[0]))
    }
}

/// `String::truncate(max)` when `max` ends a character: the characters
/// whose bytes fit in `max`.
pub open spec fn byte_prefix(s: Seq<char>, max: int) -> Seq<char> {
    s.take(byte_prefix_len(s, max) as int)
}

/// `max` bytes end on a character boundary of `s`.
pub open spec fn ends_on_char(s: Seq<char>, max: int) -> bool {
    utf8_len(byte_prefix(s, max)) == max
}

pub proof fn lemma_byte_prefix_bound(s: Seq<char>, max: int)
    ensures
        byte_prefix_len(s, max) <= s.len(),
    decreases s.len(),
{
    if s.len() > 0 && utf8_width(s[0]) <= max {
        lemma_byte_prefix_bound(s.drop_first(), max - utf8_width(s[0]));
    }
}

fn char_width(c: char) -> (r: usize)
    ensures
        r == utf8_width(c),
{
    let u = c as u32;
    if u < 0x80 {
        1
    } else if u < 0x800 {
        2
    } else if u < 0x10000 {
        3
    } else {
        4
    }
}

/// The characters of `s` whose UTF-8 bytes fit in `max` bytes.
pub fn truncate_to_bytes(s: &Vec<char>, max: usize) -> (r: Vec<char>)
    ensures
        r@ == byte_prefix(s@, max as int),
{
    let mut i: usize = 0;
    let mut acc: usize = 0;
    proof {
        assert(s@.skip(0) =~= s@);
    }
    while i < s.len() && char_width(s[i]) <= max - acc
        invariant
            i <= s@.len(),
            acc <= max,
            byte_prefix_len(s@, max as int) == i + byte_prefix_len(s@.skip(i as int), max - acc),
        decreases s@.len() - i,
    {
        let w = char_width(s[i]);
        proof {
            let t = s@.skip(i as int);
            assert(t[0] == s@[i as int]);
            assert(t.drop_first() =~= s@.skip(i + 1));
        }
        acc = acc + w;
        i = i + 1;
    }
    proof {
        let t = s@.skip(i as int);
        if i < s@.len() {
            assert(t[0] == s@[i as int]);
        }
    }
    crate::text::slice_chars(s, 0, i)
}

// ─── lists ───────────────────────────────────────────────────

/// Prompt-injection phrases, matched against the lowercase input.
pub open spec fn injection_phrases() -> Seq<Seq<char>> {
    seq![
        "ignore previous"@, "disregard all"@, "forget all instructions"@, "you are now"@,
        "system instruction"@, "new system message"@, "bypass all filters"@, "execute this command"@,
        "run this shell"@, "print all environment"@, "show me your system"@, "what is your system prompt"@,
    ]
}

fn injection_list() -> (r: Vec<&'static str>)
    ensures
        strs_view(r@) == injection_phrases(),
{
    let v = vec![
        "ignore previous", "disregard all", "forget all instructions", "you are now",
        "system instruction", "new system message", "bypass all filters", "execute this command",
        "run this shell", "print all environment", "show me your system", "what is your system prompt",
    ];
    proof {
        assert(strs_view(v@) =~= injection_phrases());
    }
    v
}

/// `parts.join(sep)`.
pub open spec fn join(parts: Seq<Seq<char>>, sep: Seq<char>) -> Seq<char>
    decreases parts.len(),
{
    if parts.len() == 0 {
        seq![]
    } else if parts.len() == 1 {
        parts[0]
    } else {
        join(parts.drop_last(), sep) + sep + parts.last()
    }
}

fn join_strings(parts: &Vec<String>, sep: &str) -> (r: String)
    ensures
        r@ == join(strings_view(parts@), sep@),
{
    let mut out: Vec<char> = Vec::new();
    let mut i: usize = 0;
    while i < parts.len()
        invariant
            i <= parts@.len(),
            out@ == join(strings_view(parts@).take(i as int), sep@),
        decreases parts@.len() - i,
    {
        let ghost before = out@;
        if i > 0 {
            push_str(&mut out, sep);
        }
        push_str(&mut out, parts[i].as_str());
        proof {
            let t = strings_view(parts@).take(i as int + 1);
            assert(t.drop_last() =~= strings_view(parts@).take(i as int));
            if i == 0 {
                assert(out@ =~= t[0]);
            } else {
                assert(out@ =~= before + sep@ + t.last());
            }
        }
        i = i + 1;
    }
    proof {
        assert(strings_view(parts@).take(parts@.len() as int) =~= strings_view(parts@));
    }
    string_from_chars(&out)
}

/// The length in bytes `str::len` reports for a text.
pub open spec fn byte_len(s: Seq<char>) -> usize {
    encode_utf8(s).len() as usize
}

pub fn byte_len_of(v: &Vec<char>) -> (r: usize)
    ensures
        r == byte_len(v@),
{
    let s = string_from_chars(v);
    s.as_str().len()
}

// ─── input sanitisation ──────────────────────────────────────

/// What sanitising `input` gives: the text, the count of filters that
/// changed it, and the reasons, in order. `RUSSELL_*` names are
/// redacted and shell metacharacters stripped (when configured) first;
/// the text is then cut to the characters that fit the maximum length,
/// so that the result never exceeds it.
pub open spec fn sanitize_input_spec(cfg: PromptSanitizer, input: Seq<char>) -> (Seq<char>, nat, Seq<Seq<char>>) {
    let t1 = scan_replace(input, match_fn(Matcher::Env), "[REDACTED]"@);
    let redacted = t1 != input;
    let c1: nat = if redacted { 1 } else { 0 };
    let r1: Seq<Seq<char>> = if redacted { seq!["redacted RUSSELL_* references"@] } else { seq![] };
    let t2 = if cfg.strip_shell_metachars { strip_meta(t1) } else { t1 };
    let stripped = cfg.strip_shell_metachars && t2 != t1;
    let c2: nat = if stripped { c1 + 1 } else { c1 };
    let r2 = if stripped { r1.push("stripped shell metacharacters"@) } else { r1 };
    let over = byte_len(t2) > cfg.max_input_length;
    let t3 = if over { byte_prefix(t2, cfg.max_input_length as int) } else { t2 };
    let c3: nat = if over { c2 + 1 } else { c2 };
    let r3 = if over { r2.push("truncated to max length"@) } else { r2 };
    let r4 = if cfg.detect_injection {
        match first_contained_from(unicode_lowercase(t3), injection_phrases(), 0) {
            Some(k) => r3.push("detected injection phrase: '"@ + injection_phrases()[k] + "'"@),
            None => r3,
        }
    } else {
        r3
    };
    (t3, c3, r4)
}

/// The characters that fit in `max` bytes take at most `max` bytes.
pub proof fn lemma_byte_prefix_fits(s: Seq<char>, max: int)
    requires
        max >= 0,
    ensures
        utf8_len(byte_prefix(s, max)) <= max,
    decreases s.len(),
{
    if s.len() > 0 && utf8_width(s[0]) <= max {
        let rest = s.drop_first();
        lemma_byte_prefix_fits(rest, max - utf8_width(s[0]));
        lemma_byte_prefix_bound(rest, max - utf8_width(s[0]));
        let n = byte_prefix_len(s, max) as int;
        assert(n == 1 + byte_prefix_len(rest, max - utf8_width(s[0])));
        let p = byte_prefix(s, max);
        assert(p.len() == n);
        assert(p[0] == s[0]);
        assert(p.drop_first() =~= byte_prefix(rest, max - utf8_width(s[0])));
    } else {
        assert(byte_prefix(s, max) =~= Seq::<char>::empty());
    }
}

/// The result a sanitisation outcome is reported as.
pub open spec fn reported(r: SanitizationResult, text: Seq<char>, count: nat, reasons: Seq<Seq<char>>) -> bool {
    &&& r.text@ == text
    &&& r.patterns_filtered == count
    &&& r.was_filtered == (count > 0 || reasons.len() > 0)
    &&& if count > 0 || reasons.len() > 0 {
        r.filter_reason matches Some(m) && m@ == join(reasons, "; "@)
    } else {
        r.filter_reason is None
    }
}

fn push_reason(reasons: &mut Vec<String>, s: String)
    ensures
        strings_view(final(reasons)@) == strings_view(old(reasons)@).push(s@),
{
    let ghost before = reasons@;
    reasons.push(s);
    proof {
        assert(strings_view(reasons@) =~= strings_view(before).push(s@));
    }
}

impl PromptSanitizer {
    /// The default sanitizer: no metacharacter stripping or injection
    /// detection, input capped at 4000 bytes.
    pub fn new() -> (r: Self)
        ensures
            !r.strip_shell_metachars && !r.detect_injection && r.max_input_length == 4000,
    {
        PromptSanitizer::default()
    }

    /// A strict sanitizer: strips shell metacharacters, detects
    /// injection, input capped at 4000 bytes.
    pub fn strict() -> (r: Self)
        ensures
            r.strip_shell_metachars && r.detect_injection && r.max_input_length == 4000,
    {
        PromptSanitizer { strip_shell_metachars: true, detect_injection: true, max_input_length: 4000 }
    }

    /// Sanitise operator input before it enters a prompt: redact
    /// `RUSSELL_*` names, strip shell metacharacters when configured,
    /// cut the result to the whole characters that fit the maximum
    /// length, and flag the first injection phrase found when
    /// configured (the text is kept).
    pub fn sanitize_input(&self, input: &str) -> (r: SanitizationResult)
        ensures
            ({
                let (t, c, rs) = sanitize_input_spec(*self, input@);
                reported(r, t, c, rs)
            }),
            byte_len(r.text@) <= self.max_input_length,
    {
        let original = chars_of(input);
        let mut count: usize = 0;
        let mut reasons: Vec<String> = Vec::new();
        proof {
            assert(strings_view(reasons@) =~= Seq::<Seq<char>>::empty());
        }
        let redact = chars_of("[REDACTED]");
        let mut text = scan_replace_exec(&original, &Matcher::Env, &redact);
        if !crate::text::chars_eq(&text, &original) {
            count = count + 1;
            push_reason(&mut reasons, "redacted RUSSELL_* references".to_owned());
        }
        if self.strip_shell_metachars {
            let stripped = strip_metachars(&text);
            if !crate::text::chars_eq(&stripped, &text) {
                count = count + 1;
                push_reason(&mut reasons, "stripped shell metacharacters".to_owned());
            }
            text = stripped;
        }
        if byte_len_of(&text) > self.max_input_length {
            proof {
                lemma_byte_prefix_fits(text@, self.max_input_length as int);
            }
            text = truncate_to_bytes(&text, self.max_input_length);
            count = count + 1;
            push_reason(&mut reasons, "truncated to max length".to_owned());
        }
        proof {
            lemma_encode_len(text@);
        }
        if self.detect_injection {
            let t = string_from_chars(&text);
            let lower = to_lowercase(t.as_str());
            let lc = chars_of(lower.as_str());
            let phrases = injection_list();
            match first_contained(&lc, &phrases) {
                Some(k) => {
                    proof {
                        crate::text::lemma_first_contained(lc@, strs_view(phrases@), 0);
                    }
                    let mut m = "detected injection phrase: '".to_owned();
                    m.append(phrases[k]);
                    m.append("'");
                    push_reason(&mut reasons, m);
                },
                None => {},
            }
        }
        let out = string_from_chars(&text);
        if count > 0 || reasons.len() > 0 {
            let joined = join_strings(&reasons, "; ");
            SanitizationResult::filtered(out, count, joined)
        } else {
            SanitizationResult::clean(out)
        }
    }
}

// ─── output sanitisation ─────────────────────────────────────

/// One captured directive checked: an unknown skill, else an unknown
/// action, is reported and the directive, as it was written, replaced
/// by a warning; a valid one changes nothing.
pub open spec fn check_capture(
    st: (Seq<char>, nat, Seq<Seq<char>>),
    cap: (Seq<char>, Seq<char>, Seq<char>),
    skills: Seq<Seq<char>>,
    actions: Seq<Seq<char>>,
) -> (Seq<char>, nat, Seq<Seq<char>>) {
    let (text, count, reasons) = st;
    let (written, sk, ac) = cap;
    if !skills.contains(sk) {
        (
            replace_all(text, written, "[INVALID ACTION: unknown skill '"@ + sk + "']"@),
            count + 1,
            reasons.push("invalid skill ID in ACTION: '"@ + sk + "'"@),
        )
    } else if !actions.contains(ac) {
        (
            replace_all(
                text,
                written,
                "[INVALID ACTION: unknown action '"@ + ac + "' in skill '"@ + sk + "']"@,
            ),
            count + 1,
            reasons.push("invalid action ID in ACTION: '"@ + ac + "'"@),
        )
    } else {
        st
    }
}

/// The first `n` captures checked in order.
pub open spec fn check_captures(
    st: (Seq<char>, nat, Seq<Seq<char>>),
    caps: Seq<(Seq<char>, Seq<char>, Seq<char>)>,
    n: int,
    skills: Seq<Seq<char>>,
    actions: Seq<Seq<char>>,
) -> (Seq<char>, nat, Seq<Seq<char>>)
    decreases n,
{
    if n <= 0 {
        st
    } else {
        check_capture(check_captures(st, caps, n - 1, skills, actions), caps[n - 1], skills, actions)
    }
}

/// Checking captures never lowers the count, and raises it whenever it
/// changes the text.
pub proof fn lemma_check_captures_counts(
    st: (Seq<char>, nat, Seq<Seq<char>>),
    caps: Seq<(Seq<char>, Seq<char>, Seq<char>)>,
    n: int,
    skills: Seq<Seq<char>>,
    actions: Seq<Seq<char>>,
)
    ensures
        check_captures(st, caps, n, skills, actions).1 >= st.1,
        check_captures(st, caps, n, skills, actions).0 != st.0 ==> check_captures(st, caps, n, skills, actions).1 > st.1,
    decreases n,
{
    if n > 0 {
        lemma_check_captures_counts(st, caps, n - 1, skills, actions);
    }
}

/// What sanitising LLM `output` gives: secret assignments redacted;
/// every `ACTION:` directive of the original output checked against the
/// registered skill and action IDs; shell metacharacters stripped when
/// configured. Each step that changes the text counts once.
pub open spec fn sanitize_output_spec(
    cfg: PromptSanitizer,
    output: Seq<char>,
    skills: Seq<Seq<char>>,
    actions: Seq<Seq<char>>,
) -> (Seq<char>, nat, Seq<Seq<char>>) {
    let t1 = scan_replace(output, match_fn(Matcher::Secret), "[SECRET REDACTED]"@);
    let redacted = t1 != output;
    let c1: nat = if redacted { 1 } else { 0 };
    let r1: Seq<Seq<char>> = if redacted { seq!["redacted secret patterns"@] } else { seq![] };
    let caps = action_captures(output);
    let (t2, c2, r2) = check_captures((t1, c1, r1), caps, caps.len() as int, skills, actions);
    let t3 = if cfg.strip_shell_metachars { strip_meta(t2) } else { t2 };
    let stripped = cfg.strip_shell_metachars && t3 != t2;
    if stripped {
        (t3, c2 + 1, r2.push("stripped shell metacharacters from output"@))
    } else {
        (t3, c2, r2)
    }
}

fn list_has(v: &[String], x: &Vec<char>) -> (r: bool)
    ensures
        r == strings_view(v@).contains(x@),
{
    let xs = string_from_chars(x);
    let mut i: usize = 0;
    while i < v.len()
        invariant
            i <= v@.len(),
            xs@ == x@,
            forall|j: int| 0 <= j < i ==> strings_view(v@)[j] != x@,
        decreases v@.len() - i,
    {
        if str_eq(v[i].as_str(), xs.as_str()) {
            proof {
                assert(strings_view(v@)[i as int] == x@);
            }
            return true;
        }
        i = i + 1;
    }
    false
}

/// `str::replace` for a non-empty pattern.
fn replace_literal(text: &Vec<char>, from: &Vec<char>, to: &Vec<char>) -> (r: Vec<char>)
    ensures
        r@ == replace_all(text@, from@, to@),
{
    let m = Matcher::Literal { pat: from.clone() };
    proof {
        assert(match_fn(m) == (|t: Seq<char>| crate::meta::scan::literal_len(t, from@)));
    }
    scan_replace_exec(text, &m, to)
}

impl PromptSanitizer {
    /// Sanitise LLM output before it is shown or executed: redact secret
    /// assignments, check each `ACTION:` directive against the
    /// registered skill and action IDs, and strip shell metacharacters
    /// when configured.
    pub fn sanitize_output(&self, output: &str, valid_skill_ids: &[String], valid_action_ids: &[String]) -> (r: SanitizationResult)
        ensures
            ({
                let (t, c, rs) = sanitize_output_spec(*self, output@, strings_view(valid_skill_ids@), strings_view(valid_action_ids@));
                reported(r, t, c, rs)
            }),
            r.text@ != output@ ==> r.was_filtered,
    {
        let ghost skills = strings_view(valid_skill_ids@);
        let ghost actions = strings_view(valid_action_ids@);
        let original = chars_of(output);
        let secret_rep = chars_of("[SECRET REDACTED]");
        let mut text = scan_replace_exec(&original, &Matcher::Secret, &secret_rep);
        let mut count: usize = 0;
        let mut reasons: Vec<String> = Vec::new();
        proof {
            assert(strings_view(reasons@) =~= Seq::<Seq<char>>::empty());
        }
        if !crate::text::chars_eq(&text, &original) {
            count = count + 1;
            push_reason(&mut reasons, "redacted secret patterns".to_owned());
        }
        let caps = action_captures_exec(&original);
        let olen = original.len();
        let ghost cs = action_captures(original@);
        let mut i: usize = 0;
        while i < caps.len()
            invariant
                i <= caps@.len(),
                caps@.len() == cs.len(),
                caps@.len() * 10 <= original@.len(),
                olen == original@.len(),
                cs == action_captures(original@),
                skills == strings_view(valid_skill_ids@),
                actions == strings_view(valid_action_ids@),
                forall|k: int| 0 <= k < caps@.len() ==> (#[trigger] caps@[k]).0@ == cs[k].0 && caps@[k].1@ == cs[k].1
                    && caps@[k].2@ == cs[k].2,
                count <= i + 1,
                ({
                    let t1 = scan_replace(original@, match_fn(Matcher::Secret), "[SECRET REDACTED]"@);
                    let redacted = t1 != original@;
                    let c1: nat = if redacted { 1 } else { 0 };
                    let r1: Seq<Seq<char>> = if redacted { seq!["redacted secret patterns"@] } else { seq![] };
                    check_captures((t1, c1, r1), cs, i as int, skills, actions) == (text@, count as nat, strings_view(reasons@))
                }),
            decreases caps@.len() - i,
        {
            let directive = &caps[i].0;
            let sk = &caps[i].1;
            let ac = &caps[i].2;
            if !list_has(valid_skill_ids, sk) {
                let mut rep = chars_of("[INVALID ACTION: unknown skill '");
                push_all(&mut rep, sk);
                push_str(&mut rep, "']");
                text = replace_literal(&text, directive, &rep);
                count = count + 1;
                let mut m = "invalid skill ID in ACTION: '".to_owned();
                let sks = string_from_chars(sk);
                m.append(sks.as_str());
                m.append("'");
                push_reason(&mut reasons, m);
            } else if !list_has(valid_action_ids, ac) {
                let mut rep = chars_of("[INVALID ACTION: unknown action '");
                push_all(&mut rep, ac);
                push_str(&mut rep, "' in skill '");
                push_all(&mut rep, sk);
                push_str(&mut rep, "']");
                text = replace_literal(&text, directive, &rep);
                count = count + 1;
                let mut m = "invalid action ID in ACTION: '".to_owned();
                let acs = string_from_chars(ac);
                m.append(acs.as_str());
                m.append("'");
                push_reason(&mut reasons, m);
            }
            i = i + 1;
        }
        if self.strip_shell_metachars {
            let stripped = strip_metachars(&text);
            if !crate::text::chars_eq(&stripped, &text) {
                count = count + 1;
                push_reason(&mut reasons, "stripped shell metacharacters from output".to_owned());
            }
            text = stripped;
        }
        proof {
            let t1 = scan_replace(original@, match_fn(Matcher::Secret), "[SECRET REDACTED]"@);
            let c1: nat = if t1 != original@ { 1 } else { 0 };
            let r1: Seq<Seq<char>> = if t1 != original@ { seq!["redacted secret patterns"@] } else { seq![] };
            lemma_check_captures_counts((t1, c1, r1), cs, cs.len() as int, skills, actions);
        }
        let out = string_from_chars(&text);
        if count > 0 || reasons.len() > 0 {
            let joined = join_strings(&reasons, "; ");
            SanitizationResult::filtered(out, count, joined)
        } else {
            SanitizationResult::clean(out)
        }
    }
}

// ─── action validation ───────────────────────────────────────

/// A kebab-case identifier: non-empty, of ASCII letters, digits, `-`
/// and `_`.
pub open spec fn valid_id(id: Seq<char>) -> bool {
    id.len() > 0 && forall|i: int| 0 <= i < id.len() ==> crate::meta::scan::is_id_char(#[trigger] id[i])
}

/// How an action is validated: probes and interventions need valid
/// skill and action IDs (the skill's checked first); other actions are
/// validated elsewhere.
pub open spec fn validation(a: crate::meta::action::ActionView) -> Result<(), Seq<char>> {
    match a {
        crate::meta::action::ActionView::Probe { skill_id, action_id, .. }
        | crate::meta::action::ActionView::Intervention { skill_id, action_id, .. } => if !valid_id(skill_id) {
            Err("invalid skill ID format: '"@ + skill_id + "'"@)
        } else if !valid_id(action_id) {
            Err("invalid action ID format: '"@ + action_id + "'"@)
        } else {
            Ok(())
        },
        _ => Ok(()),
    }
}

impl PromptSanitizer {
    /// Whether `id` is a kebab-case identifier.
    pub fn is_valid_id(&self, id: &str) -> (r: bool)
        ensures
            r == valid_id(id@),
    {
        let cs = chars_of(id);
        if cs.len() == 0 {
            return false;
        }
        let mut i: usize = 0;
        while i < cs.len()
            invariant
                i <= cs@.len(),
                cs@ == id@,
                forall|j: int| 0 <= j < i ==> crate::meta::scan::is_id_char(#[trigger] cs@[j]),
            decreases cs@.len() - i,
        {
            if !crate::meta::scan::in_run_exec(&crate::meta::scan::RunKind::IdChar, cs[i]) {
                return false;
            }
            i = i + 1;
        }
        true
    }

    /// Validate a resolved action's ID formats.
    pub fn validate_action(&self, action: &ResolvedAction) -> (r: Result<(), String>)
        ensures
            match (r, validation(action@)) {
                (Ok(()), Ok(())) => true,
                (Err(m), Err(e)) => m@ == e,
                _ => false,
            },
    {
        let (skill_id, action_id) = match action {
            ResolvedAction::Probe { skill_id, action_id, .. } => (skill_id, action_id),
            ResolvedAction::Intervention { skill_id, action_id, .. } => (skill_id, action_id),
            _ => return Ok(()),
        };
        if !self.is_valid_id(skill_id.as_str()) {
            let mut m = "invalid skill ID format: '".to_owned();
            m.append(skill_id.as_str());
            m.append("'");
            return Err(m);
        }
        if !self.is_valid_id(action_id.as_str()) {
            let mut m = "invalid action ID format: '".to_owned();
            m.append(action_id.as_str());
            m.append("'");
            return Err(m);
        }
        Ok(())
    }
}

// ─── laws ────────────────────────────────────────────────────

/// Stripping metacharacters leaves a text without any as it is.
pub proof fn lemma_strip_keeps(s: Seq<char>)
    requires
        forall|i: int| 0 <= i < s.len() ==> !is_metachar(#[trigger] s[i]),
    ensures
        strip_meta(s) == s,
    decreases s.len(),
{
    reveal(Seq::filter);
    if s.len() > 0 {
        let d = s.drop_last();
        assert forall|i: int| 0 <= i < d.len() implies !is_metachar(#[trigger] d[i]) by {
            assert(d[i] == s[i]);
        }
        lemma_strip_keeps(d);
        assert(!is_metachar(s.last()));
        assert(d.push(s.last()) =~= s);
    }
}

/// Checking captures whose written form does not occur in the text
/// keeps the text, and never lowers the count.
pub proof fn lemma_check_captures_keep(
    st: (Seq<char>, nat, Seq<Seq<char>>),
    caps: Seq<(Seq<char>, Seq<char>, Seq<char>)>,
    n: int,
    skills: Seq<Seq<char>>,
    actions: Seq<Seq<char>>,
)
    requires
        n <= caps.len(),
        forall|j: int, i: int| 0 <= j < n ==> !#[trigger] occurs_at(st.0, caps[j].0, i),
    ensures
        check_captures(st, caps, n, skills, actions).0 == st.0,
        check_captures(st, caps, n, skills, actions).1 >= st.1,
    decreases n,
{
    if n > 0 {
        lemma_check_captures_keep(st, caps, n - 1, skills, actions);
        let prev = check_captures(st, caps, n - 1, skills, actions);
        let cap = caps[n - 1];
        assert forall|i: int| !occurs_at(prev.0, cap.0, i) by {
            assert(!occurs_at(st.0, caps[n - 1].0, i));
        }
        lemma_replace_absent(prev.0, cap.0, "[INVALID ACTION: unknown skill '"@ + cap.1 + "']"@);
        lemma_replace_absent(prev.0, cap.0, "[INVALID ACTION: unknown action '"@ + cap.2 + "' in skill '"@ + cap.1 + "']"@);
    }
}

/// Secrets are never let through: LLM output that is a secret keyword
/// (`api_key`, `secret-key`, `accesstoken`, `password`, `pwd`, ...),
/// `=` and a value without whitespace comes back as
/// `[SECRET REDACTED]` alone, and counts as filtered.
pub proof fn lemma_secret_assignment_redacted(
    cfg: PromptSanitizer,
    k: int,
    v: Seq<char>,
    skills: Seq<Seq<char>>,
    actions: Seq<Seq<char>>,
)
    requires
        0 <= k < secret_keywords().len(),
        v.len() > 0,
        forall|i: int| 0 <= i < v.len() ==> !is_ws(#[trigger] v[i]),
    ensures
        sanitize_output_spec(cfg, secret_keywords()[k] + seq!['='] + v, skills, actions).0 == "[SECRET REDACTED]"@,
        sanitize_output_spec(cfg, secret_keywords()[k] + seq!['='] + v, skills, actions).1 >= 1,
{
    reveal_strlit("[SECRET REDACTED]");
    let r = "[SECRET REDACTED]"@;
    let s = secret_keywords()[k] + seq!['='] + v;
    lemma_secret_assignment_matches(k, v);
    lemma_run_len_is(v, RunKind::NonSpace, v.len() as int);
    assert(secret_match_len(s) == s.len());
    assert(match_fn(Matcher::Secret)(s) == s.len());
    lemma_scan_replace_whole(s, match_fn(Matcher::Secret), r);
    let t1 = scan_replace(s, match_fn(Matcher::Secret), r);
    assert(t1 == r);
    assert(t1[0] != s[0]);
    assert(t1 != s);
    let caps = action_captures(s);
    lemma_captures_written(s);
    assert forall|x: int| 0 <= x < r.len() implies r[x] != ':' && !is_metachar(#[trigger] r[x]) by {
    }
    assert forall|j: int, i: int| 0 <= j < caps.len() implies !#[trigger] occurs_at(r, caps[j].0, i) by {
        if occurs_at(r, caps[j].0, i) {
            assert(r.subrange(i, i + caps[j].0.len())[6] == caps[j].0[6]);
            assert(r[i + 6] == ':');
        }
    }
    let st: (Seq<char>, nat, Seq<Seq<char>>) = (t1, 1, seq!["redacted secret patterns"@]);
    lemma_check_captures_keep(st, caps, caps.len() as int, skills, actions);
    lemma_strip_keeps(r);
}

/// `RUSSELL_*` names never reach a prompt: operator input that is such
/// a name comes back as `[REDACTED]` (the limit allowing its 10 bytes),
/// and counts as filtered.
pub proof fn lemma_env_name_redacted(cfg: PromptSanitizer, t: Seq<char>)
    requires
        t.len() > 0,
        forall|i: int| 0 <= i < t.len() ==> is_env_tail(#[trigger] t[i]),
        cfg.max_input_length >= 10,
    ensures
        sanitize_input_spec(cfg, "RUSSELL_"@ + t).0 == "[REDACTED]"@,
        sanitize_input_spec(cfg, "RUSSELL_"@ + t).1 >= 1,
{
    reveal_strlit("[REDACTED]");
    reveal_strlit("RUSSELL_");
    let r = "[REDACTED]"@;
    let s = "RUSSELL_"@ + t;
    lemma_env_name_matches(t, Seq::<char>::empty());
    assert(s + Seq::<char>::empty() =~= s);
    assert(env_match_len(s) == s.len());
    assert(match_fn(Matcher::Env)(s) == s.len());
    lemma_scan_replace_whole(s, match_fn(Matcher::Env), r);
    assert(r[0] != s[0]);
    assert forall|x: int| 0 <= x < r.len() implies !is_metachar(#[trigger] r[x]) by {}
    lemma_strip_keeps(r);
    lemma_encode_len(r);
    assert(utf8_len(r) == 10) by {
        reveal_with_fuel(utf8_len, 11);
    }
}

} // verus!
