//! Prompt template selection, the token-budget truncation filter
//! templates use, and the `[inference]` header a template may open with.

use vstd::prelude::*;
use crate::meta::sanitizer::{
    byte_len, byte_len_of, byte_prefix, byte_prefix_len, ends_on_char, truncate_to_bytes, utf8_len, utf8_width,
};
use crate::text::{
    chars_of, find_from, first_index_of, is_ws, lead_ws, lemma_lead_ws_is, lines_of, lines_spec, matches_at,
    occurs_at, parse_int_spec, parse_u64, push_str, skip_ws_forward, slice_chars, string_from_chars, trim,
    trim_chars, find_char_from,
};

verus! {

/// Where a template was loaded from.
#[derive(Debug)]
pub enum TemplateSource {
    /// Compiled into the binary.
    CompiledIn,
    /// Loaded from an operator-provided file on disk.
    Disk {
        /// Path to the override file.
        path: std::path::PathBuf,
    },
}

/// Which prompt template an invocation mode uses.
#[derive(Debug, Clone, Copy, PartialEq, Eq, Structural)]
pub enum PromptMode {
    /// One-shot SOAP health check.
    Soap,
    /// Multi-turn chat REPL.
    Chat,
    /// Skill workshop mode.
    Workshop,
}

/// The template name of a mode.
pub open spec fn mode_template(m: PromptMode) -> Seq<char> {
    match m {
        PromptMode::Soap => "soap"@,
        PromptMode::Chat => "chat_objective"@,
        PromptMode::Workshop => "workshop"@,
    }
}

impl PromptMode {
    /// The template name for this mode.
    pub fn template_name(self) -> (r: &'static str)
        ensures
            r@ == mode_template(self),
    {
        match self {
            PromptMode::Soap => "soap",
            PromptMode::Chat => "chat_objective",
            PromptMode::Workshop => "workshop",
        }
    }
}

/// Text cut to about `limit` tokens (4 bytes each): unchanged when it
/// fits; otherwise the characters that fit in the budget less three
/// bytes, then `...` (the characters that fit the whole budget when
/// not even one fits in that).
pub open spec fn truncated_to_tokens(s: Seq<char>, limit: u32) -> Seq<char> {
    let budget = limit as int * 4;
    if byte_len(s) <= budget {
        s
    } else {
        let keep = byte_prefix(s, if budget >= 3 { budget - 3 } else { 0 });
        if keep.len() == 0 {
            byte_prefix(s, budget) + "..."@
        } else {
            keep + "..."@
        }
    }
}

/// Truncate text to approximately `limit` tokens (4 bytes per token),
/// marking a cut with `...`.
pub fn truncate_tokens_filter(s: String, limit: u32) -> (r: String)
    requires
        limit as int * 4 <= usize::MAX,
        ({
            let budget = limit as int * 4;
            byte_len(s@) > budget && byte_prefix(s@, if budget >= 3 { budget - 3 } else { 0 }).len() == 0
                ==> ends_on_char(s@, budget)
        }),
    ensures
        r@ == truncated_to_tokens(s@, limit),
{
    let byte_limit: usize = limit as usize * 4;
    if s.as_str().len() <= byte_limit {
        return s;
    }
    let cs = chars_of(s.as_str());
    let end_budget: usize = if byte_limit >= 3 { byte_limit - 3 } else { 0 };
    let keep = truncate_to_bytes(&cs, end_budget);
    let mut out = if keep.len() == 0 {
        truncate_to_bytes(&cs, byte_limit)
    } else {
        keep
    };
    push_str(&mut out, "...");
    string_from_chars(&out)
}


// ─── the `[inference]` header ────────────────────────────────

/// LLM parameters a template's `[inference]` header sets.
#[derive(Debug, Clone)]
pub struct InferenceHint {
    /// Sampling temperature, as written (the caller reads it as a
    /// number; text that does not parse sets none).
    pub temperature: Option<String>,
    /// Maximum tokens to generate.
    pub max_tokens: Option<u32>,
    /// Reasoning effort level.
    pub reasoning_effort: Option<String>,
}

/// The settings of a header as plain values: temperature text, maximum
/// tokens, reasoning effort.
pub type HintView = (Option<Seq<char>>, Option<u32>, Option<Seq<char>>);

/// The plain values of a hint.
pub open spec fn hint_view(h: InferenceHint) -> HintView {
    (
        match h.temperature { Some(t) => Some(t@), None => None },
        h.max_tokens,
        match h.reasoning_effort { Some(e) => Some(e@), None => None },
    )
}

impl InferenceHint {
    /// Whether no parameter is set.
    pub fn is_empty(&self) -> (r: bool)
        ensures
            r == (self.temperature is None && self.max_tokens is None && self.reasoning_effort is None),
    {
        self.temperature.is_none() && self.max_tokens.is_none() && self.reasoning_effort.is_none()
    }
}

/// Number of leading `"`.
pub open spec fn lead_quotes(s: Seq<char>) -> nat
    decreases s.len(),
{
    if s.len() > 0 && s[0] == '"' { 1 + lead_quotes(s.drop_first()) } else { 0 }
}

/// Number of trailing `"`.
pub open spec fn trail_quotes(s: Seq<char>) -> nat
    decreases s.len(),
{
    if s.len() > 0 && s.last() == '"' { 1 + trail_quotes(s.drop_last()) } else { 0 }
}

/// `str::trim_matches('"')`: every leading and trailing `"` removed.
pub open spec fn quote_trimmed(s: Seq<char>) -> Seq<char> {
    let a = s.skip(lead_quotes(s) as int);
    a.take(a.len() - trail_quotes(a))
}

/// `str::parse::<u32>()`.
pub open spec fn u32_of(s: Seq<char>) -> Option<u32> {
    match parse_int_spec(s, false) {
        Some(n) => if n <= u32::MAX { Some(n as u32) } else { None },
        None => None,
    }
}

/// The settings after one header line: a `key = value` line sets
/// `temperature`, `max_tokens` or `reasoning_effort` (the value trimmed
/// and stripped of `"`); any other line changes nothing.
pub open spec fn with_setting(h: HintView, line: Seq<char>) -> HintView {
    let t = trim(line);
    match first_index_of(t, '=') {
        None => h,
        Some(i) => {
            let key = trim(t.take(i));
            let value = quote_trimmed(trim(t.skip(i + 1)));
            if key == "temperature"@ {
                (Some(value), h.1, h.2)
            } else if key == "max_tokens"@ {
                (h.0, u32_of(value), h.2)
            } else if key == "reasoning_effort"@ {
                (h.0, h.1, Some(value))
            } else {
                h
            }
        },
    }
}

/// Reading header lines from line `i` on, with `end` bytes of the body
/// consumed so far: each line counts its bytes and a newline; a blank
/// line ends the header and is consumed.
pub open spec fn scan_header(lines: Seq<Seq<char>>, i: int, end: int, h: HintView) -> (int, HintView)
    decreases lines.len() - i,
{
    if i >= lines.len() || i < 0 {
        (end, h)
    } else if trim(lines[i]).len() == 0 {
        (end + utf8_len(lines[i]) as int + 1, h)
    } else {
        scan_header(lines, i + 1, end + utf8_len(lines[i]) as int + 1, with_setting(h, lines[i]))
    }
}

/// First index at or after `k` where `p` occurs in `s`.
pub open spec fn occurrence_from(s: Seq<char>, p: Seq<char>, k: int) -> Option<int>
    decreases s.len() + 1 - k,
{
    if k < 0 || k > s.len() {
        None
    } else if occurs_at(s, p, k) {
        Some(k)
    } else {
        occurrence_from(s, p, k + 1)
    }
}

/// Where the header may start: after leading whitespace, and after a
/// leading `{# ... #}` comment and the whitespace that follows it (at
/// the very start when the comment is not closed).
pub open spec fn header_search_start(body: Seq<char>) -> int {
    let l = lead_ws(body) as int;
    if occurs_at(body, "{#"@, l) {
        match occurrence_from(body, "#}"@, l) {
            Some(e) => e + 2 + lead_ws(body.skip(e + 2)),
            None => 0,
        }
    } else {
        l
    }
}

/// The header's settings and the byte offset where the template body
/// after it begins; none when the body does not open with
/// `[inference]`.
pub open spec fn header_parse(body: Seq<char>) -> Option<(HintView, int)> {
    let s = header_search_start(body);
    if occurs_at(body, "[inference]"@, s) {
        let lines = lines_spec(body.skip(s));
        let first = (utf8_len(body.take(s)) + utf8_len(lines[0]) + 1) as int;
        let r = scan_header(lines, 1, first, (None, None, None));
        Some((r.1, r.0))
    } else {
        None
    }
}

/// The text from byte `end` on; empty when `end` is past the end.
pub open spec fn from_byte(body: Seq<char>, end: int) -> Seq<char> {
    if end <= utf8_len(body) { body.skip(byte_prefix_len(body, end) as int) } else { seq![] }
}

/// The header's end falls on a character boundary, or past the end (the
/// cut is defined).
pub open spec fn header_cut_ok(body: Seq<char>) -> bool {
    match header_parse(body) {
        Some(p) => p.1 <= utf8_len(body) ==> ends_on_char(body, p.1),
        None => true,
    }
}

proof fn lemma_utf8_len_append(a: Seq<char>, b: Seq<char>)
    ensures
        utf8_len(a + b) == utf8_len(a) + utf8_len(b),
    decreases a.len(),
{
    if a.len() == 0 {
        assert(a + b =~= b);
    } else {
        assert((a + b).drop_first() =~= a.drop_first() + b);
        assert((a + b)[0] == a[0]);
        lemma_utf8_len_append(a.drop_first(), b);
    }
}

proof fn lemma_utf8_len_bound(s: Seq<char>)
    ensures
        utf8_len(s) <= 4 * s.len(),
    decreases s.len(),
{
    if s.len() > 0 {
        lemma_utf8_len_bound(s.drop_first());
    }
}

fn width_u128(c: char) -> (r: u128)
    ensures
        r == utf8_width(c),
{
    let u = c as u32;
    if u < 0x80 {
        1
    } else if u < 0x800 {
        2
    } else if u < 0x10000 {
        3
    } else {
        4
    }
}

/// UTF-8 length of a character vector.
fn utf8_len_of(s: &Vec<char>) -> (r: u128)
    ensures
        r == utf8_len(s@),
        r <= 4 * s@.len(),
        r <= 0x4_0000_0000_0000_0000u128,
{
    let mut i: usize = s.len();
    let mut acc: u128 = 0;
    proof {
        assert(s@.skip(s@.len() as int) =~= Seq::<char>::empty());
    }
    while i > 0
        invariant
            i <= s@.len(),
            s@.len() <= usize::MAX,
            acc == utf8_len(s@.skip(i as int)),
            acc <= 4 * (s@.len() - i),
        decreases i,
    {
        proof {
            assert(s@.skip(i - 1).drop_first() =~= s@.skip(i as int));
            assert(s@.skip(i - 1)[0] == s@[i - 1]);
        }
        acc = acc + width_u128(s[i - 1]);
        i = i - 1;
    }
    proof {
        assert(s@.skip(0) =~= s@);
    }
    acc
}

/// How many leading characters fit in `max` bytes, and their bytes.
fn prefix_fitting(s: &Vec<char>, max: u128) -> (r: (usize, u128))
    ensures
        r.0 == byte_prefix_len(s@, max as int),
        r.1 == utf8_len(s@.take(r.0 as int)),
{
    let mut i: usize = 0;
    let mut acc: u128 = 0;
    proof {
        assert(s@.skip(0) =~= s@);
        assert(s@.take(0) =~= Seq::<char>::empty());
    }
    while i < s.len() && width_u128(s[i]) <= max - acc
        invariant
            i <= s@.len(),
            acc <= max,
            acc == utf8_len(s@.take(i as int)),
            byte_prefix_len(s@, max as int) == i + byte_prefix_len(s@.skip(i as int), max - acc),
        decreases s@.len() - i,
    {
        let w = width_u128(s[i]);
        proof {
            let t = s@.skip(i as int);
            assert(t[0] == s@[i as int]);
            assert(t.drop_first() =~= s@.skip(i + 1));
            assert(s@.take(i + 1) =~= s@.take(i as int) + seq![s@[i as int]]);
            lemma_utf8_len_append(s@.take(i as int), seq![s@[i as int]]);
            assert(seq![s@[i as int]].drop_first() =~= Seq::<char>::empty());
            assert(utf8_len(seq![s@[i as int]]) == utf8_width(s@[i as int]) + utf8_len(Seq::<char>::empty()));
        }
        acc = acc + w;
        i = i + 1;
    }
    proof {
        let t = s@.skip(i as int);
        if i < s@.len() {
            assert(t[0] == s@[i as int]);
        }
    }
    (i, acc)
}

/// The text without its leading and trailing `"`.
fn trim_quotes(s: &Vec<char>) -> (r: Vec<char>)
    ensures
        r@ == quote_trimmed(s@),
{
    let mut a: usize = 0;
    proof {
        assert(s@.skip(0) =~= s@);
    }
    while a < s.len() && s[a] == '"'
        invariant
            a <= s@.len(),
            lead_quotes(s@) == a + lead_quotes(s@.skip(a as int)),
        decreases s@.len() - a,
    {
        proof {
            assert(s@.skip(a as int).drop_first() =~= s@.skip(a + 1));
        }
        a = a + 1;
    }
    let rest = slice_chars(s, a, s.len());
    proof {
        assert(rest@ =~= s@.skip(a as int));
        assert(lead_quotes(s@) == a);
        assert(rest@.take(rest@.len() as int) =~= rest@);
    }
    let mut b: usize = rest.len();
    while b > 0 && rest[b - 1] == '"'
        invariant
            b <= rest@.len(),
            trail_quotes(rest@) == (rest@.len() - b) + trail_quotes(rest@.take(b as int)),
        decreases b,
    {
        proof {
            assert(rest@.take(b as int).drop_last() =~= rest@.take(b - 1));
        }
        b = b - 1;
    }
    proof {
        assert(trail_quotes(rest@.take(b as int)) == 0);
    }
    slice_chars(&rest, 0, b)
}

fn u32_from(s: &Vec<char>) -> (r: Option<u32>)
    ensures
        r == u32_of(s@),
{
    match parse_u64(s) {
        Some(n) => if n <= 4294967295u64 { Some(n as u32) } else { None },
        None => None,
    }
}

/// One header line applied to the settings.
fn apply_setting(h: InferenceHint, line: &Vec<char>) -> (r: InferenceHint)
    ensures
        hint_view(r) == with_setting(hint_view(h), line@),
{
    let t = trim_chars(line);
    proof {
        assert(t@.skip(0) =~= t@);
    }
    match find_char_from(&t, '=', 0) {
        None => h,
        Some(i) => {
            let k = slice_chars(&t, 0, i);
            let v = slice_chars(&t, i + 1, t.len());
            proof {
                assert(k@ =~= t@.take(i as int));
                assert(v@ =~= t@.skip(i + 1));
            }
            let key = trim_chars(&k);
            let value = trim_quotes(&trim_chars(&v));
            if crate::text::chars_eq(&key, &chars_of("temperature")) {
                InferenceHint { temperature: Some(string_from_chars(&value)), ..h }
            } else if crate::text::chars_eq(&key, &chars_of("max_tokens")) {
                InferenceHint { max_tokens: u32_from(&value), ..h }
            } else if crate::text::chars_eq(&key, &chars_of("reasoning_effort")) {
                InferenceHint { reasoning_effort: Some(string_from_chars(&value)), ..h }
            } else {
                h
            }
        },
    }
}

/// Where the header may start, as `header_search_start` says.
fn search_start(cs: &Vec<char>) -> (r: usize)
    ensures
        r == header_search_start(cs@),
        r <= cs@.len(),
{
    let n = cs.len();
    let l = skip_ws_forward(cs, 0, n);
    proof {
        lemma_lead_ws_is(cs@, l as nat);
    }
    if matches_at(cs, &chars_of("{#"), l) {
        match find_from(cs, &chars_of("#}"), l) {
            Some(e) => {
                proof {
                    reveal_strlit("#}");
                    lemma_occurrence_from_is(cs@, "#}"@, l as int, e as int);
                }
                let a = e + 2;
                let r = skip_ws_forward(cs, a, n);
                proof {
                    let t = cs@.skip(a as int);
                    assert forall|i: int| 0 <= i < r - a implies is_ws(#[trigger] t[i]) by {
                        assert(t[i] == cs@[a + i]);
                    }
                    if r < n {
                        assert(t[r - a] == cs@[r as int]);
                    }
                    lemma_lead_ws_is(t, (r - a) as nat);
                }
                r
            },
            None => {
                proof {
                    lemma_occurrence_from_none(cs@, "#}"@, l as int);
                }
                0
            },
        }
    } else {
        l
    }
}

proof fn lemma_occurrence_from_is(s: Seq<char>, p: Seq<char>, k: int, e: int)
    requires
        0 <= k <= e,
        occurs_at(s, p, e),
        forall|j: int| k <= j < e ==> !occurs_at(s, p, j),
    ensures
        occurrence_from(s, p, k) == Some(e),
    decreases e - k,
{
    if k < e {
        lemma_occurrence_from_is(s, p, k + 1, e);
    }
}

proof fn lemma_occurrence_from_none(s: Seq<char>, p: Seq<char>, k: int)
    requires
        0 <= k,
        forall|j: int| k <= j ==> !occurs_at(s, p, j),
    ensures
        occurrence_from(s, p, k) is None,
    decreases s.len() + 1 - k,
{
    if k <= s.len() {
        lemma_occurrence_from_none(s, p, k + 1);
    }
}

/// The header's settings and, with the sum capped at `cap`, where it
/// ends; `None` when there is no header.
fn scan(cs: &Vec<char>, cap: u128) -> (r: Option<(InferenceHint, u128)>)
    requires
        cap <= 4 * cs@.len() + 1,
    ensures
        match header_parse(cs@) {
            Some(p) => r matches Some(q) && hint_view(q.0) == p.0
                && q.1 == (if p.1 < cap { p.1 } else { cap as int }),
            None => r is None,
        },
{
    let s = search_start(cs);
    let n = cs.len();
    if !matches_at(cs, &chars_of("[inference]"), s) {
        return None;
    }
    let search = slice_chars(cs, s, cs.len());
    let head = slice_chars(cs, 0, s);
    proof {
        assert(search@ =~= cs@.skip(s as int));
        assert(head@ =~= cs@.take(s as int));
        reveal_strlit("[inference]");
        assert(search@.len() > 0);
    }
    let lines = lines_of(&search);
    let ghost ls = lines_spec(cs@.skip(s as int));
    proof {
        lemma_lines_nonempty(search@);
    }
    let head_bytes = utf8_len_of(&head);
    let first_bytes = utf8_len_of(&lines[0]);
    proof {
        lemma_utf8_len_bound(cs@);
        assert(cs@ =~= head@ + search@);
        lemma_utf8_len_append(head@, search@);
    }
    let ghost e0: int = head_bytes + first_bytes + 1;
    let first_sum: u128 = head_bytes + first_bytes + 1;
    let mut acc: u128 = if first_sum < cap { first_sum } else { cap };
    let ghost mut e: int = e0;
    let mut h = InferenceHint { temperature: None, max_tokens: None, reasoning_effort: None };
    let mut i: usize = 1;
    proof {
        assert(hint_view(h) == (None::<Seq<char>>, None::<u32>, None::<Seq<char>>));
    }
    while i < lines.len()
        invariant_except_break
            1 <= i <= lines@.len(),
            cs@.len() <= usize::MAX,
            lines@.len() == ls.len(),
            forall|j: int| 0 <= j < lines@.len() ==> (#[trigger] lines@[j])@ == ls[j],
            cap <= 4 * cs@.len() + 1,
            acc == (if e < cap { e } else { cap as int }),
            scan_header(ls, 1, e0, (None, None, None)) == scan_header(ls, i as int, e, hint_view(h)),
        ensures
            acc == (if scan_header(ls, 1, e0, (None, None, None)).0 < cap {
                scan_header(ls, 1, e0, (None, None, None)).0
            } else {
                cap as int
            }),
            hint_view(h) == scan_header(ls, 1, e0, (None, None, None)).1,
        decreases lines@.len() - i,
    {
        proof {
            assert(lines@[i as int]@ == ls[i as int]);
        }
        let w = utf8_len_of(&lines[i]);
        proof {
            lemma_utf8_len_bound(cs@);
        }
        let step: u128 = acc + w + 1;
        let blank = trim_chars(&lines[i]).len() == 0;
        proof {
            e = e + w + 1;
        }
        acc = if step < cap { step } else { cap };
        if blank {
            break;
        }
        h = apply_setting(h, &lines[i]);
        i = i + 1;
    }
    Some((h, acc))
}

proof fn lemma_lines_nonempty(s: Seq<char>)
    requires
        s.len() > 0,
    ensures
        lines_spec(s).len() > 0,
{
}

/// Whether the header of `body` ends on a character boundary or past
/// the end, so that the cut after it is defined.
pub fn inference_header_cut_ok(body: &str) -> (r: bool)
    ensures
        r == header_cut_ok(body@),
{
    let cs = chars_of(body);
    let total = utf8_len_of(&cs);
    match scan(&cs, total + 1) {
        None => true,
        Some((_, end)) => {
            if end > total {
                true
            } else {
                let (k, bytes) = prefix_fitting(&cs, end);
                bytes == end
            }
        },
    }
}

/// Split a template into its `[inference]` header's settings and the
/// text after the header (the first blank line closes the header).
/// Without a header the settings are none and the text is unchanged.
/// The header's end is counted in bytes as `str::lines` sees them (a
/// line's `\r` is not counted).
pub fn parse_inference_header(body: &str) -> (r: (Option<InferenceHint>, String))
    requires
        header_cut_ok(body@),
    ensures
        match header_parse(body@) {
            Some(p) => r.0 matches Some(h) && hint_view(h) == p.0 && r.1@ == from_byte(body@, p.1),
            None => r.0 is None && r.1@ == body@,
        },
{
    let cs = chars_of(body);
    let total = utf8_len_of(&cs);
    match scan(&cs, total + 1) {
        None => (None, body.to_owned()),
        Some((h, end)) => {
            if end > total {
                (Some(h), String::new())
            } else {
                let (k, _) = prefix_fitting(&cs, end);
                proof {
                    crate::meta::sanitizer::lemma_byte_prefix_bound(cs@, end as int);
                }
                let rest = slice_chars(&cs, k, cs.len());
                proof {
                    assert(rest@ =~= cs@.skip(k as int));
                }
                (Some(h), string_from_chars(&rest))
            }
        },
    }
}

} // verus!
