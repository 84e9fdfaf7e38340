//! Persisting a corrected model name: when the model configured for the
//! Nurse turns out to be named otherwise by the server, the env file's
//! `RUSSELL_DOCTOR_MODEL` line is rewritten.

use vstd::prelude::*;
use crate::env::{strip_optional_quotes, unquoted};
use crate::mcp::client::without_trailing_slashes;
use crate::skill::strings_view;
use crate::text::{
    is_ascii_alnum, str_eq, to_lowercase, unicode_lowercase,
    chars_eq, chars_of, find_char_from, first_index_of, lines_of, lines_spec, push_all, push_str,
    slice_chars, string_from_chars, trim, trim_chars,
};

verus! {

/// The env variable naming the Nurse's model.
pub const MODEL_VAR: &'static str = "RUSSELL_DOCTOR_MODEL";

/// The key and value an env line assigns: the trimmed key before the
/// first `=` and the trimmed, unquoted value after it; none for a blank
/// line, a comment, or a line without `=`.
pub open spec fn assignment(raw: Seq<char>) -> Option<(Seq<char>, Seq<char>)> {
    let line = trim(raw);
    if line.len() == 0 || line[0] == '#' {
        None
    } else {
        match first_index_of(line, '=') {
            None => None,
            Some(i) => Some((trim(line.take(i)), unquoted(trim(line.skip(i + 1))))),
        }
    }
}

/// The line sets the model variable to `configured`.
pub open spec fn sets_model(raw: Seq<char>, configured: Seq<char>) -> bool {
    assignment(raw) matches Some(kv) && kv.0 == MODEL_VAR@ && kv.1 == configured
}

/// The first `n` lines, each ended by a newline, with the first line
/// that sets the model to `configured` replaced by one that sets it to
/// `resolved`; and whether such a line was found.
pub open spec fn corrected(lines: Seq<Seq<char>>, n: int, configured: Seq<char>, resolved: Seq<char>) -> (Seq<char>, bool)
    decreases n,
{
    if n <= 0 {
        (seq![], false)
    } else {
        let prev = corrected(lines, n - 1, configured, resolved);
        if !prev.1 && sets_model(lines[n - 1], configured) {
            (prev.0 + MODEL_VAR@ + "="@ + resolved + "\n"@, true)
        } else {
            (prev.0 + lines[n - 1] + "\n"@, prev.1)
        }
    }
}

/// Whether one line sets the model variable to `configured`.
fn line_sets_model(raw: &Vec<char>, configured: &Vec<char>) -> (r: bool)
    ensures
        r == sets_model(raw@, configured@),
{
    let line = trim_chars(raw);
    if line.len() == 0 || line[0] == '#' {
        return false;
    }
    proof {
        assert(line@.skip(0) =~= line@);
    }
    match find_char_from(&line, '=', 0) {
        None => false,
        Some(i) => {
            let k = slice_chars(&line, 0, i);
            let v = slice_chars(&line, i + 1, line.len());
            proof {
                assert(k@ =~= line@.take(i as int));
                assert(v@ =~= line@.skip(i + 1));
            }
            let key = trim_chars(&k);
            let value = strip_optional_quotes(&trim_chars(&v));
            let var = chars_of(MODEL_VAR);
            chars_eq(&key, &var) && chars_eq(&value, configured)
        },
    }
}

/// The env file's text with its first `RUSSELL_DOCTOR_MODEL=configured`
/// line (the value may be quoted) replaced by
/// `RUSSELL_DOCTOR_MODEL=resolved`, every line ended by a newline; and
/// whether a line was replaced. Nothing is replaced when no line sets
/// the configured model.
pub fn correct_model_in_env(text: &str, configured: &str, resolved: &str) -> (r: (String, bool))
    ensures
        r.0@ == corrected(lines_spec(text@), lines_spec(text@).len() as int, configured@, resolved@).0,
        r.1 == corrected(lines_spec(text@), lines_spec(text@).len() as int, configured@, resolved@).1,
{
    let lines = lines_of(&chars_of(text));
    let conf = chars_of(configured);
    let ghost ls = lines_spec(text@);
    let mut out: Vec<char> = Vec::new();
    let mut found = false;
    let mut i: usize = 0;
    while i < lines.len()
        invariant
            i <= lines@.len(),
            lines@.len() == ls.len(),
            forall|j: int| 0 <= j < lines@.len() ==> (#[trigger] lines@[j])@ == ls[j],
            conf@ == configured@,
            out@ == corrected(ls, i as int, configured@, resolved@).0,
            found == corrected(ls, i as int, configured@, resolved@).1,
        decreases lines@.len() - i,
    {
        proof {
            assert(lines@[i as int]@ == ls[i as int]);
        }
        if !found && line_sets_model(&lines[i], &conf) {
            push_str(&mut out, MODEL_VAR);
            push_str(&mut out, "=");
            push_str(&mut out, resolved);
            push_str(&mut out, "\n");
            found = true;
        } else {
            push_all(&mut out, &lines[i]);
            push_str(&mut out, "\n");
        }
        i = i + 1;
    }
    (string_from_chars(&out), found)
}

// ─── resolving the model name ────────────────────────────────

/// `s` with every trailing `/v1` removed (`trim_end_matches("/v1")`).
pub open spec fn without_v1(s: Seq<char>) -> Seq<char>
    decreases s.len(),
{
    if s.len() >= 3 && s[s.len() - 3] == '/' && s[s.len() - 2] == 'v' && s[s.len() - 1] == '1' {
        without_v1(s.take(s.len() - 3))
    } else {
        s
    }
}

/// Where Okapi lists its loaded models: the base URL without its `/v1`
/// suffixes and then its trailing slashes, followed by `/api/tags`.
pub open spec fn tags_url(base: Seq<char>) -> Seq<char> {
    without_trailing_slashes(without_v1(base)) + "/api/tags"@
}

/// The URL of Okapi's model list for the API base URL `base_url`.
pub fn model_tags_url(base_url: &str) -> (r: String)
    ensures
        r@ == tags_url(base_url@),
{
    let cs = chars_of(base_url);
    let mut n: usize = cs.len();
    proof {
        assert(cs@.take(n as int) =~= cs@);
    }
    while n >= 3 && cs[n - 3] == '/' && cs[n - 2] == 'v' && cs[n - 1] == '1'
        invariant
            n <= cs@.len(),
            without_v1(cs@) == without_v1(cs@.take(n as int)),
        decreases n,
    {
        proof {
            assert(cs@.take(n as int).take(n - 3) =~= cs@.take(n - 3));
        }
        n = n - 3;
    }
    let mut out = slice_chars(&cs, 0, n);
    let ghost v = out@;
    proof {
        assert(v =~= cs@.take(n as int));
        assert(without_v1(v) == v);
        assert(v.take(v.len() as int) =~= v);
    }
    let mut k: usize = out.len();
    while k > 0 && out[k - 1] == '/'
        invariant
            k <= v.len(),
            out@ == v,
            without_trailing_slashes(v) == without_trailing_slashes(v.take(k as int)),
        decreases k,
    {
        proof {
            assert(v.take(k as int).drop_last() =~= v.take(k - 1));
        }
        k = k - 1;
    }
    let mut out = slice_chars(&out, 0, k);
    proof {
        assert(out@ =~= v.take(k as int));
        assert(without_trailing_slashes(v.take(k as int)) == v.take(k as int));
    }
    push_str(&mut out, "/api/tags");
    string_from_chars(&out)
}

/// The model name settled without scoring: the candidate itself when
/// the server's list is unknown, empty, or holds it; `None` when the
/// closest listed name has to be found.
pub fn settled_model_name(candidate: &str, models: &Option<Vec<String>>) -> (r: Option<String>)
    ensures
        match models {
            None => r matches Some(n) && n@ == candidate@,
            Some(ms) => if ms@.len() == 0 || strings_view(ms@).contains(candidate@) {
                r matches Some(n) && n@ == candidate@
            } else {
                r is None
            },
        },
{
    match models {
        None => Some(candidate.to_string()),
        Some(ms) => if ms.len() == 0 || lists_name(ms, candidate) {
            Some(candidate.to_string())
        } else {
            None
        },
    }
}

/// Whether `name` is among `ms`.
fn lists_name(ms: &Vec<String>, name: &str) -> (r: bool)
    ensures
        r == strings_view(ms@).contains(name@),
{
    let mut i: usize = 0;
    while i < ms.len()
        invariant
            i <= ms@.len(),
            forall|j: int| 0 <= j < i ==> strings_view(ms@)[j] != name@,
        decreases ms@.len() - i,
    {
        if str_eq(ms[i].as_str(), name) {
            proof {
                assert(strings_view(ms@)[i as int] == name@);
            }
            return true;
        }
        i = i + 1;
    }
    false
}

/// Whether `char::is_alphanumeric` holds of `c` (Unicode's Alphabetic
/// or Numeric property).
pub uninterp spec fn unicode_alphanumeric(c: char) -> bool;

/// `char::is_alphanumeric`. The contract claims that the answer is a
/// function of the character (named `unicode_alphanumeric`), and that on
/// ASCII it holds of the letters and digits alone.
#[verifier::external_body]
fn is_alphanumeric_char(c: char) -> (r: bool)
    ensures
        r == unicode_alphanumeric(c),
        (c as u32) < 128 ==> r == is_ascii_alnum(c),
{
    c.is_alphanumeric()
}

/// A name as it is compared when scoring: lowercased, with only its
/// alphanumeric characters kept.
pub open spec fn cleaned_name(s: Seq<char>) -> Seq<char> {
    unicode_lowercase(s).filter(|c: char| unicode_alphanumeric(c))
}

/// `s` lowercased, keeping only its alphanumeric characters, so that
/// `nemotron3super` compares with `nemotron3-super:cloud`.
pub fn clean_model_name(s: &str) -> (r: String)
    ensures
        r@ == cleaned_name(s@),
{
    let low = to_lowercase(s);
    let cs = chars_of(low.as_str());
    let mut out: Vec<char> = Vec::new();
    let mut i: usize = 0;
    while i < cs.len()
        invariant
            i <= cs@.len(),
            cs@ == unicode_lowercase(s@),
            out@ == cs@.take(i as int).filter(|c: char| unicode_alphanumeric(c)),
        decreases cs@.len() - i,
    {
        proof {
            reveal(Seq::filter);
            assert(cs@.take(i as int + 1).drop_last() =~= cs@.take(i as int));
        }
        if is_alphanumeric_char(cs[i]) {
            out.push(cs[i]);
        }
        i = i + 1;
    }
    proof {
        assert(cs@.take(cs@.len() as int) =~= cs@);
    }
    string_from_chars(&out)
}

} // verus!
