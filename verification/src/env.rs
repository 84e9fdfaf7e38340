//! The env-file grammar: `KEY=value` lines, `#` comments, optional
//! quotes around values; and the order in which env files are looked
//! for. Setting the variables is the application's part.

use vstd::prelude::*;
use crate::paths::{join, path_join};
use crate::text::{
    chars_of, find_char_from, first_index_of, lines_of, lines_spec, slice_chars, starts_with_seq,
    string_from_chars, trim, trim_chars,
};

verus! {

/// `s` without one pair of matching surrounding quotes (`"` or `'`).
pub open spec fn unquoted(s: Seq<char>) -> Seq<char> {
    if s.len() >= 2 && ((s[0] == '"' && s.last() == '"') || (s[0] == '\'' && s.last() == '\'')) {
        s.subrange(1, s.len() - 1)
    } else {
        s
    }
}

/// Strip one pair of matching surrounding quotes.
pub fn strip_optional_quotes(s: &Vec<char>) -> (r: Vec<char>)
    ensures
        r@ == unquoted(s@),
{
    let n = s.len();
    if n >= 2 && ((s[0] == '"' && s[n - 1] == '"') || (s[0] == '\'' && s[n - 1] == '\'')) {
        slice_chars(s, 1, n - 1)
    } else {
        slice_chars(s, 0, n)
    }
}

/// What one line of an env file says.
#[derive(Debug, Clone, PartialEq, Eq)]
pub enum EnvLine {
    /// Blank, a comment, or a blank key or value: nothing to set.
    Skip,
    /// No `=`: malformed.
    Malformed,
    /// A key and its value.
    Entry {
        /// The trimmed key.
        key: String,
        /// The trimmed, unquoted value.
        value: String,
    },
}

/// The reading of one line as plain values: `None` to skip,
/// `Some(None)` when malformed, `Some(Some((key, value)))` for an entry.
pub open spec fn env_line(raw: Seq<char>) -> Option<Option<(Seq<char>, Seq<char>)>> {
    let line = trim(raw);
    if line.len() == 0 || line[0] == '#' {
        None
    } else {
        match first_index_of(line, '=') {
            None => Some(None),
            Some(i) => {
                let key = trim(line.take(i));
                let value = unquoted(trim(line.skip(i + 1)));
                if key.len() == 0 || value.len() == 0 { None } else { Some(Some((key, value))) }
            },
        }
    }
}

/// The view of a parsed line.
pub open spec fn env_line_view(l: EnvLine) -> Option<Option<(Seq<char>, Seq<char>)>> {
    match l {
        EnvLine::Skip => None,
        EnvLine::Malformed => Some(None),
        EnvLine::Entry { key, value } => Some(Some((key@, value@))),
    }
}

/// Read one line of an env file.
pub fn parse_env_line(raw: &Vec<char>) -> (r: EnvLine)
    ensures
        env_line_view(r) == env_line(raw@),
{
    let line = trim_chars(raw);
    if line.len() == 0 || line[0] == '#' {
        return EnvLine::Skip;
    }
    match find_char_from(&line, '=', 0) {
        None => {
            proof {
                assert(line@.skip(0) =~= line@);
            }
            EnvLine::Malformed
        },
        Some(i) => {
            proof {
                assert(line@.skip(0) =~= line@);
            }
            let k = slice_chars(&line, 0, i);
            let v = slice_chars(&line, i + 1, line.len());
            proof {
                assert(k@ =~= line@.take(i as int));
                assert(v@ =~= line@.skip(i + 1));
            }
            let key = trim_chars(&k);
            let vt = trim_chars(&v);
            let value = strip_optional_quotes(&vt);
            if key.len() == 0 || value.len() == 0 {
                EnvLine::Skip
            } else {
                EnvLine::Entry { key: string_from_chars(&key), value: string_from_chars(&value) }
            }
        },
    }
}

/// The entries among the first `n` lines, in order.
pub open spec fn env_entries(lines: Seq<Seq<char>>, n: int) -> Seq<(Seq<char>, Seq<char>)>
    decreases n,
{
    if n <= 0 {
        seq![]
    } else {
        let rest = env_entries(lines, n - 1);
        match env_line(lines[n - 1]) {
            Some(Some(e)) => rest.push(e),
            _ => rest,
        }
    }
}

/// The malformed line numbers (1-based) among the first `n` lines.
pub open spec fn env_malformed(lines: Seq<Seq<char>>, n: int) -> Seq<int>
    decreases n,
{
    if n <= 0 {
        seq![]
    } else {
        let rest = env_malformed(lines, n - 1);
        match env_line(lines[n - 1]) {
            Some(None) => rest.push(n),
            _ => rest,
        }
    }
}

/// The entries of an env file, in order, and the numbers of its
/// malformed lines.
pub fn parse_env_text(text: &str) -> (r: (Vec<(String, String)>, Vec<usize>))
    ensures
        r.0@.len() == env_entries(lines_spec(text@), lines_spec(text@).len() as int).len(),
        forall|i: int| 0 <= i < r.0@.len() ==> (#[trigger] r.0@[i]).0@ == env_entries(lines_spec(text@), lines_spec(text@).len() as int)[i].0
            && r.0@[i].1@ == env_entries(lines_spec(text@), lines_spec(text@).len() as int)[i].1,
        r.1@.len() == env_malformed(lines_spec(text@), lines_spec(text@).len() as int).len(),
        forall|i: int| 0 <= i < r.1@.len() ==> (#[trigger] r.1@[i]) as int == env_malformed(lines_spec(text@), lines_spec(text@).len() as int)[i],
{
    let cs = chars_of(text);
    let lines = lines_of(&cs);
    let ghost ls = lines_spec(text@);
    let mut entries: Vec<(String, String)> = Vec::new();
    let mut bad: Vec<usize> = Vec::new();
    let mut i: usize = 0;
    while i < lines.len()
        invariant
            i <= lines@.len(),
            lines@.len() == ls.len(),
            forall|j: int| 0 <= j < lines@.len() ==> (#[trigger] lines@[j])@ == ls[j],
            entries@.len() == env_entries(ls, i as int).len(),
            forall|j: int| 0 <= j < entries@.len() ==> (#[trigger] entries@[j]).0@ == env_entries(ls, i as int)[j].0
                && entries@[j].1@ == env_entries(ls, i as int)[j].1,
            bad@.len() == env_malformed(ls, i as int).len(),
            forall|j: int| 0 <= j < bad@.len() ==> (#[trigger] bad@[j]) as int == env_malformed(ls, i as int)[j],
        decreases lines@.len() - i,
    {
        let l = parse_env_line(&lines[i]);
        proof {
            assert(lines@[i as int]@ == ls[i as int]);
        }
        match l {
            EnvLine::Entry { key, value } => {
                entries.push((key, value));
            },
            EnvLine::Malformed => {
                bad.push(i + 1);
            },
            EnvLine::Skip => {},
        }
        i = i + 1;
    }
    (entries, bad)
}

/// The env files looked for, highest precedence first: an explicit
/// override, `russell.env` in the config directory, `.env` at the
/// repository root when one was found, and `.env` in the working
/// directory.
pub open spec fn env_candidates(config_dir: Seq<char>, override_path: Option<Seq<char>>, repo_root: Option<Seq<char>>) -> Seq<Seq<char>> {
    let a: Seq<Seq<char>> = match override_path {
        Some(p) => seq![p],
        None => seq![],
    };
    let b = a.push(path_join(config_dir, "russell.env"@));
    let c = match repo_root {
        Some(r) => b.push(path_join(r, ".env"@)),
        None => b,
    };
    c.push(".env"@)
}

/// The env files to look for, highest precedence first.
pub fn env_file_candidates(config_dir: &str, override_path: Option<&str>, repo_root: Option<&str>) -> (r: Vec<String>)
    ensures
        r@.len() == env_candidates(config_dir@, match override_path {
            Some(p) => Some(p@),
            None => None,
        }, match repo_root {
            Some(p) => Some(p@),
            None => None,
        }).len(),
        forall|i: int| 0 <= i < r@.len() ==> (#[trigger] r@[i])@ == env_candidates(config_dir@, match override_path {
            Some(p) => Some(p@),
            None => None,
        }, match repo_root {
            Some(p) => Some(p@),
            None => None,
        })[i],
{
    let mut v: Vec<String> = Vec::new();
    match override_path {
        Some(p) => v.push(p.to_owned()),
        None => {},
    }
    v.push(join(config_dir, "russell.env"));
    match repo_root {
        Some(r) => v.push(join(r, ".env")),
        None => {},
    }
    v.push(".env".to_owned());
    v
}

} // verus!
