//! Filesystem layout: XDG-style config / state / data roots and the
//! files and directories under them.

use vstd::prelude::*;
use crate::error::CoreError;
use crate::text::{chars_of, push_str, string_from_chars};

verus! {

/// `base` joined with `p` as `PathBuf::join` does it: an absolute `p`
/// replaces `base`; otherwise `p` follows `base`, with a `/` between
/// unless `base` is empty or already ends in `/`.
pub open spec fn path_join(base: Seq<char>, p: Seq<char>) -> Seq<char> {
    if p.len() > 0 && p[0] == '/' {
        p
    } else if base.len() == 0 || base.last() == '/' {
        base + p
    } else {
        base + seq!['/'] + p
    }
}

/// `PathBuf::join` on text paths.
pub fn join(base: &str, p: &str) -> (r: String)
    ensures
        r@ == path_join(base@, p@),
{
    let pc = chars_of(p);
    if pc.len() > 0 && pc[0] == '/' {
        return p.to_owned();
    }
    let mut out = chars_of(base);
    if out.len() > 0 && out[out.len() - 1] != '/' {
        out.push('/');
    }
    let ghost o1 = out@;
    push_str(&mut out, p);
    proof {
        if base@.len() == 0 || base@.last() == '/' {
            assert(o1 == base@);
        } else {
            assert(o1 == base@ + seq!['/']);
            assert(out@ =~= base@ + seq!['/'] + p@);
        }
    }
    string_from_chars(&out)
}

/// Where Russell reads and writes.
#[derive(Debug, Clone)]
pub struct Paths {
    /// Config root, e.g. `~/.config/harness`.
    pub config: String,
    /// State root (journal, runs, evidence), e.g. `~/.local/state/harness`.
    pub state: String,
    /// Data root (installed skills), e.g. `~/.local/share/harness`.
    pub data: String,
}

/// An XDG base directory: the variable's value when set and non-empty,
/// else `home` joined with the fallback.
pub open spec fn xdg_base(home: Seq<char>, var: Option<Seq<char>>, fallback: Seq<char>) -> Seq<char> {
    match var {
        Some(v) => if v.len() > 0 { v } else { path_join(home, fallback) },
        None => path_join(home, fallback),
    }
}

/// `xdg_or`: the variable's value when set and non-empty, else
/// `home/fallback`.
pub fn xdg_or(home: &str, var: &Option<String>, fallback: &str) -> (r: String)
    ensures
        r@ == xdg_base(home@, match var { Some(v) => Some(v@), None => None }, fallback@),
{
    match var {
        Some(v) => {
            if !v.as_str().is_empty() {
                v.clone()
            } else {
                join(home, fallback)
            }
        },
        None => join(home, fallback),
    }
}

/// `Some(v@)` for `Some(v)`.
pub open spec fn opt_string_view(o: Option<String>) -> Option<Seq<char>> {
    match o {
        Some(v) => Some(v@),
        None => None,
    }
}

impl Paths {
    /// The roots from `$HOME` and the values of `XDG_CONFIG_HOME`,
    /// `XDG_STATE_HOME` and `XDG_DATA_HOME` (`None` when unset): each
    /// base with `harness` under it. Without `HOME`, a base-path error.
    pub fn from_env_values(
        home: Option<String>,
        xdg_config: Option<String>,
        xdg_state: Option<String>,
        xdg_data: Option<String>,
    ) -> (r: Result<Paths, CoreError>)
        ensures
            match home {
                None => r matches Err(CoreError::BasePath(m)) && m@ == seq!['H', 'O', 'M', 'E', ' ', 'n', 'o', 't', ' ', 's', 'e', 't'],
                Some(h) => r matches Ok(p) && {
                    &&& p.config@ == path_join(xdg_base(h@, opt_string_view(xdg_config), ".config"@), "harness"@)
                    &&& p.state@ == path_join(xdg_base(h@, opt_string_view(xdg_state), ".local/state"@), "harness"@)
                    &&& p.data@ == path_join(xdg_base(h@, opt_string_view(xdg_data), ".local/share"@), "harness"@)
                },
            },
    {
        match home {
            None => {
                proof {
                    reveal_strlit("HOME not set");
                    assert("HOME not set"@ =~= seq!['H', 'O', 'M', 'E', ' ', 'n', 'o', 't', ' ', 's', 'e', 't']);
                }
                Err(CoreError::BasePath("HOME not set".to_owned()))
            },
            Some(h) => {
                let config = xdg_or(h.as_str(), &xdg_config, ".config");
                let state = xdg_or(h.as_str(), &xdg_state, ".local/state");
                let data = xdg_or(h.as_str(), &xdg_data, ".local/share");
                Ok(Paths {
                    config: join(config.as_str(), "harness"),
                    state: join(state.as_str(), "harness"),
                    data: join(data.as_str(), "harness"),
                })
            },
        }
    }

    /// Roots all three under `base` (`base/config/harness`,
    /// `base/state/harness`, `base/data/harness`); for tests and
    /// sandboxed runs.
    pub fn rooted(base: &str) -> (r: Paths)
        ensures
            r.config@ == path_join(base@, "config/harness"@),
            r.state@ == path_join(base@, "state/harness"@),
            r.data@ == path_join(base@, "data/harness"@),
    {
        Paths {
            config: join(base, "config/harness"),
            state: join(base, "state/harness"),
            data: join(base, "data/harness"),
        }
    }

    /// The host profile file.
    pub fn profile(&self) -> (r: String)
        ensures
            r@ == path_join(self.state@, "profile.json"@),
    {
        join(self.state.as_str(), "profile.json")
    }

    /// The SQLite journal.
    pub fn journal(&self) -> (r: String)
        ensures
            r@ == path_join(self.state@, "journal.db"@),
    {
        join(self.state.as_str(), "journal.db")
    }

    /// The kill-switch sentinel file: while it exists, mutating actions
    /// are refused.
    pub fn kill_switch(&self) -> (r: String)
        ensures
            r@ == path_join(self.config@, "disable"@),
    {
        join(self.config.as_str(), "disable")
    }

    /// Per-run directories.
    pub fn runs(&self) -> (r: String)
        ensures
            r@ == path_join(self.state@, "runs"@),
    {
        join(self.state.as_str(), "runs")
    }

    /// Evidence bundles.
    pub fn evidence(&self) -> (r: String)
        ensures
            r@ == path_join(self.state@, "evidence"@),
    {
        join(self.state.as_str(), "evidence")
    }

    /// Proposals awaiting approval.
    pub fn proposals(&self) -> (r: String)
        ensures
            r@ == path_join(self.state@, "proposals"@),
    {
        join(self.state.as_str(), "proposals")
    }

    /// Digest outputs.
    pub fn digest_dir(&self) -> (r: String)
        ensures
            r@ == path_join(self.state@, "digest"@),
    {
        join(self.state.as_str(), "digest")
    }

    /// Installed skills.
    pub fn skills(&self) -> (r: String)
        ensures
            r@ == path_join(self.data@, "skills"@),
    {
        join(self.data.as_str(), "skills")
    }

    /// Rule files.
    pub fn rules(&self) -> (r: String)
        ensures
            r@ == path_join(self.config@, "rules.d"@),
    {
        join(self.config.as_str(), "rules.d")
    }

    /// Memory root.
    pub fn memory_dir(&self) -> (r: String)
        ensures
            r@ == path_join(self.state@, "memory"@),
    {
        join(self.state.as_str(), "memory")
    }

    /// Daily memory notes.
    pub fn memory_daily_dir(&self) -> (r: String)
        ensures
            r@ == path_join(path_join(self.state@, "memory"@), "daily"@),
    {
        let m = join(self.state.as_str(), "memory");
        join(m.as_str(), "daily")
    }

    /// The operator's `USER.md`.
    pub fn user_md(&self) -> (r: String)
        ensures
            r@ == path_join(self.config@, "USER.md"@),
    {
        join(self.config.as_str(), "USER.md")
    }

    /// The persona file `PERSONA.md`.
    pub fn persona_md(&self) -> (r: String)
        ensures
            r@ == path_join(self.config@, "PERSONA.md"@),
    {
        join(self.config.as_str(), "PERSONA.md")
    }

    /// The directories `ensure_dirs` creates, in order: the three roots,
    /// then runs, evidence, proposals, digest, skills, rules, memory and
    /// daily memory.
    pub fn dirs_to_ensure(&self) -> (r: Vec<String>)
        ensures
            r@.len() == 11,
            r@[0]@ == self.config@,
            r@[1]@ == self.state@,
            r@[2]@ == self.data@,
            r@[3]@ == path_join(self.state@, "runs"@),
            r@[4]@ == path_join(self.state@, "evidence"@),
            r@[5]@ == path_join(self.state@, "proposals"@),
            r@[6]@ == path_join(self.state@, "digest"@),
            r@[7]@ == path_join(self.data@, "skills"@),
            r@[8]@ == path_join(self.config@, "rules.d"@),
            r@[9]@ == path_join(self.state@, "memory"@),
            r@[10]@ == path_join(path_join(self.state@, "memory"@), "daily"@),
    {
        let mut v: Vec<String> = Vec::new();
        v.push(self.config.clone());
        v.push(self.state.clone());
        v.push(self.data.clone());
        v.push(self.runs());
        v.push(self.evidence());
        v.push(self.proposals());
        v.push(self.digest_dir());
        v.push(self.skills());
        v.push(self.rules());
        v.push(self.memory_dir());
        v.push(self.memory_daily_dir());
        v
    }
}

} // verus!
