//! `harness.event.v1` — the bands and scopes of the canonical structured
//! log record, and their journal names.

use vstd::prelude::*;
use crate::text::str_eq;

verus! {

/// Schema tag persisted on every event. Readers that do not recognise
/// the version refuse the record rather than silently downgrade.
pub const EVENT_SCHEMA: &'static str = "harness.event.v1";

/// Five-valued severity band used across journal events, ordered
/// `info < warn < alert < crit`.
#[derive(Debug, Clone, Copy, PartialEq, Eq, Structural, PartialOrd, Ord, Hash)]
pub enum Severity {
    /// Normal-state observation.
    Info,
    /// Soft threshold breach, baseline drift, or a condition to act on
    /// within the next cadence.
    Warn,
    /// Statistically significant anomaly; likely requires action.
    Alert,
    /// Known-dangerous hard threshold crossed; action now.
    Crit,
}

/// Event scope: the host machine, or Russell itself.
#[derive(Debug, Clone, Copy, PartialEq, Eq, Structural, Hash)]
pub enum Scope {
    /// Event is about the host machine.
    Host,
    /// Event is about Russell itself.
    Self_,
}

/// Journal name of a severity.
pub open spec fn severity_name(s: Severity) -> Seq<char> {
    match s {
        Severity::Info => seq!['i', 'n', 'f', 'o'],
        Severity::Warn => seq!['w', 'a', 'r', 'n'],
        Severity::Alert => seq!['a', 'l', 'e', 'r', 't'],
        Severity::Crit => seq!['c', 'r', 'i', 't'],
    }
}

/// The severity whose journal name is `s`, if any.
pub open spec fn severity_named(s: Seq<char>) -> Option<Severity> {
    if s == severity_name(Severity::Info) {
        Some(Severity::Info)
    } else if s == severity_name(Severity::Warn) {
        Some(Severity::Warn)
    } else if s == severity_name(Severity::Alert) {
        Some(Severity::Alert)
    } else if s == severity_name(Severity::Crit) {
        Some(Severity::Crit)
    } else {
        None
    }
}

/// Position of a severity in `info < warn < alert < crit`.
pub open spec fn severity_rank(s: Severity) -> u8 {
    match s {
        Severity::Info => 0,
        Severity::Warn => 1,
        Severity::Alert => 2,
        Severity::Crit => 3,
    }
}

/// Journal name of a scope.
pub open spec fn scope_name(s: Scope) -> Seq<char> {
    match s {
        Scope::Host => seq!['h', 'o', 's', 't'],
        Scope::Self_ => seq!['s', 'e', 'l', 'f'],
    }
}

/// The scope whose journal name is `s`, if any.
pub open spec fn scope_named(s: Seq<char>) -> Option<Scope> {
    if s == scope_name(Scope::Host) {
        Some(Scope::Host)
    } else if s == scope_name(Scope::Self_) {
        Some(Scope::Self_)
    } else {
        None
    }
}

proof fn lemma_severity_literals()
    ensures
        "info"@ == severity_name(Severity::Info),
        "warn"@ == severity_name(Severity::Warn),
        "alert"@ == severity_name(Severity::Alert),
        "crit"@ == severity_name(Severity::Crit),
{
    reveal_strlit("info");
    reveal_strlit("warn");
    reveal_strlit("alert");
    reveal_strlit("crit");
    assert("info"@ =~= severity_name(Severity::Info));
    assert("warn"@ =~= severity_name(Severity::Warn));
    assert("alert"@ =~= severity_name(Severity::Alert));
    assert("crit"@ =~= severity_name(Severity::Crit));
}

proof fn lemma_scope_literals()
    ensures
        "host"@ == scope_name(Scope::Host),
        "self"@ == scope_name(Scope::Self_),
{
    reveal_strlit("host");
    reveal_strlit("self");
    assert("host"@ =~= scope_name(Scope::Host));
    assert("self"@ =~= scope_name(Scope::Self_));
}

impl Severity {
    /// Lowercase journal name: `info`, `warn`, `alert` or `crit`.
    pub fn as_str(self) -> (r: &'static str)
        ensures
            r@ == severity_name(self),
    {
        proof {
            lemma_severity_literals();
        }
        match self {
            Severity::Info => "info",
            Severity::Warn => "warn",
            Severity::Alert => "alert",
            Severity::Crit => "crit",
        }
    }

    /// The severity named `s`, if `s` is one of the journal names.
    pub fn parse(s: &str) -> (r: Option<Severity>)
        ensures
            r == severity_named(s@),
    {
        proof {
            lemma_severity_literals();
        }
        if str_eq(s, "info") {
            Some(Severity::Info)
        } else if str_eq(s, "warn") {
            Some(Severity::Warn)
        } else if str_eq(s, "alert") {
            Some(Severity::Alert)
        } else if str_eq(s, "crit") {
            Some(Severity::Crit)
        } else {
            None
        }
    }

    /// Position in `info < warn < alert < crit`.
    pub fn rank(self) -> (r: u8)
        ensures
            r == severity_rank(self),
    {
        match self {
            Severity::Info => 0,
            Severity::Warn => 1,
            Severity::Alert => 2,
            Severity::Crit => 3,
        }
    }
}

impl Scope {
    /// Lowercase journal name: `host` or `self`.
    pub fn as_str(self) -> (r: &'static str)
        ensures
            r@ == scope_name(self),
    {
        proof {
            lemma_scope_literals();
        }
        match self {
            Scope::Host => "host",
            Scope::Self_ => "self",
        }
    }

    /// The scope named `s`, if `s` is one of the journal names.
    pub fn parse(s: &str) -> (r: Option<Scope>)
        ensures
            r == scope_named(s@),
    {
        proof {
            lemma_scope_literals();
        }
        if str_eq(s, "host") {
            Some(Scope::Host)
        } else if str_eq(s, "self") {
            Some(Scope::Self_)
        } else {
            None
        }
    }
}

impl Default for Scope {
    /// Events are about the host unless said otherwise.
    fn default() -> (r: Self)
        ensures
            r == Scope::Host,
    {
        Scope::Host
    }
}

/// Whether a record's schema tag is this build's.
pub fn schema_matches(schema: &str) -> (r: bool)
    ensures
        r == (schema@ == EVENT_SCHEMA@),
{
    str_eq(schema, EVENT_SCHEMA)
}

/// Reading back a written severity name gives the same severity.
pub proof fn lemma_severity_name_round_trip(s: Severity)
    ensures
        severity_named(severity_name(s)) == Some(s),
{
}

/// Reading back a written scope name gives the same scope.
pub proof fn lemma_scope_name_round_trip(s: Scope)
    ensures
        scope_named(scope_name(s)) == Some(s),
{
}

} // verus!
