//! The event journal's row shapes, help-session statuses, severity
//! tallies and schema migrations. The SQLite reads and writes
//! themselves live with the application.

use vstd::prelude::*;
use crate::error::CoreError;
use crate::event::{Scope, Severity, severity_name, severity_named};
use crate::text::str_eq;

verus! {

/// The four-valued outcome of a help session.
#[derive(Debug, Clone, Copy, PartialEq, Eq, Structural)]
pub enum HelpSessionStatus {
    /// LLM call succeeded.
    Success,
    /// LLM returned an error.
    Error,
    /// Offline fallback was engaged.
    Fallback,
    /// Below escalation threshold — rule-based summary.
    ThresholdSkip,
}

/// Journal name of a help-session status.
pub open spec fn status_name(s: HelpSessionStatus) -> Seq<char> {
    match s {
        HelpSessionStatus::Success => seq!['o', 'k'],
        HelpSessionStatus::Error => seq!['e', 'r', 'r', 'o', 'r'],
        HelpSessionStatus::Fallback => seq!['f', 'a', 'l', 'l', 'b', 'a', 'c', 'k'],
        HelpSessionStatus::ThresholdSkip => seq!['t', 'h', 'r', 'e', 's', 'h', 'o', 'l', 'd', '_', 's', 'k', 'i', 'p'],
    }
}

/// The status whose journal name is `s`, if any.
pub open spec fn status_named(s: Seq<char>) -> Option<HelpSessionStatus> {
    if s == status_name(HelpSessionStatus::Success) {
        Some(HelpSessionStatus::Success)
    } else if s == status_name(HelpSessionStatus::Error) {
        Some(HelpSessionStatus::Error)
    } else if s == status_name(HelpSessionStatus::Fallback) {
        Some(HelpSessionStatus::Fallback)
    } else if s == status_name(HelpSessionStatus::ThresholdSkip) {
        Some(HelpSessionStatus::ThresholdSkip)
    } else {
        None
    }
}

proof fn lemma_status_literals()
    ensures
        "ok"@ == status_name(HelpSessionStatus::Success),
        "error"@ == status_name(HelpSessionStatus::Error),
        "fallback"@ == status_name(HelpSessionStatus::Fallback),
        "threshold_skip"@ == status_name(HelpSessionStatus::ThresholdSkip),
{
    reveal_strlit("ok");
    reveal_strlit("error");
    reveal_strlit("fallback");
    reveal_strlit("threshold_skip");
    assert("ok"@ =~= status_name(HelpSessionStatus::Success));
    assert("error"@ =~= status_name(HelpSessionStatus::Error));
    assert("fallback"@ =~= status_name(HelpSessionStatus::Fallback));
    assert("threshold_skip"@ =~= status_name(HelpSessionStatus::ThresholdSkip));
}

impl HelpSessionStatus {
    /// Lowercase string for journal persistence.
    pub fn as_str(self) -> (r: &'static str)
        ensures
            r@ == status_name(self),
    {
        proof {
            lemma_status_literals();
        }
        match self {
            HelpSessionStatus::Success => "ok",
            HelpSessionStatus::Error => "error",
            HelpSessionStatus::Fallback => "fallback",
            HelpSessionStatus::ThresholdSkip => "threshold_skip",
        }
    }

    /// Parse a journal name; any other string is an invariant violation
    /// that names it.
    pub fn parse(s: &str) -> (r: Result<HelpSessionStatus, CoreError>)
        ensures
            match status_named(s@) {
                Some(st) => r == Ok::<HelpSessionStatus, CoreError>(st),
                None => r matches Err(CoreError::Invariant(m))
                    && m@ == seq!['u', 'n', 'k', 'n', 'o', 'w', 'n', ' ', 'h', 'e', 'l', 'p', ' ', 's', 'e', 's', 's', 'i', 'o', 'n', ' ', 's', 't', 'a', 't', 'u', 's', ':', ' '] + s@,
            },
    {
        proof {
            lemma_status_literals();
        }
        if str_eq(s, "ok") {
            Ok(HelpSessionStatus::Success)
        } else if str_eq(s, "error") {
            Ok(HelpSessionStatus::Error)
        } else if str_eq(s, "fallback") {
            Ok(HelpSessionStatus::Fallback)
        } else if str_eq(s, "threshold_skip") {
            Ok(HelpSessionStatus::ThresholdSkip)
        } else {
            let mut m = "unknown help session status: ".to_string();
            proof {
                reveal_strlit("unknown help session status: ");
            }
            m.append(s);
            Err(CoreError::Invariant(m))
        }
    }
}

impl std::str::FromStr for HelpSessionStatus {
    type Err = CoreError;

    fn from_str(s: &str) -> (r: Result<HelpSessionStatus, CoreError>)
        ensures
            match status_named(s@) {
                Some(st) => r == Ok::<HelpSessionStatus, CoreError>(st),
                None => r matches Err(CoreError::Invariant(m))
                    && m@ == seq!['u', 'n', 'k', 'n', 'o', 'w', 'n', ' ', 'h', 'e', 'l', 'p', ' ', 's', 'e', 's', 's', 'i', 'o', 'n', ' ', 's', 't', 'a', 't', 'u', 's', ':', ' '] + s@,
            },
    {
        HelpSessionStatus::parse(s)
    }
}

/// Reading back a written status name gives the same status.
pub proof fn lemma_status_name_round_trip(s: HelpSessionStatus)
    ensures
        status_named(status_name(s)) == Some(s),
{
}

/// Read-only journal handle anchored at a path. The file need not exist
/// yet; reads error if the journal is missing.
#[derive(Debug, Clone)]
pub struct JournalReader {
    path: String,
}

impl JournalReader {
    /// The path this reader is anchored at.
    pub closed spec fn path_spec(&self) -> Seq<char> {
        self.path@
    }

    /// Construct a reader anchored at `path`.
    pub fn new(path: String) -> (r: Self)
        ensures
            r.path_spec() == path@,
    {
        JournalReader { path }
    }

    /// The journal path this reader opens.
    pub fn path(&self) -> (r: &str)
        ensures
            r@ == self.path_spec(),
    {
        self.path.as_str()
    }
}

/// Named fields of one help-session row to write.
#[derive(Debug, Clone)]
pub struct HelpSessionInput<'a> {
    /// Unique session ID (ULID).
    pub id: &'a str,
    /// Unix timestamp of session start.
    pub ts_unix: i64,
    /// RFC 3339 timestamp.
    pub ts: &'a str,
    /// Backend name (`okapi`, `offline`, `mock`).
    pub backend: &'a str,
    /// Model name, if applicable.
    pub model: Option<&'a str>,
    /// Operator note or user message.
    pub note: Option<&'a str>,
    /// Character count of the prompt sent.
    pub prompt_chars: i64,
    /// Character count of the response received.
    pub response_chars: i64,
    /// LLM response latency in milliseconds.
    pub latency_ms: Option<i64>,
    /// Outcome status.
    pub status: HelpSessionStatus,
    /// Error category if `status` is `error`.
    pub error_kind: Option<&'a str>,
    /// Path to the evidence directory.
    pub evidence_ref: &'a str,
}

/// A single `events` row, in the shape digest and query consumers want.
#[derive(Debug, Clone)]
pub struct EventRow {
    /// ULID as string.
    pub id: String,
    /// RFC 3339 timestamp.
    pub ts: String,
    /// Severity band.
    pub severity: Severity,
    /// Scope: host vs. self.
    pub scope: Scope,
    /// Tier, if any.
    pub tier: Option<String>,
    /// Module, if any.
    pub module: Option<String>,
    /// Action verb.
    pub action: String,
    /// One-line summary, if any.
    pub summary: Option<String>,
    /// Evidence bundle path, if any.
    pub evidence_ref: Option<String>,
}

/// A `help_sessions` row.
#[derive(Debug, Clone)]
pub struct HelpSessionRow {
    /// ULID.
    pub id: String,
    /// Unix timestamp.
    pub ts_unix: i64,
    /// RFC 3339 timestamp.
    pub ts: String,
    /// Backend label.
    pub backend: String,
    /// Model, if any.
    pub model: Option<String>,
    /// Operator note.
    pub note: Option<String>,
    /// Prompt character count.
    pub prompt_chars: i64,
    /// Response character count.
    pub response_chars: i64,
    /// Round-trip latency (ms); `None` for offline.
    pub latency_ms: Option<i64>,
    /// Outcome status.
    pub status: HelpSessionStatus,
    /// Short error kind, if status is `error`.
    pub error_kind: Option<String>,
    /// Path to evidence bundle.
    pub evidence_ref: String,
}

/// Count of events by severity.
#[derive(Debug, Clone, PartialEq, Eq, Structural)]
pub struct SeverityCounts {
    /// `info`-severity rows.
    pub info: i64,
    /// `warn`-severity rows.
    pub warn: i64,
    /// `alert`-severity rows.
    pub alert: i64,
    /// `crit`-severity rows.
    pub crit: i64,
}

impl Default for SeverityCounts {
    /// All counts zero.
    fn default() -> (r: Self)
        ensures
            r.info == 0 && r.warn == 0 && r.alert == 0 && r.crit == 0,
    {
        SeverityCounts { info: 0, warn: 0, alert: 0, crit: 0 }
    }
}

/// Sum of the counts among the first `k` `(severity, count)` rows whose
/// severity name is `name`.
pub open spec fn tally_of(rows: Seq<(String, i64)>, name: Seq<char>, k: int) -> int
    decreases k,
{
    if k <= 0 {
        0
    } else {
        tally_of(rows, name, k - 1) + if rows[k - 1].0@ == name { rows[k - 1].1 as int } else { 0 }
    }
}

/// Every running sum for `name` fits in `i64`.
pub open spec fn tally_fits(rows: Seq<(String, i64)>, name: Seq<char>) -> bool {
    forall|k: int| 0 <= k <= rows.len() ==> i64::MIN <= #[trigger] tally_of(rows, name, k) <= i64::MAX
}

impl SeverityCounts {
    /// Fold `(severity, count)` rows, as a `GROUP BY severity` query
    /// returns them, into counts; rows of unknown severity are ignored.
    pub fn tally(rows: &[(String, i64)]) -> (r: SeverityCounts)
        requires
            tally_fits(rows@, severity_name(Severity::Info)),
            tally_fits(rows@, severity_name(Severity::Warn)),
            tally_fits(rows@, severity_name(Severity::Alert)),
            tally_fits(rows@, severity_name(Severity::Crit)),
        ensures
            r.info == tally_of(rows@, severity_name(Severity::Info), rows@.len() as int),
            r.warn == tally_of(rows@, severity_name(Severity::Warn), rows@.len() as int),
            r.alert == tally_of(rows@, severity_name(Severity::Alert), rows@.len() as int),
            r.crit == tally_of(rows@, severity_name(Severity::Crit), rows@.len() as int),
    {
        let mut counts = SeverityCounts::default();
        let mut i: usize = 0;
        while i < rows.len()
            invariant
                i <= rows@.len(),
                tally_fits(rows@, severity_name(Severity::Info)),
                tally_fits(rows@, severity_name(Severity::Warn)),
                tally_fits(rows@, severity_name(Severity::Alert)),
                tally_fits(rows@, severity_name(Severity::Crit)),
                counts.info == tally_of(rows@, severity_name(Severity::Info), i as int),
                counts.warn == tally_of(rows@, severity_name(Severity::Warn), i as int),
                counts.alert == tally_of(rows@, severity_name(Severity::Alert), i as int),
                counts.crit == tally_of(rows@, severity_name(Severity::Crit), i as int),
            decreases rows@.len() - i,
        {
            let n = rows[i].1;
            let sev = Severity::parse(rows[i].0.as_str());
            proof {
                let k = i as int + 1;
                assert(tally_of(rows@, severity_name(Severity::Info), k) <= i64::MAX);
                assert(tally_of(rows@, severity_name(Severity::Info), k) >= i64::MIN);
                assert(tally_of(rows@, severity_name(Severity::Warn), k) <= i64::MAX);
                assert(tally_of(rows@, severity_name(Severity::Warn), k) >= i64::MIN);
                assert(tally_of(rows@, severity_name(Severity::Alert), k) <= i64::MAX);
                assert(tally_of(rows@, severity_name(Severity::Alert), k) >= i64::MIN);
                assert(tally_of(rows@, severity_name(Severity::Crit), k) <= i64::MAX);
                assert(tally_of(rows@, severity_name(Severity::Crit), k) >= i64::MIN);
            }
            match sev {
                Some(Severity::Info) => counts.info = counts.info + n,
                Some(Severity::Warn) => counts.warn = counts.warn + n,
                Some(Severity::Alert) => counts.alert = counts.alert + n,
                Some(Severity::Crit) => counts.crit = counts.crit + n,
                None => {},
            }
            i = i + 1;
        }
        counts
    }
}

/// One schema migration of the journal.
#[derive(Debug, Clone, Copy)]
pub struct Migration {
    /// Monotonic version number.
    pub version: u32,
    /// Short slug.
    pub slug: &'static str,
}

/// The migration versions in order.
pub open spec fn migration_versions() -> Seq<u32> {
    seq![1u32]
}

/// All migrations, applied in ascending version order.
pub fn migrations() -> (r: Vec<Migration>)
    ensures
        r@.len() == migration_versions().len(),
        forall|i: int| 0 <= i < r@.len() ==> (#[trigger] r@[i]).version == migration_versions()[i],
{
    vec![Migration { version: 1, slug: "init" }]
}

/// The versions still to apply to a journal at version `applied`, in
/// order: those above it.
pub fn pending_versions(applied: u32) -> (r: Vec<u32>)
    ensures
        r@ == migration_versions().filter(|v: u32| v > applied),
{
    let ms = migrations();
    let mut out: Vec<u32> = Vec::new();
    let mut i: usize = 0;
    while i < ms.len()
        invariant
            i <= ms@.len(),
            ms@.len() == migration_versions().len(),
            forall|j: int| 0 <= j < ms@.len() ==> (#[trigger] ms@[j]).version == migration_versions()[j],
            out@ == migration_versions().take(i as int).filter(|v: u32| v > applied),
        decreases ms@.len() - i,
    {
        let v = ms[i].version;
        proof {
            reveal(Seq::filter);
            assert(migration_versions().take(i as int + 1).drop_last() =~= migration_versions().take(i as int));
        }
        if v > applied {
            out.push(v);
        }
        i = i + 1;
    }
    proof {
        assert(migration_versions().take(ms@.len() as int) =~= migration_versions());
    }
    out
}

} // verus!
