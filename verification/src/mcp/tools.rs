//! The decisions of Russell's read-only MCP tools: the time window a
//! request covers, how many events it may return, which events a query
//! keeps, which probes a history shows, and the overall health label.
//! Reading the journal and writing the JSON replies is the server's.

use vstd::prelude::*;
use crate::event::{scope_named, severity_named, severity_rank, Scope, Severity};
use crate::journal::{EventRow, SeverityCounts};
use crate::text::{chars_of, contains_chars, contains_seq};

verus! {

/// Hours a request covers when it names none.
pub const DEFAULT_WINDOW_HOURS: u32 = 24;

/// Events returned when a request names no limit.
pub const DEFAULT_EVENT_LIMIT: usize = 20;

/// The most events a request may ask for.
pub const MAX_EVENT_LIMIT: usize = 100;

/// The most events a query returns.
pub const MAX_QUERY_EVENTS: usize = 50;

/// The hours of a request's window and its first second, at `now`.
pub fn tool_window(hours: Option<u32>, now: i64) -> (r: (u32, i64))
    requires
        now >= i64::MIN + u32::MAX as int * 3600,
    ensures
        r.0 == match hours {
            Some(h) => h,
            None => DEFAULT_WINDOW_HOURS,
        },
        r.1 == now - r.0 as int * 3600,
{
    let h = match hours {
        Some(h) => h,
        None => DEFAULT_WINDOW_HOURS,
    };
    (h, now - h as i64 * 3600)
}

/// How many recent events to return: the requested number, 20 when none
/// was requested, never more than 100.
pub fn recent_limit(limit: Option<usize>) -> (r: usize)
    ensures
        r == ({
            let l = match limit {
                Some(l) => l,
                None => DEFAULT_EVENT_LIMIT,
            };
            if l < MAX_EVENT_LIMIT { l } else { MAX_EVENT_LIMIT }
        }),
{
    let l = match limit {
        Some(l) => l,
        None => DEFAULT_EVENT_LIMIT,
    };
    if l < MAX_EVENT_LIMIT {
        l
    } else {
        MAX_EVENT_LIMIT
    }
}

/// An event passes a query: its severity is at least `min`, and its
/// scope is `scope` when one is given.
pub open spec fn query_keeps(e: EventRow, min: Severity, scope: Option<Scope>) -> bool {
    severity_rank(e.severity) >= severity_rank(min) && match scope {
        Some(s) => e.scope == s,
        None => true,
    }
}

/// The indices of the first `n` rows a query keeps among the first `k`.
pub open spec fn kept_indices(rows: Seq<EventRow>, min: Severity, scope: Option<Scope>, k: int, n: nat) -> Seq<int>
    decreases k,
{
    if k <= 0 {
        seq![]
    } else {
        let prev = kept_indices(rows, min, scope, k - 1, n);
        if prev.len() < n && query_keeps(rows[k - 1], min, scope) { prev.push(k - 1) } else { prev }
    }
}

/// The threshold a query names: the severity called `min_severity`,
/// `info` when none or no severity is named.
pub open spec fn query_min(min_severity: Option<Seq<char>>) -> Severity {
    match min_severity {
        Some(s) => match severity_named(s) {
            Some(v) => v,
            None => Severity::Info,
        },
        None => Severity::Info,
    }
}

/// The scope a query names, if it names one.
pub open spec fn query_scope(scope: Option<Seq<char>>) -> Option<Scope> {
    match scope {
        Some(s) => scope_named(s),
        None => None,
    }
}

/// The positions, in order, of the events a journal query returns: the
/// first 50 whose severity is at least `min_severity` (`info` when it
/// is missing or names no severity) and, when `scope` names a scope, of
/// that scope.
pub fn query_event_indices(rows: &[EventRow], min_severity: Option<&str>, scope: Option<&str>) -> (r: Vec<usize>)
    ensures
        r@.len() == kept_indices(
            rows@,
            query_min(match min_severity { Some(s) => Some(s@), None => None }),
            query_scope(match scope { Some(s) => Some(s@), None => None }),
            rows@.len() as int,
            MAX_QUERY_EVENTS as nat,
        ).len(),
        forall|i: int| 0 <= i < r@.len() ==> r@[i] as int == kept_indices(
            rows@,
            query_min(match min_severity { Some(s) => Some(s@), None => None }),
            query_scope(match scope { Some(s) => Some(s@), None => None }),
            rows@.len() as int,
            MAX_QUERY_EVENTS as nat,
        )[i],
{
    let min = match min_severity {
        Some(s) => match Severity::parse(s) {
            Some(v) => v,
            None => Severity::Info,
        },
        None => Severity::Info,
    };
    let sc = match scope {
        Some(s) => Scope::parse(s),
        None => None,
    };
    let ghost n: nat = MAX_QUERY_EVENTS as nat;
    let mut out: Vec<usize> = Vec::new();
    let mut k: usize = 0;
    while k < rows.len()
        invariant
            k <= rows@.len(),
            out@.len() == kept_indices(rows@, min, sc, k as int, n).len(),
            forall|i: int| 0 <= i < out@.len() ==> out@[i] as int == kept_indices(rows@, min, sc, k as int, n)[i],
            n == MAX_QUERY_EVENTS,
        decreases rows@.len() - k,
    {
        let e = &rows[k];
        let keep = e.severity.rank() >= min.rank() && match sc {
            Some(s) => e.scope == s,
            None => true,
        };
        if out.len() < MAX_QUERY_EVENTS && keep {
            out.push(k);
        }
        k = k + 1;
    }
    out
}

/// A probe is shown when no filter is given or its name contains the
/// filter.
pub open spec fn probe_shown(probe: Seq<char>, filter: Option<Seq<char>>) -> bool {
    match filter {
        Some(f) => contains_seq(probe, f),
        None => true,
    }
}

/// Whether a probe history shows `probe`.
pub fn probe_matches(probe: &str, filter: Option<&str>) -> (r: bool)
    ensures
        r == probe_shown(probe@, match filter { Some(f) => Some(f@), None => None }),
{
    match filter {
        Some(f) => contains_chars(&chars_of(probe), &chars_of(f)),
        None => true,
    }
}

/// The overall health label of a window's counts: `critical`, `alert`
/// or `warn` for the worst severity seen, else `healthy`.
pub open spec fn health_label(c: SeverityCounts) -> Seq<char> {
    if c.crit > 0 {
        "critical"@
    } else if c.alert > 0 {
        "alert"@
    } else if c.warn > 0 {
        "warn"@
    } else {
        "healthy"@
    }
}

/// The overall health label of a window's counts.
pub fn health_status_label(counts: &SeverityCounts) -> (r: &'static str)
    ensures
        r@ == health_label(*counts),
{
    if counts.crit > 0 {
        "critical"
    } else if counts.alert > 0 {
        "alert"
    } else if counts.warn > 0 {
        "warn"
    } else {
        "healthy"
    }
}

} // verus!
