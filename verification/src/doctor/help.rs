//! The help session's decisions: whether the LLM is called at all,
//! what a call's outcome becomes, and how the session is recorded.
//!
//! The caller runs the pipeline: it gathers the journal snapshot,
//! performs the backend call the plan asks for, hands back its
//! outcome, and writes the records these functions compose.

use vstd::prelude::*;
use crate::doctor::client::{backend_label, Backend};
use crate::journal::{status_name, HelpSessionStatus};
use crate::meta::sanitizer::byte_len;
use crate::text::{dec_nat, push_dec_u64, push_str, string_from_chars, trim, trim_str};
use crate::time::{civil_of, iso_date};

verus! {

/// Why the LLM was not called.
#[derive(Debug, Clone, Copy, PartialEq, Eq, Structural)]
pub enum SkipReason {
    /// The backend was unreachable or unconfigured; the offline
    /// fallback answered.
    OfflineFallback,
    /// Nothing reached the escalation threshold; a rule-based summary
    /// answered.
    ThresholdSkip,
}

/// Outcome of one help session.
#[derive(Debug)]
pub struct HelpOutcome {
    /// Session ID (ULID).
    pub session_id: String,
    /// Backend used — `offline` when the fallback answered.
    pub backend: &'static str,
    /// Path to the evidence bundle on disk.
    pub evidence_dir: std::path::PathBuf,
    /// The response text.
    pub response: String,
    /// Why the LLM was skipped; `None` when it was called.
    pub skip_reason: Option<SkipReason>,
}

/// What the dispatch stage does.
#[derive(Debug, Clone, Copy, PartialEq, Eq, Structural)]
pub enum DispatchPlan {
    /// Answer with the offline summary, for this reason.
    Summarise(SkipReason),
    /// Call this backend.
    Call(Backend),
}

/// Below the escalation threshold nothing is called; the offline
/// backend is never called; any other backend is.
pub open spec fn dispatch_plan(escalate: bool, backend: Backend) -> DispatchPlan {
    if !escalate {
        DispatchPlan::Summarise(SkipReason::ThresholdSkip)
    } else if backend == Backend::Offline {
        DispatchPlan::Summarise(SkipReason::OfflineFallback)
    } else {
        DispatchPlan::Call(backend)
    }
}

/// Decide what the dispatch stage does.
pub fn plan_dispatch(escalate: bool, backend: Backend) -> (r: DispatchPlan)
    ensures
        r == dispatch_plan(escalate, backend),
{
    if !escalate {
        DispatchPlan::Summarise(SkipReason::ThresholdSkip)
    } else {
        match backend {
            Backend::Offline => DispatchPlan::Summarise(SkipReason::OfflineFallback),
            _ => DispatchPlan::Call(backend),
        }
    }
}

/// Default Okapi base URL.
pub const OKAPI_DEFAULT_BASE_URL: &'static str = "http://127.0.0.1:11435/v1";

/// Default Okapi API key.
pub const OKAPI_DEFAULT_API_KEY: &'static str = "okapi";

/// The base URL and API key an Okapi call uses: the configured ones,
/// else the defaults.
pub fn okapi_settings(base_url: Option<String>, api_key: Option<String>) -> (r: (String, String))
    ensures
        r.0@ == match base_url {
            Some(u) => u@,
            None => OKAPI_DEFAULT_BASE_URL@,
        },
        r.1@ == match api_key {
            Some(k) => k@,
            None => OKAPI_DEFAULT_API_KEY@,
        },
{
    let u = match base_url {
        Some(u) => u,
        None => OKAPI_DEFAULT_BASE_URL.to_owned(),
    };
    let k = match api_key {
        Some(k) => k,
        None => OKAPI_DEFAULT_API_KEY.to_owned(),
    };
    (u, k)
}

/// What a backend call gave back.
#[derive(Debug, Clone)]
pub enum CallOutcome {
    /// The model answered.
    Answered {
        /// The reply text.
        content: String,
        /// Round-trip latency in milliseconds.
        latency_ms: u64,
        /// The model that answered, if reported.
        model: Option<String>,
    },
    /// The call failed; the error's short tag.
    Failed {
        /// The `error_kind` tag of the failure.
        error_kind: String,
    },
}

/// What the dispatch stage hands to the persistence stage.
#[derive(Debug, Clone)]
pub struct DispatchResult {
    /// Backend label for the journal.
    pub backend_label: &'static str,
    /// The text Jack prints.
    pub response: String,
    /// Model that answered, if any.
    pub model: Option<String>,
    /// Latency of the call, if it answered.
    pub latency_ms: Option<i64>,
    /// Tag of the call's failure, if it failed.
    pub error_kind: Option<String>,
    /// Why the LLM's answer is not what is printed, if it is not.
    pub skip_reason: Option<SkipReason>,
}

/// The dispatch result when nothing was called.
pub fn summarised(reason: SkipReason, offline_summary: String) -> (r: DispatchResult)
    ensures
        r.backend_label@ == "offline"@,
        r.response@ == offline_summary@,
        r.model is None,
        r.latency_ms is None,
        r.error_kind is None,
        r.skip_reason == Some(reason),
{
    DispatchResult {
        backend_label: "offline",
        response: offline_summary,
        model: None,
        latency_ms: None,
        error_kind: None,
        skip_reason: Some(reason),
    }
}

/// The dispatch result of a call to `backend`: its answer, or the
/// offline summary with the failure's tag.
pub fn conclude_dispatch(backend: Backend, outcome: CallOutcome, offline_summary: String) -> (r: DispatchResult)
    ensures
        r.backend_label@ == backend_label(backend),
        match outcome {
            CallOutcome::Answered { content, latency_ms, model } => {
                &&& r.response@ == content@
                &&& r.model == model
                &&& r.latency_ms == Some(latency_ms as i64)
                &&& r.error_kind is None
                &&& r.skip_reason is None
            },
            CallOutcome::Failed { error_kind } => {
                &&& r.response@ == offline_summary@
                &&& r.model is None
                &&& r.latency_ms is None
                &&& r.error_kind == Some(error_kind)
                &&& r.skip_reason == Some(SkipReason::OfflineFallback)
            },
        },
{
    match outcome {
        CallOutcome::Answered { content, latency_ms, model } => DispatchResult {
            backend_label: backend.label(),
            response: content,
            model,
            latency_ms: Some(latency_ms as i64),
            error_kind: None,
            skip_reason: None,
        },
        CallOutcome::Failed { error_kind } => DispatchResult {
            backend_label: backend.label(),
            response: offline_summary,
            model: None,
            latency_ms: None,
            error_kind: Some(error_kind),
            skip_reason: Some(SkipReason::OfflineFallback),
        },
    }
}

/// The session status a skip reason records.
pub open spec fn status_for(skip: Option<SkipReason>) -> HelpSessionStatus {
    match skip {
        Some(SkipReason::OfflineFallback) => HelpSessionStatus::Fallback,
        Some(SkipReason::ThresholdSkip) => HelpSessionStatus::ThresholdSkip,
        None => HelpSessionStatus::Success,
    }
}

/// The session status a skip reason records.
pub fn session_status(skip: Option<SkipReason>) -> (r: HelpSessionStatus)
    ensures
        r == status_for(skip),
{
    match skip {
        Some(SkipReason::OfflineFallback) => HelpSessionStatus::Fallback,
        Some(SkipReason::ThresholdSkip) => HelpSessionStatus::ThresholdSkip,
        None => HelpSessionStatus::Success,
    }
}

/// The tag a skip reason is journaled under.
pub open spec fn skip_tag(s: SkipReason) -> Seq<char> {
    match s {
        SkipReason::OfflineFallback => "offline_fallback"@,
        SkipReason::ThresholdSkip => "threshold_skip"@,
    }
}

/// The tag a skip reason is journaled under.
pub fn skip_reason_tag(s: SkipReason) -> (r: &'static str)
    ensures
        r@ == skip_tag(s),
{
    match s {
        SkipReason::OfflineFallback => "offline_fallback",
        SkipReason::ThresholdSkip => "threshold_skip",
    }
}

/// `backend=B status=S chars=N`, N the response's length in bytes.
pub open spec fn event_summary_text(backend: Seq<char>, status: HelpSessionStatus, response: Seq<char>) -> Seq<char> {
    "backend="@ + backend + " status="@ + status_name(status) + " chars="@ + dec_nat(byte_len(response) as nat)
}

/// The summary of the session's journal event.
pub fn help_event_summary(backend: &str, status: HelpSessionStatus, response: &str) -> (r: String)
    ensures
        r@ == event_summary_text(backend@, status, response@),
{
    let mut out: Vec<char> = Vec::new();
    push_str(&mut out, "backend=");
    push_str(&mut out, backend);
    push_str(&mut out, " status=");
    push_str(&mut out, status.as_str());
    push_str(&mut out, " chars=");
    push_dec_u64(&mut out, response.len() as u64);
    proof {
        assert(out@ =~= event_summary_text(backend@, status, response@));
    }
    string_from_chars(&out)
}

/// The daily-log line of a session: `- [ID] — NOTE [STATUS]`, with
/// `(no note)` when the note is missing or blank.
pub open spec fn session_note_text(session_id: Seq<char>, note: Option<Seq<char>>, status: Seq<char>) -> Seq<char> {
    let summary = match note {
        Some(n) => if trim(n).len() > 0 { n + " ["@ + status + "]"@ } else { "(no note) ["@ + status + "]"@ },
        None => "(no note) ["@ + status + "]"@,
    };
    "- ["@ + session_id + "] — "@ + summary + "\n"@
}

/// The daily-log line of a session.
pub fn session_note_line(session_id: &str, note: Option<&str>, status: &str) -> (r: String)
    ensures
        r@ == session_note_text(session_id@, match note {
            Some(n) => Some(n@),
            None => None,
        }, status@),
{
    let mut out: Vec<char> = Vec::new();
    push_str(&mut out, "- [");
    push_str(&mut out, session_id);
    push_str(&mut out, "] — ");
    let ghost h = out@;
    let blank = match note {
        Some(n) => trim_str(n).as_str().is_empty(),
        None => true,
    };
    if blank {
        push_str(&mut out, "(no note) [");
    } else {
        match note {
            Some(n) => push_str(&mut out, n),
            None => {},
        }
        push_str(&mut out, " [");
    }
    push_str(&mut out, status);
    push_str(&mut out, "]");
    push_str(&mut out, "\n");
    proof {
        assert(out@ =~= session_note_text(session_id@, match note {
            Some(n) => Some(n@),
            None => None,
        }, status@));
    }
    string_from_chars(&out)
}

/// First and last second the calendar handles (years 1..=9999 and the
/// proleptic years down to -9999).
pub const FIRST_DATED_SECOND: i64 = -377705116800;

/// Last second the calendar handles.
pub const LAST_DATED_SECOND: i64 = 253402300799;

/// The daily log's file name for the UTC day of `secs`:
/// `YYYY-MM-DD.md`; none outside the calendar's range.
pub open spec fn daily_note_text(secs: int) -> Option<Seq<char>> {
    if FIRST_DATED_SECOND <= secs <= LAST_DATED_SECOND {
        let c = civil_of(secs / 86400 + 719468);
        Some(iso_date(c.0, c.1, c.2) + ".md"@)
    } else {
        None
    }
}

/// The daily log's file name for the UTC day of `secs`.
pub fn daily_note_name(secs: i64) -> (r: Option<String>)
    ensures
        match daily_note_text(secs as int) {
            Some(t) => r matches Some(s) && s@ == t,
            None => r is None,
        },
{
    if secs < FIRST_DATED_SECOND || secs > LAST_DATED_SECOND {
        return None;
    }
    let days: i64 = if secs >= 0 {
        secs / 86400
    } else {
        let n: i64 = -secs;
        let q: i64 = (n + 86399) / 86400;
        proof {
            assert(-q == (secs as int) / 86400) by (nonlinear_arith)
                requires
                    n == -secs,
                    n > 0,
                    q == (n + 86399) / 86400,
            ;
        }
        -q
    };
    let (y, m, d) = crate::time::civil_from_days(days + crate::time::EPOCH_DAY_NUMBER);
    let date = crate::time::format_iso_date(y, m, d);
    let mut out: Vec<char> = crate::text::chars_of(date.as_str());
    push_str(&mut out, ".md");
    Some(string_from_chars(&out))
}

} // verus!
