//! The meta help session's decisions: the threshold gate, the offline
//! summary, and what an inference reply becomes.
//!
//! The caller gathers the journal snapshot, posts it to the inference
//! endpoint when the threshold allows, and journals what these
//! functions decide.

use vstd::prelude::*;
use crate::event::{Scope, Severity};
use crate::journal::{EventRow, HelpSessionStatus, SeverityCounts};
use crate::text::{dec_int, push_dec_i64, push_str, string_from_chars};

verus! {

/// Why the LLM was not called.
#[derive(Debug, Clone, Copy, PartialEq, Eq, Structural)]
pub enum SkipReason {
    /// The backend was unreachable; the offline fallback answered.
    OfflineFallback,
    /// Nothing reached the escalation threshold; a rule-based summary
    /// answered.
    ThresholdSkip,
}

/// Outcome of one help session.
#[derive(Debug)]
pub struct HelpOutcome {
    /// Session ID (ULID).
    pub session_id: String,
    /// Backend used — `offline` when the fallback answered.
    pub backend: &'static str,
    /// Path to the evidence bundle on disk.
    pub evidence_dir: std::path::PathBuf,
    /// The response text.
    pub response: String,
    /// Why the LLM was skipped; `None` when it was called.
    pub skip_reason: Option<SkipReason>,
}

/// One recent event as the session reports it.
#[derive(Debug, Clone)]
pub struct EventRecord {
    /// The event's scope, as its variant name.
    pub probe: String,
    /// The event's severity, as its variant name.
    pub severity: String,
    /// The event's summary, empty when there is none.
    pub message: String,
    /// RFC 3339 timestamp.
    pub ts: String,
}

/// A severity's variant name.
pub open spec fn severity_label(s: Severity) -> Seq<char> {
    match s {
        Severity::Info => "Info"@,
        Severity::Warn => "Warn"@,
        Severity::Alert => "Alert"@,
        Severity::Crit => "Crit"@,
    }
}

/// A scope's variant name.
pub open spec fn scope_label(s: Scope) -> Seq<char> {
    match s {
        Scope::Host => "Host"@,
        Scope::Self_ => "Self_"@,
    }
}

/// The record of one journal row.
pub fn event_record(row: &EventRow) -> (r: EventRecord)
    ensures
        r.probe@ == scope_label(row.scope),
        r.severity@ == severity_label(row.severity),
        r.message@ == match row.summary {
            Some(s) => s@,
            None => Seq::empty(),
        },
        r.ts@ == row.ts@,
{
    let probe = match row.scope {
        Scope::Host => "Host".to_owned(),
        Scope::Self_ => "Self_".to_owned(),
    };
    let severity = match row.severity {
        Severity::Info => "Info".to_owned(),
        Severity::Warn => "Warn".to_owned(),
        Severity::Alert => "Alert".to_owned(),
        Severity::Crit => "Crit".to_owned(),
    };
    let message = match &row.summary {
        Some(s) => s.clone(),
        None => String::new(),
    };
    EventRecord { probe, severity, message, ts: row.ts.clone() }
}

/// The threshold gate: no skip when an alert or crit was seen.
pub open spec fn threshold_verdict(c: SeverityCounts) -> Option<SkipReason> {
    if c.crit > 0 || c.alert > 0 { None } else { Some(SkipReason::ThresholdSkip) }
}

/// The threshold gate: `None` to escalate, else why not.
pub fn check_threshold(counts: &SeverityCounts) -> (r: Option<SkipReason>)
    ensures
        r == threshold_verdict(*counts),
{
    if counts.crit > 0 || counts.alert > 0 {
        None
    } else {
        Some(SkipReason::ThresholdSkip)
    }
}

/// `  - [SEV] PROBE: MESSAGE`.
pub open spec fn record_line(e: EventRecord) -> Seq<char> {
    "  - ["@ + e.severity@ + "] "@ + e.probe@ + ": "@ + e.message@
}

/// The event lines of the first `n` records, each after a newline.
pub open spec fn record_lines(es: Seq<EventRecord>, n: int) -> Seq<char>
    decreases n,
{
    if n <= 0 { Seq::empty() } else { record_lines(es, n - 1) + "\n"@ + record_line(es[n - 1]) }
}

/// The offline summary: a heading, the counts, and the first ten
/// events, one per line.
pub open spec fn fallback_text(c: SeverityCounts, es: Seq<EventRecord>) -> Seq<char> {
    "## Russell Health Summary (Offline)\n\nSeverity: "@ + dec_int(c.crit as int) + " crit, "@ + dec_int(c.alert as int)
        + " alert, "@ + dec_int(c.warn as int) + " warn, "@ + dec_int(c.info as int) + " info\n\nRecent events:"@
        + record_lines(es, if es.len() < 10 { es.len() as int } else { 10 })
}

/// The offline summary of a snapshot.
pub fn fallback_summary(counts: &SeverityCounts, events: &[EventRecord]) -> (r: String)
    ensures
        r@ == fallback_text(*counts, events@),
{
    let mut out: Vec<char> = Vec::new();
    push_str(&mut out, "## Russell Health Summary (Offline)\n\nSeverity: ");
    push_dec_i64(&mut out, counts.crit);
    push_str(&mut out, " crit, ");
    push_dec_i64(&mut out, counts.alert);
    push_str(&mut out, " alert, ");
    push_dec_i64(&mut out, counts.warn);
    push_str(&mut out, " warn, ");
    push_dec_i64(&mut out, counts.info);
    push_str(&mut out, " info\n\nRecent events:");
    let ghost hd = out@;
    let n: usize = if events.len() < 10 { events.len() } else { 10 };
    let mut i: usize = 0;
    while i < n
        invariant
            n <= events@.len(),
            i <= n,
            out@ == hd + record_lines(events@, i as int),
        decreases n - i,
    {
        let e = &events[i];
        let ghost o0 = out@;
        push_str(&mut out, "\n");
        push_str(&mut out, "  - [");
        push_str(&mut out, e.severity.as_str());
        push_str(&mut out, "] ");
        push_str(&mut out, e.probe.as_str());
        push_str(&mut out, ": ");
        push_str(&mut out, e.message.as_str());
        proof {
            assert(out@ =~= o0 + "\n"@ + record_line(*e));
        }
        i = i + 1;
    }
    proof {
        assert(out@ =~= fallback_text(*counts, events@));
    }
    string_from_chars(&out)
}

/// What the inference endpoint gave back.
#[derive(Debug, Clone)]
pub enum InferenceReply {
    /// It could not be reached.
    Unreachable,
    /// It answered with a non-success status.
    NonSuccess,
    /// It answered; the `response` and `model` string fields of its
    /// JSON body, where present.
    Answered {
        /// The `response` field.
        response: Option<String>,
        /// The `model` field.
        model: Option<String>,
    },
}

/// Whether the endpoint's HTTP status counts as an answer (2xx); any
/// other status is a non-success reply.
pub fn answered_status(status: u16) -> (r: bool)
    ensures
        r == (200 <= status <= 299),
{
    200 <= status && status <= 299
}

/// What a session concludes from the endpoint's reply.
#[derive(Debug, Clone)]
pub struct ReplyConclusion {
    /// Backend label for the journal.
    pub backend: &'static str,
    /// Session status.
    pub status: HelpSessionStatus,
    /// The answer text, or `None` when the offline summary answers.
    pub text: Option<String>,
    /// The answering model, if reported.
    pub model: Option<String>,
    /// Why the LLM's answer is not used, if it is not.
    pub skip_reason: Option<SkipReason>,
}

/// Text used when the reply carries no `response` field.
pub const NO_RESPONSE_TEXT: &'static str = "No response from inference backend";

/// What a session concludes from the endpoint's reply: an unreachable
/// or failing endpoint falls back offline; an answer is used, with a
/// stock text when it has no `response` field.
pub fn conclude_reply(reply: InferenceReply) -> (r: ReplyConclusion)
    ensures
        match reply {
            InferenceReply::Answered { response, model } => {
                &&& r.backend@ == "okapi"@
                &&& r.status == HelpSessionStatus::Success
                &&& r.text matches Some(t) && t@ == match response {
                    Some(s) => s@,
                    None => NO_RESPONSE_TEXT@,
                }
                &&& r.model == model
                &&& r.skip_reason is None
            },
            _ => {
                &&& r.backend@ == "offline"@
                &&& r.status == HelpSessionStatus::Fallback
                &&& r.text is None
                &&& r.model is None
                &&& r.skip_reason == Some(SkipReason::OfflineFallback)
            },
        },
{
    match reply {
        InferenceReply::Answered { response, model } => {
            let text = match response {
                Some(s) => s,
                None => NO_RESPONSE_TEXT.to_owned(),
            };
            ReplyConclusion { backend: "okapi", status: HelpSessionStatus::Success, text: Some(text), model, skip_reason: None }
        },
        _ => ReplyConclusion {
            backend: "offline",
            status: HelpSessionStatus::Fallback,
            text: None,
            model: None,
            skip_reason: Some(SkipReason::OfflineFallback),
        },
    }
}

} // verus!
