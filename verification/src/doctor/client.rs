//! The Nurse's LLM client configuration: which backend, which model,
//! and when a journal snapshot is worth escalating to the LLM.

use vstd::prelude::*;
use crate::journal::SeverityCounts;
use crate::text::str_eq;

verus! {

/// `Duration::from_secs`. Nothing is stated of the value: a `Duration`
/// is opaque here.
pub assume_specification[ core::time::Duration::from_secs ](secs: u64) -> core::time::Duration;

/// `Duration::clone`: `Duration` is `Copy`, so the clone is the value.
pub assume_specification[ <core::time::Duration as Clone>::clone ](d: &core::time::Duration) -> (r: core::time::Duration)
    ensures
        r == *d,
;

/// Backend selector, per `RUSSELL_DOCTOR_BACKEND`.
#[derive(Debug, Clone, Copy, PartialEq, Eq, Structural)]
pub enum Backend {
    /// OpenRouter, the opt-in remote fallback.
    OpenRouter,
    /// Local Okapi — the default backend.
    Okapi,
    /// Mock for tests.
    Mock,
    /// Offline rule-based fallback — never calls the network.
    Offline,
}

/// The backend a value of `RUSSELL_DOCTOR_BACKEND` selects: `openrouter`,
/// `okapi` (or its legacy alias `ollama`), `mock`, `offline`; anything
/// else, or no value, selects Okapi.
pub open spec fn backend_named(v: Option<Seq<char>>) -> Backend {
    match v {
        Some(s) => if s == "openrouter"@ {
            Backend::OpenRouter
        } else if s == "okapi"@ || s == "ollama"@ {
            Backend::Okapi
        } else if s == "mock"@ {
            Backend::Mock
        } else if s == "offline"@ {
            Backend::Offline
        } else {
            Backend::Okapi
        },
        None => Backend::Okapi,
    }
}

/// Journal label of a backend.
pub open spec fn backend_label(b: Backend) -> Seq<char> {
    match b {
        Backend::OpenRouter => "openrouter"@,
        Backend::Okapi => "okapi"@,
        Backend::Mock => "mock"@,
        Backend::Offline => "offline"@,
    }
}

/// The view of an optional string slice.
pub open spec fn opt_str(v: Option<&str>) -> Option<Seq<char>> {
    match v {
        Some(s) => Some(s@),
        None => None,
    }
}

impl Backend {
    /// The backend a value of `RUSSELL_DOCTOR_BACKEND` selects.
    pub fn from_name(v: Option<&str>) -> (r: Backend)
        ensures
            r == backend_named(opt_str(v)),
    {
        match v {
            Some(s) => if str_eq(s, "openrouter") {
                Backend::OpenRouter
            } else if str_eq(s, "okapi") || str_eq(s, "ollama") {
                Backend::Okapi
            } else if str_eq(s, "mock") {
                Backend::Mock
            } else if str_eq(s, "offline") {
                Backend::Offline
            } else {
                Backend::Okapi
            },
            None => Backend::Okapi,
        }
    }

    /// Human-readable label recorded in the journal.
    pub fn label(self) -> (r: &'static str)
        ensures
            r@ == backend_label(self),
    {
        match self {
            Backend::OpenRouter => "openrouter",
            Backend::Okapi => "okapi",
            Backend::Mock => "mock",
            Backend::Offline => "offline",
        }
    }
}

/// Minimum severity to trigger LLM escalation.
#[derive(Debug, Clone, Copy, PartialEq, Eq, Structural)]
pub enum EscalateMin {
    /// Escalate only when crit > 0.
    Crit,
    /// Escalate when crit > 0 or alert > 0 (default).
    Alert,
    /// Escalate when crit, alert or warn > 0.
    Warn,
    /// Always escalate.
    Always,
}

impl Default for EscalateMin {
    /// Alert.
    fn default() -> (r: Self)
        ensures
            r == EscalateMin::Alert,
    {
        EscalateMin::Alert
    }
}

/// The threshold a value of `RUSSELL_ESCALATE_MIN` selects: `crit`,
/// `warn`, `always`; `alert`, anything else, or no value selects alert.
pub open spec fn escalate_named(v: Option<Seq<char>>) -> EscalateMin {
    match v {
        Some(s) => if s == "crit"@ {
            EscalateMin::Crit
        } else if s == "warn"@ {
            EscalateMin::Warn
        } else if s == "always"@ {
            EscalateMin::Always
        } else {
            EscalateMin::Alert
        },
        None => EscalateMin::Alert,
    }
}

/// Whether `counts` meet threshold `e`.
pub open spec fn escalation_due(e: EscalateMin, counts: SeverityCounts) -> bool {
    match e {
        EscalateMin::Always => true,
        EscalateMin::Crit => counts.crit > 0,
        EscalateMin::Alert => counts.crit > 0 || counts.alert > 0,
        EscalateMin::Warn => counts.crit > 0 || counts.alert > 0 || counts.warn > 0,
    }
}

impl EscalateMin {
    /// The threshold a value of `RUSSELL_ESCALATE_MIN` selects.
    pub fn from_name(v: Option<&str>) -> (r: EscalateMin)
        ensures
            r == escalate_named(opt_str(v)),
    {
        match v {
            Some(s) => if str_eq(s, "crit") {
                EscalateMin::Crit
            } else if str_eq(s, "warn") {
                EscalateMin::Warn
            } else if str_eq(s, "always") {
                EscalateMin::Always
            } else {
                EscalateMin::Alert
            },
            None => EscalateMin::Alert,
        }
    }

    /// Whether the severity counts meet the threshold.
    pub fn satisfied_by(self, counts: &SeverityCounts) -> (r: bool)
        ensures
            r == escalation_due(self, *counts),
    {
        match self {
            EscalateMin::Always => true,
            EscalateMin::Crit => counts.crit > 0,
            EscalateMin::Alert => counts.crit > 0 || counts.alert > 0,
            EscalateMin::Warn => counts.crit > 0 || counts.alert > 0 || counts.warn > 0,
        }
    }
}

/// Default model when `RUSSELL_DOCTOR_MODEL` is unset.
pub const DEFAULT_MODEL: &'static str = "nemotron-3-super:cloud";

/// Default request timeout in seconds.
pub const DEFAULT_TIMEOUT_SECS: u64 = 60;

/// Configuration resolved at call time from the environment and
/// defaults.
#[derive(Debug, Clone)]
pub struct ClientConfig {
    /// Backend to use.
    pub backend: Backend,
    /// Model identifier.
    pub model: String,
    /// Base URL; `None` = the backend's default.
    pub base_url: Option<String>,
    /// Bearer token; `None` = the backend needs none.
    pub api_key: Option<String>,
    /// Request timeout.
    pub timeout: core::time::Duration,
    /// Minimum severity for LLM escalation.
    pub escalate_min: EscalateMin,
}

impl ClientConfig {
    /// The configuration given the values of `RUSSELL_DOCTOR_BACKEND`,
    /// `RUSSELL_DOCTOR_MODEL`, `RUSSELL_DOCTOR_BASE_URL`,
    /// `OPENROUTER_API_KEY` and `RUSSELL_ESCALATE_MIN` (`None` when
    /// unset): the model defaults to `nemotron-3-super:cloud`, the
    /// timeout is 60 s.
    pub fn from_env_values(
        backend: Option<&str>,
        model: Option<String>,
        base_url: Option<String>,
        api_key: Option<String>,
        escalate_min: Option<&str>,
    ) -> (r: Self)
        ensures
            r.backend == backend_named(opt_str(backend)),
            r.model@ == match model {
                Some(m) => m@,
                None => DEFAULT_MODEL@,
            },
            r.base_url == base_url,
            r.api_key == api_key,
            r.escalate_min == escalate_named(opt_str(escalate_min)),
    {
        let model = match model {
            Some(m) => m,
            None => DEFAULT_MODEL.to_owned(),
        };
        ClientConfig {
            backend: Backend::from_name(backend),
            model,
            base_url,
            api_key,
            timeout: core::time::Duration::from_secs(DEFAULT_TIMEOUT_SECS),
            escalate_min: EscalateMin::from_name(escalate_min),
        }
    }
}

/// A SOAP-shaped prompt given to the LLM client.
#[derive(Debug, Clone)]
pub struct SoapPrompt {
    /// The system prompt (Jack's persona).
    pub system: String,
    /// Subjective — operator note.
    pub subjective: String,
    /// Objective — gathered evidence rendered as Markdown.
    pub objective: String,
    /// The full rendered SOAP text as one user message.
    pub rendered: String,
}

/// The model's response plus a minimum of metadata.
#[derive(Debug, Clone)]
pub struct LlmResponse {
    /// The response text — what the operator sees.
    pub content: String,
    /// Model identifier echoed by the provider, if any.
    pub model: Option<String>,
    /// Prompt tokens, if reported.
    pub prompt_tokens: Option<u32>,
    /// Completion tokens, if reported.
    pub completion_tokens: Option<u32>,
    /// Round-trip latency.
    pub latency_ms: u64,
}

/// The port the Nurse calls an LLM through; each backend implements it.
pub trait LlmClient {
    /// Send the SOAP prompt and return the model's response.
    fn chat(&self, prompt: &SoapPrompt) -> Result<LlmResponse, crate::doctor::error::DoctorError>;
}

// ─── laws ────────────────────────────────────────────────────

/// What each threshold escalates on: `Crit` on a crit, the default
/// `Alert` on an alert or a crit, `Warn` on a warning, an alert or a
/// crit, `Always` on anything.
pub proof fn lemma_escalation_thresholds(c: SeverityCounts)
    ensures
        escalation_due(EscalateMin::Crit, c) <==> c.crit > 0,
        escalation_due(EscalateMin::Alert, c) <==> (c.crit > 0 || c.alert > 0),
        escalation_due(EscalateMin::Warn, c) <==> (c.crit > 0 || c.alert > 0 || c.warn > 0),
        escalation_due(EscalateMin::Always, c),
{
}

/// The thresholds are nested: whatever escalates under a stricter
/// threshold escalates under every looser one.
pub proof fn lemma_escalation_nested(c: SeverityCounts)
    ensures
        escalation_due(EscalateMin::Crit, c) ==> escalation_due(EscalateMin::Alert, c),
        escalation_due(EscalateMin::Alert, c) ==> escalation_due(EscalateMin::Warn, c),
        escalation_due(EscalateMin::Warn, c) ==> escalation_due(EscalateMin::Always, c),
        c.alert > 0 ==> escalation_due(EscalateMin::Alert, c),
{
}

/// More events never cancel an escalation: at least the counts of a
/// window that escalates escalate too, under the same threshold.
pub proof fn lemma_escalation_monotone(e: EscalateMin, a: SeverityCounts, b: SeverityCounts)
    requires
        a.warn <= b.warn,
        a.alert <= b.alert,
        a.crit <= b.crit,
        escalation_due(e, a),
    ensures
        escalation_due(e, b),
{
}

} // verus!
