//! Reachability of the hKask endpoint: what a rejected configuration,
//! or the answer to `GET /health`, says about it. Sending the request,
//! with its two-second timeout, is left to the caller.

use vstd::prelude::*;
use crate::mcp::error::{mcp_error_text, McpError};
use crate::text::{dec_nat, push_dec_u64, push_str, string_from_chars};

verus! {

/// Result of a hKask MCP health probe.
#[derive(Debug, Clone)]
pub struct HKaskHealthResult {
    /// Whether the endpoint responded with success.
    pub reachable: bool,
    /// Round-trip latency in milliseconds, when it responded.
    pub latency_ms: Option<u64>,
    /// Why it is not reachable.
    pub error: Option<String>,
}

/// What the probe's request gave back.
#[derive(Debug, Clone)]
pub enum ProbeReply {
    /// The endpoint responded.
    Responded {
        /// HTTP status.
        status: u16,
        /// Round-trip latency in milliseconds.
        latency_ms: u64,
    },
    /// The request failed.
    Failed {
        /// Connecting failed.
        is_connect: bool,
        /// The request timed out.
        is_timeout: bool,
        /// The failure's message.
        message: String,
    },
}

/// The probe's verdict when the configuration is refused: unreachable,
/// with `config: MESSAGE`.
pub fn refused_config(e: &McpError) -> (r: HKaskHealthResult)
    ensures
        !r.reachable,
        r.latency_ms is None,
        r.error matches Some(m) && m@ == "config: "@ + mcp_error_text(*e),
{
    let mut out: Vec<char> = Vec::new();
    push_str(&mut out, "config: ");
    let m = e.message();
    push_str(&mut out, m.as_str());
    HKaskHealthResult { reachable: false, latency_ms: None, error: Some(string_from_chars(&out)) }
}

/// The probe's verdict on a reply: a 2xx response is reachable with its
/// latency; another status is unreachable with its latency and
/// `HTTP STATUS`; a failed request is unreachable, as `connection
/// refused`, `timeout (2s)` or its own message.
pub fn probe_verdict(reply: ProbeReply) -> (r: HKaskHealthResult)
    ensures
        match reply {
            ProbeReply::Responded { status, latency_ms } => r.latency_ms == Some(latency_ms) && if 200 <= status
                <= 299 {
                r.reachable && r.error is None
            } else {
                !r.reachable && (r.error matches Some(m) && m@ == "HTTP "@ + dec_nat(status as nat))
            },
            ProbeReply::Failed { is_connect, is_timeout, message } => !r.reachable && r.latency_ms is None
                && (r.error matches Some(m) && m@ == if is_connect {
                "connection refused"@
            } else if is_timeout {
                "timeout (2s)"@
            } else {
                message@
            }),
        },
{
    match reply {
        ProbeReply::Responded { status, latency_ms } => {
            if 200 <= status && status <= 299 {
                HKaskHealthResult { reachable: true, latency_ms: Some(latency_ms), error: None }
            } else {
                let mut out: Vec<char> = Vec::new();
                push_str(&mut out, "HTTP ");
                push_dec_u64(&mut out, status as u64);
                HKaskHealthResult { reachable: false, latency_ms: Some(latency_ms), error: Some(string_from_chars(&out)) }
            }
        },
        ProbeReply::Failed { is_connect, is_timeout, message } => {
            let msg = if is_connect {
                "connection refused".to_owned()
            } else if is_timeout {
                "timeout (2s)".to_owned()
            } else {
                message
            };
            HKaskHealthResult { reachable: false, latency_ms: None, error: Some(msg) }
        },
    }
}

} // verus!
