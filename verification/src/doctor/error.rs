//! The Nurse's errors, the short tag each is journaled under, and the
//! error an HTTP failure status maps to.

use vstd::prelude::*;
use crate::error::CoreError;
use crate::text::{dec_nat, parse_int_spec, push_dec_u64, push_str, string_from_chars, trim, trim_chars, chars_of, parse_u64};

verus! {

/// `std::fmt::Error`, carried opaque.
#[verifier::external_type_specification]
#[verifier::external_body]
pub struct ExFmtError(std::fmt::Error);

/// Errors produced by the Nurse.
#[derive(Debug)]
pub enum DoctorError {
    /// An I/O failure on a known path.
    Io {
        /// The path being operated on.
        path: std::path::PathBuf,
        /// The underlying error.
        source: std::io::Error,
    },
    /// A JSON (de)serialisation failure.
    Json(serde_json::Error),
    /// An error of the core layer.
    Core(CoreError),
    /// HTTP transport error.
    Http {
        /// HTTP status, if any.
        status: Option<u16>,
        /// Human-readable message.
        message: String,
        /// Whether the underlying error was a connection error.
        is_connect: bool,
        /// Whether the underlying error was a timeout.
        is_timeout: bool,
    },
    /// Authentication with the upstream provider failed.
    Authentication(String),
    /// The model requested is not available on the provider.
    ModelNotFound(String),
    /// The provider is rate-limiting us.
    RateLimited {
        /// Suggested seconds to wait, if the server gave one.
        retry_after_seconds: Option<u64>,
    },
    /// No available provider satisfies the zero-data-retention rule.
    ZdrRoutingFailed(String),
    /// The configuration is missing what the backend needs.
    Config(String),
    /// A response body could not be parsed.
    BadResponse(String),
    /// String formatting failed.
    Fmt(std::fmt::Error),
    /// Catch-all for rare conditions.
    Other(String),
}

/// The short tag of an error for the `error_kind` column; an HTTP error
/// is tagged by timeout, then connection failure, then status.
pub open spec fn error_kind_text(e: DoctorError) -> Seq<char> {
    match e {
        DoctorError::Io { .. } => "io"@,
        DoctorError::Json(_) => "json"@,
        DoctorError::Core(_) => "core"@,
        DoctorError::Http { status, is_connect, is_timeout, .. } => if is_timeout {
            "http_timeout"@
        } else if is_connect {
            "http_connect"@
        } else {
            match status {
                Some(s) => "http_"@ + dec_nat(s as nat),
                None => "http"@,
            }
        },
        DoctorError::Authentication(_) => "auth"@,
        DoctorError::ModelNotFound(_) => "model_not_found"@,
        DoctorError::RateLimited { .. } => "rate_limited"@,
        DoctorError::ZdrRoutingFailed(_) => "zdr_routing_failed"@,
        DoctorError::Config(_) => "config"@,
        DoctorError::BadResponse(_) => "bad_response"@,
        DoctorError::Fmt(_) => "fmt"@,
        DoctorError::Other(_) => "other"@,
    }
}

/// The short tag of an error for the `error_kind` column.
pub fn error_kind_of(e: &DoctorError) -> (r: String)
    ensures
        r@ == error_kind_text(*e),
{
    match e {
        DoctorError::Io { .. } => "io".to_owned(),
        DoctorError::Json(_) => "json".to_owned(),
        DoctorError::Core(_) => "core".to_owned(),
        DoctorError::Http { status, is_connect, is_timeout, .. } => {
            if *is_timeout {
                "http_timeout".to_owned()
            } else if *is_connect {
                "http_connect".to_owned()
            } else {
                match status {
                    Some(s) => {
                        let mut out: Vec<char> = Vec::new();
                        push_str(&mut out, "http_");
                        push_dec_u64(&mut out, *s as u64);
                        proof {
                            assert(out@ =~= "http_"@ + dec_nat(*s as nat));
                        }
                        string_from_chars(&out)
                    },
                    None => "http".to_owned(),
                }
            }
        },
        DoctorError::Authentication(_) => "auth".to_owned(),
        DoctorError::ModelNotFound(_) => "model_not_found".to_owned(),
        DoctorError::RateLimited { .. } => "rate_limited".to_owned(),
        DoctorError::ZdrRoutingFailed(_) => "zdr_routing_failed".to_owned(),
        DoctorError::Config(_) => "config".to_owned(),
        DoctorError::BadResponse(_) => "bad_response".to_owned(),
        DoctorError::Fmt(_) => "fmt".to_owned(),
        DoctorError::Other(_) => "other".to_owned(),
    }
}

/// The error a non-success HTTP status maps to: 401 is an
/// authentication failure carrying the body; 404 a missing model
/// carrying the body and URL; 429 rate limiting with the server's
/// retry hint; anything else an HTTP error with the status and body.
pub open spec fn http_status_error(e: DoctorError, status: u16, body: Seq<char>, retry_after: Option<u64>, url: Seq<char>) -> bool {
    if status == 401 {
        e matches DoctorError::Authentication(m) && m@ == body
    } else if status == 404 {
        e matches DoctorError::ModelNotFound(m) && m@ == body + " (url: "@ + url + ")"@
    } else if status == 429 {
        e matches DoctorError::RateLimited { retry_after_seconds: ra } && ra == retry_after
    } else {
        e matches DoctorError::Http { status: st, message, is_connect, is_timeout }
            && st == Some(status) && message@ == body && !is_connect && !is_timeout
    }
}

/// Map a non-success HTTP status to the matching error.
pub fn map_http_status_error(status: u16, body: String, retry_after: Option<u64>, url: &str) -> (r: DoctorError)
    ensures
        http_status_error(r, status, body@, retry_after, url@),
{
    if status == 401 {
        DoctorError::Authentication(body)
    } else if status == 404 {
        let mut out: Vec<char> = Vec::new();
        push_str(&mut out, body.as_str());
        push_str(&mut out, " (url: ");
        push_str(&mut out, url);
        push_str(&mut out, ")");
        DoctorError::ModelNotFound(string_from_chars(&out))
    } else if status == 429 {
        DoctorError::RateLimited { retry_after_seconds: retry_after }
    } else {
        DoctorError::Http { status: Some(status), message: body, is_connect: false, is_timeout: false }
    }
}

/// A `Retry-After` header value in seconds: the trimmed value read as
/// a decimal `u64`.
pub fn parse_retry_after(value: &str) -> (r: Option<u64>)
    ensures
        match parse_int_spec(trim(value@), false) {
            Some(n) => if n <= u64::MAX { r == Some(n as u64) } else { r is None },
            None => r is None,
        },
{
    let cs = chars_of(value);
    let t = trim_chars(&cs);
    parse_u64(&t)
}

} // verus!
