//! The OpenRouter backend's error mapping: OpenRouter reports a failed
//! zero-data-retention routing as a 403 whose body says so.

use vstd::prelude::*;
use crate::doctor::error::{http_status_error, map_http_status_error as map_status, DoctorError};
use crate::text::{ascii_lower_chars, ascii_lower_seq, chars_of, contains_chars, contains_seq};

verus! {

/// The phrase of a zero-data-retention refusal, in lowercase.
pub const ZDR_PHRASE: &'static str = "zero data retention";

/// Whether a 403 body reports a zero-data-retention routing failure:
/// its ASCII-lowercased text contains the phrase.
pub open spec fn is_zdr_refusal(status: u16, body: Seq<char>) -> bool {
    status == 403 && contains_seq(ascii_lower_seq(body), ZDR_PHRASE@)
}

/// Map a non-success status from OpenRouter to the matching error: a
/// zero-data-retention refusal is reported as such; every other status
/// maps as for any OpenAI-compatible server.
pub fn map_http_status_error(status: u16, body: String, retry_after: Option<u64>, url: &str) -> (r: DoctorError)
    ensures
        is_zdr_refusal(status, body@) ==> (r matches DoctorError::ZdrRoutingFailed(m) && m@ == body@),
        !is_zdr_refusal(status, body@) ==> http_status_error(r, status, body@, retry_after, url@),
{
    if status == 403 {
        let low = ascii_lower_chars(&chars_of(body.as_str()));
        let phrase = chars_of(ZDR_PHRASE);
        if contains_chars(&low, &phrase) {
            return DoctorError::ZdrRoutingFailed(body);
        }
    }
    map_status(status, body, retry_after, url)
}

} // verus!
