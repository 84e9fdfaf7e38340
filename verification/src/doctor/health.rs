//! Where Okapi's health check lives, derived from its base URL.

use vstd::prelude::*;
use crate::text::{chars_of, push_str, string_from_chars, trim_end_all, trim_end_matches_chars};

verus! {

/// Default Okapi base URL (OpenAI-compatible layer).
pub const DEFAULT_BASE_URL: &'static str = "http://127.0.0.1:11435/v1";

/// The health-check URL of a base URL: trailing `/` removed, then
/// trailing `/v1`, then trailing `/` again, and `/api/tags` appended.
pub open spec fn health_url(base: Seq<char>) -> Seq<char> {
    trim_end_all(trim_end_all(trim_end_all(base, seq!['/']), seq!['/', 'v', '1']), seq!['/']) + "/api/tags"@
}

/// Derive the health-check URL (`/api/tags`) from a base URL.
pub fn health_url_from_base(base_url: &str) -> (r: String)
    ensures
        r@ == health_url(base_url@),
{
    let cs = chars_of(base_url);
    let slash = vec!['/'];
    let v1 = vec!['/', 'v', '1'];
    proof {
        assert(slash@ =~= seq!['/']);
        assert(v1@ =~= seq!['/', 'v', '1']);
    }
    let a = trim_end_matches_chars(&cs, &slash);
    let b = trim_end_matches_chars(&a, &v1);
    let mut c = trim_end_matches_chars(&b, &slash);
    push_str(&mut c, "/api/tags");
    string_from_chars(&c)
}

} // verus!
