//! The meta layer's offline fallback: the same journal snapshot summary
//! as the Nurse's, with its own closing advice.

use vstd::prelude::*;
use crate::doctor::fallback::{compose_offline, offline_text};
use crate::journal::{EventRow, SeverityCounts};

verus! {

/// The meta layer's closing advice.
pub const META_FOOTER: &'static str = "\nVerify Okapi is running (`systemctl --user status okapi`). Call me back when the phone's working.";

/// The offline response for a journal snapshot: the severity counts of
/// the last 24 hours, the most recent events and the operator's note.
pub fn summarise(counts: &SeverityCounts, recent: &[EventRow], note: Option<&str>) -> (r: String)
    ensures
        r@ == offline_text(*counts, recent@, match note {
            Some(n) => Some(n@),
            None => None,
        }, META_FOOTER@),
{
    compose_offline(counts, recent, note, META_FOOTER)
}

} // verus!
