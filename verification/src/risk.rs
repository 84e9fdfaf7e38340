//! Risk band classification — ordered `none < low < medium < high < critical`.

use vstd::prelude::*;
use crate::text::str_eq;

verus! {

/// Risk band for an intervention, probe, or tool.
#[derive(Debug, Clone, Copy, PartialEq, Eq, Structural, PartialOrd, Ord, Hash)]
pub enum RiskBand {
    /// Read-only observation — no state mutation.
    NoRisk,
    /// Reversible, low impact.
    Low,
    /// Reversible, moderate impact.
    Medium,
    /// May require reboot or session loss.
    High,
    /// Data loss possible.
    Critical,
}

/// Lowercase journal name of a band.
pub open spec fn band_name(b: RiskBand) -> Seq<char> {
    match b {
        RiskBand::NoRisk => seq!['n', 'o', 'n', 'e'],
        RiskBand::Low => seq!['l', 'o', 'w'],
        RiskBand::Medium => seq!['m', 'e', 'd', 'i', 'u', 'm'],
        RiskBand::High => seq!['h', 'i', 'g', 'h'],
        RiskBand::Critical => seq!['c', 'r', 'i', 't', 'i', 'c', 'a', 'l'],
    }
}

/// Position of a band in the order `none < low < medium < high < critical`.
pub open spec fn band_rank(b: RiskBand) -> u8 {
    match b {
        RiskBand::NoRisk => 0,
        RiskBand::Low => 1,
        RiskBand::Medium => 2,
        RiskBand::High => 3,
        RiskBand::Critical => 4,
    }
}

/// The band whose journal name is `s`, if any.
pub open spec fn band_named(s: Seq<char>) -> Option<RiskBand> {
    if s == band_name(RiskBand::NoRisk) {
        Some(RiskBand::NoRisk)
    } else if s == band_name(RiskBand::Low) {
        Some(RiskBand::Low)
    } else if s == band_name(RiskBand::Medium) {
        Some(RiskBand::Medium)
    } else if s == band_name(RiskBand::High) {
        Some(RiskBand::High)
    } else if s == band_name(RiskBand::Critical) {
        Some(RiskBand::Critical)
    } else {
        None
    }
}

/// Error parsing a [`RiskBand`] from a string: holds the input.
#[derive(Debug, Clone)]
pub struct RiskBandParseError(pub String);

impl RiskBand {
    /// Human-readable lowercase string for journaling.
    pub fn as_str(self) -> (r: &'static str)
        ensures
            r@ == band_name(self),
    {
        match self {
            RiskBand::NoRisk => { proof { reveal_strlit("none"); } "none" },
            RiskBand::Low => { proof { reveal_strlit("low"); } "low" },
            RiskBand::Medium => { proof { reveal_strlit("medium"); } "medium" },
            RiskBand::High => { proof { reveal_strlit("high"); } "high" },
            RiskBand::Critical => { proof { reveal_strlit("critical"); } "critical" },
        }
    }

    /// Position in the order `none < low < medium < high < critical`.
    pub fn rank(self) -> (r: u8)
        ensures
            r == band_rank(self),
    {
        match self {
            RiskBand::NoRisk => 0,
            RiskBand::Low => 1,
            RiskBand::Medium => 2,
            RiskBand::High => 3,
            RiskBand::Critical => 4,
        }
    }

    /// Parse a journal name (`none`, `low`, `medium`, `high`,
    /// `critical`); any other input is refused and carried in the error.
    pub fn parse(s: &str) -> (r: Result<RiskBand, RiskBandParseError>)
        ensures
            match band_named(s@) {
                Some(b) => r == Ok::<RiskBand, RiskBandParseError>(b),
                None => r matches Err(e) && e.0@ == s@,
            },
    {
        proof {
            reveal_strlit("none");
            reveal_strlit("low");
            reveal_strlit("medium");
            reveal_strlit("high");
            reveal_strlit("critical");
            assert("none"@ =~= band_name(RiskBand::NoRisk));
            assert("low"@ =~= band_name(RiskBand::Low));
            assert("medium"@ =~= band_name(RiskBand::Medium));
            assert("high"@ =~= band_name(RiskBand::High));
            assert("critical"@ =~= band_name(RiskBand::Critical));
        }
        if str_eq(s, "none") {
            Ok(RiskBand::NoRisk)
        } else if str_eq(s, "low") {
            Ok(RiskBand::Low)
        } else if str_eq(s, "medium") {
            Ok(RiskBand::Medium)
        } else if str_eq(s, "high") {
            Ok(RiskBand::High)
        } else if str_eq(s, "critical") {
            Ok(RiskBand::Critical)
        } else {
            Err(RiskBandParseError(s.to_owned()))
        }
    }
}

impl Default for RiskBand {
    /// The least band: read-only observation.
    fn default() -> (r: Self)
        ensures
            r == RiskBand::NoRisk,
    {
        RiskBand::NoRisk
    }
}

impl std::str::FromStr for RiskBand {
    type Err = RiskBandParseError;

    fn from_str(s: &str) -> (r: Result<RiskBand, RiskBandParseError>)
        ensures
            match band_named(s@) {
                Some(b) => r == Ok::<RiskBand, RiskBandParseError>(b),
                None => r matches Err(e) && e.0@ == s@,
            },
    {
        RiskBand::parse(s)
    }
}

/// Reading back what `as_str` wrote gives the same band.
pub proof fn lemma_band_name_round_trip(b: RiskBand)
    ensures
        band_named(band_name(b)) == Some(b),
{
}

} // verus!
