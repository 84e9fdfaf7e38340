//! How Russell stamps journal rows and filenames with the time.
//!
//! The [`Clock`] trait abstracts time acquisition: production code uses
//! [`SystemClock`], tests use [`FixedClock`] for deterministic
//! assertions. The free functions [`now_rfc3339`], [`now_unix`] and
//! [`now_date_iso8601`] read the system clock.

use vstd::prelude::*;
use crate::text::{
    chars_of, dec_int_padded, nth_field, parse_i32, parse_i64, parse_int_spec, push_dec_i64_padded,
    split_field, string_from_chars,
};

verus! {

// ─── the system clock ────────────────────────────────────────

/// Whole milliseconds since the Unix epoch by the system clock
/// (`SystemTime::now().duration_since(UNIX_EPOCH)`, as milliseconds),
/// `None` when the clock stands before the epoch. Only the bound a
/// `Duration` of `u64` seconds puts on its milliseconds is stated: the
/// value is the wall clock.
#[verifier::external_body]
pub(crate) fn system_millis_since_epoch() -> (r: Option<u128>)
    ensures
        r matches Some(ms) ==> ms < 1000 * 0x1_0000_0000_0000_0000,
{
    std::time::SystemTime::now().duration_since(std::time::UNIX_EPOCH).ok().map(|d| d.as_millis())
}

/// Whole seconds since the Unix epoch by the system clock, `None` when
/// the clock stands before the epoch.
pub(crate) fn system_secs_since_epoch() -> (r: Option<u64>) {
    match system_millis_since_epoch() {
        Some(ms) => Some((ms / 1000) as u64),
        None => None,
    }
}

/// Current UTC time in RFC 3339 form, e.g. `2026-04-17T03:30:12Z`
/// (`time::OffsetDateTime::now_utc` formatted as `Rfc3339`). Nothing is
/// stated of the value: it is the wall clock.
#[verifier::external_body]
pub fn now_rfc3339() -> (r: String) {
    ::time::OffsetDateTime::now_utc()
        .format(&::time::format_description::well_known::Rfc3339)
        .expect("RFC3339 formatting of current time cannot fail")
}

/// Unix seconds at call time; 0 when the clock stands before the epoch.
pub fn now_unix() -> (r: i64) {
    match system_secs_since_epoch() {
        Some(s) => s as i64,
        None => 0,
    }
}

// ─── calendar dates ──────────────────────────────────────────

/// The civil date `(year, month, day)` of the day numbered `z`, counted
/// from 0000-03-01, by 400-year eras of 146097 days, years starting in
/// March.
pub open spec fn civil_of(z: int) -> (int, int, int) {
    let era = z / 146097;
    let doe = z % 146097;
    let yoe = (doe - doe / 1460 + doe / 36524 - doe / 146096) / 365;
    let doy = doe - (365 * yoe + yoe / 4 - yoe / 100);
    let mp = (5 * doy + 2) / 153;
    let d = doy - (153 * mp + 2) / 5 + 1;
    let m = if mp < 10 { mp + 3 } else { mp - 9 };
    let y = yoe + era * 400;
    (if m <= 2 { y + 1 } else { y }, m, d)
}

/// Days from 0000-03-01 to 1970-01-01.
pub const EPOCH_DAY_NUMBER: i64 = 719468;

/// Converts a day count since 0000-03-01 into `(year, month, day)`.
pub(crate) fn civil_from_days(z: i64) -> (r: (i64, i64, i64))
    requires
        z >= i64::MIN + 146096,
    ensures
        r.0 == civil_of(z as int).0,
        r.1 == civil_of(z as int).1,
        r.2 == civil_of(z as int).2,
{
    let zz = if z >= 0 { z } else { z - 146096 };
    let era = zz / 146097;
    let doe = (z - era * 146097) as u64;
    let yoe = (doe - doe / 1460 + doe / 36524 - doe / 146096) / 365;
    let y = yoe as i64 + era * 400;
    let doy = doe - (365 * yoe + yoe / 4 - yoe / 100);
    let mp = (5 * doy + 2) / 153;
    let d = doy - (153 * mp + 2) / 5 + 1;
    let m = if mp < 10 { mp + 3 } else { mp - 9 };
    let y = if m <= 2 { y + 1 } else { y };
    (y, m as i64, d as i64)
}

/// The day number, counted from 0000-03-01, of the civil date
/// `(y, m, d)`: whole 400-year eras, then years of the era starting in
/// March with a leap day every fourth year but every hundredth, then
/// the days of the year.
pub open spec fn days_from_civil(y: int, m: int, d: int) -> int {
    let y2 = if m <= 2 { y - 1 } else { y };
    let era = y2 / 400;
    let yoe = y2 - era * 400;
    let mp = if m > 2 { m - 3 } else { m + 9 };
    let doy = (153 * mp + 2) / 5 + d - 1;
    let doe = yoe * 365 + yoe / 4 - yoe / 100 + doy;
    era * 146097 + doe
}

/// `civil_of` names a real calendar date, and numbering that date
/// gives back the day it came from.
#[verifier::spinoff_prover]
#[verifier::rlimit(60)]
pub proof fn lemma_civil_round_trip(z: int)
    ensures
        1 <= civil_of(z).1 <= 12,
        1 <= civil_of(z).2 <= 31,
        days_from_civil(civil_of(z).0, civil_of(z).1, civil_of(z).2) == z,
{
}

/// `format!("{y:04}-{m:02}-{d:02}")`.
pub open spec fn iso_date(y: int, m: int, d: int) -> Seq<char> {
    dec_int_padded(y, 4) + seq!['-'] + dec_int_padded(m, 2) + seq!['-'] + dec_int_padded(d, 2)
}

/// `format!("{y:04}-{m:02}-{d:02}")`.
pub fn format_iso_date(y: i64, m: i64, d: i64) -> (r: String)
    ensures
        r@ == iso_date(y as int, m as int, d as int),
{
    let mut v: Vec<char> = Vec::new();
    push_dec_i64_padded(&mut v, y, 4);
    v.push('-');
    push_dec_i64_padded(&mut v, m, 2);
    v.push('-');
    push_dec_i64_padded(&mut v, d, 2);
    string_from_chars(&v)
}

/// The ISO 8601 date of `secs` seconds after the Unix epoch.
pub open spec fn date_of_unix_secs(secs: int) -> Seq<char> {
    let c = civil_of(secs / 86400 + 719468);
    iso_date(c.0, c.1, c.2)
}

/// The UTC date, `YYYY-MM-DD`, of `secs` seconds after the Unix epoch.
pub fn date_iso8601_of_unix_secs(secs: u64) -> (r: String)
    ensures
        r@ == date_of_unix_secs(secs as int),
{
    let days = (secs / 86400) as i64;
    let (y, m, d) = civil_from_days(days + EPOCH_DAY_NUMBER);
    format_iso_date(y, m, d)
}

/// Current UTC date as an ISO 8601 string, e.g. `2026-05-14`;
/// `1970-01-01` when the clock stands before the epoch.
pub fn now_date_iso8601() -> (r: String)
    ensures
        r@ == seq!['1', '9', '7', '0', '-', '0', '1', '-', '0', '1'] || exists|s: u64| r@ == #[trigger] date_of_unix_secs(s as int),
{
    match system_secs_since_epoch() {
        Some(s) => date_iso8601_of_unix_secs(s),
        None => {
            proof {
                reveal_strlit("1970-01-01");
            }
            "1970-01-01".to_string()
        },
    }
}

/// The value `parse` gives a field, or `default` when the field is
/// missing, is not a number, or does not fit `lo..=hi`.
pub open spec fn field_or(s: Seq<char>, k: nat, lo: int, hi: int, default: int) -> int {
    match split_field(s, '-', k) {
        Some(f) => match parse_int_spec(f, true) {
            Some(v) => if lo <= v <= hi { v } else { default },
            None => default,
        },
        None => default,
    }
}

/// `(year, month, day)` of an ISO 8601 date: the `-`-separated fields
/// parsed as numbers; 0, 0 and 1 stand for what does not parse.
pub open spec fn date_parts(s: Seq<char>) -> (int, int, int) {
    (
        field_or(s, 0, i64::MIN as int, i64::MAX as int, 0),
        field_or(s, 1, i64::MIN as int, i64::MAX as int, 0),
        field_or(s, 2, i32::MIN as int, i32::MAX as int, 1),
    )
}

fn parse_field_i64(cs: &Vec<char>, k: usize, default: i64) -> (r: i64)
    ensures
        r == field_or(cs@, k as nat, i64::MIN as int, i64::MAX as int, default as int),
{
    match nth_field(cs, '-', k) {
        Some(f) => match parse_i64(&f) {
            Some(v) => v,
            None => default,
        },
        None => default,
    }
}

/// Parse an ISO 8601 date string into (year, month, day); tolerant:
/// (0, 0, 1) for completely unparseable input.
fn parse_date_parts(d: &str) -> (r: (i64, i64, i32))
    ensures
        r.0 == date_parts(d@).0,
        r.1 == date_parts(d@).1,
        r.2 == date_parts(d@).2,
{
    let cs = chars_of(d);
    let y = parse_field_i64(&cs, 0, 0);
    let m = parse_field_i64(&cs, 1, 0);
    let dd = match nth_field(&cs, '-', 2) {
        Some(f) => match parse_i32(&f) {
            Some(v) => v,
            None => 1,
        },
        None => 1,
    };
    (y, m, dd)
}

/// The day ordinal `approx_days_between` uses: 365-day years and 30-day
/// months.
pub open spec fn approx_ordinal(p: (int, int, int)) -> int {
    p.0 * 365 + p.1 * 30 + p.2
}

/// The ordinal of a date is computed without overflow in `i64`.
pub open spec fn ordinal_fits(p: (int, int, int)) -> bool {
    &&& i64::MIN <= p.0 * 365 <= i64::MAX
    &&& i64::MIN <= p.1 * 30 <= i64::MAX
    &&& i64::MIN <= p.0 * 365 + p.1 * 30 <= i64::MAX
    &&& i64::MIN <= approx_ordinal(p) <= i64::MAX
}

/// Approximate number of days between two ISO 8601 date strings:
/// `b`'s ordinal minus `a`'s, counting 365-day years and 30-day months.
pub fn approx_days_between(a: &str, b: &str) -> (r: i64)
    requires
        ordinal_fits(date_parts(a@)),
        ordinal_fits(date_parts(b@)),
        i64::MIN <= approx_ordinal(date_parts(b@)) - approx_ordinal(date_parts(a@)) <= i64::MAX,
    ensures
        r == approx_ordinal(date_parts(b@)) - approx_ordinal(date_parts(a@)),
{
    let pa = parse_date_parts(a);
    let pb = parse_date_parts(b);
    (pb.0 * 365 + pb.1 * 30 + pb.2 as i64) - (pa.0 * 365 + pa.1 * 30 + pa.2 as i64)
}

// ─── the Clock capability ────────────────────────────────────

/// Abstraction over time acquisition.
pub trait Clock {
    /// Current Unix timestamp (seconds since epoch).
    fn now_unix(&self) -> i64;

    /// Current time as RFC 3339 string (e.g. `2026-05-19T21:15:00Z`).
    fn now_rfc3339(&self) -> String;

    /// Current date as ISO 8601 string (e.g. `2026-05-19`).
    fn now_date_iso8601(&self) -> String;
}

/// Production clock — delegates to the system clock.
#[derive(Debug, Clone, Copy, Default)]
pub struct SystemClock;

impl Clock for SystemClock {
    fn now_unix(&self) -> i64 {
        now_unix()
    }

    fn now_rfc3339(&self) -> String {
        now_rfc3339()
    }

    fn now_date_iso8601(&self) -> (r: String)
        ensures
            r@ == seq!['1', '9', '7', '0', '-', '0', '1', '-', '0', '1'] || exists|s: u64| r@ == #[trigger] date_of_unix_secs(s as int),
    {
        now_date_iso8601()
    }
}

/// RFC 3339 text of the UTC instant `ts` seconds after the epoch, as
/// the `time` crate writes it: `YYYY-MM-DDTHH:MM:SSZ`, zero-padded, for
/// the years 0 to 9999, which its `Rfc3339` format accepts; none
/// outside them.
pub open spec fn rfc3339_text(ts: i64) -> Option<Seq<char>> {
    if -62167219200 <= ts <= 253402300799 {
        let c = civil_of(ts / 86400 + 719468);
        let sod = ts as int % 86400;
        Some(iso_date(c.0, c.1, c.2) + seq!['T'] + dec_int_padded(sod / 3600, 2) + seq![':']
            + dec_int_padded((sod as int % 3600) / 60, 2) + seq![':'] + dec_int_padded(sod % 60, 2) + seq!['Z'])
    } else {
        None
    }
}

/// `time::OffsetDateTime::from_unix_timestamp(ts)` formatted as
/// `Rfc3339`: the date and time in UTC with a `Z` offset and no
/// fraction (the instant has whole seconds); the format refuses years
/// outside 0 to 9999.
#[verifier::external_body]
fn rfc3339_of_unix(ts: i64) -> (r: Option<String>)
    ensures
        match r {
            Some(s) => rfc3339_text(ts) == Some(s@),
            None => rfc3339_text(ts) is None,
        },
{
    ::time::OffsetDateTime::from_unix_timestamp(ts)
        .ok()
        .and_then(|dt| dt.format(&::time::format_description::well_known::Rfc3339).ok())
}

/// `(year, month, day)` of the UTC instant `ts` seconds after the
/// epoch, as the `time` crate computes it; `None` where it cannot
/// represent the instant.
pub uninterp spec fn utc_date(ts: i64) -> Option<(int, int, int)>;

/// The instant falls in the years -9999 to 9999.
pub open spec fn within_four_digit_years(ts: i64) -> bool {
    -377705116800 <= ts <= 253402300799
}

/// A `(year, month, day)` read back is the date `c`.
pub open spec fn same_date(t: (i32, u8, u8), c: (int, int, int)) -> bool {
    t.0 as int == c.0 && t.1 as int == c.1 && t.2 as int == c.2
}

/// `r` holds the proleptic Gregorian date of the day of instant `ts`.
pub open spec fn reads_civil_date(r: Option<(i32, u8, u8)>, ts: i64) -> bool {
    r matches Some(t) && same_date(t, civil_of(ts / 86400 + 719468))
}

/// `time::OffsetDateTime::from_unix_timestamp(ts)` read as year, month
/// and day. The contract claims that the result is a function of `ts`,
/// named `utc_date`, and that for the years -9999 to 9999, which the
/// crate represents with or without its `large-dates` feature, it is
/// the proleptic Gregorian date of the instant's day. Which wider range
/// is represented depends on that feature and is not stated.
#[verifier::external_body]
fn utc_date_of_unix(ts: i64) -> (r: Option<(i32, u8, u8)>)
    ensures
        match r {
            Some(t) => utc_date(ts) matches Some(c) && same_date(t, c),
            None => utc_date(ts) is None,
        },
        within_four_digit_years(ts) ==> reads_civil_date(r, ts),
{
    ::time::OffsetDateTime::from_unix_timestamp(ts).ok().map(|dt| (dt.year(), u8::from(dt.month()), dt.day()))
}

/// The Unix timestamp of an RFC 3339 text, as the `time` crate parses
/// it; `None` where it does not parse.
pub uninterp spec fn rfc3339_unix(text: Seq<char>) -> Option<i64>;

/// `time::OffsetDateTime::parse(text, &Rfc3339)` read as a Unix
/// timestamp. The contract claims only that the result is a function of
/// the text, named `rfc3339_unix`.
#[verifier::external_body]
pub fn parse_rfc3339_unix(text: &str) -> (r: Option<i64>)
    ensures
        r == rfc3339_unix(text@),
{
    ::time::OffsetDateTime::parse(text, &::time::format_description::well_known::Rfc3339)
        .ok()
        .map(|dt| dt.unix_timestamp())
}

/// The RFC 3339 text of `ts`, or the epoch's where there is none.
pub open spec fn rfc3339_or_epoch(ts: i64) -> Seq<char> {
    match rfc3339_text(ts) {
        Some(s) => s,
        None => seq!['1', '9', '7', '0', '-', '0', '1', '-', '0', '1', 'T', '0', '0', ':', '0', '0', ':', '0', '0', 'Z'],
    }
}

/// The ISO date of `ts`, or the epoch's where there is none.
pub open spec fn iso_date_or_epoch(ts: i64) -> Seq<char> {
    match utc_date(ts) {
        Some(t) => iso_date(t.0, t.1, t.2),
        None => iso_date(1970, 1, 1),
    }
}

/// Deterministic clock for testing: a fixed timestamp that can be
/// advanced or set by hand.
#[derive(Debug)]
pub struct FixedClock {
    unix: i64,
}

impl FixedClock {
    /// The timestamp the clock shows.
    pub closed spec fn at(&self) -> i64 {
        self.unix
    }

    /// Create a fixed clock at the given Unix timestamp.
    pub fn new(unix: i64) -> (r: Self)
        ensures
            r.at() == unix,
    {
        FixedClock { unix }
    }

    /// Advance the clock by `secs` seconds (wrapping, as an atomic add
    /// does).
    pub fn advance(&mut self, secs: i64)
        ensures
            final(self).at() == old(self).at().wrapping_add(secs),
    {
        self.unix = self.unix.wrapping_add(secs);
    }

    /// Set the clock to a specific Unix timestamp.
    pub fn set(&mut self, unix: i64)
        ensures
            final(self).at() == unix,
    {
        self.unix = unix;
    }

    /// The timestamp the clock shows.
    pub fn unix_now(&self) -> (r: i64)
        ensures
            r == self.at(),
    {
        self.unix
    }

    /// RFC 3339 text of the clock's time (the epoch's where the `time`
    /// crate cannot represent it).
    pub fn rfc3339_now(&self) -> (r: String)
        ensures
            r@ == rfc3339_or_epoch(self.at()),
    {
        match rfc3339_of_unix(self.unix) {
            Some(s) => s,
            None => {
                proof {
                    reveal_strlit("1970-01-01T00:00:00Z");
                }
                "1970-01-01T00:00:00Z".to_string()
            },
        }
    }

    /// ISO 8601 date of the clock's time (the epoch's where the `time`
    /// crate cannot represent it).
    pub fn date_iso8601_now(&self) -> (r: String)
        ensures
            r@ == iso_date_or_epoch(self.at()),
    {
        match utc_date_of_unix(self.unix) {
            Some((y, m, d)) => format_iso_date(y as i64, m as i64, d as i64),
            None => format_iso_date(1970, 1, 1),
        }
    }
}

impl Clock for FixedClock {
    fn now_unix(&self) -> (r: i64)
        ensures
            r == self.at(),
    {
        self.unix_now()
    }

    fn now_rfc3339(&self) -> (r: String)
        ensures
            r@ == rfc3339_or_epoch(self.at()),
    {
        self.rfc3339_now()
    }

    fn now_date_iso8601(&self) -> (r: String)
        ensures
            r@ == iso_date_or_epoch(self.at()),
    {
        self.date_iso8601_now()
    }
}

} // verus!
