//! Proactive model management — time-based scheduling: a schedule file
//! maps model names to UTC time windows on chosen weekdays.

use vstd::prelude::*;
use crate::text::{chars_of, find_char_from, first_index_of, parse_int_spec, parse_u8, slice_chars, str_eq};

verus! {

/// Schema tag for versioned schedule files.
pub const SCHEDULE_SCHEMA: &'static str = "russell.schedule.v1";

/// A single schedule entry mapping a model to a time window.
#[derive(Debug, Clone)]
pub struct Schedule {
    /// LLM model identifier (e.g. `deepseek-v4-pro`).
    pub model: String,
    /// Start time in `HH:MM` 24-hour format.
    pub start: String,
    /// End time in `HH:MM` 24-hour format.
    pub end: String,
    /// Days of the week this schedule is active (e.g. `Mon`, `Fri`).
    /// Empty means every day.
    pub days: Vec<String>,
    /// Adapter overrides active during this window.
    pub adapters: Vec<String>,
}

/// The contents of a schedule file.
#[derive(Debug, Clone)]
pub struct SchedulesFile {
    /// Declared schema, if any.
    pub schema: Option<String>,
    /// The schedule entries.
    pub schedule: Vec<Schedule>,
}

/// Day of the week.
#[derive(Debug, Clone, Copy, PartialEq, Eq, Structural)]
pub enum Weekday {
    Monday,
    Tuesday,
    Wednesday,
    Thursday,
    Friday,
    Saturday,
    Sunday,
}

/// The weekday `k` days after a Monday, for `k` in `0..7`.
pub open spec fn weekday_from_monday(k: int) -> Weekday {
    if k == 0 {
        Weekday::Monday
    } else if k == 1 {
        Weekday::Tuesday
    } else if k == 2 {
        Weekday::Wednesday
    } else if k == 3 {
        Weekday::Thursday
    } else if k == 4 {
        Weekday::Friday
    } else if k == 5 {
        Weekday::Saturday
    } else {
        Weekday::Sunday
    }
}

/// The short name schedule files use for a weekday.
pub open spec fn short_day_name(w: Weekday) -> Seq<char> {
    match w {
        Weekday::Monday => seq!['M', 'o', 'n'],
        Weekday::Tuesday => seq!['T', 'u', 'e'],
        Weekday::Wednesday => seq!['W', 'e', 'd'],
        Weekday::Thursday => seq!['T', 'h', 'u'],
        Weekday::Friday => seq!['F', 'r', 'i'],
        Weekday::Saturday => seq!['S', 'a', 't'],
        Weekday::Sunday => seq!['S', 'u', 'n'],
    }
}

/// UTC hour, minute and weekday `secs` seconds after the epoch, a
/// Thursday.
pub open spec fn utc_clock(secs: int) -> (int, int, Weekday) {
    let in_day = secs % 86400;
    (in_day / 3600, (in_day % 3600) / 60, weekday_from_monday((secs / 86400 + 3) % 7))
}

/// UTC hour, minute and weekday of `total_secs` seconds after the epoch
/// (1970-01-01 was a Thursday).
pub fn utc_clock_parts(total_secs: u64) -> (r: (u8, u8, Weekday))
    ensures
        r.0 == utc_clock(total_secs as int).0,
        r.1 == utc_clock(total_secs as int).1,
        r.2 == utc_clock(total_secs as int).2,
{
    let secs_since_midnight = total_secs % 86400;
    let hour = (secs_since_midnight / 3600) as u8;
    let minute = ((secs_since_midnight % 3600) / 60) as u8;
    let days = total_secs / 86400;
    let k = (days % 7 + 3) % 7;
    proof {
        assert((days % 7 + 3) % 7 == (days + 3) % 7) by (nonlinear_arith);
    }
    let wday = if k == 0 {
        Weekday::Monday
    } else if k == 1 {
        Weekday::Tuesday
    } else if k == 2 {
        Weekday::Wednesday
    } else if k == 3 {
        Weekday::Thursday
    } else if k == 4 {
        Weekday::Friday
    } else if k == 5 {
        Weekday::Saturday
    } else {
        Weekday::Sunday
    };
    (hour, minute, wday)
}

/// `HH:MM` read as `(hour, minute)`: the text before the first `:` and
/// the text after it, each a `u8`, hour at most 23, minute at most 59.
pub open spec fn time_of(s: Seq<char>) -> Option<(int, int)> {
    match first_index_of(s, ':') {
        None => None,
        Some(i) => match (parse_int_spec(s.take(i), false), parse_int_spec(s.skip(i + 1), false)) {
            (Some(h), Some(m)) => if h <= 23 && m <= 59 { Some((h, m)) } else { None },
            _ => None,
        },
    }
}

/// Parse `HH:MM` in 24-hour form.
pub fn parse_time(s: &str) -> (r: Option<(u8, u8)>)
    ensures
        match time_of(s@) {
            Some((h, m)) => r == Some((h as u8, m as u8)),
            None => r is None,
        },
{
    let cs = chars_of(s);
    let colon = match find_char_from(&cs, ':', 0) {
        Some(i) => i,
        None => {
            proof {
                assert(cs@.skip(0) =~= cs@);
            }
            return None;
        },
    };
    proof {
        assert(cs@.skip(0) =~= cs@);
    }
    let hs = slice_chars(&cs, 0, colon);
    let ms = slice_chars(&cs, colon + 1, cs.len());
    proof {
        assert(hs@ =~= cs@.take(colon as int));
        assert(ms@ =~= cs@.skip(colon + 1));
    }
    let h = match parse_u8(&hs) {
        Some(h) => h,
        None => return None,
    };
    let m = match parse_u8(&ms) {
        Some(m) => m,
        None => return None,
    };
    if h > 23 || m > 59 {
        return None;
    }
    Some((h, m))
}

/// Whether one of `days` names `w`; unknown names are ignored.
pub open spec fn day_listed(w: Weekday, days: Seq<String>) -> bool {
    exists|k: int| 0 <= k < days.len() && (#[trigger] days[k])@ == short_day_name(w)
}

proof fn lemma_day_literals()
    ensures
        "Mon"@ == short_day_name(Weekday::Monday),
        "Tue"@ == short_day_name(Weekday::Tuesday),
        "Wed"@ == short_day_name(Weekday::Wednesday),
        "Thu"@ == short_day_name(Weekday::Thursday),
        "Fri"@ == short_day_name(Weekday::Friday),
        "Sat"@ == short_day_name(Weekday::Saturday),
        "Sun"@ == short_day_name(Weekday::Sunday),
{
    reveal_strlit("Mon");
    reveal_strlit("Tue");
    reveal_strlit("Wed");
    reveal_strlit("Thu");
    reveal_strlit("Fri");
    reveal_strlit("Sat");
    reveal_strlit("Sun");
    assert("Mon"@ =~= short_day_name(Weekday::Monday));
    assert("Tue"@ =~= short_day_name(Weekday::Tuesday));
    assert("Wed"@ =~= short_day_name(Weekday::Wednesday));
    assert("Thu"@ =~= short_day_name(Weekday::Thursday));
    assert("Fri"@ =~= short_day_name(Weekday::Friday));
    assert("Sat"@ =~= short_day_name(Weekday::Saturday));
    assert("Sun"@ =~= short_day_name(Weekday::Sunday));
}

fn day_name(w: Weekday) -> (r: &'static str)
    ensures
        r@ == short_day_name(w),
{
    proof {
        lemma_day_literals();
    }
    match w {
        Weekday::Monday => "Mon",
        Weekday::Tuesday => "Tue",
        Weekday::Wednesday => "Wed",
        Weekday::Thursday => "Thu",
        Weekday::Friday => "Fri",
        Weekday::Saturday => "Sat",
        Weekday::Sunday => "Sun",
    }
}

/// Whether one of `days` names `wday`.
pub fn day_matches(wday: Weekday, days: &[String]) -> (r: bool)
    ensures
        r == day_listed(wday, days@),
{
    let name = day_name(wday);
    let mut i: usize = 0;
    while i < days.len()
        invariant
            i <= days@.len(),
            name@ == short_day_name(wday),
            forall|k: int| 0 <= k < i ==> (#[trigger] days@[k])@ != short_day_name(wday),
        decreases days@.len() - i,
    {
        if str_eq(days[i].as_str(), name) {
            return true;
        }
        i = i + 1;
    }
    false
}

/// Whether minute-of-day `now` falls in `[start, end)`, a window that
/// wraps past midnight when `start` is after `end`.
pub open spec fn in_window(now: int, start: int, end: int) -> bool {
    if start <= end {
        start <= now && now < end
    } else {
        now >= start || now < end
    }
}

/// Whether entry `e` is active at `h:m` on `w`: both its times parse,
/// the time falls in its window, and its day list is empty or names
/// `w`.
pub open spec fn entry_active(e: Schedule, h: int, m: int, w: Weekday) -> bool {
    match (time_of(e.start@), time_of(e.end@)) {
        (Some((sh, sm)), Some((eh, em))) => in_window(h * 60 + m, sh * 60 + sm, eh * 60 + em)
            && (e.days@.len() == 0 || day_listed(w, e.days@)),
        _ => false,
    }
}

/// Whether entry `e` is active `secs` seconds after the epoch (UTC).
pub open spec fn entry_active_at(e: Schedule, secs: int) -> bool {
    let c = utc_clock(secs);
    entry_active(e, c.0, c.1, c.2)
}

/// The entry picked from `es` at UTC `h:m` on `w`: the first active
/// one, or none when none is active.
pub open spec fn picks_active(es: Seq<Schedule>, h: int, m: int, w: Weekday, r: Option<Schedule>) -> bool {
    match r {
        Some(e) => exists|i: int| {
            &&& 0 <= i < es.len()
            &&& es[i] == e
            &&& entry_active(e, h, m, w)
            &&& forall|j: int| 0 <= j < i ==> !entry_active(es[j], h, m, w)
        },
        None => forall|j: int| 0 <= j < es.len() ==> !entry_active(#[trigger] es[j], h, m, w),
    }
}

/// The entry picked from `es` at `secs` seconds after the epoch (UTC).
pub open spec fn picks_active_at(es: Seq<Schedule>, secs: int, r: Option<Schedule>) -> bool {
    let c = utc_clock(secs);
    picks_active(es, c.0, c.1, c.2, r)
}

/// The entry a borrowed pick refers to.
pub open spec fn opt_schedule(r: Option<&Schedule>) -> Option<Schedule> {
    match r {
        Some(e) => Some(*e),
        None => None,
    }
}

/// A collection of time-based model schedules.
#[derive(Debug, Clone)]
pub struct ScheduleSet {
    entries: Vec<Schedule>,
}

impl ScheduleSet {
    /// The entries, in order.
    pub closed spec fn entries(&self) -> Seq<Schedule> {
        self.entries@
    }

    /// An empty schedule set (no time-based overrides).
    pub fn new() -> (r: Self)
        ensures
            r.entries().len() == 0,
    {
        ScheduleSet { entries: Vec::new() }
    }

    /// The set a parsed schedule file gives: its entries, or none when
    /// it declares another schema.
    pub fn from_file(file: SchedulesFile) -> (r: Self)
        ensures
            match file.schema {
                Some(s) => if s@ == SCHEDULE_SCHEMA@ { r.entries() == file.schedule@ } else { r.entries().len() == 0 },
                None => r.entries() == file.schedule@,
            },
    {
        match &file.schema {
            Some(s) => {
                if !str_eq(s.as_str(), SCHEDULE_SCHEMA) {
                    return ScheduleSet::new();
                }
            },
            None => {},
        }
        ScheduleSet { entries: file.schedule }
    }

    /// The first entry active at UTC `hour:minute` on `wday`; entries
    /// with malformed times are skipped.
    pub fn active_at(&self, hour: u8, minute: u8, wday: Weekday) -> (r: Option<&Schedule>)
        ensures
            match r {
                Some(e) => exists|i: int| {
                    &&& 0 <= i < self.entries().len()
                    &&& self.entries()[i] == *e
                    &&& entry_active(*e, hour as int, minute as int, wday)
                    &&& forall|j: int| 0 <= j < i ==> !entry_active(self.entries()[j], hour as int, minute as int, wday)
                },
                None => forall|j: int| 0 <= j < self.entries().len()
                    ==> !entry_active(#[trigger] self.entries()[j], hour as int, minute as int, wday),
            },
    {
        let now: u32 = hour as u32 * 60 + minute as u32;
        let mut i: usize = 0;
        while i < self.entries.len()
            invariant
                i <= self.entries@.len(),
                now == hour * 60 + minute,
                forall|j: int| 0 <= j < i ==> !entry_active(#[trigger] self.entries@[j], hour as int, minute as int, wday),
            decreases self.entries@.len() - i,
        {
            let entry = &self.entries[i];
            match (parse_time(entry.start.as_str()), parse_time(entry.end.as_str())) {
                (Some((sh, sm)), Some((eh, em))) => {
                    let start: u32 = sh as u32 * 60 + sm as u32;
                    let end: u32 = eh as u32 * 60 + em as u32;
                    let inside = if start <= end {
                        now >= start && now < end
                    } else {
                        now >= start || now < end
                    };
                    if inside && (entry.days.len() == 0 || day_matches(wday, entry.days.as_slice())) {
                        proof {
                            assert(self.entries()[i as int] == *entry);
                            assert(in_window(hour * 60 + minute, sh * 60 + sm, eh * 60 + em));
                            assert(entry_active(*entry, hour as int, minute as int, wday));
                        }
                        return Some(entry);
                    }
                },
                _ => {},
            }
            i = i + 1;
        }
        None
    }

    /// The entry active at the current UTC time, if any; a clock that
    /// stands before the epoch reads as the epoch.
    pub fn active_now(&self) -> (r: Option<&Schedule>)
        ensures
            exists|secs: u64| #[trigger] picks_active_at(self.entries(), secs as int, opt_schedule(r)),
    {
        let secs: u64 = match crate::time::system_secs_since_epoch() {
            Some(s) => s,
            None => 0,
        };
        let (h, m, w) = utc_clock_parts(secs);
        let r = self.active_at(h, m, w);
        proof {
            assert(picks_active_at(self.entries(), secs as int, opt_schedule(r)));
        }
        r
    }

    /// Number of schedule entries.
    pub fn len(&self) -> (r: usize)
        ensures
            r == self.entries().len(),
    {
        self.entries.len()
    }

    /// Whether there are no schedule entries.
    pub fn is_empty(&self) -> (r: bool)
        ensures
            r == (self.entries().len() == 0),
    {
        self.entries.len() == 0
    }
}

// ─── laws ────────────────────────────────────────────────────

/// An entry with no day list is active by minutes of the day: from its
/// start (inclusive) to its end (exclusive) when the start comes first;
/// across midnight, from its start or before its end, otherwise.
pub proof fn lemma_active_by_minutes(e: Schedule, h: int, m: int, w: Weekday, sh: int, sm: int, eh: int, em: int)
    requires
        time_of(e.start@) == Some((sh, sm)),
        time_of(e.end@) == Some((eh, em)),
        e.days@.len() == 0,
    ensures
        sh * 60 + sm <= eh * 60 + em ==> (entry_active(e, h, m, w) <==> (sh * 60 + sm <= h * 60 + m && h * 60 + m < eh * 60 + em)),
        sh * 60 + sm > eh * 60 + em ==> (entry_active(e, h, m, w) <==> (h * 60 + m >= sh * 60 + sm || h * 60 + m < eh * 60 + em)),
{
}

/// An entry whose start or end does not parse is never active.
pub proof fn lemma_unparsed_never_active(e: Schedule, h: int, m: int, w: Weekday)
    requires
        time_of(e.start@) is None || time_of(e.end@) is None,
    ensures
        !entry_active(e, h, m, w),
{
}

/// An entry with a day list is active only on a listed day.
pub proof fn lemma_active_only_on_listed_days(e: Schedule, h: int, m: int, w: Weekday)
    requires
        e.days@.len() > 0,
        entry_active(e, h, m, w),
    ensures
        exists|k: int| 0 <= k < e.days@.len() && (#[trigger] e.days@[k])@ == short_day_name(w),
{
}

/// The days of the week counted from Monday.
pub open spec fn day_number(w: Weekday) -> int {
    match w {
        Weekday::Monday => 0,
        Weekday::Tuesday => 1,
        Weekday::Wednesday => 2,
        Weekday::Thursday => 3,
        Weekday::Friday => 4,
        Weekday::Saturday => 5,
        Weekday::Sunday => 6,
    }
}

/// The UTC clock read from seconds since the epoch: the hour and minute
/// are those of the second within its day, the epoch fell on a
/// Thursday, and each day later is the next weekday.
pub proof fn lemma_clock_reading(secs: int)
    requires
        secs >= 0,
    ensures
        0 <= utc_clock(secs).0 < 24,
        0 <= utc_clock(secs).1 < 60,
        utc_clock(secs).0 * 3600 + utc_clock(secs).1 * 60 <= secs % 86400 < utc_clock(secs).0 * 3600 + utc_clock(secs).1 * 60 + 60,
        utc_clock(0).2 == Weekday::Thursday,
        day_number(utc_clock(secs + 86400).2) == (day_number(utc_clock(secs).2) + 1) % 7,
{
    let d = secs / 86400;
    assert((secs + 86400) / 86400 == d + 1);
    assert((d + 1 + 3) % 7 == ((d + 3) % 7 + 1) % 7);
}

} // verus!
