//! Reflex arcs — autonomous corrective actions — and the global reflex
//! budget with its circuit breaker.
//!
//! A reflex arc maps a (probe, severity) pair to a skill intervention.
//! The budget caps how many interventions fire per rolling hour, and a
//! circuit breaker halts all reflex activity after consecutive failures
//! until an operator resets it.

use std::collections::VecDeque;
use vstd::prelude::*;
use crate::event::{Severity, severity_rank};
use crate::text::str_eq;
use crate::time::{parse_rfc3339_unix, rfc3339_unix};

verus! {

/// Schema tag for versioned reflex arc files.
pub const REFLEX_SCHEMA: &'static str = "russell.reflex.v1";

/// Default minimum seconds between firings of one arc.
pub const DEFAULT_COOLDOWN_SECS: i64 = 3600;

/// Default automatic retries before escalating to the operator.
pub const DEFAULT_MAX_RETRIES: u32 = 3;

/// One reflex arc: a probe + severity trigger → intervention mapping.
#[derive(Debug, Clone)]
pub struct ReflexArc {
    /// Probe name that triggers this arc, e.g. `disk_root_used_pct`.
    pub probe: String,
    /// Minimum severity that triggers the arc (default `alert`).
    pub min_severity: Severity,
    /// Intervention ID in `skill_id/intervention_id` format.
    pub intervention: String,
    /// Minimum seconds between successive firings (default 3600).
    pub cooldown_secs: i64,
    /// Maximum automatic retries before escalating (default 3).
    pub max_retries: u32,
}

/// What an arc is, as plain values.
pub struct ArcView {
    pub probe: Seq<char>,
    pub min_severity: Severity,
    pub intervention: Seq<char>,
    pub cooldown_secs: i64,
    pub max_retries: u32,
}

impl ReflexArc {
    pub open spec fn view_arc(&self) -> ArcView {
        ArcView {
            probe: self.probe@,
            min_severity: self.min_severity,
            intervention: self.intervention@,
            cooldown_secs: self.cooldown_secs,
            max_retries: self.max_retries,
        }
    }

    /// A copy of this arc.
    pub fn duplicate(&self) -> (r: ReflexArc)
        ensures
            r.view_arc() == self.view_arc(),
    {
        ReflexArc {
            probe: self.probe.clone(),
            min_severity: self.min_severity,
            intervention: self.intervention.clone(),
            cooldown_secs: self.cooldown_secs,
            max_retries: self.max_retries,
        }
    }
}

/// The contents of one reflex arc file.
#[derive(Debug, Clone)]
pub struct ReflexFile {
    /// Declared schema, if any.
    pub schema: Option<String>,
    /// The arcs it lists.
    pub arc: Vec<ReflexArc>,
}

/// The views of a sequence of arcs.
pub open spec fn arc_views(s: Seq<ReflexArc>) -> Seq<ArcView> {
    Seq::new(s.len(), |i: int| s[i].view_arc())
}

/// Index of the first arc for `probe`.
pub open spec fn probe_index(s: Seq<ArcView>, probe: Seq<char>) -> Option<int>
    decreases s.len(),
{
    if s.len() == 0 {
        None
    } else {
        match probe_index(s.drop_last(), probe) {
            Some(i) => Some(i),
            None => if s.last().probe == probe { Some(s.len() - 1) } else { None },
        }
    }
}

/// One arc merged in: it replaces the first arc for its probe, else it
/// is appended.
pub open spec fn merge_arc(s: Seq<ArcView>, a: ArcView) -> Seq<ArcView> {
    match probe_index(s, a.probe) {
        Some(i) => s.update(i, a),
        None => s.push(a),
    }
}

/// The first `n` arcs of `arcs` merged in, in order.
pub open spec fn merge_arcs(s: Seq<ArcView>, arcs: Seq<ArcView>, n: int) -> Seq<ArcView>
    decreases n,
{
    if n <= 0 {
        s
    } else {
        merge_arc(merge_arcs(s, arcs, n - 1), arcs[n - 1])
    }
}

/// Whether a file's declared schema, if any, is the reflex schema.
pub open spec fn schema_accepted(schema: Option<String>) -> bool {
    match schema {
        Some(s) => s@ == REFLEX_SCHEMA@,
        None => true,
    }
}

pub proof fn lemma_probe_index(s: Seq<ArcView>, probe: Seq<char>)
    ensures
        match probe_index(s, probe) {
            Some(i) => 0 <= i < s.len() && s[i].probe == probe && forall|j: int| 0 <= j < i ==> s[j].probe != probe,
            None => forall|j: int| 0 <= j < s.len() ==> s[j].probe != probe,
        },
    decreases s.len(),
{
    if s.len() > 0 {
        let t = s.drop_last();
        lemma_probe_index(t, probe);
        assert forall|j: int| 0 <= j < t.len() implies t[j] == s[j] by {}
    }
}

/// Whether arc `a` fires for `probe` at `severity`.
pub open spec fn arc_fires(a: ArcView, probe: Seq<char>, severity: Severity) -> bool {
    a.probe == probe && severity_rank(severity) >= severity_rank(a.min_severity)
}

/// A loaded collection of reflex arcs, at most one per probe once
/// merged from files.
#[derive(Debug, Clone)]
pub struct ReflexSet {
    arcs: Vec<ReflexArc>,
}

impl ReflexSet {
    /// The arcs, in order.
    pub closed spec fn arcs(&self) -> Seq<ArcView> {
        arc_views(self.arcs@)
    }

    /// An empty reflex set.
    pub fn new() -> (r: Self)
        ensures
            r.arcs().len() == 0,
    {
        ReflexSet { arcs: Vec::new() }
    }

    /// A set holding `arcs` as given.
    pub fn from_arcs(arcs: Vec<ReflexArc>) -> (r: Self)
        ensures
            r.arcs() == arc_views(arcs@),
    {
        ReflexSet { arcs }
    }

    fn position_of(&self, probe: &str) -> (r: Option<usize>)
        ensures
            match r {
                Some(i) => probe_index(self.arcs(), probe@) == Some(i as int),
                None => probe_index(self.arcs(), probe@) is None,
            },
    {
        proof {
            lemma_probe_index(self.arcs(), probe@);
        }
        let mut i: usize = 0;
        while i < self.arcs.len()
            invariant
                i <= self.arcs@.len(),
                forall|j: int| 0 <= j < i ==> self.arcs@[j].probe@ != probe@,
            decreases self.arcs@.len() - i,
        {
            if str_eq(self.arcs[i].probe.as_str(), probe) {
                proof {
                    assert(self.arcs()[i as int].probe == probe@);
                    assert forall|j: int| 0 <= j < i implies self.arcs()[j].probe != probe@ by {
                        assert(self.arcs()[j].probe == self.arcs@[j].probe@);
                    }
                    lemma_probe_index(self.arcs(), probe@);
                }
                return Some(i);
            }
            i = i + 1;
        }
        proof {
            assert forall|j: int| 0 <= j < self.arcs().len() implies self.arcs()[j].probe != probe@ by {
                assert(self.arcs()[j].probe == self.arcs@[j].probe@);
            }
        }
        None
    }

    /// Merge one arc: it overrides the first arc for its probe, or is
    /// appended when there is none.
    pub fn merge_one(&mut self, arc: ReflexArc)
        ensures
            final(self).arcs() == merge_arc(old(self).arcs(), arc.view_arc()),
    {
        let ghost a = arc.view_arc();
        match self.position_of(arc.probe.as_str()) {
            Some(pos) => {
                proof {
                    lemma_probe_index(old(self).arcs(), a.probe);
                }
                self.arcs.set(pos, arc);
                proof {
                    assert(self.arcs() =~= old(self).arcs().update(pos as int, a));
                }
            },
            None => {
                self.arcs.push(arc);
                proof {
                    assert(self.arcs() =~= old(self).arcs().push(a));
                }
            },
        }
    }

    /// Merge the arcs of one parsed reflex file, operator overrides
    /// winning over what is loaded. A file that declares another schema
    /// is skipped whole; the result says whether it was merged.
    pub fn merge_file(&mut self, file: ReflexFile) -> (merged: bool)
        ensures
            merged == schema_accepted(file.schema),
            merged ==> final(self).arcs() == merge_arcs(old(self).arcs(), arc_views(file.arc@), file.arc@.len() as int),
            !merged ==> final(self).arcs() == old(self).arcs(),
    {
        let accepted = match &file.schema {
            Some(s) => str_eq(s.as_str(), REFLEX_SCHEMA),
            None => true,
        };
        if !accepted {
            return false;
        }
        let ghost s0 = self.arcs();
        let ghost fa = arc_views(file.arc@);
        let n = file.arc.len();
        let mut i: usize = 0;
        while i < n
            invariant
                i <= n,
                n == file.arc@.len(),
                fa == arc_views(file.arc@),
                self.arcs() == merge_arcs(s0, fa, i as int),
            decreases n - i,
        {
            let a = file.arc[i].duplicate();
            proof {
                assert(fa[i as int] == a.view_arc());
            }
            self.merge_one(a);
            i = i + 1;
        }
        true
    }

    /// The first arc registered for `probe` whose minimum severity
    /// `severity` reaches; `None` if there is none.
    pub fn find(&self, probe: &str, severity: Severity) -> (r: Option<&ReflexArc>)
        ensures
            match r {
                Some(a) => exists|i: int| {
                    &&& 0 <= i < self.arcs().len()
                    &&& self.arcs()[i] == a.view_arc()
                    &&& arc_fires(self.arcs()[i], probe@, severity)
                    &&& forall|j: int| 0 <= j < i ==> !arc_fires(self.arcs()[j], probe@, severity)
                },
                None => forall|j: int| 0 <= j < self.arcs().len() ==> !arc_fires(#[trigger] self.arcs()[j], probe@, severity),
            },
    {
        let mut i: usize = 0;
        while i < self.arcs.len()
            invariant
                i <= self.arcs@.len(),
                forall|j: int| 0 <= j < i ==> !arc_fires(#[trigger] self.arcs()[j], probe@, severity),
            decreases self.arcs@.len() - i,
        {
            let a = &self.arcs[i];
            if str_eq(a.probe.as_str(), probe) && severity.rank() >= a.min_severity.rank() {
                proof {
                    assert(self.arcs()[i as int] == a.view_arc());
                }
                return Some(a);
            }
            i = i + 1;
        }
        None
    }

    /// Number of loaded arcs.
    pub fn len(&self) -> (r: usize)
        ensures
            r == self.arcs().len(),
    {
        self.arcs.len()
    }

    /// Whether no arc is loaded.
    pub fn is_empty(&self) -> (r: bool)
        ensures
            r == (self.arcs().len() == 0),
    {
        self.arcs.len() == 0
    }
}

/// Merging an arc leaves exactly one arc for its probe at the first
/// place one stood, or appends it: every other arc keeps its place.
pub proof fn lemma_merge_overrides(s: Seq<ArcView>, a: ArcView)
    ensures
        probe_index(merge_arc(s, a), a.probe) matches Some(i) && merge_arc(s, a)[i] == a,
        forall|j: int| 0 <= j < s.len() && s[j].probe != a.probe ==> #[trigger] merge_arc(s, a)[j] == s[j],
        merge_arc(s, a).len() == if probe_index(s, a.probe) is Some { s.len() } else { s.len() + 1 },
{
    lemma_probe_index(s, a.probe);
    let m = merge_arc(s, a);
    lemma_probe_index(m, a.probe);
    match probe_index(s, a.probe) {
        Some(i) => {
            match probe_index(m, a.probe) {
                Some(k) => {
                    if k < i {
                        assert(m[k] == s[k]);
                    }
                    if k > i {
                        assert(m[i] == a);
                    }
                },
                None => {
                    assert(m[i] == a);
                },
            }
        },
        None => {
            let n = s.len() as int;
            match probe_index(m, a.probe) {
                Some(k) => {
                    if k < n {
                        assert(m[k] == s[k]);
                    }
                },
                None => {
                    assert(m[n] == a);
                },
            }
        },
    }
}

// ─── global reflex budget & circuit breaker ──────────────────

/// Default maximum interventions per hour across all arcs.
pub const DEFAULT_BUDGET_PER_HOUR: u32 = 5;

/// Default consecutive failures before the breaker opens.
pub const DEFAULT_BREAKER_THRESHOLD: u32 = 3;

/// Length of the budget window in seconds.
pub const BUDGET_WINDOW_SECS: i64 = 3600;

/// Result of a budget check before reflex execution.
#[derive(Debug, Clone, Copy, PartialEq, Eq, Structural)]
pub enum BudgetVerdict {
    /// Intervention may proceed.
    Allowed,
    /// Budget exhausted — too many interventions this hour.
    BudgetExhausted,
    /// Circuit breaker tripped — consecutive failures reached the
    /// threshold.
    BreakerOpen,
}

/// Global execution budget preventing cascading intervention storms:
/// a rolling count of interventions in the last hour, and a circuit
/// breaker that opens after consecutive failures.
#[derive(Debug, Clone)]
pub struct ReflexBudget {
    max_per_hour: u32,
    recent_firings: VecDeque<i64>,
    consecutive_failures: u32,
    breaker_threshold: u32,
    breaker_open: bool,
}

/// The budget's state as plain values.
pub struct BudgetState {
    pub max_per_hour: u32,
    pub firings: Seq<i64>,
    pub failures: u32,
    pub threshold: u32,
    pub breaker_open: bool,
}

/// How many leading firings are older than the window ending at `now`:
/// eviction stops at the first firing inside the window.
pub open spec fn stale_prefix(firings: Seq<i64>, now: int) -> nat
    decreases firings.len(),
{
    if firings.len() == 0 || firings[0] >= now - 3600 {
        0
    } else {
        1 + stale_prefix(firings.drop_first(), now)
    }
}

/// The firings kept after eviction at `now`.
pub open spec fn evicted(firings: Seq<i64>, now: int) -> Seq<i64> {
    firings.skip(stale_prefix(firings, now) as int)
}

/// The verdict and the state after `check(now)`.
pub open spec fn check_step(st: BudgetState, now: int) -> (BudgetVerdict, BudgetState) {
    if st.breaker_open {
        (BudgetVerdict::BreakerOpen, st)
    } else {
        let kept = evicted(st.firings, now);
        let st2 = BudgetState { firings: kept, ..st };
        if (kept.len() as u32) >= st.max_per_hour {
            (BudgetVerdict::BudgetExhausted, st2)
        } else {
            (BudgetVerdict::Allowed, st2)
        }
    }
}

/// The state after an outcome is recorded: success clears the failure
/// count; a failure counts, and opens the breaker at the threshold.
pub open spec fn outcome_step(st: BudgetState, success: bool) -> BudgetState {
    if success {
        BudgetState { failures: 0, ..st }
    } else {
        BudgetState {
            failures: (st.failures + 1) as u32,
            breaker_open: st.breaker_open || st.failures + 1 >= st.threshold,
            ..st
        }
    }
}

/// Whether every firing is at or before the next.
pub open spec fn sorted_ts(s: Seq<i64>) -> bool {
    forall|i: int, j: int| 0 <= i <= j < s.len() ==> s[i] <= s[j]
}

pub proof fn lemma_stale_prefix(firings: Seq<i64>, now: int)
    ensures
        stale_prefix(firings, now) <= firings.len(),
        forall|i: int| 0 <= i < stale_prefix(firings, now) ==> firings[i] < now - 3600,
        stale_prefix(firings, now) < firings.len() ==> firings[stale_prefix(firings, now) as int] >= now - 3600,
    decreases firings.len(),
{
    if firings.len() > 0 && firings[0] < now - 3600 {
        lemma_stale_prefix(firings.drop_first(), now);
        assert forall|i: int| 0 <= i < stale_prefix(firings, now) implies firings[i] < now - 3600 by {
            if i > 0 {
                assert(firings[i] == firings.drop_first()[i - 1]);
            }
        }
    }
}

impl ReflexBudget {
    /// The budget's state.
    pub closed spec fn state(&self) -> BudgetState {
        BudgetState {
            max_per_hour: self.max_per_hour,
            firings: self.recent_firings@,
            failures: self.consecutive_failures,
            threshold: self.breaker_threshold,
            breaker_open: self.breaker_open,
        }
    }

    /// A budget with the default thresholds: 5 interventions per hour,
    /// breaker after 3 consecutive failures.
    pub fn new() -> (r: Self)
        ensures
            r.state() == (BudgetState {
                max_per_hour: DEFAULT_BUDGET_PER_HOUR,
                firings: Seq::empty(),
                failures: 0,
                threshold: DEFAULT_BREAKER_THRESHOLD,
                breaker_open: false,
            }),
    {
        ReflexBudget::with_limits(DEFAULT_BUDGET_PER_HOUR, DEFAULT_BREAKER_THRESHOLD)
    }

    /// A budget with custom thresholds.
    pub fn with_limits(max_per_hour: u32, breaker_threshold: u32) -> (r: Self)
        ensures
            r.state() == (BudgetState {
                max_per_hour,
                firings: Seq::empty(),
                failures: 0,
                threshold: breaker_threshold,
                breaker_open: false,
            }),
    {
        ReflexBudget {
            max_per_hour,
            recent_firings: VecDeque::new(),
            consecutive_failures: 0,
            breaker_threshold,
            breaker_open: false,
        }
    }

    /// A budget restored from the journal: the timestamps of the
    /// `reflex_proposed` events of the last hour (RFC 3339 text, as
    /// stored) become its firings, oldest first, those that do not
    /// parse dropped; the breaker is open when a `reflex_breaker_open`
    /// event stamped within the last hour is among `breaker_events`.
    pub fn from_recent_events(proposed: &Vec<String>, breaker_events: &Vec<String>, now_unix: i64) -> (r: Self)
        requires
            now_unix >= i64::MIN + 3600,
        ensures
            r.state().max_per_hour == DEFAULT_BUDGET_PER_HOUR,
            r.state().threshold == DEFAULT_BREAKER_THRESHOLD,
            r.state().failures == 0,
            sorted_ts(r.state().firings),
            r.state().firings.to_multiset() == parsed_stamps(proposed@, proposed@.len() as int).to_multiset(),
            r.state().breaker_open == (exists|i: int| 0 <= i < breaker_events@.len()
                && #[trigger] stamped_after(breaker_events@[i]@, now_unix - 3600)),
    {
        let mut stamps: Vec<i64> = Vec::new();
        let mut i: usize = 0;
        while i < proposed.len()
            invariant
                i <= proposed@.len(),
                stamps@ == parsed_stamps(proposed@, i as int),
            decreases proposed@.len() - i,
        {
            match parse_rfc3339_unix(proposed[i].as_str()) {
                Some(t) => stamps.push(t),
                None => {},
            }
            i = i + 1;
        }
        let sorted = sort_ascending(&stamps);
        let mut firings: VecDeque<i64> = VecDeque::new();
        let mut k: usize = 0;
        while k < sorted.len()
            invariant
                k <= sorted@.len(),
                firings@ == sorted@.take(k as int),
            decreases sorted@.len() - k,
        {
            firings.push_back(sorted[k]);
            proof {
                assert(sorted@.take(k as int + 1) =~= sorted@.take(k as int).push(sorted@[k as int]));
            }
            k = k + 1;
        }
        proof {
            assert(sorted@.take(sorted@.len() as int) =~= sorted@);
        }
        let window_start = now_unix - 3600;
        let mut breaker_open = false;
        let mut j: usize = 0;
        while j < breaker_events.len()
            invariant
                j <= breaker_events@.len(),
                window_start == now_unix - 3600,
                breaker_open == (exists|b: int| 0 <= b < j
                    && #[trigger] stamped_after(breaker_events@[b]@, window_start as int)),
            decreases breaker_events@.len() - j,
        {
            let parsed = parse_rfc3339_unix(breaker_events[j].as_str());
            let ghost hit = stamped_after(breaker_events@[j as int]@, window_start as int);
            match parsed {
                Some(t) => {
                    if t > window_start {
                        breaker_open = true;
                    }
                },
                None => {},
            }
            proof {
                assert(hit == (parsed matches Some(t) && t > window_start));
                if hit {
                    assert(stamped_after(breaker_events@[j as int]@, window_start as int));
                }
                assert forall|b: int| 0 <= b < j + 1 && #[trigger] stamped_after(breaker_events@[b]@, window_start as int)
                    implies breaker_open by {
                    if b == j {
                        assert(hit);
                    }
                }
            }
            j = j + 1;
        }
        ReflexBudget {
            max_per_hour: DEFAULT_BUDGET_PER_HOUR,
            recent_firings: firings,
            consecutive_failures: 0,
            breaker_threshold: DEFAULT_BREAKER_THRESHOLD,
            breaker_open,
        }
    }

    /// Whether a new intervention may fire at `now_unix`. With the
    /// breaker open: `BreakerOpen`. Otherwise firings older than an hour
    /// are evicted from the front, and the budget is exhausted when as
    /// many remain as the hourly maximum.
    pub fn check(&mut self, now_unix: i64) -> (r: BudgetVerdict)
        requires
            now_unix >= i64::MIN + 3600,
        ensures
            (r, final(self).state()) == check_step(old(self).state(), now_unix as int),
    {
        if self.breaker_open {
            return BudgetVerdict::BreakerOpen;
        }
        let window_start = now_unix - 3600;
        let ghost f0 = self.recent_firings@;
        proof {
            lemma_stale_prefix(f0, now_unix as int);
        }
        let ghost mut dropped: int = 0;
        while self.recent_firings.len() > 0 && self.recent_firings[0] < window_start
            invariant
                window_start == now_unix - 3600,
                0 <= dropped <= stale_prefix(f0, now_unix as int),
                stale_prefix(f0, now_unix as int) <= f0.len(),
                self.recent_firings@ == f0.skip(dropped),
                forall|i: int| 0 <= i < stale_prefix(f0, now_unix as int) ==> f0[i] < now_unix - 3600,
                stale_prefix(f0, now_unix as int) < f0.len() ==> f0[stale_prefix(f0, now_unix as int) as int] >= now_unix - 3600,
                self.max_per_hour == old(self).max_per_hour,
                self.consecutive_failures == old(self).consecutive_failures,
                self.breaker_threshold == old(self).breaker_threshold,
                self.breaker_open == old(self).breaker_open,
            decreases self.recent_firings@.len(),
        {
            proof {
                assert(f0.skip(dropped)[0] == f0[dropped]);
            }
            self.recent_firings.pop_front();
            proof {
                assert(f0.skip(dropped).drop_first() =~= f0.skip(dropped + 1));
                dropped = dropped + 1;
            }
        }
        proof {
            if dropped < stale_prefix(f0, now_unix as int) {
                assert(f0.skip(dropped)[0] == f0[dropped]);
            }
        }
        if (self.recent_firings.len() as u32) >= self.max_per_hour {
            return BudgetVerdict::BudgetExhausted;
        }
        BudgetVerdict::Allowed
    }

    /// Record that an intervention was dispatched at `now_unix`.
    pub fn record_firing(&mut self, now_unix: i64)
        ensures
            final(self).state() == (BudgetState { firings: old(self).state().firings.push(now_unix), ..old(self).state() }),
    {
        self.recent_firings.push_back(now_unix);
    }

    /// Record an intervention outcome: success clears the failure
    /// count; a failure counts, and opens the breaker once the count
    /// reaches the threshold.
    pub fn record_outcome(&mut self, success: bool)
        requires
            success || old(self).state().failures < u32::MAX,
        ensures
            final(self).state() == outcome_step(old(self).state(), success),
    {
        if success {
            self.consecutive_failures = 0;
        } else {
            self.consecutive_failures = self.consecutive_failures + 1;
            if self.consecutive_failures >= self.breaker_threshold {
                self.breaker_open = true;
            }
        }
    }

    /// Operator action: close the breaker and clear the failure count.
    pub fn reset_breaker(&mut self)
        ensures
            final(self).state() == (BudgetState { breaker_open: false, failures: 0, ..old(self).state() }),
    {
        self.breaker_open = false;
        self.consecutive_failures = 0;
    }

    /// Whether the circuit breaker is open.
    pub fn is_breaker_open(&self) -> (r: bool)
        ensures
            r == self.state().breaker_open,
    {
        self.breaker_open
    }

    /// Number of firings held in the current hour window (as `u32`).
    pub fn firings_this_hour(&self) -> (r: u32)
        ensures
            r == self.state().firings.len() as u32,
    {
        self.recent_firings.len() as u32
    }

    /// The consecutive failure count.
    pub fn consecutive_failures(&self) -> (r: u32)
        ensures
            r == self.state().failures,
    {
        self.consecutive_failures
    }
}

impl Default for ReflexBudget {
    /// The default budget.
    fn default() -> (r: Self)
        ensures
            r.state() == (BudgetState {
                max_per_hour: DEFAULT_BUDGET_PER_HOUR,
                firings: Seq::empty(),
                failures: 0,
                threshold: DEFAULT_BREAKER_THRESHOLD,
                breaker_open: false,
            }),
    {
        ReflexBudget::new()
    }
}

/// Whether `text` parses as an RFC 3339 time after `bound`.
pub open spec fn stamped_after(text: Seq<char>, bound: int) -> bool {
    match rfc3339_unix(text) {
        Some(t) => t > bound,
        None => false,
    }
}

/// The timestamps that parse among the first `n` texts, in order.
pub open spec fn parsed_stamps(texts: Seq<String>, n: int) -> Seq<i64>
    decreases n,
{
    if n <= 0 {
        Seq::empty()
    } else {
        let rest = parsed_stamps(texts, n - 1);
        match rfc3339_unix(texts[n - 1]@) {
            Some(t) => rest.push(t),
            None => rest,
        }
    }
}

/// `v` sorted ascending.
pub fn sort_ascending(v: &Vec<i64>) -> (r: Vec<i64>)
    ensures
        sorted_ts(r@),
        r@.to_multiset() == v@.to_multiset(),
{
    let mut out: Vec<i64> = Vec::new();
    let mut i: usize = 0;
    proof {
        assert(v@.take(0) =~= Seq::<i64>::empty());
        assert(out@ =~= Seq::<i64>::empty());
    }
    while i < v.len()
        invariant
            i <= v@.len(),
            sorted_ts(out@),
            out@.to_multiset() == v@.take(i as int).to_multiset(),
        decreases v@.len() - i,
    {
        let x = v[i];
        let mut pos: usize = 0;
        while pos < out.len() && out[pos] <= x
            invariant
                pos <= out@.len(),
                forall|j: int| 0 <= j < pos ==> out@[j] <= x,
            decreases out@.len() - pos,
        {
            pos = pos + 1;
        }
        let ghost o0 = out@;
        out.insert(pos, x);
        proof {
            assert(out@ == o0.insert(pos as int, x));
            assert forall|a: int, b: int| 0 <= a <= b < out@.len() implies out@[a] <= out@[b] by {
                if pos < o0.len() {
                    assert(o0[pos as int] > x);
                }
                if a < pos && b > pos {
                    assert(out@[b] == o0[b - 1]);
                }
            }
            assert(v@.take(i as int + 1) =~= v@.take(i as int).push(x));
            vstd::seq_lib::to_multiset_insert(o0, pos as int, x);
            vstd::seq_lib::to_multiset_build(v@.take(i as int), x);
        }
        i = i + 1;
    }
    proof {
        assert(v@.take(v@.len() as int) =~= v@);
    }
    out
}

// ─── laws ────────────────────────────────────────────────────

/// `n` failures recorded in a row.
pub open spec fn after_failures(st: BudgetState, n: nat) -> BudgetState
    decreases n,
{
    if n == 0 {
        st
    } else {
        outcome_step(after_failures(st, (n - 1) as nat), false)
    }
}

/// An open breaker stays open whatever outcome is recorded, and every
/// check answers `BreakerOpen` and changes nothing: only an operator
/// reset closes it.
pub proof fn lemma_breaker_latches(st: BudgetState, success: bool, now: int)
    requires
        st.breaker_open,
    ensures
        outcome_step(st, success).breaker_open,
        check_step(st, now) == (BudgetVerdict::BreakerOpen, st),
{
}

/// Once as many failures in a row as the threshold are recorded, the
/// breaker is open.
pub proof fn lemma_consecutive_failures_trip(st: BudgetState, n: nat)
    requires
        n >= 1,
        st.failures + n >= st.threshold,
        st.failures + n <= u32::MAX,
    ensures
        after_failures(st, n).breaker_open,
        after_failures(st, n).failures == st.failures + n,
    decreases n,
{
    if n > 1 {
        lemma_failures_count(st, (n - 1) as nat);
    } else {
        assert(after_failures(st, 0) == st);
    }
}

proof fn lemma_failures_count(st: BudgetState, n: nat)
    requires
        st.failures + n <= u32::MAX,
    ensures
        after_failures(st, n).failures == st.failures + n,
        after_failures(st, n).threshold == st.threshold,
    decreases n,
{
    if n > 0 {
        lemma_failures_count(st, (n - 1) as nat);
    }
}

/// The budget holds: when a check allows an intervention, fewer firings
/// than the hourly maximum stand in the window, and every firing inside
/// the window was kept.
pub proof fn lemma_allowed_under_budget(st: BudgetState, now: int)
    requires
        st.firings.len() <= u32::MAX,
        check_step(st, now).0 == BudgetVerdict::Allowed,
    ensures
        check_step(st, now).1.firings.len() < st.max_per_hour,
        forall|i: int| 0 <= i < st.firings.len() && st.firings[i] >= now - 3600
            ==> check_step(st, now).1.firings.contains(#[trigger] st.firings[i]),
{
    lemma_stale_prefix(st.firings, now);
    let k = stale_prefix(st.firings, now) as int;
    assert forall|i: int| 0 <= i < st.firings.len() && st.firings[i] >= now - 3600
        implies check_step(st, now).1.firings.contains(#[trigger] st.firings[i]) by {
        assert(i >= k);
        assert(evicted(st.firings, now)[i - k] == st.firings[i]);
    }
}

/// A budget as `with_limits(max_per_hour, threshold)` makes it.
pub open spec fn fresh_budget(max_per_hour: u32, threshold: u32) -> BudgetState {
    BudgetState { max_per_hour, firings: Seq::empty(), failures: 0, threshold, breaker_open: false }
}

/// `n` firings recorded at time `t`.
pub open spec fn after_firings(st: BudgetState, t: i64, n: nat) -> BudgetState
    decreases n,
{
    if n == 0 {
        st
    } else {
        let prev = after_firings(st, t, (n - 1) as nat);
        BudgetState { firings: prev.firings.push(t), ..prev }
    }
}

proof fn lemma_after_firings(st: BudgetState, t: i64, n: nat)
    ensures
        after_firings(st, t, n).firings =~= st.firings + Seq::new(n, |i: int| t),
        after_firings(st, t, n).max_per_hour == st.max_per_hour,
        after_firings(st, t, n).breaker_open == st.breaker_open,
    decreases n,
{
    if n > 0 {
        lemma_after_firings(st, t, (n - 1) as nat);
    }
}

/// The hourly rate limit: a fresh budget allows interventions until as
/// many firings as its hourly maximum are recorded at one time, and from
/// then on, within that hour, a check answers `BudgetExhausted`. (With a
/// maximum of 0, the first check is already exhausted.)
pub proof fn lemma_rate_limit_after_firings(max_per_hour: u32, threshold: u32, t: i64, n: nat)
    requires
        n <= u32::MAX,
    ensures
        check_step(after_firings(fresh_budget(max_per_hour, threshold), t, n), t as int).0
            == (if n >= max_per_hour { BudgetVerdict::BudgetExhausted } else { BudgetVerdict::Allowed }),
{
    let st = after_firings(fresh_budget(max_per_hour, threshold), t, n);
    lemma_after_firings(fresh_budget(max_per_hour, threshold), t, n);
    assert(st.firings =~= Seq::new(n, |i: int| t));
    if n > 0 {
        assert(st.firings[0] == t);
    }
    assert(stale_prefix(st.firings, t as int) == 0);
    assert(evicted(st.firings, t as int) =~= st.firings);
}

/// The breaker's cycle: after an operator reset the breaker is closed
/// and the window's firings are kept; the failure count starts again
/// from 0, so fewer failures in a row than the threshold leave it
/// closed and the threshold-th reopens it.
pub proof fn lemma_reset_restarts_failure_count(st: BudgetState, j: nat)
    requires
        st.threshold >= 1,
        j <= st.threshold,
    ensures
        after_failures(BudgetState { breaker_open: false, failures: 0, ..st }, j).breaker_open == (j == st.threshold),
        after_failures(BudgetState { breaker_open: false, failures: 0, ..st }, j).firings == st.firings,
    decreases j,
{
    let r = BudgetState { breaker_open: false, failures: 0, ..st };
    if j > 0 {
        lemma_reset_restarts_failure_count(st, (j - 1) as nat);
        lemma_failures_count(r, (j - 1) as nat);
    }
}

} // verus!
