use russell::event::Severity;
use russell::hash_chain::{
    choose_seed, compute_event_hash, genesis_hash_from_seed, integrity_of_recent_links, seed_file_path,
    verify_chain, verify_link, ChainVerdict, HashChain,
};
use russell::reflex::{BudgetVerdict, ReflexArc, ReflexBudget, ReflexFile, ReflexSet, REFLEX_SCHEMA};
use russell::schedule::{day_matches, parse_time, utc_clock_parts, Schedule, ScheduleSet, SchedulesFile, Weekday};

const EMPTY_SHA256: &str = "e3b0c44298fc1c149afbf4c8996fb92427ae41e4649b934ca495991b7852b855";
const ABC_SHA256: &str = "ba7816bf8f01cfea414140de5dae2223b00361a396177a9cb410ff61f20015ad";

// ── hash chain ─────────────────────────────────────────────────────

#[test]
fn event_hash_covers_prev_then_payload() {
    assert_eq!(compute_event_hash("", ""), EMPTY_SHA256);
    assert_eq!(compute_event_hash("a", "bc"), ABC_SHA256);
    assert_eq!(compute_event_hash("ab", "c"), ABC_SHA256);
    assert!(verify_link("a", "bc", ABC_SHA256));
    assert!(!verify_link("a", "bd", ABC_SHA256));
}

#[test]
fn genesis_hash_trims_the_seed() {
    assert_eq!(genesis_hash_from_seed("  abc\n"), ABC_SHA256);
    assert_eq!(genesis_hash_from_seed(""), EMPTY_SHA256);
}

#[test]
fn seed_choice_prefers_machine_id() {
    assert_eq!(choose_seed(Some(" m1 \n"), Some("s")), Some("m1".to_string()));
    assert_eq!(choose_seed(Some("  "), Some(" s \n")), Some("s".to_string()));
    assert_eq!(choose_seed(None, Some("")), None);
    assert_eq!(choose_seed(None, None), None);
}

#[test]
fn seed_file_lives_under_state_home() {
    assert_eq!(seed_file_path(Some("/x/state"), Some("/home/u")), "/x/state/harness/chain-seed");
    assert_eq!(seed_file_path(None, Some("/home/u")), "/home/u/.local/state/harness/chain-seed");
    assert_eq!(seed_file_path(None, None), "/tmp/harness/chain-seed");
}

#[test]
fn appended_chain_is_intact() {
    let mut chain = HashChain::new(genesis_hash_from_seed("machine"));
    assert_eq!(verify_chain(&chain.to_links()), ChainVerdict::Empty);
    let h1 = chain.append("{\"n\":1}".to_string());
    let h2 = chain.append("{\"n\":2}".to_string());
    assert_eq!(chain.len(), 2);
    assert_eq!(chain.last_hash(), h2);
    assert_eq!(h2, compute_event_hash(&h1, "{\"n\":2}"));
    assert_eq!(verify_chain(&chain.to_links()), ChainVerdict::Intact { count: 2 });
    assert!(chain.check_integrity());
}

#[test]
fn tampered_payload_breaks_the_chain() {
    let mut chain = HashChain::new(genesis_hash_from_seed("machine"));
    chain.append("first".to_string());
    chain.append("second".to_string());
    chain.append("third".to_string());
    let mut links = chain.to_links();
    links[1].1 = "forged".to_string();
    match verify_chain(&links) {
        ChainVerdict::Broken { position, expected, found } => {
            assert_eq!(position, 1);
            assert_eq!(expected, compute_event_hash(&links[1].0, "forged"));
            assert_eq!(found, links[1].2);
        }
        other => panic!("expected a break, got {:?}", other),
    }
}

#[test]
fn links_that_do_not_chain_are_broken() {
    let mut a = HashChain::new("g".to_string());
    a.append("one".to_string());
    let mut b = HashChain::new("other".to_string());
    b.append("two".to_string());
    let mut links = a.to_links();
    links.extend(b.to_links());
    match verify_chain(&links) {
        ChainVerdict::Broken { position, expected, found } => {
            assert_eq!(position, 1);
            assert_eq!(expected, compute_event_hash(&links[1].0, &links[1].1));
            assert_eq!(found, links[1].2);
        }
        other => panic!("expected a break, got {:?}", other),
    }
}

#[test]
fn deleted_event_breaks_the_chain() {
    let mut chain = HashChain::new("g".to_string());
    chain.append("a".to_string());
    chain.append("b".to_string());
    chain.append("c".to_string());
    let mut links = chain.to_links();
    links.remove(1);
    assert!(matches!(verify_chain(&links), ChainVerdict::Broken { position: 1, .. }));
}

#[test]
fn recent_links_are_checked_in_chain_order() {
    let mut chain = HashChain::new("g".to_string());
    chain.append("a".to_string());
    chain.append("b".to_string());
    let mut newest_first = chain.to_links();
    newest_first.reverse();
    assert!(integrity_of_recent_links(newest_first.clone()));
    newest_first[0].2 = "0".repeat(64);
    assert!(!integrity_of_recent_links(newest_first));
}

// ── reflex arcs ────────────────────────────────────────────────────

fn arc(probe: &str, intervention: &str, min: Severity) -> ReflexArc {
    ReflexArc {
        probe: probe.to_string(),
        min_severity: min,
        intervention: intervention.to_string(),
        cooldown_secs: 3600,
        max_retries: 3,
    }
}

#[test]
fn operator_file_overrides_builtin_arc() {
    let mut set = ReflexSet::from_arcs(vec![arc("disk_root_used_pct", "disk/clean", Severity::Alert)]);
    let file = ReflexFile {
        schema: Some(REFLEX_SCHEMA.to_string()),
        arc: vec![arc("disk_root_used_pct", "disk/other", Severity::Warn), arc("mem", "mem/drop", Severity::Crit)],
    };
    assert!(set.merge_file(file));
    assert_eq!(set.len(), 2);
    assert_eq!(set.find("disk_root_used_pct", Severity::Warn).unwrap().intervention, "disk/other");
    assert!(set.find("mem", Severity::Alert).is_none());
    assert_eq!(set.find("mem", Severity::Crit).unwrap().intervention, "mem/drop");
}

#[test]
fn file_with_foreign_schema_is_skipped() {
    let mut set = ReflexSet::new();
    let file = ReflexFile { schema: Some("other.v1".to_string()), arc: vec![arc("p", "s/i", Severity::Info)] };
    assert!(!set.merge_file(file));
    assert!(set.is_empty());
}

// ── reflex budget ──────────────────────────────────────────────────

#[test]
fn budget_allows_up_to_the_hourly_maximum() {
    let mut b = ReflexBudget::with_limits(2, 3);
    let now = 1_700_000_000;
    assert_eq!(b.check(now), BudgetVerdict::Allowed);
    b.record_firing(now);
    assert_eq!(b.check(now + 1), BudgetVerdict::Allowed);
    b.record_firing(now + 1);
    assert_eq!(b.check(now + 2), BudgetVerdict::BudgetExhausted);
    assert_eq!(b.check(now + 3601), BudgetVerdict::Allowed);
    assert_eq!(b.firings_this_hour(), 1);
}

#[test]
fn breaker_trips_after_consecutive_failures_and_latches() {
    let mut b = ReflexBudget::new();
    b.record_outcome(false);
    b.record_outcome(false);
    assert!(!b.is_breaker_open());
    b.record_outcome(true);
    assert_eq!(b.consecutive_failures(), 0);
    b.record_outcome(false);
    b.record_outcome(false);
    b.record_outcome(false);
    assert!(b.is_breaker_open());
    b.record_outcome(true);
    assert!(b.is_breaker_open());
    assert_eq!(b.check(1_700_000_000), BudgetVerdict::BreakerOpen);
    b.reset_breaker();
    assert!(!b.is_breaker_open());
    assert_eq!(b.check(1_700_000_000), BudgetVerdict::Allowed);
}

#[test]
fn budget_restored_from_journal_events() {
    let now = 1_767_225_600; // 2026-01-01T00:00:00Z
    let proposed = vec![
        "2025-12-31T23:30:00Z".to_string(),
        "not a time".to_string(),
        "2025-12-31T23:10:00Z".to_string(),
    ];
    let breaker = vec!["2025-12-31T23:59:00Z".to_string()];
    let mut b = ReflexBudget::from_recent_events(&proposed, &breaker, now);
    assert_eq!(b.firings_this_hour(), 2);
    assert!(b.is_breaker_open());
    assert_eq!(b.check(now), BudgetVerdict::BreakerOpen);
    let old_breaker = vec!["2025-12-31T20:00:00Z".to_string()];
    let b2 = ReflexBudget::from_recent_events(&proposed, &old_breaker, now);
    assert!(!b2.is_breaker_open());
}

// ── schedules ──────────────────────────────────────────────────────

fn entry(model: &str, start: &str, end: &str, days: &[&str]) -> Schedule {
    Schedule {
        model: model.to_string(),
        start: start.to_string(),
        end: end.to_string(),
        days: days.iter().map(|d| d.to_string()).collect(),
        adapters: vec![],
    }
}

#[test]
fn times_parse_in_24_hour_form() {
    assert_eq!(parse_time("09:30"), Some((9, 30)));
    assert_eq!(parse_time("23:59"), Some((23, 59)));
    assert_eq!(parse_time("24:00"), None);
    assert_eq!(parse_time("12:60"), None);
    assert_eq!(parse_time("noon"), None);
}

#[test]
fn epoch_was_a_thursday() {
    assert_eq!(utc_clock_parts(0), (0, 0, Weekday::Thursday));
    // 2026-01-05T13:45:00Z, a Monday.
    assert_eq!(utc_clock_parts(1_767_620_700), (13, 45, Weekday::Monday));
}

#[test]
fn day_names_are_three_letters() {
    assert!(day_matches(Weekday::Friday, &["Mon".to_string(), "Fri".to_string()]));
    assert!(!day_matches(Weekday::Sunday, &["Mon".to_string()]));
}

#[test]
fn first_matching_schedule_wins() {
    let file = SchedulesFile {
        schema: None,
        schedule: vec![
            entry("night", "22:00", "06:00", &[]),
            entry("work", "09:00", "17:00", &["Mon", "Tue", "Wed", "Thu", "Fri"]),
            entry("bad", "nine", "17:00", &[]),
        ],
    };
    let set = ScheduleSet::from_file(file);
    assert_eq!(set.len(), 3);
    assert_eq!(set.active_at(10, 0, Weekday::Monday).unwrap().model, "work");
    assert!(set.active_at(10, 0, Weekday::Sunday).is_none());
    assert_eq!(set.active_at(23, 30, Weekday::Sunday).unwrap().model, "night");
    assert_eq!(set.active_at(5, 59, Weekday::Sunday).unwrap().model, "night");
}

#[test]
fn schedule_file_with_foreign_schema_is_empty() {
    let file = SchedulesFile { schema: Some("x".to_string()), schedule: vec![entry("m", "00:00", "23:59", &[])] };
    assert!(ScheduleSet::from_file(file).is_empty());
}

#[test]
fn reset_breaker_restarts_the_failure_count() {
    let mut b = ReflexBudget::with_limits(10, 3);
    b.record_firing(1_000);
    for _ in 0..3 {
        b.record_outcome(false);
    }
    assert!(b.is_breaker_open());
    let f = b.firings_this_hour();
    b.reset_breaker();
    assert!(!b.is_breaker_open());
    assert_eq!(b.firings_this_hour(), f);
    b.record_outcome(false);
    b.record_outcome(false);
    assert!(!b.is_breaker_open());
    b.record_outcome(false);
    assert!(b.is_breaker_open());
}

#[test]
fn zero_budget_is_exhausted_at_once() {
    let mut b = ReflexBudget::with_limits(0, 3);
    assert_eq!(b.check(1_000), BudgetVerdict::BudgetExhausted);
}
