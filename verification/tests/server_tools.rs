use russell::event::{Scope, Severity};
use russell::journal::{EventRow, SeverityCounts};
use russell::mcp::tools::{health_status_label, probe_matches, query_event_indices, recent_limit, tool_window};

fn row(severity: Severity, scope: Scope) -> EventRow {
    EventRow {
        id: "id".into(),
        ts: "2026-01-01T00:00:00Z".into(),
        severity,
        scope,
        tier: None,
        module: None,
        action: "probe".into(),
        summary: None,
        evidence_ref: None,
    }
}

#[test]
fn windows_default_to_a_day() {
    assert_eq!(tool_window(None, 1_000_000), (24, 1_000_000 - 86_400));
    assert_eq!(tool_window(Some(2), 10_000), (2, 2_800));
}

#[test]
fn event_limits_default_to_twenty_and_cap_at_a_hundred() {
    assert_eq!(recent_limit(None), 20);
    assert_eq!(recent_limit(Some(7)), 7);
    assert_eq!(recent_limit(Some(500)), 100);
}

#[test]
fn queries_filter_by_severity_and_scope() {
    let rows = vec![
        row(Severity::Info, Scope::Host),
        row(Severity::Alert, Scope::Self_),
        row(Severity::Warn, Scope::Host),
        row(Severity::Crit, Scope::Host),
    ];
    assert_eq!(query_event_indices(&rows, None, None), vec![0, 1, 2, 3]);
    assert_eq!(query_event_indices(&rows, Some("warn"), None), vec![1, 2, 3]);
    assert_eq!(query_event_indices(&rows, Some("warn"), Some("host")), vec![2, 3]);
    assert_eq!(query_event_indices(&rows, Some("loud"), Some("self")), vec![1]);
    assert_eq!(query_event_indices(&rows, None, Some("nowhere")), vec![0, 1, 2, 3]);
    let many: Vec<EventRow> = (0..80).map(|_| row(Severity::Info, Scope::Host)).collect();
    assert_eq!(query_event_indices(&many, None, None).len(), 50);
}

#[test]
fn probe_filters_match_substrings() {
    assert!(probe_matches("mem_avail_pct", None));
    assert!(probe_matches("mem_avail_pct", Some("avail")));
    assert!(!probe_matches("mem_avail_pct", Some("swap")));
}

#[test]
fn health_label_follows_the_worst_severity() {
    let c = |info, warn, alert, crit| SeverityCounts { info, warn, alert, crit };
    assert_eq!(health_status_label(&c(5, 0, 0, 0)), "healthy");
    assert_eq!(health_status_label(&c(5, 1, 0, 0)), "warn");
    assert_eq!(health_status_label(&c(0, 1, 2, 0)), "alert");
    assert_eq!(health_status_label(&c(0, 0, 0, 1)), "critical");
}
