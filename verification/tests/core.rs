use russell::config::{RuntimeConfig, DEFAULT_OKAPI_ENDPOINT};
use russell::env::{env_file_candidates, parse_env_line, parse_env_text, strip_optional_quotes, EnvLine};
use russell::event::{schema_matches, Scope, Severity, EVENT_SCHEMA};
use russell::identity::{IdentityPort, SimpleIdentity};
use russell::inference::SoapBundle;
use russell::journal::{migrations, pending_versions, HelpSessionStatus, JournalReader, SeverityCounts};
use russell::paths::{join, Paths};
use russell::profile::{check_profile_schema, NetworkOptIns, PROFILE_SCHEMA};
use russell::risk::RiskBand;
use russell::time::{approx_days_between, date_iso8601_of_unix_secs, format_iso_date, Clock, FixedClock};

#[test]
fn default_config_has_loopback_endpoints() {
    let cfg = RuntimeConfig::default();
    assert!(cfg.okapi_endpoint.contains("127.0.0.1"));
}

#[test]
fn runtime_config_takes_the_variable_when_set() {
    let cfg = RuntimeConfig::from_env_value(Some("http://127.0.0.1:9/v1".to_string()));
    assert_eq!(cfg.okapi_endpoint, "http://127.0.0.1:9/v1");
    assert_eq!(RuntimeConfig::from_env_value(None).okapi_endpoint, DEFAULT_OKAPI_ENDPOINT);
}

#[test]
fn test_simple_identity() {
    let identity = SimpleIdentity::new("test-user".to_string(), vec!["acp:session".to_string()]);
    assert_eq!(identity.principal_id(), "test-user");
    assert!(identity.has_capability("acp:session"));
    assert!(!identity.has_capability("acp:admin"));
    assert!(identity.is_valid());
}

#[test]
fn test_anonymous_identity() {
    let identity = SimpleIdentity::anonymous();
    assert_eq!(identity.principal_id(), "anonymous");
    assert!(!identity.has_capability("acp:session"));
    assert!(identity.capabilities().is_empty());
}

#[test]
fn migrations_are_monotonic() {
    let mut last = 0u32;
    for m in migrations() {
        assert!(m.version > last, "non-monotonic at {}", m.version);
        last = m.version;
    }
}

#[test]
fn pending_migrations_are_those_above_the_applied_version() {
    assert_eq!(pending_versions(0), vec![1]);
    assert!(pending_versions(1).is_empty());
    assert!(pending_versions(7).is_empty());
}

#[test]
fn severity_counts_default_is_zero() {
    let sc = SeverityCounts::default();
    assert_eq!(sc.info, 0);
    assert_eq!(sc.warn, 0);
    assert_eq!(sc.alert, 0);
    assert_eq!(sc.crit, 0);
}

#[test]
fn severity_counts_tally_group_rows() {
    let rows = vec![
        ("info".to_string(), 3),
        ("warn".to_string(), 2),
        ("alert".to_string(), 1),
        ("crit".to_string(), 1),
        ("bogus".to_string(), 9),
    ];
    let sc = SeverityCounts::tally(&rows);
    assert_eq!(sc, SeverityCounts { info: 3, warn: 2, alert: 1, crit: 1 });
}

#[test]
fn help_session_status_round_trip() {
    for (variant, s) in [
        (HelpSessionStatus::Success, "ok"),
        (HelpSessionStatus::Error, "error"),
        (HelpSessionStatus::Fallback, "fallback"),
        (HelpSessionStatus::ThresholdSkip, "threshold_skip"),
    ] {
        assert_eq!(variant.as_str(), s);
        assert_eq!(s.parse::<HelpSessionStatus>().unwrap(), variant);
    }
}

#[test]
fn help_session_status_unknown_rejected() {
    assert!("unknown".parse::<HelpSessionStatus>().is_err());
}

#[test]
fn reader_new_does_not_require_file() {
    let path = "/nonexistent/dir/nonexistent.db".to_string();
    let r = JournalReader::new(path.clone());
    assert_eq!(r.path(), path);
}

#[test]
fn severity_and_scope_names_round_trip() {
    for s in [Severity::Info, Severity::Warn, Severity::Alert, Severity::Crit] {
        assert_eq!(Severity::parse(s.as_str()), Some(s));
    }
    assert_eq!(Severity::Alert.as_str(), "alert");
    assert_eq!(Scope::Self_.as_str(), "self");
    assert_eq!(Scope::parse("host"), Some(Scope::Host));
    assert_eq!(Scope::parse("Host"), None);
    assert_eq!(Scope::default(), Scope::Host);
    assert!(Severity::Info.rank() < Severity::Crit.rank());
}

#[test]
fn unknown_schema_flagged() {
    assert!(schema_matches(EVENT_SCHEMA));
    assert!(!schema_matches("harness.event.v999"));
}

#[test]
fn risk_band_names_round_trip() {
    for b in [RiskBand::NoRisk, RiskBand::Low, RiskBand::Medium, RiskBand::High, RiskBand::Critical] {
        assert_eq!(RiskBand::parse(b.as_str()).unwrap(), b);
    }
    assert_eq!("high".parse::<RiskBand>().unwrap(), RiskBand::High);
    let err = RiskBand::parse("severe").unwrap_err();
    assert_eq!(err.0, "severe");
    assert_eq!(RiskBand::default(), RiskBand::NoRisk);
    assert!(RiskBand::Low.rank() < RiskBand::High.rank());
}

#[test]
fn rooted_paths_produce_expected_layout() {
    let paths = Paths::rooted("/tmp/russell-root");
    assert!(paths.profile().ends_with("state/harness/profile.json"));
    assert!(paths.journal().ends_with("state/harness/journal.db"));
    assert!(paths.kill_switch().ends_with("config/harness/disable"));
    assert_eq!(paths.memory_daily_dir(), "/tmp/russell-root/state/harness/memory/daily");
    assert_eq!(paths.dirs_to_ensure().len(), 11);
}

#[test]
fn paths_from_env_values() {
    let p = Paths::from_env_values(Some("/home/op".to_string()), None, Some(String::new()), Some("/data".to_string()))
        .unwrap();
    assert_eq!(p.config, "/home/op/.config/harness");
    assert_eq!(p.state, "/home/op/.local/state/harness");
    assert_eq!(p.data, "/data/harness");
    assert!(Paths::from_env_values(None, None, None, None).is_err());
}

#[test]
fn join_follows_pathbuf_rules() {
    assert_eq!(join("/a", "b"), "/a/b");
    assert_eq!(join("/a/", "b"), "/a/b");
    assert_eq!(join("", "b"), "b");
    assert_eq!(join("/a", "/b"), "/b");
}

#[test]
fn iso_dates_from_unix_seconds() {
    assert_eq!(date_iso8601_of_unix_secs(0), "1970-01-01");
    assert_eq!(date_iso8601_of_unix_secs(951_782_400), "2000-02-29");
    assert_eq!(date_iso8601_of_unix_secs(1_778_716_800), "2026-05-14");
    assert_eq!(format_iso_date(7, 3, 9), "0007-03-09");
}

#[test]
fn approx_days_between_uses_thirty_day_months() {
    assert_eq!(approx_days_between("2026-01-01", "2026-02-01"), 30);
    assert_eq!(approx_days_between("2025-05-14", "2026-05-14"), 365);
    assert_eq!(approx_days_between("garbage", "garbage"), 0);
    assert_eq!(approx_days_between("2026-01-x", "2026-01-05"), 4);
}

#[test]
fn fixed_clock_advances_and_sets() {
    let mut c = FixedClock::new(1_000);
    assert_eq!(c.now_unix(), 1_000);
    c.advance(500);
    assert_eq!(c.now_unix(), 1_500);
    c.set(86_400);
    assert_eq!(c.now_unix(), 86_400);
    assert_eq!(c.now_date_iso8601(), "1970-01-02");
    assert_eq!(c.now_rfc3339(), "1970-01-02T00:00:00Z");
    c.set(i64::MAX);
    c.advance(1);
    assert_eq!(c.now_unix(), i64::MIN);
}

#[test]
fn fixed_clock_formats_the_four_digit_years_only() {
    let mut c = FixedClock::new(-1);
    assert_eq!(c.now_rfc3339(), "1969-12-31T23:59:59Z");
    c.set(253_402_300_799);
    assert_eq!(c.now_rfc3339(), "9999-12-31T23:59:59Z");
    c.set(-62_167_219_200);
    assert_eq!(c.now_rfc3339(), "0000-01-01T00:00:00Z");
    c.set(253_402_300_800);
    assert_eq!(c.now_rfc3339(), "1970-01-01T00:00:00Z");
    c.set(-62_167_219_201);
    assert_eq!(c.now_rfc3339(), "1970-01-01T00:00:00Z");
    assert_eq!(c.now_date_iso8601(), "-001-12-31");
}

#[test]
fn env_lines_are_read_as_the_loader_reads_them() {
    let text = "# comment\nRUSSELL_TEST_LOAD_A=one\nRUSSELL_TEST_LOAD_B=\"two\"\nno_equals_sign_here\nEMPTY=\n  K = 'v' \r\n";
    let (entries, bad) = parse_env_text(text);
    assert_eq!(
        entries,
        vec![
            ("RUSSELL_TEST_LOAD_A".to_string(), "one".to_string()),
            ("RUSSELL_TEST_LOAD_B".to_string(), "two".to_string()),
            ("K".to_string(), "v".to_string()),
        ]
    );
    assert_eq!(bad, vec![4]);
    assert_eq!(parse_env_line(&"# x=1".chars().collect()), EnvLine::Skip);
    let q: Vec<char> = "\"a'".chars().collect();
    assert_eq!(strip_optional_quotes(&q), q);
}

#[test]
fn env_candidates_in_precedence_order() {
    let c = env_file_candidates("/cfg/harness", Some("/o.env"), Some("/repo"));
    assert_eq!(c, vec!["/o.env", "/cfg/harness/russell.env", "/repo/.env", ".env"]);
    let c = env_file_candidates("/cfg/harness", None, None);
    assert_eq!(c, vec!["/cfg/harness/russell.env", ".env"]);
}

#[test]
fn test_soap_bundle_creation() {
    let bundle = SoapBundle::new("System is slow".to_string());
    assert_eq!(bundle.subjective, "System is slow");
    assert!(bundle.objective.is_empty());
    assert!(bundle.assessment.is_none());
    assert!(bundle.plan.is_none());
}

#[test]
fn test_soap_bundle_builder() {
    let bundle = SoapBundle::new("High CPU usage".to_string())
        .with_observation("cpu_usage".to_string(), serde_json::Value::from(95.5).to_string())
        .with_full_observation(
            "memory_usage".to_string(),
            serde_json::Value::from(8192).to_string(),
            Some("MB".to_string()),
            Some("warn".to_string()),
        )
        .with_assessment("CPU saturation detected".to_string())
        .with_plan(vec!["Identify top processes".to_string()]);
    assert_eq!(bundle.objective.len(), 2);
    assert!(bundle.assessment.is_some());
    assert!(bundle.plan.is_some());
}

#[test]
fn test_soap_prompt_formatting() {
    let bundle = SoapBundle::new("Test issue".to_string())
        .with_observation("metric".to_string(), serde_json::Value::from(42).to_string())
        .with_assessment("Test assessment".to_string());
    let prompt = bundle.to_prompt();
    assert!(prompt.contains("## Subjective"));
    assert!(prompt.contains("Test issue"));
    assert!(prompt.contains("## Objective"));
    assert!(prompt.contains("metric"));
    assert!(prompt.contains("## Assessment"));
    assert!(prompt.contains("Test assessment"));
    assert_eq!(
        prompt,
        "## Subjective\nTest issue\n\n## Objective\n- metric: 42 \n\n## Assessment\nTest assessment\n\n"
    );
}

#[test]
fn profile_schema_is_checked() {
    assert!(check_profile_schema(PROFILE_SCHEMA).is_ok());
    assert!(check_profile_schema("russell.profile.v0").is_err());
    let n = NetworkOptIns::default();
    assert!(!n.llm_egress && !n.skill_registry_egress);
}

// The file-reading halves of these live outside the library; what the
// file's text sets is decided by `parse_env_text`.
#[test]
fn empty_value_in_file_is_skipped() {
    let (entries, bad) = parse_env_text("RUSSELL_TEST_EMPTY_B=\n");
    assert!(entries.iter().all(|(k, _)| k != "RUSSELL_TEST_EMPTY_B"));
    assert!(bad.is_empty());
}

#[test]
fn malformed_line_skipped() {
    let (entries, bad) = parse_env_text("RUSSELL_TEST_LOAD_C=ok\nno_equals_sign_here\nRUSSELL_TEST_LOAD_D='fine'\n");
    assert_eq!(
        entries,
        vec![
            ("RUSSELL_TEST_LOAD_C".to_string(), "ok".to_string()),
            ("RUSSELL_TEST_LOAD_D".to_string(), "fine".to_string()),
        ]
    );
    assert_eq!(bad, vec![2]);
}
