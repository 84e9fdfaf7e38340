use russell::doctor::client::Backend;
use russell::doctor::error::{error_kind_of, map_http_status_error, parse_retry_after, DoctorError};
use russell::doctor::help::{
    conclude_dispatch, daily_note_name, help_event_summary, okapi_settings, plan_dispatch, session_note_line,
    session_status, skip_reason_tag, summarised, CallOutcome, DispatchPlan, SkipReason,
};
use russell::doctor::prompt::{compose_soap, system_prompt, KnowledgeFile, ProfileHead, SampleRow, JACK_PERSONA};
use russell::event::{Scope, Severity};
use russell::journal::{EventRow, HelpSessionStatus, SeverityCounts};
use russell::lex::{lex_less, sort_unique};
use russell::mcp::error::McpError;
use russell::mcp::registry::{McpToolDefinition, ToolRegistry};
use russell::meta::fallback_adapter::{exhausted_message, Attempt, CircuitBreaker, Exhausted, FallbackRouter, NextStep};
use russell::meta::help::{
    check_threshold, conclude_reply, event_record, fallback_summary, InferenceReply, SkipReason as MetaSkip,
};
use russell::meta::knapsack::select_knapsack;
use russell::meta::symptoms::derive_active_symptoms;
use russell::profile::{ChassisInfo, CpuInfo, GpuInfo, HostInfo, OsInfo};
use russell::risk::RiskBand;
use russell::skill::{Intervention, Probe, Rollback, Safety, Skill};
use std::time::Duration;

fn row(severity: Severity, module: Option<&str>, summary: Option<&str>) -> EventRow {
    EventRow {
        id: "01J0000000000000000000000".into(),
        ts: "2026-01-01T00:00:00Z".into(),
        severity,
        scope: Scope::Host,
        tier: None,
        module: module.map(|m| m.to_string()),
        action: "observe".into(),
        summary: summary.map(|s| s.to_string()),
        evidence_ref: None,
    }
}

// ── knowledge knapsack ─────────────────────────────────────────────

struct Slot {
    id: &'static str,
    relevance: f64,
    tokens: usize,
}

fn pick(slots: &[Slot], budget: usize) -> Vec<&'static str> {
    let items: Vec<(usize, u64)> = slots
        .iter()
        .map(|s| (s.tokens, (s.relevance * s.tokens as f64 * 1_000_000.0) as u64))
        .collect();
    select_knapsack(&items, budget).into_iter().map(|i| slots[i].id).collect()
}

#[test]
fn knapsack_selects_highest_value_per_token() {
    let slots = [
        Slot { id: "A", relevance: 0.9, tokens: 1000 },
        Slot { id: "B", relevance: 0.8, tokens: 500 },
        Slot { id: "C", relevance: 0.5, tokens: 2000 },
    ];
    let ids = pick(&slots, 1500);
    assert!(ids.contains(&"A"), "expected A to be selected, got {ids:?}");
    assert!(ids.contains(&"B"), "expected B to be selected, got {ids:?}");
}

#[test]
fn knapsack_fills_an_exact_budget() {
    // value = relevance × tokens: X + Y (2000 + 150) beats X alone (2000)
    // and Y + Z (1050), and fills the 2500-token budget exactly.
    let slots = [
        Slot { id: "X", relevance: 1.0, tokens: 2000 },
        Slot { id: "Y", relevance: 0.3, tokens: 500 },
        Slot { id: "Z", relevance: 0.9, tokens: 1000 },
    ];
    assert_eq!(pick(&slots, 2500), vec!["X", "Y"]);
    assert_eq!(pick(&slots, 2499), vec!["X"]);
}

#[test]
fn knapsack_empty_input() {
    assert!(select_knapsack(&[], 1000).is_empty());
}

#[test]
fn knapsack_zero_budget() {
    assert!(select_knapsack(&[(100, 100_000_000)], 0).is_empty());
}

#[test]
fn knapsack_all_fit() {
    let slots = [
        Slot { id: "A", relevance: 0.9, tokens: 500 },
        Slot { id: "B", relevance: 0.8, tokens: 300 },
        Slot { id: "C", relevance: 0.7, tokens: 200 },
    ];
    assert_eq!(pick(&slots, 2000).len(), 3);
}

#[test]
fn knapsack_returns_indices_in_order_and_skips_oversized() {
    assert_eq!(select_knapsack(&[(5, 10), (70_000, 1_000), (3, 7)], 100_000), vec![0, 2]);
    assert_eq!(select_knapsack(&[(4, 5), (3, 4), (2, 3)], 5), vec![1, 2]);
}

// ── SOAP prompt ────────────────────────────────────────────────────

fn no_counts() -> SeverityCounts {
    SeverityCounts::default()
}

#[test]
fn prompt_compose_handles_empty_journal() {
    let prompt = compose_soap(None, None, &no_counts(), &[], false, None, &[], &[], &[]);
    assert!(prompt.rendered.contains("## Subjective"));
    assert!(prompt.rendered.contains("(no operator note)"));
    assert!(prompt.rendered.contains("(no events recorded)"));
    assert!(prompt.system.contains("You are Jack"));
    assert_eq!(prompt.system, JACK_PERSONA);
    assert!(prompt.rendered.contains("(no samples recorded)"));
    assert!(prompt.objective.contains("- (no profile.json)"));
    assert!(prompt.objective.contains("- No samples recorded."));
}

#[test]
fn prompt_compose_includes_note_and_events() {
    let events = [row(Severity::Warn, Some("daily/gpu-sanity"), Some("one vm fault"))];
    let prompt = compose_soap(Some("ollama is slow"), None, &no_counts(), &[], false, None, &[], &events, &[]);
    assert!(prompt.rendered.contains("ollama is slow"));
    assert!(prompt.rendered.contains("daily/gpu-sanity"));
    assert!(prompt.rendered.contains("warn"));
    assert!(prompt.objective.contains(
        "| 2026-01-01T00:00:00Z | warn | host | daily/gpu-sanity | observe | one vm fault |"
    ));
}

#[test]
fn prompt_compose_includes_sample_summary() {
    let rows = [
        SampleRow {
            probe: "mem_available_mib".into(),
            count: 3,
            min: "90200".into(),
            avg: "90566.7".into(),
            max: "91000".into(),
            last: "90200".into(),
            p95: "—".into(),
            unit: "MiB".into(),
        },
        SampleRow {
            probe: "loadavg_1m".into(),
            count: 2,
            min: "0.45".into(),
            avg: "0.82".into(),
            max: "1.20".into(),
            last: "1.20".into(),
            p95: "—".into(),
            unit: String::new(),
        },
    ];
    let prompt = compose_soap(Some("checking trends"), None, &no_counts(), &rows, false, Some(600), &[], &[], &[]);
    assert!(prompt.rendered.contains("### Host probe samples — last 24h"));
    assert!(prompt.rendered.contains("| mem_available_mib | 3 |"));
    assert!(prompt.rendered.contains("| MiB |"));
    assert!(prompt.rendered.contains("| loadavg_1m | 2 | 0.45 | 0.82 | 1.20 | 1.20 |  |"));
    assert!(prompt.rendered.contains("checking trends"));
    assert!(prompt.rendered.contains("- Last sample 600 seconds ago."));
    let with_p95 = compose_soap(None, None, &no_counts(), &rows[..1], true, None, &[], &[], &[]);
    assert!(with_p95.objective.contains("| p95 (30d) |"));
    assert!(with_p95.objective.contains("| 90200 | — | MiB |"));
}

#[test]
fn prompt_lists_profile_skills_and_knowledge() {
    let profile = ProfileHead {
        profile_id: "p1".into(),
        authored_at: "2026-01-01".into(),
        host: HostInfo {
            os: OsInfo { family: "linux".into(), distro: "ubuntu".into(), version: "24.04".into(), kernel: "6.8".into() },
            chassis: ChassisInfo { vendor: String::new(), product: String::new(), bios: String::new() },
            cpu: CpuInfo { vendor: "amd".into(), model: "Ryzen".into(), cores: 8, threads: 16 },
            memory_mib: 1,
            swap_mib: 0,
        },
        gpus: vec![GpuInfo {
            pci: "0000:03:00.0".into(),
            vendor_id: "1002".into(),
            name: "Radeon".into(),
            gfx: None,
            role: "compute".into(),
        }],
    };
    let actionable = Skill {
        id: "okapi-watcher".into(),
        symptoms: vec![],
        probes: vec![Probe { id: "probe-okapi".into(), cmd: vec![] }],
        interventions: vec![Intervention {
            id: "restart-okapi".into(),
            cmd: vec![],
            risk: RiskBand::Low,
            needs_sudo: false,
            rollback: Rollback::NoneNeeded,
        }],
        safety: Safety { max_auto_risk: RiskBand::Low, require_human_for: vec![] },
        evaluation: None,
    };
    let knowledge_only = Skill {
        id: "ubuntu".into(),
        symptoms: vec!["apt_lock".into(), "snap_refresh".into()],
        probes: vec![],
        interventions: vec![],
        safety: Safety { max_auto_risk: RiskBand::NoRisk, require_human_for: vec![] },
        evaluation: None,
    };
    let counts = SeverityCounts { info: 1, warn: 2, alert: 3, crit: 4 };
    let knowledge = [
        KnowledgeFile { skill_id: "ubuntu".into(), content: "Use apt.".into() },
        KnowledgeFile { skill_id: "blank".into(), content: "  \n".into() },
    ];
    let prompt = compose_soap(
        None,
        Some(&profile),
        &counts,
        &[],
        false,
        Some(-5),
        &[actionable, knowledge_only],
        &[],
        &knowledge,
    );
    let o = &prompt.objective;
    assert!(o.starts_with("### Profile\n- profile_id: `p1`\n- authored_at: `2026-01-01`\n"));
    assert!(o.contains("- host.os: `ubuntu/24.04` kernel `6.8`\n"));
    assert!(o.contains("- host.cpu: `Ryzen` (8 cores / 16 threads)\n"));
    assert!(o.contains("- gpus:\n  - `Radeon` @ `0000:03:00.0` (role: compute)\n"));
    assert!(o.contains("- info: 1 | warn: 2 | alert: 3 | crit: 4\n"));
    assert!(o.contains("- No samples recorded.\n"));
    assert!(o.contains("| okapi-watcher | probe | probe-okapi | none |\n"));
    assert!(o.contains("| okapi-watcher | intervention | restart-okapi | Low |\n"));
    assert!(o.contains("ACTION: <skill-id>/<intervention-id>"));
    assert!(o.contains("- **ubuntu** — symptoms: apt_lock, snap_refresh\n"));
    assert_eq!(prompt.system, format!("{}\n\n---\n\n# Knowledge: ubuntu\n\nUse apt.", JACK_PERSONA));
    assert_eq!(system_prompt("P", &[]), "P");
    assert!(prompt.rendered.starts_with("# SOAP — russell help\n\n## Subjective\n\n(no operator note)\n\n## Objective\n\n"));
    assert!(prompt.rendered.ends_with("## Plan\n\n*(your job, Jack — one next step.)*\n\n"));
}

// ── the Nurse's errors and session decisions ───────────────────────

#[test]
fn oai_client_maps_404_to_model_not_found() {
    let err = map_http_status_error(404, "no such model".into(), None, "http://127.0.0.1:11435/v1/chat/completions");
    match err {
        DoctorError::ModelNotFound(m) => {
            assert_eq!(m, "no such model (url: http://127.0.0.1:11435/v1/chat/completions)")
        }
        other => panic!("unexpected {:?}", other),
    }
}

#[test]
fn oai_client_maps_429_with_retry_after() {
    let err = map_http_status_error(429, "rate".into(), Some(30), "");
    assert!(matches!(err, DoctorError::RateLimited { retry_after_seconds: Some(30) }));
}

#[test]
fn other_statuses_map_to_http_errors() {
    assert!(matches!(map_http_status_error(401, "no".into(), None, ""), DoctorError::Authentication(_)));
    match map_http_status_error(503, "down".into(), None, "") {
        DoctorError::Http { status, message, is_connect, is_timeout } => {
            assert_eq!(status, Some(503));
            assert_eq!(message, "down");
            assert!(!is_connect && !is_timeout);
        }
        other => panic!("unexpected {:?}", other),
    }
    assert_eq!(parse_retry_after(" 42 "), Some(42));
    assert_eq!(parse_retry_after("soon"), None);
}

#[test]
fn error_kinds_are_short_tags() {
    let http = |status, is_connect, is_timeout| DoctorError::Http {
        status,
        message: String::new(),
        is_connect,
        is_timeout,
    };
    assert_eq!(error_kind_of(&http(Some(502), false, false)), "http_502");
    assert_eq!(error_kind_of(&http(Some(502), true, false)), "http_connect");
    assert_eq!(error_kind_of(&http(None, true, true)), "http_timeout");
    assert_eq!(error_kind_of(&http(None, false, false)), "http");
    assert_eq!(error_kind_of(&DoctorError::RateLimited { retry_after_seconds: None }), "rate_limited");
    assert_eq!(error_kind_of(&DoctorError::ModelNotFound("m".into())), "model_not_found");
}

#[test]
fn dispatch_is_threshold_gated() {
    assert_eq!(plan_dispatch(false, Backend::Okapi), DispatchPlan::Summarise(SkipReason::ThresholdSkip));
    assert_eq!(plan_dispatch(true, Backend::Offline), DispatchPlan::Summarise(SkipReason::OfflineFallback));
    assert_eq!(plan_dispatch(true, Backend::Mock), DispatchPlan::Call(Backend::Mock));
    let (url, key) = okapi_settings(None, Some("k".into()));
    assert_eq!(url, "http://127.0.0.1:11435/v1");
    assert_eq!(key, "k");
}

#[test]
fn offline_path_produces_fallback_outcome() {
    let d = summarised(SkipReason::OfflineFallback, "Offline. No LLM today".into());
    assert_eq!(d.backend_label, "offline");
    assert!(d.response.contains("Offline"));
    assert_eq!(session_status(d.skip_reason), HelpSessionStatus::Fallback);
}

#[test]
fn mock_path_produces_ok_outcome() {
    let outcome = CallOutcome::Answered { content: "Mock Jack says hi".into(), latency_ms: 12, model: Some("m".into()) };
    let d = conclude_dispatch(Backend::Mock, outcome, "offline text".into());
    assert!(d.skip_reason.is_none());
    assert_eq!(d.backend_label, "mock");
    assert!(d.response.contains("Mock Jack"));
    assert_eq!(d.latency_ms, Some(12));
    assert_eq!(session_status(d.skip_reason), HelpSessionStatus::Success);
}

#[test]
fn failed_call_falls_back_with_its_error_kind() {
    let d = conclude_dispatch(Backend::Okapi, CallOutcome::Failed { error_kind: "http_connect".into() }, "offline".into());
    assert_eq!(d.backend_label, "okapi");
    assert_eq!(d.response, "offline");
    assert_eq!(d.error_kind.as_deref(), Some("http_connect"));
    assert_eq!(d.skip_reason, Some(SkipReason::OfflineFallback));
    assert_eq!(skip_reason_tag(SkipReason::ThresholdSkip), "threshold_skip");
}

#[test]
fn session_records_are_formatted() {
    assert_eq!(
        help_event_summary("okapi", HelpSessionStatus::Success, "héllo"),
        "backend=okapi status=ok chars=6"
    );
    assert_eq!(session_note_line("S1", Some("fan noise"), "ok"), "- [S1] — fan noise [ok]\n");
    assert_eq!(session_note_line("S1", Some("  "), "fallback"), "- [S1] — (no note) [fallback]\n");
    assert_eq!(daily_note_name(1_767_225_600), Some("2026-01-01.md".to_string()));
    assert_eq!(daily_note_name(-1), Some("1969-12-31.md".to_string()));
    assert_eq!(daily_note_name(i64::MAX), None);
}

// ── meta help ──────────────────────────────────────────────────────

#[test]
fn threshold_gate_and_offline_summary() {
    let quiet = SeverityCounts { info: 4, warn: 1, alert: 0, crit: 0 };
    assert_eq!(check_threshold(&quiet), Some(MetaSkip::ThresholdSkip));
    assert_eq!(check_threshold(&SeverityCounts { info: 0, warn: 0, alert: 1, crit: 0 }), None);
    let records: Vec<_> = [row(Severity::Warn, None, Some("disk filling")), row(Severity::Info, None, None)]
        .iter()
        .map(event_record)
        .collect();
    assert_eq!(records[0].severity, "Warn");
    assert_eq!(records[0].probe, "Host");
    assert_eq!(
        fallback_summary(&quiet, &records),
        "## Russell Health Summary (Offline)\n\nSeverity: 0 crit, 0 alert, 1 warn, 4 info\n\nRecent events:\n  - [Warn] Host: disk filling\n  - [Info] Host: "
    );
}

#[test]
fn inference_reply_conclusions() {
    let c = conclude_reply(InferenceReply::Answered { response: None, model: Some("m".into()) });
    assert_eq!(c.backend, "okapi");
    assert_eq!(c.text.as_deref(), Some("No response from inference backend"));
    let f = conclude_reply(InferenceReply::Unreachable);
    assert_eq!(f.backend, "offline");
    assert_eq!(f.skip_reason, Some(MetaSkip::OfflineFallback));
    assert!(f.text.is_none());
}

// ── active symptoms ────────────────────────────────────────────────

#[test]
fn symptoms_come_from_elevated_events_only() {
    let events = [
        row(Severity::Alert, Some("sentinel/threshold/gpu_vram_used_pct"), Some("VRAM pressure rising")),
        row(Severity::Warn, Some("skill/okapi-watcher"), None),
        row(Severity::Info, Some("sentinel/rate/loadavg_1m"), Some("oom")),
        row(Severity::Crit, Some("sentinel/rate/swap_used_mib"), Some("swap swap")),
    ];
    let s = derive_active_symptoms(&events);
    assert_eq!(
        s,
        vec!["gpu", "gpu_vram_used_pct", "okapi-watcher", "pressure", "swap", "swap_used_mib", "vram"]
    );
}

#[test]
fn self_vitals_give_keywords() {
    let mut e = row(Severity::Warn, Some("proprio/llm_p95_latency_ms"), None);
    e.tier = Some("self_vital".into());
    assert_eq!(derive_active_symptoms(&[e]), vec!["latency", "llm", "p95"]);
}

#[test]
fn texts_sort_by_code_point() {
    assert!(lex_less("abc", "abd"));
    assert!(lex_less("ab", "abc"));
    assert!(!lex_less("b", "abc"));
    assert!(lex_less("Z", "a"));
    let v = vec!["b".to_string(), "a".to_string(), "b".to_string()];
    assert_eq!(sort_unique(&v), vec!["a".to_string(), "b".to_string()]);
}

// ── tool registry ──────────────────────────────────────────────────

fn tool(name: &str, risk: Option<&str>) -> McpToolDefinition {
    McpToolDefinition {
        name: name.into(),
        description: None,
        input_schema: None,
        annotations: None,
        risk_band: risk.map(|r| r.to_string()),
        server: None,
    }
}

#[test]
fn registry_upserts_removes_and_sorts() {
    let mut reg = ToolRegistry::new(Duration::from_secs(300));
    assert!(reg.is_stale());
    assert!(reg.is_empty());
    assert!(reg.age().is_none());
    reg.populate(vec![tool("zeta", None), tool("alpha", Some("none"))]);
    assert!(!reg.is_stale());
    assert_eq!(reg.tool_names(), vec!["alpha", "zeta"]);
    assert_eq!(reg.tool_risk_band("alpha").as_deref(), Some("none"));
    assert_eq!(reg.tool_risk_band("zeta"), None);
    reg.upsert_tool(tool("zeta", Some("high")));
    assert_eq!(reg.tool_count(), 2);
    assert_eq!(reg.tool_risk_band("zeta").as_deref(), Some("high"));
    reg.upsert_tool(tool("mid", None));
    assert_eq!(reg.tool_count(), 3);
    assert!(reg.remove_tool("zeta"));
    assert!(!reg.remove_tool("zeta"));
    assert!(!reg.has_tool("zeta"));
    assert!(reg.get_tool("mid").is_some());
    reg.invalidate();
    assert!(reg.is_stale());
    assert_eq!(reg.tool_count(), 2);
    reg.clear();
    assert!(reg.is_empty());
}

#[test]
fn failed_refresh_keeps_the_cache() {
    let mut reg = ToolRegistry::new(Duration::from_secs(300));
    reg.populate(vec![tool("a", None)]);
    assert!(reg.refreshed(Err(McpError::Unauthenticated)).is_err());
    assert!(reg.has_tool("a"));
    assert!(reg.refreshed(Ok(vec![tool("b", None)])).is_ok());
    assert!(!reg.has_tool("a"));
    assert!(reg.has_tool("b"));
}

// ── fallback router ────────────────────────────────────────────────

#[test]
fn test_fallback_uses_primary_when_healthy() {
    let mut r = FallbackRouter::new();
    assert_eq!(r.start(1_000), NextStep::Call(Attempt::Primary));
    assert_eq!(r.record(Attempt::Primary, true, 1_000), NextStep::Answered);
}

#[test]
fn test_fallback_uses_secondary_when_primary_fails() {
    let mut r = FallbackRouter::new();
    assert_eq!(r.start(1_000), NextStep::Call(Attempt::Primary));
    assert_eq!(r.record(Attempt::Primary, false, 1_000), NextStep::Call(Attempt::Secondary));
    assert_eq!(r.record(Attempt::Secondary, true, 1_000), NextStep::Answered);
}

#[test]
fn test_fallback_fails_when_both_fail() {
    let mut r = FallbackRouter::new();
    assert_eq!(r.record(Attempt::Primary, false, 1_000), NextStep::Call(Attempt::Secondary));
    assert_eq!(r.record(Attempt::Secondary, false, 1_000), NextStep::GiveUp(Exhausted::BothFailed));
    assert_eq!(
        exhausted_message(Exhausted::BothFailed, "boom"),
        "both backends failed: primary=circuit-open/failed, secondary=boom"
    );
}

#[test]
fn breaker_opens_after_threshold_and_resets_after_timeout() {
    let mut cb = CircuitBreaker::new(3, 30_000);
    cb.record_failure_at(1_000);
    cb.record_failure_at(1_000);
    assert!(cb.is_closed_at(1_000));
    cb.record_failure_at(1_000);
    assert!(!cb.is_closed_at(1_000));
    assert!(!cb.is_closed_at(30_999));
    assert!(cb.is_closed_at(31_000));
    cb.record_success();
    assert!(cb.is_closed_at(1_000));
    assert!(cb.is_closed());

    let mut r = FallbackRouter::with_circuit_breaker(1, 30_000);
    r.record(Attempt::Primary, false, 5_000);
    assert_eq!(r.start(6_000), NextStep::Call(Attempt::Secondary));
    r.record(Attempt::Secondary, false, 6_000);
    assert_eq!(r.start(7_000), NextStep::GiveUp(Exhausted::BothOpen));
    assert_eq!(exhausted_message(Exhausted::BothOpen, ""), "both backends circuit-breaker open");
}
