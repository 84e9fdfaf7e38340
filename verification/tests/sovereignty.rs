use russell::sovereignty::{
    utc_now, CategorySet, ConsentGate, ConsentGrant, ConsentScope, ConsentStatus, DataCategory,
    DataSovereigntyBoundary, DenyAllConsent, OperatorConsent, SovereigntyChecker, SovereigntyError,
    SovereigntyTier, UtcTime,
};

const HOUR_MICROS: i64 = 3_600_000_000;

fn hours_ago(h: i64) -> UtcTime {
    UtcTime { micros: utc_now().micros - h * HOUR_MICROS }
}

fn grant(scope: ConsentScope, version: Option<&str>, expires_at: Option<UtcTime>) -> ConsentGrant {
    ConsentGrant {
        categories: CategorySet::from_slice(&[DataCategory::JournalEntry]),
        resource_version: version.map(|v| v.to_string()),
        expires_at,
        scope,
        granted_at: utc_now(),
    }
}

#[test]
fn data_category_tiers() {
    assert_eq!(DataCategory::JournalEntry.tier(), SovereigntyTier::Sovereign);
    assert_eq!(DataCategory::SentinelSample.tier(), SovereigntyTier::Shared);
    assert_eq!(DataCategory::HlexiconTerm.tier(), SovereigntyTier::Public);
}

#[test]
fn data_category_consent_requirements() {
    assert!(DataCategory::JournalEntry.requires_consent_to_share());
    assert!(DataCategory::SentinelSample.requires_consent_to_share());
    assert!(!DataCategory::HlexiconTerm.requires_consent_to_share());
}

#[test]
fn default_boundary_is_deny_by_default() {
    let boundary = DataSovereigntyBoundary::russell_default();
    assert!(boundary.requires_affirmative_consent());
}

#[test]
fn sovereignty_checker_deny_without_consent() {
    let checker = SovereigntyChecker::russell_default();
    let result = checker.require_sovereignty(&DataCategory::JournalEntry, "remote-agent", false);
    assert!(result.is_err());
}

#[test]
fn sovereignty_checker_allow_with_consent() {
    let checker = SovereigntyChecker::russell_default();
    let result = checker.require_sovereignty(&DataCategory::JournalEntry, "operator", true);
    assert!(result.is_ok());
}

#[test]
fn sovereignty_checker_public_always_accessible() {
    let checker = SovereigntyChecker::russell_default();
    let result = checker.require_sovereignty(&DataCategory::HlexiconTerm, "anyone", false);
    assert!(result.is_ok());
}

#[test]
fn deny_all_consent_gate_denies_everything() {
    let gate = DenyAllConsent;
    assert!(!gate.has_consent("operator", "any-action"));
    assert!(!gate.has_consent("admin", "any-action"));
}

#[test]
fn consent_scope_covers() {
    let master = ConsentScope::Master;
    let per_skill = ConsentScope::PerSkill { skill_id: "sysadmin".to_string() };
    let per_action = ConsentScope::PerActionType { action_type: "probe".to_string() };

    assert!(master.covers("sysadmin", "probe"));
    assert!(master.covers("any-skill", "any-action"));

    assert!(per_skill.covers("sysadmin", "probe"));
    assert!(!per_skill.covers("other-skill", "probe"));

    assert!(per_action.covers("sysadmin", "probe"));
    assert!(!per_action.covers("sysadmin", "intervention"));
}

#[test]
fn operator_consent_grant_and_revoke() {
    let mut consent = OperatorConsent::new();
    let g = grant(ConsentScope::PerSkill { skill_id: "sysadmin".to_string() }, Some("1.0.0"), None);
    consent.grant("sysadmin/sweep-caches".to_string(), g);
    assert!(consent.has_consent("operator", "sysadmin/sweep-caches"));

    consent.revoke("sysadmin/sweep-caches");
    assert!(!consent.has_consent("operator", "sysadmin/sweep-caches"));
}

#[test]
fn operator_consent_version_mismatch() {
    let mut consent = OperatorConsent::new();
    consent.grant("action".to_string(), grant(ConsentScope::Master, Some("1.0.0"), None));

    assert_eq!(
        consent.check_consent("action", Some("1.0.0")),
        ConsentStatus::Granted { scope: ConsentScope::Master }
    );
    assert_eq!(
        consent.check_consent("action", Some("2.0.0")),
        ConsentStatus::VersionMismatch {
            granted_version: "1.0.0".to_string(),
            current_version: "2.0.0".to_string()
        }
    );
}

#[test]
fn operator_consent_expiry() {
    let mut consent = OperatorConsent::new();
    let mut g = grant(ConsentScope::Master, None, Some(hours_ago(1)));
    g.granted_at = hours_ago(2);
    consent.grant("action".to_string(), g);
    match consent.check_consent("action", None) {
        ConsentStatus::Expired { .. } => {}
        other => panic!("Expected Expired, got {:?}", other),
    }
}

fn empty_grant(scope: ConsentScope) -> ConsentGrant {
    ConsentGrant {
        categories: CategorySet::new(),
        resource_version: None,
        expires_at: None,
        scope,
        granted_at: utc_now(),
    }
}

#[test]
fn resolve_consent_master_covers_all() {
    let mut consent = OperatorConsent::new();
    consent.grant("master-grant".to_string(), empty_grant(ConsentScope::Master));
    let status = consent.resolve_consent("any-skill", "any-action", None);
    assert_eq!(status, ConsentStatus::Granted { scope: ConsentScope::Master });
}

#[test]
fn resolve_consent_per_skill_covers_skill_actions() {
    let mut consent = OperatorConsent::new();
    consent.grant(
        "sysadmin/grant".to_string(),
        empty_grant(ConsentScope::PerSkill { skill_id: "sysadmin".to_string() }),
    );
    let status = consent.resolve_consent("sysadmin", "sweep-caches", None);
    assert_eq!(
        status,
        ConsentStatus::Granted { scope: ConsentScope::PerSkill { skill_id: "sysadmin".to_string() } }
    );
    let status = consent.resolve_consent("other-skill", "sweep-caches", None);
    assert_eq!(status, ConsentStatus::Denied);
}

#[test]
fn resolve_consent_per_action_type_covers_action() {
    let mut consent = OperatorConsent::new();
    consent.grant(
        "probe-grant".to_string(),
        empty_grant(ConsentScope::PerActionType { action_type: "probe".to_string() }),
    );
    let status = consent.resolve_consent("sysadmin", "probe", None);
    assert_eq!(
        status,
        ConsentStatus::Granted { scope: ConsentScope::PerActionType { action_type: "probe".to_string() } }
    );
    let status = consent.resolve_consent("sysadmin", "intervention", None);
    assert_eq!(status, ConsentStatus::Denied);
}

#[test]
fn resolve_consent_most_specific_wins() {
    let mut consent = OperatorConsent::new();
    consent.grant("master".to_string(), empty_grant(ConsentScope::Master));
    consent.grant(
        "sysadmin/grant".to_string(),
        empty_grant(ConsentScope::PerSkill { skill_id: "sysadmin".to_string() }),
    );
    consent.grant(
        "probe-grant".to_string(),
        empty_grant(ConsentScope::PerActionType { action_type: "probe".to_string() }),
    );

    let status = consent.resolve_consent("sysadmin", "probe", None);
    assert_eq!(
        status,
        ConsentStatus::Granted { scope: ConsentScope::PerActionType { action_type: "probe".to_string() } }
    );
    let status = consent.resolve_consent("sysadmin", "intervention", None);
    assert_eq!(
        status,
        ConsentStatus::Granted { scope: ConsentScope::PerSkill { skill_id: "sysadmin".to_string() } }
    );
    let status = consent.resolve_consent("other-skill", "action", None);
    assert_eq!(status, ConsentStatus::Granted { scope: ConsentScope::Master });
}

#[test]
fn resolve_consent_expired_grant_falls_through() {
    let mut consent = OperatorConsent::new();
    let mut expired = empty_grant(ConsentScope::Master);
    expired.expires_at = Some(hours_ago(1));
    expired.granted_at = hours_ago(2);
    consent.grant("expired-master".to_string(), expired);
    consent.grant(
        "sysadmin/grant".to_string(),
        empty_grant(ConsentScope::PerSkill { skill_id: "sysadmin".to_string() }),
    );

    let status = consent.resolve_consent("sysadmin", "action", None);
    assert_eq!(
        status,
        ConsentStatus::Granted { scope: ConsentScope::PerSkill { skill_id: "sysadmin".to_string() } }
    );
    let status = consent.resolve_consent("other-skill", "action", None);
    assert!(matches!(status, ConsentStatus::Expired { .. }));
}

#[test]
fn uncategorized_data_is_denied() {
    let boundary = DataSovereigntyBoundary::russell_default();
    let mut all: Vec<DataCategory> = boundary.sovereign_data.to_vec();
    all.extend(boundary.shared_data.to_vec());
    all.extend(boundary.public_data.to_vec());
    for cat in [
        DataCategory::JournalEntry,
        DataCategory::ProprioceptiveReading,
        DataCategory::SoapBundle,
        DataCategory::ConsentRecord,
        DataCategory::OperatorProfile,
        DataCategory::SentinelSample,
        DataCategory::SkillResult,
        DataCategory::SessionMetadata,
        DataCategory::HlexiconTerm,
        DataCategory::SkillManifest,
        DataCategory::ProbeDefinition,
    ] {
        assert!(all.contains(&cat), "Category {:?} not in any set", cat);
    }
}

#[test]
fn refusals_name_the_gate_category_and_requester() {
    let checker = SovereigntyChecker::russell_default();
    match checker.require_sovereignty(&DataCategory::SkillResult, "peer", false) {
        Err(SovereigntyError::ConsentRequired { category, requester }) => {
            assert_eq!(category, DataCategory::SkillResult);
            assert_eq!(requester, "peer");
        }
        other => panic!("unexpected {:?}", other),
    }
    let mut boundary = DataSovereigntyBoundary::russell_default();
    boundary.requires_affirmative_consent = false;
    let lax = SovereigntyChecker::new(boundary);
    assert!(matches!(
        lax.require_sovereignty(&DataCategory::JournalEntry, "peer", false),
        Err(SovereigntyError::SovereignDataAccessDenied { .. })
    ));
    assert!(matches!(
        lax.require_sovereignty(&DataCategory::SessionMetadata, "peer", false),
        Err(SovereigntyError::SharedDataAccessDenied { .. })
    ));
    let empty = DataSovereigntyBoundary {
        sovereign_data: CategorySet::new(),
        shared_data: CategorySet::new(),
        public_data: CategorySet::new(),
        requires_affirmative_consent: true,
    };
    let closed = SovereigntyChecker::new(empty);
    assert!(matches!(
        closed.require_sovereignty(&DataCategory::JournalEntry, "operator", true),
        Err(SovereigntyError::UncategorizedDataAccessDenied { .. })
    ));
}

#[test]
fn category_sets_hold_each_member_once() {
    let mut s = CategorySet::new();
    s.insert(DataCategory::SoapBundle);
    s.insert(DataCategory::SoapBundle);
    s.insert(DataCategory::SkillManifest);
    assert_eq!(s.len(), 2);
    assert!(s.contains(&DataCategory::SoapBundle));
    assert!(!s.contains(&DataCategory::JournalEntry));
}

#[test]
fn default_consent_store_grants_nothing() {
    let consent = OperatorConsent::default();
    assert_eq!(consent.check_consent("anything", None), ConsentStatus::Denied);
    assert_eq!(consent.resolve_consent("s", "a", None), ConsentStatus::Denied);
}
