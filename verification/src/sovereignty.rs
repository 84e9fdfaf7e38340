//! Data sovereignty boundary — operator sovereignty and clear
//! boundaries.
//!
//! Every data access passes through the `require_sovereignty` gate
//! (data category) — there is no bypass. The default boundary requires
//! affirmative consent: it denies by default and fails closed on
//! uncategorized data. Consent grants are scoped, version-bound and
//! expiring; hierarchical resolution lets the most specific grant win.

use vstd::prelude::*;
use crate::text::str_eq;

verus! {

// ─── categories and tiers ────────────────────────────────────

/// Categories of data for sovereignty classification.
#[derive(Debug, Clone, Copy, PartialEq, Eq, Structural, Hash)]
pub enum DataCategory {
    /// Journal entries (samples, events, SOAP bundles).
    JournalEntry,
    /// Proprioceptive readings (self-observation vitals).
    ProprioceptiveReading,
    /// SOAP bundles (Subjective/Objective/Assessment/Plan).
    SoapBundle,
    /// Consent records (who consented to what, when).
    ConsentRecord,
    /// Operator profile (host info, preferences).
    OperatorProfile,
    /// Sentinel samples shared via ACP (with consent).
    SentinelSample,
    /// Skill dispatch results shared via ACP (with consent).
    SkillResult,
    /// Session metadata shared via ACP (with consent).
    SessionMetadata,
    /// hLexicon terms (terminology definitions).
    HlexiconTerm,
    /// Skill manifests (if published).
    SkillManifest,
    /// Probe definitions (public schema).
    ProbeDefinition,
}

/// Sovereignty tier — determines the access policy for a data category.
#[derive(Debug, Clone, Copy, PartialEq, Eq, Structural, Hash)]
pub enum SovereigntyTier {
    /// Operator controls. Never shared without explicit consent.
    Sovereign,
    /// Explicit consent required per category.
    Shared,
    /// No sovereignty claim. Can be shared freely.
    Public,
}

/// The tier of each category.
pub open spec fn tier_of(c: DataCategory) -> SovereigntyTier {
    match c {
        DataCategory::JournalEntry
        | DataCategory::ProprioceptiveReading
        | DataCategory::SoapBundle
        | DataCategory::ConsentRecord
        | DataCategory::OperatorProfile => SovereigntyTier::Sovereign,
        DataCategory::SentinelSample
        | DataCategory::SkillResult
        | DataCategory::SessionMetadata => SovereigntyTier::Shared,
        DataCategory::HlexiconTerm
        | DataCategory::SkillManifest
        | DataCategory::ProbeDefinition => SovereigntyTier::Public,
    }
}

impl DataCategory {
    /// Returns the sovereignty tier for this category.
    pub fn tier(&self) -> (r: SovereigntyTier)
        ensures
            r == tier_of(*self),
    {
        match self {
            DataCategory::JournalEntry
            | DataCategory::ProprioceptiveReading
            | DataCategory::SoapBundle
            | DataCategory::ConsentRecord
            | DataCategory::OperatorProfile => SovereigntyTier::Sovereign,
            DataCategory::SentinelSample
            | DataCategory::SkillResult
            | DataCategory::SessionMetadata => SovereigntyTier::Shared,
            DataCategory::HlexiconTerm
            | DataCategory::SkillManifest
            | DataCategory::ProbeDefinition => SovereigntyTier::Public,
        }
    }

    /// Whether this category requires affirmative consent before sharing:
    /// sovereign and shared data do, public data does not.
    pub fn requires_consent_to_share(&self) -> (r: bool)
        ensures
            r == (tier_of(*self) != SovereigntyTier::Public),
    {
        match self.tier() {
            SovereigntyTier::Sovereign | SovereigntyTier::Shared => true,
            SovereigntyTier::Public => false,
        }
    }
}

// ─── category sets ───────────────────────────────────────────

/// A set of data categories.
#[derive(Debug)]
pub struct CategorySet {
    items: Vec<DataCategory>,
}

impl View for CategorySet {
    type V = Set<DataCategory>;

    closed spec fn view(&self) -> Set<DataCategory> {
        self.items@.to_set()
    }
}

impl CategorySet {
    /// The members, each once, in insertion order.
    pub closed spec fn members(&self) -> Seq<DataCategory> {
        self.items@
    }

    #[verifier::type_invariant]
    closed spec fn no_dups(&self) -> bool {
        self.items@.no_duplicates()
    }

    /// The empty set.
    pub fn new() -> (r: Self)
        ensures
            r@ == Set::<DataCategory>::empty(),
            r.members().len() == 0,
    {
        let r = CategorySet { items: Vec::new() };
        proof {
            assert(r.items@.to_set() =~= Set::<DataCategory>::empty());
        }
        r
    }

    /// Membership.
    pub fn contains(&self, c: &DataCategory) -> (r: bool)
        ensures
            r == self@.contains(*c),
    {
        let mut i: usize = 0;
        while i < self.items.len()
            invariant
                i <= self.items@.len(),
                forall|j: int| 0 <= j < i ==> self.items@[j] != *c,
            decreases self.items@.len() - i,
        {
            if self.items[i] == *c {
                proof {
                    assert(self.items@.to_set().contains(self.items@[i as int]));
                }
                return true;
            }
            i = i + 1;
        }
        proof {
            if self.items@.to_set().contains(*c) {
                let j = choose|j: int| 0 <= j < self.items@.len() && self.items@[j] == *c;
                assert(self.items@[j] != *c);
            }
        }
        false
    }

    /// Add a category (no effect when already present).
    pub fn insert(&mut self, c: DataCategory)
        ensures
            final(self)@ == old(self)@.insert(c),
    {
        if !self.contains(&c) {
            proof {
                use_type_invariant(&*self);
            }
            let ghost old_items = self.items@;
            let mut items: Vec<DataCategory> = Vec::new();
            std::mem::swap(&mut items, &mut self.items);
            items.push(c);
            proof {
                assert(items@ == old_items.push(c));
            }
            let ghost new_items = items@;
            std::mem::swap(&mut items, &mut self.items);
            proof {
                assert(self.items@ == old_items.push(c));
                assert(self.items@.no_duplicates()) by {
                    assert forall|i: int, j: int| 0 <= i < self.items@.len() && 0 <= j < self.items@.len()
                        && i != j implies self.items@[i] != self.items@[j] by {
                        if i < old_items.len() && j < old_items.len() {
                        } else if i == old_items.len() {
                            assert(old_items.to_set().contains(old_items[j]));
                        } else {
                            assert(old_items.to_set().contains(old_items[i]));
                        }
                    }
                }
                lemma_push_to_set(old_items, c);
            }
        } else {
            proof {
                assert(self@.insert(c) =~= self@);
            }
        }
    }

    /// A set holding exactly the given categories.
    pub fn from_slice(cs: &[DataCategory]) -> (r: Self)
        ensures
            r@ == cs@.to_set(),
    {
        let mut r = CategorySet::new();
        let mut i: usize = 0;
        while i < cs.len()
            invariant
                i <= cs@.len(),
                r@ == cs@.subrange(0, i as int).to_set(),
            decreases cs@.len() - i,
        {
            r.insert(cs[i]);
            i = i + 1;
            proof {
                assert(cs@.subrange(0, i as int) == cs@.subrange(0, i - 1).push(cs@[i - 1]));
                lemma_push_to_set(cs@.subrange(0, i - 1), cs@[i - 1]);
            }
        }
        proof {
            assert(cs@.subrange(0, cs@.len() as int) =~= cs@);
        }
        r
    }

    /// The members as a vector, each once.
    pub fn to_vec(&self) -> (r: Vec<DataCategory>)
        ensures
            r@ == self.members(),
            r@.to_set() == self@,
            r@.no_duplicates(),
    {
        proof {
            use_type_invariant(self);
        }
        let mut out: Vec<DataCategory> = Vec::new();
        let mut i: usize = 0;
        while i < self.items.len()
            invariant
                i <= self.items@.len(),
                out@ == self.items@.subrange(0, i as int),
            decreases self.items@.len() - i,
        {
            out.push(self.items[i]);
            i = i + 1;
            proof {
                assert(out@ =~= self.items@.subrange(0, i as int));
            }
        }
        proof {
            assert(out@ =~= self.items@);
        }
        out
    }

    /// Number of members.
    pub fn len(&self) -> (r: usize)
        ensures
            r == self.members().len(),
    {
        self.items.len()
    }
}

proof fn lemma_push_to_set<A>(s: Seq<A>, c: A)
    ensures
        s.push(c).to_set() == s.to_set().insert(c),
{
    assert forall|a: A| s.push(c).to_set().contains(a) <==> s.to_set().insert(c).contains(a) by {
        if s.push(c).contains(a) {
            let j = choose|j: int| 0 <= j < s.push(c).len() && s.push(c)[j] == a;
            if j < s.len() {
                assert(s[j] == a);
                assert(s.contains(a));
            }
        }
        if s.contains(a) {
            let j = choose|j: int| 0 <= j < s.len() && s[j] == a;
            assert(s.push(c)[j] == a);
        }
        if a == c {
            assert(s.push(c)[s.len() as int] == a);
        }
    }
    assert(s.push(c).to_set() =~= s.to_set().insert(c));
}

// ─── the boundary ────────────────────────────────────────────

/// The data sovereignty boundary: which categories are sovereign,
/// shared or public, and whether affirmative consent is required.
#[derive(Debug)]
pub struct DataSovereigntyBoundary {
    /// Categories the operator controls — never shared without consent.
    pub sovereign_data: CategorySet,
    /// Categories that require explicit consent per sharing event.
    pub shared_data: CategorySet,
    /// Categories with no sovereignty claim — can be shared freely.
    pub public_data: CategorySet,
    /// Whether affirmative consent is required (default: true).
    pub requires_affirmative_consent: bool,
}

/// Errors returned by the sovereignty checker.
#[derive(Debug)]
pub enum SovereigntyError {
    /// Consent is required but not granted.
    ConsentRequired {
        /// The data category that was accessed.
        category: DataCategory,
        /// The requester who was denied access.
        requester: String,
    },
    /// Access to sovereign data was denied.
    SovereignDataAccessDenied {
        /// The data category that was accessed.
        category: DataCategory,
        /// The requester who was denied access.
        requester: String,
    },
    /// Access to shared data was denied.
    SharedDataAccessDenied {
        /// The data category that was accessed.
        category: DataCategory,
        /// The requester who was denied access.
        requester: String,
    },
    /// Access to uncategorized data was denied (fail-closed).
    UncategorizedDataAccessDenied {
        /// The data category that was accessed.
        category: DataCategory,
        /// The requester who was denied access.
        requester: String,
    },
}

/// Which gate decides an access, and how.
#[derive(PartialEq, Eq, Structural)]
pub enum AccessRuling {
    Permitted,
    ConsentRequired,
    SovereignDenied,
    SharedDenied,
    UncategorizedDenied,
}

/// The access decision, gate by gate: public data is always accessible;
/// then the affirmative-consent gate; then sovereign and shared data
/// need consent; anything else is denied.
pub open spec fn ruling(
    sovereign: Set<DataCategory>,
    shared: Set<DataCategory>,
    public: Set<DataCategory>,
    requires_consent: bool,
    c: DataCategory,
    has_consent: bool,
) -> AccessRuling {
    if public.contains(c) {
        AccessRuling::Permitted
    } else if requires_consent && !has_consent {
        AccessRuling::ConsentRequired
    } else if sovereign.contains(c) {
        if has_consent { AccessRuling::Permitted } else { AccessRuling::SovereignDenied }
    } else if shared.contains(c) {
        if has_consent { AccessRuling::Permitted } else { AccessRuling::SharedDenied }
    } else {
        AccessRuling::UncategorizedDenied
    }
}

/// The `Result` a ruling is reported as, for `category` and `requester`.
pub open spec fn ruling_result(rl: AccessRuling, r: Result<(), SovereigntyError>, c: DataCategory, requester: Seq<char>) -> bool {
    match rl {
        AccessRuling::Permitted => r is Ok,
        AccessRuling::ConsentRequired => r matches Err(SovereigntyError::ConsentRequired { category, requester: q })
            && category == c && q@ == requester,
        AccessRuling::SovereignDenied => r matches Err(SovereigntyError::SovereignDataAccessDenied { category, requester: q })
            && category == c && q@ == requester,
        AccessRuling::SharedDenied => r matches Err(SovereigntyError::SharedDataAccessDenied { category, requester: q })
            && category == c && q@ == requester,
        AccessRuling::UncategorizedDenied => r matches Err(SovereigntyError::UncategorizedDataAccessDenied { category, requester: q })
            && category == c && q@ == requester,
    }
}

/// Owned copy of a `&str`.
fn own(s: &str) -> (r: String)
    ensures
        r@ == s@,
{
    s.to_owned()
}

impl DataSovereigntyBoundary {
    pub open spec fn ruling_for(&self, c: DataCategory, has_consent: bool) -> AccessRuling {
        ruling(self.sovereign_data@, self.shared_data@, self.public_data@, self.requires_affirmative_consent, c, has_consent)
    }

    /// The default boundary: affirmative consent required; journal
    /// entries, proprioceptive readings, SOAP bundles, consent records
    /// and the operator profile are sovereign; sentinel samples, skill
    /// results and session metadata are shared; hLexicon terms, skill
    /// manifests and probe definitions are public.
    pub fn russell_default() -> (r: Self)
        ensures
            r.requires_affirmative_consent,
            forall|c: DataCategory| r.sovereign_data@.contains(c) <==> tier_of(c) == SovereigntyTier::Sovereign,
            forall|c: DataCategory| r.shared_data@.contains(c) <==> tier_of(c) == SovereigntyTier::Shared,
            forall|c: DataCategory| r.public_data@.contains(c) <==> tier_of(c) == SovereigntyTier::Public,
    {
        let sov = [
            DataCategory::JournalEntry,
            DataCategory::ProprioceptiveReading,
            DataCategory::SoapBundle,
            DataCategory::ConsentRecord,
            DataCategory::OperatorProfile,
        ];
        let sh = [DataCategory::SentinelSample, DataCategory::SkillResult, DataCategory::SessionMetadata];
        let pb = [DataCategory::HlexiconTerm, DataCategory::SkillManifest, DataCategory::ProbeDefinition];
        let sovereign_data = CategorySet::from_slice(sov.as_slice());
        let shared_data = CategorySet::from_slice(sh.as_slice());
        let public_data = CategorySet::from_slice(pb.as_slice());
        proof {
            assert forall|c: DataCategory| sovereign_data@.contains(c) <==> tier_of(c) == SovereigntyTier::Sovereign by {
                if tier_of(c) == SovereigntyTier::Sovereign {
                    match c {
                        DataCategory::JournalEntry => assert(sov@[0] == c),
                        DataCategory::ProprioceptiveReading => assert(sov@[1] == c),
                        DataCategory::SoapBundle => assert(sov@[2] == c),
                        DataCategory::ConsentRecord => assert(sov@[3] == c),
                        DataCategory::OperatorProfile => assert(sov@[4] == c),
                        _ => {},
                    }
                }
            }
            assert forall|c: DataCategory| shared_data@.contains(c) <==> tier_of(c) == SovereigntyTier::Shared by {
                if tier_of(c) == SovereigntyTier::Shared {
                    match c {
                        DataCategory::SentinelSample => assert(sh@[0] == c),
                        DataCategory::SkillResult => assert(sh@[1] == c),
                        DataCategory::SessionMetadata => assert(sh@[2] == c),
                        _ => {},
                    }
                }
            }
            assert forall|c: DataCategory| public_data@.contains(c) <==> tier_of(c) == SovereigntyTier::Public by {
                if tier_of(c) == SovereigntyTier::Public {
                    match c {
                        DataCategory::HlexiconTerm => assert(pb@[0] == c),
                        DataCategory::SkillManifest => assert(pb@[1] == c),
                        DataCategory::ProbeDefinition => assert(pb@[2] == c),
                        _ => {},
                    }
                }
            }
        }
        DataSovereigntyBoundary { sovereign_data, shared_data, public_data, requires_affirmative_consent: true }
    }

    /// Whether affirmative consent is required for any data access.
    pub fn requires_affirmative_consent(&self) -> (r: bool)
        ensures
            r == self.requires_affirmative_consent,
    {
        self.requires_affirmative_consent
    }

    /// Check whether `category` can be accessed by `requester`. `Ok(())`
    /// when permitted; otherwise the error says which rule refused access,
    /// for which category and which requester.
    pub fn can_access(&self, category: &DataCategory, requester: &str, has_consent: bool) -> (r: Result<(), SovereigntyError>)
        ensures
            ruling_result(self.ruling_for(*category, has_consent), r, *category, requester@),
    {
        if self.public_data.contains(category) {
            return Ok(());
        }
        if self.requires_affirmative_consent && !has_consent {
            return Err(SovereigntyError::ConsentRequired { category: *category, requester: own(requester) });
        }
        if self.sovereign_data.contains(category) {
            if has_consent {
                return Ok(());
            }
            return Err(SovereigntyError::SovereignDataAccessDenied { category: *category, requester: own(requester) });
        }
        if self.shared_data.contains(category) {
            if has_consent {
                return Ok(());
            }
            return Err(SovereigntyError::SharedDataAccessDenied { category: *category, requester: own(requester) });
        }
        Err(SovereigntyError::UncategorizedDataAccessDenied { category: *category, requester: own(requester) })
    }
}

// ─── the checker ─────────────────────────────────────────────

/// The sovereignty checker: the `require_sovereignty` gate over a fixed
/// boundary. No bypass, no override.
pub struct SovereigntyChecker {
    boundary: DataSovereigntyBoundary,
}

impl SovereigntyChecker {
    /// The boundary this checker enforces.
    pub closed spec fn boundary_spec(&self) -> &DataSovereigntyBoundary {
        &self.boundary
    }

    /// Create a new sovereignty checker with the given boundary.
    pub fn new(boundary: DataSovereigntyBoundary) -> (r: Self)
        ensures
            *r.boundary_spec() == boundary,
    {
        SovereigntyChecker { boundary }
    }

    /// Create a sovereignty checker with the default boundary.
    pub fn russell_default() -> (r: Self)
        ensures
            r.boundary_spec().requires_affirmative_consent,
            forall|c: DataCategory| r.boundary_spec().sovereign_data@.contains(c) <==> tier_of(c) == SovereigntyTier::Sovereign,
            forall|c: DataCategory| r.boundary_spec().shared_data@.contains(c) <==> tier_of(c) == SovereigntyTier::Shared,
            forall|c: DataCategory| r.boundary_spec().public_data@.contains(c) <==> tier_of(c) == SovereigntyTier::Public,
    {
        SovereigntyChecker { boundary: DataSovereigntyBoundary::russell_default() }
    }

    /// The `require_sovereignty` gate: exactly the boundary's `can_access`.
    pub fn require_sovereignty(&self, category: &DataCategory, requester: &str, has_consent: bool) -> (r: Result<(), SovereigntyError>)
        ensures
            ruling_result(self.boundary_spec().ruling_for(*category, has_consent), r, *category, requester@),
    {
        self.boundary.can_access(category, requester, has_consent)
    }

    /// The current boundary configuration.
    pub fn boundary(&self) -> (r: &DataSovereigntyBoundary)
        ensures
            r == self.boundary_spec(),
    {
        &self.boundary
    }
}

// ─── consent ─────────────────────────────────────────────────

/// The consent gate: whether a requester has consent for an action.
/// Implementations must fail closed.
pub trait ConsentGate {
    /// Check whether the requester has consent for the given action.
    fn has_consent(&self, requester: &str, action: &str) -> bool;
}

/// Fail-closed default consent gate — denies everything.
pub struct DenyAllConsent;

impl ConsentGate for DenyAllConsent {
    fn has_consent(&self, _requester: &str, _action: &str) -> (r: bool)
        ensures
            !r,
    {
        false
    }
}

/// A point in time, microseconds since the Unix epoch (UTC).
#[derive(Debug, Clone, Copy, PartialEq, Eq, Structural)]
pub struct UtcTime {
    /// Microseconds since 1970-01-01T00:00:00Z.
    pub micros: i64,
}

/// The current time (`chrono::Utc::now`), at microsecond precision.
/// Nothing is stated of the value: it is the wall clock.
#[verifier::external_body]
pub fn utc_now() -> (r: UtcTime) {
    UtcTime { micros: chrono::Utc::now().timestamp_micros() }
}

/// Hierarchical consent scope — most-specific grant wins.
#[derive(Debug, Clone, PartialEq, Eq, Hash)]
pub enum ConsentScope {
    /// Covers all skills and probes for the operator.
    Master,
    /// Specific to a single skill module.
    PerSkill {
        /// The skill ID this consent covers.
        skill_id: String,
    },
    /// One structure for probes, another for interventions.
    PerActionType {
        /// The action type this consent covers.
        action_type: String,
    },
}

/// Whether `scope` covers the skill / action type.
pub open spec fn covers_spec(scope: ConsentScope, skill_id: Seq<char>, action_type: Seq<char>) -> bool {
    match scope {
        ConsentScope::Master => true,
        ConsentScope::PerSkill { skill_id: sid } => sid@ == skill_id,
        ConsentScope::PerActionType { action_type: at } => at@ == action_type,
    }
}

/// Specificity ranking: `PerActionType` (2) > `PerSkill` (1) > `Master` (0).
pub open spec fn specificity(scope: ConsentScope) -> u8 {
    match scope {
        ConsentScope::Master => 0,
        ConsentScope::PerSkill { .. } => 1,
        ConsentScope::PerActionType { .. } => 2,
    }
}

fn scope_specificity(scope: &ConsentScope) -> (r: u8)
    ensures
        r == specificity(*scope),
{
    match scope {
        ConsentScope::Master => 0,
        ConsentScope::PerSkill { .. } => 1,
        ConsentScope::PerActionType { .. } => 2,
    }
}

/// A copy of a scope.
pub fn copy_scope(s: &ConsentScope) -> (r: ConsentScope)
    ensures
        r == *s,
{
    match s {
        ConsentScope::Master => ConsentScope::Master,
        ConsentScope::PerSkill { skill_id } => ConsentScope::PerSkill { skill_id: skill_id.clone() },
        ConsentScope::PerActionType { action_type } => ConsentScope::PerActionType { action_type: action_type.clone() },
    }
}

impl ConsentScope {
    /// Whether this scope covers the given action: `Master` covers all,
    /// `PerSkill` the named skill, `PerActionType` the named action type.
    pub fn covers(&self, skill_id: &str, action_type: &str) -> (r: bool)
        ensures
            r == covers_spec(*self, skill_id@, action_type@),
    {
        match self {
            ConsentScope::Master => true,
            ConsentScope::PerSkill { skill_id: sid } => str_eq(sid.as_str(), skill_id),
            ConsentScope::PerActionType { action_type: at } => str_eq(at.as_str(), action_type),
        }
    }
}

/// A single consent grant, scoped to a specific action.
#[derive(Debug)]
pub struct ConsentGrant {
    /// The categories this grant covers.
    pub categories: CategorySet,
    /// The resource version this grant was issued for.
    pub resource_version: Option<String>,
    /// When this grant expires; `None` = never.
    pub expires_at: Option<UtcTime>,
    /// The scope of this grant.
    pub scope: ConsentScope,
    /// When this grant was issued.
    pub granted_at: UtcTime,
}

/// The status of a consent check.
#[derive(Debug, PartialEq, Eq)]
pub enum ConsentStatus {
    /// Consent has been granted with the given scope.
    Granted {
        /// The scope of the granted consent.
        scope: ConsentScope,
    },
    /// Consent has not been granted for this action.
    Denied,
    /// Consent was granted but has expired.
    Expired {
        /// When the consent expired.
        expired_at: UtcTime,
    },
    /// Consent was granted for a different resource version.
    VersionMismatch {
        /// The version the consent was granted for.
        granted_version: String,
        /// The current version of the resource.
        current_version: String,
    },
}

pub open spec fn grant_expired(g: &ConsentGrant, now: UtcTime) -> bool {
    g.expires_at matches Some(e) && now.micros > e.micros
}

pub open spec fn grant_mismatch(g: &ConsentGrant, current: Option<Seq<char>>) -> bool {
    g.resource_version matches Some(gv) && current matches Some(cv) && gv@ != cv
}

/// The status one grant yields at `now` for `current` version:
/// expired first, then version mismatch, else granted with its scope.
pub open spec fn grant_status_ok(g: &ConsentGrant, current: Option<Seq<char>>, now: UtcTime, s: ConsentStatus) -> bool {
    if grant_expired(g, now) {
        s == ConsentStatus::Expired { expired_at: g.expires_at.unwrap() }
    } else if grant_mismatch(g, current) {
        s matches ConsentStatus::VersionMismatch { granted_version, current_version }
            && granted_version@ == g.resource_version.unwrap()@ && current_version@ == current.unwrap()
    } else {
        s == ConsentStatus::Granted { scope: g.scope }
    }
}

/// The view of an optional borrowed string.
pub open spec fn opt_view(o: Option<&str>) -> Option<Seq<char>> {
    match o {
        Some(s) => Some(s@),
        None => None,
    }
}

/// Where `action` is stored in `gs`, if it is.
pub open spec fn key_index(gs: Seq<(String, ConsentGrant)>, action: Seq<char>) -> Option<int> {
    if exists|i: int| 0 <= i < gs.len() && gs[i].0@ == action {
        Some(choose|i: int| 0 <= i < gs.len() && gs[i].0@ == action)
    } else {
        None
    }
}

/// `gs` after `entry` is stored under `action`: it replaces the pair
/// stored under `action` in place, or is appended.
pub open spec fn with_entry(gs: Seq<(String, ConsentGrant)>, action: Seq<char>, entry: (String, ConsentGrant)) -> Seq<(String, ConsentGrant)> {
    match key_index(gs, action) {
        Some(i) => gs.update(i, entry),
        None => gs.push(entry),
    }
}

/// `gs` without the pair stored under `action`.
pub open spec fn without_entry(gs: Seq<(String, ConsentGrant)>, action: Seq<char>) -> Seq<(String, ConsentGrant)> {
    match key_index(gs, action) {
        Some(i) => gs.remove(i),
        None => gs,
    }
}

/// Operator-granted consent: explicit, scoped, versioned, expiring
/// decisions keyed by action.
pub struct OperatorConsent {
    grants: Vec<(String, ConsentGrant)>,
}

impl OperatorConsent {
    /// The stored `(action, grant)` pairs.
    pub closed spec fn grants(&self) -> Seq<(String, ConsentGrant)> {
        self.grants@
    }

    /// Each action has at most one grant.
    #[verifier::type_invariant]
    closed spec fn keys_unique(&self) -> bool {
        unique_keys(self.grants@)
    }

    /// The grant stored for `action`, if any.
    pub open spec fn grant_for(&self, action: Seq<char>) -> Option<ConsentGrant> {
        grant_in(self.grants(), action)
    }

    /// A new empty consent store (all access denied).
    pub fn new() -> (r: Self)
        ensures
            r.grants().len() == 0,
            forall|a: Seq<char>| r.grant_for(a) is None,
    {
        OperatorConsent { grants: Vec::new() }
    }

    fn position(&self, action: &str) -> (r: Option<usize>)
        ensures
            match r {
                Some(i) => i < self.grants().len() && self.grants()[i as int].0@ == action@,
                None => forall|i: int| 0 <= i < self.grants().len() ==> self.grants()[i].0@ != action@,
            },
    {
        let mut i: usize = 0;
        while i < self.grants.len()
            invariant
                i <= self.grants@.len(),
                forall|j: int| 0 <= j < i ==> self.grants@[j].0@ != action@,
            decreases self.grants@.len() - i,
        {
            if str_eq(self.grants[i].0.as_str(), action) {
                return Some(i);
            }
            i = i + 1;
        }
        None
    }

    /// Grant consent for `action`, replacing any earlier grant for it.
    pub fn grant(&mut self, action: String, grant: ConsentGrant)
        ensures
            final(self).grants() == with_entry(old(self).grants(), action@, (action, grant)),
            unique_keys(final(self).grants()),
            final(self).grant_for(action@) == Some(grant),
            forall|a: Seq<char>| a != action@ ==> final(self).grant_for(a) == old(self).grant_for(a),
    {
        proof {
            use_type_invariant(&*self);
        }
        let ghost g0 = self.grants@;
        let ghost key = action@;
        let ghost gr = grant;
        match self.position(action.as_str()) {
            Some(i) => {
                let mut gs: Vec<(String, ConsentGrant)> = Vec::new();
                std::mem::swap(&mut gs, &mut self.grants);
                gs.set(i, (action, grant));
                proof {
                    assert forall|x: int, y: int| 0 <= x < gs@.len() && 0 <= y < gs@.len() && x != y implies
                        (#[trigger] gs@[x]).0@ != (#[trigger] gs@[y]).0@ by {
                        assert(g0[x].0@ != g0[y].0@);
                        if x == i {
                            assert(gs@[x].0@ == g0[x].0@);
                        }
                        if y == i {
                            assert(gs@[y].0@ == g0[y].0@);
                        }
                    }
                }
                std::mem::swap(&mut gs, &mut self.grants);
                proof {
                    let ns = self.grants@;
                    lemma_grant_in_at(ns, key, i as int);
                    assert forall|a: Seq<char>| a != key implies grant_in(ns, a) == grant_in(g0, a) by {
                        if exists|j: int| 0 <= j < ns.len() && ns[j].0@ == a {
                            let j = choose|j: int| 0 <= j < ns.len() && ns[j].0@ == a;
                            lemma_grant_in_at(ns, a, j);
                            lemma_grant_in_at(g0, a, j);
                        } else {
                            assert forall|j: int| 0 <= j < g0.len() implies g0[j].0@ != a by {
                                if j != i {
                                    assert(ns[j] == g0[j]);
                                }
                            }
                        }
                    }
                }
            },
            None => {
                let mut gs: Vec<(String, ConsentGrant)> = Vec::new();
                std::mem::swap(&mut gs, &mut self.grants);
                gs.push((action, grant));
                proof {
                    assert forall|x: int, y: int| 0 <= x < gs@.len() && 0 <= y < gs@.len() && x != y implies
                        (#[trigger] gs@[x]).0@ != (#[trigger] gs@[y]).0@ by {
                        if x < g0.len() && y < g0.len() {
                            assert(g0[x].0@ != g0[y].0@);
                        }
                    }
                }
                std::mem::swap(&mut gs, &mut self.grants);
                proof {
                    let ns = self.grants@;
                    let n = g0.len() as int;
                    lemma_grant_in_at(ns, key, n);
                    assert forall|a: Seq<char>| a != key implies grant_in(ns, a) == grant_in(g0, a) by {
                        if exists|j: int| 0 <= j < ns.len() && ns[j].0@ == a {
                            let j = choose|j: int| 0 <= j < ns.len() && ns[j].0@ == a;
                            lemma_grant_in_at(ns, a, j);
                            lemma_grant_in_at(g0, a, j);
                        } else {
                            assert forall|j: int| 0 <= j < g0.len() implies g0[j].0@ != a by {
                                assert(ns[j] == g0[j]);
                            }
                        }
                    }
                }
            },
        }
    }

    /// Revoke consent for `action`.
    pub fn revoke(&mut self, action: &str)
        ensures
            final(self).grants() == without_entry(old(self).grants(), action@),
            unique_keys(final(self).grants()),
            final(self).grant_for(action@) is None,
            forall|a: Seq<char>| a != action@ ==> final(self).grant_for(a) == old(self).grant_for(a),
    {
        proof {
            use_type_invariant(&*self);
        }
        let ghost g0 = self.grants@;
        match self.position(action) {
            Some(i) => {
                let mut gs: Vec<(String, ConsentGrant)> = Vec::new();
                std::mem::swap(&mut gs, &mut self.grants);
                let _ = gs.remove(i);
                proof {
                    assert(gs@ == g0.remove(i as int));
                    assert forall|x: int, y: int| 0 <= x < gs@.len() && 0 <= y < gs@.len() && x != y implies
                        (#[trigger] gs@[x]).0@ != (#[trigger] gs@[y]).0@ by {
                        let x0 = if x < i { x } else { x + 1 };
                        let y0 = if y < i { y } else { y + 1 };
                        assert(gs@[x] == g0[x0]);
                        assert(gs@[y] == g0[y0]);
                        assert(g0[x0].0@ != g0[y0].0@);
                    }
                }
                std::mem::swap(&mut gs, &mut self.grants);
                proof {
                    let ns = self.grants@;
                    assert forall|j: int| 0 <= j < ns.len() implies ns[j].0@ != action@ by {
                        let j0 = if j < i { j } else { j + 1 };
                        assert(ns[j] == g0[j0]);
                        assert(g0[j0].0@ != g0[i as int].0@);
                    }
                    lemma_grant_in_none(ns, action@);
                    assert forall|a: Seq<char>| a != action@ implies grant_in(ns, a) == grant_in(g0, a) by {
                        if exists|j: int| 0 <= j < ns.len() && ns[j].0@ == a {
                            let j = choose|j: int| 0 <= j < ns.len() && ns[j].0@ == a;
                            let j0 = if j < i { j } else { j + 1 };
                            assert(ns[j] == g0[j0]);
                            lemma_grant_in_at(ns, a, j);
                            lemma_grant_in_at(g0, a, j0);
                        } else {
                            assert forall|j: int| 0 <= j < g0.len() implies g0[j].0@ != a by {
                                if j < i {
                                    assert(ns[j] == g0[j]);
                                } else if j > i {
                                    assert(ns[j - 1] == g0[j]);
                                }
                            }
                        }
                    }
                }
            },
            None => {
                proof {
                    lemma_grant_in_none(g0, action@);
                }
            },
        }
    }

    /// Check consent for `action` at time `now`: `Denied` without a
    /// grant; else `Expired` when past its expiry, `VersionMismatch` when
    /// both versions are known and differ, otherwise `Granted`.
    pub fn check_consent_at(&self, action: &str, current_version: Option<&str>, now: UtcTime) -> (r: ConsentStatus)
        ensures
            match self.grant_for(action@) {
                None => r == ConsentStatus::Denied,
                Some(g) => grant_status_ok(&g, opt_view(current_version), now, r),
            },
    {
        proof {
            use_type_invariant(self);
        }
        match self.position(action) {
            None => ConsentStatus::Denied,
            Some(i) => {
                let g = &self.grants[i].1;
                proof {
                    let j = choose|j: int| 0 <= j < self.grants@.len() && self.grants@[j].0@ == action@;
                    assert(j == i);
                }
                status_of(g, current_version, now)
            },
        }
    }

    /// `check_consent_at` against the wall clock.
    pub fn check_consent(&self, action: &str, current_version: Option<&str>) -> (r: ConsentStatus)
        ensures
            self.grant_for(action@) is None ==> r == ConsentStatus::Denied,
            self.grant_for(action@) matches Some(g) ==> exists|now: UtcTime| grant_status_ok(&g, opt_view(current_version), now, r),
    {
        let now = utc_now();
        self.check_consent_at(action, current_version, now)
    }

    /// Resolve consent for a skill / action type at time `now` across
    /// all grants whose scope covers it. The most specific valid grant
    /// wins (`Granted`); failing that, the most specific expired or
    /// mismatched grant's status; failing that, `Denied`.
    pub fn resolve_consent_at(&self, skill_id: &str, action_type: &str, current_version: Option<&str>, now: UtcTime) -> (r: ConsentStatus)
        ensures
            resolution_ok(self.grants(), skill_id@, action_type@, opt_view(current_version), now, r),
    {
        let ghost cv = opt_view(current_version);
        let ghost gs = self.grants@;
        let mut best_granted: Option<(u8, ConsentScope)> = None;
        let mut best_denied: Option<(u8, ConsentStatus, Ghost<int>)> = None;
        let mut i: usize = 0;
        while i < self.grants.len()
            invariant
                i <= gs.len(),
                gs == self.grants@,
                cv == opt_view(current_version),
                match best_granted {
                    Some((sp, sc)) => sp == max_valid_spec(gs, i as int, skill_id@, action_type@, cv, now)
                        && any_valid(gs, i as int, skill_id@, action_type@, cv, now)
                        && covers_spec(sc, skill_id@, action_type@) && specificity(sc) == sp,
                    None => !any_valid(gs, i as int, skill_id@, action_type@, cv, now),
                },
                match best_denied {
                    Some((sp, st, w)) => {
                        &&& 0 <= w@ < i
                        &&& covers_spec(gs[w@].1.scope, skill_id@, action_type@)
                        &&& !valid_grant(&gs[w@].1, cv, now)
                        &&& specificity(gs[w@].1.scope) == sp
                        &&& grant_status_ok(&gs[w@].1, cv, now, st)
                        &&& forall|j: int| 0 <= j < i && covers_spec(gs[j].1.scope, skill_id@, action_type@)
                            && !valid_grant(&gs[j].1, cv, now) ==> specificity(gs[j].1.scope) <= sp
                    },
                    None => forall|j: int| 0 <= j < i ==> !(covers_spec(gs[j].1.scope, skill_id@, action_type@)
                        && !valid_grant(&gs[j].1, cv, now)),
                },
            decreases gs.len() - i,
        {
            let g = &self.grants[i].1;
            let ghost ii = i as int;
            let ghost old_bg = best_granted;
            let ghost old_bd = best_denied;
            assert(*g == gs[ii].1);
            proof {
                lemma_max_valid_step(gs, ii, skill_id@, action_type@, cv, now);
                lemma_max_valid_unfold(gs, ii, skill_id@, action_type@, cv, now);
            }
            if g.scope.covers(skill_id, action_type) {
                let sp = scope_specificity(&g.scope);
                let valid = is_valid_grant(g, current_version, now);
                if valid {
                    let better = match &best_granted {
                        Some((p, _)) => sp > *p,
                        None => true,
                    };
                    if better {
                        best_granted = Some((sp, copy_scope(&g.scope)));
                    }
                    proof {
                        assert forall|j: int| 0 <= j < ii + 1 && covers_spec(gs[j].1.scope, skill_id@, action_type@)
                            && !valid_grant(&gs[j].1, cv, now) implies j < ii by {}
                    }
                } else {
                    let better = match &best_denied {
                        Some((p, _, _)) => sp > *p,
                        None => true,
                    };
                    if better {
                        best_denied = Some((sp, status_of(g, current_version, now), Ghost(ii)));
                    }
                    proof {
                        match best_denied {
                            Some((bsp, _, _)) => {
                                assert forall|j: int| 0 <= j < ii + 1 && covers_spec(gs[j].1.scope, skill_id@, action_type@)
                                    && !valid_grant(&gs[j].1, cv, now) implies specificity(gs[j].1.scope) <= bsp by {
                                    if j < ii {
                                        match old_bd {
                                            Some((osp, _, _)) => {
                                                assert(specificity(gs[j].1.scope) <= osp);
                                            },
                                            None => {
                                                assert(!(covers_spec(gs[j].1.scope, skill_id@, action_type@)
                                                    && !valid_grant(&gs[j].1, cv, now)));
                                            },
                                        }
                                    }
                                }
                            },
                            None => {},
                        }
                    }
                }
            } else {
                proof {
                    assert forall|j: int| 0 <= j < ii + 1 && covers_spec(gs[j].1.scope, skill_id@, action_type@)
                        && !valid_grant(&gs[j].1, cv, now) implies j < ii by {}
                }
            }
            i = i + 1;
        }
        match best_granted {
            Some((_, scope)) => ConsentStatus::Granted { scope },
            None => match best_denied {
                Some((_, st, _)) => st,
                None => ConsentStatus::Denied,
            },
        }
    }

    /// `resolve_consent_at` against the wall clock.
    pub fn resolve_consent(&self, skill_id: &str, action_type: &str, current_version: Option<&str>) -> (r: ConsentStatus)
        ensures
            exists|now: UtcTime| resolution_ok(self.grants(), skill_id@, action_type@, opt_view(current_version), now, r),
    {
        let now = utc_now();
        self.resolve_consent_at(skill_id, action_type, current_version, now)
    }
}

impl Default for OperatorConsent {
    /// The empty consent store: nothing is granted.
    fn default() -> (r: Self)
        ensures
            r.grants().len() == 0,
            forall|a: Seq<char>| r.grant_for(a) is None,
    {
        OperatorConsent::new()
    }
}

impl ConsentGate for OperatorConsent {
    /// Whether the grant for `action` is valid now, by the wall clock; no
    /// resource version is checked.
    fn has_consent(&self, _requester: &str, action: &str) -> (r: bool)
        ensures
            self.grant_for(action@) is None ==> !r,
            self.grant_for(action@) matches Some(g) ==> exists|now: UtcTime| r == !#[trigger] grant_expired(&g, now),
    {
        let st = self.check_consent(action, None);
        let r = match st {
            ConsentStatus::Granted { .. } => true,
            _ => false,
        };
        proof {
            if let Some(g) = self.grant_for(action@) {
                let now = choose|now: UtcTime| grant_status_ok(&g, opt_view(None), now, st);
                assert(r == !grant_expired(&g, now));
            }
        }
        r
    }
}

/// The grant stored under `action` in `gs`, if any.
pub open spec fn grant_in(gs: Seq<(String, ConsentGrant)>, action: Seq<char>) -> Option<ConsentGrant> {
    if exists|i: int| 0 <= i < gs.len() && gs[i].0@ == action {
        let i = choose|i: int| 0 <= i < gs.len() && gs[i].0@ == action;
        Some(gs[i].1)
    } else {
        None
    }
}

pub open spec fn unique_keys(gs: Seq<(String, ConsentGrant)>) -> bool {
    forall|i: int, j: int| 0 <= i < gs.len() && 0 <= j < gs.len() && i != j ==> (#[trigger] gs[i]).0@ != (#[trigger] gs[j]).0@
}

proof fn lemma_grant_in_at(gs: Seq<(String, ConsentGrant)>, a: Seq<char>, j: int)
    requires
        unique_keys(gs),
        0 <= j < gs.len(),
        gs[j].0@ == a,
    ensures
        grant_in(gs, a) == Some(gs[j].1),
{
    let k = choose|i: int| 0 <= i < gs.len() && gs[i].0@ == a;
    if k != j {
        assert(gs[k].0@ != gs[j].0@);
    }
}

proof fn lemma_grant_in_none(gs: Seq<(String, ConsentGrant)>, a: Seq<char>)
    requires
        forall|j: int| 0 <= j < gs.len() ==> gs[j].0@ != a,
    ensures
        grant_in(gs, a) is None,
{
}

fn is_valid_grant(g: &ConsentGrant, current_version: Option<&str>, now: UtcTime) -> (r: bool)
    ensures
        r == valid_grant(g, opt_view(current_version), now),
{
    let expired = match g.expires_at {
        Some(e) => now.micros > e.micros,
        None => false,
    };
    if expired {
        return false;
    }
    match (&g.resource_version, current_version) {
        (Some(gv), Some(cv)) => str_eq(gv.as_str(), cv),
        _ => true,
    }
}

fn status_of(g: &ConsentGrant, current_version: Option<&str>, now: UtcTime) -> (r: ConsentStatus)
    ensures
        grant_status_ok(g, opt_view(current_version), now, r),
{
    if let Some(e) = g.expires_at {
        if now.micros > e.micros {
            return ConsentStatus::Expired { expired_at: e };
        }
    }
    if let (Some(gv), Some(cv)) = (&g.resource_version, current_version) {
        if !str_eq(gv.as_str(), cv) {
            return ConsentStatus::VersionMismatch { granted_version: gv.clone(), current_version: own(cv) };
        }
    }
    ConsentStatus::Granted { scope: copy_scope(&g.scope) }
}

pub open spec fn valid_grant(g: &ConsentGrant, current: Option<Seq<char>>, now: UtcTime) -> bool {
    !grant_expired(g, now) && !grant_mismatch(g, current)
}

/// Some grant among the first `n` covers the request and is valid.
pub open spec fn any_valid(gs: Seq<(String, ConsentGrant)>, n: int, skill: Seq<char>, at: Seq<char>, cv: Option<Seq<char>>, now: UtcTime) -> bool {
    exists|j: int| 0 <= j < n && covers_spec(gs[j].1.scope, skill, at) && valid_grant(&gs[j].1, cv, now)
}

/// Highest specificity among valid covering grants in the first `n`.
pub open spec fn max_valid_spec(gs: Seq<(String, ConsentGrant)>, n: int, skill: Seq<char>, at: Seq<char>, cv: Option<Seq<char>>, now: UtcTime) -> u8
    decreases n,
{
    if n <= 0 {
        0
    } else {
        let rest = max_valid_spec(gs, n - 1, skill, at, cv, now);
        let g = gs[n - 1].1;
        if covers_spec(g.scope, skill, at) && valid_grant(&g, cv, now) && (!any_valid(gs, n - 1, skill, at, cv, now)
            || specificity(g.scope) > rest) {
            specificity(g.scope)
        } else {
            rest
        }
    }
}

/// The hierarchical resolution: the most specific valid covering grant
/// wins; else the status of a most specific covering grant that is
/// expired or mismatched; else `Denied`.
pub open spec fn resolution_ok(gs: Seq<(String, ConsentGrant)>, skill: Seq<char>, at: Seq<char>, cv: Option<Seq<char>>, now: UtcTime, r: ConsentStatus) -> bool {
    if any_valid(gs, gs.len() as int, skill, at, cv, now) {
        r matches ConsentStatus::Granted { scope }
            && specificity(scope) == max_valid_spec(gs, gs.len() as int, skill, at, cv, now)
            && covers_spec(scope, skill, at)
    } else if exists|j: int| 0 <= j < gs.len() && covers_spec(gs[j].1.scope, skill, at) && !valid_grant(&gs[j].1, cv, now) {
        exists|w: int| {
            &&& 0 <= w < gs.len()
            &&& covers_spec(gs[w].1.scope, skill, at)
            &&& !valid_grant(&gs[w].1, cv, now)
            &&& grant_status_ok(&gs[w].1, cv, now, r)
            &&& forall|j: int| 0 <= j < gs.len() && covers_spec(gs[j].1.scope, skill, at) && !valid_grant(&gs[j].1, cv, now)
                ==> specificity(gs[j].1.scope) <= specificity(gs[w].1.scope)
        }
    } else {
        r == ConsentStatus::Denied
    }
}

proof fn lemma_max_valid_unfold(gs: Seq<(String, ConsentGrant)>, i: int, skill: Seq<char>, at: Seq<char>, cv: Option<Seq<char>>, now: UtcTime)
    requires
        0 <= i < gs.len(),
    ensures
        max_valid_spec(gs, i + 1, skill, at, cv, now) == (if covers_spec(gs[i].1.scope, skill, at) && valid_grant(&gs[i].1, cv, now)
            && (!any_valid(gs, i, skill, at, cv, now) || specificity(gs[i].1.scope) > max_valid_spec(gs, i, skill, at, cv, now)) {
            specificity(gs[i].1.scope)
        } else {
            max_valid_spec(gs, i, skill, at, cv, now)
        }),
{
    assert(i + 1 - 1 == i);
}

proof fn lemma_max_valid_step(gs: Seq<(String, ConsentGrant)>, i: int, skill: Seq<char>, at: Seq<char>, cv: Option<Seq<char>>, now: UtcTime)
    requires
        0 <= i < gs.len(),
    ensures
        any_valid(gs, i + 1, skill, at, cv, now) == (any_valid(gs, i, skill, at, cv, now) || (covers_spec(gs[i].1.scope, skill, at)
            && valid_grant(&gs[i].1, cv, now))),
{
    if any_valid(gs, i + 1, skill, at, cv, now) {
        let j = choose|j: int| 0 <= j < i + 1 && covers_spec(gs[j].1.scope, skill, at) && valid_grant(&gs[j].1, cv, now);
        if j < i {
            assert(any_valid(gs, i, skill, at, cv, now));
        }
    }
    if any_valid(gs, i, skill, at, cv, now) {
        let j = choose|j: int| 0 <= j < i && covers_spec(gs[j].1.scope, skill, at) && valid_grant(&gs[j].1, cv, now);
        assert(0 <= j < i + 1);
    }
}

// ─── runtime state ───────────────────────────────────────────

/// The runtime sovereignty state: the operator's current boundary and
/// consent status.
#[derive(Debug)]
pub struct OperatorSovereigntyState {
    /// The current data sovereignty boundary.
    pub boundary: DataSovereigntyBoundary,
    /// Whether the operator has given explicit consent.
    pub explicit_consent: bool,
    /// When the sovereignty state was last checked.
    pub last_check: UtcTime,
}

impl OperatorSovereigntyState {
    /// The default state: the default boundary, no explicit consent,
    /// checked now.
    pub fn russell_default() -> (r: Self)
        ensures
            !r.explicit_consent,
            r.boundary.requires_affirmative_consent,
            forall|c: DataCategory| r.boundary.sovereign_data@.contains(c) <==> tier_of(c) == SovereigntyTier::Sovereign,
            forall|c: DataCategory| r.boundary.shared_data@.contains(c) <==> tier_of(c) == SovereigntyTier::Shared,
            forall|c: DataCategory| r.boundary.public_data@.contains(c) <==> tier_of(c) == SovereigntyTier::Public,
    {
        OperatorSovereigntyState {
            boundary: DataSovereigntyBoundary::russell_default(),
            explicit_consent: false,
            last_check: utc_now(),
        }
    }
}

// ─── laws ────────────────────────────────────────────────────

/// Under any boundary, access without consent is permitted exactly for
/// public data.
pub proof fn lemma_no_access_without_consent_but_public(
    sovereign: Set<DataCategory>,
    shared: Set<DataCategory>,
    public: Set<DataCategory>,
    requires_consent: bool,
    c: DataCategory,
)
    ensures
        (ruling(sovereign, shared, public, requires_consent, c, false) == AccessRuling::Permitted) <==> public.contains(c),
{
}

/// Fail closed: data in none of the boundary's categories is never
/// accessible, with or without consent.
pub proof fn lemma_uncategorized_never_accessible(
    sovereign: Set<DataCategory>,
    shared: Set<DataCategory>,
    public: Set<DataCategory>,
    requires_consent: bool,
    c: DataCategory,
    has_consent: bool,
)
    requires
        !sovereign.contains(c),
        !shared.contains(c),
        !public.contains(c),
    ensures
        ruling(sovereign, shared, public, requires_consent, c, has_consent) != AccessRuling::Permitted,
{
}

/// Under the default tiers with affirmative consent required, every
/// category is accessible with consent, public ones without, and every
/// other category is refused without consent as `ConsentRequired`.
pub proof fn lemma_default_tiers_access(c: DataCategory, has_consent: bool)
    ensures
        ({
            let sov = Set::new(|d: DataCategory| tier_of(d) == SovereigntyTier::Sovereign);
            let sh = Set::new(|d: DataCategory| tier_of(d) == SovereigntyTier::Shared);
            let pb = Set::new(|d: DataCategory| tier_of(d) == SovereigntyTier::Public);
            let rl = ruling(sov, sh, pb, true, c, has_consent);
            &&& has_consent ==> rl == AccessRuling::Permitted
            &&& tier_of(c) == SovereigntyTier::Public ==> rl == AccessRuling::Permitted
            &&& (!has_consent && tier_of(c) != SovereigntyTier::Public) ==> rl == AccessRuling::ConsentRequired
        }),
{
}

/// The master scope covers every skill and every action type.
pub proof fn lemma_master_covers_all(skill_id: Seq<char>, action_type: Seq<char>)
    ensures
        covers_spec(ConsentScope::Master, skill_id, action_type),
{
}

/// The most specific valid grant wins: the specificity chosen among the
/// first `n` grants is at least that of every valid covering grant
/// among them.
pub proof fn lemma_most_specific_wins(
    gs: Seq<(String, ConsentGrant)>,
    n: int,
    skill: Seq<char>,
    at: Seq<char>,
    cv: Option<Seq<char>>,
    now: UtcTime,
    j: int,
)
    requires
        0 <= j < n <= gs.len(),
        covers_spec(gs[j].1.scope, skill, at),
        valid_grant(&gs[j].1, cv, now),
    ensures
        specificity(gs[j].1.scope) <= max_valid_spec(gs, n, skill, at, cv, now),
    decreases n,
{
    lemma_max_valid_unfold(gs, n - 1, skill, at, cv, now);
    lemma_max_valid_step(gs, n - 1, skill, at, cv, now);
    if j < n - 1 {
        lemma_most_specific_wins(gs, n - 1, skill, at, cv, now, j);
    }
}

} // verus!
