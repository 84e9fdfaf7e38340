//! The Nurse's `ACTION:` resolver: the last `ACTION:` line of a reply
//! is resolved against the loaded skills, or, for `kask/<tool>`, against
//! the Kask MCP tool registry.
//!
//! ```text
//! ACTION: <skill-id>/<probe-or-intervention-id>
//! ACTION: kask/<tool-name>
//! ```

use vstd::prelude::*;
use crate::meta::action::{
    action_error_text, debug_strings, find_intervention, find_probe, find_skill, intervention_id_list,
    intervention_ids, list_contains, probe_id_list, probe_ids, skill_id_list, skill_ids, ActionErrorView,
};
use crate::risk::RiskBand;
use crate::skill::{copy_strings, strings_view, EvalCheck, Intervention, Rollback, Skill};
use crate::text::{
    chars_of, find_char_from, first_index_of, index_of_first, lemma_index_of_first, lemma_index_of_first_is,
    lines_of, lines_spec, slice_chars, starts_with_chars, starts_with_seq, str_eq, string_from_chars, trim,
    trim_chars,
};

verus! {

/// A post-intervention evaluation check taken from the skill manifest.
#[derive(Debug, Clone)]
pub struct EvalCheckInfo {
    /// Unique ID within the evaluation checks.
    pub id: String,
    /// Argv to execute.
    pub cmd: Vec<String>,
    /// Expected exit code.
    pub expect_exit: i32,
    /// Timeout, as written in the manifest.
    pub timeout: String,
}

/// A Kask tool known to the registry, as the caller hands it in.
#[derive(Debug, Clone)]
pub struct KaskToolInfo {
    /// Tool name (the callable ID).
    pub name: String,
    /// Risk band from the tool's annotations.
    pub risk_band: RiskBand,
}

/// A resolved action: a probe, an intervention or a Kask tool call.
#[derive(Debug, Clone)]
pub enum ResolvedAction {
    /// Read-only probe; auto-executable.
    Probe {
        /// Skill that owns the probe.
        skill_id: String,
        /// Probe ID.
        action_id: String,
        /// Argv to execute.
        cmd: Vec<String>,
        /// Skill's max-auto-risk cap.
        max_auto_risk: RiskBand,
    },
    /// Mutating intervention; requires operator consent above the cap.
    Intervention {
        /// Skill that owns the intervention.
        skill_id: String,
        /// Intervention ID.
        action_id: String,
        /// Argv to execute.
        cmd: Vec<String>,
        /// Risk band declared in the manifest.
        risk: RiskBand,
        /// Whether this requires sudo.
        needs_sudo: bool,
        /// Skill's max-auto-risk cap.
        max_auto_risk: RiskBand,
        /// Whether the manifest lists this ID as needing a human.
        requires_human: bool,
        /// Rollback intervention, if rollback is by a named intervention.
        rollback_id: Option<String>,
        /// Rollback command argv, if that intervention exists.
        rollback_cmd: Option<Vec<String>>,
        /// Whether rollback requires a reboot.
        rollback_is_reboot: bool,
        /// The skill's post-intervention evaluation checks.
        eval_checks: Vec<EvalCheckInfo>,
    },
    /// Kask MCP tool call, executed by the MCP client.
    KaskTool {
        /// The MCP tool name.
        tool_name: String,
        /// Risk band from the tool's annotations.
        risk_band: RiskBand,
    },
}

/// Error returned when an `ACTION:` line cannot be resolved.
#[derive(Debug, Clone)]
pub enum ActionError {
    /// The prefix could not be stripped (nothing after it).
    MalformedPrefix {
        /// The raw line.
        raw: String,
    },
    /// Missing `/` between skill and action ID.
    MissingSeparator {
        /// The spec string without the separator.
        spec: String,
    },
    /// Skill or action ID was empty.
    EmptyId {
        /// The spec string with an empty component.
        spec: String,
    },
    /// Referenced skill is not loaded.
    UnknownSkill {
        /// The skill ID that was not found.
        skill_id: String,
        /// All loaded skill IDs (and `kask` when tools are available).
        loaded: Vec<String>,
    },
    /// Referenced action is not known.
    UnknownAction {
        /// The skill that was found.
        skill_id: String,
        /// The action ID that was not found.
        action_id: String,
        /// The skill's probe IDs, or the available Kask tools.
        probes: Vec<String>,
        /// The skill's intervention IDs.
        interventions: Vec<String>,
    },
}

// ─── views ───────────────────────────────────────────────────

/// An evaluation check as plain values.
pub struct EvalCheckView {
    pub id: Seq<char>,
    pub cmd: Seq<Seq<char>>,
    pub expect_exit: i32,
    pub timeout: Seq<char>,
}

/// A resolved action as plain values.
pub enum ActionView {
    Probe { skill_id: Seq<char>, action_id: Seq<char>, cmd: Seq<Seq<char>>, max_auto_risk: RiskBand },
    Intervention {
        skill_id: Seq<char>,
        action_id: Seq<char>,
        cmd: Seq<Seq<char>>,
        risk: RiskBand,
        needs_sudo: bool,
        max_auto_risk: RiskBand,
        requires_human: bool,
        rollback_id: Option<Seq<char>>,
        rollback_cmd: Option<Seq<Seq<char>>>,
        rollback_is_reboot: bool,
        eval_checks: Seq<EvalCheckView>,
    },
    KaskTool { tool_name: Seq<char>, risk_band: RiskBand },
}

impl View for EvalCheckInfo {
    type V = EvalCheckView;

    open spec fn view(&self) -> EvalCheckView {
        EvalCheckView { id: self.id@, cmd: strings_view(self.cmd@), expect_exit: self.expect_exit, timeout: self.timeout@ }
    }
}

impl View for ResolvedAction {
    type V = ActionView;

    open spec fn view(&self) -> ActionView {
        match self {
            ResolvedAction::Probe { skill_id, action_id, cmd, max_auto_risk } => ActionView::Probe {
                skill_id: skill_id@,
                action_id: action_id@,
                cmd: strings_view(cmd@),
                max_auto_risk: *max_auto_risk,
            },
            ResolvedAction::Intervention {
                skill_id,
                action_id,
                cmd,
                risk,
                needs_sudo,
                max_auto_risk,
                requires_human,
                rollback_id,
                rollback_cmd,
                rollback_is_reboot,
                eval_checks,
            } => ActionView::Intervention {
                skill_id: skill_id@,
                action_id: action_id@,
                cmd: strings_view(cmd@),
                risk: *risk,
                needs_sudo: *needs_sudo,
                max_auto_risk: *max_auto_risk,
                requires_human: *requires_human,
                rollback_id: match rollback_id {
                    Some(r) => Some(r@),
                    None => None,
                },
                rollback_cmd: match rollback_cmd {
                    Some(c) => Some(strings_view(c@)),
                    None => None,
                },
                rollback_is_reboot: *rollback_is_reboot,
                eval_checks: Seq::new(eval_checks@.len(), |i: int| eval_checks@[i]@),
            },
            ResolvedAction::KaskTool { tool_name, risk_band } => ActionView::KaskTool {
                tool_name: tool_name@,
                risk_band: *risk_band,
            },
        }
    }
}

impl View for ActionError {
    type V = ActionErrorView;

    open spec fn view(&self) -> ActionErrorView {
        match self {
            ActionError::MalformedPrefix { raw } => ActionErrorView::MalformedPrefix { raw: raw@ },
            ActionError::MissingSeparator { spec } => ActionErrorView::MissingSeparator { spec: spec@ },
            ActionError::EmptyId { spec } => ActionErrorView::EmptyId { spec: spec@ },
            ActionError::UnknownSkill { skill_id, loaded } => ActionErrorView::UnknownSkill {
                skill_id: skill_id@,
                loaded: strings_view(loaded@),
            },
            ActionError::UnknownAction { skill_id, action_id, probes, interventions } => ActionErrorView::UnknownAction {
                skill_id: skill_id@,
                action_id: action_id@,
                probes: strings_view(probes@),
                interventions: strings_view(interventions@),
            },
        }
    }
}

/// The view of an optional resolution.
pub open spec fn opt_result_view(r: Option<Result<ResolvedAction, ActionError>>) -> Option<Result<ActionView, ActionErrorView>> {
    match r {
        Some(Ok(a)) => Some(Ok(a@)),
        Some(Err(e)) => Some(Err(e@)),
        None => None,
    }
}

// ─── accessors ───────────────────────────────────────────────

impl ResolvedAction {
    /// Whether this is a probe.
    pub fn is_probe(&self) -> (r: bool)
        ensures
            r == (self is Probe),
    {
        match self {
            ResolvedAction::Probe { .. } => true,
            _ => false,
        }
    }

    /// Whether this is a Kask tool call.
    pub fn is_kask_tool(&self) -> (r: bool)
        ensures
            r == (self is KaskTool),
    {
        match self {
            ResolvedAction::KaskTool { .. } => true,
            _ => false,
        }
    }

    /// The risk band: none for probes, else the declared band.
    pub fn risk_band(&self) -> (r: RiskBand)
        ensures
            r == match self {
                ResolvedAction::Probe { .. } => RiskBand::NoRisk,
                ResolvedAction::Intervention { risk, .. } => *risk,
                ResolvedAction::KaskTool { risk_band, .. } => *risk_band,
            },
    {
        match self {
            ResolvedAction::Probe { .. } => RiskBand::NoRisk,
            ResolvedAction::Intervention { risk, .. } => *risk,
            ResolvedAction::KaskTool { risk_band, .. } => *risk_band,
        }
    }

    /// The skill ID; `kask` for Kask tools.
    pub fn skill_id(&self) -> (r: &str)
        ensures
            r@ == match self {
                ResolvedAction::Probe { skill_id, .. } => skill_id@,
                ResolvedAction::Intervention { skill_id, .. } => skill_id@,
                ResolvedAction::KaskTool { .. } => seq!['k', 'a', 's', 'k'],
            },
    {
        proof {
            reveal_strlit("kask");
            assert("kask"@ =~= seq!['k', 'a', 's', 'k']);
        }
        match self {
            ResolvedAction::Probe { skill_id, .. } => skill_id.as_str(),
            ResolvedAction::Intervention { skill_id, .. } => skill_id.as_str(),
            ResolvedAction::KaskTool { .. } => "kask",
        }
    }

    /// The probe or intervention ID; the tool name for Kask tools.
    pub fn action_id(&self) -> (r: &str)
        ensures
            r@ == match self {
                ResolvedAction::Probe { action_id, .. } => action_id@,
                ResolvedAction::Intervention { action_id, .. } => action_id@,
                ResolvedAction::KaskTool { tool_name, .. } => tool_name@,
            },
    {
        match self {
            ResolvedAction::Probe { action_id, .. } => action_id.as_str(),
            ResolvedAction::Intervention { action_id, .. } => action_id.as_str(),
            ResolvedAction::KaskTool { tool_name, .. } => tool_name.as_str(),
        }
    }

    /// The command argv; empty for Kask tools.
    pub fn cmd(&self) -> (r: Vec<String>)
        ensures
            strings_view(r@) == match self {
                ResolvedAction::Probe { cmd, .. } => strings_view(cmd@),
                ResolvedAction::Intervention { cmd, .. } => strings_view(cmd@),
                ResolvedAction::KaskTool { .. } => Seq::<Seq<char>>::empty(),
            },
    {
        match self {
            ResolvedAction::Probe { cmd, .. } => copy_strings(cmd),
            ResolvedAction::Intervention { cmd, .. } => copy_strings(cmd),
            ResolvedAction::KaskTool { .. } => {
                let v: Vec<String> = Vec::new();
                proof {
                    assert(strings_view(v@) =~= Seq::<Seq<char>>::empty());
                }
                v
            },
        }
    }
}

// ─── resolution ──────────────────────────────────────────────

/// Index of the last line whose trimmed text starts with `prefix`.
pub open spec fn last_prefixed_line(lines: Seq<Seq<char>>, prefix: Seq<char>) -> Option<int>
    decreases lines.len(),
{
    if lines.len() == 0 {
        None
    } else if starts_with_seq(trim(lines.last()), prefix) {
        Some(lines.len() - 1)
    } else {
        last_prefixed_line(lines.drop_last(), prefix)
    }
}

/// The names of the Kask tools.
pub open spec fn tool_names(ts: Seq<KaskToolInfo>) -> Seq<Seq<char>> {
    Seq::new(ts.len(), |i: int| ts[i].name@)
}

/// The evaluation checks an intervention of `sk` carries.
pub open spec fn eval_checks_of(sk: Skill) -> Seq<EvalCheckView> {
    match sk.evaluation {
        Some(ev) => Seq::new(
            ev.after_intervention@.len(),
            |i: int| EvalCheckView {
                id: ev.after_intervention@[i].id@,
                cmd: strings_view(ev.after_intervention@[i].cmd@),
                expect_exit: ev.after_intervention@[i].expect_exit,
                timeout: ev.after_intervention@[i].timeout@,
            },
        ),
        None => Seq::empty(),
    }
}

/// The intervention an action resolves to inside `sk`.
pub open spec fn intervention_view(skill_id: Seq<char>, sk: Skill, iv: Intervention) -> ActionView {
    let requires_human = strings_view(sk.safety.require_human_for@).contains(iv.id@);
    let (rollback_id, rollback_cmd, rollback_is_reboot) = match iv.rollback {
        Rollback::RollbackId { rollback } => (
            Some(rollback@),
            match index_of_first(intervention_ids(sk.interventions@), rollback@) {
                Some(j) => Some(strings_view(sk.interventions@[j].cmd@)),
                None => None,
            },
            false,
        ),
        Rollback::NoneNeeded => (None, None, false),
        Rollback::Reboot => (None, None, true),
    };
    ActionView::Intervention {
        skill_id,
        action_id: iv.id@,
        cmd: strings_view(iv.cmd@),
        risk: iv.risk,
        needs_sudo: iv.needs_sudo,
        max_auto_risk: sk.safety.max_auto_risk,
        requires_human,
        rollback_id,
        rollback_cmd,
        rollback_is_reboot,
        eval_checks: eval_checks_of(sk),
    }
}

/// The loaded-skill list an unknown-skill error reports: the skill IDs,
/// then `kask` when Kask tools are available.
pub open spec fn loaded_list(skills: Seq<Skill>, has_tools: bool) -> Seq<Seq<char>> {
    if has_tools {
        skill_ids(skills).push("kask"@)
    } else {
        skill_ids(skills)
    }
}

/// `skill_id/action_id` looked up among the skills: the first skill with
/// that ID, then its first probe with that ID, else its first
/// intervention with that ID.
pub open spec fn lookup_spec(skill_id: Seq<char>, action_id: Seq<char>, skills: Seq<Skill>, has_tools: bool) -> Result<ActionView, ActionErrorView> {
    match index_of_first(skill_ids(skills), skill_id) {
        None => Err(ActionErrorView::UnknownSkill { skill_id, loaded: loaded_list(skills, has_tools) }),
        Some(si) => {
            let sk = skills[si];
            match index_of_first(probe_ids(sk.probes@), action_id) {
                Some(pi) => Ok(ActionView::Probe {
                    skill_id,
                    action_id,
                    cmd: strings_view(sk.probes@[pi].cmd@),
                    max_auto_risk: sk.safety.max_auto_risk,
                }),
                None => match index_of_first(intervention_ids(sk.interventions@), action_id) {
                    Some(ii) => Ok(intervention_view(skill_id, sk, sk.interventions@[ii])),
                    None => Err(ActionErrorView::UnknownAction {
                        skill_id,
                        action_id,
                        probes: probe_ids(sk.probes@),
                        interventions: intervention_ids(sk.interventions@),
                    }),
                },
            }
        },
    }
}

/// A Kask tool reference checked against the registry: the first tool
/// of that name, else an unknown-action error listing the tools.
pub open spec fn kask_tool_spec(tool_name: Seq<char>, kask_tools: Seq<KaskToolInfo>) -> Result<ActionView, ActionErrorView> {
    match index_of_first(tool_names(kask_tools), tool_name) {
        Some(i) => Ok(ActionView::KaskTool { tool_name: kask_tools[i].name@, risk_band: kask_tools[i].risk_band }),
        None => Err(ActionErrorView::UnknownAction {
            skill_id: "kask"@,
            action_id: tool_name,
            probes: tool_names(kask_tools),
            interventions: Seq::empty(),
        }),
    }
}

/// An `ACTION:` spec (what follows the prefix, trimmed) resolved: it
/// must hold a `/` with a non-blank skill and action ID on either side;
/// `kask/<tool>` goes to the registry when it holds any tool.
pub open spec fn action_spec_result(spec: Seq<char>, skills: Seq<Skill>, kask_tools: Seq<KaskToolInfo>) -> Result<ActionView, ActionErrorView> {
    match first_index_of(spec, '/') {
        None => Err(ActionErrorView::MissingSeparator { spec }),
        Some(i) => {
            let a = trim(spec.take(i));
            let b = trim(spec.skip(i + 1));
            if a.len() == 0 || b.len() == 0 {
                Err(ActionErrorView::EmptyId { spec })
            } else if a == "kask"@ && kask_tools.len() > 0 {
                kask_tool_spec(b, kask_tools)
            } else {
                lookup_spec(a, b, skills, kask_tools.len() > 0)
            }
        },
    }
}

/// What `resolve_with_kask` answers: `None` when no line starts with
/// `ACTION:`; else the last such line resolved, a prefix with nothing
/// after it being malformed.
pub open spec fn resolve_spec(response: Seq<char>, skills: Seq<Skill>, kask_tools: Seq<KaskToolInfo>) -> Option<Result<ActionView, ActionErrorView>> {
    let ls = lines_spec(response);
    match last_prefixed_line(ls, "ACTION:"@) {
        None => None,
        Some(k) => {
            let raw = trim(ls[k]);
            let rest = trim(raw.skip(7));
            if rest.len() == 0 {
                Some(Err(ActionErrorView::MalformedPrefix { raw }))
            } else {
                Some(action_spec_result(rest, skills, kask_tools))
            }
        },
    }
}

proof fn lemma_last_prefixed_line(lines: Seq<Seq<char>>, prefix: Seq<char>)
    ensures
        match last_prefixed_line(lines, prefix) {
            Some(k) => 0 <= k < lines.len() && starts_with_seq(trim(lines[k]), prefix),
            None => true,
        },
    decreases lines.len(),
{
    if lines.len() > 0 {
        let t = lines.drop_last();
        lemma_last_prefixed_line(t, prefix);
        assert forall|j: int| 0 <= j < t.len() implies t[j] == lines[j] by {}
    }
}

fn last_line_with_prefix(lines: &Vec<Vec<char>>, prefix: &str) -> (r: Option<usize>)
    ensures
        match r {
            Some(k) => last_prefixed_line(Seq::new(lines@.len(), |i: int| lines@[i]@), prefix@) == Some(k as int),
            None => last_prefixed_line(Seq::new(lines@.len(), |i: int| lines@[i]@), prefix@) is None,
        },
{
    let ghost ls = Seq::new(lines@.len(), |i: int| lines@[i]@);
    let pc = chars_of(prefix);
    let mut i: usize = lines.len();
    proof {
        assert(ls.take(i as int) =~= ls);
    }
    while i > 0
        invariant
            i <= lines@.len(),
            ls == Seq::new(lines@.len(), |i: int| lines@[i]@),
            pc@ == prefix@,
            last_prefixed_line(ls, prefix@) == last_prefixed_line(ls.take(i as int), prefix@),
        decreases i,
    {
        let t = trim_chars(&lines[i - 1]);
        proof {
            assert(ls.take(i as int).last() == ls[i - 1]);
        }
        if starts_with_chars(&t, &pc) {
            return Some(i - 1);
        }
        proof {
            assert(ls.take(i as int).drop_last() =~= ls.take(i - 1));
        }
        i = i - 1;
    }
    None
}

fn eval_checks_for(skill: &Skill) -> (r: Vec<EvalCheckInfo>)
    ensures
        Seq::new(r@.len(), |i: int| r@[i]@) == eval_checks_of(*skill),
{
    let mut out: Vec<EvalCheckInfo> = Vec::new();
    match &skill.evaluation {
        None => {
            proof {
                assert(Seq::new(out@.len(), |i: int| out@[i]@) =~= eval_checks_of(*skill));
            }
            out
        },
        Some(ev) => {
            let checks: &Vec<EvalCheck> = &ev.after_intervention;
            let ghost target = eval_checks_of(*skill);
            let mut i: usize = 0;
            while i < checks.len()
                invariant
                    i <= checks@.len(),
                    out@.len() == i,
                    target.len() == checks@.len(),
                    forall|j: int| 0 <= j < i ==> (#[trigger] out@[j])@ == target[j],
                    forall|j: int| 0 <= j < checks@.len() ==> target[j] == (EvalCheckView {
                        id: checks@[j].id@,
                        cmd: strings_view(checks@[j].cmd@),
                        expect_exit: checks@[j].expect_exit,
                        timeout: checks@[j].timeout@,
                    }),
                decreases checks@.len() - i,
            {
                let c = &checks[i];
                let info = EvalCheckInfo {
                    id: c.id.clone(),
                    cmd: copy_strings(&c.cmd),
                    expect_exit: c.expect_exit,
                    timeout: c.timeout.clone(),
                };
                out.push(info);
                i = i + 1;
            }
            proof {
                assert(Seq::new(out@.len(), |i: int| out@[i]@) =~= target);
            }
            out
        },
    }
}

fn loaded_skill_list(skills: &[Skill], has_tools: bool) -> (r: Vec<String>)
    ensures
        strings_view(r@) == loaded_list(skills@, has_tools),
{
    let mut loaded = skill_id_list(skills);
    if has_tools {
        let ghost before = loaded@;
        let k = "kask".to_owned();
        loaded.push(k);
        proof {
            assert(strings_view(loaded@) =~= strings_view(before).push("kask"@));
        }
    }
    loaded
}

fn lookup(skill_id: &str, action_id: &str, skills: &[Skill], has_tools: bool) -> (r: Result<ResolvedAction, ActionError>)
    ensures
        match r {
            Ok(a) => lookup_spec(skill_id@, action_id@, skills@, has_tools) == Ok::<ActionView, ActionErrorView>(a@),
            Err(e) => lookup_spec(skill_id@, action_id@, skills@, has_tools) == Err::<ActionView, ActionErrorView>(e@),
        },
{
    let si = match find_skill(skills, skill_id) {
        Some(si) => si,
        None => {
            return Err(ActionError::UnknownSkill { skill_id: skill_id.to_owned(), loaded: loaded_skill_list(skills, has_tools) });
        },
    };
    proof {
        lemma_index_of_first(skill_ids(skills@), skill_id@);
    }
    let skill = &skills[si];
    match find_probe(&skill.probes, action_id) {
        Some(pi) => {
            proof {
                lemma_index_of_first(probe_ids(skill.probes@), action_id@);
            }
            return Ok(ResolvedAction::Probe {
                skill_id: skill_id.to_owned(),
                action_id: action_id.to_owned(),
                cmd: copy_strings(&skill.probes[pi].cmd),
                max_auto_risk: skill.safety.max_auto_risk,
            });
        },
        None => {},
    }
    match find_intervention(&skill.interventions, action_id) {
        Some(ii) => {
            proof {
                lemma_index_of_first(intervention_ids(skill.interventions@), action_id@);
            }
            let iv = &skill.interventions[ii];
            let requires_human = list_contains(&skill.safety.require_human_for, iv.id.as_str());
            let (rollback_id, rollback_cmd, rollback_is_reboot) = match &iv.rollback {
                Rollback::RollbackId { rollback } => {
                    let rb = match find_intervention(&skill.interventions, rollback.as_str()) {
                        Some(j) => {
                            proof {
                                lemma_index_of_first(intervention_ids(skill.interventions@), rollback@);
                            }
                            Some(copy_strings(&skill.interventions[j].cmd))
                        },
                        None => None,
                    };
                    (Some(rollback.clone()), rb, false)
                },
                Rollback::NoneNeeded => (None, None, false),
                Rollback::Reboot => (None, None, true),
            };
            let eval_checks = eval_checks_for(skill);
            let r = ResolvedAction::Intervention {
                skill_id: skill_id.to_owned(),
                action_id: action_id.to_owned(),
                cmd: copy_strings(&iv.cmd),
                risk: iv.risk,
                needs_sudo: iv.needs_sudo,
                max_auto_risk: skill.safety.max_auto_risk,
                requires_human,
                rollback_id,
                rollback_cmd,
                rollback_is_reboot,
                eval_checks,
            };
            proof {
                assert(r@ == intervention_view(skill_id@, *skill, skill.interventions@[ii as int]));
            }
            Ok(r)
        },
        None => Err(ActionError::UnknownAction {
            skill_id: skill_id.to_owned(),
            action_id: action_id.to_owned(),
            probes: probe_id_list(&skill.probes),
            interventions: intervention_id_list(&skill.interventions),
        }),
    }
}

fn tool_name_list(ts: &[KaskToolInfo]) -> (r: Vec<String>)
    ensures
        strings_view(r@) == tool_names(ts@),
{
    let mut out: Vec<String> = Vec::new();
    let mut i: usize = 0;
    while i < ts.len()
        invariant
            i <= ts@.len(),
            strings_view(out@) == tool_names(ts@).take(i as int),
        decreases ts@.len() - i,
    {
        let ghost before = out@;
        let x = ts[i].name.clone();
        out.push(x);
        proof {
            assert(out@ == before.push(x));
            assert(strings_view(out@) =~= strings_view(before).push(x@));
            assert(tool_names(ts@).take(i as int + 1) =~= tool_names(ts@).take(i as int).push(x@));
        }
        i = i + 1;
    }
    proof {
        assert(tool_names(ts@).take(ts@.len() as int) =~= tool_names(ts@));
    }
    out
}

/// Resolve a Kask tool reference against the cached tool registry.
fn resolve_kask_tool(tool_name: &str, kask_tools: &[KaskToolInfo]) -> (r: Result<ResolvedAction, ActionError>)
    ensures
        match r {
            Ok(a) => kask_tool_spec(tool_name@, kask_tools@) == Ok::<ActionView, ActionErrorView>(a@),
            Err(e) => kask_tool_spec(tool_name@, kask_tools@) == Err::<ActionView, ActionErrorView>(e@),
        },
{
    let mut i: usize = 0;
    while i < kask_tools.len()
        invariant
            i <= kask_tools@.len(),
            forall|j: int| 0 <= j < i ==> tool_names(kask_tools@)[j] != tool_name@,
        decreases kask_tools@.len() - i,
    {
        if str_eq(kask_tools[i].name.as_str(), tool_name) {
            proof {
                lemma_index_of_first_is(tool_names(kask_tools@), tool_name@, i as int);
            }
            return Ok(ResolvedAction::KaskTool { tool_name: kask_tools[i].name.clone(), risk_band: kask_tools[i].risk_band });
        }
        i = i + 1;
    }
    proof {
        lemma_index_of_first_is(tool_names(kask_tools@), tool_name@, kask_tools@.len() as int);
        reveal_strlit("kask");
    }
    let none: Vec<String> = Vec::new();
    proof {
        assert(strings_view(none@) =~= Seq::<Seq<char>>::empty());
    }
    Err(ActionError::UnknownAction {
        skill_id: "kask".to_owned(),
        action_id: tool_name.to_owned(),
        probes: tool_name_list(kask_tools),
        interventions: none,
    })
}

/// Resolve what follows `ACTION:` (trimmed, non-blank).
fn resolve_action_spec(spec: &Vec<char>, skills: &[Skill], kask_tools: &[KaskToolInfo]) -> (r: Result<ResolvedAction, ActionError>)
    ensures
        match r {
            Ok(a) => action_spec_result(spec@, skills@, kask_tools@) == Ok::<ActionView, ActionErrorView>(a@),
            Err(e) => action_spec_result(spec@, skills@, kask_tools@) == Err::<ActionView, ActionErrorView>(e@),
        },
{
    let slash = match find_char_from(spec, '/', 0) {
        Some(i) => i,
        None => {
            proof {
                assert(spec@.skip(0) =~= spec@);
            }
            return Err(ActionError::MissingSeparator { spec: string_from_chars(spec) });
        },
    };
    proof {
        assert(spec@.skip(0) =~= spec@);
    }
    let left = slice_chars(spec, 0, slash);
    let right = slice_chars(spec, slash + 1, spec.len());
    let a = trim_chars(&left);
    let b = trim_chars(&right);
    proof {
        assert(left@ =~= spec@.take(slash as int));
        assert(right@ =~= spec@.skip(slash + 1));
    }
    if a.len() == 0 || b.len() == 0 {
        return Err(ActionError::EmptyId { spec: string_from_chars(spec) });
    }
    let a_s = string_from_chars(&a);
    let b_s = string_from_chars(&b);
    let has_tools = kask_tools.len() > 0;
    if str_eq(a_s.as_str(), "kask") && has_tools {
        return resolve_kask_tool(b_s.as_str(), kask_tools);
    }
    lookup(a_s.as_str(), b_s.as_str(), skills, has_tools)
}

/// Parse the last `ACTION:` line of a reply and resolve it against the
/// loaded skills and the Kask tool registry; `None` when no line starts
/// with `ACTION:`.
pub fn resolve_with_kask(response: &str, skills: &[Skill], kask_tools: &[KaskToolInfo]) -> (r: Option<Result<ResolvedAction, ActionError>>)
    ensures
        opt_result_view(r) == resolve_spec(response@, skills@, kask_tools@),
{
    let cs = chars_of(response);
    let lines = lines_of(&cs);
    let ghost ls = Seq::new(lines@.len(), |i: int| lines@[i]@);
    proof {
        assert(ls =~= lines_spec(response@));
    }
    match last_line_with_prefix(&lines, "ACTION:") {
        None => None,
        Some(k) => {
            proof {
                lemma_last_prefixed_line(ls, "ACTION:"@);
            }
            let raw = trim_chars(&lines[k]);
            proof {
                reveal_strlit("ACTION:");
                assert(ls[k as int] == lines@[k as int]@);
            }
            let after = slice_chars(&raw, 7, raw.len());
            let rest = trim_chars(&after);
            proof {
                assert(after@ =~= raw@.skip(7));
            }
            if rest.len() == 0 {
                return Some(Err(ActionError::MalformedPrefix { raw: string_from_chars(&raw) }));
            }
            Some(resolve_action_spec(&rest, skills, kask_tools))
        },
    }
}

/// Parse the last `ACTION:` line of a reply and resolve it against the
/// loaded skills alone.
pub fn resolve(response: &str, skills: &[Skill]) -> (r: Option<Result<ResolvedAction, ActionError>>)
    ensures
        opt_result_view(r) == resolve_spec(response@, skills@, Seq::empty()),
{
    let none: Vec<KaskToolInfo> = Vec::new();
    proof {
        assert(none@ =~= Seq::<KaskToolInfo>::empty());
    }
    resolve_with_kask(response, skills, none.as_slice())
}

impl ActionError {
    /// The operator-facing description of this error.
    pub fn message(&self) -> (r: String)
        ensures
            r@ == action_error_text(self@),
    {
        match self {
            ActionError::MalformedPrefix { raw } => {
                let mut m = "Jack proposed an action but the parser couldn't strip the ACTION: prefix. Raw line: `".to_owned();
                m.append(raw.as_str());
                m.append("`");
                m
            },
            ActionError::MissingSeparator { spec } => {
                let mut m = "'ACTION: ".to_owned();
                m.append(spec.as_str());
                m.append("' — missing `/` separator between skill and action ID. Use ACTION: <skill>/<action>.");
                m
            },
            ActionError::EmptyId { spec } => {
                let mut m = "'ACTION: ".to_owned();
                m.append(spec.as_str());
                m.append("' — skill ID or action ID is empty.");
                m
            },
            ActionError::UnknownSkill { skill_id, loaded } => {
                let mut m = "'".to_owned();
                m.append(skill_id.as_str());
                m.append("' is not a loaded skill. Loaded skills: ");
                let d = debug_strings(loaded);
                m.append(d.as_str());
                m
            },
            ActionError::UnknownAction { skill_id, action_id, probes, interventions } => {
                let mut m = "'".to_owned();
                m.append(action_id.as_str());
                m.append("' is not a known action in skill '");
                m.append(skill_id.as_str());
                m.append("'. Available probes: ");
                let dp = debug_strings(probes);
                m.append(dp.as_str());
                m.append(", interventions: ");
                let di = debug_strings(interventions);
                m.append(di.as_str());
                m
            },
        }
    }
}

} // verus!
