//! What the action resolver reads of a loaded skill manifest: its id,
//! probes, interventions and safety caps.

use vstd::prelude::*;
use crate::risk::RiskBand;

verus! {

/// A read-only probe of a skill.
#[derive(Debug, Clone)]
pub struct Probe {
    /// Probe ID.
    pub id: String,
    /// Argv to execute.
    pub cmd: Vec<String>,
}

/// How an intervention is undone.
#[derive(Debug, Clone)]
pub enum Rollback {
    /// Undone by another named intervention of the same skill.
    RollbackId {
        /// The rollback intervention's ID.
        rollback: String,
    },
    /// Nothing to undo.
    NoneNeeded,
    /// Undone by a reboot.
    Reboot,
}

/// A mutating intervention of a skill.
#[derive(Debug, Clone)]
pub struct Intervention {
    /// Intervention ID.
    pub id: String,
    /// Argv to execute.
    pub cmd: Vec<String>,
    /// Declared risk band.
    pub risk: RiskBand,
    /// Whether it needs sudo.
    pub needs_sudo: bool,
    /// Rollback strategy.
    pub rollback: Rollback,
}

/// A skill's safety section.
#[derive(Debug, Clone)]
pub struct Safety {
    /// Highest risk band that may run without consent.
    pub max_auto_risk: RiskBand,
    /// Intervention IDs that always need a human.
    pub require_human_for: Vec<String>,
}

/// A check run after an intervention to evaluate its effect.
#[derive(Debug, Clone)]
pub struct EvalCheck {
    /// Unique ID within the evaluation checks.
    pub id: String,
    /// Argv to execute.
    pub cmd: Vec<String>,
    /// Expected exit code.
    pub expect_exit: i32,
    /// Timeout, as written in the manifest (e.g. `30s`).
    pub timeout: String,
}

/// A skill's evaluation section.
#[derive(Debug, Clone)]
pub struct Evaluation {
    /// Checks to run after any intervention.
    pub after_intervention: Vec<EvalCheck>,
}

/// A loaded skill.
#[derive(Debug, Clone)]
pub struct Skill {
    /// Skill ID.
    pub id: String,
    /// Symptoms the skill's knowledge speaks to.
    pub symptoms: Vec<String>,
    /// Read-only probes.
    pub probes: Vec<Probe>,
    /// Mutating interventions.
    pub interventions: Vec<Intervention>,
    /// Safety caps.
    pub safety: Safety,
    /// Post-intervention evaluation, if the manifest has one.
    pub evaluation: Option<Evaluation>,
}

/// The views of a list of strings.
pub open spec fn strings_view(v: Seq<String>) -> Seq<Seq<char>> {
    Seq::new(v.len(), |i: int| v[i]@)
}

/// A copy of a list of strings.
pub fn copy_strings(v: &Vec<String>) -> (r: Vec<String>)
    ensures
        strings_view(r@) == strings_view(v@),
{
    let mut out: Vec<String> = Vec::new();
    let mut i: usize = 0;
    while i < v.len()
        invariant
            i <= v@.len(),
            strings_view(out@) == strings_view(v@).take(i as int),
        decreases v@.len() - i,
    {
        let ghost before = out@;
        let x = v[i].clone();
        out.push(x);
        proof {
            assert(out@ == before.push(x));
            assert(strings_view(out@) =~= strings_view(before).push(x@));
            assert(strings_view(v@).take(i as int + 1) =~= strings_view(v@).take(i as int).push(x@));
        }
        i = i + 1;
    }
    proof {
        assert(strings_view(v@).take(v@.len() as int) =~= strings_view(v@));
    }
    out
}

} // verus!
