//! The Nurse's SOAP prompt: the operator's note (Subjective), the
//! evidence gathered from the journal (Objective), and the slots Jack
//! fills in (Assessment, Plan), rendered as Markdown.
//!
//! The caller reads the journal, the profile and the knowledge files
//! and hands their contents over as plain values; sample statistics
//! arrive already formatted as table cells.

use vstd::prelude::*;
use crate::doctor::client::SoapPrompt;
use crate::event::{scope_name, severity_name};
use crate::journal::{EventRow, SeverityCounts};
use crate::meta::prompt_builders::{gpu_line, gpu_lines};
use crate::profile::{GpuInfo, HostInfo};
use crate::risk::RiskBand;
use crate::skill::{strings_view, Intervention, Probe, Skill};
use crate::text::{dec_int, dec_nat, push_dec_i64, push_dec_u64, push_str, string_from_chars, trim, trim_str};

verus! {

/// What the prompt shows of the machine profile.
#[derive(Debug, Clone)]
pub struct ProfileHead {
    /// Profile ID.
    pub profile_id: String,
    /// When the profile was authored.
    pub authored_at: String,
    /// The host.
    pub host: HostInfo,
    /// The GPUs.
    pub gpus: Vec<GpuInfo>,
}

/// One probe's sample summary over the window, its statistics already
/// formatted as table cells.
#[derive(Debug, Clone)]
pub struct SampleRow {
    /// Probe name.
    pub probe: String,
    /// Number of samples.
    pub count: i64,
    /// Minimum, formatted.
    pub min: String,
    /// Average, formatted.
    pub avg: String,
    /// Maximum, formatted.
    pub max: String,
    /// Most recent value, formatted.
    pub last: String,
    /// 30-day p95 baseline, formatted (`—` when there is none).
    pub p95: String,
    /// Unit, empty when there is none.
    pub unit: String,
}

/// A knowledge file of a skill, as read by the caller.
#[derive(Debug, Clone)]
pub struct KnowledgeFile {
    /// The skill it belongs to.
    pub skill_id: String,
    /// The file's contents.
    pub content: String,
}

// ─── the text ────────────────────────────────────────────────

/// The Subjective: the trimmed note, or `(no operator note)` when
/// there is none or it is blank.
pub open spec fn subjective_text(note: Option<Seq<char>>) -> Seq<char> {
    match note {
        Some(n) => if trim(n).len() > 0 { trim(n) } else { "(no operator note)"@ },
        None => "(no operator note)"@,
    }
}

/// The profile lines: ID and authoring time, the OS when its
/// distribution is known, the CPU when its model is known, the GPUs
/// when there are any; `- (no profile.json)` without a profile.
pub open spec fn profile_text(p: Option<ProfileHead>) -> Seq<char> {
    match p {
        Some(p) => "- profile_id: `"@ + p.profile_id@ + "`\n"@ + "- authored_at: `"@ + p.authored_at@ + "`\n"@ + os_line(p.host)
            + cpu_line(p.host) + gpus_part(p.gpus@),
        None => "- (no profile.json)\n"@,
    }
}

/// `- info: I | warn: W | alert: A | crit: C`.
pub open spec fn counts_text(c: SeverityCounts) -> Seq<char> {
    "- info: "@ + dec_int(c.info as int) + " | warn: "@ + dec_int(c.warn as int) + " | alert: "@ + dec_int(
        c.alert as int,
    ) + " | crit: "@ + dec_int(c.crit as int) + "\n"@
}

/// One sample table row; the p95 column only when baselines exist.
pub open spec fn sample_row_text(r: SampleRow, with_p95: bool) -> Seq<char> {
    "| "@ + r.probe@ + " | "@ + dec_int(r.count as int) + " | "@ + r.min@ + " | "@ + r.avg@ + " | "@ + r.max@ + " | "@
        + r.last@ + " | "@ + (if with_p95 { r.p95@ + " | "@ } else { Seq::empty() }) + r.unit@ + " |\n"@
}

/// The first `n` sample rows.
pub open spec fn sample_rows_text(rows: Seq<SampleRow>, with_p95: bool, n: int) -> Seq<char>
    decreases n,
{
    if n <= 0 { Seq::empty() } else { sample_rows_text(rows, with_p95, n - 1) + sample_row_text(rows[n - 1], with_p95) }
}

/// The sample table, or `- (no samples recorded)`.
pub open spec fn samples_text(rows: Seq<SampleRow>, with_p95: bool) -> Seq<char> {
    if rows.len() == 0 {
        "- (no samples recorded)\n"@
    } else if with_p95 {
        "| probe | count | min | avg | max | last | p95 (30d) | unit |\n|---|---|---|---|---|---|---|---|\n"@
            + sample_rows_text(rows, with_p95, rows.len() as int)
    } else {
        "| probe | count | min | avg | max | last | unit |\n|---|---|---|---|---|---|---|\n"@ + sample_rows_text(
            rows,
            with_p95,
            rows.len() as int,
        )
    }
}

/// How long ago the last sample was taken, when that is known and not
/// negative.
pub open spec fn freshness_line(age: Option<i64>) -> Seq<char> {
    match age {
        Some(a) => if a >= 0 {
            "- Last sample "@ + dec_int(a as int) + " seconds ago.\n"@
        } else {
            "- No samples recorded.\n"@
        },
        None => "- No samples recorded.\n"@,
    }
}

/// How a risk band is spelled in the skills table.
pub open spec fn risk_label(b: RiskBand) -> Seq<char> {
    match b {
        RiskBand::NoRisk => "None"@,
        RiskBand::Low => "Low"@,
        RiskBand::Medium => "Medium"@,
        RiskBand::High => "High"@,
        RiskBand::Critical => "Critical"@,
    }
}

/// A skill with probes or interventions.
pub open spec fn actionable(s: Skill) -> bool {
    s.probes@.len() > 0 || s.interventions@.len() > 0
}

/// The probe rows of a skill.
pub open spec fn probe_rows(sid: Seq<char>, ps: Seq<Probe>, n: int) -> Seq<char>
    decreases n,
{
    if n <= 0 { Seq::empty() } else { probe_rows(sid, ps, n - 1) + "| "@ + sid + " | probe | "@ + ps[n - 1].id@ + " | none |\n"@ }
}

/// The intervention rows of a skill.
pub open spec fn intervention_rows(sid: Seq<char>, ivs: Seq<Intervention>, n: int) -> Seq<char>
    decreases n,
{
    if n <= 0 {
        Seq::empty()
    } else {
        intervention_rows(sid, ivs, n - 1) + "| "@ + sid + " | intervention | "@ + ivs[n - 1].id@ + " | "@ + risk_label(
            ivs[n - 1].risk,
        ) + " |\n"@
    }
}

/// The table rows of the actionable skills among the first `n`.
pub open spec fn skill_rows(skills: Seq<Skill>, n: int) -> Seq<char>
    decreases n,
{
    if n <= 0 {
        Seq::empty()
    } else {
        let s = skills[n - 1];
        skill_rows(skills, n - 1) + if actionable(s) {
            probe_rows(s.id@, s.probes@, s.probes@.len() as int) + intervention_rows(
                s.id@,
                s.interventions@,
                s.interventions@.len() as int,
            )
        } else {
            Seq::empty()
        }
    }
}

/// The items of `ss` joined with `, `, first `n` of them.
pub open spec fn joined(ss: Seq<Seq<char>>, n: int) -> Seq<char>
    decreases n,
{
    if n <= 0 { Seq::empty() } else if n == 1 { ss[0] } else { joined(ss, n - 1) + ", "@ + ss[n - 1] }
}

/// The knowledge-only skills among the first `n`, one line each.
pub open spec fn knowledge_lines(skills: Seq<Skill>, n: int) -> Seq<char>
    decreases n,
{
    if n <= 0 {
        Seq::empty()
    } else {
        let s = skills[n - 1];
        let sy = joined(strings_view(s.symptoms@), s.symptoms@.len() as int);
        knowledge_lines(skills, n - 1) + if actionable(s) {
            Seq::empty()
        } else if sy.len() == 0 {
            "- **"@ + s.id@ + "**\n"@
        } else {
            "- **"@ + s.id@ + "** — symptoms: "@ + sy + "\n"@
        }
    }
}

/// The closing instruction of the skills table.
pub open spec fn action_instruction() -> Seq<char> {
    "\nWhen you identify an intervention and a skill is loaded, propose it on the final line using:\n\nACTION: <skill-id>/<intervention-id>\n\n(e.g. ACTION: okapi-watcher/restart-okapi). Only propose interventions, not probes. The operator must consent before execution.\n"@
}

/// The skills sections: the table of actionable skills with the
/// instruction, then the list of knowledge-only skills, each only when
/// there is such a skill.
pub open spec fn skills_text(skills: Seq<Skill>) -> Seq<char> {
    (if exists|i: int| 0 <= i < skills.len() && actionable(#[trigger] skills[i]) {
        "\n### Available skills\n| skill | type | id | risk |\n|---|---|---|---|\n"@ + skill_rows(skills, skills.len() as int)
            + action_instruction()
    } else {
        Seq::empty()
    }) + (if exists|i: int| 0 <= i < skills.len() && !actionable(#[trigger] skills[i]) {
        "\n### Loaded knowledge\nThe following knowledge skills are active (their expertise is in your system prompt):\n"@
            + knowledge_lines(skills, skills.len() as int)
    } else {
        Seq::empty()
    })
}

/// One recent-event row.
pub open spec fn event_line(r: EventRow) -> Seq<char> {
    "| "@ + r.ts@ + " | "@ + severity_name(r.severity) + " | "@ + scope_name(r.scope) + " | "@ + match r.module {
        Some(m) => m@,
        None => "-"@,
    } + " | "@ + r.action@ + " | "@ + match r.summary {
        Some(s) => s@,
        None => Seq::empty(),
    } + " |\n"@
}

/// The first `n` event rows.
pub open spec fn event_lines(rows: Seq<EventRow>, n: int) -> Seq<char>
    decreases n,
{
    if n <= 0 { Seq::empty() } else { event_lines(rows, n - 1) + event_line(rows[n - 1]) }
}

/// The recent-events table, or `- (no events recorded)`.
pub open spec fn events_text(rows: Seq<EventRow>) -> Seq<char> {
    if rows.len() == 0 {
        "- (no events recorded)\n"@
    } else {
        "| ts | severity | scope | module | action | summary |\n|---|---|---|---|---|---|\n"@ + event_lines(rows, rows.len() as int)
    }
}

/// The Objective section's text.
pub open spec fn objective_text(
    profile: Option<ProfileHead>,
    counts: SeverityCounts,
    samples: Seq<SampleRow>,
    with_p95: bool,
    last_sample_age: Option<i64>,
    skills: Seq<Skill>,
    events: Seq<EventRow>,
) -> Seq<char> {
    "### Profile\n"@ + profile_text(profile) + "\n### Severity counts — last 24h\n"@ + counts_text(counts)
        + "\n### Host probe samples — last 24h\n"@ + samples_text(samples, with_p95) + "\n### Sentinel freshness\n"@
        + freshness_line(last_sample_age) + (if skills.len() > 0 { skills_text(skills) } else { Seq::empty() })
        + "\n### Most-recent events (up to 20)\n"@ + events_text(events)
}

/// The whole rendered SOAP message.
pub open spec fn rendered_text(subjective: Seq<char>, objective: Seq<char>) -> Seq<char> {
    "# SOAP — russell help\n\n"@ + "## Subjective\n\n"@ + subjective + "\n\n"@ + "## Objective\n\n"@ + objective + "\n\n"@
        + "## Assessment\n\n*(your job, Jack — fill this in based on the evidence above.)*\n\n"@
        + "## Plan\n\n*(your job, Jack — one next step.)*\n\n"@
}

/// The knowledge appended to the persona, first `n` files; blank files
/// are skipped.
pub open spec fn knowledge_text(ks: Seq<KnowledgeFile>, n: int) -> Seq<char>
    decreases n,
{
    if n <= 0 {
        Seq::empty()
    } else {
        knowledge_text(ks, n - 1) + if trim(ks[n - 1].content@).len() == 0 {
            Seq::empty()
        } else {
            "\n\n---\n\n# Knowledge: "@ + ks[n - 1].skill_id@ + "\n\n"@ + ks[n - 1].content@
        }
    }
}

// ─── building it ─────────────────────────────────────────────

/// The OS line of a profile, when its distribution is known.
pub open spec fn os_line(h: HostInfo) -> Seq<char> {
    if h.os.distro@.len() > 0 {
        "- host.os: `"@ + h.os.distro@ + "/"@ + h.os.version@ + "` kernel `"@ + h.os.kernel@ + "`\n"@
    } else {
        Seq::empty()
    }
}

/// The CPU line of a profile, when its model is known.
pub open spec fn cpu_line(h: HostInfo) -> Seq<char> {
    if h.cpu.model@.len() > 0 {
        "- host.cpu: `"@ + h.cpu.model@ + "` ("@ + dec_nat(h.cpu.cores as nat) + " cores / "@ + dec_nat(h.cpu.threads as nat)
            + " threads)\n"@
    } else {
        Seq::empty()
    }
}

/// The GPU list of a profile, when there are GPUs.
pub open spec fn gpus_part(gs: Seq<GpuInfo>) -> Seq<char> {
    if gs.len() > 0 {
        "- gpus:\n"@ + gpu_lines(gs, gs.len() as int)
    } else {
        Seq::empty()
    }
}

fn push_os_line(out: &mut Vec<char>, h: &HostInfo)
    ensures
        final(out)@ == old(out)@ + os_line(*h),
{
    if !h.os.distro.as_str().is_empty() {
        let ghost o0 = out@;
        push_str(out, "- host.os: `");
        push_str(out, h.os.distro.as_str());
        push_str(out, "/");
        push_str(out, h.os.version.as_str());
        push_str(out, "` kernel `");
        push_str(out, h.os.kernel.as_str());
        push_str(out, "`\n");
        proof {
            assert(out@ =~= o0 + os_line(*h));
        }
    } else {
        proof {
            assert(out@ =~= old(out)@ + os_line(*h));
        }
    }
}

fn push_cpu_line(out: &mut Vec<char>, h: &HostInfo)
    ensures
        final(out)@ == old(out)@ + cpu_line(*h),
{
    if !h.cpu.model.as_str().is_empty() {
        let ghost o0 = out@;
        push_str(out, "- host.cpu: `");
        push_str(out, h.cpu.model.as_str());
        push_str(out, "` (");
        push_dec_u64(out, h.cpu.cores as u64);
        push_str(out, " cores / ");
        push_dec_u64(out, h.cpu.threads as u64);
        push_str(out, " threads)\n");
        proof {
            assert(out@ =~= o0 + cpu_line(*h));
        }
    } else {
        proof {
            assert(out@ =~= old(out)@ + cpu_line(*h));
        }
    }
}

fn push_gpus(out: &mut Vec<char>, gpus: &Vec<GpuInfo>)
    ensures
        final(out)@ == old(out)@ + gpus_part(gpus@),
{
    if gpus.len() == 0 {
        proof {
            assert(out@ =~= old(out)@ + gpus_part(gpus@));
        }
        return;
    }
    let ghost o0 = out@;
    push_str(out, "- gpus:\n");
    let ghost hd = out@;
    let mut i: usize = 0;
    while i < gpus.len()
        invariant
            i <= gpus@.len(),
            out@ == hd + gpu_lines(gpus@, i as int),
        decreases gpus@.len() - i,
    {
        let g = &gpus[i];
        let ghost g0 = out@;
        push_str(out, "  - `");
        push_str(out, g.name.as_str());
        push_str(out, "` @ `");
        push_str(out, g.pci.as_str());
        push_str(out, "` (role: ");
        push_str(out, g.role.as_str());
        push_str(out, ")\n");
        proof {
            assert(out@ =~= g0 + gpu_line(*g));
        }
        i = i + 1;
    }
    proof {
        assert(out@ =~= o0 + gpus_part(gpus@));
    }
}

fn push_profile(out: &mut Vec<char>, p: Option<&ProfileHead>)
    ensures
        final(out)@ == old(out)@ + profile_text(match p {
            Some(h) => Some(*h),
            None => None,
        }),
{
    match p {
        None => push_str(out, "- (no profile.json)\n"),
        Some(p) => {
            let ghost o0 = out@;
            push_str(out, "- profile_id: `");
            push_str(out, p.profile_id.as_str());
            push_str(out, "`\n");
            push_str(out, "- authored_at: `");
            push_str(out, p.authored_at.as_str());
            push_str(out, "`\n");
            push_os_line(out, &p.host);
            push_cpu_line(out, &p.host);
            push_gpus(out, &p.gpus);
            proof {
                assert(out@ =~= o0 + profile_text(Some(*p)));
            }
        },
    }
}

fn push_sample_row(out: &mut Vec<char>, r: &SampleRow, with_p95: bool)
    ensures
        final(out)@ == old(out)@ + sample_row_text(*r, with_p95),
{
    let ghost r0 = out@;
    push_str(out, "| ");
    push_str(out, r.probe.as_str());
    push_str(out, " | ");
    push_dec_i64(out, r.count);
    push_str(out, " | ");
    push_str(out, r.min.as_str());
    push_str(out, " | ");
    push_str(out, r.avg.as_str());
    push_str(out, " | ");
    push_str(out, r.max.as_str());
    push_str(out, " | ");
    push_str(out, r.last.as_str());
    push_str(out, " | ");
    let ghost r1 = out@;
    proof {
        assert(r1 =~= r0 + "| "@ + r.probe@ + " | "@ + dec_int(r.count as int) + " | "@ + r.min@ + " | "@ + r.avg@ + " | "@
            + r.max@ + " | "@ + r.last@ + " | "@);
    }
    if with_p95 {
        push_str(out, r.p95.as_str());
        push_str(out, " | ");
    }
    push_str(out, r.unit.as_str());
    push_str(out, " |\n");
    proof {
        assert(out@ =~= r0 + sample_row_text(*r, with_p95));
    }
}

fn push_samples(out: &mut Vec<char>, rows: &[SampleRow], with_p95: bool)
    ensures
        final(out)@ == old(out)@ + samples_text(rows@, with_p95),
{
    if rows.len() == 0 {
        push_str(out, "- (no samples recorded)\n");
        return;
    }
    let ghost o0 = out@;
    if with_p95 {
        push_str(out, "| probe | count | min | avg | max | last | p95 (30d) | unit |\n|---|---|---|---|---|---|---|---|\n");
    } else {
        push_str(out, "| probe | count | min | avg | max | last | unit |\n|---|---|---|---|---|---|---|\n");
    }
    let ghost hd = out@;
    let mut i: usize = 0;
    while i < rows.len()
        invariant
            i <= rows@.len(),
            out@ == hd + sample_rows_text(rows@, with_p95, i as int),
        decreases rows@.len() - i,
    {
        push_sample_row(out, &rows[i], with_p95);
        i = i + 1;
    }
    proof {
        assert(out@ =~= o0 + samples_text(rows@, with_p95));
    }
}

fn push_freshness(out: &mut Vec<char>, age: Option<i64>)
    ensures
        final(out)@ == old(out)@ + freshness_line(age),
{
    match age {
        Some(a) => {
            if a >= 0 {
                let ghost o0 = out@;
                push_str(out, "- Last sample ");
                push_dec_i64(out, a);
                push_str(out, " seconds ago.\n");
                proof {
                    assert(out@ =~= o0 + freshness_line(age));
                }
            } else {
                push_str(out, "- No samples recorded.\n");
            }
        },
        None => push_str(out, "- No samples recorded.\n"),
    }
}

fn risk_label_str(b: RiskBand) -> (r: &'static str)
    ensures
        r@ == risk_label(b),
{
    match b {
        RiskBand::NoRisk => "None",
        RiskBand::Low => "Low",
        RiskBand::Medium => "Medium",
        RiskBand::High => "High",
        RiskBand::Critical => "Critical",
    }
}

fn push_skill_rows(out: &mut Vec<char>, s: &Skill)
    ensures
        final(out)@ == old(out)@ + probe_rows(s.id@, s.probes@, s.probes@.len() as int) + intervention_rows(
            s.id@,
            s.interventions@,
            s.interventions@.len() as int,
        ),
{
    let ghost o0 = out@;
    let mut i: usize = 0;
    while i < s.probes.len()
        invariant
            i <= s.probes@.len(),
            out@ == o0 + probe_rows(s.id@, s.probes@, i as int),
        decreases s.probes@.len() - i,
    {
        let ghost p0 = out@;
        push_str(out, "| ");
        push_str(out, s.id.as_str());
        push_str(out, " | probe | ");
        push_str(out, s.probes[i].id.as_str());
        push_str(out, " | none |\n");
        proof {
            assert(out@ =~= o0 + probe_rows(s.id@, s.probes@, i + 1));
        }
        i = i + 1;
    }
    let ghost o1 = out@;
    let mut j: usize = 0;
    while j < s.interventions.len()
        invariant
            j <= s.interventions@.len(),
            out@ == o1 + intervention_rows(s.id@, s.interventions@, j as int),
        decreases s.interventions@.len() - j,
    {
        push_str(out, "| ");
        push_str(out, s.id.as_str());
        push_str(out, " | intervention | ");
        push_str(out, s.interventions[j].id.as_str());
        push_str(out, " | ");
        push_str(out, risk_label_str(s.interventions[j].risk));
        push_str(out, " |\n");
        proof {
            assert(out@ =~= o1 + intervention_rows(s.id@, s.interventions@, j + 1));
        }
        j = j + 1;
    }
    proof {
        assert(out@ =~= o0 + probe_rows(s.id@, s.probes@, s.probes@.len() as int) + intervention_rows(
            s.id@,
            s.interventions@,
            s.interventions@.len() as int,
        ));
    }
}

fn push_joined(out: &mut Vec<char>, ss: &Vec<String>)
    ensures
        final(out)@ == old(out)@ + joined(strings_view(ss@), ss@.len() as int),
{
    let ghost o0 = out@;
    let mut i: usize = 0;
    while i < ss.len()
        invariant
            i <= ss@.len(),
            out@ == o0 + joined(strings_view(ss@), i as int),
        decreases ss@.len() - i,
    {
        if i > 0 {
            push_str(out, ", ");
        }
        push_str(out, ss[i].as_str());
        proof {
            assert(strings_view(ss@)[i as int] == ss@[i as int]@);
            assert(out@ =~= o0 + joined(strings_view(ss@), i + 1));
        }
        i = i + 1;
    }
}

fn push_skills(out: &mut Vec<char>, skills: &[Skill])
    ensures
        final(out)@ == old(out)@ + skills_text(skills@),
{
    let ghost o0 = out@;
    let mut any_actionable = false;
    let mut any_knowledge = false;
    let mut k: usize = 0;
    while k < skills.len()
        invariant
            k <= skills@.len(),
            any_actionable == (exists|i: int| 0 <= i < k && actionable(#[trigger] skills@[i])),
            any_knowledge == (exists|i: int| 0 <= i < k && !actionable(#[trigger] skills@[i])),
        decreases skills@.len() - k,
    {
        let is_act = skills[k].probes.len() > 0 || skills[k].interventions.len() > 0;
        if is_act {
            any_actionable = true;
        } else {
            any_knowledge = true;
        }
        proof {
            assert(actionable(skills@[k as int]) == is_act);
        }
        k = k + 1;
    }
    if any_actionable {
        push_str(out, "\n### Available skills\n| skill | type | id | risk |\n|---|---|---|---|\n");
        let ghost hd = out@;
        let mut i: usize = 0;
        while i < skills.len()
            invariant
                i <= skills@.len(),
                out@ == hd + skill_rows(skills@, i as int),
            decreases skills@.len() - i,
        {
            let s = &skills[i];
            if s.probes.len() > 0 || s.interventions.len() > 0 {
                push_skill_rows(out, s);
            }
            proof {
                assert(out@ =~= hd + skill_rows(skills@, i + 1));
            }
            i = i + 1;
        }
        push_str(out, "\nWhen you identify an intervention and a skill is loaded, propose it on the final line using:\n\nACTION: <skill-id>/<intervention-id>\n\n(e.g. ACTION: okapi-watcher/restart-okapi). Only propose interventions, not probes. The operator must consent before execution.\n");
    }
    let ghost o1 = out@;
    if any_knowledge {
        push_str(out, "\n### Loaded knowledge\nThe following knowledge skills are active (their expertise is in your system prompt):\n");
        let ghost hd = out@;
        let mut i: usize = 0;
        while i < skills.len()
            invariant
                i <= skills@.len(),
                out@ == hd + knowledge_lines(skills@, i as int),
            decreases skills@.len() - i,
        {
            let s = &skills[i];
            if !(s.probes.len() > 0 || s.interventions.len() > 0) {
                let mut sy: Vec<char> = Vec::new();
                push_joined(&mut sy, &s.symptoms);
                if sy.len() == 0 {
                    push_str(out, "- **");
                    push_str(out, s.id.as_str());
                    push_str(out, "**\n");
                } else {
                    push_str(out, "- **");
                    push_str(out, s.id.as_str());
                    push_str(out, "** — symptoms: ");
                    let t = string_from_chars(&sy);
                    push_str(out, t.as_str());
                    push_str(out, "\n");
                }
            }
            proof {
                assert(out@ =~= hd + knowledge_lines(skills@, i + 1));
            }
            i = i + 1;
        }
    }
    proof {
        assert(out@ =~= o0 + skills_text(skills@));
    }
}

fn push_event_line(out: &mut Vec<char>, r: &EventRow)
    ensures
        final(out)@ == old(out)@ + event_line(*r),
{
    let ghost r0 = out@;
    push_str(out, "| ");
    push_str(out, r.ts.as_str());
    push_str(out, " | ");
    push_str(out, r.severity.as_str());
    push_str(out, " | ");
    push_str(out, r.scope.as_str());
    push_str(out, " | ");
    let ghost r1 = out@;
    match &r.module {
        Some(m) => push_str(out, m.as_str()),
        None => push_str(out, "-"),
    }
    push_str(out, " | ");
    push_str(out, r.action.as_str());
    push_str(out, " | ");
    let ghost r2 = out@;
    match &r.summary {
        Some(s) => push_str(out, s.as_str()),
        None => {},
    }
    push_str(out, " |\n");
    proof {
        assert(r1 =~= r0 + "| "@ + r.ts@ + " | "@ + severity_name(r.severity) + " | "@ + scope_name(r.scope) + " | "@);
        assert(out@ =~= r0 + event_line(*r));
    }
}

fn push_events(out: &mut Vec<char>, rows: &[EventRow])
    ensures
        final(out)@ == old(out)@ + events_text(rows@),
{
    if rows.len() == 0 {
        push_str(out, "- (no events recorded)\n");
        return;
    }
    let ghost o0 = out@;
    push_str(out, "| ts | severity | scope | module | action | summary |\n|---|---|---|---|---|---|\n");
    let ghost hd = out@;
    let mut i: usize = 0;
    while i < rows.len()
        invariant
            i <= rows@.len(),
            out@ == hd + event_lines(rows@, i as int),
        decreases rows@.len() - i,
    {
        push_event_line(out, &rows[i]);
        i = i + 1;
    }
    proof {
        assert(out@ =~= o0 + events_text(rows@));
    }
}

/// Jack's persona, the base of every Nurse system prompt: compiled in,
/// so that Jack never runs without his voice. Operator identity files
/// are appended by the caller.
pub const JACK_PERSONA: &'static str = "You are Jack, the Nurse of this machine: a calm, plain-spoken triage nurse who reads what Russell has journaled and says what it means.\n\nYou are given a SOAP bundle. The Subjective section is the operator's note; the Objective section is the evidence: the machine profile, the severity counts of the last 24 hours, the host probe samples, how fresh the sentinel is, the loaded skills and the most recent events. Fill in the Assessment from that evidence alone and give one next step as the Plan. Say plainly when the evidence is thin or stale; never invent readings.\n\nYou never emit shell for the operator to paste. When a registered skill step would help, propose exactly one, on a line of its own:\n\nACTION: <skill-id>/<probe-or-intervention-id>\n\nProbes are read-only and may run at once; interventions wait for the operator's consent. Keep it short.";

/// The persona with the knowledge files appended, blank ones skipped.
pub fn system_prompt(persona: &str, knowledge: &[KnowledgeFile]) -> (r: String)
    ensures
        r@ == persona@ + knowledge_text(knowledge@, knowledge@.len() as int),
{
    let mut out: Vec<char> = Vec::new();
    push_str(&mut out, persona);
    let ghost hd = out@;
    let mut i: usize = 0;
    while i < knowledge.len()
        invariant
            i <= knowledge@.len(),
            out@ == hd + knowledge_text(knowledge@, i as int),
        decreases knowledge@.len() - i,
    {
        let k = &knowledge[i];
        let t = trim_str(k.content.as_str());
        if !t.as_str().is_empty() {
            push_str(&mut out, "\n\n---\n\n# Knowledge: ");
            push_str(&mut out, k.skill_id.as_str());
            push_str(&mut out, "\n\n");
            push_str(&mut out, k.content.as_str());
        }
        proof {
            assert(out@ =~= hd + knowledge_text(knowledge@, i + 1));
        }
        i = i + 1;
    }
    string_from_chars(&out)
}

/// Compose the SOAP prompt from what was gathered: the operator's note,
/// the profile, the day's severity counts and sample summaries (with a
/// p95 column when baselines exist), the age of the last sample, the
/// loaded skills, the most recent events, and Jack's persona
/// ([`JACK_PERSONA`]) with the applicable knowledge files.
pub fn compose_soap(
    note: Option<&str>,
    profile: Option<&ProfileHead>,
    counts: &SeverityCounts,
    samples: &[SampleRow],
    with_p95: bool,
    last_sample_age: Option<i64>,
    skills: &[Skill],
    events: &[EventRow],
    knowledge: &[KnowledgeFile],
) -> (r: SoapPrompt)
    ensures
        r.subjective@ == subjective_text(match note {
            Some(n) => Some(n@),
            None => None,
        }),
        r.objective@ == objective_text(
            match profile {
                Some(p) => Some(*p),
                None => None,
            },
            *counts,
            samples@,
            with_p95,
            last_sample_age,
            skills@,
            events@,
        ),
        r.rendered@ == rendered_text(r.subjective@, r.objective@),
        r.system@ == JACK_PERSONA@ + knowledge_text(knowledge@, knowledge@.len() as int),
{
    let subjective = match note {
        Some(n) => {
            let t = trim_str(n);
            if t.as_str().is_empty() {
                "(no operator note)".to_owned()
            } else {
                t
            }
        },
        None => "(no operator note)".to_owned(),
    };

    let mut obj: Vec<char> = Vec::new();
    push_str(&mut obj, "### Profile\n");
    push_profile(&mut obj, profile);
    push_str(&mut obj, "\n### Severity counts — last 24h\n");
    let ghost c0 = obj@;
    push_str(&mut obj, "- info: ");
    push_dec_i64(&mut obj, counts.info);
    push_str(&mut obj, " | warn: ");
    push_dec_i64(&mut obj, counts.warn);
    push_str(&mut obj, " | alert: ");
    push_dec_i64(&mut obj, counts.alert);
    push_str(&mut obj, " | crit: ");
    push_dec_i64(&mut obj, counts.crit);
    push_str(&mut obj, "\n");
    proof {
        assert(obj@ =~= c0 + counts_text(*counts));
    }
    push_str(&mut obj, "\n### Host probe samples — last 24h\n");
    push_samples(&mut obj, samples, with_p95);
    push_str(&mut obj, "\n### Sentinel freshness\n");
    push_freshness(&mut obj, last_sample_age);
    if skills.len() > 0 {
        push_skills(&mut obj, skills);
    }
    push_str(&mut obj, "\n### Most-recent events (up to 20)\n");
    push_events(&mut obj, events);
    let objective = string_from_chars(&obj);
    proof {
        assert(objective@ =~= objective_text(
            match profile {
                Some(p) => Some(*p),
                None => None,
            },
            *counts,
            samples@,
            with_p95,
            last_sample_age,
            skills@,
            events@,
        ));
    }

    let mut out: Vec<char> = Vec::new();
    push_str(&mut out, "# SOAP — russell help\n\n");
    push_str(&mut out, "## Subjective\n\n");
    push_str(&mut out, subjective.as_str());
    push_str(&mut out, "\n\n");
    push_str(&mut out, "## Objective\n\n");
    push_str(&mut out, objective.as_str());
    push_str(&mut out, "\n\n");
    push_str(&mut out, "## Assessment\n\n*(your job, Jack — fill this in based on the evidence above.)*\n\n");
    push_str(&mut out, "## Plan\n\n*(your job, Jack — one next step.)*\n\n");
    let rendered = string_from_chars(&out);
    proof {
        assert(rendered@ =~= rendered_text(subjective@, objective@));
    }
    let system = system_prompt(JACK_PERSONA, knowledge);
    SoapPrompt { system, subjective, objective, rendered }
}

} // verus!
