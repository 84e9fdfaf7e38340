//! The `ACTION:` / `SHELL:` protocol: parse the line an LLM response
//! proposes and resolve it against the loaded skills, or classify a
//! proposed shell command by risk.
//!
//! ```text
//! ACTION: <skill-id>/<probe-or-intervention-id>
//! SHELL: <command>
//! ```
//!
//! Probes are read-only and may auto-execute; interventions require
//! operator consent; shell commands are classified and always need
//! consent; destructive commands are refused outright.

use vstd::prelude::*;
use crate::risk::RiskBand;
use crate::skill::{copy_strings, strings_view, Intervention, Probe, Rollback, Skill};
use crate::text::{
    any_contained, any_prefix, chars_of, contains_any, contains_chars, contains_seq, find_char_from, matches_at, occurs_at,
    first_index_of, index_of_first, lemma_index_of_first,
    lemma_index_of_first_is, lines_of, lines_spec, slice_chars, starts_with_any, starts_with_chars,
    starts_with_seq, str_eq, string_from_chars, strs_view, to_lowercase, trim, trim_chars,
    unicode_lowercase,
};

verus! {

/// A resolved action: a probe, an intervention, a shell command or a
/// remote tool call.
#[derive(Debug, Clone)]
pub enum ResolvedAction {
    /// Read-only probe; auto-executable.
    Probe {
        /// Skill that owns the probe.
        skill_id: String,
        /// Probe ID.
        action_id: String,
        /// Argv to execute.
        cmd: Vec<String>,
        /// Skill's max-auto-risk cap.
        max_auto_risk: RiskBand,
    },
    /// Mutating intervention; requires operator consent above the cap.
    Intervention {
        /// Skill that owns the intervention.
        skill_id: String,
        /// Intervention ID.
        action_id: String,
        /// Argv to execute.
        cmd: Vec<String>,
        /// Risk band declared in the manifest.
        risk: RiskBand,
        /// Whether this requires sudo.
        needs_sudo: bool,
        /// Skill's max-auto-risk cap.
        max_auto_risk: RiskBand,
        /// Whether the manifest lists this ID as needing a human.
        requires_human: bool,
        /// Rollback intervention, if rollback is by a named intervention.
        rollback_id: Option<String>,
        /// Rollback command argv, if that intervention exists.
        rollback_cmd: Option<Vec<String>>,
        /// Whether rollback requires a reboot.
        rollback_is_reboot: bool,
    },
    /// Shell command proposed directly, executed via `bash -c` after
    /// classification and consent.
    ShellCommand {
        /// The raw command string.
        command: String,
        /// Risk band from the shell classifier.
        risk: RiskBand,
        /// Whether the command likely requires sudo.
        needs_sudo: bool,
    },
    /// Remote MCP tool call (`ACTION: remote/<tool>`).
    RemoteTool {
        /// The remote tool name.
        tool_name: String,
    },
}

/// Error returned when an `ACTION:` / `SHELL:` line cannot be resolved.
#[derive(Debug, Clone)]
pub enum ActionError {
    /// The prefix could not be stripped (nothing after it).
    MalformedPrefix {
        /// The raw line.
        raw: String,
    },
    /// Missing `/` between skill and action ID.
    MissingSeparator {
        /// The spec string without the separator.
        spec: String,
    },
    /// Skill or action ID was empty.
    EmptyId {
        /// The spec string with an empty component.
        spec: String,
    },
    /// Referenced skill is not loaded.
    UnknownSkill {
        /// The skill ID that was not found.
        skill_id: String,
        /// All loaded skill IDs.
        loaded: Vec<String>,
    },
    /// Referenced action is not a probe or intervention of the skill.
    UnknownAction {
        /// The skill that was found.
        skill_id: String,
        /// The action ID that was not found.
        action_id: String,
        /// The skill's probe IDs.
        probes: Vec<String>,
        /// The skill's intervention IDs.
        interventions: Vec<String>,
    },
    /// Several `ACTION:` lines in one response.
    NestedActionDetected {
        /// How many were found.
        count: usize,
        /// The first one.
        first_action: String,
    },
    /// A shell command was refused by the safety classifier.
    ShellBlocked {
        /// The refused command.
        command: String,
        /// Why it was refused.
        reason: String,
    },
}

// ─── views ───────────────────────────────────────────────────

/// A resolved action as plain values.
pub enum ActionView {
    Probe { skill_id: Seq<char>, action_id: Seq<char>, cmd: Seq<Seq<char>>, max_auto_risk: RiskBand },
    Intervention {
        skill_id: Seq<char>,
        action_id: Seq<char>,
        cmd: Seq<Seq<char>>,
        risk: RiskBand,
        needs_sudo: bool,
        max_auto_risk: RiskBand,
        requires_human: bool,
        rollback_id: Option<Seq<char>>,
        rollback_cmd: Option<Seq<Seq<char>>>,
        rollback_is_reboot: bool,
    },
    ShellCommand { command: Seq<char>, risk: RiskBand, needs_sudo: bool },
    RemoteTool { tool_name: Seq<char> },
}

/// An action error as plain values.
pub enum ActionErrorView {
    MalformedPrefix { raw: Seq<char> },
    MissingSeparator { spec: Seq<char> },
    EmptyId { spec: Seq<char> },
    UnknownSkill { skill_id: Seq<char>, loaded: Seq<Seq<char>> },
    UnknownAction { skill_id: Seq<char>, action_id: Seq<char>, probes: Seq<Seq<char>>, interventions: Seq<Seq<char>> },
    NestedActionDetected { count: usize, first_action: Seq<char> },
    ShellBlocked { command: Seq<char>, reason: Seq<char> },
}

impl View for ResolvedAction {
    type V = ActionView;

    open spec fn view(&self) -> ActionView {
        match self {
            ResolvedAction::Probe { skill_id, action_id, cmd, max_auto_risk } => ActionView::Probe {
                skill_id: skill_id@,
                action_id: action_id@,
                cmd: strings_view(cmd@),
                max_auto_risk: *max_auto_risk,
            },
            ResolvedAction::Intervention {
                skill_id,
                action_id,
                cmd,
                risk,
                needs_sudo,
                max_auto_risk,
                requires_human,
                rollback_id,
                rollback_cmd,
                rollback_is_reboot,
            } => ActionView::Intervention {
                skill_id: skill_id@,
                action_id: action_id@,
                cmd: strings_view(cmd@),
                risk: *risk,
                needs_sudo: *needs_sudo,
                max_auto_risk: *max_auto_risk,
                requires_human: *requires_human,
                rollback_id: match rollback_id {
                    Some(r) => Some(r@),
                    None => None,
                },
                rollback_cmd: match rollback_cmd {
                    Some(c) => Some(strings_view(c@)),
                    None => None,
                },
                rollback_is_reboot: *rollback_is_reboot,
            },
            ResolvedAction::ShellCommand { command, risk, needs_sudo } => ActionView::ShellCommand {
                command: command@,
                risk: *risk,
                needs_sudo: *needs_sudo,
            },
            ResolvedAction::RemoteTool { tool_name } => ActionView::RemoteTool { tool_name: tool_name@ },
        }
    }
}

impl View for ActionError {
    type V = ActionErrorView;

    open spec fn view(&self) -> ActionErrorView {
        match self {
            ActionError::MalformedPrefix { raw } => ActionErrorView::MalformedPrefix { raw: raw@ },
            ActionError::MissingSeparator { spec } => ActionErrorView::MissingSeparator { spec: spec@ },
            ActionError::EmptyId { spec } => ActionErrorView::EmptyId { spec: spec@ },
            ActionError::UnknownSkill { skill_id, loaded } => ActionErrorView::UnknownSkill {
                skill_id: skill_id@,
                loaded: strings_view(loaded@),
            },
            ActionError::UnknownAction { skill_id, action_id, probes, interventions } => ActionErrorView::UnknownAction {
                skill_id: skill_id@,
                action_id: action_id@,
                probes: strings_view(probes@),
                interventions: strings_view(interventions@),
            },
            ActionError::NestedActionDetected { count, first_action } => ActionErrorView::NestedActionDetected {
                count: *count,
                first_action: first_action@,
            },
            ActionError::ShellBlocked { command, reason } => ActionErrorView::ShellBlocked {
                command: command@,
                reason: reason@,
            },
        }
    }
}

/// The view of a resolution result.
pub open spec fn result_view(r: Result<ResolvedAction, ActionError>) -> Result<ActionView, ActionErrorView> {
    match r {
        Ok(a) => Ok(a@),
        Err(e) => Err(e@),
    }
}

/// Append copies of `args` to `cmd`.
fn push_strings(cmd: &mut Vec<String>, args: &[String])
    ensures
        strings_view(final(cmd)@) == strings_view(old(cmd)@) + strings_view(args@),
{
    let ghost c0 = cmd@;
    let mut i: usize = 0;
    while i < args.len()
        invariant
            i <= args@.len(),
            strings_view(cmd@) == strings_view(c0) + strings_view(args@).take(i as int),
        decreases args@.len() - i,
    {
        let ghost before = cmd@;
        let x = args[i].clone();
        cmd.push(x);
        proof {
            assert(cmd@ == before.push(x));
            assert(x@ == args@[i as int]@);
            assert(strings_view(cmd@) =~= strings_view(before).push(x@));
            assert(strings_view(args@).take(i as int + 1) =~= strings_view(args@).take(i as int).push(x@));
            assert(strings_view(cmd@) =~= strings_view(c0) + strings_view(args@).take(i as int + 1));
        }
        i = i + 1;
    }
    proof {
        assert(strings_view(args@).take(args@.len() as int) =~= strings_view(args@));
    }
}

// ─── accessors ───────────────────────────────────────────────

impl ResolvedAction {
    /// Whether this is a remote MCP tool call.
    pub fn is_remote_tool(&self) -> (r: bool)
        ensures
            r == (self is RemoteTool),
    {
        match self {
            ResolvedAction::RemoteTool { .. } => true,
            _ => false,
        }
    }

    /// Whether this is a probe.
    pub fn is_probe(&self) -> (r: bool)
        ensures
            r == (self is Probe),
    {
        match self {
            ResolvedAction::Probe { .. } => true,
            _ => false,
        }
    }

    /// Whether this is a raw shell command.
    pub fn is_shell_command(&self) -> (r: bool)
        ensures
            r == (self is ShellCommand),
    {
        match self {
            ResolvedAction::ShellCommand { .. } => true,
            _ => false,
        }
    }

    /// Whether running the action needs sudo: as declared for
    /// interventions, as classified for shell commands.
    pub fn needs_sudo(&self) -> (r: bool)
        ensures
            r == match self {
                ResolvedAction::Intervention { needs_sudo, .. } => *needs_sudo,
                ResolvedAction::ShellCommand { needs_sudo, .. } => *needs_sudo,
                _ => false,
            },
    {
        match self {
            ResolvedAction::Intervention { needs_sudo, .. } => *needs_sudo,
            ResolvedAction::ShellCommand { needs_sudo, .. } => *needs_sudo,
            _ => false,
        }
    }

    /// The risk band: none for probes and remote tools, else the
    /// declared or classified band.
    pub fn risk_band(&self) -> (r: RiskBand)
        ensures
            r == match self {
                ResolvedAction::Probe { .. } | ResolvedAction::RemoteTool { .. } => RiskBand::NoRisk,
                ResolvedAction::Intervention { risk, .. } => *risk,
                ResolvedAction::ShellCommand { risk, .. } => *risk,
            },
    {
        match self {
            ResolvedAction::Probe { .. } | ResolvedAction::RemoteTool { .. } => RiskBand::NoRisk,
            ResolvedAction::Intervention { risk, .. } => *risk,
            ResolvedAction::ShellCommand { risk, .. } => *risk,
        }
    }

    /// The skill ID: `shell` for shell commands, `remote` for remote
    /// tools.
    pub fn skill_id(&self) -> (r: &str)
        ensures
            r@ == match self {
                ResolvedAction::Probe { skill_id, .. } => skill_id@,
                ResolvedAction::Intervention { skill_id, .. } => skill_id@,
                ResolvedAction::ShellCommand { .. } => seq!['s', 'h', 'e', 'l', 'l'],
                ResolvedAction::RemoteTool { .. } => seq!['r', 'e', 'm', 'o', 't', 'e'],
            },
    {
        proof {
            reveal_strlit("shell");
            reveal_strlit("remote");
            assert("shell"@ =~= seq!['s', 'h', 'e', 'l', 'l']);
            assert("remote"@ =~= seq!['r', 'e', 'm', 'o', 't', 'e']);
        }
        match self {
            ResolvedAction::Probe { skill_id, .. } => skill_id.as_str(),
            ResolvedAction::Intervention { skill_id, .. } => skill_id.as_str(),
            ResolvedAction::ShellCommand { .. } => "shell",
            ResolvedAction::RemoteTool { .. } => "remote",
        }
    }

    /// The action ID: the command for shell commands, the tool name for
    /// remote tools.
    pub fn action_id(&self) -> (r: &str)
        ensures
            r@ == match self {
                ResolvedAction::Probe { action_id, .. } => action_id@,
                ResolvedAction::Intervention { action_id, .. } => action_id@,
                ResolvedAction::ShellCommand { command, .. } => command@,
                ResolvedAction::RemoteTool { tool_name } => tool_name@,
            },
    {
        match self {
            ResolvedAction::Probe { action_id, .. } => action_id.as_str(),
            ResolvedAction::Intervention { action_id, .. } => action_id.as_str(),
            ResolvedAction::ShellCommand { command, .. } => command.as_str(),
            ResolvedAction::RemoteTool { tool_name } => tool_name.as_str(),
        }
    }

    /// The command argv: `bash -c <command>` for shell commands, empty
    /// for remote tools.
    pub fn cmd(&self) -> (r: Vec<String>)
        ensures
            strings_view(r@) == match self {
                ResolvedAction::Probe { cmd, .. } => strings_view(cmd@),
                ResolvedAction::Intervention { cmd, .. } => strings_view(cmd@),
                ResolvedAction::ShellCommand { command, .. } => seq![seq!['b', 'a', 's', 'h'], seq!['-', 'c'], command@],
                ResolvedAction::RemoteTool { .. } => Seq::<Seq<char>>::empty(),
            },
    {
        match self {
            ResolvedAction::Probe { cmd, .. } => copy_strings(cmd),
            ResolvedAction::Intervention { cmd, .. } => copy_strings(cmd),
            ResolvedAction::ShellCommand { command, .. } => {
                proof {
                    reveal_strlit("bash");
                    reveal_strlit("-c");
                    assert("bash"@ =~= seq!['b', 'a', 's', 'h']);
                    assert("-c"@ =~= seq!['-', 'c']);
                }
                let v = vec!["bash".to_owned(), "-c".to_owned(), command.clone()];
                proof {
                    assert(strings_view(v@) =~= seq![seq!['b', 'a', 's', 'h'], seq!['-', 'c'], command@]);
                }
                v
            },
            ResolvedAction::RemoteTool { .. } => {
                let v: Vec<String> = Vec::new();
                proof {
                    assert(strings_view(v@) =~= Seq::<Seq<char>>::empty());
                }
                v
            },
        }
    }

    /// Whether operator consent is needed: never for probes and remote
    /// tools, always for shell commands, and for interventions whose
    /// risk exceeds the skill's cap.
    pub fn consent_required(&self) -> (r: bool)
        ensures
            r == match self {
                ResolvedAction::Probe { .. } | ResolvedAction::RemoteTool { .. } => false,
                ResolvedAction::Intervention { risk, max_auto_risk, .. } => crate::risk::band_rank(*risk)
                    > crate::risk::band_rank(*max_auto_risk),
                ResolvedAction::ShellCommand { .. } => true,
            },
    {
        match self {
            ResolvedAction::Probe { .. } | ResolvedAction::RemoteTool { .. } => false,
            ResolvedAction::Intervention { risk, max_auto_risk, .. } => risk.rank() > max_auto_risk.rank(),
            ResolvedAction::ShellCommand { .. } => true,
        }
    }

    /// Append extra CLI arguments to a probe's or intervention's argv;
    /// nothing else changes.
    pub fn append_cmd_args(&mut self, args: &[String])
        ensures
            match (*old(self), *final(self)) {
                (ResolvedAction::Probe { skill_id: s0, action_id: a0, cmd: c0, max_auto_risk: m0 },
                 ResolvedAction::Probe { skill_id: s1, action_id: a1, cmd: c1, max_auto_risk: m1 }) =>
                    s1 == s0 && a1 == a0 && m1 == m0 && strings_view(c1@) == strings_view(c0@) + strings_view(args@),
                (ResolvedAction::Intervention { cmd: c0, .. }, ResolvedAction::Intervention { cmd: c1, .. }) =>
                    strings_view(c1@) == strings_view(c0@) + strings_view(args@),
                (ResolvedAction::ShellCommand { .. }, _) => *final(self) == *old(self),
                (ResolvedAction::RemoteTool { .. }, _) => *final(self) == *old(self),
                _ => false,
            },
            match (*old(self), *final(self)) {
                (ResolvedAction::Intervention { skill_id: s0, action_id: a0, risk: r0, needs_sudo: n0, max_auto_risk: m0,
                    requires_human: h0, rollback_id: b0, rollback_cmd: d0, rollback_is_reboot: e0, .. },
                 ResolvedAction::Intervention { skill_id: s1, action_id: a1, risk: r1, needs_sudo: n1, max_auto_risk: m1,
                    requires_human: h1, rollback_id: b1, rollback_cmd: d1, rollback_is_reboot: e1, .. }) =>
                    s1 == s0 && a1 == a0 && r1 == r0 && n1 == n0 && m1 == m0 && h1 == h0 && b1 == b0 && d1 == d0 && e1 == e0,
                _ => true,
            },
    {
        match self {
            ResolvedAction::Probe { cmd, .. } => push_strings(cmd, args),
            ResolvedAction::Intervention { cmd, .. } => push_strings(cmd, args),
            ResolvedAction::ShellCommand { .. } | ResolvedAction::RemoteTool { .. } => {},
        }
    }
}

// ─── shell command classification ────────────────────────────

/// Destructive patterns that are always refused, in lowercase (the
/// command is lowercased before matching).
pub open spec fn blocked_patterns() -> Seq<Seq<char>> {
    seq![
        "rm -rf /"@, "rm -rf /*"@, "mkfs"@, "dd if="@, ":(){ :|:& };:"@, "chmod -r 777 /"@, "chown -r"@,
        "> /dev/sd"@, "shutdown"@, "reboot"@, "init 0"@, "init 6"@, "systemctl poweroff"@,
        "systemctl reboot"@, "halt"@, "poweroff"@,
    ]
}

fn blocked_list() -> (r: Vec<&'static str>)
    ensures
        strs_view(r@) == blocked_patterns(),
{
    let v = vec![
        "rm -rf /", "rm -rf /*", "mkfs", "dd if=", ":(){ :|:& };:", "chmod -r 777 /", "chown -r",
        "> /dev/sd", "shutdown", "reboot", "init 0", "init 6", "systemctl poweroff",
        "systemctl reboot", "halt", "poweroff",
    ];
    proof {
        assert(strs_view(v@) =~= blocked_patterns());
    }
    v
}

/// Whether `c` can continue a path name.
pub open spec fn path_char(c: char) -> bool {
    ('a' <= c && c <= 'z') || ('A' <= c && c <= 'Z') || ('0' <= c && c <= '9') || c == '.' || c == '_'
        || c == '-' || c == '~'
}

/// The one pattern that targets the root itself, `rm -rf /`: removing
/// a path under it (`rm -rf /tmp/cleanup`) is high risk, not blocked.
pub open spec fn root_only(p: Seq<char>) -> bool {
    p == "rm -rf /"@
}

/// Destructive pattern `p` occurs in `low` at `i`. `rm -rf /` counts
/// only where its `/` is not followed by a path-name character; every
/// other pattern counts wherever it occurs.
pub open spec fn blocked_at(low: Seq<char>, p: Seq<char>, i: int) -> bool {
    &&& occurs_at(low, p, i)
    &&& root_only(p) ==> (i + p.len() == low.len() || !path_char(low[i + p.len()]))
}

/// Whether destructive pattern `p` occurs in `low`.
pub open spec fn blocks(low: Seq<char>, p: Seq<char>) -> bool {
    exists|i: int| blocked_at(low, p, i)
}

/// Index of the first of `pats[k..]` that blocks `low`.
pub open spec fn first_blocking(low: Seq<char>, pats: Seq<Seq<char>>, k: int) -> Option<int>
    decreases pats.len() - k,
{
    if k < 0 || k >= pats.len() {
        None
    } else if blocks(low, pats[k]) {
        Some(k)
    } else {
        first_blocking(low, pats, k + 1)
    }
}

proof fn lemma_first_blocking(low: Seq<char>, pats: Seq<Seq<char>>, k: int)
    requires
        0 <= k,
    ensures
        match first_blocking(low, pats, k) {
            Some(i) => k <= i < pats.len() && blocks(low, pats[i]),
            None => forall|j: int| k <= j < pats.len() ==> !blocks(low, #[trigger] pats[j]),
        },
    decreases pats.len() - k,
{
    if k < pats.len() && !blocks(low, pats[k]) {
        lemma_first_blocking(low, pats, k + 1);
    }
}

fn is_path_char(c: char) -> (r: bool)
    ensures
        r == path_char(c),
{
    ('a' <= c && c <= 'z') || ('A' <= c && c <= 'Z') || ('0' <= c && c <= '9') || c == '.' || c == '_'
        || c == '-' || c == '~'
}

/// Whether destructive pattern `p` occurs in `low`.
fn pattern_blocks(low: &Vec<char>, p: &Vec<char>) -> (r: bool)
    ensures
        r == blocks(low@, p@),
{
    if p.len() > low.len() {
        assert forall|j: int| !blocked_at(low@, p@, j) by {}
        return false;
    }
    let root = chars_of("rm -rf /");
    let root_pattern = crate::text::chars_eq(p, &root);
    let end = low.len() - p.len();
    let mut i: usize = 0;
    loop
        invariant_except_break
            i <= end,
            forall|j: int| 0 <= j < i ==> !blocked_at(low@, p@, j),
        invariant
            p@.len() <= low@.len() <= usize::MAX,
            end == low@.len() - p@.len(),
            root_pattern == root_only(p@),
        ensures
            forall|j: int| 0 <= j <= end ==> !blocked_at(low@, p@, j),
        decreases end - i,
    {
        if matches_at(low, p, i) {
            let after = i + p.len();
            if !root_pattern || after == low.len() || !is_path_char(low[after]) {
                assert(blocked_at(low@, p@, i as int));
                return true;
            }
        }
        if i == end {
            break;
        }
        i = i + 1;
    }
    assert forall|j: int| !blocked_at(low@, p@, j) by {
        if 0 <= j && j <= end {
        }
    }
    false
}

/// Index of the first destructive pattern that blocks `low`.
fn first_blocking_pattern(low: &Vec<char>, pats: &Vec<&str>) -> (r: Option<usize>)
    ensures
        match r {
            Some(k) => first_blocking(low@, strs_view(pats@), 0) == Some(k as int),
            None => first_blocking(low@, strs_view(pats@), 0) is None,
        },
{
    let ghost ps = strs_view(pats@);
    let mut k: usize = 0;
    while k < pats.len()
        invariant
            k <= pats@.len(),
            ps == strs_view(pats@),
            first_blocking(low@, ps, 0) == first_blocking(low@, ps, k as int),
        decreases pats@.len() - k,
    {
        let pc = chars_of(pats[k]);
        if pattern_blocks(low, &pc) {
            return Some(k);
        }
        k = k + 1;
    }
    None
}

/// High-risk patterns: allowed at medium risk with consent.
pub open spec fn high_risk_patterns() -> Seq<Seq<char>> {
    seq![
        "apt remove"@, "apt-get remove"@, "dpkg --remove"@, "dpkg -r"@, "snap remove"@, "pip uninstall"@,
        "npm uninstall"@, "cargo uninstall"@, "rm -rf"@, "rm -r"@, "kill -9"@, "killall"@, "pkill -9"@,
        "systemctl stop"@, "systemctl disable"@, "systemctl mask"@, "iptables -f"@, "ufw disable"@,
        "docker rm"@, "docker system prune"@, "podman rm"@, "podman system prune"@, "format"@, "mkfs"@,
        "parted"@, "fdisk"@, "gdisk"@,
    ]
}

fn high_risk_list() -> (r: Vec<&'static str>)
    ensures
        strs_view(r@) == high_risk_patterns(),
{
    let v = vec![
        "apt remove", "apt-get remove", "dpkg --remove", "dpkg -r", "snap remove", "pip uninstall",
        "npm uninstall", "cargo uninstall", "rm -rf", "rm -r", "kill -9", "killall", "pkill -9",
        "systemctl stop", "systemctl disable", "systemctl mask", "iptables -f", "ufw disable",
        "docker rm", "docker system prune", "podman rm", "podman system prune", "format", "mkfs",
        "parted", "fdisk", "gdisk",
    ];
    proof {
        assert(strs_view(v@) =~= high_risk_patterns());
    }
    v
}

/// Command prefixes that likely need sudo.
pub open spec fn sudo_patterns() -> Seq<Seq<char>> {
    seq![
        "sudo "@, "apt install"@, "apt-get install"@, "apt update"@, "apt upgrade"@, "apt-get update"@,
        "apt-get upgrade"@, "systemctl "@, "journalctl "@, "dpkg "@, "snap "@, "npm install -g"@,
        "pip install"@, "chmod "@, "chown "@, "mount "@, "umount "@, "fdisk "@, "parted "@, "mkfs "@,
        "fsck "@,
    ]
}

fn sudo_list() -> (r: Vec<&'static str>)
    ensures
        strs_view(r@) == sudo_patterns(),
{
    let v = vec![
        "sudo ", "apt install", "apt-get install", "apt update", "apt upgrade", "apt-get update",
        "apt-get upgrade", "systemctl ", "journalctl ", "dpkg ", "snap ", "npm install -g",
        "pip install", "chmod ", "chown ", "mount ", "umount ", "fdisk ", "parted ", "mkfs ",
        "fsck ",
    ];
    proof {
        assert(strs_view(v@) =~= sudo_patterns());
    }
    v
}

/// Read-only command prefixes (risk none).
pub open spec fn read_only_prefixes() -> Seq<Seq<char>> {
    seq![
        "ls"@, "cat "@, "head "@, "tail "@, "less "@, "which "@, "type "@, "command -v"@, "echo "@,
        "printf "@, "stat "@, "file "@, "wc "@, "grep "@, "egrep "@, "fgrep "@, "awk "@, "sed -n"@,
        "dpkg-query"@, "dpkg -l"@, "dpkg -s"@, "dpkg -S"@, "apt list"@, "apt-cache "@, "apt show"@,
        "apt policy"@, "npm list"@, "npm view"@, "npm --version"@, "npm -v"@, "node --version"@,
        "node -v"@, "pip show"@, "pip list"@, "pip --version"@, "snap list"@, "snap find"@,
        "snap info"@, "uname"@, "hostname"@, "uptime"@, "free "@, "df "@, "du "@, "ps "@, "top "@,
        "htop"@, "iostat"@, "vmstat"@, "mpstat"@, "dmesg"@, "journalctl "@, "systemctl status"@,
        "systemctl list"@, "systemctl is-active"@, "systemctl is-enabled"@, "systemctl is-failed"@,
        "docker ps"@, "docker images"@, "docker inspect"@, "podman ps"@, "podman images"@,
        "podman inspect"@, "git status"@, "git log"@, "git diff"@, "git show"@, "git branch"@,
        "git remote"@, "git tag"@, "nvcc --version"@, "rocm-smi"@, "rocminfo"@, "nvidia-smi"@,
        "curl "@, "wget "@, "dig "@, "nslookup"@, "ping "@, "traceroute"@, "ss "@, "ip addr"@,
        "ip link"@, "ip route"@, "ifconfig"@, "env"@, "printenv"@, "id"@, "whoami"@, "who"@, "w "@,
        "last "@, "date"@, "cal"@, "bc "@,
    ]
}

fn read_only_list() -> (r: Vec<&'static str>)
    ensures
        strs_view(r@) == read_only_prefixes(),
{
    let v = vec![
        "ls", "cat ", "head ", "tail ", "less ", "which ", "type ", "command -v", "echo ",
        "printf ", "stat ", "file ", "wc ", "grep ", "egrep ", "fgrep ", "awk ", "sed -n",
        "dpkg-query", "dpkg -l", "dpkg -s", "dpkg -S", "apt list", "apt-cache ", "apt show",
        "apt policy", "npm list", "npm view", "npm --version", "npm -v", "node --version",
        "node -v", "pip show", "pip list", "pip --version", "snap list", "snap find",
        "snap info", "uname", "hostname", "uptime", "free ", "df ", "du ", "ps ", "top ",
        "htop", "iostat", "vmstat", "mpstat", "dmesg", "journalctl ", "systemctl status",
        "systemctl list", "systemctl is-active", "systemctl is-enabled", "systemctl is-failed",
        "docker ps", "docker images", "docker inspect", "podman ps", "podman images",
        "podman inspect", "git status", "git log", "git diff", "git show", "git branch",
        "git remote", "git tag", "nvcc --version", "rocm-smi", "rocminfo", "nvidia-smi",
        "curl ", "wget ", "dig ", "nslookup", "ping ", "traceroute", "ss ", "ip addr",
        "ip link", "ip route", "ifconfig", "env", "printenv", "id", "whoami", "who", "w ",
        "last ", "date", "cal", "bc ",
    ];
    proof {
        assert(strs_view(v@) =~= read_only_prefixes());
    }
    v
}

/// How a shell command is classified, over its Unicode lowercase form:
/// a destructive pattern anywhere refuses it (one aimed at `/` only
/// when `/` itself is the target); so does `>&2` together
/// with `/dev/tcp/`; a read-only prefix without a sudo prefix makes it
/// risk none; a high-risk pattern anywhere makes it medium; anything
/// else is low. The sudo flag is whether it starts with a sudo pattern.
pub open spec fn classify_spec(command: Seq<char>) -> Result<ActionView, ActionErrorView> {
    let low = unicode_lowercase(command);
    match first_blocking(low, blocked_patterns(), 0) {
        Some(k) => Err(ActionErrorView::ShellBlocked {
            command,
            reason: "destructive pattern detected: "@ + blocked_patterns()[k],
        }),
        None => if contains_seq(low, ">&2"@) && contains_seq(low, "/dev/tcp/"@) {
            Err(ActionErrorView::ShellBlocked { command, reason: "potential reverse shell or exfiltration"@ })
        } else {
            let needs_sudo = any_prefix(low, sudo_patterns()) || starts_with_seq(low, "sudo "@);
            if any_prefix(low, read_only_prefixes()) && !needs_sudo {
                Ok(ActionView::ShellCommand { command, risk: RiskBand::NoRisk, needs_sudo: false })
            } else if any_contained(low, high_risk_patterns()) {
                Ok(ActionView::ShellCommand { command, risk: RiskBand::Medium, needs_sudo })
            } else {
                Ok(ActionView::ShellCommand { command, risk: RiskBand::Low, needs_sudo })
            }
        },
    }
}

/// Classify a shell command for risk and safety: refused as
/// `ShellBlocked`, or a `ShellCommand` with its risk band and sudo flag.
pub fn classify_shell_command(command: &str) -> (r: Result<ResolvedAction, ActionError>)
    ensures
        result_view(r) == classify_spec(command@),
{
    let lower = to_lowercase(command);
    let low = chars_of(lower.as_str());
    let blocked = blocked_list();
    match first_blocking_pattern(&low, &blocked) {
        Some(k) => {
            proof {
                lemma_first_blocking(low@, strs_view(blocked@), 0);
            }
            let mut reason = "destructive pattern detected: ".to_owned();
            reason.append(blocked[k]);
            return Err(ActionError::ShellBlocked { command: command.to_owned(), reason });
        },
        None => {},
    }
    let tcp_a = chars_of(">&2");
    let tcp_b = chars_of("/dev/tcp/");
    if contains_chars(&low, &tcp_a) && contains_chars(&low, &tcp_b) {
        return Err(ActionError::ShellBlocked {
            command: command.to_owned(),
            reason: "potential reverse shell or exfiltration".to_owned(),
        });
    }
    let sudo_prefix = chars_of("sudo ");
    let needs_sudo = starts_with_any(&low, &sudo_list()) || starts_with_chars(&low, &sudo_prefix);
    let is_read_only = starts_with_any(&low, &read_only_list());
    if is_read_only && !needs_sudo {
        return Ok(ResolvedAction::ShellCommand { command: command.to_owned(), risk: RiskBand::NoRisk, needs_sudo: false });
    }
    if contains_any(&low, &high_risk_list()) {
        return Ok(ResolvedAction::ShellCommand { command: command.to_owned(), risk: RiskBand::Medium, needs_sudo });
    }
    Ok(ResolvedAction::ShellCommand { command: command.to_owned(), risk: RiskBand::Low, needs_sudo })
}

// ─── resolution ──────────────────────────────────────────────

/// Index of the first line whose trimmed text starts with `prefix`.
pub open spec fn first_prefixed_line(lines: Seq<Seq<char>>, prefix: Seq<char>) -> Option<int>
    decreases lines.len(),
{
    if lines.len() == 0 {
        None
    } else {
        match first_prefixed_line(lines.drop_last(), prefix) {
            Some(i) => Some(i),
            None => if starts_with_seq(trim(lines.last()), prefix) { Some(lines.len() - 1) } else { None },
        }
    }
}

proof fn lemma_first_prefixed_line(lines: Seq<Seq<char>>, prefix: Seq<char>)
    ensures
        match first_prefixed_line(lines, prefix) {
            Some(i) => 0 <= i < lines.len() && starts_with_seq(trim(lines[i]), prefix)
                && forall|j: int| 0 <= j < i ==> !starts_with_seq(trim(#[trigger] lines[j]), prefix),
            None => forall|j: int| 0 <= j < lines.len() ==> !starts_with_seq(trim(#[trigger] lines[j]), prefix),
        },
    decreases lines.len(),
{
    if lines.len() > 0 {
        let t = lines.drop_last();
        lemma_first_prefixed_line(t, prefix);
        assert forall|j: int| 0 <= j < t.len() implies t[j] == lines[j] by {}
    }
}

/// The IDs of the skills.
pub open spec fn skill_ids(skills: Seq<Skill>) -> Seq<Seq<char>> {
    Seq::new(skills.len(), |i: int| skills[i].id@)
}

/// The IDs of the probes.
pub open spec fn probe_ids(ps: Seq<Probe>) -> Seq<Seq<char>> {
    Seq::new(ps.len(), |i: int| ps[i].id@)
}

/// The IDs of the interventions.
pub open spec fn intervention_ids(ivs: Seq<Intervention>) -> Seq<Seq<char>> {
    Seq::new(ivs.len(), |i: int| ivs[i].id@)
}

/// The intervention an action resolves to inside `sk`.
pub open spec fn intervention_view(skill_id: Seq<char>, sk: Skill, iv: Intervention) -> ActionView {
    let requires_human = strings_view(sk.safety.require_human_for@).contains(iv.id@);
    let (rollback_id, rollback_cmd, rollback_is_reboot) = match iv.rollback {
        Rollback::RollbackId { rollback } => (
            Some(rollback@),
            match index_of_first(intervention_ids(sk.interventions@), rollback@) {
                Some(j) => Some(strings_view(sk.interventions@[j].cmd@)),
                None => None,
            },
            false,
        ),
        Rollback::NoneNeeded => (None, None, false),
        Rollback::Reboot => (None, None, true),
    };
    ActionView::Intervention {
        skill_id,
        action_id: iv.id@,
        cmd: strings_view(iv.cmd@),
        risk: iv.risk,
        needs_sudo: iv.needs_sudo,
        max_auto_risk: sk.safety.max_auto_risk,
        requires_human,
        rollback_id,
        rollback_cmd,
        rollback_is_reboot,
    }
}

/// `skill_id/action_id` looked up among the skills: the first skill with
/// that ID, then its first probe with that ID, else its first
/// intervention with that ID.
pub open spec fn lookup_spec(skill_id: Seq<char>, action_id: Seq<char>, skills: Seq<Skill>) -> Result<ActionView, ActionErrorView> {
    match index_of_first(skill_ids(skills), skill_id) {
        None => Err(ActionErrorView::UnknownSkill { skill_id, loaded: skill_ids(skills) }),
        Some(si) => {
            let sk = skills[si];
            match index_of_first(probe_ids(sk.probes@), action_id) {
                Some(pi) => Ok(ActionView::Probe {
                    skill_id,
                    action_id,
                    cmd: strings_view(sk.probes@[pi].cmd@),
                    max_auto_risk: sk.safety.max_auto_risk,
                }),
                None => match index_of_first(intervention_ids(sk.interventions@), action_id) {
                    Some(ii) => Ok(intervention_view(skill_id, sk, sk.interventions@[ii])),
                    None => Err(ActionErrorView::UnknownAction {
                        skill_id,
                        action_id,
                        probes: probe_ids(sk.probes@),
                        interventions: intervention_ids(sk.interventions@),
                    }),
                },
            }
        },
    }
}

/// An `ACTION:` spec (what follows the prefix, trimmed) resolved: it
/// must hold a `/` with a non-blank skill and action ID on either side;
/// `remote/<tool>` names a remote tool.
pub open spec fn action_spec_result(spec: Seq<char>, skills: Seq<Skill>) -> Result<ActionView, ActionErrorView> {
    match first_index_of(spec, '/') {
        None => Err(ActionErrorView::MissingSeparator { spec }),
        Some(i) => {
            let a = trim(spec.take(i));
            let b = trim(spec.skip(i + 1));
            if a.len() == 0 || b.len() == 0 {
                Err(ActionErrorView::EmptyId { spec })
            } else if a == "remote"@ {
                Ok(ActionView::RemoteTool { tool_name: b })
            } else {
                lookup_spec(a, b, skills)
            }
        },
    }
}

/// What `resolve` answers: the first `SHELL:` line, if any, is
/// classified; else the first `ACTION:` line, if any, is resolved
/// against the skills; a prefix with nothing after it is malformed.
pub open spec fn resolve_spec(response: Seq<char>, skills: Seq<Skill>) -> Option<Result<ActionView, ActionErrorView>> {
    let ls = lines_spec(response);
    match first_prefixed_line(ls, "SHELL:"@) {
        Some(k) => {
            let raw = trim(ls[k]);
            let rest = trim(raw.skip(6));
            if rest.len() == 0 {
                Some(Err(ActionErrorView::MalformedPrefix { raw }))
            } else {
                Some(classify_spec(rest))
            }
        },
        None => match first_prefixed_line(ls, "ACTION:"@) {
            None => None,
            Some(k) => {
                let raw = trim(ls[k]);
                let rest = trim(raw.skip(7));
                if rest.len() == 0 {
                    Some(Err(ActionErrorView::MalformedPrefix { raw }))
                } else {
                    Some(action_spec_result(rest, skills))
                }
            },
        },
    }
}

/// The view of an optional resolution.
pub open spec fn opt_result_view(r: Option<Result<ResolvedAction, ActionError>>) -> Option<Result<ActionView, ActionErrorView>> {
    match r {
        Some(x) => Some(result_view(x)),
        None => None,
    }
}

fn first_line_with_prefix(lines: &Vec<Vec<char>>, prefix: &str) -> (r: Option<usize>)
    ensures
        match r {
            Some(k) => first_prefixed_line(Seq::new(lines@.len(), |i: int| lines@[i]@), prefix@) == Some(k as int),
            None => first_prefixed_line(Seq::new(lines@.len(), |i: int| lines@[i]@), prefix@) is None,
        },
{
    let ghost ls = Seq::new(lines@.len(), |i: int| lines@[i]@);
    let pc = chars_of(prefix);
    let mut i: usize = 0;
    while i < lines.len()
        invariant
            i <= lines@.len(),
            ls == Seq::new(lines@.len(), |i: int| lines@[i]@),
            pc@ == prefix@,
            forall|j: int| 0 <= j < i ==> !starts_with_seq(trim(#[trigger] ls[j]), prefix@),
        decreases lines@.len() - i,
    {
        let t = trim_chars(&lines[i]);
        if starts_with_chars(&t, &pc) {
            proof {
                lemma_first_prefixed_line(ls, prefix@);
                assert(starts_with_seq(trim(ls[i as int]), prefix@));
            }
            return Some(i);
        }
        i = i + 1;
    }
    proof {
        lemma_first_prefixed_line(ls, prefix@);
    }
    None
}

pub(crate) fn skill_id_list(skills: &[Skill]) -> (r: Vec<String>)
    ensures
        strings_view(r@) == skill_ids(skills@),
{
    let mut out: Vec<String> = Vec::new();
    let mut i: usize = 0;
    while i < skills.len()
        invariant
            i <= skills@.len(),
            strings_view(out@) == skill_ids(skills@).take(i as int),
        decreases skills@.len() - i,
    {
        let ghost before = out@;
        let x = skills[i].id.clone();
        out.push(x);
        proof {
            assert(out@ == before.push(x));
            assert(strings_view(out@) =~= strings_view(before).push(x@));
            assert(skill_ids(skills@).take(i as int + 1) =~= skill_ids(skills@).take(i as int).push(x@));
        }
        i = i + 1;
    }
    proof {
        assert(skill_ids(skills@).take(skills@.len() as int) =~= skill_ids(skills@));
    }
    out
}

pub(crate) fn probe_id_list(ps: &Vec<Probe>) -> (r: Vec<String>)
    ensures
        strings_view(r@) == probe_ids(ps@),
{
    let mut out: Vec<String> = Vec::new();
    let mut i: usize = 0;
    while i < ps.len()
        invariant
            i <= ps@.len(),
            strings_view(out@) == probe_ids(ps@).take(i as int),
        decreases ps@.len() - i,
    {
        let ghost before = out@;
        let x = ps[i].id.clone();
        out.push(x);
        proof {
            assert(out@ == before.push(x));
            assert(strings_view(out@) =~= strings_view(before).push(x@));
            assert(probe_ids(ps@).take(i as int + 1) =~= probe_ids(ps@).take(i as int).push(x@));
        }
        i = i + 1;
    }
    proof {
        assert(probe_ids(ps@).take(ps@.len() as int) =~= probe_ids(ps@));
    }
    out
}

pub(crate) fn intervention_id_list(ivs: &Vec<Intervention>) -> (r: Vec<String>)
    ensures
        strings_view(r@) == intervention_ids(ivs@),
{
    let mut out: Vec<String> = Vec::new();
    let mut i: usize = 0;
    while i < ivs.len()
        invariant
            i <= ivs@.len(),
            strings_view(out@) == intervention_ids(ivs@).take(i as int),
        decreases ivs@.len() - i,
    {
        let ghost before = out@;
        let x = ivs[i].id.clone();
        out.push(x);
        proof {
            assert(out@ == before.push(x));
            assert(strings_view(out@) =~= strings_view(before).push(x@));
            assert(intervention_ids(ivs@).take(i as int + 1) =~= intervention_ids(ivs@).take(i as int).push(x@));
        }
        i = i + 1;
    }
    proof {
        assert(intervention_ids(ivs@).take(ivs@.len() as int) =~= intervention_ids(ivs@));
    }
    out
}

pub(crate) fn find_skill(skills: &[Skill], id: &str) -> (r: Option<usize>)
    ensures
        match r {
            Some(i) => index_of_first(skill_ids(skills@), id@) == Some(i as int),
            None => index_of_first(skill_ids(skills@), id@) is None,
        },
{
    let mut i: usize = 0;
    while i < skills.len()
        invariant
            i <= skills@.len(),
            forall|j: int| 0 <= j < i ==> skill_ids(skills@)[j] != id@,
        decreases skills@.len() - i,
    {
        if str_eq(skills[i].id.as_str(), id) {
            proof {
                lemma_index_of_first_is(skill_ids(skills@), id@, i as int);
            }
            return Some(i);
        }
        i = i + 1;
    }
    proof {
        lemma_index_of_first_is(skill_ids(skills@), id@, skills@.len() as int);
    }
    None
}

pub(crate) fn find_probe(ps: &Vec<Probe>, id: &str) -> (r: Option<usize>)
    ensures
        match r {
            Some(i) => index_of_first(probe_ids(ps@), id@) == Some(i as int),
            None => index_of_first(probe_ids(ps@), id@) is None,
        },
{
    let mut i: usize = 0;
    while i < ps.len()
        invariant
            i <= ps@.len(),
            forall|j: int| 0 <= j < i ==> probe_ids(ps@)[j] != id@,
        decreases ps@.len() - i,
    {
        if str_eq(ps[i].id.as_str(), id) {
            proof {
                lemma_index_of_first_is(probe_ids(ps@), id@, i as int);
            }
            return Some(i);
        }
        i = i + 1;
    }
    proof {
        lemma_index_of_first_is(probe_ids(ps@), id@, ps@.len() as int);
    }
    None
}

pub(crate) fn find_intervention(ivs: &Vec<Intervention>, id: &str) -> (r: Option<usize>)
    ensures
        match r {
            Some(i) => index_of_first(intervention_ids(ivs@), id@) == Some(i as int),
            None => index_of_first(intervention_ids(ivs@), id@) is None,
        },
{
    let mut i: usize = 0;
    while i < ivs.len()
        invariant
            i <= ivs@.len(),
            forall|j: int| 0 <= j < i ==> intervention_ids(ivs@)[j] != id@,
        decreases ivs@.len() - i,
    {
        if str_eq(ivs[i].id.as_str(), id) {
            proof {
                lemma_index_of_first_is(intervention_ids(ivs@), id@, i as int);
            }
            return Some(i);
        }
        i = i + 1;
    }
    proof {
        lemma_index_of_first_is(intervention_ids(ivs@), id@, ivs@.len() as int);
    }
    None
}

pub(crate) fn list_contains(v: &Vec<String>, x: &str) -> (r: bool)
    ensures
        r == strings_view(v@).contains(x@),
{
    let mut i: usize = 0;
    while i < v.len()
        invariant
            i <= v@.len(),
            forall|j: int| 0 <= j < i ==> strings_view(v@)[j] != x@,
        decreases v@.len() - i,
    {
        if str_eq(v[i].as_str(), x) {
            proof {
                assert(strings_view(v@)[i as int] == x@);
            }
            return true;
        }
        i = i + 1;
    }
    false
}

/// Look `skill_id/action_id` up among the skills.
pub fn lookup(skill_id: &str, action_id: &str, skills: &[Skill]) -> (r: Result<ResolvedAction, ActionError>)
    ensures
        result_view(r) == lookup_spec(skill_id@, action_id@, skills@),
{
    let si = match find_skill(skills, skill_id) {
        Some(si) => si,
        None => {
            return Err(ActionError::UnknownSkill { skill_id: skill_id.to_owned(), loaded: skill_id_list(skills) });
        },
    };
    proof {
        lemma_index_of_first(skill_ids(skills@), skill_id@);
    }
    let skill = &skills[si];
    match find_probe(&skill.probes, action_id) {
        Some(pi) => {
            proof {
                lemma_index_of_first(probe_ids(skill.probes@), action_id@);
            }
            return Ok(ResolvedAction::Probe {
                skill_id: skill_id.to_owned(),
                action_id: action_id.to_owned(),
                cmd: copy_strings(&skill.probes[pi].cmd),
                max_auto_risk: skill.safety.max_auto_risk,
            });
        },
        None => {},
    }
    match find_intervention(&skill.interventions, action_id) {
        Some(ii) => {
            proof {
                lemma_index_of_first(intervention_ids(skill.interventions@), action_id@);
            }
            let iv = &skill.interventions[ii];
            let requires_human = list_contains(&skill.safety.require_human_for, iv.id.as_str());
            let (rollback_id, rollback_cmd, rollback_is_reboot) = match &iv.rollback {
                Rollback::RollbackId { rollback } => {
                    let rb = match find_intervention(&skill.interventions, rollback.as_str()) {
                        Some(j) => {
                            proof {
                                lemma_index_of_first(intervention_ids(skill.interventions@), rollback@);
                            }
                            Some(copy_strings(&skill.interventions[j].cmd))
                        },
                        None => None,
                    };
                    (Some(rollback.clone()), rb, false)
                },
                Rollback::NoneNeeded => (None, None, false),
                Rollback::Reboot => (None, None, true),
            };
            Ok(ResolvedAction::Intervention {
                skill_id: skill_id.to_owned(),
                action_id: action_id.to_owned(),
                cmd: copy_strings(&iv.cmd),
                risk: iv.risk,
                needs_sudo: iv.needs_sudo,
                max_auto_risk: skill.safety.max_auto_risk,
                requires_human,
                rollback_id,
                rollback_cmd,
                rollback_is_reboot,
            })
        },
        None => Err(ActionError::UnknownAction {
            skill_id: skill_id.to_owned(),
            action_id: action_id.to_owned(),
            probes: probe_id_list(&skill.probes),
            interventions: intervention_id_list(&skill.interventions),
        }),
    }
}

/// Resolve what follows `ACTION:` (trimmed, non-blank).
fn resolve_action_spec(spec: &Vec<char>, skills: &[Skill]) -> (r: Result<ResolvedAction, ActionError>)
    ensures
        result_view(r) == action_spec_result(spec@, skills@),
{
    let slash = match find_char_from(spec, '/', 0) {
        Some(i) => i,
        None => {
            proof {
                assert(spec@.skip(0) =~= spec@);
            }
            return Err(ActionError::MissingSeparator { spec: string_from_chars(spec) });
        },
    };
    proof {
        assert(spec@.skip(0) =~= spec@);
    }
    let left = slice_chars(spec, 0, slash);
    let right = slice_chars(spec, slash + 1, spec.len());
    let a = trim_chars(&left);
    let b = trim_chars(&right);
    proof {
        assert(left@ =~= spec@.take(slash as int));
        assert(right@ =~= spec@.skip(slash + 1));
    }
    if a.len() == 0 || b.len() == 0 {
        return Err(ActionError::EmptyId { spec: string_from_chars(spec) });
    }
    let a_s = string_from_chars(&a);
    let b_s = string_from_chars(&b);
    if str_eq(a_s.as_str(), "remote") {
        return Ok(ResolvedAction::RemoteTool { tool_name: b_s });
    }
    lookup(a_s.as_str(), b_s.as_str(), skills)
}

/// Parse the first `SHELL:` line of a response, or else its first
/// `ACTION:` line, and resolve it against the loaded skills; `None` when
/// the response proposes nothing.
pub fn resolve(response: &str, skills: &[Skill]) -> (r: Option<Result<ResolvedAction, ActionError>>)
    ensures
        opt_result_view(r) == resolve_spec(response@, skills@),
{
    let cs = chars_of(response);
    let lines = lines_of(&cs);
    let ghost ls = Seq::new(lines@.len(), |i: int| lines@[i]@);
    proof {
        assert(ls =~= lines_spec(response@));
    }
    match first_line_with_prefix(&lines, "SHELL:") {
        Some(k) => {
            proof {
                lemma_first_prefixed_line(ls, "SHELL:"@);
            }
            let raw = trim_chars(&lines[k]);
            proof {
                reveal_strlit("SHELL:");
                assert(ls[k as int] == lines@[k as int]@);
            }
            let after = slice_chars(&raw, 6, raw.len());
            let rest = trim_chars(&after);
            proof {
                assert(after@ =~= raw@.skip(6));
            }
            if rest.len() == 0 {
                return Some(Err(ActionError::MalformedPrefix { raw: string_from_chars(&raw) }));
            }
            let command = string_from_chars(&rest);
            return Some(classify_shell_command(command.as_str()));
        },
        None => {},
    }
    match first_line_with_prefix(&lines, "ACTION:") {
        None => None,
        Some(k) => {
            proof {
                lemma_first_prefixed_line(ls, "ACTION:"@);
            }
            let raw = trim_chars(&lines[k]);
            proof {
                reveal_strlit("ACTION:");
                assert(ls[k as int] == lines@[k as int]@);
            }
            let after = slice_chars(&raw, 7, raw.len());
            let rest = trim_chars(&after);
            proof {
                assert(after@ =~= raw@.skip(7));
            }
            if rest.len() == 0 {
                return Some(Err(ActionError::MalformedPrefix { raw: string_from_chars(&raw) }));
            }
            Some(resolve_action_spec(&rest, skills))
        },
    }
}

// ─── messages ────────────────────────────────────────────────

/// `format!("{:?}", v)` of a list of strings, as std's `Debug` writes
/// it.
pub uninterp spec fn debug_of_strings(v: Seq<Seq<char>>) -> Seq<char>;

/// `format!("{:?}", v)`. The contract claims only that the text is a
/// function of the strings, named `debug_of_strings`.
#[verifier::external_body]
pub(crate) fn debug_strings(v: &Vec<String>) -> (r: String)
    ensures
        r@ == debug_of_strings(strings_view(v@)),
{
    format!("{:?}", v)
}

/// `n` in decimal.
pub(crate) fn usize_text(n: usize) -> (r: String)
    ensures
        r@ == crate::text::dec_nat(n as nat),
{
    let mut v: Vec<char> = Vec::new();
    crate::text::push_dec_u64(&mut v, n as u64);
    proof {
        assert(v@ =~= crate::text::dec_nat(n as nat));
    }
    string_from_chars(&v)
}

/// The operator-facing text of an action error.
pub open spec fn action_error_text(e: ActionErrorView) -> Seq<char> {
    match e {
        ActionErrorView::MalformedPrefix { raw } =>
            "Jack proposed an action but the parser couldn't strip the ACTION: prefix. Raw line: `"@ + raw + "`"@,
        ActionErrorView::MissingSeparator { spec } =>
            "'ACTION: "@ + spec + "' — missing `/` separator between skill and action ID. Use ACTION: <skill>/<action>."@,
        ActionErrorView::EmptyId { spec } => "'ACTION: "@ + spec + "' — skill ID or action ID is empty."@,
        ActionErrorView::UnknownSkill { skill_id, loaded } =>
            "'"@ + skill_id + "' is not a loaded skill. Loaded skills: "@ + debug_of_strings(loaded),
        ActionErrorView::UnknownAction { skill_id, action_id, probes, interventions } =>
            "'"@ + action_id + "' is not a known action in skill '"@ + skill_id + "'. Available probes: "@
                + debug_of_strings(probes) + ", interventions: "@ + debug_of_strings(interventions),
        ActionErrorView::NestedActionDetected { count, first_action } =>
            "Jack proposed "@ + crate::text::dec_nat(count as nat) + " actions in one response (only one is allowed). Using the first: "@
                + first_action,
        ActionErrorView::ShellBlocked { command, reason } => "Shell command blocked: "@ + reason + ". Command: "@ + command,
    }
}

impl ActionError {
    /// The operator-facing description of this error.
    pub fn message(&self) -> (r: String)
        ensures
            r@ == action_error_text(self@),
    {
        match self {
            ActionError::MalformedPrefix { raw } => {
                let mut m = "Jack proposed an action but the parser couldn't strip the ACTION: prefix. Raw line: `".to_owned();
                m.append(raw.as_str());
                m.append("`");
                m
            },
            ActionError::MissingSeparator { spec } => {
                let mut m = "'ACTION: ".to_owned();
                m.append(spec.as_str());
                m.append("' — missing `/` separator between skill and action ID. Use ACTION: <skill>/<action>.");
                m
            },
            ActionError::EmptyId { spec } => {
                let mut m = "'ACTION: ".to_owned();
                m.append(spec.as_str());
                m.append("' — skill ID or action ID is empty.");
                m
            },
            ActionError::UnknownSkill { skill_id, loaded } => {
                let mut m = "'".to_owned();
                m.append(skill_id.as_str());
                m.append("' is not a loaded skill. Loaded skills: ");
                let d = debug_strings(loaded);
                m.append(d.as_str());
                m
            },
            ActionError::UnknownAction { skill_id, action_id, probes, interventions } => {
                let mut m = "'".to_owned();
                m.append(action_id.as_str());
                m.append("' is not a known action in skill '");
                m.append(skill_id.as_str());
                m.append("'. Available probes: ");
                let dp = debug_strings(probes);
                m.append(dp.as_str());
                m.append(", interventions: ");
                let di = debug_strings(interventions);
                m.append(di.as_str());
                m
            },
            ActionError::NestedActionDetected { count, first_action } => {
                let mut m = "Jack proposed ".to_owned();
                let c = usize_text(*count);
                m.append(c.as_str());
                m.append(" actions in one response (only one is allowed). Using the first: ");
                m.append(first_action.as_str());
                m
            },
            ActionError::ShellBlocked { command, reason } => {
                let mut m = "Shell command blocked: ".to_owned();
                m.append(reason.as_str());
                m.append(". Command: ");
                m.append(command.as_str());
                m
            },
        }
    }
}

// ─── laws ────────────────────────────────────────────────────

/// A command holding a high-risk pattern anywhere in its lowercase form
/// (not only at its start) is never classified low risk: unless it is
/// refused, or read-only without sudo, it is medium risk.
pub proof fn lemma_high_risk_anywhere(command: Seq<char>, k: int, i: int)
    requires
        0 <= k < high_risk_patterns().len(),
        occurs_at(unicode_lowercase(command), high_risk_patterns()[k], i),
    ensures
        classify_spec(command) matches Ok(ActionView::ShellCommand { risk, .. }) ==> risk != RiskBand::Low,
        !any_prefix(unicode_lowercase(command), read_only_prefixes())
            ==> (classify_spec(command) matches Ok(ActionView::ShellCommand { risk, .. }) ==> risk == RiskBand::Medium),
{
    let low = unicode_lowercase(command);
    assert(contains_seq(low, high_risk_patterns()[k]));
    assert(any_contained(low, high_risk_patterns()));
}

/// A command with no high-risk or read-only pattern that is not
/// refused is low risk.
pub proof fn lemma_plain_command_is_low(command: Seq<char>)
    requires
        !any_contained(unicode_lowercase(command), high_risk_patterns()),
        !any_prefix(unicode_lowercase(command), read_only_prefixes()),
    ensures
        classify_spec(command) matches Ok(ActionView::ShellCommand { risk, .. }) ==> risk == RiskBand::Low,
{
}

/// Sudo does not lower the risk: a command that starts with `sudo ` is
/// flagged as needing sudo and never classified risk none.
pub proof fn lemma_sudo_is_flagged(command: Seq<char>)
    requires
        starts_with_seq(unicode_lowercase(command), "sudo "@),
    ensures
        classify_spec(command) matches Ok(ActionView::ShellCommand { risk, needs_sudo, .. }) ==> needs_sudo && risk != RiskBand::NoRisk,
{
}

/// A destructive pattern anywhere in a command refuses it (for
/// `rm -rf /`, where `/` itself is the target: nothing of a path name
/// follows it).
pub proof fn lemma_destructive_anywhere_refused(command: Seq<char>, k: int, i: int)
    requires
        0 <= k < blocked_patterns().len(),
        blocked_at(unicode_lowercase(command), blocked_patterns()[k], i),
    ensures
        classify_spec(command) matches Err(ActionErrorView::ShellBlocked { .. }),
{
    let low = unicode_lowercase(command);
    lemma_first_blocking(low, blocked_patterns(), 0);
    assert(blocks(low, blocked_patterns()[k]));
}

/// A command that redirects to standard error and names `/dev/tcp/`
/// is refused as a possible reverse shell.
pub proof fn lemma_reverse_shell_refused(command: Seq<char>)
    requires
        contains_seq(unicode_lowercase(command), ">&2"@),
        contains_seq(unicode_lowercase(command), "/dev/tcp/"@),
    ensures
        classify_spec(command) matches Err(ActionErrorView::ShellBlocked { .. }),
{
}

/// A command that is not refused is risk none exactly when it starts
/// with a read-only prefix and no sudo pattern, and then needs no sudo;
/// otherwise it needs sudo exactly when it starts with a sudo pattern.
pub proof fn lemma_read_only_is_risk_none(command: Seq<char>)
    ensures
        classify_spec(command) matches Ok(ActionView::ShellCommand { risk, needs_sudo, .. }) ==> (
            risk == RiskBand::NoRisk <==> (any_prefix(unicode_lowercase(command), read_only_prefixes())
                && !any_prefix(unicode_lowercase(command), sudo_patterns())
                && !starts_with_seq(unicode_lowercase(command), "sudo "@))),
        classify_spec(command) matches Ok(ActionView::ShellCommand { risk, needs_sudo, .. }) ==> (
            risk != RiskBand::NoRisk ==> needs_sudo == (any_prefix(unicode_lowercase(command), sudo_patterns())
                || starts_with_seq(unicode_lowercase(command), "sudo "@))),
        classify_spec(command) matches Ok(ActionView::ShellCommand { risk, needs_sudo, .. }) ==> (
            risk == RiskBand::NoRisk ==> !needs_sudo),
{
}

} // verus!
