//! Offline rule-based fallback: Jack is never silent. When the network
//! is down, the key is missing, or an LLM call fails, a short
//! deterministic summary of the journal snapshot is given in Jack's
//! voice.

use vstd::prelude::*;
use crate::event::severity_name;
use crate::journal::{EventRow, SeverityCounts};
use crate::text::{chars_of, contains_seq, dec_int, occurs_at, push_dec_i64, push_str, string_from_chars, trim, trim_str};

verus! {

/// The verdict line's three cases.
#[derive(Debug, Clone, Copy, PartialEq, Eq, Structural)]
pub enum Verdict {
    /// No warnings or worse.
    Clean,
    /// Warnings, nothing worse.
    Soft,
    /// Alerts or crits.
    Hard,
}

/// The verdict on a window's counts.
pub open spec fn verdict_of(c: SeverityCounts) -> Verdict {
    if c.crit > 0 || c.alert > 0 {
        Verdict::Hard
    } else if c.warn > 0 {
        Verdict::Soft
    } else {
        Verdict::Clean
    }
}

/// The verdict on a window's counts.
pub fn verdict(c: &SeverityCounts) -> (r: Verdict)
    ensures
        r == verdict_of(*c),
{
    if c.crit > 0 || c.alert > 0 {
        Verdict::Hard
    } else if c.warn > 0 {
        Verdict::Soft
    } else {
        Verdict::Clean
    }
}

/// The verdict line.
pub open spec fn verdict_text(v: Verdict) -> Seq<char> {
    match v {
        Verdict::Clean => "Nothing notable. Machine looks fine from where I'm sitting."@,
        Verdict::Soft => "Some warnings worth a look; nothing urgent."@,
        Verdict::Hard => "Alerts in the window. Check the evidence."@,
    }
}

/// `- [sev] ts · module · summary` for one event row; `-` for a missing
/// module, the action for a missing summary.
pub open spec fn row_line(r: EventRow) -> Seq<char> {
    "- ["@ + severity_name(r.severity) + "] "@ + r.ts@ + " · "@
        + match r.module {
        Some(m) => m@,
        None => "-"@,
    } + " · "@ + match r.summary {
        Some(s) => s@,
        None => r.action@,
    } + "\n"@
}

/// The lines of the first `n` rows.
pub open spec fn rows_text(rows: Seq<EventRow>, n: int) -> Seq<char>
    decreases n,
{
    if n <= 0 {
        seq![]
    } else {
        rows_text(rows, n - 1) + row_line(rows[n - 1])
    }
}

/// The note line, when the note is not blank.
pub open spec fn note_text(note: Option<Seq<char>>) -> Seq<char> {
    match note {
        Some(n) => if trim(n).len() > 0 { "Note: "@ + trim(n) + "\n\n"@ } else { seq![] },
        None => seq![],
    }
}

/// The counts line.
pub open spec fn counts_text(c: SeverityCounts) -> Seq<char> {
    "Last 24h: info "@ + dec_int(c.info as int) + " · warn "@ + dec_int(c.warn as int) + " · alert "@
        + dec_int(c.alert as int) + " · crit "@ + dec_int(c.crit as int) + ".\n"@
}

/// The most-recent block, when there are rows.
pub open spec fn recent_block(rows: Seq<EventRow>) -> Seq<char> {
    if rows.len() > 0 { "\nMost recent:\n"@ + rows_text(rows, rows.len() as int) } else { seq![] }
}

/// The offline summary: a header, the operator note when it is not
/// blank, the window's counts, the verdict, the most recent rows when
/// there are any, and `footer`; each line ends in a newline.
pub open spec fn offline_text(c: SeverityCounts, rows: Seq<EventRow>, note: Option<Seq<char>>, footer: Seq<char>) -> Seq<char> {
    "Offline. No LLM today — here's what Jack can say on his own.\n\n"@ + note_text(note) + counts_text(c)
        + verdict_text(verdict_of(c)) + "\n"@ + recent_block(rows) + footer + "\n"@
}

fn push_row(out: &mut Vec<char>, r: &EventRow)
    ensures
        final(out)@ == old(out)@ + row_line(*r),
{
    let ghost o0 = out@;
    push_str(out, "- [");
    push_str(out, r.severity.as_str());
    push_str(out, "] ");
    push_str(out, r.ts.as_str());
    push_str(out, " · ");
    match &r.module {
        Some(m) => push_str(out, m.as_str()),
        None => push_str(out, "-"),
    }
    push_str(out, " · ");
    match &r.summary {
        Some(s) => push_str(out, s.as_str()),
        None => push_str(out, r.action.as_str()),
    }
    push_str(out, "\n");
    proof {
        assert(out@ =~= o0 + row_line(*r));
    }
}

fn push_note(out: &mut Vec<char>, note: Option<&str>)
    ensures
        final(out)@ == old(out)@ + note_text(match note {
            Some(n) => Some(n@),
            None => None,
        }),
{
    let ghost o0 = out@;
    match note {
        Some(n) => {
            let t = trim_str(n);
            if !t.as_str().is_empty() {
                push_str(out, "Note: ");
                push_str(out, t.as_str());
                push_str(out, "\n\n");
                proof {
                    assert(out@ =~= o0 + ("Note: "@ + t@ + "\n\n"@));
                }
            } else {
                proof {
                    assert(out@ =~= o0 + Seq::<char>::empty());
                }
            }
        },
        None => {
            proof {
                assert(out@ =~= o0 + Seq::<char>::empty());
            }
        },
    }
}

fn push_counts(out: &mut Vec<char>, counts: &SeverityCounts)
    ensures
        final(out)@ == old(out)@ + counts_text(*counts),
{
    let ghost o0 = out@;
    push_str(out, "Last 24h: info ");
    push_dec_i64(out, counts.info);
    push_str(out, " · warn ");
    push_dec_i64(out, counts.warn);
    push_str(out, " · alert ");
    push_dec_i64(out, counts.alert);
    push_str(out, " · crit ");
    push_dec_i64(out, counts.crit);
    push_str(out, ".\n");
    proof {
        assert(out@ =~= o0 + counts_text(*counts));
    }
}

fn push_recent(out: &mut Vec<char>, rows: &[EventRow])
    ensures
        final(out)@ == old(out)@ + recent_block(rows@),
{
    let ghost o0 = out@;
    if rows.len() > 0 {
        push_str(out, "\nMost recent:\n");
        let ghost d = out@;
        let mut i: usize = 0;
        while i < rows.len()
            invariant
                i <= rows@.len(),
                out@ == d + rows_text(rows@, i as int),
            decreases rows@.len() - i,
        {
            push_row(out, &rows[i]);
            i = i + 1;
        }
        proof {
            assert(out@ =~= o0 + recent_block(rows@));
        }
    } else {
        proof {
            assert(out@ =~= o0 + recent_block(rows@));
        }
    }
}

/// The offline summary of a journal snapshot: the last day's counts,
/// the most recent rows and the operator's note, closed by `footer`.
pub fn compose_offline(counts: &SeverityCounts, rows: &[EventRow], note: Option<&str>, footer: &str) -> (r: String)
    ensures
        r@ == offline_text(*counts, rows@, match note {
            Some(n) => Some(n@),
            None => None,
        }, footer@),
{
    let mut out: Vec<char> = Vec::new();
    push_str(&mut out, "Offline. No LLM today — here's what Jack can say on his own.\n\n");
    push_note(&mut out, note);
    push_counts(&mut out, counts);
    match verdict(counts) {
        Verdict::Clean => push_str(&mut out, "Nothing notable. Machine looks fine from where I'm sitting."),
        Verdict::Soft => push_str(&mut out, "Some warnings worth a look; nothing urgent."),
        Verdict::Hard => push_str(&mut out, "Alerts in the window. Check the evidence."),
    }
    push_str(&mut out, "\n");
    push_recent(&mut out, rows);
    push_str(&mut out, footer);
    push_str(&mut out, "\n");
    proof {
        assert(out@ =~= offline_text(*counts, rows@, match note {
            Some(n) => Some(n@),
            None => None,
        }, footer@));
    }
    string_from_chars(&out)
}

/// The doctor's closing advice.
pub const DOCTOR_FOOTER: &'static str = "\nVerify Okapi is running (`systemctl --user status okapi`) and set OPENROUTER_API_KEY in `~/.config/harness/russell.env` if you want the remote fallback. Call me back when the phone's working.";

/// The Nurse's offline response for a journal snapshot: the severity
/// counts of the last 24 hours, the most recent events and the
/// operator's note.
pub fn summarise(counts: &SeverityCounts, recent: &[EventRow], note: Option<&str>) -> (r: String)
    ensures
        r@ == offline_text(*counts, recent@, match note {
            Some(n) => Some(n@),
            None => None,
        }, DOCTOR_FOOTER@),
{
    compose_offline(counts, recent, note, DOCTOR_FOOTER)
}

// ─── laws ────────────────────────────────────────────────────

/// The verdict reads the window by its worst severity: any alert or
/// crit makes it hard; warnings alone make it soft; otherwise it is
/// clean.
pub proof fn lemma_verdict_by_worst_severity(c: SeverityCounts)
    ensures
        c.alert > 0 ==> verdict_of(c) == Verdict::Hard,
        c.crit > 0 ==> verdict_of(c) == Verdict::Hard,
        c.crit <= 0 && c.alert <= 0 && c.warn > 0 ==> verdict_of(c) == Verdict::Soft,
        c.crit <= 0 && c.alert <= 0 && c.warn <= 0 ==> verdict_of(c) == Verdict::Clean,
{
}

/// The verdict is monotone in the counts: raising any count never
/// turns a hard verdict soft or clean, nor a soft one clean.
pub proof fn lemma_verdict_monotone(a: SeverityCounts, b: SeverityCounts)
    requires
        a.warn <= b.warn,
        a.alert <= b.alert,
        a.crit <= b.crit,
    ensures
        verdict_of(a) == Verdict::Hard ==> verdict_of(b) == Verdict::Hard,
        verdict_of(a) == Verdict::Soft ==> verdict_of(b) != Verdict::Clean,
{
}

/// An offline summary of a window with alerts or crits says so: it
/// holds `Alerts in the window. Check the evidence.`
pub proof fn lemma_alerts_are_announced(c: SeverityCounts, rows: Seq<EventRow>, note: Option<Seq<char>>, footer: Seq<char>)
    requires
        c.alert > 0 || c.crit > 0,
    ensures
        contains_seq(offline_text(c, rows, note, footer), "Alerts in the window. Check the evidence."@),
{
    let p = "Alerts in the window. Check the evidence."@;
    let pre = "Offline. No LLM today — here's what Jack can say on his own.\n\n"@ + note_text(note) + counts_text(c);
    let s = offline_text(c, rows, note, footer);
    assert(verdict_text(verdict_of(c)) == p);
    assert(s == pre + p + ("\n"@ + recent_block(rows) + footer + "\n"@));
    assert(s.subrange(pre.len() as int, (pre.len() + p.len()) as int) =~= p);
    assert(occurs_at(s, p, pre.len() as int));
}

} // verus!
