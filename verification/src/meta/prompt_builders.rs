//! Prompt blocks built from journal snapshots: severity counts,
//! freshness, recent events, reflex verdicts and the host profile.

use vstd::prelude::*;
use crate::event::severity_name;
use crate::journal::{EventRow, SeverityCounts};
use crate::profile::{GpuInfo, HostInfo};
use crate::text::{
    dec_int, dec_nat, is_ws, push_dec_i64, push_dec_u64, push_str, string_from_chars, trail_ws, trim_end,
};

verus! {

/// `info N · warn N · alert N · crit N`.
pub open spec fn severity_block_text(c: SeverityCounts) -> Seq<char> {
    "info "@ + dec_int(c.info as int) + " · warn "@ + dec_int(c.warn as int) + " · alert "@ + dec_int(c.alert as int)
        + " · crit "@ + dec_int(c.crit as int)
}

/// The severity summary block of a window's counts.
pub fn build_severity_block(counts: &SeverityCounts) -> (r: String)
    ensures
        r@ == severity_block_text(*counts),
{
    let mut out: Vec<char> = Vec::new();
    push_str(&mut out, "info ");
    push_dec_i64(&mut out, counts.info);
    push_str(&mut out, " · warn ");
    push_dec_i64(&mut out, counts.warn);
    push_str(&mut out, " · alert ");
    push_dec_i64(&mut out, counts.alert);
    push_str(&mut out, " · crit ");
    push_dec_i64(&mut out, counts.crit);
    proof {
        assert(out@ =~= severity_block_text(*counts));
    }
    string_from_chars(&out)
}

/// `now - ts`, saturating at the bounds of `i64`.
pub open spec fn saturating_age(now: i64, ts: i64) -> int {
    let d = now - ts;
    if d > i64::MAX { i64::MAX as int } else if d < i64::MIN { i64::MIN as int } else { d }
}

/// `Last sample: Ns ago`, or `No samples yet`.
pub open spec fn freshness_text(last_sample_ts: Option<i64>, now: i64) -> Seq<char> {
    match last_sample_ts {
        Some(ts) => "Last sample: "@ + dec_int(saturating_age(now, ts)) + "s ago"@,
        None => "No samples yet"@,
    }
}

/// The freshness block: how long ago (at `now`) the last sample was
/// taken.
pub fn build_freshness_block(last_sample_ts: Option<i64>, now: i64) -> (r: String)
    ensures
        r@ == freshness_text(last_sample_ts, now),
{
    match last_sample_ts {
        Some(ts) => {
            let d: i128 = now as i128 - ts as i128;
            let age: i64 = if d > i64::MAX as i128 {
                i64::MAX
            } else if d < i64::MIN as i128 {
                i64::MIN
            } else {
                d as i64
            };
            let mut out: Vec<char> = Vec::new();
            push_str(&mut out, "Last sample: ");
            push_dec_i64(&mut out, age);
            push_str(&mut out, "s ago");
            proof {
                assert(out@ =~= freshness_text(last_sample_ts, now));
            }
            string_from_chars(&out)
        },
        None => "No samples yet".to_owned(),
    }
}

/// `| severity | module | summary |` for one event; `-` for a missing
/// module, the action for a missing summary.
pub open spec fn event_row_text(e: EventRow) -> Seq<char> {
    "| "@ + severity_name(e.severity) + " | "@ + match e.module {
        Some(m) => m@,
        None => "-"@,
    } + " | "@ + match e.summary {
        Some(s) => s@,
        None => e.action@,
    } + " |\n"@
}

/// The rows of the first `n` events.
pub open spec fn event_rows_text(es: Seq<EventRow>, n: int) -> Seq<char>
    decreases n,
{
    if n <= 0 { seq![] } else { event_rows_text(es, n - 1) + event_row_text(es[n - 1]) }
}

/// The events table: a header and one row per event.
pub open spec fn events_table_text(es: Seq<EventRow>) -> Seq<char> {
    "| Severity | Module | Summary |\n|---|---|---|\n"@ + event_rows_text(es, es.len() as int)
}

/// The events table of the most recent events.
pub fn build_events_table(events: &[EventRow]) -> (r: String)
    ensures
        r@ == events_table_text(events@),
{
    let mut out: Vec<char> = Vec::new();
    push_str(&mut out, "| Severity | Module | Summary |\n|---|---|---|\n");
    let ghost h = out@;
    let mut i: usize = 0;
    while i < events.len()
        invariant
            i <= events@.len(),
            out@ == h + event_rows_text(events@, i as int),
        decreases events@.len() - i,
    {
        let e = &events[i];
        let ghost o0 = out@;
        push_str(&mut out, "| ");
        push_str(&mut out, e.severity.as_str());
        push_str(&mut out, " | ");
        match &e.module {
            Some(m) => push_str(&mut out, m.as_str()),
            None => push_str(&mut out, "-"),
        }
        push_str(&mut out, " | ");
        match &e.summary {
            Some(s) => push_str(&mut out, s.as_str()),
            None => push_str(&mut out, e.action.as_str()),
        }
        push_str(&mut out, " |\n");
        proof {
            assert(out@ =~= o0 + event_row_text(*e));
        }
        i = i + 1;
    }
    string_from_chars(&out)
}

/// One recorded reflex verdict.
#[derive(Debug, Clone)]
pub struct ReflexVerdictRow {
    /// When it was recorded.
    pub ts: String,
    /// The verdict.
    pub verdict: String,
    /// How many breaches it covered.
    pub breaches: i64,
}

/// `| ts | verdict | breaches |`.
pub open spec fn reflex_row_text(r: ReflexVerdictRow) -> Seq<char> {
    "| "@ + r.ts@ + " | "@ + r.verdict@ + " | "@ + dec_int(r.breaches as int) + " |\n"@
}

/// The rows of the first `n` verdicts.
pub open spec fn reflex_rows_text(rs: Seq<ReflexVerdictRow>, n: int) -> Seq<char>
    decreases n,
{
    if n <= 0 { seq![] } else { reflex_rows_text(rs, n - 1) + reflex_row_text(rs[n - 1]) }
}

/// The reflex block: `No reflex verdicts yet`, or a table of them.
pub open spec fn reflex_block_text(rs: Seq<ReflexVerdictRow>) -> Seq<char> {
    if rs.len() == 0 {
        "No reflex verdicts yet"@
    } else {
        "| Timestamp | Verdict | Breaches |\n|---|---|---|\n"@ + reflex_rows_text(rs, rs.len() as int)
    }
}

/// The reflex block of the most recent reflex verdicts.
pub fn build_reflex_block(verdicts: &[ReflexVerdictRow]) -> (r: String)
    ensures
        r@ == reflex_block_text(verdicts@),
{
    if verdicts.len() == 0 {
        return "No reflex verdicts yet".to_owned();
    }
    let mut out: Vec<char> = Vec::new();
    push_str(&mut out, "| Timestamp | Verdict | Breaches |\n|---|---|---|\n");
    let ghost h = out@;
    let mut i: usize = 0;
    while i < verdicts.len()
        invariant
            i <= verdicts@.len(),
            out@ == h + reflex_rows_text(verdicts@, i as int),
        decreases verdicts@.len() - i,
    {
        let v = &verdicts[i];
        let ghost o0 = out@;
        push_str(&mut out, "| ");
        push_str(&mut out, v.ts.as_str());
        push_str(&mut out, " | ");
        push_str(&mut out, v.verdict.as_str());
        push_str(&mut out, " | ");
        push_dec_i64(&mut out, v.breaches);
        push_str(&mut out, " |\n");
        proof {
            assert(out@ =~= o0 + reflex_row_text(*v));
        }
        i = i + 1;
    }
    string_from_chars(&out)
}

/// `  - `name` @ `pci` (role: role)` for one GPU.
pub open spec fn gpu_line(g: GpuInfo) -> Seq<char> {
    "  - `"@ + g.name@ + "` @ `"@ + g.pci@ + "` (role: "@ + g.role@ + ")\n"@
}

/// The lines of the first `n` GPUs.
pub open spec fn gpu_lines(gs: Seq<GpuInfo>, n: int) -> Seq<char>
    decreases n,
{
    if n <= 0 { seq![] } else { gpu_lines(gs, n - 1) + gpu_line(gs[n - 1]) }
}

/// The profile block: OS and CPU lines and one line per GPU, or
/// `- (no profile.json)`.
pub open spec fn profile_block_text(host: Option<HostInfo>, gpus: Seq<GpuInfo>) -> Seq<char> {
    match host {
        Some(h) => "- host.os: `"@ + h.os.distro@ + "/"@ + h.os.version@ + "` kernel `"@ + h.os.kernel@ + "`\n"@
            + "- host.cpu: `"@ + h.cpu.model@ + "` ("@ + dec_nat(h.cpu.cores as nat) + " cores / "@ + dec_nat(h.cpu.threads as nat)
            + " threads)\n"@ + gpu_lines(gpus, gpus.len() as int),
        None => "- (no profile.json)"@,
    }
}

/// The profile block of the host and its GPUs.
pub fn build_profile_block(host: Option<&HostInfo>, gpus: &[GpuInfo]) -> (r: String)
    ensures
        r@ == profile_block_text(match host {
            Some(h) => Some(*h),
            None => None,
        }, gpus@),
{
    match host {
        None => "- (no profile.json)".to_owned(),
        Some(h) => {
            let mut out: Vec<char> = Vec::new();
            push_str(&mut out, "- host.os: `");
            push_str(&mut out, h.os.distro.as_str());
            push_str(&mut out, "/");
            push_str(&mut out, h.os.version.as_str());
            push_str(&mut out, "` kernel `");
            push_str(&mut out, h.os.kernel.as_str());
            push_str(&mut out, "`\n");
            push_str(&mut out, "- host.cpu: `");
            push_str(&mut out, h.cpu.model.as_str());
            push_str(&mut out, "` (");
            push_dec_u64(&mut out, h.cpu.cores as u64);
            push_str(&mut out, " cores / ");
            push_dec_u64(&mut out, h.cpu.threads as u64);
            push_str(&mut out, " threads)\n");
            let ghost hd = out@;
            let mut i: usize = 0;
            while i < gpus.len()
                invariant
                    i <= gpus@.len(),
                    out@ == hd + gpu_lines(gpus@, i as int),
                decreases gpus@.len() - i,
            {
                let g = &gpus[i];
                let ghost o0 = out@;
                push_str(&mut out, "  - `");
                push_str(&mut out, g.name.as_str());
                push_str(&mut out, "` @ `");
                push_str(&mut out, g.pci.as_str());
                push_str(&mut out, "` (role: ");
                push_str(&mut out, g.role.as_str());
                push_str(&mut out, ")\n");
                proof {
                    assert(out@ =~= o0 + gpu_line(*g));
                }
                i = i + 1;
            }
            proof {
                assert(out@ =~= profile_block_text(Some(*h), gpus@));
            }
            string_from_chars(&out)
        },
    }
}


// ─── the host sample table ───────────────────────────────────

/// One probe's summary over the window, as table cells: the numbers
/// already formatted, `—` where a statistic or baseline is missing.
#[derive(Debug, Clone)]
pub struct SampleCells {
    /// Probe name.
    pub probe: String,
    /// Number of samples.
    pub count: i64,
    /// Minimum.
    pub min: String,
    /// Average.
    pub avg: String,
    /// Maximum.
    pub max: String,
    /// Most recent value.
    pub last: String,
    /// 30-day p95 baseline.
    pub p95: String,
    /// 7-day EWMA baseline.
    pub ewma: String,
    /// Unit, empty when there is none.
    pub unit: String,
}

/// A table row: with the two baseline columns when baselines exist.
pub open spec fn cells_row_text(c: SampleCells, with_baselines: bool) -> Seq<char> {
    let head = "| "@ + c.probe@ + " | "@ + dec_int(c.count as int) + " | "@ + c.min@ + " | "@ + c.avg@ + " | "@
        + c.max@ + " | "@ + c.last@;
    if with_baselines {
        head + " | "@ + c.p95@ + " | "@ + c.ewma@ + " | "@ + c.unit@ + " |\n"@
    } else {
        head + " | "@ + c.unit@ + " |\n"@
    }
}

/// The rows of the first `n` summaries.
pub open spec fn cells_rows_text(rows: Seq<SampleCells>, with_baselines: bool, n: int) -> Seq<char>
    decreases n,
{
    if n <= 0 { seq![] } else { cells_rows_text(rows, with_baselines, n - 1) + cells_row_text(rows[n - 1], with_baselines) }
}

/// The warning printed when `stale` probes have baselines older than a
/// week; nothing when none has.
pub open spec fn stale_warning_text(stale: nat) -> Seq<char> {
    if stale > 0 {
        "> ⚠️  **Baseline freshness warning:** "@ + dec_nat(stale)
            + " probe(s) have stale baselines (last updated >7 days ago). Interpret p95/ewma columns with caution."@
            + "\n"@ + "\n"@
    } else {
        seq![]
    }
}

/// The table header, with the baseline columns when baselines exist.
pub open spec fn samples_header_text(with_baselines: bool) -> Seq<char> {
    if with_baselines {
        "| probe | count | min | avg | max | last | p95 (30d) | ewma (7d) | unit |\n|---|---|---|---|---|---|---|---|---|\n"@
    } else {
        "| probe | count | min | avg | max | last | unit |\n|---|---|---|---|---|---|---|\n"@
    }
}

/// The sample table: `(no samples recorded)` when there is no summary;
/// otherwise the staleness warning, the header and one row per probe,
/// trailing whitespace trimmed.
pub open spec fn samples_table_text(rows: Seq<SampleCells>, with_baselines: bool, stale: nat) -> Seq<char> {
    if rows.len() == 0 {
        "(no samples recorded)"@
    } else {
        trim_end(stale_warning_text(stale) + samples_header_text(with_baselines) + cells_rows_text(
            rows,
            with_baselines,
            rows.len() as int,
        ))
    }
}

proof fn lemma_row_ends_with_bar(c: SampleCells, with_baselines: bool)
    ensures
        cells_row_text(c, with_baselines).len() >= 2,
        cells_row_text(c, with_baselines).last() == '\n',
        cells_row_text(c, with_baselines)[cells_row_text(c, with_baselines).len() - 2] == '|',
{
    reveal_strlit(" |\n");
    let t = " |\n"@;
    assert(t.len() == 3 && t[1] == '|' && t[2] == '\n');
    let row = cells_row_text(c, with_baselines);
    let head = "| "@ + c.probe@ + " | "@ + dec_int(c.count as int) + " | "@ + c.min@ + " | "@ + c.avg@ + " | "@
        + c.max@ + " | "@ + c.last@;
    let x = if with_baselines { head + " | "@ + c.p95@ + " | "@ + c.ewma@ + " | "@ + c.unit@ } else { head + " | "@ + c.unit@ };
    assert(row =~= x + t);
}

proof fn lemma_trim_one_newline(s: Seq<char>)
    requires
        s.len() >= 2,
        s.last() == '\n',
        s[s.len() - 2] == '|',
    ensures
        trim_end(s) == s.drop_last(),
{
    assert(is_ws(s.last()));
    assert(s.drop_last().last() == '|');
    assert(!is_ws(s.drop_last().last()));
    assert(trail_ws(s.drop_last()) == 0);
    assert(trail_ws(s) == 1);
    assert(trim_end(s) =~= s.drop_last());
}

fn push_sample_row(out: &mut Vec<char>, c: &SampleCells, with_baselines: bool)
    ensures
        final(out)@ == old(out)@ + cells_row_text(*c, with_baselines),
{
    let ghost o = out@;
    push_str(out, "| ");
    push_str(out, c.probe.as_str());
    push_str(out, " | ");
    push_dec_i64(out, c.count);
    push_str(out, " | ");
    push_str(out, c.min.as_str());
    push_str(out, " | ");
    push_str(out, c.avg.as_str());
    push_str(out, " | ");
    push_str(out, c.max.as_str());
    push_str(out, " | ");
    push_str(out, c.last.as_str());
    let ghost h = out@;
    if with_baselines {
        push_str(out, " | ");
        push_str(out, c.p95.as_str());
        push_str(out, " | ");
        push_str(out, c.ewma.as_str());
    }
    push_str(out, " | ");
    push_str(out, c.unit.as_str());
    push_str(out, " |\n");
    proof {
        assert(out@ =~= o + cells_row_text(*c, with_baselines));
    }
}

/// The host sample table of a window: the probes' summaries, whether
/// baselines exist, and how many baselines are stale.
pub fn build_samples_table(rows: &[SampleCells], with_baselines: bool, stale: usize) -> (r: String)
    ensures
        r@ == samples_table_text(rows@, with_baselines, stale as nat),
{
    if rows.len() == 0 {
        return "(no samples recorded)".to_owned();
    }
    let mut out: Vec<char> = Vec::new();
    if stale > 0 {
        push_str(&mut out, "> ⚠️  **Baseline freshness warning:** ");
        push_dec_u64(&mut out, stale as u64);
        push_str(
            &mut out,
            " probe(s) have stale baselines (last updated >7 days ago). Interpret p95/ewma columns with caution.",
        );
        push_str(&mut out, "\n");
        push_str(&mut out, "\n");
    }
    if with_baselines {
        push_str(
            &mut out,
            "| probe | count | min | avg | max | last | p95 (30d) | ewma (7d) | unit |\n|---|---|---|---|---|---|---|---|---|\n",
        );
    } else {
        push_str(&mut out, "| probe | count | min | avg | max | last | unit |\n|---|---|---|---|---|---|---|\n");
    }
    let ghost h = out@;
    proof {
        assert(h =~= stale_warning_text(stale as nat) + samples_header_text(with_baselines));
    }
    let mut i: usize = 0;
    while i < rows.len()
        invariant
            i <= rows@.len(),
            out@ == h + cells_rows_text(rows@, with_baselines, i as int),
        decreases rows@.len() - i,
    {
        push_sample_row(&mut out, &rows[i], with_baselines);
        i = i + 1;
        proof {
            assert(out@ =~= h + cells_rows_text(rows@, with_baselines, i as int));
        }
    }
    proof {
        let full = out@;
        let last = cells_row_text(rows@[rows@.len() - 1], with_baselines);
        lemma_row_ends_with_bar(rows@[rows@.len() - 1], with_baselines);
        assert(full =~= h + cells_rows_text(rows@, with_baselines, rows@.len() - 1) + last);
        assert(last.last() == '\n');
        assert(last[last.len() - 2] == '|');
        assert(full.last() == '\n');
        assert(full[full.len() - 2] == '|');
        lemma_trim_one_newline(full);
    }
    out.pop();
    string_from_chars(&out)
}

} // verus!
