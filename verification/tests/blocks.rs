use russell::doctor::model::correct_model_in_env;
use russell::meta::prompt_builders::{build_samples_table, SampleCells};
use russell::meta::symptoms::symptom_overlap;

fn cells(probe: &str, count: i64, unit: &str, p95: &str, ewma: &str) -> SampleCells {
    SampleCells {
        probe: probe.into(),
        count,
        min: "1.00".into(),
        avg: "2.50".into(),
        max: "4.00".into(),
        last: "3.00".into(),
        p95: p95.into(),
        ewma: ewma.into(),
        unit: unit.into(),
    }
}

#[test]
fn samples_table_without_rows_says_so() {
    assert_eq!(build_samples_table(&[], true, 3), "(no samples recorded)");
}

#[test]
fn samples_table_without_baselines_has_seven_columns() {
    let t = build_samples_table(&[cells("mem_avail_pct", 12, "%", "—", "—")], false, 0);
    assert_eq!(
        t,
        "| probe | count | min | avg | max | last | unit |\n|---|---|---|---|---|---|---|\n\
         | mem_avail_pct | 12 | 1.00 | 2.50 | 4.00 | 3.00 | % |"
    );
}

#[test]
fn samples_table_with_stale_baselines_warns_first() {
    let rows = [cells("loadavg_1m", 3, "", "0.90", "—"), cells("swap_used_pct", 1, "%", "—", "4.20")];
    let t = build_samples_table(&rows, true, 2);
    assert_eq!(
        t,
        "> ⚠️  **Baseline freshness warning:** 2 probe(s) have stale baselines (last updated >7 days ago). \
         Interpret p95/ewma columns with caution.\n\n\
         | probe | count | min | avg | max | last | p95 (30d) | ewma (7d) | unit |\n\
         |---|---|---|---|---|---|---|---|---|\n\
         | loadavg_1m | 3 | 1.00 | 2.50 | 4.00 | 3.00 | 0.90 | — |  |\n\
         | swap_used_pct | 1 | 1.00 | 2.50 | 4.00 | 3.00 | — | 4.20 | % |"
    );
}

#[test]
fn env_correction_replaces_the_first_matching_line_only() {
    let text = "# russell\nRUSSELL_DOCTOR_MODEL=\"nemotron3super\"\nOTHER=1\nRUSSELL_DOCTOR_MODEL=nemotron3super";
    let (out, found) = correct_model_in_env(text, "nemotron3super", "nemotron-3-super:cloud");
    assert!(found);
    assert_eq!(
        out,
        "# russell\nRUSSELL_DOCTOR_MODEL=nemotron-3-super:cloud\nOTHER=1\nRUSSELL_DOCTOR_MODEL=nemotron3super\n"
    );
}

#[test]
fn env_correction_leaves_other_values_alone() {
    let text = "  RUSSELL_DOCTOR_MODEL = other-model \r\nnot an assignment\n\n";
    let (out, found) = correct_model_in_env(text, "nemotron3super", "x");
    assert!(!found);
    assert_eq!(out, "  RUSSELL_DOCTOR_MODEL = other-model \nnot an assignment\n\n");
    let (out, found) = correct_model_in_env("", "a", "b");
    assert!(!found);
    assert_eq!(out, "");
}

fn strings(v: &[&str]) -> Vec<String> {
    v.iter().map(|s| s.to_string()).collect()
}

#[test]
fn knowledge_overlap_counts_matching_skill_symptoms() {
    // Exact match of `llm_slow`; nothing matches `gpu_fallback_to_cpu`.
    assert_eq!(symptom_overlap(&strings(&["llm_slow", "gpu_fallback_to_cpu"]), &strings(&["llm_slow", "swap_pressure"])), 1);
    // `vram_oom` contains `vram`.
    assert_eq!(symptom_overlap(&strings(&["vram_oom"]), &strings(&["vram", "gpu"])), 1);
    // A keyword of three bytes or more occurring in an active symptom.
    assert_eq!(symptom_overlap(&strings(&["disk_full"]), &strings(&["root_disk_used_pct"])), 1);
    // Two-byte pieces do not count.
    assert_eq!(symptom_overlap(&strings(&["io_wait"]), &strings(&["cpu_io"])), 0);
    assert_eq!(symptom_overlap(&strings(&["llm_slow"]), &[]), 0);
}
