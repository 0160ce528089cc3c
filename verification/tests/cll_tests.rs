use sce_core::cll::{
    build_drift_trends, build_gate_trends, drift_score_series, finished_instant, project_trends, select_window,
    sort_valid_runs, trends_from_outcomes, found_run, DataGapWarning, ValidRun,
};
use sce_core::gates::GateStatus;

fn run(asset_id: &str, run_id: &str, finished_at: &str, gate_status: GateStatus, drift_score: u32) -> ValidRun {
    let (secs, nanos) = finished_instant(finished_at).expect("instant");
    ValidRun {
        run_id: run_id.to_string(),
        asset_id: asset_id.to_string(),
        finished_at: finished_at.to_string(),
        finished_at_secs: secs,
        finished_at_nanos: nanos,
        gate_status,
        gates: Vec::new(),
        drift_score,
        drift_metric_ids: vec!["loudness.integrated_lufs".to_string()],
        asset_content_hash: format!("hash-{run_id}"),
        analyzer_version: "TelemetryAnalyzer/1.0.0".to_string(),
        metrics_analyzer_version: "TelemetryAnalyzer/1.0.0".to_string(),
        constitution_version: "v1.0".to_string(),
        constitution_hash: "hash-v1.0".to_string(),
        constitution_path: "/tmp/project/SCE/constitution.yaml".to_string(),
    }
}

#[test]
fn trends_file_contains_expected_gate_counts_and_sorted_series() {
    let runs = vec![
        run("asset-1", "run-b", "2026-03-06T00:00:10.000Z", GateStatus::Pass, 12),
        run("asset-2", "run-a", "2026-03-06T00:00:10.000Z", GateStatus::Warn, 18),
        run("asset-3", "run-c", "2026-03-06T00:00:11.000Z", GateStatus::Fail, 36),
    ];
    let selected = select_window(sort_valid_runs(runs), 25);
    let trends = build_gate_trends(&selected);
    assert_eq!(trends.counts.pass, 1);
    assert_eq!(trends.counts.warn, 1);
    assert_eq!(trends.counts.fail, 1);

    let series = drift_score_series(&selected);
    assert_eq!(series[0].run_id, "run-a");
    assert_eq!(series[1].run_id, "run-b");
    assert_eq!(series[2].run_id, "run-c");
}

#[test]
fn last_n_zero_selects_full_history() {
    let runs = vec![
        run("a", "run-1", "2026-03-06T00:00:01.000Z", GateStatus::Pass, 1),
        run("a", "run-2", "2026-03-06T00:00:02.000Z", GateStatus::Pass, 2),
        run("a", "run-3", "2026-03-06T00:00:03.000Z", GateStatus::Pass, 3),
    ];
    let all = select_window(sort_valid_runs(runs), 0);
    assert_eq!(all.len(), 3);
    let runs = vec![
        run("a", "run-1", "2026-03-06T00:00:01.000Z", GateStatus::Pass, 1),
        run("a", "run-2", "2026-03-06T00:00:02.000Z", GateStatus::Pass, 2),
        run("a", "run-3", "2026-03-06T00:00:03.000Z", GateStatus::Pass, 3),
    ];
    let last_two = select_window(sort_valid_runs(runs), 2);
    assert_eq!(last_two.len(), 2);
    assert_eq!(last_two[0].run_id, "run-2");
}

#[test]
fn finished_instant_reads_rfc3339() {
    assert_eq!(finished_instant("1970-01-01T00:00:01.500Z"), Some((1, 500_000_000)));
    assert_eq!(finished_instant("not a time"), None);
}

#[test]
fn drift_trends_rank_recurring_metrics() {
    let mut first = run("a", "run-1", "2026-03-06T00:00:01.000Z", GateStatus::Pass, 5);
    first.drift_metric_ids.push("stereo.correlation_min".to_string());
    let second = run("a", "run-2", "2026-03-06T00:00:02.000Z", GateStatus::Warn, 7);
    let runs = vec![first, second];
    let trends = build_drift_trends(&runs);
    assert_eq!(trends.drift_score_series.len(), 2);
    assert_eq!(trends.drift_score_series[1].drift_score, 7);
    assert_eq!(trends.top_recurring_deltas[0].metric_id, "loudness.integrated_lufs");
    assert_eq!(trends.top_recurring_deltas[0].count, 2);
    assert_eq!(trends.top_recurring_deltas[1].metric_id, "stereo.correlation_min");
    assert_eq!(trends.top_recurring_deltas[1].count, 1);
}

#[test]
fn empty_selection_gives_empty_trends_with_note() {
    let trends = project_trends("/tmp/project", "2026-03-06T00:00:00.000Z", 25, &vec![], 0, 0, vec![]);
    assert_eq!(trends.meta.window.selected_run_count, 0);
    assert_eq!(trends.gate_trends.counts.pass, 0);
    assert!(trends.drift_trends.drift_score_series.is_empty());
    assert!(trends.flags.notes.iter().any(|n| n == "no valid runs found"));
    assert!(trends.flags.data_gaps);
}

#[test]
fn invalid_runs_are_skipped_and_flagged() {
    let runs = vec![
        run("asset-a", "run-1", "2026-03-06T00:00:01.000Z", GateStatus::Pass, 8),
        run("asset-a", "run-2", "2026-03-06T00:00:02.000Z", GateStatus::Pass, 9),
    ];
    let selected = select_window(sort_valid_runs(runs), 0);
    let gap = DataGapWarning {
        run_id: "run-bad".to_string(),
        asset_id: Some("asset-x".to_string()),
        kind: None,
        detail: "gates.json meta.run_id mismatch".to_string(),
    };
    let trends = project_trends("/tmp/project", "2026-03-06T00:00:04.000Z", 0, &selected, 2, 3, vec![gap]);
    assert_eq!(trends.meta.window.selected_run_count, 2);
    assert_eq!(trends.meta.window.valid_runs, 2);
    assert_eq!(trends.flags.skipped_runs, 1);
    assert!(trends.flags.data_gaps);
    assert!(trends.flags.notes.is_empty());
}

#[test]
fn trends_from_outcomes_counts_valid_and_skipped_runs() {
    let bad = DataGapWarning {
        run_id: "run-bad".to_string(),
        asset_id: Some("asset-x".to_string()),
        kind: None,
        detail: "gates.json meta.run_id mismatch".to_string(),
    };
    let outcomes = vec![
        Ok(run("asset-a", "run-2", "2026-03-06T00:00:02.000Z", GateStatus::Pass, 9)),
        Err(bad),
        Ok(run("asset-a", "run-1", "2026-03-06T00:00:01.000Z", GateStatus::Pass, 8)),
    ];
    let t = trends_from_outcomes("/tmp/project", "2026-03-06T00:00:04.000Z", 0, outcomes).expect("trends");
    assert_eq!(t.meta.window.selected_run_count, 2);
    assert_eq!(t.meta.window.valid_runs, 2);
    assert_eq!(t.meta.window.discovered_runs, 3);
    assert_eq!(t.flags.skipped_runs, 1);
    assert!(t.flags.data_gaps);
    assert_eq!(t.flags.data_gap_warnings[0].run_id, "run-bad");
    assert_eq!(t.drift_trends.drift_score_series[0].run_id, "run-1");
    assert_eq!(t.drift_trends.drift_score_series[1].run_id, "run-2");
}

fn determinism_outcomes() -> Vec<Result<ValidRun, DataGapWarning>> {
    (0..5)
        .map(|idx| {
            let status = if idx % 2 == 0 { GateStatus::Pass } else { GateStatus::Warn };
            Ok(run("asset-det", &format!("run-{idx:02}"), &format!("2026-03-06T00:03:{idx:02}.000Z"), status, 15))
        })
        .collect()
}

#[test]
fn determinism_differs_only_on_generated_at() {
    let mut first = trends_from_outcomes("/tmp/project", "2026-03-06T01:00:00.000Z", 0, determinism_outcomes())
        .expect("first generate");
    let mut second = trends_from_outcomes("/tmp/project", "2026-03-06T02:00:00.000Z", 0, determinism_outcomes())
        .expect("second generate");
    assert_ne!(first.meta.generated_at, second.meta.generated_at);
    first.meta.generated_at = "normalized".to_string();
    second.meta.generated_at = "normalized".to_string();
    assert_eq!(format!("{first:?}"), format!("{second:?}"));
}

#[test]
fn unknown_run_id_is_reported() {
    let missing: Option<u32> = None;
    let err = found_run(missing, "run-x").expect_err("unknown run");
    assert_eq!(err.message(), "run not found: run-x");
    assert_eq!(found_run(Some(7u32), "run-x").expect("found"), 7);
}
