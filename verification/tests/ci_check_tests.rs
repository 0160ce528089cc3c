use sce_core::ci_check::{build_summary, evaluated_runs, exit_code, write_operator_output};
use sce_core::cll::{finished_instant, select_window, sort_valid_runs, ValidRun};
use sce_core::gates::{GateResult, GateSeverity, GateStatus};

const ROOT: &str = "/tmp/project";

fn gate(name: &str, pass: bool) -> GateResult {
    GateResult {
        gate_name: name.to_string(),
        severity: GateSeverity::Blocker,
        pass_fail: pass,
        evidence: serde_json::Value::Null,
        rationale: "blocker".to_string(),
    }
}

fn run(run_id: &str, finished_at: &str, gate_status: GateStatus, version: &str, hash: &str) -> ValidRun {
    let (secs, nanos) = finished_instant(finished_at).expect("instant");
    let blocker_fail = gate_status == GateStatus::Fail;
    ValidRun {
        run_id: run_id.to_string(),
        asset_id: "asset-a".to_string(),
        finished_at: finished_at.to_string(),
        finished_at_secs: secs,
        finished_at_nanos: nanos,
        gate_status,
        gates: vec![
            gate("G003_TruePeakCeiling", !blocker_fail),
            gate("G004_HardClipping", gate_status != GateStatus::Fail || run_id == "run-2"),
        ],
        drift_score: 10,
        drift_metric_ids: Vec::new(),
        asset_content_hash: format!("hash-{run_id}"),
        analyzer_version: "TelemetryAnalyzer/1.0.0".to_string(),
        metrics_analyzer_version: "TelemetryAnalyzer/1.0.0".to_string(),
        constitution_version: version.to_string(),
        constitution_hash: hash.to_string(),
        constitution_path: "/tmp/project/SCE/constitution.yaml".to_string(),
    }
}

#[test]
fn summary_uses_last_n_or_specific_run_selection() {
    let runs = vec![
        run("run-2", "2026-03-06T00:00:02.000Z", GateStatus::Warn, "v1.0", "hash-v1.0"),
        run("run-1", "2026-03-06T00:00:01.000Z", GateStatus::Pass, "v1.0", "hash-v1.0"),
    ];
    let windowed = build_summary(ROOT, &select_window(sort_valid_runs(runs), 1));
    assert_eq!(windowed.evaluated_runs.len(), 1);
    assert_eq!(windowed.evaluated_runs[0].run_id, "run-2");

    let explicit = build_summary(ROOT, &vec![run("run-1", "2026-03-06T00:00:01.000Z", GateStatus::Pass, "v1.0", "hash-v1.0")]);
    assert_eq!(explicit.evaluated_runs.len(), 1);
    assert_eq!(explicit.evaluated_runs[0].run_id, "run-1");
}

#[test]
fn worst_status_and_blocker_ordering_are_locked() {
    let runs = vec![
        run("run-1", "2026-03-06T00:00:01.000Z", GateStatus::Warn, "v1.0", "hash-v1.0"),
        run("run-2", "2026-03-06T00:00:02.000Z", GateStatus::Fail, "v1.0", "hash-v1.0"),
        run("run-3", "2026-03-06T00:00:03.000Z", GateStatus::Fail, "v1.0", "hash-v1.0"),
    ];
    let summary = build_summary(ROOT, &select_window(sort_valid_runs(runs), 25));
    assert_eq!(summary.schema_version, "1.0");
    assert_eq!(summary.worst_gate_status, GateStatus::Fail);
    assert_eq!(summary.counts.pass, 0);
    assert_eq!(summary.counts.warn, 1);
    assert_eq!(summary.counts.fail, 2);
    assert_eq!(summary.top_failed_blockers[0].gate_name, "G003_TruePeakCeiling");
    assert_eq!(summary.top_failed_blockers[0].count, 2);
    assert_eq!(summary.top_failed_blockers[1].gate_name, "G004_HardClipping");
    assert_eq!(exit_code(&summary), 2);
}

#[test]
fn json_out_and_operator_output_reuse_same_builder() {
    let runs = vec![run("run-1", "2026-03-06T00:00:01.000Z", GateStatus::Pass, "v1.0", "hash-v1.0")];
    let summary = build_summary(ROOT, &runs);
    let (operator_summary, operator_path) = write_operator_output(ROOT, &runs);
    assert_eq!(summary, operator_summary);
    assert_eq!(operator_path, "/tmp/project/SCE/operators/mixops_ci/latest.json");
    assert_eq!(exit_code(&summary), 0);
}

#[test]
fn constitution_is_only_reported_when_recoverable() {
    let runs = vec![
        run("run-1", "2026-03-06T00:00:01.000Z", GateStatus::Pass, "v1.0", "hash-v1.0"),
        run("run-2", "2026-03-06T00:00:02.000Z", GateStatus::Pass, "v1.1", "hash-v1.1"),
    ];
    let summary = build_summary(ROOT, &runs);
    assert!(summary.constitution.is_none());

    let shared = build_summary(ROOT, &vec![
        run("run-1", "2026-03-06T00:00:01.000Z", GateStatus::Pass, "v1.0", "hash-v1.0"),
        run("run-2", "2026-03-06T00:00:02.000Z", GateStatus::Warn, "v1.0", "hash-v1.0"),
    ]);
    assert_eq!(exit_code(&shared), 1);
    let c = shared.constitution.expect("shared constitution");
    assert_eq!(c.version, "v1.0");
    assert_eq!(c.hash, "hash-v1.0");
}

#[test]
fn evaluated_runs_prefer_the_named_run() {
    let named = run("run-9", "2026-03-06T00:00:09.000Z", GateStatus::Warn, "v1.0", "hash-v1.0");
    let valid = vec![run("run-1", "2026-03-06T00:00:01.000Z", GateStatus::Pass, "v1.0", "hash-v1.0")];
    let picked = evaluated_runs(Some(named), valid, 25);
    assert_eq!(picked.len(), 1);
    assert_eq!(picked[0].run_id, "run-9");
    let valid = vec![
        run("run-1", "2026-03-06T00:00:01.000Z", GateStatus::Pass, "v1.0", "hash-v1.0"),
        run("run-2", "2026-03-06T00:00:02.000Z", GateStatus::Fail, "v1.0", "hash-v1.0"),
    ];
    let picked = evaluated_runs(None, valid, 1);
    assert_eq!(picked.len(), 1);
    assert_eq!(picked[0].run_id, "run-2");
    let (summary, _) = write_operator_output(ROOT, &picked);
    assert_eq!(summary, build_summary(ROOT, &picked));
    assert_eq!(summary.counts.pass + summary.counts.warn + summary.counts.fail, picked.len());
}
