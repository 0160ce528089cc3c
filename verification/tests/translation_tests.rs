use sce_core::gates::GateSeverity;
use sce_core::gates::GateStatus;
use sce_core::translation_matrix::{risk_total, top_failing_targets, worst_and_best, TargetRisk};

fn target(id: &str, gate_status: GateStatus, translation_risk: u32) -> TargetRisk {
    TargetRisk { target_id: id.to_string(), gate_status, translation_risk }
}

fn round6(x: f64) -> f64 {
    let y = (x * 1_000_000.0).round() / 1_000_000.0;
    if y == -0.0 { 0.0 } else { y }
}

#[test]
fn summary_uses_locked_top_failing_ordering() {
    let targets = vec![
        target("first-warn", GateStatus::Warn, 70),
        target("first-fail", GateStatus::Fail, 40),
        target("second-fail", GateStatus::Fail, 80),
        target("pass", GateStatus::Pass, 5),
        target("second-warn", GateStatus::Warn, 60),
    ];
    let (worst, best) = worst_and_best(&targets);
    assert_eq!(worst, "second-fail");
    assert_eq!(best, "pass");
    let (sum, n) = risk_total(&targets);
    assert_eq!(round6(sum as f64 / n as f64), round6(255.0 / 5.0));
    assert_eq!(
        top_failing_targets(&targets).iter().map(|t| t.target_id.as_str()).collect::<Vec<_>>(),
        vec!["second-fail", "first-fail", "first-warn"]
    );
}

#[test]
fn project_output_keeps_target_order_for_ties() {
    let targets = vec![target("first", GateStatus::Warn, 50), target("second", GateStatus::Warn, 50)];
    let (worst, best) = worst_and_best(&targets);
    assert_eq!(worst, "first");
    assert_eq!(best, "first");
    let top = top_failing_targets(&targets);
    assert_eq!(top[0].target_id, "first");
    assert_eq!(top[1].target_id, "second");
}

#[test]
fn empty_matrix_has_no_targets() {
    let (worst, best) = worst_and_best(&Vec::new());
    assert_eq!(worst, "");
    assert_eq!(best, "");
    assert!(top_failing_targets(&Vec::new()).is_empty());
    assert_eq!(risk_total(&Vec::new()), (0, 0));
}

fn sim_gate(severity: sce_core::gates::GateSeverity, pass: bool) -> sce_core::gates::GateResult {
    sce_core::gates::GateResult {
        gate_name: "g".to_string(),
        severity,
        pass_fail: pass,
        evidence: serde_json::Value::Null,
        rationale: "r".to_string(),
    }
}

#[test]
fn failed_gates_are_counted_by_severity() {
    let gates = vec![
        sim_gate(GateSeverity::Blocker, false),
        sim_gate(GateSeverity::Blocker, true),
        sim_gate(GateSeverity::Warn, false),
        sim_gate(GateSeverity::Warn, false),
        sim_gate(GateSeverity::Info, false),
    ];
    assert_eq!(sce_core::translation_sim::count_failed_gates(&gates), (1, 2));
    assert_eq!(sce_core::translation_sim::count_failed_gates(&[]), (0, 0));
}

#[test]
fn translation_risk_adds_penalties_and_caps_at_100() {
    assert_eq!(sce_core::translation_sim::translation_risk(35, 1, 2), 60);
    assert_eq!(sce_core::translation_sim::translation_risk(0, 0, 0), 0);
    assert_eq!(sce_core::translation_sim::translation_risk(90, 1, 0), 100);
    assert_eq!(sce_core::translation_sim::translation_risk(100, 0, 0), 100);
}

#[test]
fn target_notes_start_with_preset_and_mono_note() {
    let drift = vec!["drift note".to_string()];
    assert_eq!(
        sce_core::translation_matrix::target_notes("phone_mono", true, &drift),
        vec![
            "preset=phone_mono".to_string(),
            "mono target; stereo correlation and L/R balance are not applicable".to_string(),
            "drift note".to_string(),
        ]
    );
    assert_eq!(
        sce_core::translation_matrix::target_notes("club", false, &vec![]),
        vec!["preset=club".to_string()]
    );
}
