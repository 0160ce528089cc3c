use sce_core::analyzer::analyze_stub;
use sce_core::diversity::{
    alert_count, count_flags, diversity_window, evaluate_stereo_feature, insufficient_history, missing_counts,
    span_from_runs, window_spans, DiversityAlertLevel, DiversityRunInput,
};

fn run(id: &str, at: &str) -> DiversityRunInput {
    DiversityRunInput {
        run_id: id.to_string(),
        finished_at: at.to_string(),
        drift_score: 0,
        metrics: analyze_stub("/x.wav", "TelemetryAnalyzer/1.0.0"),
    }
}

#[test]
fn window_is_at_most_ten_with_majority_rounded_up() {
    assert_eq!(diversity_window(0), (0, 0));
    assert_eq!(diversity_window(3), (3, 2));
    assert_eq!(diversity_window(4), (4, 2));
    assert_eq!(diversity_window(25), (10, 5));
    assert!(insufficient_history(4, 4));
    assert!(!insufficient_history(12, 10));
}

#[test]
fn spans_cover_first_and_last_runs_of_each_window() {
    let runs: Vec<DiversityRunInput> = (0..12).map(|i| run(&format!("r{i}"), &format!("t{i:02}"))).collect();
    let (baseline, recent) = window_spans(&runs, 10);
    let b = baseline.expect("baseline");
    let r = recent.expect("recent");
    assert_eq!((b.min.as_str(), b.max.as_str()), ("t00", "t09"));
    assert_eq!((r.min.as_str(), r.max.as_str()), ("t02", "t11"));
    assert!(span_from_runs(&runs[0..0]).is_none());
    let (b, r) = window_spans(&runs, 0);
    assert!(b.is_none() && r.is_none());
}

#[test]
fn stereo_features_need_a_majority_in_both_windows() {
    let e = evaluate_stereo_feature("stereo.correlation_mean", 3, 3, 5, 3);
    assert!(e.counted);
    assert!(e.exclusion_reason.is_none());
    let e = evaluate_stereo_feature("stereo.lr_balance_db", 1, 4, 5, 3);
    assert!(!e.counted);
    assert_eq!(e.exclusion_reason.as_deref(), Some("not present in majority of baseline window"));
    let e = evaluate_stereo_feature("stereo.lr_balance_db", 1, 1, 5, 3);
    assert_eq!(e.exclusion_reason.as_deref(), Some("not present in majority of baseline and recent windows"));
    let e = evaluate_stereo_feature("stereo.lr_balance_db", 4, 0, 5, 3);
    assert_eq!(e.exclusion_reason.as_deref(), Some("not present in majority of recent window"));
    let e = evaluate_stereo_feature("stereo.lr_balance_db", 0, 0, 0, 0);
    assert_eq!(e.exclusion_reason.as_deref(), Some("insufficient runs for stereo feature applicability"));
}

#[test]
fn missing_and_alert_counts() {
    let m = missing_counts(&vec![true, false], &vec![false, false], &vec![true, false, false]);
    assert_eq!((m.baseline_missing, m.recent_missing, m.total_missing), (1, 2, 2));
    assert_eq!(count_flags(&vec![true, true, false], true), 2);
    let levels = vec![DiversityAlertLevel::Info, DiversityAlertLevel::Warn, DiversityAlertLevel::Info];
    assert_eq!(alert_count(&levels, DiversityAlertLevel::Info), 2);
    assert_eq!(alert_count(&levels, DiversityAlertLevel::Warn), 1);
}

#[test]
fn history_verdict_follows_the_selected_count() {
    use_verdicts();
}

fn use_verdicts() {
    assert_eq!(sce_core::diversity::history_verdict(0), sce_core::diversity::HistoryVerdict::NoRuns);
    assert_eq!(
        sce_core::diversity::history_verdict(2),
        sce_core::diversity::HistoryVerdict::Insufficient(sce_core::diversity::InsufficientHistoryAlert {
            selected_run_count: 2,
            m_used: 2,
            minimum_required: 5,
        })
    );
    assert_eq!(sce_core::diversity::history_verdict(5), sce_core::diversity::HistoryVerdict::Enough);
    assert_eq!(sce_core::diversity::history_verdict(40), sce_core::diversity::HistoryVerdict::Enough);
}
