use sce_core::gates::{GateResult, GateSeverity, GateStatus};
use sce_core::reports::{
    escape_html, failed_gates_html, summary_html, trends_html, trends_snippet, TrendsAlert,
};

fn alert(level: &str, kind: Option<&str>, message: Option<&str>) -> TrendsAlert {
    TrendsAlert {
        level: Some(level.to_string()),
        alert_type: kind.map(|s| s.to_string()),
        message: message.map(|s| s.to_string()),
    }
}

#[test]
fn escape_html_replaces_all_five_metacharacters() {
    assert_eq!(
        escape_html("a<b> & \"c\" 'd'"),
        "a&lt;b&gt; &amp; &quot;c&quot; &#39;d&#39;"
    );
    assert_eq!(escape_html("&lt;"), "&amp;lt;");
    assert_eq!(escape_html("plain"), "plain");
}

#[test]
fn trends_snippet_keeps_last_five_scores_and_warn_alerts() {
    let entries = vec![Some(10), Some(20), None, Some(30), Some(40), Some(50), Some(60)];
    let alerts = vec![
        alert("WARN", Some("homogenization_risk"), Some("watch")),
        alert("INFO", Some("other"), Some("ignored")),
        alert("WARN", None, None),
    ];
    let snippet = trends_snippet(Some(3), Some(2), None, &entries, &alerts);
    assert_eq!(snippet.pass_count, 3);
    assert_eq!(snippet.warn_count, 2);
    assert_eq!(snippet.fail_count, 0);
    assert_eq!(snippet.last_five_drift_scores, vec![20, 30, 40, 50, 60]);
    assert_eq!(
        snippet.diversity_warn_alerts,
        vec!["homogenization_risk: watch".to_string(), "unknown: no message".to_string()]
    );
}

#[test]
fn trends_section_shows_counts_scores_and_alerts() {
    let entries = vec![Some(10), Some(20), Some(30), Some(40), Some(50), Some(60)];
    let alerts = vec![alert("WARN", Some("homogenization_risk"), Some("watch"))];
    let snippet = trends_snippet(Some(3), Some(2), Some(1), &entries, &alerts);
    let html = trends_html(&Some(snippet));
    assert!(html.contains("PASS/WARN/FAIL: 3/2/1"));
    assert!(html.contains("Last 5 drift scores: 20, 30, 40, 50, 60"));
    assert!(html.contains("<li>homogenization_risk: watch</li>"));
}

#[test]
fn trends_section_without_history_or_alerts() {
    let snippet = trends_snippet(None, None, None, &vec![], &vec![]);
    let html = trends_html(&Some(snippet));
    assert_eq!(
        html,
        "<section><h2>Trends</h2><p><span class=\"pill\">PASS/WARN/FAIL: 0/0/0</span></p>\
<p class=\"muted\">No drift score history available.</p>\
<p class=\"muted\">No diversity WARN alerts.</p></section>"
    );
    assert_eq!(
        trends_html(&None),
        "<section><h2>Trends</h2><p class=\"muted\">Trends unavailable</p></section>"
    );
}

#[test]
fn summary_section_shows_status_and_score() {
    let html = summary_html(GateStatus::Warn, 35);
    assert_eq!(
        html,
        "<section><h2>Summary</h2><p><span class=\"pill\">Gate status: WARN</span></p>\
<p><span class=\"pill\">Drift score: 35</span></p></section>"
    );
}

#[test]
fn failed_gates_section_lists_only_failures() {
    let gates = vec![
        GateResult {
            gate_name: "W001_StereoCorrelation".to_string(),
            severity: GateSeverity::Warn,
            pass_fail: false,
            evidence: serde_json::Value::Null,
            rationale: "stereo correlation is outside <corridor>".to_string(),
        },
        GateResult {
            gate_name: "G001_FormatSampleRate".to_string(),
            severity: GateSeverity::Blocker,
            pass_fail: true,
            evidence: serde_json::Value::Null,
            rationale: "ok".to_string(),
        },
    ];
    assert_eq!(
        failed_gates_html(&gates),
        "<section><h2>Failed Gates</h2><ul><li><strong>W001_StereoCorrelation</strong> [Warn] - \
stereo correlation is outside &lt;corridor&gt;</li></ul></section>"
    );
    assert_eq!(
        failed_gates_html(&gates[1..]),
        "<section><h2>Failed Gates</h2><p class=\"muted\">No failed gates.</p></section>"
    );
}
