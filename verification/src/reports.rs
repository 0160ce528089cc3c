//! The provenance block written at the head of every run artifact, and the
//! HTML sections of a run report that are built from plain values.
use vstd::prelude::*;
use crate::gates::{GateResult, GateSeverity, GateStatus};
use crate::text::{decimal, decimal_string, str_eq, to_owned_string};

verus! {

/// Which project, asset, run, constitution and analyzer an artifact belongs
/// to, and when the run was created, started and finished.
#[derive(Debug, Clone)]
pub struct ReportMeta {
    pub project_id: String,
    pub asset_id: String,
    pub run_id: String,
    pub asset_content_hash: String,
    pub constitution_version: String,
    pub constitution_hash: String,
    pub constitution_path: String,
    pub analyzer_version: String,
    pub created_at: String,
    pub started_at: String,
    pub finished_at: String,
}

/// The HTML text that stands for one character.
pub open spec fn html_char(c: char) -> Seq<char> {
    if c == '&' {
        "&amp;"@
    } else if c == '<' {
        "&lt;"@
    } else if c == '>' {
        "&gt;"@
    } else if c == '"' {
        "&quot;"@
    } else if c == '\'' {
        "&#39;"@
    } else {
        seq![c]
    }
}

/// `s` with the five HTML metacharacters replaced by their entities.
pub open spec fn spec_escape_html(s: Seq<char>) -> Seq<char>
    decreases s.len(),
{
    if s.len() == 0 {
        Seq::empty()
    } else {
        spec_escape_html(s.drop_last()) + html_char(s.last())
    }
}

/// Escapes `&`, `<`, `>`, `"` and `'` for HTML text and attribute values.
pub fn escape_html(input: &str) -> (out: String)
    ensures
        out@ == spec_escape_html(input@),
{
    let cs = crate::text::chars_of(input);
    let mut out = String::new();
    let mut i: usize = 0;
    while i < cs.len()
        invariant
            i <= cs@.len(),
            cs@ == input@,
            out@ == spec_escape_html(cs@.take(i as int)),
        decreases cs@.len() - i,
    {
        let c = cs[i];
        if c == '&' {
            out.append("&amp;");
        } else if c == '<' {
            out.append("&lt;");
        } else if c == '>' {
            out.append("&gt;");
        } else if c == '"' {
            out.append("&quot;");
        } else if c == '\'' {
            out.append("&#39;");
        } else {
            crate::text::push_char(&mut out, c);
        }
        proof {
            assert(cs@.take(i + 1).drop_last() =~= cs@.take(i as int));
            assert(out@ =~= spec_escape_html(cs@.take(i as int)) + html_char(c));
        }
        i += 1;
    }
    assert(cs@.take(cs@.len() as int) =~= cs@);
    out
}

/// What the report's trends section shows of the project's trends file.
#[derive(Debug, Clone)]
pub struct TrendsSnippet {
    pub pass_count: u64,
    pub warn_count: u64,
    pub fail_count: u64,
    pub last_five_drift_scores: Vec<u32>,
    pub diversity_warn_alerts: Vec<String>,
}

/// One diversity alert as the trends file records it; a field is `None`
/// where the file has no string there.
#[derive(Debug, Clone)]
pub struct TrendsAlert {
    pub level: Option<String>,
    pub alert_type: Option<String>,
    pub message: Option<String>,
}

/// The scores of the entries that carry one, each taken as a `u32`.
pub open spec fn present_scores(entries: Seq<Option<u64>>) -> Seq<u32>
    decreases entries.len(),
{
    if entries.len() == 0 {
        Seq::empty()
    } else {
        let rest = present_scores(entries.drop_last());
        match entries.last() {
            Some(v) => rest.push(v as u32),
            None => rest,
        }
    }
}

/// The last five of `s`, or all of it when it is shorter.
pub open spec fn last_five(s: Seq<u32>) -> Seq<u32> {
    if s.len() > 5 {
        s.subrange(s.len() - 5, s.len() as int)
    } else {
        s
    }
}

/// `a` where it is present, else `fallback`.
pub open spec fn or_text(a: Option<String>, fallback: Seq<char>) -> Seq<char> {
    match a {
        Some(s) => s@,
        None => fallback,
    }
}

/// The line shown for a WARN alert: its type and its message.
pub open spec fn alert_line(a: TrendsAlert) -> Seq<char> {
    or_text(a.alert_type, "unknown"@) + ": "@ + or_text(a.message, "no message"@)
}

/// An alert whose level is `WARN`.
pub open spec fn is_warn_alert(a: TrendsAlert) -> bool {
    match a.level {
        Some(l) => l@ == "WARN"@,
        None => false,
    }
}

/// The lines of the WARN alerts, in order.
pub open spec fn warn_lines(alerts: Seq<TrendsAlert>) -> Seq<Seq<char>>
    decreases alerts.len(),
{
    if alerts.len() == 0 {
        Seq::empty()
    } else {
        let rest = warn_lines(alerts.drop_last());
        if is_warn_alert(alerts.last()) {
            rest.push(alert_line(alerts.last()))
        } else {
            rest
        }
    }
}

fn text_or(a: &Option<String>, fallback: &str) -> (out: String)
    ensures
        out@ == or_text(*a, fallback@),
{
    match a {
        Some(s) => s.clone(),
        None => to_owned_string(fallback),
    }
}

/// The trends snippet for the recorded gate counts (0 where absent), the
/// drift score of each series entry (skipped where absent), and the
/// diversity alerts.
pub fn trends_snippet(
    pass: Option<u64>,
    warn: Option<u64>,
    fail: Option<u64>,
    drift_entries: &Vec<Option<u64>>,
    alerts: &Vec<TrendsAlert>,
) -> (out: TrendsSnippet)
    ensures
        out.pass_count == (match pass { Some(v) => v, None => 0 }),
        out.warn_count == (match warn { Some(v) => v, None => 0 }),
        out.fail_count == (match fail { Some(v) => v, None => 0 }),
        out.last_five_drift_scores@ == last_five(present_scores(drift_entries@)),
        out.diversity_warn_alerts@.map_values(|s: String| s@) == warn_lines(alerts@),
{
    let mut scores: Vec<u32> = Vec::new();
    let mut i: usize = 0;
    while i < drift_entries.len()
        invariant
            i <= drift_entries@.len(),
            scores@ == present_scores(drift_entries@.take(i as int)),
        decreases drift_entries@.len() - i,
    {
        proof {
            assert(drift_entries@.take(i + 1).drop_last() =~= drift_entries@.take(i as int));
        }
        match drift_entries[i] {
            Some(v) => {
                scores.push(v as u32);
            },
            None => {},
        }
        i += 1;
    }
    assert(drift_entries@.take(drift_entries@.len() as int) =~= drift_entries@);
    let mut last: Vec<u32> = Vec::new();
    let start: usize = if scores.len() > 5 { scores.len() - 5 } else { 0 };
    let mut k: usize = start;
    while k < scores.len()
        invariant
            start <= k <= scores@.len(),
            last@ == scores@.subrange(start as int, k as int),
        decreases scores@.len() - k,
    {
        last.push(scores[k]);
        proof {
            assert(last@ =~= scores@.subrange(start as int, k + 1));
        }
        k += 1;
    }
    assert(last@ =~= last_five(scores@));
    let mut lines: Vec<String> = Vec::new();
    let mut j: usize = 0;
    while j < alerts.len()
        invariant
            j <= alerts@.len(),
            lines@.map_values(|s: String| s@) == warn_lines(alerts@.take(j as int)),
        decreases alerts@.len() - j,
    {
        proof {
            assert(alerts@.take(j + 1).drop_last() =~= alerts@.take(j as int));
        }
        let a = &alerts[j];
        let is_warn = match &a.level {
            Some(l) => str_eq(l.as_str(), "WARN"),
            None => false,
        };
        if is_warn {
            let mut line = text_or(&a.alert_type, "unknown");
            line.append(": ");
            let msg = text_or(&a.message, "no message");
            line.append(msg.as_str());
            let ghost before = lines@.map_values(|s: String| s@);
            lines.push(line);
            proof {
                assert(lines@.map_values(|s: String| s@) =~= before.push(alert_line(alerts@[j as int])));
            }
        }
        j += 1;
    }
    assert(alerts@.take(alerts@.len() as int) =~= alerts@);
    let pass_count: u64 = match pass { Some(v) => v, None => 0 };
    let warn_count: u64 = match warn { Some(v) => v, None => 0 };
    let fail_count: u64 = match fail { Some(v) => v, None => 0 };
    TrendsSnippet {
        pass_count,
        warn_count,
        fail_count,
        last_five_drift_scores: last,
        diversity_warn_alerts: lines,
    }
}


/// The scores written in decimal and joined by `", "`.
pub open spec fn joined_scores(s: Seq<u32>) -> Seq<char>
    decreases s.len(),
{
    if s.len() == 0 {
        Seq::empty()
    } else if s.len() == 1 {
        decimal(s[0] as nat)
    } else {
        joined_scores(s.drop_last()) + ", "@ + decimal(s.last() as nat)
    }
}

/// A gate status as the report JSON spells it.
pub open spec fn status_word(s: GateStatus) -> Seq<char> {
    match s {
        GateStatus::Fail => "FAIL"@,
        GateStatus::Warn => "WARN"@,
        GateStatus::Pass => "PASS"@,
    }
}

/// A severity as its debug form spells it.
pub open spec fn severity_word(s: GateSeverity) -> Seq<char> {
    match s {
        GateSeverity::Blocker => "Blocker"@,
        GateSeverity::Warn => "Warn"@,
        GateSeverity::Info => "Info"@,
    }
}

/// The summary section: gate status and drift score.
pub open spec fn spec_summary_html(status: GateStatus, drift_score: u64) -> Seq<char> {
    "<section><h2>Summary</h2><p><span class=\"pill\">Gate status: "@ + spec_escape_html(status_word(status))
        + "</span></p><p><span class=\"pill\">Drift score: "@ + decimal(drift_score as nat)
        + "</span></p></section>"@
}

/// One list item per failed gate, in order.
pub open spec fn failed_items(gates: Seq<GateResult>) -> Seq<char>
    decreases gates.len(),
{
    if gates.len() == 0 {
        Seq::empty()
    } else {
        let g = gates.last();
        failed_items(gates.drop_last()) + if g.pass_fail {
            Seq::empty()
        } else {
            "<li><strong>"@ + spec_escape_html(g.gate_name@) + "</strong> ["@ + spec_escape_html(
                severity_word(g.severity),
            ) + "] - "@ + spec_escape_html(g.rationale@) + "</li>"@
        }
    }
}

/// The failed-gates section.
pub open spec fn spec_failed_gates_html(gates: Seq<GateResult>) -> Seq<char> {
    "<section><h2>Failed Gates</h2>"@ + (if forall|i: int| 0 <= i < gates.len() ==> #[trigger] gates[i].pass_fail {
        "<p class=\"muted\">No failed gates.</p>"@
    } else {
        "<ul>"@ + failed_items(gates) + "</ul>"@
    }) + "</section>"@
}

/// One list item per alert line, in order.
pub open spec fn alert_items(lines: Seq<Seq<char>>) -> Seq<char>
    decreases lines.len(),
{
    if lines.len() == 0 {
        Seq::empty()
    } else {
        alert_items(lines.drop_last()) + "<li>"@ + spec_escape_html(lines.last()) + "</li>"@
    }
}

/// The body of the trends section for a snippet.
pub open spec fn snippet_html(t: TrendsSnippet) -> Seq<char> {
    let lines = t.diversity_warn_alerts@.map_values(|s: String| s@);
    "<p><span class=\"pill\">PASS/WARN/FAIL: "@ + decimal(t.pass_count as nat) + "/"@ + decimal(
        t.warn_count as nat,
    ) + "/"@ + decimal(t.fail_count as nat) + "</span></p>"@ + (if t.last_five_drift_scores@.len() == 0 {
        "<p class=\"muted\">No drift score history available.</p>"@
    } else {
        "<p>Last 5 drift scores: "@ + spec_escape_html(joined_scores(t.last_five_drift_scores@))
            + "</p>"@
    }) + (if lines.len() == 0 {
        "<p class=\"muted\">No diversity WARN alerts.</p>"@
    } else {
        "<ul>"@ + alert_items(lines) + "</ul>"@
    })
}

/// The trends section, or its placeholder when no trends were found.
pub open spec fn spec_trends_html(trends: Option<TrendsSnippet>) -> Seq<char> {
    "<section><h2>Trends</h2>"@ + match trends {
        Some(t) => snippet_html(t),
        None => "<p class=\"muted\">Trends unavailable</p>"@,
    } + "</section>"@
}

fn status_text(s: GateStatus) -> (out: &'static str)
    ensures
        out@ == status_word(s),
{
    match s {
        GateStatus::Fail => "FAIL",
        GateStatus::Warn => "WARN",
        GateStatus::Pass => "PASS",
    }
}

fn severity_text(s: GateSeverity) -> (out: &'static str)
    ensures
        out@ == severity_word(s),
{
    match s {
        GateSeverity::Blocker => "Blocker",
        GateSeverity::Warn => "Warn",
        GateSeverity::Info => "Info",
    }
}

/// The report's summary section.
pub fn summary_html(status: GateStatus, drift_score: u64) -> (out: String)
    ensures
        out@ == spec_summary_html(status, drift_score),
{
    let mut out = to_owned_string("<section><h2>Summary</h2><p><span class=\"pill\">Gate status: ");
    let st = escape_html(status_text(status));
    out.append(st.as_str());
    out.append("</span></p><p><span class=\"pill\">Drift score: ");
    let d = decimal_string(drift_score);
    out.append(d.as_str());
    out.append("</span></p></section>");
    out
}

/// The report's failed-gates section: each gate that did not pass, with its
/// severity and rationale, or a note that none failed.
pub fn failed_gates_html(gates: &[GateResult]) -> (out: String)
    ensures
        out@ == spec_failed_gates_html(gates@),
{
    let mut items = String::new();
    let mut all_pass = true;
    let mut i: usize = 0;
    while i < gates.len()
        invariant
            i <= gates@.len(),
            items@ == failed_items(gates@.take(i as int)),
            all_pass == forall|k: int| 0 <= k < i ==> #[trigger] gates@[k].pass_fail,
        decreases gates@.len() - i,
    {
        let g = &gates[i];
        let ghost before = items@;
        if !g.pass_fail {
            all_pass = false;
            items.append("<li><strong>");
            let name = escape_html(g.gate_name.as_str());
            items.append(name.as_str());
            items.append("</strong> [");
            let sev = escape_html(severity_text(g.severity));
            items.append(sev.as_str());
            items.append("] - ");
            let why = escape_html(g.rationale.as_str());
            items.append(why.as_str());
            items.append("</li>");
        }
        proof {
            let t = gates@.take(i + 1);
            assert(t.drop_last() =~= gates@.take(i as int));
            assert(t.last() == gates@[i as int]);
            assert(items@ =~= failed_items(t));
        }
        i += 1;
    }
    assert(gates@.take(gates@.len() as int) =~= gates@);
    let mut out = to_owned_string("<section><h2>Failed Gates</h2>");
    if all_pass {
        out.append("<p class=\"muted\">No failed gates.</p>");
    } else {
        out.append("<ul>");
        out.append(items.as_str());
        out.append("</ul>");
    }
    out.append("</section>");
    out
}

fn joined_scores_string(s: &Vec<u32>) -> (out: String)
    ensures
        out@ == joined_scores(s@),
{
    let mut out = String::new();
    let mut i: usize = 0;
    while i < s.len()
        invariant
            i <= s@.len(),
            out@ == joined_scores(s@.take(i as int)),
        decreases s@.len() - i,
    {
        let t = Ghost(s@.take(i + 1));
        proof {
            assert(t@.drop_last() =~= s@.take(i as int));
        }
        if i > 0 {
            out.append(", ");
        }
        let d = decimal_string(s[i] as u64);
        out.append(d.as_str());
        proof {
            assert(out@ =~= joined_scores(t@));
        }
        i += 1;
    }
    assert(s@.take(s@.len() as int) =~= s@);
    out
}

/// The report's trends section: gate counts, the last drift scores and the
/// diversity WARN alerts, or a note that no trends were found.
pub fn trends_html(trends: &Option<TrendsSnippet>) -> (out: String)
    ensures
        out@ == spec_trends_html(*trends),
{
    let mut out = to_owned_string("<section><h2>Trends</h2>");
    match trends {
        Some(t) => {
            out.append("<p><span class=\"pill\">PASS/WARN/FAIL: ");
            let p = decimal_string(t.pass_count);
            out.append(p.as_str());
            out.append("/");
            let w = decimal_string(t.warn_count);
            out.append(w.as_str());
            out.append("/");
            let f = decimal_string(t.fail_count);
            out.append(f.as_str());
            out.append("</span></p>");
            if t.last_five_drift_scores.len() == 0 {
                out.append("<p class=\"muted\">No drift score history available.</p>");
            } else {
                out.append("<p>Last 5 drift scores: ");
                let joined = joined_scores_string(&t.last_five_drift_scores);
                let esc = escape_html(joined.as_str());
                out.append(esc.as_str());
                out.append("</p>");
            }
            let ghost lines = t.diversity_warn_alerts@.map_values(|s: String| s@);
            if t.diversity_warn_alerts.len() == 0 {
                out.append("<p class=\"muted\">No diversity WARN alerts.</p>");
            } else {
                out.append("<ul>");
                let ghost head = out@;
                let mut i: usize = 0;
                while i < t.diversity_warn_alerts.len()
                    invariant
                        i <= lines.len(),
                        lines == t.diversity_warn_alerts@.map_values(|s: String| s@),
                        out@ == head + alert_items(lines.take(i as int)),
                    decreases lines.len() - i,
                {
                    out.append("<li>");
                    let esc = escape_html(t.diversity_warn_alerts[i].as_str());
                    out.append(esc.as_str());
                    out.append("</li>");
                    proof {
                        let tk = lines.take(i + 1);
                        assert(tk.drop_last() =~= lines.take(i as int));
                        assert(tk.last() == t.diversity_warn_alerts@[i as int]@);
                        assert(out@ =~= head + alert_items(tk));
                    }
                    i += 1;
                }
                assert(lines.take(lines.len() as int) =~= lines);
                out.append("</ul>");
            }
        },
        None => {
            out.append("<p class=\"muted\">Trends unavailable</p>");
        },
    }
    out.append("</section>");
    out
}


/// The summary shows each gate status by its serialized name (FAIL, WARN,
/// PASS), so different statuses are always shown differently.
pub proof fn law_status_words(a: GateStatus, b: GateStatus)
    ensures
        a == GateStatus::Fail ==> status_word(a) == "FAIL"@,
        a == GateStatus::Warn ==> status_word(a) == "WARN"@,
        a == GateStatus::Pass ==> status_word(a) == "PASS"@,
        status_word(a) == status_word(b) ==> a == b,
{
    reveal_strlit("FAIL");
    reveal_strlit("WARN");
    reveal_strlit("PASS");
    assert("FAIL"@[0] == 'F' && "WARN"@[0] == 'W' && "PASS"@[0] == 'P');
}

} // verus!
