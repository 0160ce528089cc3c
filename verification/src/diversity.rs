//! The diversity sentinel's windows and counts: which runs form the baseline
//! and recent windows, their time spans, missing-feature counts, and whether
//! a stereo key feature is present often enough to be counted.
use vstd::prelude::*;
use crate::analyzer::Metrics;
use crate::text::to_owned_string;

verus! {

/// Fewer selected runs than this only yield an "insufficient history" note.
pub const MIN_DIVERSITY_HISTORY: usize = 5;

/// The largest window size.
pub const MAX_WINDOW: usize = 10;

/// A selected run as the sentinel reads it.
#[derive(Debug, Clone)]
pub struct DiversityRunInput {
    pub run_id: String,
    pub finished_at: String,
    pub drift_score: u32,
    pub metrics: Metrics,
}

/// How serious a diversity alert is.
#[derive(Debug, Clone, Copy, PartialEq, Eq, Structural)]
pub enum DiversityAlertLevel {
    Info,
    Warn,
}

/// The first and last finish time of a window.
#[derive(Debug, Clone)]
pub struct TimeSpan {
    pub min: String,
    pub max: String,
}

/// How often a feature was missing in each window and overall.
#[derive(Debug, Clone, Copy, PartialEq, Eq, Structural)]
pub struct FeatureMissingCount {
    pub baseline_missing: usize,
    pub recent_missing: usize,
    pub total_missing: usize,
}

/// Whether a stereo key feature is present in enough runs to be counted.
#[derive(Debug, Clone)]
pub struct StereoKeyFeatureEvaluation {
    pub feature_id: String,
    pub baseline_present_count: usize,
    pub recent_present_count: usize,
    pub counted: bool,
    pub exclusion_reason: Option<String>,
}

/// The window size, the majority threshold, and the stereo key features.
#[derive(Debug, Clone)]
pub struct KeyFeatureEvaluation {
    pub m: usize,
    pub majority_threshold: usize,
    pub features: Vec<StereoKeyFeatureEvaluation>,
}

/// The window size for `n` selected runs: at most ten.
pub open spec fn spec_window(n: nat) -> nat {
    if n < 10 { n } else { 10 }
}

/// Half the window, rounded up (zero for an empty window).
pub open spec fn spec_majority(m: nat) -> nat {
    if m == 0 { 0 } else { ((m + 1) / 2) as nat }
}

/// The window size and majority threshold for `selected_count` runs.
pub fn diversity_window(selected_count: usize) -> (out: (usize, usize))
    ensures
        out.0 == spec_window(selected_count as nat),
        out.1 == spec_majority(out.0 as nat),
{
    let m = if selected_count < MAX_WINDOW { selected_count } else { MAX_WINDOW };
    let t = if m == 0 { 0 } else { (m + 1) / 2 };
    (m, t)
}

/// Too little history for diversity inference: fewer than five selected
/// runs, or a window smaller than five.
pub fn insufficient_history(selected_count: usize, m: usize) -> (r: bool)
    ensures
        r == (selected_count < 5 || m < 5),
{
    selected_count < MIN_DIVERSITY_HISTORY || m < MIN_DIVERSITY_HISTORY
}

/// The span of a window: the finish times of its first and last run.
pub fn span_from_runs(runs: &[DiversityRunInput]) -> (out: Option<TimeSpan>)
    ensures
        runs@.len() == 0 ==> out is None,
        runs@.len() > 0 ==> out is Some && out->Some_0.min@ == runs@[0].finished_at@
            && out->Some_0.max@ == runs@[runs@.len() - 1].finished_at@,
{
    if runs.len() == 0 {
        None
    } else {
        Some(TimeSpan { min: runs[0].finished_at.clone(), max: runs[runs.len() - 1].finished_at.clone() })
    }
}

/// The spans of the baseline window (the first `m` runs) and the recent
/// window (the last `m` runs).
pub fn window_spans(runs: &[DiversityRunInput], m: usize) -> (out: (Option<TimeSpan>, Option<TimeSpan>))
    requires
        m <= runs@.len(),
    ensures
        m == 0 ==> out.0 is None && out.1 is None,
        m > 0 ==> out.0 is Some && out.0->Some_0.min@ == runs@[0].finished_at@
            && out.0->Some_0.max@ == runs@[m - 1].finished_at@,
        m > 0 ==> out.1 is Some && out.1->Some_0.min@ == runs@[runs@.len() - m].finished_at@
            && out.1->Some_0.max@ == runs@[runs@.len() - 1].finished_at@,
{
    let n = runs.len();
    let baseline = span_from_runs(&runs[0..m]);
    let recent = if m == 0 { span_from_runs(&runs[0..0]) } else { span_from_runs(&runs[n - m..n]) };
    (baseline, recent)
}

/// How many flags are set.
pub open spec fn count_set(v: Seq<bool>, want: bool) -> nat
    decreases v.len(),
{
    if v.len() == 0 {
        0
    } else {
        count_set(v.drop_last(), want) + if v.last() == want { 1nat } else { 0nat }
    }
}

/// How many entries of `v` equal `want`.
pub fn count_flags(v: &Vec<bool>, want: bool) -> (n: usize)
    ensures
        n == count_set(v@, want),
{
    let mut n: usize = 0;
    let mut i: usize = 0;
    while i < v.len()
        invariant
            i <= v@.len(),
            n == count_set(v@.take(i as int), want),
            n <= i,
        decreases v@.len() - i,
    {
        assert(v@.take(i + 1).drop_last() =~= v@.take(i as int));
        if v[i] == want {
            n += 1;
        }
        i += 1;
    }
    assert(v@.take(i as int) =~= v@);
    n
}

/// The missing counts of a feature, given its presence in the baseline
/// window, the recent window and all selected runs.
pub fn missing_counts(baseline: &Vec<bool>, recent: &Vec<bool>, all: &Vec<bool>) -> (out: FeatureMissingCount)
    ensures
        out.baseline_missing == count_set(baseline@, false),
        out.recent_missing == count_set(recent@, false),
        out.total_missing == count_set(all@, false),
{
    FeatureMissingCount {
        baseline_missing: count_flags(baseline, false),
        recent_missing: count_flags(recent, false),
        total_missing: count_flags(all, false),
    }
}

/// Why a stereo key feature is not counted, if it is not.
pub open spec fn spec_exclusion(baseline_present: nat, recent_present: nat, m: nat, threshold: nat) -> Option<Seq<char>> {
    if m > 0 && baseline_present >= threshold && recent_present >= threshold {
        None
    } else if m == 0 {
        Some("insufficient runs for stereo feature applicability"@)
    } else if baseline_present < threshold && recent_present < threshold {
        Some("not present in majority of baseline and recent windows"@)
    } else if baseline_present < threshold {
        Some("not present in majority of baseline window"@)
    } else {
        Some("not present in majority of recent window"@)
    }
}

/// Evaluates a stereo key feature: it counts when the window is non-empty
/// and the feature is present in at least the majority threshold of both
/// windows; otherwise the reason is recorded.
pub fn evaluate_stereo_feature(
    feature_id: &str,
    baseline_present_count: usize,
    recent_present_count: usize,
    m: usize,
    majority_threshold: usize,
) -> (out: StereoKeyFeatureEvaluation)
    ensures
        out.feature_id@ == feature_id@,
        out.baseline_present_count == baseline_present_count,
        out.recent_present_count == recent_present_count,
        out.counted == (m > 0 && baseline_present_count >= majority_threshold && recent_present_count >= majority_threshold),
        match out.exclusion_reason {
            Some(r) => spec_exclusion(baseline_present_count as nat, recent_present_count as nat, m as nat, majority_threshold as nat) == Some(r@),
            None => spec_exclusion(baseline_present_count as nat, recent_present_count as nat, m as nat, majority_threshold as nat) is None,
        },
{
    let counted = m > 0 && baseline_present_count >= majority_threshold && recent_present_count >= majority_threshold;
    let exclusion_reason = if counted {
        None
    } else if m == 0 {
        Some(to_owned_string("insufficient runs for stereo feature applicability"))
    } else if baseline_present_count < majority_threshold && recent_present_count < majority_threshold {
        Some(to_owned_string("not present in majority of baseline and recent windows"))
    } else if baseline_present_count < majority_threshold {
        Some(to_owned_string("not present in majority of baseline window"))
    } else {
        Some(to_owned_string("not present in majority of recent window"))
    };
    StereoKeyFeatureEvaluation {
        feature_id: to_owned_string(feature_id),
        baseline_present_count,
        recent_present_count,
        counted,
        exclusion_reason,
    }
}

/// How many alerts have the given level.
pub open spec fn level_count(v: Seq<DiversityAlertLevel>, level: DiversityAlertLevel) -> nat
    decreases v.len(),
{
    if v.len() == 0 {
        0
    } else {
        level_count(v.drop_last(), level) + if v.last() == level { 1nat } else { 0nat }
    }
}

/// How many of the alerts have the given level.
pub fn alert_count(levels: &Vec<DiversityAlertLevel>, level: DiversityAlertLevel) -> (n: usize)
    ensures
        n == level_count(levels@, level),
{
    let mut n: usize = 0;
    let mut i: usize = 0;
    while i < levels.len()
        invariant
            i <= levels@.len(),
            n == level_count(levels@.take(i as int), level),
            n <= i,
        decreases levels@.len() - i,
    {
        assert(levels@.take(i + 1).drop_last() =~= levels@.take(i as int));
        if levels[i] == level {
            n += 1;
        }
        i += 1;
    }
    assert(levels@.take(i as int) =~= levels@);
    n
}


/// The INFO alert of type `insufficient_history` ("insufficient history for
/// diversity inference"), with its evidence.
#[derive(Debug, Clone, Copy, PartialEq, Eq, Structural)]
pub struct InsufficientHistoryAlert {
    pub selected_run_count: usize,
    pub m_used: usize,
    pub minimum_required: usize,
}

/// What the selected run count alone decides of the sentinel's alerts.
#[derive(Debug, Clone, Copy, PartialEq, Eq, Structural)]
pub enum HistoryVerdict {
    /// No runs were selected: no alert.
    NoRuns,
    /// Too few runs for inference: this one alert and no other.
    Insufficient(InsufficientHistoryAlert),
    /// Enough runs: the statistics decide the alerts.
    Enough,
}

/// The verdict for `selected_count` selected runs.
pub open spec fn spec_history_verdict(selected_count: nat) -> HistoryVerdict {
    let m = spec_window(selected_count);
    if selected_count == 0 {
        HistoryVerdict::NoRuns
    } else if selected_count < 5 || m < 5 {
        HistoryVerdict::Insufficient(
            InsufficientHistoryAlert {
                selected_run_count: selected_count as usize,
                m_used: m as usize,
                minimum_required: 5,
            },
        )
    } else {
        HistoryVerdict::Enough
    }
}

/// Whether the selected run count alone settles the alerts: no runs give
/// none, fewer than five give the single insufficient-history alert.
pub fn history_verdict(selected_count: usize) -> (out: HistoryVerdict)
    ensures
        out == spec_history_verdict(selected_count as nat),
{
    let (m, _) = diversity_window(selected_count);
    if selected_count == 0 {
        HistoryVerdict::NoRuns
    } else if insufficient_history(selected_count, m) {
        HistoryVerdict::Insufficient(
            InsufficientHistoryAlert {
                selected_run_count: selected_count,
                m_used: m,
                minimum_required: MIN_DIVERSITY_HISTORY,
            },
        )
    } else {
        HistoryVerdict::Enough
    }
}

} // verus!
