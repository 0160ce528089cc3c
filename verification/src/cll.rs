//! Project trends over the valid analysis runs of a project: which runs are
//! selected, gate outcome counts, the most frequent failing gates and drift
//! metrics, and the flags that mark gaps in the data.
use vstd::prelude::*;
use crate::counts::{NameCount, bump, rank_counts, count_in, well_formed_counts, pairs, is_ranking};
use crate::gates::{GateResult, GateSeverity, GateStatus, failed_with};
use crate::ordered::{KeyOrder, keys, strictly_sorted, stably_sorted, sort_by_key_stable, views};
use crate::text::{decimal, decimal_string, seq_lt, str_eq, to_owned_string};

verus! {

/// A run whose artifacts were all read and agree with each other, as far as
/// the trend logic reads it.
#[derive(Debug)]
pub struct ValidRun {
    pub run_id: String,
    pub asset_id: String,
    pub finished_at: String,
    /// `finished_at` as an instant: seconds and nanoseconds since the epoch.
    pub finished_at_secs: i64,
    pub finished_at_nanos: u32,
    pub gate_status: GateStatus,
    pub gates: Vec<GateResult>,
    pub drift_score: u32,
    /// Metric ids of the run's drift vector, in stored order.
    pub drift_metric_ids: Vec<String>,
    pub asset_content_hash: String,
    pub analyzer_version: String,
    pub metrics_analyzer_version: String,
    pub constitution_version: String,
    pub constitution_hash: String,
    pub constitution_path: String,
}

impl KeyOrder for ValidRun {
    type K = (int, int, Seq<char>);

    /// Runs are ordered by finish instant, then run id.
    open spec fn key(&self) -> (int, int, Seq<char>) {
        (self.finished_at_secs as int, self.finished_at_nanos as int, self.run_id@)
    }

    open spec fn key_lt(a: (int, int, Seq<char>), b: (int, int, Seq<char>)) -> bool {
        a.0 < b.0 || (a.0 == b.0 && a.1 < b.1) || (a.0 == b.0 && a.1 == b.1 && seq_lt(a.2, b.2))
    }

    proof fn lemma_key_lt_irreflexive(a: (int, int, Seq<char>)) {
        crate::text::lemma_seq_lt_irreflexive(a.2);
    }

    proof fn lemma_key_lt_transitive(a: (int, int, Seq<char>), b: (int, int, Seq<char>), c: (int, int, Seq<char>)) {
        if a.0 == b.0 && b.0 == c.0 && a.1 == b.1 && b.1 == c.1 && seq_lt(a.2, b.2) && seq_lt(b.2, c.2) {
            crate::text::lemma_seq_lt_transitive(a.2, b.2, c.2);
        }
    }

    proof fn lemma_key_lt_total(a: (int, int, Seq<char>), b: (int, int, Seq<char>)) {
        crate::text::lemma_seq_lt_total(a.2, b.2);
    }

    fn key_less(&self, other: &Self) -> (r: bool) {
        if self.finished_at_secs < other.finished_at_secs {
            true
        } else if self.finished_at_secs == other.finished_at_secs {
            if self.finished_at_nanos < other.finished_at_nanos {
                true
            } else if self.finished_at_nanos == other.finished_at_nanos {
                crate::text::str_lt(self.run_id.as_str(), other.run_id.as_str())
            } else {
                false
            }
        } else {
            false
        }
    }
}

/// Valid runs in trend order: by finish instant, then run id.
pub fn sort_valid_runs(runs: Vec<ValidRun>) -> (out: Vec<ValidRun>)
    ensures
        stably_sorted(out@, runs@),
{
    sort_by_key_stable(runs)
}

/// The last `n` runs, or all of them when `n` is 0 or at least their number.
pub open spec fn spec_select_window<T>(runs: Seq<T>, n: nat) -> Seq<T> {
    if n == 0 || n >= runs.len() {
        runs
    } else {
        runs.skip(runs.len() - n)
    }
}

/// The window of runs a report covers: the last `requested_last_n` runs, or
/// all runs when that is 0 or exceeds their number.
pub fn select_window(runs: Vec<ValidRun>, requested_last_n: usize) -> (out: Vec<ValidRun>)
    ensures
        out@ == spec_select_window(runs@, requested_last_n as nat),
{
    let mut runs = runs;
    if requested_last_n == 0 || requested_last_n >= runs.len() {
        runs
    } else {
        let at = runs.len() - requested_last_n;
        let ghost all = runs@;
        let tail = runs.split_off(at);
        assert(tail@ =~= all.skip(at as int));
        tail
    }
}

/// How many gates in `gates` failed with severity `sev` under the name `name`.
pub open spec fn gate_hits(gates: Seq<GateResult>, sev: GateSeverity, name: Seq<char>) -> nat
    decreases gates.len(),
{
    if gates.len() == 0 {
        0
    } else {
        gate_hits(gates.drop_last(), sev, name) + if failed_with(gates.last(), sev) && gates.last().gate_name@ == name {
            1nat
        } else {
            0nat
        }
    }
}

/// How many gates of all the runs failed with severity `sev` under `name`.
pub open spec fn run_hits(runs: Seq<ValidRun>, sev: GateSeverity, name: Seq<char>) -> nat
    decreases runs.len(),
{
    if runs.len() == 0 {
        0
    } else {
        run_hits(runs.drop_last(), sev, name) + gate_hits(runs.last().gates@, sev, name)
    }
}

/// The number of gates over all runs.
pub open spec fn total_gates(runs: Seq<ValidRun>) -> nat
    decreases runs.len(),
{
    if runs.len() == 0 {
        0
    } else {
        total_gates(runs.drop_last()) + runs.last().gates@.len()
    }
}

proof fn lemma_gate_hits_bound(gates: Seq<GateResult>, sev: GateSeverity, name: Seq<char>)
    ensures
        gate_hits(gates, sev, name) <= gates.len(),
    decreases gates.len(),
{
    if gates.len() > 0 {
        lemma_gate_hits_bound(gates.drop_last(), sev, name);
    }
}

proof fn lemma_run_hits_bound(runs: Seq<ValidRun>, sev: GateSeverity, name: Seq<char>)
    ensures
        run_hits(runs, sev, name) <= total_gates(runs),
    decreases runs.len(),
{
    if runs.len() > 0 {
        lemma_run_hits_bound(runs.drop_last(), sev, name);
        lemma_gate_hits_bound(runs.last().gates@, sev, name);
    }
}

proof fn lemma_total_gates_prefix(runs: Seq<ValidRun>, i: int)
    requires
        0 <= i <= runs.len(),
    ensures
        total_gates(runs.take(i)) <= total_gates(runs),
    decreases runs.len() - i,
{
    if i < runs.len() {
        lemma_total_gates_prefix(runs, i + 1);
        assert(runs.take(i + 1).drop_last() =~= runs.take(i));
    } else {
        assert(runs.take(i) =~= runs);
    }
}

/// For each gate name, how many gates of the runs failed with severity `sev`.
pub fn count_failed_gates(runs: &Vec<ValidRun>, sev: GateSeverity) -> (out: Vec<NameCount>)
    requires
        total_gates(runs@) < usize::MAX,
    ensures
        well_formed_counts(out@),
        forall|k: Seq<char>| #[trigger] count_in(out@, k) == run_hits(runs@, sev, k),
{
    let mut out: Vec<NameCount> = Vec::new();
    let mut i: usize = 0;
    while i < runs.len()
        invariant
            i <= runs@.len(),
            total_gates(runs@) < usize::MAX,
            well_formed_counts(out@),
            forall|k: Seq<char>| #[trigger] count_in(out@, k) == run_hits(runs@.take(i as int), sev, k),
        decreases runs@.len() - i,
    {
        let gates = &runs[i].gates;
        let ghost pre = runs@.take(i as int);
        let mut j: usize = 0;
        proof {
            lemma_total_gates_prefix(runs@, i + 1);
            assert(runs@.take(i + 1).drop_last() =~= pre);
            assert(gates@.take(0) =~= Seq::<GateResult>::empty());
        }
        while j < gates.len()
            invariant
                j <= gates@.len(),
                i < runs@.len(),
                gates@ == runs@[i as int].gates@,
                pre == runs@.take(i as int),
                total_gates(pre) + gates@.len() < usize::MAX,
                well_formed_counts(out@),
                forall|k: Seq<char>| #[trigger] count_in(out@, k) == run_hits(pre, sev, k) + gate_hits(gates@.take(j as int), sev, k),
            decreases gates@.len() - j,
        {
            let g = &gates[j];
            let ghost before = out@;
            proof {
                assert(gates@.take(j + 1).drop_last() =~= gates@.take(j as int));
                assert(gates@.take(j + 1).last() == gates@[j as int]);
            }
            if !g.pass_fail && g.severity == sev {
                proof {
                    lemma_run_hits_bound(pre, sev, g.gate_name@);
                    lemma_gate_hits_bound(gates@.take(j as int), sev, g.gate_name@);
                }
                bump(&mut out, g.gate_name.as_str());
            }
            j += 1;
        }
        proof {
            assert(gates@.take(gates@.len() as int) =~= gates@);
            assert(runs@.take(i + 1).last() == runs@[i as int]);
        }
        i += 1;
    }
    assert(runs@.take(runs@.len() as int) =~= runs@);
    out
}

/// How many of the runs have the given status.
pub open spec fn status_count(runs: Seq<ValidRun>, st: GateStatus) -> nat
    decreases runs.len(),
{
    if runs.len() == 0 {
        0
    } else {
        status_count(runs.drop_last(), st) + if runs.last().gate_status == st {
            1nat
        } else {
            0nat
        }
    }
}

proof fn lemma_status_count_bound(runs: Seq<ValidRun>, st: GateStatus)
    ensures
        status_count(runs, st) <= runs.len(),
    decreases runs.len(),
{
    if runs.len() > 0 {
        lemma_status_count_bound(runs.drop_last(), st);
    }
}

/// Pass, warn and fail counts over the runs.
#[derive(Debug, Clone, PartialEq, Eq)]
pub struct GateStatusCounts {
    pub pass: usize,
    pub warn: usize,
    pub fail: usize,
}

/// Counts the runs by gate status.
pub fn status_counts(runs: &Vec<ValidRun>) -> (out: GateStatusCounts)
    ensures
        out.pass == status_count(runs@, GateStatus::Pass),
        out.warn == status_count(runs@, GateStatus::Warn),
        out.fail == status_count(runs@, GateStatus::Fail),
{
    let mut out = GateStatusCounts { pass: 0, warn: 0, fail: 0 };
    let mut i: usize = 0;
    while i < runs.len()
        invariant
            i <= runs@.len(),
            out.pass == status_count(runs@.take(i as int), GateStatus::Pass),
            out.warn == status_count(runs@.take(i as int), GateStatus::Warn),
            out.fail == status_count(runs@.take(i as int), GateStatus::Fail),
        decreases runs@.len() - i,
    {
        proof {
            assert(runs@.take(i + 1).drop_last() =~= runs@.take(i as int));
            lemma_status_count_bound(runs@.take(i as int), GateStatus::Pass);
            lemma_status_count_bound(runs@.take(i as int), GateStatus::Warn);
            lemma_status_count_bound(runs@.take(i as int), GateStatus::Fail);
        }
        match runs[i].gate_status {
            GateStatus::Pass => out.pass = out.pass + 1,
            GateStatus::Warn => out.warn = out.warn + 1,
            GateStatus::Fail => out.fail = out.fail + 1,
        }
        i += 1;
    }
    assert(runs@.take(runs@.len() as int) =~= runs@);
    out
}

/// One gate name and how often it failed.
#[derive(Debug, Clone, PartialEq, Eq)]
pub struct GateFailureCount {
    pub gate_name: String,
    pub count: usize,
}

/// Gate failure counts as name and count pairs.
pub open spec fn failure_pairs(v: Seq<GateFailureCount>) -> Seq<(Seq<char>, nat)> {
    v.map_values(|c: GateFailureCount| (c.gate_name@, c.count as nat))
}

/// Recorded counts, ranked, as gate failure counts.
pub fn sorted_gate_counts(counts: Vec<NameCount>) -> (out: Vec<GateFailureCount>)
    requires
        well_formed_counts(counts@),
    ensures
        is_ranking(failure_pairs(out@), |k: Seq<char>| count_in(counts@, k)),
{
    let r = rank_counts(counts);
    let mut out: Vec<GateFailureCount> = Vec::new();
    let mut i: usize = 0;
    while i < r.len()
        invariant
            i <= r@.len(),
            failure_pairs(out@) == pairs(r@).take(i as int),
        decreases r@.len() - i,
    {
        let ghost before = out@;
        let n = r[i].name.clone();
        let c = GateFailureCount { gate_name: n, count: r[i].count };
        out.push(c);
        assert(n@ == r@[i as int].name@);
        assert(failure_pairs(out@) =~= failure_pairs(before).push((n@, r@[i as int].count as nat)));
        assert(failure_pairs(out@) =~= pairs(r@).take(i + 1));
        i += 1;
    }
    assert(pairs(r@).take(r@.len() as int) =~= pairs(r@));
    out
}

/// Gate outcomes over the selected runs.
#[derive(Debug, Clone)]
pub struct GateTrends {
    pub counts: GateStatusCounts,
    pub top_failed_blockers: Vec<GateFailureCount>,
    pub top_failed_warns: Vec<GateFailureCount>,
}

/// Counts runs by status and ranks the blocker and warn gates by how often
/// they failed.
pub fn build_gate_trends(runs: &Vec<ValidRun>) -> (out: GateTrends)
    requires
        total_gates(runs@) < usize::MAX,
    ensures
        out.counts.pass == status_count(runs@, GateStatus::Pass),
        out.counts.warn == status_count(runs@, GateStatus::Warn),
        out.counts.fail == status_count(runs@, GateStatus::Fail),
        is_ranking(failure_pairs(out.top_failed_blockers@), |k: Seq<char>| run_hits(runs@, GateSeverity::Blocker, k)),
        is_ranking(failure_pairs(out.top_failed_warns@), |k: Seq<char>| run_hits(runs@, GateSeverity::Warn, k)),
{
    let counts = status_counts(runs);
    let blockers = count_failed_gates(runs, GateSeverity::Blocker);
    let warns = count_failed_gates(runs, GateSeverity::Warn);
    let top_failed_blockers = sorted_gate_counts(blockers);
    let top_failed_warns = sorted_gate_counts(warns);
    proof {
        assert((|k: Seq<char>| count_in(blockers@, k)) =~= (|k: Seq<char>| run_hits(runs@, GateSeverity::Blocker, k)));
        assert((|k: Seq<char>| count_in(warns@, k)) =~= (|k: Seq<char>| run_hits(runs@, GateSeverity::Warn, k)));
    }
    GateTrends { counts, top_failed_blockers, top_failed_warns }
}

/// One run's drift score in the series.
#[derive(Debug, Clone)]
pub struct DriftScoreSeriesEntry {
    pub run_id: String,
    pub finished_at: String,
    pub gate_status: GateStatus,
    pub drift_score: u32,
}

/// A series entry as plain values.
pub open spec fn series_view(e: DriftScoreSeriesEntry) -> (Seq<char>, Seq<char>, GateStatus, u32) {
    (e.run_id@, e.finished_at@, e.gate_status, e.drift_score)
}

/// The drift score of each run, in run order.
pub fn drift_score_series(runs: &Vec<ValidRun>) -> (out: Vec<DriftScoreSeriesEntry>)
    ensures
        out@.len() == runs@.len(),
        forall|i: int| 0 <= i < runs@.len() ==> #[trigger] series_view(out@[i]) == (
            runs@[i].run_id@,
            runs@[i].finished_at@,
            runs@[i].gate_status,
            runs@[i].drift_score,
        ),
{
    let mut out: Vec<DriftScoreSeriesEntry> = Vec::new();
    let mut i: usize = 0;
    while i < runs.len()
        invariant
            i <= runs@.len(),
            out@.len() == i,
            forall|k: int| 0 <= k < i ==> #[trigger] series_view(out@[k]) == (
                runs@[k].run_id@,
                runs@[k].finished_at@,
                runs@[k].gate_status,
                runs@[k].drift_score,
            ),
        decreases runs@.len() - i,
    {
        let r = &runs[i];
        out.push(DriftScoreSeriesEntry {
            run_id: r.run_id.clone(),
            finished_at: r.finished_at.clone(),
            gate_status: r.gate_status,
            drift_score: r.drift_score,
        });
        i += 1;
    }
    out
}

/// How often `id` occurs in `ids`.
pub open spec fn id_hits(ids: Seq<String>, id: Seq<char>) -> nat
    decreases ids.len(),
{
    if ids.len() == 0 {
        0
    } else {
        id_hits(ids.drop_last(), id) + if ids.last()@ == id {
            1nat
        } else {
            0nat
        }
    }
}

/// How often `id` occurs among the drift vectors of the runs.
pub open spec fn metric_hits(runs: Seq<ValidRun>, id: Seq<char>) -> nat
    decreases runs.len(),
{
    if runs.len() == 0 {
        0
    } else {
        metric_hits(runs.drop_last(), id) + id_hits(runs.last().drift_metric_ids@, id)
    }
}

/// The number of drift vector items over all runs.
pub open spec fn total_metric_ids(runs: Seq<ValidRun>) -> nat
    decreases runs.len(),
{
    if runs.len() == 0 {
        0
    } else {
        total_metric_ids(runs.drop_last()) + runs.last().drift_metric_ids@.len()
    }
}

proof fn lemma_id_hits_bound(ids: Seq<String>, id: Seq<char>)
    ensures
        id_hits(ids, id) <= ids.len(),
    decreases ids.len(),
{
    if ids.len() > 0 {
        lemma_id_hits_bound(ids.drop_last(), id);
    }
}

proof fn lemma_metric_hits_bound(runs: Seq<ValidRun>, id: Seq<char>)
    ensures
        metric_hits(runs, id) <= total_metric_ids(runs),
    decreases runs.len(),
{
    if runs.len() > 0 {
        lemma_metric_hits_bound(runs.drop_last(), id);
        lemma_id_hits_bound(runs.last().drift_metric_ids@, id);
    }
}

proof fn lemma_total_metric_ids_prefix(runs: Seq<ValidRun>, i: int)
    requires
        0 <= i <= runs.len(),
    ensures
        total_metric_ids(runs.take(i)) <= total_metric_ids(runs),
    decreases runs.len() - i,
{
    if i < runs.len() {
        lemma_total_metric_ids_prefix(runs, i + 1);
        assert(runs.take(i + 1).drop_last() =~= runs.take(i));
    } else {
        assert(runs.take(i) =~= runs);
    }
}

/// A drift metric and how often it appeared.
#[derive(Debug, Clone, PartialEq, Eq)]
pub struct MetricCount {
    pub metric_id: String,
    pub count: usize,
}

/// Metric counts as name and count pairs.
pub open spec fn metric_pairs(v: Seq<MetricCount>) -> Seq<(Seq<char>, nat)> {
    v.map_values(|c: MetricCount| (c.metric_id@, c.count as nat))
}

/// The drift metrics of the runs ranked by how often they appear.
pub fn top_recurring_deltas(runs: &Vec<ValidRun>) -> (out: Vec<MetricCount>)
    requires
        total_metric_ids(runs@) < usize::MAX,
    ensures
        is_ranking(metric_pairs(out@), |k: Seq<char>| metric_hits(runs@, k)),
{
    let mut counts: Vec<NameCount> = Vec::new();
    let mut i: usize = 0;
    while i < runs.len()
        invariant
            i <= runs@.len(),
            total_metric_ids(runs@) < usize::MAX,
            well_formed_counts(counts@),
            forall|k: Seq<char>| #[trigger] count_in(counts@, k) == metric_hits(runs@.take(i as int), k),
        decreases runs@.len() - i,
    {
        let ids = &runs[i].drift_metric_ids;
        let ghost pre = runs@.take(i as int);
        let mut j: usize = 0;
        proof {
            lemma_total_metric_ids_prefix(runs@, i + 1);
            assert(runs@.take(i + 1).drop_last() =~= pre);
            assert(ids@.take(0) =~= Seq::<String>::empty());
        }
        while j < ids.len()
            invariant
                j <= ids@.len(),
                i < runs@.len(),
                ids@ == runs@[i as int].drift_metric_ids@,
                pre == runs@.take(i as int),
                total_metric_ids(pre) + ids@.len() < usize::MAX,
                well_formed_counts(counts@),
                forall|k: Seq<char>| #[trigger] count_in(counts@, k) == metric_hits(pre, k) + id_hits(ids@.take(j as int), k),
            decreases ids@.len() - j,
        {
            proof {
                assert(ids@.take(j + 1).drop_last() =~= ids@.take(j as int));
                assert(ids@.take(j + 1).last() == ids@[j as int]);
                lemma_metric_hits_bound(pre, ids@[j as int]@);
                lemma_id_hits_bound(ids@.take(j as int), ids@[j as int]@);
            }
            bump(&mut counts, ids[j].as_str());
            j += 1;
        }
        proof {
            assert(ids@.take(ids@.len() as int) =~= ids@);
            assert(runs@.take(i + 1).last() == runs@[i as int]);
        }
        i += 1;
    }
    assert(runs@.take(runs@.len() as int) =~= runs@);
    let r = rank_counts(counts);
    let mut out: Vec<MetricCount> = Vec::new();
    let mut k: usize = 0;
    while k < r.len()
        invariant
            k <= r@.len(),
            metric_pairs(out@) == pairs(r@).take(k as int),
        decreases r@.len() - k,
    {
        let ghost before = out@;
        let n = r[k].name.clone();
        out.push(MetricCount { metric_id: n, count: r[k].count });
        assert(n@ == r@[k as int].name@);
        assert(metric_pairs(out@) =~= metric_pairs(before).push((n@, r@[k as int].count as nat)));
        assert(metric_pairs(out@) =~= pairs(r@).take(k + 1));
        k += 1;
    }
    assert(pairs(r@).take(r@.len() as int) =~= pairs(r@));
    proof {
        assert((|x: Seq<char>| count_in(counts@, x)) =~= (|x: Seq<char>| metric_hits(runs@, x)));
    }
    out
}

/// The run counts a trends report covers.
#[derive(Debug, Clone, PartialEq, Eq)]
pub struct TrendWindow {
    pub requested_last_n: usize,
    pub selected_run_count: usize,
    pub valid_runs: usize,
    pub discovered_runs: usize,
}

/// Header of a trends report.
#[derive(Debug, Clone)]
pub struct TrendsMeta {
    pub project_root: String,
    pub generated_at: String,
    pub window: TrendWindow,
    pub includes_run_ids: bool,
}

/// A run that could not be used, and why.
#[derive(Debug, Clone)]
pub struct DataGapWarning {
    pub run_id: String,
    pub asset_id: Option<String>,
    pub kind: Option<String>,
    pub detail: String,
}

/// Data quality flags of a trends report.
#[derive(Debug, Clone)]
pub struct TrendFlags {
    pub data_gaps: bool,
    pub skipped_runs: usize,
    pub notes: Vec<String>,
    pub data_gap_warnings: Vec<DataGapWarning>,
}

/// What one trends generation produced.
#[derive(Debug, Clone)]
pub struct TrendsGenerationSummary {
    pub output_path: String,
    pub requested_last_n: usize,
    pub selected_run_count: usize,
    pub valid_runs: usize,
    pub skipped_runs: usize,
    pub data_gaps: bool,
    pub baseline_run_count: usize,
    pub recent_run_count: usize,
    pub warn_alert_count: usize,
    pub info_alert_count: usize,
}

/// The notes of a trends report: none selected, and fewer runs than asked for.
pub open spec fn spec_trend_notes(requested_last_n: nat, selected: nat) -> Seq<Seq<char>> {
    let first: Seq<Seq<char>> = if selected == 0 {
        seq!["no valid runs found"@]
    } else {
        seq![]
    };
    if requested_last_n > 0 && selected < requested_last_n {
        first.push("requested_last_n="@ + decimal(requested_last_n) + ", available_valid_runs="@ + decimal(selected))
    } else {
        first
    }
}

/// The notes of a trends report.
pub fn trend_notes(requested_last_n: usize, selected: usize) -> (out: Vec<String>)
    ensures
        views(out@) == spec_trend_notes(requested_last_n as nat, selected as nat),
{
    let mut out: Vec<String> = Vec::new();
    if selected == 0 {
        out.push(to_owned_string("no valid runs found"));
    }
    let ghost first = views(out@);
    proof {
        if selected == 0 {
            assert(first =~= seq!["no valid runs found"@]);
        } else {
            assert(first =~= Seq::<Seq<char>>::empty());
        }
    }
    if requested_last_n > 0 && selected < requested_last_n {
        let mut note = to_owned_string("requested_last_n=");
        let a = decimal_string(requested_last_n as u64);
        note.append(a.as_str());
        note.append(", available_valid_runs=");
        let b = decimal_string(selected as u64);
        note.append(b.as_str());
        out.push(note);
        assert(views(out@) =~= first.push(note@));
    }
    out
}

/// Whether a report has data gaps: some run could not be used, or fewer runs
/// were available than asked for.
pub open spec fn spec_data_gaps(requested_last_n: nat, selected: nat, warnings: nat) -> bool {
    warnings > 0 || (requested_last_n > 0 && selected < requested_last_n)
}

/// The flags of a trends report. Discovered runs that were not valid count
/// as skipped.
pub fn build_trend_flags(
    requested_last_n: usize,
    selected: usize,
    valid: usize,
    discovered: usize,
    data_gap_warnings: Vec<DataGapWarning>,
) -> (out: TrendFlags)
    ensures
        out.data_gaps == spec_data_gaps(requested_last_n as nat, selected as nat, data_gap_warnings@.len()),
        out.skipped_runs == if discovered >= valid { discovered - valid } else { 0 },
        views(out.notes@) == spec_trend_notes(requested_last_n as nat, selected as nat),
        out.data_gap_warnings@ == data_gap_warnings@,
{
    let data_gaps = data_gap_warnings.len() > 0 || (requested_last_n > 0 && selected < requested_last_n);
    TrendFlags {
        data_gaps,
        skipped_runs: discovered.saturating_sub(valid),
        notes: trend_notes(requested_last_n, selected),
        data_gap_warnings,
    }
}

/// The window of a trends report.
pub fn trend_window(requested_last_n: usize, selected: usize, valid: usize, discovered: usize) -> (out: TrendWindow)
    ensures
        out == (TrendWindow {
            requested_last_n,
            selected_run_count: selected,
            valid_runs: valid,
            discovered_runs: discovered,
        }),
{
    TrendWindow { requested_last_n, selected_run_count: selected, valid_runs: valid, discovered_runs: discovered }
}

/// The instant an RFC 3339 timestamp denotes, as seconds and nanoseconds
/// since the Unix epoch, when it parses.
pub uninterp spec fn rfc3339_instant(text: Seq<char>) -> Option<(int, int)>;

/// Parses an RFC 3339 timestamp (chrono's `DateTime::parse_from_rfc3339`).
/// Trusted: the result depends on the text alone and gives the parsed
/// instant's Unix seconds and sub-second nanoseconds.
#[verifier::external_body]
fn parse_rfc3339(text: &str) -> (r: Option<(i64, u32)>)
    ensures
        match r {
            Some(t) => rfc3339_instant(text@) == Some((t.0 as int, t.1 as int)),
            None => rfc3339_instant(text@) is None,
        },
{
    chrono::DateTime::parse_from_rfc3339(text).ok().map(|t| (t.timestamp(), t.timestamp_subsec_nanos()))
}

/// Why a run's artifacts were not accepted.
#[derive(Debug)]
pub enum RunMetaError {
    /// An artifact's meta names another run.
    RunIdMismatch { artifact: String, expected: String, found: String },
    /// An artifact's `finished_at` is not RFC 3339.
    FinishedAtUnparseable { artifact: String, finished_at: String },
}

impl RunMetaError {
    pub open spec fn spec_message(&self) -> Seq<char> {
        match self {
            RunMetaError::RunIdMismatch { artifact, expected, found } => artifact@
                + " run_id mismatch: expected "@ + expected@ + ", found "@ + found@,
            RunMetaError::FinishedAtUnparseable { artifact, finished_at } => artifact@
                + " finished_at is not parseable RFC3339: "@ + finished_at@,
        }
    }

    /// The error as the text a user sees.
    pub fn message(&self) -> (out: String)
        ensures
            out@ == self.spec_message(),
    {
        match self {
            RunMetaError::RunIdMismatch { artifact, expected, found } => {
                let mut out = artifact.clone();
                out.append(" run_id mismatch: expected ");
                out.append(expected.as_str());
                out.append(", found ");
                out.append(found.as_str());
                out
            },
            RunMetaError::FinishedAtUnparseable { artifact, finished_at } => {
                let mut out = artifact.clone();
                out.append(" finished_at is not parseable RFC3339: ");
                out.append(finished_at.as_str());
                out
            },
        }
    }
}

/// Checks one artifact's meta against the run it was found under, given
/// whether its `finished_at` parsed.
pub fn check_run_meta(
    expected_run_id: &str,
    meta_run_id: &str,
    meta_finished_at: &str,
    artifact_name: &str,
    finished_at_parses: bool,
) -> (r: Result<(), RunMetaError>)
    ensures
        meta_run_id@ != expected_run_id@ ==> (r is Err && (r->Err_0 matches RunMetaError::RunIdMismatch { artifact, expected, found }
            && artifact@ == artifact_name@ && expected@ == expected_run_id@ && found@ == meta_run_id@)),
        meta_run_id@ == expected_run_id@ && !finished_at_parses ==> (r is Err && (r->Err_0 matches RunMetaError::FinishedAtUnparseable { artifact, finished_at }
            && artifact@ == artifact_name@ && finished_at@ == meta_finished_at@)),
        meta_run_id@ == expected_run_id@ && finished_at_parses ==> r is Ok,
{
    if !str_eq(meta_run_id, expected_run_id) {
        return Err(RunMetaError::RunIdMismatch {
            artifact: to_owned_string(artifact_name),
            expected: to_owned_string(expected_run_id),
            found: to_owned_string(meta_run_id),
        });
    }
    if !finished_at_parses {
        return Err(RunMetaError::FinishedAtUnparseable {
            artifact: to_owned_string(artifact_name),
            finished_at: to_owned_string(meta_finished_at),
        });
    }
    Ok(())
}

/// Checks one artifact's meta against the run it was found under: the run id
/// must match and `finished_at` must be RFC 3339.
pub fn validate_run_meta(expected_run_id: &str, meta_run_id: &str, meta_finished_at: &str, artifact_name: &str) -> (r: Result<(), RunMetaError>)
    ensures
        meta_run_id@ != expected_run_id@ ==> (r is Err && (r->Err_0 matches RunMetaError::RunIdMismatch { artifact, expected, found }
            && artifact@ == artifact_name@ && expected@ == expected_run_id@ && found@ == meta_run_id@)),
        meta_run_id@ == expected_run_id@ && rfc3339_instant(meta_finished_at@) is None ==> (r is Err && (r->Err_0 matches RunMetaError::FinishedAtUnparseable { artifact, finished_at }
            && artifact@ == artifact_name@ && finished_at@ == meta_finished_at@)),
        meta_run_id@ == expected_run_id@ && rfc3339_instant(meta_finished_at@) is Some ==> r is Ok,
{
    let parsed = parse_rfc3339(meta_finished_at);
    check_run_meta(expected_run_id, meta_run_id, meta_finished_at, artifact_name, parsed.is_some())
}

/// The instant of an RFC 3339 timestamp, if it parses.
pub fn finished_instant(text: &str) -> (r: Option<(i64, u32)>)
    ensures
        match r {
            Some(t) => rfc3339_instant(text@) == Some((t.0 as int, t.1 as int)),
            None => rfc3339_instant(text@) is None,
        },
{
    parse_rfc3339(text)
}


/// `series` lists each run's drift score, in run order.
pub open spec fn is_score_series(series: Seq<DriftScoreSeriesEntry>, runs: Seq<ValidRun>) -> bool {
    &&& series.len() == runs.len()
    &&& forall|i: int| 0 <= i < runs.len() ==> #[trigger] series_view(series[i]) == (
        runs[i].run_id@,
        runs[i].finished_at@,
        runs[i].gate_status,
        runs[i].drift_score,
    )
}

/// `g` counts the runs by status and ranks their failed blocker and warn gates.
pub open spec fn is_gate_trends(g: GateTrends, runs: Seq<ValidRun>) -> bool {
    &&& g.counts.pass == status_count(runs, GateStatus::Pass)
    &&& g.counts.warn == status_count(runs, GateStatus::Warn)
    &&& g.counts.fail == status_count(runs, GateStatus::Fail)
    &&& is_ranking(failure_pairs(g.top_failed_blockers@), |k: Seq<char>| run_hits(runs, GateSeverity::Blocker, k))
    &&& is_ranking(failure_pairs(g.top_failed_warns@), |k: Seq<char>| run_hits(runs, GateSeverity::Warn, k))
}

/// Drift outcomes over the selected runs.
#[derive(Debug, Clone)]
pub struct DriftTrends {
    pub drift_score_series: Vec<DriftScoreSeriesEntry>,
    pub top_recurring_deltas: Vec<MetricCount>,
}

/// `d` lists the runs' drift scores in order and ranks their drift metrics.
pub open spec fn is_drift_trends(d: DriftTrends, runs: Seq<ValidRun>) -> bool {
    &&& is_score_series(d.drift_score_series@, runs)
    &&& is_ranking(metric_pairs(d.top_recurring_deltas@), |k: Seq<char>| metric_hits(runs, k))
}

/// The drift score series of the runs and their drift metrics ranked by how
/// often they recur.
pub fn build_drift_trends(runs: &Vec<ValidRun>) -> (out: DriftTrends)
    requires
        total_metric_ids(runs@) < usize::MAX,
    ensures
        is_drift_trends(out, runs@),
{
    let drift_score_series = drift_score_series(runs);
    let top_recurring_deltas = top_recurring_deltas(runs);
    DriftTrends { drift_score_series, top_recurring_deltas }
}

/// A project's trends document.
#[derive(Debug, Clone)]
pub struct ProjectTrends {
    pub meta: TrendsMeta,
    pub gate_trends: GateTrends,
    pub drift_trends: DriftTrends,
    pub flags: TrendFlags,
}

/// The trends document over the selected runs, given how many runs were
/// valid and discovered and the warnings of those that were not valid.
pub fn project_trends(
    project_root: &str,
    generated_at: &str,
    requested_last_n: usize,
    selected: &Vec<ValidRun>,
    valid: usize,
    discovered: usize,
    data_gap_warnings: Vec<DataGapWarning>,
) -> (out: ProjectTrends)
    requires
        total_gates(selected@) < usize::MAX,
        total_metric_ids(selected@) < usize::MAX,
    ensures
        out.meta.project_root@ == project_root@,
        out.meta.generated_at@ == generated_at@,
        out.meta.window == (TrendWindow {
            requested_last_n,
            selected_run_count: selected@.len() as usize,
            valid_runs: valid,
            discovered_runs: discovered,
        }),
        out.meta.includes_run_ids,
        is_gate_trends(out.gate_trends, selected@),
        is_drift_trends(out.drift_trends, selected@),
        out.flags.data_gaps == spec_data_gaps(
            requested_last_n as nat,
            selected@.len(),
            data_gap_warnings@.len(),
        ),
        out.flags.skipped_runs == if discovered >= valid { discovered - valid } else { 0 },
        views(out.flags.notes@) == spec_trend_notes(requested_last_n as nat, selected@.len()),
        out.flags.data_gap_warnings@ == data_gap_warnings@,
{
    let n = selected.len();
    let meta = TrendsMeta {
        project_root: to_owned_string(project_root),
        generated_at: to_owned_string(generated_at),
        window: trend_window(requested_last_n, n, valid, discovered),
        includes_run_ids: true,
    };
    let gate_trends = build_gate_trends(selected);
    let drift_trends = build_drift_trends(selected);
    let flags = build_trend_flags(requested_last_n, n, valid, discovered, data_gap_warnings);
    ProjectTrends { meta, gate_trends, drift_trends, flags }
}


/// The runs of the outcomes that were read as valid, in order.
pub open spec fn valid_of(outcomes: Seq<Result<ValidRun, DataGapWarning>>) -> Seq<ValidRun>
    decreases outcomes.len(),
{
    if outcomes.len() == 0 {
        Seq::empty()
    } else {
        let rest = valid_of(outcomes.drop_last());
        match outcomes.last() {
            Ok(r) => rest.push(r),
            Err(_) => rest,
        }
    }
}

/// The warnings of the outcomes that could not be used, in order.
pub open spec fn gaps_of(outcomes: Seq<Result<ValidRun, DataGapWarning>>) -> Seq<DataGapWarning>
    decreases outcomes.len(),
{
    if outcomes.len() == 0 {
        Seq::empty()
    } else {
        let rest = gaps_of(outcomes.drop_last());
        match outcomes.last() {
            Ok(_) => rest,
            Err(w) => rest.push(w),
        }
    }
}

proof fn lemma_outcomes_split(outcomes: Seq<Result<ValidRun, DataGapWarning>>)
    ensures
        valid_of(outcomes).len() + gaps_of(outcomes).len() == outcomes.len(),
    decreases outcomes.len(),
{
    if outcomes.len() > 0 {
        lemma_outcomes_split(outcomes.drop_last());
    }
}

proof fn lemma_total_metric_ids_prefix_le(runs: Seq<ValidRun>, i: int)
    requires
        0 <= i <= runs.len(),
    ensures
        total_metric_ids(runs.take(i)) <= total_metric_ids(runs),
    decreases runs.len() - i,
{
    if i < runs.len() {
        lemma_total_metric_ids_prefix_le(runs, i + 1);
        assert(runs.take(i + 1).drop_last() =~= runs.take(i));
    } else {
        assert(runs.take(i) =~= runs);
    }
}

/// Whether the runs' gate results and drift metrics can be counted in a `usize`.
pub open spec fn countable(runs: Seq<ValidRun>) -> bool {
    total_gates(runs) < usize::MAX && total_metric_ids(runs) < usize::MAX
}

fn counts_fit(runs: &Vec<ValidRun>) -> (r: bool)
    ensures
        r == countable(runs@),
{
    let mut g: usize = 0;
    let mut m: usize = 0;
    let mut i: usize = 0;
    while i < runs.len()
        invariant
            i <= runs@.len(),
            g == total_gates(runs@.take(i as int)),
            m == total_metric_ids(runs@.take(i as int)),
            g < usize::MAX,
            m < usize::MAX,
        decreases runs@.len() - i,
    {
        proof {
            assert(runs@.take(i + 1).drop_last() =~= runs@.take(i as int));
            lemma_total_gates_prefix(runs@, i + 1);
            lemma_total_metric_ids_prefix_le(runs@, i + 1);
        }
        let gl = runs[i].gates.len();
        let ml = runs[i].drift_metric_ids.len();
        if gl >= usize::MAX - g || ml >= usize::MAX - m {
            return false;
        }
        g = g + gl;
        m = m + ml;
        i += 1;
    }
    assert(runs@.take(i as int) =~= runs@);
    true
}

/// The trends document for the outcomes of reading every discovered run
/// (a valid run, or the warning of one that could not be used): the valid
/// runs are sorted by finish instant then run id, the last
/// `requested_last_n` of them (all for 0) are selected, and the skipped runs
/// are the warnings. `None` when the selected runs hold too many gate
/// results or drift metrics to count in a `usize`.
pub fn trends_from_outcomes(
    project_root: &str,
    generated_at: &str,
    requested_last_n: usize,
    outcomes: Vec<Result<ValidRun, DataGapWarning>>,
) -> (out: Option<ProjectTrends>)
    ensures
        ({
            let valid = valid_of(outcomes@);
            let gaps = gaps_of(outcomes@);
            exists|sorted: Seq<ValidRun>| {
                &&& #[trigger] stably_sorted(sorted, valid)
                &&& {
                    let sel = spec_select_window(sorted, requested_last_n as nat);
                    &&& out is None <==> !countable(sel)
                    &&& out is Some ==> {
                        let t = out->Some_0;
                        &&& t.meta.project_root@ == project_root@
                        &&& t.meta.generated_at@ == generated_at@
                        &&& t.meta.window == (TrendWindow {
                            requested_last_n,
                            selected_run_count: sel.len() as usize,
                            valid_runs: valid.len() as usize,
                            discovered_runs: outcomes@.len() as usize,
                        })
                        &&& t.meta.includes_run_ids
                        &&& is_gate_trends(t.gate_trends, sel)
                        &&& is_drift_trends(t.drift_trends, sel)
                        &&& t.flags.data_gaps == spec_data_gaps(requested_last_n as nat, sel.len(), gaps.len())
                        &&& t.flags.skipped_runs == gaps.len()
                        &&& views(t.flags.notes@) == spec_trend_notes(requested_last_n as nat, sel.len())
                        &&& t.flags.data_gap_warnings@ == gaps
                    }
                }
            }
        }),
{
    let ghost all = outcomes@;
    let discovered = outcomes.len();
    let mut rest = outcomes;
    let mut valid: Vec<ValidRun> = Vec::new();
    let mut gaps: Vec<DataGapWarning> = Vec::new();
    let mut k: usize = 0;
    while rest.len() > 0
        invariant
            k <= all.len(),
            rest@ == all.skip(k as int),
            valid@ == valid_of(all.take(k as int)),
            gaps@ == gaps_of(all.take(k as int)),
            discovered == all.len(),
        decreases rest@.len(),
    {
        let item = rest.remove(0);
        proof {
            assert(item == all[k as int]);
            assert(all.take(k + 1).drop_last() =~= all.take(k as int));
            assert(all.take(k + 1).last() == all[k as int]);
            assert(rest@ =~= all.skip(k + 1));
        }
        match item {
            Ok(r) => {
                valid.push(r);
            },
            Err(w) => {
                gaps.push(w);
            },
        }
        k += 1;
    }
    proof {
        assert(k == all.len());
        assert(all.take(k as int) =~= all);
        lemma_outcomes_split(all);
    }
    let valid_count = valid.len();
    let sorted = sort_valid_runs(valid);
    let selected = select_window(sorted, requested_last_n);
    if !counts_fit(&selected) {
        return None;
    }
    let t = project_trends(project_root, generated_at, requested_last_n, &selected, valid_count, discovered, gaps);
    Some(t)
}


/// A run id that names no discovered run.
#[derive(Debug, Clone)]
pub struct RunNotFound {
    pub run_id: String,
}

impl RunNotFound {
    pub open spec fn spec_message(&self) -> Seq<char> {
        "run not found: "@ + self.run_id@
    }

    /// The error as the text a user sees.
    pub fn message(&self) -> (out: String)
        ensures
            out@ == self.spec_message(),
    {
        let mut out = to_owned_string("run not found: ");
        out.append(self.run_id.as_str());
        out
    }
}

/// The run that the lookup of `run_id` found, or the error that no run has
/// that id.
pub fn found_run<T>(found: Option<T>, run_id: &str) -> (r: Result<T, RunNotFound>)
    ensures
        found is None <==> r is Err,
        found is Some ==> r == Ok::<T, RunNotFound>(found->Some_0),
        r is Err ==> r->Err_0.run_id@ == run_id@ && r->Err_0.spec_message() == "run not found: "@ + run_id@,
{
    match found {
        Some(run) => Ok(run),
        None => Err(RunNotFound { run_id: to_owned_string(run_id) }),
    }
}


/// A trends report flags data gaps exactly when some discovered run could
/// not be used or a positive `last_n` asked for more runs than were
/// selected; without warnings, the flag is set exactly when the notes carry
/// the `requested_last_n=..., available_valid_runs=...` note.
pub proof fn law_data_gaps(requested_last_n: nat, selected: nat, warnings: nat)
    ensures
        requested_last_n > 0 && selected < requested_last_n ==> spec_data_gaps(requested_last_n, selected, warnings),
        warnings > 0 ==> spec_data_gaps(requested_last_n, selected, warnings),
        warnings == 0 && (requested_last_n == 0 || selected >= requested_last_n) ==> !spec_data_gaps(
            requested_last_n,
            selected,
            warnings,
        ),
        warnings == 0 ==> (spec_data_gaps(requested_last_n, selected, warnings) <==> exists|i: int|
            0 <= i < spec_trend_notes(requested_last_n, selected).len()
                && (#[trigger] spec_trend_notes(requested_last_n, selected)[i]).take(17) == "requested_last_n="@),
{
    reveal_strlit("requested_last_n=");
    reveal_strlit("no valid runs found");
    let notes = spec_trend_notes(requested_last_n, selected);
    assert("requested_last_n="@.len() == 17);
    if requested_last_n > 0 && selected < requested_last_n {
        let note = "requested_last_n="@ + decimal(requested_last_n) + ", available_valid_runs="@ + decimal(selected);
        assert(notes.last() == note);
        assert(note.take(17) =~= "requested_last_n="@);
        assert(notes[notes.len() - 1] == note);
    } else {
        assert forall|i: int| 0 <= i < notes.len() implies (#[trigger] notes[i]).take(17) != "requested_last_n="@ by {
            assert(notes[i] == "no valid runs found"@);
            assert(notes[i].take(17)[0] == 'n');
        }
    }
}

} // verus!
