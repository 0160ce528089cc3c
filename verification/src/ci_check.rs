//! The CI check: a governance summary over evaluated runs, with an exit code
//! that reflects the worst gate status.
use vstd::prelude::*;
use crate::cll::{ValidRun, status_count, run_hits, total_gates, count_failed_gates, status_counts};
use crate::counts::{NameCount, rank_counts, count_in, pairs, is_ranking};
use crate::gates::{GateSeverity, GateStatus, worst_status, spec_worst_status};
use crate::text::{str_eq, to_owned_string};

verus! {

pub const SCHEMA_VERSION: &'static str = "1.0";

/// One evaluated run in the summary.
#[derive(Debug, Clone, PartialEq, Eq)]
pub struct CiEvaluatedRun {
    pub run_id: String,
    pub gate_status: GateStatus,
}

/// Runs by gate status.
#[derive(Debug, Clone, PartialEq, Eq)]
pub struct CiCounts {
    pub pass: usize,
    pub warn: usize,
    pub fail: usize,
}

/// A blocker gate and how often it failed.
#[derive(Debug, Clone, PartialEq, Eq)]
pub struct FailedBlockerCount {
    pub gate_name: String,
    pub count: usize,
}

/// The constitution all evaluated runs were checked against.
#[derive(Debug, Clone, PartialEq, Eq)]
pub struct ConstitutionSummary {
    pub version: String,
    pub hash: String,
    pub path: String,
}

/// The CI summary.
#[derive(Debug, Clone, PartialEq, Eq)]
pub struct CiSummary {
    pub schema_version: String,
    pub project_root: String,
    pub evaluated_runs: Vec<CiEvaluatedRun>,
    pub worst_gate_status: GateStatus,
    pub counts: CiCounts,
    pub top_failed_blockers: Vec<FailedBlockerCount>,
    pub constitution: Option<ConstitutionSummary>,
}

/// The worst status among the runs, starting from Pass.
pub open spec fn spec_worst_of(runs: Seq<ValidRun>) -> GateStatus
    decreases runs.len(),
{
    if runs.len() == 0 {
        GateStatus::Pass
    } else {
        spec_worst_status(spec_worst_of(runs.drop_last()), runs.last().gate_status)
    }
}

/// The constitution a run was evaluated against.
pub open spec fn constitution_of(r: ValidRun) -> (Seq<char>, Seq<char>, Seq<char>) {
    (r.constitution_version@, r.constitution_hash@, r.constitution_path@)
}

/// The constitution shared by all runs, if there are runs and they share one.
pub open spec fn spec_recovered_constitution(runs: Seq<ValidRun>) -> Option<(Seq<char>, Seq<char>, Seq<char>)> {
    if runs.len() > 0 && forall|i: int| 0 <= i < runs.len() ==> constitution_of(#[trigger] runs[i]) == constitution_of(runs[0]) {
        Some(constitution_of(runs[0]))
    } else {
        None
    }
}

/// A constitution summary as plain values.
pub open spec fn constitution_view(c: Option<ConstitutionSummary>) -> Option<(Seq<char>, Seq<char>, Seq<char>)> {
    match c {
        Some(s) => Some((s.version@, s.hash@, s.path@)),
        None => None,
    }
}

/// The constitution of the runs, reported only when every run shares it.
pub fn recover_constitution(runs: &Vec<ValidRun>) -> (out: Option<ConstitutionSummary>)
    ensures
        constitution_view(out) == spec_recovered_constitution(runs@),
{
    if runs.len() == 0 {
        return None;
    }
    let first = &runs[0];
    let mut i: usize = 0;
    while i < runs.len()
        invariant
            i <= runs@.len(),
            runs@.len() > 0,
            first == runs@[0],
            forall|k: int| 0 <= k < i ==> constitution_of(#[trigger] runs@[k]) == constitution_of(runs@[0]),
        decreases runs@.len() - i,
    {
        let r = &runs[i];
        if !(str_eq(r.constitution_version.as_str(), first.constitution_version.as_str())
            && str_eq(r.constitution_hash.as_str(), first.constitution_hash.as_str())
            && str_eq(r.constitution_path.as_str(), first.constitution_path.as_str())) {
            assert(constitution_of(runs@[i as int]) != constitution_of(runs@[0]));
            return None;
        }
        i += 1;
    }
    Some(ConstitutionSummary {
        version: first.constitution_version.clone(),
        hash: first.constitution_hash.clone(),
        path: first.constitution_path.clone(),
    })
}

/// Blocker failure counts as name and count pairs.
pub open spec fn blocker_pairs(v: Seq<FailedBlockerCount>) -> Seq<(Seq<char>, nat)> {
    v.map_values(|c: FailedBlockerCount| (c.gate_name@, c.count as nat))
}

/// The summary over the evaluated runs, in the order given: each run's id and
/// status, the worst status, the counts per status, the blocker gates ranked by
/// how often they failed, and the constitution when all runs share one.
pub fn build_summary(project_root: &str, evaluated: &Vec<ValidRun>) -> (out: CiSummary)
    requires
        total_gates(evaluated@) < usize::MAX,
    ensures
        out.schema_version@ == SCHEMA_VERSION@,
        out.project_root@ == project_root@,
        out.evaluated_runs@.len() == evaluated@.len(),
        forall|i: int| 0 <= i < evaluated@.len() ==> (#[trigger] out.evaluated_runs@[i]).run_id@ == evaluated@[i].run_id@
            && out.evaluated_runs@[i].gate_status == evaluated@[i].gate_status,
        out.worst_gate_status == spec_worst_of(evaluated@),
        out.counts.pass == status_count(evaluated@, GateStatus::Pass),
        out.counts.warn == status_count(evaluated@, GateStatus::Warn),
        out.counts.fail == status_count(evaluated@, GateStatus::Fail),
        is_ranking(blocker_pairs(out.top_failed_blockers@), |k: Seq<char>| run_hits(evaluated@, GateSeverity::Blocker, k)),
        constitution_view(out.constitution) == spec_recovered_constitution(evaluated@),
        out.counts.pass + out.counts.warn + out.counts.fail == evaluated@.len(),
        is_summary_of(out, project_root@, evaluated@),
{
    proof {
        lemma_status_counts_sum(evaluated@);
    }
    let c = status_counts(evaluated);
    let mut worst = GateStatus::Pass;
    let mut runs_out: Vec<CiEvaluatedRun> = Vec::new();
    let mut i: usize = 0;
    while i < evaluated.len()
        invariant
            i <= evaluated@.len(),
            worst == spec_worst_of(evaluated@.take(i as int)),
            runs_out@.len() == i,
            forall|k: int| 0 <= k < i ==> (#[trigger] runs_out@[k]).run_id@ == evaluated@[k].run_id@
                && runs_out@[k].gate_status == evaluated@[k].gate_status,
        decreases evaluated@.len() - i,
    {
        proof {
            assert(evaluated@.take(i + 1).drop_last() =~= evaluated@.take(i as int));
        }
        worst = worst_status(worst, evaluated[i].gate_status);
        runs_out.push(CiEvaluatedRun { run_id: evaluated[i].run_id.clone(), gate_status: evaluated[i].gate_status });
        i += 1;
    }
    assert(evaluated@.take(evaluated@.len() as int) =~= evaluated@);
    let blockers = count_failed_gates(evaluated, GateSeverity::Blocker);
    let ranked = rank_counts(blockers);
    let mut top: Vec<FailedBlockerCount> = Vec::new();
    let mut k: usize = 0;
    while k < ranked.len()
        invariant
            k <= ranked@.len(),
            blocker_pairs(top@) == pairs(ranked@).take(k as int),
        decreases ranked@.len() - k,
    {
        let ghost before = top@;
        let n = ranked[k].name.clone();
        top.push(FailedBlockerCount { gate_name: n, count: ranked[k].count });
        assert(n@ == ranked@[k as int].name@);
        assert(blocker_pairs(top@) =~= blocker_pairs(before).push((n@, ranked@[k as int].count as nat)));
        assert(blocker_pairs(top@) =~= pairs(ranked@).take(k + 1));
        k += 1;
    }
    assert(pairs(ranked@).take(ranked@.len() as int) =~= pairs(ranked@));
    proof {
        assert((|x: Seq<char>| count_in(blockers@, x)) =~= (|x: Seq<char>| run_hits(evaluated@, GateSeverity::Blocker, x)));
    }
    CiSummary {
        schema_version: to_owned_string(SCHEMA_VERSION),
        project_root: to_owned_string(project_root),
        evaluated_runs: runs_out,
        worst_gate_status: worst,
        counts: CiCounts { pass: c.pass, warn: c.warn, fail: c.fail },
        top_failed_blockers: top,
        constitution: recover_constitution(evaluated),
    }
}

/// The process exit code for a summary: 0 for Pass, 1 for Warn, 2 for Fail.
pub fn exit_code(summary: &CiSummary) -> (code: i32)
    ensures
        code == match summary.worst_gate_status {
            GateStatus::Pass => 0i32,
            GateStatus::Warn => 1i32,
            GateStatus::Fail => 2i32,
        },
{
    match summary.worst_gate_status {
        GateStatus::Pass => 0,
        GateStatus::Warn => 1,
        GateStatus::Fail => 2,
    }
}

proof fn lemma_status_counts_sum(runs: Seq<ValidRun>)
    ensures
        status_count(runs, GateStatus::Pass) + status_count(runs, GateStatus::Warn) + status_count(
            runs,
            GateStatus::Fail,
        ) == runs.len(),
    decreases runs.len(),
{
    if runs.len() > 0 {
        lemma_status_counts_sum(runs.drop_last());
    }
}

/// `s` is the summary of `evaluated` for `project_root`: each run's id and
/// status in order, the worst status, the per-status counts (which add up to
/// the number of runs), the blocker ranking and the shared constitution.
pub open spec fn is_summary_of(s: CiSummary, project_root: Seq<char>, evaluated: Seq<ValidRun>) -> bool {
    &&& s.schema_version@ == SCHEMA_VERSION@
    &&& s.project_root@ == project_root
    &&& s.evaluated_runs@.len() == evaluated.len()
    &&& forall|i: int| 0 <= i < evaluated.len() ==> (#[trigger] s.evaluated_runs@[i]).run_id@ == evaluated[i].run_id@
        && s.evaluated_runs@[i].gate_status == evaluated[i].gate_status
    &&& s.worst_gate_status == spec_worst_of(evaluated)
    &&& s.counts.pass == status_count(evaluated, GateStatus::Pass)
    &&& s.counts.warn == status_count(evaluated, GateStatus::Warn)
    &&& s.counts.fail == status_count(evaluated, GateStatus::Fail)
    &&& s.counts.pass + s.counts.warn + s.counts.fail == evaluated.len()
    &&& is_ranking(blocker_pairs(s.top_failed_blockers@), |k: Seq<char>| run_hits(evaluated, GateSeverity::Blocker, k))
    &&& constitution_view(s.constitution) == spec_recovered_constitution(evaluated)
}

/// The runs a CI check evaluates: the run named on the command line when
/// there is one, else the window of the last `last_n` valid runs (all of them
/// for 0) in the order given.
pub fn evaluated_runs(named: Option<ValidRun>, valid: Vec<ValidRun>, last_n: usize) -> (out: Vec<ValidRun>)
    ensures
        named is Some ==> out@ == seq![named->Some_0],
        named is None ==> out@ == crate::cll::spec_select_window(valid@, last_n as nat),
{
    match named {
        Some(r) => {
            let mut out: Vec<ValidRun> = Vec::new();
            out.push(r);
            assert(out@ =~= seq![named->Some_0]);
            out
        },
        None => crate::cll::select_window(valid, last_n),
    }
}

/// The CI operator's output: the summary and where it is written.
pub fn write_operator_output(project_root: &str, evaluated: &Vec<ValidRun>) -> (out: (CiSummary, String))
    requires
        total_gates(evaluated@) < usize::MAX,
    ensures
        is_summary_of(out.0, project_root@, evaluated@),
        out.0.evaluated_runs@.len() == evaluated@.len(),
        forall|i: int| 0 <= i < evaluated@.len() ==> (#[trigger] out.0.evaluated_runs@[i]).run_id@ == evaluated@[i].run_id@
            && out.0.evaluated_runs@[i].gate_status == evaluated@[i].gate_status,
        out.1@ == crate::paths::join_spec(crate::paths::spec_operator_dir(project_root@, "mixops_ci"@), "latest.json"@),
{
    (build_summary(project_root, evaluated), crate::paths::mixops_ci_operator_output_path(project_root))
}

/// The CI exit code follows the worst run: 2 when some evaluated run
/// failed, else 1 when some run warned, else 0 (also when no run was
/// evaluated).
pub proof fn law_exit_code_follows_worst_run(runs: Seq<ValidRun>)
    ensures
        (spec_worst_of(runs) == GateStatus::Fail) == (exists|i: int| 0 <= i < runs.len() && #[trigger] runs[i].gate_status == GateStatus::Fail),
        (spec_worst_of(runs) == GateStatus::Warn) == (
            (forall|i: int| 0 <= i < runs.len() ==> #[trigger] runs[i].gate_status != GateStatus::Fail)
            && exists|i: int| 0 <= i < runs.len() && #[trigger] runs[i].gate_status == GateStatus::Warn),
        (spec_worst_of(runs) == GateStatus::Pass) == (forall|i: int| 0 <= i < runs.len() ==> #[trigger] runs[i].gate_status == GateStatus::Pass),
    decreases runs.len(),
{
    if runs.len() > 0 {
        let init = runs.drop_last();
        law_exit_code_follows_worst_run(init);
        assert forall|i: int| 0 <= i < init.len() implies #[trigger] init[i] == runs[i] by {}
        let last = runs.len() - 1;
        if exists|i: int| 0 <= i < runs.len() && #[trigger] runs[i].gate_status == GateStatus::Fail {
            let i = choose|i: int| 0 <= i < runs.len() && #[trigger] runs[i].gate_status == GateStatus::Fail;
            if i < last {
                assert(init[i].gate_status == GateStatus::Fail);
            }
        }
        if exists|i: int| 0 <= i < runs.len() && #[trigger] runs[i].gate_status == GateStatus::Warn {
            let i = choose|i: int| 0 <= i < runs.len() && #[trigger] runs[i].gate_status == GateStatus::Warn;
            if i < last {
                assert(init[i].gate_status == GateStatus::Warn);
            }
        }
        if exists|i: int| 0 <= i < init.len() && #[trigger] init[i].gate_status == GateStatus::Fail {
            let i = choose|i: int| 0 <= i < init.len() && #[trigger] init[i].gate_status == GateStatus::Fail;
            assert(runs[i].gate_status == GateStatus::Fail);
        }
        if exists|i: int| 0 <= i < init.len() && #[trigger] init[i].gate_status == GateStatus::Warn {
            let i = choose|i: int| 0 <= i < init.len() && #[trigger] init[i].gate_status == GateStatus::Warn;
            assert(runs[i].gate_status == GateStatus::Warn);
        }
        if !(forall|i: int| 0 <= i < init.len() ==> #[trigger] init[i].gate_status == GateStatus::Pass) {
            let i = choose|i: int| !(0 <= i < init.len() ==> #[trigger] init[i].gate_status == GateStatus::Pass);
            assert(runs[i].gate_status != GateStatus::Pass);
        }
        if !(forall|i: int| 0 <= i < init.len() ==> #[trigger] init[i].gate_status != GateStatus::Fail) {
            let i = choose|i: int| !(0 <= i < init.len() ==> #[trigger] init[i].gate_status != GateStatus::Fail);
            assert(runs[i].gate_status == GateStatus::Fail);
        }
        assert(runs[last].gate_status == runs.last().gate_status);
    }
}

} // verus!
