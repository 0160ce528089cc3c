//! The summary of a translation matrix: which playback target carries the
//! highest and the lowest translation risk, and which targets fail most.
use vstd::prelude::*;
use crate::gates::GateStatus;
use crate::ordered::{KeyOrder, stably_sorted, sort_by_key_stable};
use crate::text::to_owned_string;

verus! {

/// What the summary reads of one target's result.
#[derive(Debug, Clone)]
pub struct TargetRisk {
    pub target_id: String,
    pub gate_status: GateStatus,
    pub translation_risk: u32,
}

/// A target that did not pass, as the summary lists it.
#[derive(Debug, Clone)]
pub struct TranslationFailingTarget {
    pub target_id: String,
    pub gate_status: GateStatus,
    pub translation_risk: u32,
}

/// How severe a gate status is: fail above warn above pass.
pub open spec fn spec_gate_rank(s: GateStatus) -> int {
    match s {
        GateStatus::Fail => 2,
        GateStatus::Warn => 1,
        GateStatus::Pass => 0,
    }
}

fn gate_rank(s: GateStatus) -> (r: u8)
    ensures
        r as int == spec_gate_rank(s),
{
    match s {
        GateStatus::Fail => 2,
        GateStatus::Warn => 1,
        GateStatus::Pass => 0,
    }
}

/// The worst target, scanning in order: a target takes the place when none
/// is held yet (the held name is empty) or its risk is strictly higher.
pub open spec fn worst_fold(rs: Seq<TargetRisk>) -> (Seq<char>, int)
    decreases rs.len(),
{
    if rs.len() == 0 {
        (Seq::empty(), 0)
    } else {
        let a = worst_fold(rs.drop_last());
        let t = rs.last();
        if a.0.len() == 0 || t.translation_risk > a.1 { (t.target_id@, t.translation_risk as int) } else { a }
    }
}

/// The best target, scanning in order: a target takes the place when none
/// is held yet or its risk is strictly lower.
pub open spec fn best_fold(rs: Seq<TargetRisk>) -> (Seq<char>, int)
    decreases rs.len(),
{
    if rs.len() == 0 {
        (Seq::empty(), u32::MAX as int)
    } else {
        let a = best_fold(rs.drop_last());
        let t = rs.last();
        if a.0.len() == 0 || t.translation_risk < a.1 { (t.target_id@, t.translation_risk as int) } else { a }
    }
}

/// The worst and the best target (empty names when there are no targets).
pub fn worst_and_best(targets: &Vec<TargetRisk>) -> (out: (String, String))
    ensures
        out.0@ == worst_fold(targets@).0,
        out.1@ == best_fold(targets@).0,
{
    let mut worst = String::new();
    let mut worst_risk: u32 = 0;
    let mut best = String::new();
    let mut best_risk: u32 = 4294967295u32;
    let mut i: usize = 0;
    while i < targets.len()
        invariant
            i <= targets@.len(),
            (worst@, worst_risk as int) == worst_fold(targets@.take(i as int)),
            (best@, best_risk as int) == best_fold(targets@.take(i as int)),
        decreases targets@.len() - i,
    {
        proof {
            assert(targets@.take(i + 1).drop_last() =~= targets@.take(i as int));
            assert(targets@.take(i + 1).last() == targets@[i as int]);
        }
        let t = &targets[i];
        if worst.as_str().is_empty() || t.translation_risk > worst_risk {
            worst = t.target_id.clone();
            worst_risk = t.translation_risk;
        }
        if best.as_str().is_empty() || t.translation_risk < best_risk {
            best = t.target_id.clone();
            best_risk = t.translation_risk;
        }
        i += 1;
    }
    assert(targets@.take(i as int) =~= targets@);
    (worst, best)
}

impl KeyOrder for TranslationFailingTarget {
    type K = (int, int);

    /// Failing targets rank by gate status (fail first), then by risk
    /// (highest first).
    open spec fn key(&self) -> (int, int) {
        (spec_gate_rank(self.gate_status), self.translation_risk as int)
    }

    open spec fn key_lt(a: (int, int), b: (int, int)) -> bool {
        a.0 > b.0 || (a.0 == b.0 && a.1 > b.1)
    }

    proof fn lemma_key_lt_irreflexive(a: (int, int)) {
    }

    proof fn lemma_key_lt_transitive(a: (int, int), b: (int, int), c: (int, int)) {
    }

    proof fn lemma_key_lt_total(a: (int, int), b: (int, int)) {
    }

    fn key_less(&self, other: &Self) -> (r: bool) {
        let a = gate_rank(self.gate_status);
        let b = gate_rank(other.gate_status);
        a > b || (a == b && self.translation_risk > other.translation_risk)
    }
}

/// A failing target as plain values.
pub type FailingView = (Seq<char>, GateStatus, u32);

pub open spec fn failing_view(f: TranslationFailingTarget) -> FailingView {
    (f.target_id@, f.gate_status, f.translation_risk)
}

pub open spec fn failing_views(s: Seq<TranslationFailingTarget>) -> Seq<FailingView> {
    s.map_values(|f: TranslationFailingTarget| failing_view(f))
}

/// The targets that did not pass, in target order.
pub open spec fn spec_failing(rs: Seq<TargetRisk>) -> Seq<FailingView>
    decreases rs.len(),
{
    if rs.len() == 0 {
        Seq::empty()
    } else if rs.last().gate_status == GateStatus::Pass {
        spec_failing(rs.drop_last())
    } else {
        spec_failing(rs.drop_last()).push((rs.last().target_id@, rs.last().gate_status, rs.last().translation_risk))
    }
}

pub open spec fn failing_key(v: FailingView) -> (int, int) {
    (spec_gate_rank(v.1), v.2 as int)
}

/// `out` is `inp` ordered by gate status (fail first), then risk (highest
/// first), ties kept in their original order.
pub open spec fn ranked_failing_witness(out: Seq<FailingView>, inp: Seq<FailingView>, perm: Seq<int>) -> bool {
    &&& perm.len() == inp.len()
    &&& out.len() == inp.len()
    &&& forall|i: int| 0 <= i < perm.len() ==> 0 <= #[trigger] perm[i] < inp.len()
    &&& forall|i: int, j: int| 0 <= i < j < perm.len() ==> #[trigger] perm[i] != #[trigger] perm[j]
    &&& forall|t: int| 0 <= t < inp.len() ==> #[trigger] crate::ordered::hits(perm, t)
    &&& forall|i: int| 0 <= i < out.len() ==> #[trigger] out[i] == inp[perm[i]]
    &&& forall|i: int, j: int| 0 <= i < j < out.len() ==>
        !TranslationFailingTarget::key_lt(failing_key(#[trigger] out[j]), failing_key(#[trigger] out[i]))
    &&& forall|i: int, j: int| 0 <= i < j < out.len() && failing_key(#[trigger] out[i]) == failing_key(#[trigger] out[j])
        ==> perm[i] < perm[j]
}

pub open spec fn ranked_failing(out: Seq<FailingView>, inp: Seq<FailingView>) -> bool {
    exists|perm: Seq<int>| ranked_failing_witness(out, inp, perm)
}

proof fn lemma_ranked_views(out: Seq<TranslationFailingTarget>, inp: Seq<TranslationFailingTarget>)
    requires
        stably_sorted(out, inp),
    ensures
        ranked_failing(failing_views(out), failing_views(inp)),
{
    let perm = choose|perm: Seq<int>| crate::ordered::stable_sort_witness(out, inp, perm);
    let vo = failing_views(out);
    let vi = failing_views(inp);
    assert forall|i: int| 0 <= i < vo.len() implies #[trigger] vo[i] == vi[perm[i]] by {
        assert(out[i] == inp[perm[i]]);
    }
    assert forall|t: int| 0 <= t < vi.len() implies #[trigger] crate::ordered::hits(perm, t) by {
        assert(crate::ordered::hits(perm, t));
    }
    assert forall|i: int, j: int| 0 <= i < j < vo.len() implies
        !TranslationFailingTarget::key_lt(failing_key(#[trigger] vo[j]), failing_key(#[trigger] vo[i])) by {
        assert(!TranslationFailingTarget::key_lt(out[j].key(), out[i].key()));
    }
    assert forall|i: int, j: int| 0 <= i < j < vo.len() && failing_key(#[trigger] vo[i]) == failing_key(#[trigger] vo[j])
        implies perm[i] < perm[j] by {
        assert(out[i].key() == out[j].key());
    }
    assert(ranked_failing_witness(vo, vi, perm));
}

/// The three most failing targets: those that did not pass, fail before
/// warn, then higher risk first, ties in target order.
pub fn top_failing_targets(targets: &Vec<TargetRisk>) -> (out: Vec<TranslationFailingTarget>)
    ensures
        exists|ranked: Seq<FailingView>| #[trigger] ranked_failing(ranked, spec_failing(targets@))
            && failing_views(out@) == ranked.take(if ranked.len() < 3 { ranked.len() as int } else { 3 }),
{
    let mut failing: Vec<TranslationFailingTarget> = Vec::new();
    let mut i: usize = 0;
    while i < targets.len()
        invariant
            i <= targets@.len(),
            failing_views(failing@) == spec_failing(targets@.take(i as int)),
        decreases targets@.len() - i,
    {
        proof {
            assert(targets@.take(i + 1).drop_last() =~= targets@.take(i as int));
            assert(targets@.take(i + 1).last() == targets@[i as int]);
        }
        let t = &targets[i];
        if t.gate_status != GateStatus::Pass {
            let f = TranslationFailingTarget {
                target_id: t.target_id.clone(),
                gate_status: t.gate_status,
                translation_risk: t.translation_risk,
            };
            let ghost before = failing@;
            failing.push(f);
            assert(failing_views(failing@) =~= failing_views(before).push(failing_view(f)));
        }
        i += 1;
    }
    assert(targets@.take(i as int) =~= targets@);
    let ghost unsorted = failing@;
    let mut sorted = sort_by_key_stable(failing);
    proof {
        lemma_ranked_views(sorted@, unsorted);
    }
    let ghost ranked = failing_views(sorted@);
    sorted.truncate(3);
    proof {
        if ranked.len() < 3 {
            assert(ranked.take(ranked.len() as int) =~= ranked);
        }
        assert(failing_views(sorted@) =~= ranked.take(if ranked.len() < 3 { ranked.len() as int } else { 3 }));
    }
    sorted
}

/// The sum of the targets' risks and how many targets there are, from which
/// the average risk is taken.
pub fn risk_total(targets: &Vec<TargetRisk>) -> (out: (u64, u64))
    requires
        targets@.len() < 4294967296,
    ensures
        out.0 == risk_sum(targets@),
        out.1 == targets@.len(),
{
    let mut sum: u64 = 0;
    let mut i: usize = 0;
    while i < targets.len()
        invariant
            i <= targets@.len() < 4294967296,
            sum == risk_sum(targets@.take(i as int)),
            sum <= i * 4294967295,
        decreases targets@.len() - i,
    {
        proof {
            assert(targets@.take(i + 1).drop_last() =~= targets@.take(i as int));
        }
        sum = sum + targets[i].translation_risk as u64;
        i += 1;
    }
    assert(targets@.take(i as int) =~= targets@);
    (sum, targets.len() as u64)
}

/// The sum of the risks.
pub open spec fn risk_sum(rs: Seq<TargetRisk>) -> int
    decreases rs.len(),
{
    if rs.len() == 0 { 0 } else { risk_sum(rs.drop_last()) + rs.last().translation_risk }
}


/// With non-empty target ids, the worst target is the first one with the
/// highest risk: the returned place holds it.
pub proof fn law_worst_is_first_highest(rs: Seq<TargetRisk>) -> (k: int)
    requires
        rs.len() > 0,
        forall|i: int| 0 <= i < rs.len() ==> (#[trigger] rs[i]).target_id@.len() > 0,
    ensures
        0 <= k < rs.len(),
        worst_fold(rs) == (rs[k].target_id@, rs[k].translation_risk as int),
        forall|i: int| 0 <= i < rs.len() ==> #[trigger] rs[i].translation_risk <= rs[k].translation_risk,
        forall|i: int| 0 <= i < k ==> #[trigger] rs[i].translation_risk < rs[k].translation_risk,
    decreases rs.len(),
{
    let init = rs.drop_last();
    let n = rs.len() - 1;
    assert(rs[n] == rs.last());
    if init.len() == 0 {
        assert(worst_fold(init) == (Seq::<char>::empty(), 0int));
        assert(worst_fold(rs) == (rs[n].target_id@, rs[n].translation_risk as int));
        n
    } else {
        assert forall|i: int| 0 <= i < init.len() implies (#[trigger] init[i]).target_id@.len() > 0 by {
            assert(init[i] == rs[i]);
        }
        let w = law_worst_is_first_highest(init);
        assert(init[w] == rs[w]);
        assert(rs[w].target_id@.len() > 0);
        if rs[n].translation_risk > rs[w].translation_risk {
            assert(worst_fold(rs) == (rs[n].target_id@, rs[n].translation_risk as int));
            assert forall|i: int| 0 <= i < rs.len() implies #[trigger] rs[i].translation_risk <= rs[n].translation_risk by {
                if i < n {
                    assert(init[i] == rs[i]);
                    assert(init[i].translation_risk <= init[w].translation_risk);
                }
            }
            assert forall|i: int| 0 <= i < n implies #[trigger] rs[i].translation_risk < rs[n].translation_risk by {
                assert(init[i] == rs[i]);
                assert(init[i].translation_risk <= init[w].translation_risk);
            }
            n
        } else {
            assert(worst_fold(rs) == worst_fold(init));
            assert forall|i: int| 0 <= i < rs.len() implies #[trigger] rs[i].translation_risk <= rs[w].translation_risk by {
                if i < n {
                    assert(init[i] == rs[i]);
                    assert(init[i].translation_risk <= init[w].translation_risk);
                }
            }
            assert forall|i: int| 0 <= i < w implies #[trigger] rs[i].translation_risk < rs[w].translation_risk by {
                assert(init[i] == rs[i]);
                assert(init[i].translation_risk < init[w].translation_risk);
            }
            w
        }
    }
}

/// With non-empty target ids, the best target is the first one with the
/// lowest risk: the returned place holds it.
pub proof fn law_best_is_first_lowest(rs: Seq<TargetRisk>) -> (k: int)
    requires
        rs.len() > 0,
        forall|i: int| 0 <= i < rs.len() ==> (#[trigger] rs[i]).target_id@.len() > 0,
    ensures
        0 <= k < rs.len(),
        best_fold(rs) == (rs[k].target_id@, rs[k].translation_risk as int),
        forall|i: int| 0 <= i < rs.len() ==> #[trigger] rs[i].translation_risk >= rs[k].translation_risk,
        forall|i: int| 0 <= i < k ==> #[trigger] rs[i].translation_risk > rs[k].translation_risk,
    decreases rs.len(),
{
    let init = rs.drop_last();
    let n = rs.len() - 1;
    assert(rs[n] == rs.last());
    if init.len() == 0 {
        assert(best_fold(init) == (Seq::<char>::empty(), u32::MAX as int));
        assert(best_fold(rs) == (rs[n].target_id@, rs[n].translation_risk as int));
        n
    } else {
        assert forall|i: int| 0 <= i < init.len() implies (#[trigger] init[i]).target_id@.len() > 0 by {
            assert(init[i] == rs[i]);
        }
        let w = law_best_is_first_lowest(init);
        assert(init[w] == rs[w]);
        assert(rs[w].target_id@.len() > 0);
        if rs[n].translation_risk < rs[w].translation_risk {
            assert(best_fold(rs) == (rs[n].target_id@, rs[n].translation_risk as int));
            assert forall|i: int| 0 <= i < rs.len() implies #[trigger] rs[i].translation_risk >= rs[n].translation_risk by {
                if i < n {
                    assert(init[i] == rs[i]);
                    assert(init[i].translation_risk >= init[w].translation_risk);
                }
            }
            assert forall|i: int| 0 <= i < n implies #[trigger] rs[i].translation_risk > rs[n].translation_risk by {
                assert(init[i] == rs[i]);
                assert(init[i].translation_risk >= init[w].translation_risk);
            }
            n
        } else {
            assert(best_fold(rs) == best_fold(init));
            assert forall|i: int| 0 <= i < rs.len() implies #[trigger] rs[i].translation_risk >= rs[w].translation_risk by {
                if i < n {
                    assert(init[i] == rs[i]);
                    assert(init[i].translation_risk >= init[w].translation_risk);
                }
            }
            assert forall|i: int| 0 <= i < w implies #[trigger] rs[i].translation_risk > rs[w].translation_risk by {
                assert(init[i] == rs[i]);
                assert(init[i].translation_risk > init[w].translation_risk);
            }
            w
        }
    }
}


/// The note attached to a mono target's result.
pub const MONO_NOT_APPLICABLE_NOTE: &'static str =
    "mono target; stereo correlation and L/R balance are not applicable";

/// A target's notes: its preset, the mono note for a mono target, then the
/// drift notes in order.
pub open spec fn spec_target_notes(target_id: Seq<char>, is_mono: bool, drift_notes: Seq<Seq<char>>) -> Seq<Seq<char>> {
    seq!["preset="@ + target_id] + (if is_mono { seq![MONO_NOT_APPLICABLE_NOTE@] } else { Seq::empty() })
        + drift_notes
}

/// The notes listed for one simulated target.
pub fn target_notes(target_id: &str, is_mono: bool, drift_notes: &Vec<String>) -> (out: Vec<String>)
    ensures
        out@.map_values(|s: String| s@) == spec_target_notes(
            target_id@,
            is_mono,
            drift_notes@.map_values(|s: String| s@),
        ),
{
    let mut first = to_owned_string("preset=");
    first.append(target_id);
    let mut out: Vec<String> = Vec::new();
    out.push(first);
    if is_mono {
        out.push(to_owned_string(MONO_NOT_APPLICABLE_NOTE));
    }
    let ghost head = out@.map_values(|s: String| s@);
    let mut i: usize = 0;
    while i < drift_notes.len()
        invariant
            i <= drift_notes@.len(),
            out@.map_values(|s: String| s@) == head + drift_notes@.map_values(|s: String| s@).take(i as int),
        decreases drift_notes@.len() - i,
    {
        let n = drift_notes[i].clone();
        let ghost before = out@;
        out.push(n);
        proof {
            assert(out@ == before.push(n));
            assert(n@ == drift_notes@.map_values(|s: String| s@)[i as int]);
            assert(out@.map_values(|s: String| s@) =~= before.map_values(|s: String| s@).push(n@));
            assert(out@.map_values(|s: String| s@) =~= head + drift_notes@.map_values(|s: String| s@).take(i + 1));
        }
        i += 1;
    }
    proof {
        assert(drift_notes@.map_values(|s: String| s@).take(drift_notes@.len() as int) =~= drift_notes@.map_values(|s: String| s@));
        assert(out@.map_values(|s: String| s@) =~= spec_target_notes(
            target_id@,
            is_mono,
            drift_notes@.map_values(|s: String| s@),
        ));
    }
    out
}

} // verus!
