//! How a simulated playback target's gate failures and drift score combine
//! into its translation risk.
use vstd::prelude::*;
use crate::gates::{GateResult, GateSeverity};

verus! {

/// How many gates of `severity` did not pass.
pub open spec fn failed_count(gates: Seq<GateResult>, severity: GateSeverity) -> nat
    decreases gates.len(),
{
    if gates.len() == 0 {
        0
    } else {
        let g = gates.last();
        failed_count(gates.drop_last(), severity) + if !g.pass_fail && g.severity == severity {
            1nat
        } else {
            0nat
        }
    }
}

proof fn lemma_failed_count_bound(gates: Seq<GateResult>, severity: GateSeverity)
    ensures
        failed_count(gates, severity) <= gates.len(),
    decreases gates.len(),
{
    if gates.len() > 0 {
        lemma_failed_count_bound(gates.drop_last(), severity);
    }
}

/// The number of failed blocker gates and of failed warn gates.
pub fn count_failed_gates(gates: &[GateResult]) -> (out: (u32, u32))
    requires
        gates@.len() <= u32::MAX,
    ensures
        out.0 == failed_count(gates@, GateSeverity::Blocker),
        out.1 == failed_count(gates@, GateSeverity::Warn),
{
    let mut blockers: u32 = 0;
    let mut warns: u32 = 0;
    let mut i: usize = 0;
    while i < gates.len()
        invariant
            i <= gates@.len(),
            gates@.len() <= u32::MAX,
            blockers == failed_count(gates@.take(i as int), GateSeverity::Blocker),
            warns == failed_count(gates@.take(i as int), GateSeverity::Warn),
        decreases gates@.len() - i,
    {
        proof {
            let t = gates@.take(i + 1);
            assert(t.drop_last() =~= gates@.take(i as int));
            lemma_failed_count_bound(gates@.take(i as int), GateSeverity::Blocker);
            lemma_failed_count_bound(gates@.take(i as int), GateSeverity::Warn);
        }
        let g = &gates[i];
        if !g.pass_fail {
            match g.severity {
                GateSeverity::Blocker => {
                    blockers += 1;
                },
                GateSeverity::Warn => {
                    warns += 1;
                },
                GateSeverity::Info => {},
            }
        }
        i += 1;
    }
    assert(gates@.take(gates@.len() as int) =~= gates@);
    (blockers, warns)
}

/// Drift score plus 15 per failed blocker and 5 per failed warn gate,
/// capped at 100.
pub open spec fn spec_translation_risk(drift_score: u32, blockers: u32, warns: u32) -> int {
    let raw = drift_score + blockers * 15 + warns * 5;
    if raw > 100 {
        100
    } else {
        raw
    }
}

/// The translation risk of a simulated target.
pub fn translation_risk(drift_score: u32, blockers: u32, warns: u32) -> (r: u32)
    requires
        drift_score + blockers * 15 + warns * 5 <= u32::MAX,
    ensures
        r == spec_translation_risk(drift_score, blockers, warns),
{
    let raw = drift_score + blockers * 15 + warns * 5;
    if raw > 100 {
        100
    } else {
        raw
    }
}

} // verus!
