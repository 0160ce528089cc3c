//! Gate outcomes and how a run's overall gate status is derived from them.
use vstd::prelude::*;

verus! {

/// Declares `serde_json::Value` so that gate evidence can be carried through
/// the library untouched.
#[verifier::external_type_specification]
#[verifier::external_body]
pub struct ExJsonValue(serde_json::Value);

pub const GATE_FORMAT_SAMPLE_RATE: &'static str = "G001_FormatSampleRate";
pub const GATE_FORMAT_BIT_DEPTH: &'static str = "G002_BitDepth";
pub const GATE_TRUE_PEAK_CEILING: &'static str = "G003_TruePeakCeiling";
pub const GATE_HARD_CLIPPING: &'static str = "G004_HardClipping";
pub const GATE_STEREO_CORRELATION: &'static str = "W001_StereoCorrelation";
pub const GATE_LR_BALANCE: &'static str = "W002_LRBalance";
pub const GATE_SPECTRAL_BAND_OUTSIDE: &'static str = "W003_SpectralBandOutside";
pub const GATE_DYNAMICS_OUTSIDE: &'static str = "W004_DynamicsOutside";
pub const GATE_LOUDNESS_OUTSIDE: &'static str = "W005_LoudnessOutside";
pub const GATE_TONAL_CURVE_RECORDED: &'static str = "I001_TonalCurveRecorded";
pub const GATE_TRANSIENT_PROXY_RECORDED: &'static str = "I002_TransientProxyRecorded";

/// How much a failing gate matters.
#[derive(Debug, Clone, Copy, PartialEq, Eq, Structural)]
pub enum GateSeverity {
    Blocker,
    Warn,
    Info,
}

/// Overall status of a run's gates.
#[derive(Debug, Clone, Copy, PartialEq, Eq, Structural)]
pub enum GateStatus {
    Fail,
    Warn,
    Pass,
}

/// One evaluated gate. `evidence` is carried through unread.
#[derive(Debug)]
pub struct GateResult {
    pub gate_name: String,
    pub severity: GateSeverity,
    pub pass_fail: bool,
    pub evidence: serde_json::Value,
    pub rationale: String,
}

/// A gate of the given severity that did not pass.
pub open spec fn failed_with(g: GateResult, severity: GateSeverity) -> bool {
    g.severity == severity && !g.pass_fail
}

/// Fail if any blocker failed, else Warn if any warn-level gate failed, else Pass.
pub open spec fn spec_gate_status(gates: Seq<GateResult>) -> GateStatus {
    if exists|i: int| 0 <= i < gates.len() && failed_with(#[trigger] gates[i], GateSeverity::Blocker) {
        GateStatus::Fail
    } else if exists|i: int| 0 <= i < gates.len() && failed_with(#[trigger] gates[i], GateSeverity::Warn) {
        GateStatus::Warn
    } else {
        GateStatus::Pass
    }
}

/// The overall status of a list of gates.
pub fn compute_gate_status(gates: &[GateResult]) -> (status: GateStatus)
    ensures
        status == spec_gate_status(gates@),
{
    let mut any_blocker = false;
    let mut any_warn = false;
    let mut i: usize = 0;
    while i < gates.len()
        invariant
            i <= gates@.len(),
            any_blocker == exists|k: int| 0 <= k < i && failed_with(#[trigger] gates@[k], GateSeverity::Blocker),
            any_warn == exists|k: int| 0 <= k < i && failed_with(#[trigger] gates@[k], GateSeverity::Warn),
        decreases gates@.len() - i,
    {
        let g = &gates[i];
        if !g.pass_fail {
            match g.severity {
                GateSeverity::Blocker => {
                    any_blocker = true;
                },
                GateSeverity::Warn => {
                    any_warn = true;
                },
                GateSeverity::Info => {},
            }
        }
        i += 1;
    }
    if any_blocker {
        GateStatus::Fail
    } else if any_warn {
        GateStatus::Warn
    } else {
        GateStatus::Pass
    }
}

/// Severity rank of a status: Fail 2, Warn 1, Pass 0.
pub open spec fn spec_gate_rank(status: GateStatus) -> u8 {
    match status {
        GateStatus::Fail => 2,
        GateStatus::Warn => 1,
        GateStatus::Pass => 0,
    }
}

/// The rank used to order statuses from worst to best.
pub fn gate_rank(status: GateStatus) -> (r: u8)
    ensures
        r == spec_gate_rank(status),
{
    match status {
        GateStatus::Fail => 2,
        GateStatus::Warn => 1,
        GateStatus::Pass => 0,
    }
}

/// The worse of two statuses.
pub open spec fn spec_worst_status(current: GateStatus, incoming: GateStatus) -> GateStatus {
    if spec_gate_rank(current) >= spec_gate_rank(incoming) {
        current
    } else {
        incoming
    }
}

/// The worse of two statuses (Fail before Warn before Pass).
pub fn worst_status(current: GateStatus, incoming: GateStatus) -> (r: GateStatus)
    ensures
        r == spec_worst_status(current, incoming),
{
    match (current, incoming) {
        (GateStatus::Fail, _) | (_, GateStatus::Fail) => GateStatus::Fail,
        (GateStatus::Warn, _) | (_, GateStatus::Warn) => GateStatus::Warn,
        _ => GateStatus::Pass,
    }
}

} // verus!
