//! What the analysis worker records when a run fails: the message for each
//! way a run can fail, as it is stored with the run.
use vstd::prelude::*;
use crate::ingest::{asset_format, spec_asset_format};
use crate::text::{to_owned_string, trim};

verus! {

/// How a claimed run failed.
#[derive(Debug, Clone)]
pub enum RunFailure {
    /// The asset's internal copy could not be found.
    InternalCopyMissing { file_path: String, source_path: String, detail: String },
    /// The run's pinned constitution could not be resolved.
    ConstitutionResolution { version: String, detail: String },
    /// The audio file could not be decoded.
    Decode { reason: String, file_path: String },
    /// The decoded audio could not be analysed.
    Analysis { reason: String },
    /// The report could not be written.
    ReportWrite { detail: String },
}

/// The message of a failure.
pub open spec fn spec_failure_message(f: RunFailure) -> Seq<char> {
    match f {
        RunFailure::InternalCopyMissing { file_path, source_path, detail } => "internal copy missing: "@
            + file_path@ + " (source="@ + source_path@ + ") ("@ + detail@ + ")"@,
        RunFailure::ConstitutionResolution { version, detail } => "constitution resolution failed for version "@
            + version@ + ": "@ + detail@,
        RunFailure::Decode { reason, file_path } => "decode failed: "@ + reason@ + " (file="@ + file_path@
            + ", format="@ + spec_asset_format(file_path@) + ")"@,
        RunFailure::Analysis { reason } => "analysis failed: "@ + reason@,
        RunFailure::ReportWrite { detail } => "report write failed: "@ + detail@,
    }
}

/// The message recorded for a failed run; a decode failure names the file's
/// lowercase extension (`bin` when it has none).
pub fn failure_message(f: &RunFailure) -> (out: String)
    ensures
        out@ == spec_failure_message(*f),
{
    match f {
        RunFailure::InternalCopyMissing { file_path, source_path, detail } => {
            let mut out = to_owned_string("internal copy missing: ");
            out.append(file_path.as_str());
            out.append(" (source=");
            out.append(source_path.as_str());
            out.append(") (");
            out.append(detail.as_str());
            out.append(")");
            out
        },
        RunFailure::ConstitutionResolution { version, detail } => {
            let mut out = to_owned_string("constitution resolution failed for version ");
            out.append(version.as_str());
            out.append(": ");
            out.append(detail.as_str());
            out
        },
        RunFailure::Decode { reason, file_path } => {
            let mut out = to_owned_string("decode failed: ");
            out.append(reason.as_str());
            out.append(" (file=");
            out.append(file_path.as_str());
            out.append(", format=");
            let fmt = asset_format(file_path.as_str());
            out.append(fmt.as_str());
            out.append(")");
            out
        },
        RunFailure::Analysis { reason } => {
            let mut out = to_owned_string("analysis failed: ");
            out.append(reason.as_str());
            out
        },
        RunFailure::ReportWrite { detail } => {
            let mut out = to_owned_string("report write failed: ");
            out.append(detail.as_str());
            out
        },
    }
}

/// The message stored for a failed run: the given one, or `unknown failure`
/// when it is blank.
pub fn stored_failure_message(message: &str) -> (out: String)
    ensures
        trim(message@).len() == 0 ==> out@ == "unknown failure"@,
        trim(message@).len() > 0 ==> out@ == message@,
{
    if crate::graph::is_blank(message) {
        to_owned_string("unknown failure")
    } else {
        to_owned_string(message)
    }
}

} // verus!
