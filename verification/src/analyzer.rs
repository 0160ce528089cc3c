//! The analyzer's metrics record.
use vstd::prelude::*;

verus! {

/// Metrics recorded for an analyzed file.
#[derive(Debug, Clone)]
pub struct Metrics {
    pub analyzer_version: String,
    pub notes: String,
    pub placeholder: bool,
}

/// The placeholder metrics the stub analyzer reports for any file.
pub fn analyze_stub(_path: &str, analyzer_version: &str) -> (m: Metrics)
    ensures
        m.analyzer_version@ == analyzer_version@,
        m.notes@ == "AnalyzerStub v0: telemetry not yet implemented"@,
        m.placeholder,
{
    Metrics {
        analyzer_version: analyzer_version.to_owned(),
        notes: "AnalyzerStub v0: telemetry not yet implemented".to_owned(),
        placeholder: true,
    }
}

} // verus!
