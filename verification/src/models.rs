//! Rows of the project and analysis-run tables.
use vstd::prelude::*;
use crate::ordered::views;

verus! {

/// A row of `projects`.
#[derive(Debug, Clone)]
pub struct ProjectRow {
    pub id: String,
    pub name: String,
    pub root_path: String,
    pub constitution_path: String,
    pub watch_paths_json: String,
    pub created_at: String,
    pub updated_at: String,
}

/// A row of `analysis_runs`.
#[derive(Debug, Clone)]
pub struct AnalysisRunRow {
    pub id: String,
    pub asset_id: String,
    pub status: String,
    pub analyzer_version: String,
    pub constitution_version: String,
    pub queued_at: String,
    pub started_at: Option<String>,
    pub finished_at: Option<String>,
    pub error_message: Option<String>,
}

/// What `serde_json::from_str::<Vec<String>>` gives for a text: the list of
/// strings, or `None` when the text is not a JSON array of strings.
pub uninterp spec fn json_string_list(text: Seq<char>) -> Option<Seq<Seq<char>>>;

/// Reads a JSON array of strings (serde_json's `from_str`).
/// Trusted: the result is a function of the text alone.
#[verifier::external_body]
fn parse_string_list(text: &str) -> (r: Option<Vec<String>>)
    ensures
        match r {
            Some(v) => json_string_list(text@) == Some(views(v@)),
            None => json_string_list(text@) is None,
        },
{
    match serde_json::from_str::<Vec<String>>(text) {
        Ok(v) => Some(v),
        Err(_) => None,
    }
}

impl ProjectRow {
    /// The project's watch paths: the stored JSON list, or none when it does
    /// not read as one.
    pub fn watch_paths(&self) -> (out: Vec<String>)
        ensures
            match json_string_list(self.watch_paths_json@) {
                Some(l) => views(out@) == l,
                None => out@.len() == 0,
            },
    {
        match parse_string_list(self.watch_paths_json.as_str()) {
            Some(v) => v,
            None => Vec::new(),
        }
    }
}

} // verus!
