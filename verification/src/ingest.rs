//! Where a registered asset is kept inside the project, and under which format.
use vstd::prelude::*;
use crate::paths::{extension_of, file_name_of, join_spec, path_file_name, split_file_name};
use crate::text::{ascii_lower, to_ascii_lower, to_owned_string};

verus! {

/// The analyzer version recorded on newly queued runs.
pub const ANALYZER_VERSION: &'static str = "TelemetryAnalyzer/1.0.0";

/// The format of an asset: its extension in lower case, or `bin`.
pub open spec fn spec_asset_format(path: Seq<char>) -> Seq<char> {
    match file_name_of(path) {
        Some(n) => match extension_of(n) {
            Some(e) => ascii_lower(e),
            None => "bin"@,
        },
        None => "bin"@,
    }
}

/// The format recorded for an asset file.
pub fn asset_format(path: &str) -> (out: String)
    ensures
        out@ == spec_asset_format(path@),
{
    match path_file_name(path) {
        Some(n) => {
            let (_stem, ext) = split_file_name(n.as_str());
            match ext {
                Some(e) => to_ascii_lower(e.as_str()),
                None => to_owned_string("bin"),
            }
        },
        None => to_owned_string("bin"),
    }
}

/// Where the project keeps its own copy of an asset:
/// `<root>/SCE/assets/<asset_id>/original.<format>`.
pub fn original_copy_path(project_root: &str, asset_id: &str, format: &str) -> (out: String)
    ensures
        out@ == join_spec(crate::paths::spec_asset_dir(project_root@, asset_id@), "original."@ + format@),
{
    let mut name = to_owned_string("original.");
    name.append(format);
    crate::paths::path_join(&crate::paths::asset_dir(project_root, asset_id), name.as_str())
}

} // verus!
