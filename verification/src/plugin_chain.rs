//! Plugin chain metadata of a run: which sidecar file describes the chain of
//! the run's source, and whether it could be used. The chain compiler itself
//! is not implemented; the metadata says so.
use vstd::prelude::*;
use crate::ordered::{views, copy_strings};
use crate::paths::{file_name_of, join_spec, path_file_name, split_file_name, stem_of};
use crate::ref_canon::{opt_view, copy_opt};
use crate::text::to_owned_string;

verus! {

const SCHEMA_VERSION: &'static str = "1.0";

/// A note about a sidecar that could not be used.
#[derive(Debug, Clone)]
pub struct ChainAdvisory {
    pub code: String,
    pub message: String,
}

/// `chain.meta.json` of a run.
#[derive(Debug, Clone)]
pub struct ChainMetadata {
    pub schema_version: String,
    pub run_id: String,
    pub source_path: String,
    pub sidecar_candidates: Vec<String>,
    pub selected_sidecar_path: Option<String>,
    pub sidecar_status: String,
    pub compiler_status: String,
    pub not_implemented: bool,
    pub advisory: Option<ChainAdvisory>,
}

/// What `Path::with_file_name` gives.
pub uninterp spec fn with_file_name_of(path: Seq<char>, name: Seq<char>) -> Seq<char>;

/// `path` with its final component replaced by `name` (std's
/// `Path::with_file_name`).
/// Trusted: the result is a function of the two arguments alone, converted to
/// a string exactly since both are UTF-8.
#[verifier::external_body]
fn path_with_file_name(path: &str, name: &str) -> (out: String)
    ensures
        out@ == with_file_name_of(path@, name@),
{
    std::path::Path::new(path).with_file_name(name).to_string_lossy().into_owned()
}

/// Whether a text parses as JSON, as `serde_json::from_str::<Value>` decides.
pub uninterp spec fn valid_json(text: Seq<char>) -> bool;

/// Whether `text` is JSON (serde_json's `from_str` into a `Value`).
/// Trusted: the answer is a function of the text alone.
#[verifier::external_body]
fn is_valid_json(text: &str) -> (r: bool)
    ensures
        r == valid_json(text@),
{
    serde_json::from_str::<serde_json::Value>(text).is_ok()
}

/// The stem used for the second candidate: the source's file stem, or
/// `source` when the path has no file name.
pub open spec fn source_stem(source_path: Seq<char>) -> Seq<char> {
    match file_name_of(source_path) {
        Some(n) => stem_of(n),
        None => "source"@,
    }
}

/// The sidecars that may describe the chain of `source_path`, in order of
/// precedence: `<source>.chain.json`, then `<stem>.chain.json` beside it.
pub open spec fn spec_candidate_paths(source_path: Seq<char>) -> Seq<Seq<char>> {
    seq![
        source_path + ".chain.json"@,
        with_file_name_of(source_path, source_stem(source_path) + ".chain.json"@),
    ]
}

/// The sidecar candidates of a source file, in order of precedence.
pub fn candidate_paths(source_path: &str) -> (out: Vec<String>)
    ensures
        views(out@) == spec_candidate_paths(source_path@),
{
    let mut source_chain = to_owned_string(source_path);
    source_chain.append(".chain.json");
    let mut stem = match path_file_name(source_path) {
        Some(n) => {
            let (s, _e) = split_file_name(n.as_str());
            s
        },
        None => to_owned_string("source"),
    };
    stem.append(".chain.json");
    let stem_chain = path_with_file_name(source_path, stem.as_str());
    let out = vec![source_chain, stem_chain];
    assert(views(out@) =~= spec_candidate_paths(source_path@));
    out
}

/// The first candidate that exists, given which of them exist.
pub fn select_first(candidates: &Vec<String>, exists: &Vec<bool>) -> (r: Option<String>)
    requires
        exists@.len() == candidates@.len(),
    ensures
        match r {
            Some(p) => exists|i: int| 0 <= i < candidates@.len() && exists@[i] && p@ == candidates@[i]@
                && forall|k: int| 0 <= k < i ==> !#[trigger] exists@[k],
            None => forall|k: int| 0 <= k < exists@.len() ==> !#[trigger] exists@[k],
        },
{
    let mut i: usize = 0;
    while i < candidates.len()
        invariant
            exists@.len() == candidates@.len(),
            i <= candidates@.len(),
            forall|k: int| 0 <= k < i ==> !#[trigger] exists@[k],
        decreases candidates@.len() - i,
    {
        if exists[i] {
            return Some(candidates[i].clone());
        }
        i += 1;
    }
    None
}

/// The first candidate that exists now.
pub fn select_sidecar(candidates: &Vec<String>) -> (r: Option<String>)
    ensures
        match r {
            Some(p) => exists|i: int| 0 <= i < candidates@.len() && p@ == #[trigger] candidates@[i]@,
            None => true,
        },
{
    let mut exists: Vec<bool> = Vec::new();
    let mut i: usize = 0;
    while i < candidates.len()
        invariant
            i <= candidates@.len(),
            exists@.len() == i,
        decreases candidates@.len() - i,
    {
        exists.push(crate::paths::path_exists(candidates[i].as_str()));
        i += 1;
    }
    select_first(candidates, &exists)
}

/// What came of the selected sidecar.
#[derive(Debug, Clone, Copy, PartialEq, Eq, Structural)]
pub enum SidecarState {
    /// No candidate exists.
    Absent,
    /// The selected candidate could not be read.
    Unreadable,
    /// The selected candidate was read; whether it is JSON.
    Read { valid_json: bool },
}

/// The state of the selected sidecar given its text (`None` when it could
/// not be read); the text is checked for JSON here.
pub fn sidecar_state(selected: bool, text: Option<&str>) -> (s: SidecarState)
    ensures
        !selected ==> s == SidecarState::Absent,
        selected && text is None ==> s == SidecarState::Unreadable,
        selected && text is Some ==> s == (SidecarState::Read { valid_json: valid_json(text->Some_0@) }),
{
    if !selected {
        SidecarState::Absent
    } else {
        match text {
            None => SidecarState::Unreadable,
            Some(t) => SidecarState::Read { valid_json: is_valid_json(t) },
        }
    }
}

/// The status word for a sidecar state.
pub open spec fn spec_status(s: SidecarState) -> Seq<char> {
    match s {
        SidecarState::Absent => "absent"@,
        SidecarState::Unreadable => "unreadable"@,
        SidecarState::Read { valid_json } => if valid_json { "selected"@ } else { "invalid"@ },
    }
}

/// The advisory for a sidecar state, as (code, message).
pub open spec fn spec_advisory(s: SidecarState) -> Option<(Seq<char>, Seq<char>)> {
    match s {
        SidecarState::Unreadable => Some(("unreadable_sidecar"@, "selected sidecar could not be read"@)),
        SidecarState::Read { valid_json } => if valid_json {
            None
        } else {
            Some(("invalid_sidecar"@, "selected sidecar is not valid JSON"@))
        },
        SidecarState::Absent => None,
    }
}

pub open spec fn advisory_view(a: Option<ChainAdvisory>) -> Option<(Seq<char>, Seq<char>)> {
    match a {
        Some(x) => Some((x.code@, x.message@)),
        None => None,
    }
}

/// The status and advisory recorded for a sidecar state: a usable sidecar is
/// `selected`; an unreadable or non-JSON one is recorded with an advisory
/// and does not fail the run.
pub fn sidecar_verdict(s: SidecarState) -> (out: (String, Option<ChainAdvisory>))
    ensures
        out.0@ == spec_status(s),
        advisory_view(out.1) == spec_advisory(s),
{
    match s {
        SidecarState::Absent => (to_owned_string("absent"), None),
        SidecarState::Unreadable => (
            to_owned_string("unreadable"),
            Some(ChainAdvisory {
                code: to_owned_string("unreadable_sidecar"),
                message: to_owned_string("selected sidecar could not be read"),
            }),
        ),
        SidecarState::Read { valid_json } => if valid_json {
            (to_owned_string("selected"), None)
        } else {
            (
                to_owned_string("invalid"),
                Some(ChainAdvisory {
                    code: to_owned_string("invalid_sidecar"),
                    message: to_owned_string("selected sidecar is not valid JSON"),
                }),
            )
        },
    }
}

/// The metadata as plain values.
pub open spec fn meta_view(m: ChainMetadata) -> (
    Seq<char>, Seq<char>, Seq<char>, Seq<Seq<char>>, Option<Seq<char>>, Seq<char>, Seq<char>, bool,
    Option<(Seq<char>, Seq<char>)>,
) {
    (
        m.schema_version@, m.run_id@, m.source_path@, views(m.sidecar_candidates@), opt_view(m.selected_sidecar_path),
        m.sidecar_status@, m.compiler_status@, m.not_implemented, advisory_view(m.advisory),
    )
}

/// An optional text as plain characters.
pub open spec fn text_view(t: Option<&str>) -> Option<Seq<char>> {
    match t {
        Some(x) => Some(x@),
        None => None,
    }
}

/// The state of the selected sidecar (if any) given its text (`None` when it
/// could not be read).
pub open spec fn spec_sidecar_state(selected: Option<Seq<char>>, text: Option<Seq<char>>) -> SidecarState {
    if selected is None {
        SidecarState::Absent
    } else {
        match text {
            None => SidecarState::Unreadable,
            Some(t) => SidecarState::Read { valid_json: valid_json(t) },
        }
    }
}

/// `m` is the chain metadata of run `run_id` for `source_path`, with the
/// sidecar `selected` (if any) whose text is `text` (`None` when unreadable):
/// schema `1.0`, the two candidates, the selection, the status and advisory
/// of the sidecar's state, compiler status `todo`, not implemented.
pub open spec fn is_chain_metadata(
    m: ChainMetadata,
    run_id: Seq<char>,
    source_path: Seq<char>,
    selected: Option<Seq<char>>,
    text: Option<Seq<char>>,
) -> bool {
    &&& m.schema_version@ == "1.0"@
    &&& m.run_id@ == run_id
    &&& m.source_path@ == source_path
    &&& views(m.sidecar_candidates@) == spec_candidate_paths(source_path)
    &&& opt_view(m.selected_sidecar_path) == selected
    &&& m.sidecar_status@ == spec_status(spec_sidecar_state(selected, text))
    &&& advisory_view(m.advisory) == spec_advisory(spec_sidecar_state(selected, text))
    &&& m.compiler_status@ == "todo"@
    &&& m.not_implemented
}

/// `selected` is the first candidate marked as existing, or `None` when none is.
pub open spec fn is_first_existing(selected: Option<Seq<char>>, candidates: Seq<Seq<char>>, exists: Seq<bool>) -> bool {
    match selected {
        Some(p) => exists|i: int| 0 <= i < candidates.len() && exists[i] && p == candidates[i]
            && forall|k: int| 0 <= k < i ==> !#[trigger] exists[k],
        None => forall|k: int| 0 <= k < exists.len() ==> !#[trigger] exists[k],
    }
}

/// The chain metadata of a run, given the selected sidecar (if any) and its
/// text (`None` when it could not be read).
pub fn build_chain_metadata(run_id: &str, source_path: &str, selected: Option<String>, text: Option<&str>) -> (m: ChainMetadata)
    ensures
        m.schema_version@ == "1.0"@,
        m.run_id@ == run_id@,
        m.source_path@ == source_path@,
        views(m.sidecar_candidates@) == spec_candidate_paths(source_path@),
        opt_view(m.selected_sidecar_path) == opt_view(selected),
        m.sidecar_status@ == spec_status(spec_sidecar_state(opt_view(selected), text_view(text))),
        advisory_view(m.advisory) == spec_advisory(spec_sidecar_state(opt_view(selected), text_view(text))),
        m.compiler_status@ == "todo"@,
        m.not_implemented,
        is_chain_metadata(m, run_id@, source_path@, opt_view(selected), text_view(text)),
{
    let state = sidecar_state(selected.is_some(), text);
    let (sidecar_status, advisory) = sidecar_verdict(state);
    proof {
        reveal_strlit("1.0");
        reveal_strlit("todo");
    }
    ChainMetadata {
        schema_version: to_owned_string(SCHEMA_VERSION),
        run_id: to_owned_string(run_id),
        source_path: to_owned_string(source_path),
        sidecar_candidates: candidate_paths(source_path),
        selected_sidecar_path: selected,
        sidecar_status,
        compiler_status: to_owned_string("todo"),
        not_implemented: true,
        advisory,
    }
}

/// The metadata a worker writes for a run, and where: `chain.meta.json` in
/// the run directory. `exists` tells, for each of the source's two sidecar
/// candidates in order, whether it exists; the first that exists is
/// selected, and `text` is that sidecar's text (`None` when it could not be
/// read). An unreadable or non-JSON sidecar gives an advisory, never an
/// error.
pub fn write_worker_chain_meta(
    run_dir: &str,
    run_id: &str,
    source_path: &str,
    exists: &Vec<bool>,
    text: Option<&str>,
) -> (out: (ChainMetadata, String))
    requires
        exists@.len() == 2,
    ensures
        is_first_existing(opt_view(out.0.selected_sidecar_path), spec_candidate_paths(source_path@), exists@),
        is_chain_metadata(out.0, run_id@, source_path@, opt_view(out.0.selected_sidecar_path), text_view(text)),
        out.1@ == join_spec(run_dir@, "chain.meta.json"@),
{
    let candidates = candidate_paths(source_path);
    assert(views(candidates@).len() == candidates@.len());
    let selected = select_first(&candidates, exists);
    proof {
        let cs = spec_candidate_paths(source_path@);
        if selected is Some {
            let p = selected->Some_0;
            {
                let i = choose|i: int| 0 <= i < candidates@.len() && exists@[i] && p@ == candidates@[i]@
                    && forall|k: int| 0 <= k < i ==> !#[trigger] exists@[k];
                assert(views(candidates@)[i] == candidates@[i]@);
                assert(0 <= i < cs.len() && exists@[i] && p@ == cs[i]);
            }
        }
    }
    let m = build_chain_metadata(run_id, source_path, selected, text);
    (m, crate::paths::run_chain_meta_path(run_dir))
}

/// A copy of an advisory.
fn copy_advisory(a: &Option<ChainAdvisory>) -> (out: Option<ChainAdvisory>)
    ensures
        advisory_view(out) == advisory_view(*a),
{
    match a {
        Some(x) => Some(ChainAdvisory { code: x.code.clone(), message: x.message.clone() }),
        None => None,
    }
}

/// The `plugin_chain_compiler` operator's output for a run: the run's chain
/// metadata as stored, and where the operator writes it.
pub fn write_operator_output(project_root: &str, run_id: &str, metadata: &ChainMetadata) -> (out: (ChainMetadata, String))
    ensures
        meta_view(out.0) == meta_view(*metadata),
        out.1@ == join_spec(crate::paths::spec_operator_dir(project_root@, "plugin_chain_compiler"@), run_id@ + ".json"@),
{
    let m = ChainMetadata {
        schema_version: metadata.schema_version.clone(),
        run_id: metadata.run_id.clone(),
        source_path: metadata.source_path.clone(),
        sidecar_candidates: copy_strings(&metadata.sidecar_candidates),
        selected_sidecar_path: copy_opt(&metadata.selected_sidecar_path),
        sidecar_status: metadata.sidecar_status.clone(),
        compiler_status: metadata.compiler_status.clone(),
        not_implemented: metadata.not_implemented,
        advisory: copy_advisory(&metadata.advisory),
    };
    (m, crate::paths::plugin_chain_operator_output_path(project_root, run_id))
}

} // verus!
