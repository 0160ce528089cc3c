//! The fixed on-disk layout of a project's `SCE` directory.
//!
//! Paths are carried as strings; joining follows `Path::join` on Unix: a part
//! that starts with `/` replaces the base, otherwise a separator is inserted
//! unless the base is empty or already ends with one.
use vstd::prelude::*;

verus! {

/// What `Path::new(base).join(part)` denotes on Unix.
pub open spec fn join_spec(base: Seq<char>, part: Seq<char>) -> Seq<char> {
    if part.len() > 0 && part[0] == '/' {
        part
    } else if base.len() == 0 || base.last() == '/' {
        base + part
    } else {
        base + seq!['/'] + part
    }
}

/// Joins two path strings with std's `Path::join`.
/// Trusted: on Unix, `PathBuf::push` replaces the path when `part` is absolute
/// (starts with `/`), and otherwise appends `part` after a `/` separator unless
/// the base is empty or already ends in one; both inputs are valid UTF-8, so the
/// lossy conversion back to a string is exact.
#[verifier::external_body]
pub(crate) fn path_join(base: &str, part: &str) -> (out: String)
    ensures
        out@ == join_spec(base@, part@),
{
    std::path::Path::new(base).join(part).to_string_lossy().into_owned()
}

/// `name` followed by `suffix`.
fn with_suffix(name: &str, suffix: &str) -> (out: String)
    ensures
        out@ == name@ + suffix@,
{
    let mut out = name.to_owned();
    out.append(suffix);
    out
}

pub open spec fn spec_project_sce_dir(root: Seq<char>) -> Seq<char> {
    join_spec(root, "SCE"@)
}

pub open spec fn spec_operators_dir(root: Seq<char>) -> Seq<char> {
    join_spec(spec_project_sce_dir(root), "operators"@)
}

pub open spec fn spec_operator_dir(root: Seq<char>, name: Seq<char>) -> Seq<char> {
    join_spec(spec_operators_dir(root), name)
}

pub open spec fn spec_registry_dir(root: Seq<char>) -> Seq<char> {
    join_spec(spec_project_sce_dir(root), "registry"@)
}

pub open spec fn spec_registry_constitutions_dir(root: Seq<char>) -> Seq<char> {
    join_spec(spec_registry_dir(root), "constitutions"@)
}

pub open spec fn spec_asset_dir(root: Seq<char>, asset_id: Seq<char>) -> Seq<char> {
    join_spec(join_spec(spec_project_sce_dir(root), "assets"@), asset_id)
}

pub open spec fn spec_run_dir(root: Seq<char>, asset_id: Seq<char>, run_id: Seq<char>) -> Seq<
    char,
> {
    join_spec(join_spec(spec_asset_dir(root, asset_id), "analysis"@), run_id)
}

pub open spec fn spec_refs_dir(root: Seq<char>) -> Seq<char> {
    join_spec(spec_project_sce_dir(root), "refs"@)
}

pub open spec fn spec_refs_canon_dir(root: Seq<char>) -> Seq<char> {
    join_spec(spec_refs_dir(root), "canon"@)
}

pub open spec fn spec_refs_profiles_dir(root: Seq<char>) -> Seq<char> {
    join_spec(spec_refs_dir(root), "profiles"@)
}

pub open spec fn spec_graph_dir(root: Seq<char>) -> Seq<char> {
    join_spec(spec_project_sce_dir(root), "graph"@)
}

/// `<root>/SCE`
pub fn project_sce_dir(project_root: &str) -> (p: String)
    ensures
        p@ == spec_project_sce_dir(project_root@),
{
    path_join(project_root, "SCE")
}

/// `<root>/SCE/operators`
pub fn operators_dir(project_root: &str) -> (p: String)
    ensures
        p@ == spec_operators_dir(project_root@),
{
    path_join(&project_sce_dir(project_root), "operators")
}

/// `<root>/SCE/operators/<operator_name>`
pub fn operator_dir(project_root: &str, operator_name: &str) -> (p: String)
    ensures
        p@ == spec_operator_dir(project_root@, operator_name@),
{
    path_join(&operators_dir(project_root), operator_name)
}

/// `<root>/SCE/operators/ref_canon/latest.json`
pub fn ref_canon_operator_output_path(project_root: &str) -> (p: String)
    ensures
        p@ == join_spec(spec_operator_dir(project_root@, "ref_canon"@), "latest.json"@),
{
    path_join(&operator_dir(project_root, "ref_canon"), "latest.json")
}

/// `<root>/SCE/operators/mixops_ci/latest.json`
pub fn mixops_ci_operator_output_path(project_root: &str) -> (p: String)
    ensures
        p@ == join_spec(spec_operator_dir(project_root@, "mixops_ci"@), "latest.json"@),
{
    path_join(&operator_dir(project_root, "mixops_ci"), "latest.json")
}

/// `<root>/SCE/operators/translation_matrix/<run_id>.json`
pub fn translation_matrix_operator_output_path(project_root: &str, run_id: &str) -> (p: String)
    ensures
        p@ == join_spec(
            spec_operator_dir(project_root@, "translation_matrix"@),
            run_id@ + ".json"@,
        ),
{
    path_join(&operator_dir(project_root, "translation_matrix"), &with_suffix(run_id, ".json"))
}

/// `<root>/SCE/operators/stemgraph/latest.json`
pub fn stemgraph_operator_output_path(project_root: &str) -> (p: String)
    ensures
        p@ == join_spec(spec_operator_dir(project_root@, "stemgraph"@), "latest.json"@),
{
    path_join(&operator_dir(project_root, "stemgraph"), "latest.json")
}

/// `<root>/SCE/operators/plugin_chain_compiler/<run_id>.json`
pub fn plugin_chain_operator_output_path(project_root: &str, run_id: &str) -> (p: String)
    ensures
        p@ == join_spec(
            spec_operator_dir(project_root@, "plugin_chain_compiler"@),
            run_id@ + ".json"@,
        ),
{
    path_join(&operator_dir(project_root, "plugin_chain_compiler"), &with_suffix(run_id, ".json"))
}

/// `<root>/SCE/registry`
pub fn registry_dir(project_root: &str) -> (p: String)
    ensures
        p@ == spec_registry_dir(project_root@),
{
    path_join(&project_sce_dir(project_root), "registry")
}

/// `<root>/SCE/registry/.lock`
pub fn registry_lock_path(project_root: &str) -> (p: String)
    ensures
        p@ == join_spec(spec_registry_dir(project_root@), ".lock"@),
{
    path_join(&registry_dir(project_root), ".lock")
}

/// `<root>/SCE/registry/constitutions`
pub fn registry_constitutions_dir(project_root: &str) -> (p: String)
    ensures
        p@ == spec_registry_constitutions_dir(project_root@),
{
    path_join(&registry_dir(project_root), "constitutions")
}

/// `<root>/SCE/registry/constitutions/<version>.yaml`
pub fn registry_constitution_path(project_root: &str, version: &str) -> (p: String)
    ensures
        p@ == join_spec(spec_registry_constitutions_dir(project_root@), version@ + ".yaml"@),
{
    path_join(&registry_constitutions_dir(project_root), &with_suffix(version, ".yaml"))
}

/// `<root>/SCE/registry/active.json`
pub fn registry_active_path(project_root: &str) -> (p: String)
    ensures
        p@ == join_spec(spec_registry_dir(project_root@), "active.json"@),
{
    path_join(&registry_dir(project_root), "active.json")
}

/// `<root>/SCE/registry/index.json`
pub fn registry_index_path(project_root: &str) -> (p: String)
    ensures
        p@ == join_spec(spec_registry_dir(project_root@), "index.json"@),
{
    path_join(&registry_dir(project_root), "index.json")
}

/// `<root>/SCE/registry/shadow/<version>/impact.json`
pub fn registry_shadow_impact_path(project_root: &str, version: &str) -> (p: String)
    ensures
        p@ == join_spec(
            join_spec(join_spec(spec_registry_dir(project_root@), "shadow"@), version@),
            "impact.json"@,
        ),
{
    let shadow = path_join(&registry_dir(project_root), "shadow");
    path_join(&path_join(&shadow, version), "impact.json")
}

/// `<root>/SCE/registry/canary/<version>/canary_state.json`
pub fn registry_canary_projection_path(project_root: &str, version: &str) -> (p: String)
    ensures
        p@ == join_spec(
            join_spec(join_spec(spec_registry_dir(project_root@), "canary"@), version@),
            "canary_state.json"@,
        ),
{
    let canary = path_join(&registry_dir(project_root), "canary");
    path_join(&path_join(&canary, version), "canary_state.json")
}

/// `<root>/SCE/assets/<asset_id>`
pub fn asset_dir(project_root: &str, asset_id: &str) -> (p: String)
    ensures
        p@ == spec_asset_dir(project_root@, asset_id@),
{
    path_join(&path_join(&project_sce_dir(project_root), "assets"), asset_id)
}

/// `<root>/SCE/assets/<asset_id>/analysis/<run_id>`
pub fn run_dir(project_root: &str, asset_id: &str, run_id: &str) -> (p: String)
    ensures
        p@ == spec_run_dir(project_root@, asset_id@, run_id@),
{
    path_join(&path_join(&asset_dir(project_root, asset_id), "analysis"), run_id)
}

/// `<root>/SCE/refs`
pub fn refs_dir(project_root: &str) -> (p: String)
    ensures
        p@ == spec_refs_dir(project_root@),
{
    path_join(&project_sce_dir(project_root), "refs")
}

/// `<root>/SCE/refs/canon`
pub fn refs_canon_dir(project_root: &str) -> (p: String)
    ensures
        p@ == spec_refs_canon_dir(project_root@),
{
    path_join(&refs_dir(project_root), "canon")
}

/// `<root>/SCE/refs/canon/index.json`
pub fn refs_canon_index_path(project_root: &str) -> (p: String)
    ensures
        p@ == join_spec(spec_refs_canon_dir(project_root@), "index.json"@),
{
    path_join(&refs_canon_dir(project_root), "index.json")
}

/// `<root>/SCE/refs/profiles`
pub fn refs_profiles_dir(project_root: &str) -> (p: String)
    ensures
        p@ == spec_refs_profiles_dir(project_root@),
{
    path_join(&refs_dir(project_root), "profiles")
}

/// `<root>/SCE/refs/profiles/<content_hash>.json`
pub fn refs_profile_path(project_root: &str, content_hash: &str) -> (p: String)
    ensures
        p@ == join_spec(spec_refs_profiles_dir(project_root@), content_hash@ + ".json"@),
{
    path_join(&refs_profiles_dir(project_root), &with_suffix(content_hash, ".json"))
}

/// `<root>/SCE/refs/files`
pub fn refs_files_dir(project_root: &str) -> (p: String)
    ensures
        p@ == join_spec(spec_refs_dir(project_root@), "files"@),
{
    path_join(&refs_dir(project_root), "files")
}

/// `<root>/SCE/graph`
pub fn graph_dir(project_root: &str) -> (p: String)
    ensures
        p@ == spec_graph_dir(project_root@),
{
    path_join(&project_sce_dir(project_root), "graph")
}

/// `<root>/SCE/graph/lineage.json`
pub fn graph_lineage_path(project_root: &str) -> (p: String)
    ensures
        p@ == join_spec(spec_graph_dir(project_root@), "lineage.json"@),
{
    path_join(&graph_dir(project_root), "lineage.json")
}

/// `<run_dir>/chain.meta.json`
pub fn run_chain_meta_path(run_dir: &str) -> (p: String)
    ensures
        p@ == join_spec(run_dir@, "chain.meta.json"@),
{
    path_join(run_dir, "chain.meta.json")
}

/// The final component of a path, as `Path::file_name` reports it.
pub uninterp spec fn file_name_of(path: Seq<char>) -> Option<Seq<char>>;

/// The final component of `path` (std's `Path::file_name`).
/// Trusted: the result is `Path::file_name`'s, a function of the path alone,
/// converted to a string (exactly, since the input is UTF-8); per its
/// documentation it is `None` when the path ends in `..`, so it is never `..`.
#[verifier::external_body]
pub(crate) fn path_file_name(path: &str) -> (r: Option<String>)
    ensures
        match r {
            Some(n) => file_name_of(path@) == Some(n@) && n@ != ".."@,
            None => file_name_of(path@) is None,
        },
{
    std::path::Path::new(path).file_name().map(|n| n.to_string_lossy().into_owned())
}

/// Index of the last `.` in `name`, or -1 when there is none.
pub open spec fn last_dot(name: Seq<char>) -> int
    decreases name.len(),
{
    if name.len() == 0 {
        -1
    } else if name.last() == '.' {
        name.len() - 1
    } else {
        last_dot(name.drop_last())
    }
}

/// The stem of a file name (what `Path::file_stem` gives for a path with that
/// file name): everything before the last `.`, or the whole name when the only
/// `.` leads it, there is none, or the name is `..`.
pub open spec fn stem_of(name: Seq<char>) -> Seq<char> {
    if name == ".."@ || last_dot(name) <= 0 {
        name
    } else {
        name.take(last_dot(name))
    }
}

/// The extension of a file name (what `Path::extension` gives): what follows
/// the last `.`, unless the only `.` leads the name or there is none.
pub open spec fn extension_of(name: Seq<char>) -> Option<Seq<char>> {
    if name == ".."@ || last_dot(name) <= 0 {
        None
    } else {
        Some(name.skip(last_dot(name) + 1))
    }
}

proof fn lemma_last_dot_scan(name: Seq<char>, i: int)
    requires
        -1 <= i < name.len(),
        forall|k: int| i < k < name.len() ==> name[k] != '.',
        i == -1 || name[i] == '.',
    ensures
        last_dot(name) == i,
    decreases name.len(),
{
    if name.len() > 0 && i < name.len() - 1 {
        lemma_last_dot_scan(name.drop_last(), i);
    }
}

/// Splits a file name into stem and extension as std's path methods do.
pub fn split_file_name(name: &str) -> (r: (String, Option<String>))
    ensures
        r.0@ == stem_of(name@),
        match r.1 {
            Some(e) => extension_of(name@) == Some(e@),
            None => extension_of(name@) is None,
        },
{
    let cs = crate::text::chars_of(name);
    let n = cs.len();
    let mut i: usize = n;
    while i > 0 && cs[i - 1] != '.'
        invariant
            cs@ == name@,
            i <= n == cs@.len(),
            forall|k: int| i <= k < n ==> cs@[k] != '.',
        decreases i,
    {
        i -= 1;
    }
    proof {
        lemma_last_dot_scan(cs@, i - 1);
    }
    let is_dotdot = n == 2 && cs[0] == '.' && cs[1] == '.';
    proof {
        if n == 2 && cs@[0] == '.' && cs@[1] == '.' {
            reveal_strlit("..");
            assert(cs@ =~= ".."@);
        }
        if cs@ == ".."@ {
            reveal_strlit("..");
        }
    }
    if is_dotdot || i <= 1 {
        (crate::text::string_of(cs.as_slice()), None)
    } else {
        let stem = crate::text::string_of(&cs.as_slice()[0..i - 1]);
        let ext = crate::text::string_of(&cs.as_slice()[i..n]);
        proof {
            assert(cs@.subrange(0, i - 1) =~= cs@.take(i - 1));
            assert(cs@.subrange(i as int, n as int) =~= cs@.skip(i as int));
        }
        (stem, Some(ext))
    }
}


/// The parent of a path, as `Path::parent` reports it.
pub uninterp spec fn parent_of(path: Seq<char>) -> Option<Seq<char>>;

/// The parent of `path` (std's `Path::parent`).
/// Trusted: the result is `Path::parent`'s, a function of the path alone,
/// converted to a string (exactly, since the input is UTF-8); per its
/// documentation the empty path has no parent.
#[verifier::external_body]
pub(crate) fn path_parent(path: &str) -> (r: Option<String>)
    ensures
        match r {
            Some(p) => parent_of(path@) == Some(p@),
            None => parent_of(path@) is None,
        },
        path@.len() == 0 ==> r is None,
{
    std::path::Path::new(path).parent().map(|p| p.to_string_lossy().into_owned())
}

/// Whether a file or directory exists at `path` (std's `Path::exists`).
/// Nothing is claimed of the answer: it is whatever the file system says at
/// the moment of the call.
#[verifier::external_body]
pub(crate) fn path_exists(path: &str) -> (r: bool) {
    std::path::Path::new(path).exists()
}

} // verus!
