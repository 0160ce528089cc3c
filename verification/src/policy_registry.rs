//! The constitution registry of a project: stored constitution versions, the
//! index that lists them, the active pointer, and the canary budget.
//!
//! Reading and writing files, the lock and the database stay with the caller;
//! the decisions about what is read, checked, recorded and written are here.
use vstd::prelude::*;
use crate::counts::{NameCount, bump, count_in, well_formed_counts, rank_counts, is_ranking, pairs};
use crate::gates::GateResult;
use crate::ordered::{KeyOrder, stably_sorted, sort_by_key_stable, views};
use crate::paths::{join_spec, spec_registry_dir, spec_registry_constitutions_dir};
use crate::text::{
    all_digits, chars_of, is_digit, seq_lt, split_on, split_pieces, str_eq, string_of,
    to_owned_string, trim, trim_string,
};

verus! {

pub const IMPACT_SCHEMA_VERSION: &'static str = "1.0";

/// The pinned version that means "whatever the registry's active pointer names".
pub const ACTIVE_CONSTITUTION_VERSION: &'static str = "active";

/// `registry/active.json`: the version in force, its hash and its file.
#[derive(Debug, Clone)]
pub struct ActivePointer {
    pub version: String,
    pub hash: String,
    pub path: String,
}

/// `registry/index.json`.
#[derive(Debug, Clone)]
pub struct RegistryIndex {
    pub versions: Vec<RegistryVersionEntry>,
    pub active_history: Vec<RegistryActiveHistoryEntry>,
    pub thrash_warnings: Vec<RegistryThrashWarningEntry>,
}

/// One stored constitution version.
#[derive(Debug, Clone)]
pub struct RegistryVersionEntry {
    pub version: String,
    pub hash: String,
    pub path: String,
    pub added_at: Option<String>,
    pub note: Option<String>,
}

/// One activation, in the order they happened.
#[derive(Debug, Clone)]
pub struct RegistryActiveHistoryEntry {
    pub version: String,
    pub hash: String,
    pub at: Option<String>,
}

/// A recorded warning about frequent toggling of the active version.
#[derive(Debug, Clone)]
pub struct RegistryThrashWarningEntry {
    pub window_seconds: u64,
    pub toggles: u64,
    pub message: String,
    pub at: Option<String>,
}

/// The file copy of a project's canary state.
#[derive(Debug, Clone)]
pub struct CanaryStateProjection {
    pub project_id: String,
    pub candidate_version: String,
    pub remaining_budget: i64,
    pub started_at: String,
    pub updated_at: String,
}

/// Candidate minus baseline run counts per gate status.
#[derive(Debug, Clone, Copy, PartialEq, Eq, Structural)]
pub struct GateStatusDelta {
    pub pass: i64,
    pub warn: i64,
    pub fail: i64,
}

/// How many selected runs newly fail one gate under the candidate.
#[derive(Debug, Clone)]
pub struct GateFailCount {
    pub gate_name: String,
    pub count: u64,
}

/// A gate status as the impact report spells it.
#[derive(Debug, Clone, Copy, PartialEq, Eq, Structural)]
pub enum ImpactGateStatus {
    Pass,
    Warn,
    Fail,
}

/// The risk of activating a candidate.
#[derive(Debug, Clone, Copy, PartialEq, Eq, Structural)]
pub enum RiskLevel {
    Low,
    High,
}

/// Why a candidate is considered risky.
#[derive(Debug, Clone, Copy, PartialEq, Eq, Structural)]
pub enum RiskReason {
    ActivationGuardTriggered,
}

/// What storing a constitution version produced.
#[derive(Debug, Clone)]
pub struct RegistryWriteResult {
    pub version: String,
    pub hash: String,
    pub path: String,
}

/// What initializing the registry produced.
#[derive(Debug, Clone)]
pub struct InitResult {
    pub active: ActivePointer,
    pub source_path: String,
}

/// What activating a version produced.
#[derive(Debug, Clone)]
pub struct ActivateResult {
    pub active: ActivePointer,
}

/// What `registry status` reports.
#[derive(Debug, Clone)]
pub struct StatusResult {
    pub canonical_project_root: String,
    pub active: Option<ActivePointer>,
    pub index: RegistryIndex,
    pub canary_state: Option<PolicyCanaryStateRow>,
    pub version_warnings: Vec<String>,
}

/// How the registry lock is taken.
#[derive(Debug, Clone, Copy, PartialEq, Eq, Structural)]
pub enum RegistryLockMode {
    Shared,
    Exclusive,
}

/// A row of the `policy_canary_state` table.
#[derive(Debug, Clone)]
pub struct PolicyCanaryStateRow {
    pub project_id: String,
    pub candidate_version: String,
    pub remaining_budget: i64,
    pub started_at: String,
    pub updated_at: String,
}

/// What consuming one unit of canary budget returned.
#[derive(Debug)]
pub struct CanaryConsumeResult {
    pub candidate_version: String,
    pub remaining_budget: i64,
}

/// A field of the active pointer.
#[derive(Debug, Clone, Copy, PartialEq, Eq, Structural)]
pub enum PointerField {
    Version,
    Hash,
    Path,
}

/// Why a registry operation was refused.
#[derive(Debug, Clone)]
pub enum RegistryError {
    VersionEmpty,
    PointerUnreadable { path: String },
    PointerFieldEmpty { field: PointerField, path: String },
    HashConflict { version: String, existing: String, new: String },
    VersionNotFound { version: String, path: String },
    ReadMismatch { path: String, len1: u64, len2: u64, hash1: String, hash2: String },
    AdmissionUnparsable,
    AdmissionVersionEmpty,
    AdmissionNoAudioContract,
    MissingParent { path: String },
    MissingFileName { path: String },
    BudgetTooLarge,
    PinnedVersionEmpty,
    ActiveMissing { path: String },
    EnqueueActiveMissing { path: String },
    CanaryCandidateMissing { version: String, path: String },
}

impl PointerField {
    pub open spec fn spec_name(self) -> Seq<char> {
        match self {
            PointerField::Version => "version"@,
            PointerField::Hash => "hash"@,
            PointerField::Path => "path"@,
        }
    }

    /// The field's name in `active.json`.
    pub fn name(self) -> (out: &'static str)
        ensures
            out@ == self.spec_name(),
    {
        match self {
            PointerField::Version => "version",
            PointerField::Hash => "hash",
            PointerField::Path => "path",
        }
    }
}

/// `a` followed by `b`.
fn cat(a: &str, b: &str) -> (out: String)
    ensures
        out@ == a@ + b@,
{
    let mut out = to_owned_string(a);
    out.append(b);
    out
}

/// The path of `active.json` under a project root.
pub open spec fn spec_active_path(root: Seq<char>) -> Seq<char> {
    join_spec(spec_registry_dir(root), "active.json"@)
}

/// The stored file of a version under a project root.
pub open spec fn spec_version_path(root: Seq<char>, version: Seq<char>) -> Seq<char> {
    join_spec(spec_registry_constitutions_dir(root), version + ".yaml"@)
}

/// The first eight characters of a hash, as error messages show it.
pub open spec fn spec_hash_prefix(h: Seq<char>) -> Seq<char> {
    if h.len() <= 8 { h } else { h.take(8) }
}

impl RegistryError {
    pub open spec fn spec_message(&self) -> Seq<char> {
        match self {
            RegistryError::VersionEmpty => "version must be non-empty"@,
            RegistryError::PointerUnreadable { path } => "read active pointer: "@ + path@,
            RegistryError::PointerFieldEmpty { field, path } =>
                "active pointer "@ + field.spec_name() + " must be non-empty: "@ + path@,
            RegistryError::HashConflict { version, existing, new } =>
                "version "@ + version@ + " already exists with different hash (existing="@ + existing@
                    + ", new="@ + new@ + ")"@,
            RegistryError::VersionNotFound { version, path } =>
                "registry constitution version not found: "@ + version@ + " ("@ + path@ + ")"@,
            RegistryError::ReadMismatch { path, len1, len2, hash1, hash2 } =>
                "stored constitution read mismatch path="@ + path@ + " len1="@
                    + crate::text::decimal(*len1 as nat) + " len2="@ + crate::text::decimal(*len2 as nat)
                    + " hash1="@ + hash1@ + " hash2="@ + hash2@,
            RegistryError::AdmissionUnparsable => "parse constitution YAML for registry admission"@,
            RegistryError::AdmissionVersionEmpty => "constitution_version must be non-empty"@,
            RegistryError::AdmissionNoAudioContract => "audio_contract must be present"@,
            RegistryError::MissingParent { path } => "missing parent directory for "@ + path@,
            RegistryError::MissingFileName { path } => "missing file name for "@ + path@,
            RegistryError::BudgetTooLarge => "budget-runs exceeds i64"@,
            RegistryError::PinnedVersionEmpty => "pinned constitution_version cannot be empty"@,
            RegistryError::ActiveMissing { path } =>
                "active.json missing/unreadable for legacy run resolution: "@ + path@,
            RegistryError::EnqueueActiveMissing { path } => "active.json missing/unreadable at enqueue: "@ + path@,
            RegistryError::CanaryCandidateMissing { version, path } =>
                "canary candidate constitution missing: "@ + version@ + " ("@ + path@ + ")"@,
        }
    }

    /// The error as the text a user sees.
    pub fn message(&self) -> (out: String)
        ensures
            out@ == self.spec_message(),
    {
        match self {
            RegistryError::VersionEmpty => to_owned_string("version must be non-empty"),
            RegistryError::PointerUnreadable { path } => cat("read active pointer: ", path.as_str()),
            RegistryError::PointerFieldEmpty { field, path } => {
                let mut out = cat("active pointer ", field.name());
                out.append(" must be non-empty: ");
                out.append(path.as_str());
                out
            },
            RegistryError::HashConflict { version, existing, new } => {
                let mut out = cat("version ", version.as_str());
                out.append(" already exists with different hash (existing=");
                out.append(existing.as_str());
                out.append(", new=");
                out.append(new.as_str());
                out.append(")");
                out
            },
            RegistryError::VersionNotFound { version, path } => {
                let mut out = cat("registry constitution version not found: ", version.as_str());
                out.append(" (");
                out.append(path.as_str());
                out.append(")");
                out
            },
            RegistryError::ReadMismatch { path, len1, len2, hash1, hash2 } => {
                let mut out = cat("stored constitution read mismatch path=", path.as_str());
                out.append(" len1=");
                let a = crate::text::decimal_string(*len1);
                out.append(a.as_str());
                out.append(" len2=");
                let b = crate::text::decimal_string(*len2);
                out.append(b.as_str());
                out.append(" hash1=");
                out.append(hash1.as_str());
                out.append(" hash2=");
                out.append(hash2.as_str());
                out
            },
            RegistryError::AdmissionUnparsable => to_owned_string("parse constitution YAML for registry admission"),
            RegistryError::AdmissionVersionEmpty => to_owned_string("constitution_version must be non-empty"),
            RegistryError::AdmissionNoAudioContract => to_owned_string("audio_contract must be present"),
            RegistryError::MissingParent { path } => cat("missing parent directory for ", path.as_str()),
            RegistryError::MissingFileName { path } => cat("missing file name for ", path.as_str()),
            RegistryError::BudgetTooLarge => to_owned_string("budget-runs exceeds i64"),
            RegistryError::PinnedVersionEmpty => to_owned_string("pinned constitution_version cannot be empty"),
            RegistryError::ActiveMissing { path } =>
                cat("active.json missing/unreadable for legacy run resolution: ", path.as_str()),
            RegistryError::EnqueueActiveMissing { path } => cat("active.json missing/unreadable at enqueue: ", path.as_str()),
            RegistryError::CanaryCandidateMissing { version, path } => {
                let mut out = cat("canary candidate constitution missing: ", version.as_str());
                out.append(" (");
                out.append(path.as_str());
                out.append(")");
                out
            },
        }
    }
}

/// The version as the registry stores it: trimmed, and never empty.
pub fn normalize_version(version: &str) -> (r: Result<String, RegistryError>)
    ensures
        trim(version@).len() == 0 <==> r is Err,
        r is Err ==> r->Err_0 is VersionEmpty,
        r is Ok ==> r->Ok_0@ == trim(version@),
{
    let t = trim_string(version);
    if t.as_str().is_empty() {
        Err(RegistryError::VersionEmpty)
    } else {
        Ok(t)
    }
}

/// The pointer as plain values: version, hash, path.
pub open spec fn pointer_view(p: ActivePointer) -> (Seq<char>, Seq<char>, Seq<char>) {
    (p.version@, p.hash@, p.path@)
}

/// A copy of a pointer.
pub fn copy_pointer(p: &ActivePointer) -> (out: ActivePointer)
    ensures
        pointer_view(out) == pointer_view(*p),
{
    ActivePointer { version: p.version.clone(), hash: p.hash.clone(), path: p.path.clone() }
}

/// Checks the active pointer read from `active.json` (`None` when the file
/// could not be read or parsed): each of its fields must be non-blank.
pub fn read_active_pointer(project_root: &str, parsed: Option<ActivePointer>) -> (r: Result<ActivePointer, RegistryError>)
    ensures
        match parsed {
            None => r is Err && (r->Err_0 matches RegistryError::PointerUnreadable { path }
                && path@ == spec_active_path(project_root@)),
            Some(p) => if trim(p.version@).len() == 0 {
                r is Err && (r->Err_0 matches RegistryError::PointerFieldEmpty { field, path }
                    && field == PointerField::Version && path@ == spec_active_path(project_root@))
            } else if trim(p.hash@).len() == 0 {
                r is Err && (r->Err_0 matches RegistryError::PointerFieldEmpty { field, path }
                    && field == PointerField::Hash && path@ == spec_active_path(project_root@))
            } else if trim(p.path@).len() == 0 {
                r is Err && (r->Err_0 matches RegistryError::PointerFieldEmpty { field, path }
                    && field == PointerField::Path && path@ == spec_active_path(project_root@))
            } else {
                r is Ok && pointer_view(r->Ok_0) == pointer_view(p)
            },
        },
{
    let active_path = crate::paths::registry_active_path(project_root);
    match parsed {
        None => Err(RegistryError::PointerUnreadable { path: active_path }),
        Some(p) => {
            if crate::graph::is_blank(p.version.as_str()) {
                Err(RegistryError::PointerFieldEmpty { field: PointerField::Version, path: active_path })
            } else if crate::graph::is_blank(p.hash.as_str()) {
                Err(RegistryError::PointerFieldEmpty { field: PointerField::Hash, path: active_path })
            } else if crate::graph::is_blank(p.path.as_str()) {
                Err(RegistryError::PointerFieldEmpty { field: PointerField::Path, path: active_path })
            } else {
                Ok(p)
            }
        },
    }
}

/// A path is absolute on Unix when it starts with `/`.
pub open spec fn is_absolute(p: Seq<char>) -> bool {
    p.len() > 0 && p[0] == '/'
}

/// Where the active pointer's `path` leads: itself when absolute, else under
/// the registry directory.
pub open spec fn spec_resolve_pointer_path(root: Seq<char>, pointer_path: Seq<char>) -> Seq<char> {
    if is_absolute(pointer_path) {
        pointer_path
    } else {
        join_spec(spec_registry_dir(root), pointer_path)
    }
}

/// Resolves the active pointer's `path` against the registry directory.
pub fn resolve_pointer_path(project_root: &str, pointer_path: &str) -> (out: String)
    ensures
        out@ == spec_resolve_pointer_path(project_root@, pointer_path@),
{
    let cs = chars_of(pointer_path);
    if cs.len() > 0 && cs[0] == '/' {
        to_owned_string(pointer_path)
    } else {
        crate::paths::path_join(&crate::paths::registry_dir(project_root), pointer_path)
    }
}

/// `^v\d+\.\d+(\.\d+)?$`: a `v`, then two or three dot-separated runs of
/// decimal digits.
pub open spec fn release_version(v: Seq<char>) -> bool {
    &&& v.len() > 0
    &&& v[0] == 'v'
    &&& (split_on(v.drop_first(), '.').len() == 2 || split_on(v.drop_first(), '.').len() == 3)
    &&& forall|i: int| 0 <= i < split_on(v.drop_first(), '.').len()
        ==> all_digits(#[trigger] split_on(v.drop_first(), '.')[i])
}

/// Whether `s` is one or more ASCII digits.
fn is_all_digits(s: &str) -> (r: bool)
    ensures
        r == all_digits(s@),
{
    let cs = chars_of(s);
    if cs.len() == 0 {
        return false;
    }
    let mut i: usize = 0;
    while i < cs.len()
        invariant
            cs@ == s@,
            i <= cs@.len(),
            forall|k: int| 0 <= k < i ==> is_digit(#[trigger] cs@[k]),
        decreases cs@.len() - i,
    {
        if !('0' <= cs[i] && cs[i] <= '9') {
            assert(!is_digit(cs@[i as int]));
            return false;
        }
        i += 1;
    }
    true
}

/// Whether a version follows the release pattern `^v\d+\.\d+(\.\d+)?$`.
pub fn is_release_version_pattern(version: &str) -> (r: bool)
    ensures
        r == release_version(version@),
{
    let cs = chars_of(version);
    if cs.len() == 0 || cs[0] != 'v' {
        return false;
    }
    let rest = string_of(&cs.as_slice()[1..cs.len()]);
    assert(rest@ =~= version@.drop_first());
    let parts = split_pieces(rest.as_str(), '.');
    if parts.len() != 2 && parts.len() != 3 {
        return false;
    }
    let mut i: usize = 0;
    while i < parts.len()
        invariant
            views(parts@) == split_on(version@.drop_first(), '.'),
            i <= parts@.len(),
            forall|k: int| 0 <= k < i ==> all_digits(#[trigger] split_on(version@.drop_first(), '.')[k]),
        decreases parts@.len() - i,
    {
        if !is_all_digits(parts[i].as_str()) {
            assert(views(parts@)[i as int] == parts@[i as int]@);
            return false;
        }
        assert(views(parts@)[i as int] == parts@[i as int]@);
        i += 1;
    }
    true
}

/// The warning for a version that does not follow the release pattern.
pub open spec fn version_warning(prefix: Seq<char>, v: Seq<char>) -> Seq<char> {
    prefix + "'"@ + v + "' does not match expected pattern ^v\\d+\\.\\d+(\\.\\d+)?$"@
}

/// The warnings for the index's versions, in index order.
pub open spec fn index_warnings(vs: Seq<Seq<char>>) -> Seq<Seq<char>>
    decreases vs.len(),
{
    if vs.len() == 0 {
        Seq::empty()
    } else if release_version(vs.last()) {
        index_warnings(vs.drop_last())
    } else {
        index_warnings(vs.drop_last()).push(version_warning("version "@, vs.last()))
    }
}

/// The version names of index entries.
pub open spec fn version_names(s: Seq<RegistryVersionEntry>) -> Seq<Seq<char>> {
    s.map_values(|e: RegistryVersionEntry| e.version@)
}

/// All warnings of `registry status`: one per index version off the release
/// pattern, then one for the active version if it is off the pattern.
pub open spec fn status_warnings(vs: Seq<Seq<char>>, active: Option<Seq<char>>) -> Seq<Seq<char>> {
    match active {
        Some(a) => if release_version(a) {
            index_warnings(vs)
        } else {
            index_warnings(vs).push(version_warning("active version "@, a))
        },
        None => index_warnings(vs),
    }
}

/// The warning text for one version.
fn warning_for(prefix: &str, v: &str) -> (out: String)
    ensures
        out@ == version_warning(prefix@, v@),
{
    let mut out = cat(prefix, "'");
    out.append(v);
    out.append("' does not match expected pattern ^v\\d+\\.\\d+(\\.\\d+)?$");
    out
}

/// The version warnings that `registry status` reports.
pub fn version_warnings(index: &RegistryIndex, active: &Option<ActivePointer>) -> (out: Vec<String>)
    ensures
        views(out@) == status_warnings(
            version_names(index.versions@),
            match active { Some(a) => Some(a.version@), None => None },
        ),
{
    let mut out: Vec<String> = Vec::new();
    let mut i: usize = 0;
    while i < index.versions.len()
        invariant
            i <= index.versions@.len(),
            views(out@) == index_warnings(version_names(index.versions@).take(i as int)),
        decreases index.versions@.len() - i,
    {
        let v = index.versions[i].version.as_str();
        let ghost names = version_names(index.versions@);
        proof {
            assert(names.take(i + 1).drop_last() =~= names.take(i as int));
            assert(names.take(i + 1).last() == v@);
        }
        if !is_release_version_pattern(v) {
            let w = warning_for("version ", v);
            let ghost before = out@;
            out.push(w);
            assert(views(out@) =~= views(before).push(w@));
        }
        i += 1;
    }
    assert(version_names(index.versions@).take(index.versions@.len() as int) =~= version_names(index.versions@));
    if let Some(a) = active {
        if !is_release_version_pattern(a.version.as_str()) {
            let w = warning_for("active version ", a.version.as_str());
            let ghost before = out@;
            out.push(w);
            assert(views(out@) =~= views(before).push(w@));
        }
    }
    out
}


/// A version entry as plain values: version, hash, path, added at, note.
pub type VersionView = (Seq<char>, Seq<char>, Seq<char>, Option<Seq<char>>, Option<Seq<char>>);

pub open spec fn opt_view(o: Option<String>) -> Option<Seq<char>> {
    match o {
        Some(s) => Some(s@),
        None => None,
    }
}

pub open spec fn version_view(e: RegistryVersionEntry) -> VersionView {
    (e.version@, e.hash@, e.path@, opt_view(e.added_at), opt_view(e.note))
}

pub open spec fn version_views(s: Seq<RegistryVersionEntry>) -> Seq<VersionView> {
    s.map_values(|e: RegistryVersionEntry| version_view(e))
}

impl KeyOrder for RegistryVersionEntry {
    type K = Seq<char>;

    /// Index entries are ordered by version name.
    open spec fn key(&self) -> Seq<char> {
        self.version@
    }

    open spec fn key_lt(a: Seq<char>, b: Seq<char>) -> bool {
        seq_lt(a, b)
    }

    proof fn lemma_key_lt_irreflexive(a: Seq<char>) {
        crate::text::lemma_seq_lt_irreflexive(a);
    }

    proof fn lemma_key_lt_transitive(a: Seq<char>, b: Seq<char>, c: Seq<char>) {
        crate::text::lemma_seq_lt_transitive(a, b, c);
    }

    proof fn lemma_key_lt_total(a: Seq<char>, b: Seq<char>) {
        crate::text::lemma_seq_lt_total(a, b);
    }

    fn key_less(&self, other: &Self) -> (r: bool) {
        crate::text::str_lt(self.version.as_str(), other.version.as_str())
    }
}

/// `out` is `inp` sorted by version name, entries with equal names kept in
/// their original order (`perm` maps each place of `out` to its place in `inp`).
pub open spec fn version_sort_witness(out: Seq<VersionView>, inp: Seq<VersionView>, perm: Seq<int>) -> bool {
    &&& perm.len() == inp.len()
    &&& out.len() == inp.len()
    &&& forall|i: int| 0 <= i < perm.len() ==> 0 <= #[trigger] perm[i] < inp.len()
    &&& forall|i: int, j: int| 0 <= i < j < perm.len() ==> #[trigger] perm[i] != #[trigger] perm[j]
    &&& forall|t: int| 0 <= t < inp.len() ==> #[trigger] crate::ordered::hits(perm, t)
    &&& forall|i: int| 0 <= i < out.len() ==> #[trigger] out[i] == inp[perm[i]]
    &&& forall|i: int, j: int| 0 <= i < j < out.len() ==> !seq_lt(#[trigger] out[j].0, #[trigger] out[i].0)
    &&& forall|i: int, j: int| 0 <= i < j < out.len() && #[trigger] out[i].0 == #[trigger] out[j].0 ==> perm[i] < perm[j]
}

/// `out` is `inp` stably sorted by version name.
pub open spec fn sorted_by_version(out: Seq<VersionView>, inp: Seq<VersionView>) -> bool {
    exists|perm: Seq<int>| version_sort_witness(out, inp, perm)
}

proof fn lemma_sorted_views(out: Seq<RegistryVersionEntry>, inp: Seq<RegistryVersionEntry>)
    requires
        stably_sorted(out, inp),
    ensures
        sorted_by_version(version_views(out), version_views(inp)),
{
    let perm = choose|perm: Seq<int>| crate::ordered::stable_sort_witness(out, inp, perm);
    let vo = version_views(out);
    let vi = version_views(inp);
    assert forall|i: int| 0 <= i < vo.len() implies #[trigger] vo[i] == vi[perm[i]] by {
        assert(out[i] == inp[perm[i]]);
    }
    assert forall|i: int, j: int| 0 <= i < j < vo.len() implies !seq_lt(#[trigger] vo[j].0, #[trigger] vo[i].0) by {
        assert(!RegistryVersionEntry::key_lt(out[j].key(), out[i].key()));
    }
    assert forall|t: int| 0 <= t < vi.len() implies #[trigger] crate::ordered::hits(perm, t) by {
        assert(crate::ordered::hits(perm, t));
    }
    assert forall|i: int, j: int| 0 <= i < j < vo.len() && #[trigger] vo[i].0 == #[trigger] vo[j].0 implies perm[i] < perm[j] by {
        assert(out[i].key() == out[j].key());
    }
    assert(version_sort_witness(vo, vi, perm));
}

/// The place of the first entry named `v`, or -1.
pub open spec fn find_version(vs: Seq<VersionView>, v: Seq<char>) -> int
    decreases vs.len(),
{
    if vs.len() == 0 {
        -1
    } else if find_version(vs.drop_last(), v) >= 0 {
        find_version(vs.drop_last(), v)
    } else if vs.last().0 == v {
        vs.len() - 1
    } else {
        -1
    }
}

proof fn lemma_find_version(vs: Seq<VersionView>, v: Seq<char>)
    ensures
        -1 <= find_version(vs, v) < vs.len(),
        find_version(vs, v) >= 0 ==> vs[find_version(vs, v)].0 == v,
        find_version(vs, v) >= 0 ==> forall|i: int| 0 <= i < find_version(vs, v) ==> #[trigger] vs[i].0 != v,
        find_version(vs, v) < 0 ==> forall|i: int| 0 <= i < vs.len() ==> #[trigger] vs[i].0 != v,
    decreases vs.len(),
{
    if vs.len() > 0 {
        lemma_find_version(vs.drop_last(), v);
        assert forall|i: int| 0 <= i < vs.len() - 1 implies #[trigger] vs[i] == vs.drop_last()[i] by {}
    }
}

/// The entries after recording `(version, hash, path)`: the first entry with
/// that version gets the new path (and the note, if it had none); otherwise a
/// new entry, added at `now`, is appended. Sorting comes after.
pub open spec fn upserted(
    vs: Seq<VersionView>,
    version: Seq<char>,
    hash: Seq<char>,
    path: Seq<char>,
    note: Option<Seq<char>>,
    now: Seq<char>,
) -> Seq<VersionView> {
    let k = find_version(vs, version);
    if k >= 0 {
        vs.update(k, (vs[k].0, vs[k].1, path, vs[k].3, if vs[k].4 is None { note } else { vs[k].4 }))
    } else {
        vs.push((version, hash, path, Some(now), note))
    }
}

/// Whether recording `(version, hash)` conflicts with a stored hash.
pub open spec fn hash_conflicts(vs: Seq<VersionView>, version: Seq<char>, hash: Seq<char>) -> bool {
    find_version(vs, version) >= 0 && vs[find_version(vs, version)].1 != hash
}

/// Some entry of `vs` records `version` with `hash`.
pub open spec fn records_version(vs: Seq<VersionView>, version: Seq<char>, hash: Seq<char>) -> bool {
    exists|k: int| 0 <= k < vs.len() && (#[trigger] vs[k]).0 == version && vs[k].1 == hash
}

/// Records a version in the index (the entry gets `now` as its time when it is
/// new), then sorts the entries by version. A version already recorded with
/// another hash is refused and the index is left as it was.
pub fn upsert_index_version(
    index: &mut RegistryIndex,
    version: &str,
    hash: &str,
    path: &str,
    note: Option<String>,
    now: &str,
) -> (r: Result<(), RegistryError>)
    ensures
        final(index).active_history == old(index).active_history,
        final(index).thrash_warnings == old(index).thrash_warnings,
        hash_conflicts(version_views(old(index).versions@), version@, hash@) ==> {
            &&& r is Err
            &&& r->Err_0 matches RegistryError::HashConflict { version: v, existing, new }
            &&& v@ == version@
            &&& existing@ == version_views(old(index).versions@)[find_version(version_views(old(index).versions@), version@)].1
            &&& new@ == hash@
            &&& final(index).versions@ == old(index).versions@
        },
        !hash_conflicts(version_views(old(index).versions@), version@, hash@) ==> {
            &&& r is Ok
            &&& sorted_by_version(
                version_views(final(index).versions@),
                upserted(version_views(old(index).versions@), version@, hash@, path@, opt_view(note), now@),
            )
        },
{
    let ghost old_views = version_views(index.versions@);
    let mut found: usize = index.versions.len();
    let mut i: usize = 0;
    while i < index.versions.len()
        invariant
            i <= index.versions@.len(),
            found <= index.versions@.len(),
            old_views == version_views(index.versions@),
            found == index.versions@.len() ==> forall|k: int| 0 <= k < i ==> #[trigger] old_views[k].0 != version@,
            found < index.versions@.len() ==> found < i && old_views[found as int].0 == version@
                && forall|k: int| 0 <= k < found ==> #[trigger] old_views[k].0 != version@,
        decreases index.versions@.len() - i,
    {
        if found == index.versions.len() && str_eq(index.versions[i].version.as_str(), version) {
            found = i;
        }
        i += 1;
    }
    proof {
        lemma_find_version(old_views, version@);
        if found < index.versions@.len() {
            assert(old_views[found as int].0 == version@);
            if find_version(old_views, version@) < found {
                let f = find_version(old_views, version@);
                assert(old_views[f].0 == version@);
            }
            assert(find_version(old_views, version@) == found as int);
        } else {
            if find_version(old_views, version@) >= 0 {
                let f = find_version(old_views, version@);
                assert(old_views[f].0 == version@);
            }
        }
    }
    let mut vs: Vec<RegistryVersionEntry> = Vec::new();
    std::mem::swap(&mut vs, &mut index.versions);
    if found < vs.len() {
        if !str_eq(vs[found].hash.as_str(), hash) {
            let err = RegistryError::HashConflict {
                version: to_owned_string(version),
                existing: vs[found].hash.clone(),
                new: to_owned_string(hash),
            };
            index.versions = vs;
            return Err(err);
        }
        let new_note = if vs[found].note.is_none() {
            note
        } else {
            vs[found].note.clone()
        };
        let entry = RegistryVersionEntry {
            version: vs[found].version.clone(),
            hash: vs[found].hash.clone(),
            path: to_owned_string(path),
            added_at: vs[found].added_at.clone(),
            note: new_note,
        };
        let ghost before = vs@;
        vs[found] = entry;
        proof {
            assert(version_views(vs@) =~= old_views.update(found as int, version_view(entry)));
        }
    } else {
        let entry = RegistryVersionEntry {
            version: to_owned_string(version),
            hash: to_owned_string(hash),
            path: to_owned_string(path),
            added_at: Some(to_owned_string(now)),
            note,
        };
        let ghost before = vs@;
        vs.push(entry);
        proof {
            assert(version_views(vs@) =~= old_views.push(version_view(entry)));
        }
    }
    let ghost unsorted = vs@;
    let sorted = sort_by_key_stable(vs);
    proof {
        lemma_sorted_views(sorted@, unsorted);
    }
    index.versions = sorted;
    Ok(())
}


/// Version names strictly increase along the entries.
pub open spec fn versions_strictly_sorted(vs: Seq<VersionView>) -> bool {
    forall|i: int, j: int| 0 <= i < j < vs.len() ==> seq_lt(#[trigger] vs[i].0, #[trigger] vs[j].0)
}

/// The version names present among the entries.
pub open spec fn names_set(vs: Seq<VersionView>) -> Set<Seq<char>> {
    Set::new(|v: Seq<char>| exists|i: int| 0 <= i < vs.len() && #[trigger] vs[i].0 == v)
}

/// Recording a version in an index whose versions are sorted and distinct
/// keeps them sorted and distinct, adds exactly that version name, and the
/// index then lists the version with the recorded hash.
pub proof fn law_upsert_keeps_versions_sorted(
    vs: Seq<VersionView>,
    out: Seq<VersionView>,
    version: Seq<char>,
    hash: Seq<char>,
    path: Seq<char>,
    note: Option<Seq<char>>,
    now: Seq<char>,
)
    requires
        versions_strictly_sorted(vs),
        !hash_conflicts(vs, version, hash),
        sorted_by_version(out, upserted(vs, version, hash, path, note, now)),
    ensures
        versions_strictly_sorted(out),
        names_set(out) == names_set(vs).insert(version),
        exists|k: int| 0 <= k < out.len() && (#[trigger] out[k]).0 == version && out[k].1 == hash,
{
    let u = upserted(vs, version, hash, path, note, now);
    let perm = choose|perm: Seq<int>| version_sort_witness(out, u, perm);
    lemma_find_version(vs, version);
    let k = find_version(vs, version);
    // names in u are distinct, and u records version with hash at place ku
    let ku = if k >= 0 { k } else { vs.len() as int };
    assert forall|i: int, j: int| 0 <= i < j < u.len() implies #[trigger] u[i].0 != #[trigger] u[j].0 by {
        if k >= 0 {
            assert(u[i].0 == vs[i].0 && u[j].0 == vs[j].0);
            assert(seq_lt(vs[i].0, vs[j].0));
            if vs[i].0 == vs[j].0 {
                crate::text::lemma_seq_lt_irreflexive(vs[i].0);
            }
        } else if j < vs.len() {
            assert(seq_lt(vs[i].0, vs[j].0));
            if vs[i].0 == vs[j].0 {
                crate::text::lemma_seq_lt_irreflexive(vs[i].0);
            }
        } else {
            assert(u[j].0 == version);
        }
    }
    assert(u[ku].0 == version && u[ku].1 == hash);
    assert forall|i: int, j: int| 0 <= i < j < out.len() implies seq_lt(#[trigger] out[i].0, #[trigger] out[j].0) by {
        assert(out[i] == u[perm[i]] && out[j] == u[perm[j]]);
        assert(perm[i] != perm[j]);
        if perm[i] < perm[j] {
            assert(u[perm[i]].0 != u[perm[j]].0);
        } else {
            assert(u[perm[j]].0 != u[perm[i]].0);
        }
        assert(!seq_lt(out[j].0, out[i].0));
        crate::text::lemma_seq_lt_total(out[i].0, out[j].0);
    }
    assert forall|v: Seq<char>| names_set(out).contains(v) <==> names_set(vs).insert(version).contains(v) by {
        if names_set(out).contains(v) {
            let i = choose|i: int| 0 <= i < out.len() && #[trigger] out[i].0 == v;
            assert(out[i] == u[perm[i]]);
            let t = perm[i];
            if k >= 0 {
                if t != k {
                    assert(u[t] == vs[t]);
                    assert(names_set(vs).contains(v));
                }
            } else if t < vs.len() {
                assert(u[t] == vs[t]);
                assert(names_set(vs).contains(v));
            }
        }
        if names_set(vs).insert(version).contains(v) {
            let t = if v == version { ku } else { choose|i: int| 0 <= i < vs.len() && #[trigger] vs[i].0 == v };
            assert(u[t].0 == v);
            assert(crate::ordered::hits(perm, t));
            let i = choose|i: int| 0 <= i < perm.len() && perm[i] == t;
            assert(out[i] == u[perm[i]]);
            assert(names_set(out).contains(v));
        }
    }
    assert(names_set(out) =~= names_set(vs).insert(version));
    assert(crate::ordered::hits(perm, ku));
    let i = choose|i: int| 0 <= i < perm.len() && perm[i] == ku;
    assert(out[i] == u[ku]);
}


/// The stored file of a version, given whether that file exists.
pub fn registry_version_path(project_root: &str, version: &str, exists: bool) -> (r: Result<String, RegistryError>)
    ensures
        trim(version@).len() == 0 ==> r is Err && r->Err_0 is VersionEmpty,
        trim(version@).len() > 0 && exists ==> r is Ok && r->Ok_0@ == spec_version_path(project_root@, trim(version@)),
        trim(version@).len() > 0 && !exists ==> r is Err && (r->Err_0 matches RegistryError::VersionNotFound { version: v, path }
            && v@ == trim(version@) && path@ == spec_version_path(project_root@, trim(version@))),
{
    let v = match normalize_version(version) {
        Ok(v) => v,
        Err(e) => return Err(e),
    };
    let path = crate::paths::registry_constitution_path(project_root, v.as_str());
    if exists {
        Ok(path)
    } else {
        Err(RegistryError::VersionNotFound { version: v, path })
    }
}

/// The stored file of a version, which must exist.
pub fn ensure_registry_version_exists(project_root: &str, version: &str) -> (r: Result<String, RegistryError>)
    ensures
        trim(version@).len() == 0 ==> r is Err && r->Err_0 is VersionEmpty,
        trim(version@).len() > 0 ==> match r {
            Ok(p) => p@ == spec_version_path(project_root@, trim(version@)),
            Err(e) => e matches RegistryError::VersionNotFound { version: v, path }
                && v@ == trim(version@) && path@ == spec_version_path(project_root@, trim(version@)),
        },
{
    let v = match normalize_version(version) {
        Ok(v) => v,
        Err(e) => return Err(e),
    };
    let path = crate::paths::registry_constitution_path(project_root, v.as_str());
    let exists = crate::paths::path_exists(path.as_str());
    registry_version_path(project_root, version, exists)
}

/// An activation as plain values: version, hash, time.
pub open spec fn history_views(s: Seq<RegistryActiveHistoryEntry>) -> Seq<(Seq<char>, Seq<char>, Option<Seq<char>>)> {
    s.map_values(|e: RegistryActiveHistoryEntry| (e.version@, e.hash@, opt_view(e.at)))
}

/// Makes `version` active at time `now`, given the stored bytes of its file
/// (`None` when there is no such file): the pointer names the version, the hash
/// of the stored bytes and the file; the index records the version and the
/// activation. Refused, with the index untouched, when the version is blank,
/// not stored, or recorded with another hash.
pub fn activate_registry_version_at(
    project_root: &str,
    version: &str,
    stored: Option<Vec<u8>>,
    index: &mut RegistryIndex,
    now: &str,
) -> (r: Result<ActivateResult, RegistryError>)
    ensures
        final(index).thrash_warnings == old(index).thrash_warnings,
        r is Err ==> final(index).versions@ == old(index).versions@
            && final(index).active_history == old(index).active_history,
        trim(version@).len() == 0 ==> r is Err && r->Err_0 is VersionEmpty,
        trim(version@).len() > 0 && stored is None ==> r is Err && (r->Err_0 matches RegistryError::VersionNotFound { version: v, path }
            && v@ == trim(version@) && path@ == spec_version_path(project_root@, trim(version@))),
        trim(version@).len() > 0 && stored is Some ==> {
            let v = trim(version@);
            let h = crate::util::sha256_hex(stored->Some_0@);
            let p = spec_version_path(project_root@, v);
            let vs = version_views(old(index).versions@);
            &&& hash_conflicts(vs, v, h) ==> r is Err && (r->Err_0 matches RegistryError::HashConflict { version: ev, existing, new }
                && ev@ == v && existing@ == vs[find_version(vs, v)].1 && new@ == h)
            &&& !hash_conflicts(vs, v, h) ==> {
                &&& r is Ok
                &&& pointer_view(r->Ok_0.active) == (v, h, p)
                &&& sorted_by_version(version_views(final(index).versions@), upserted(vs, v, h, p, None, now@))
                &&& history_views(final(index).active_history@) == history_views(old(index).active_history@).push((v, h, Some(now@)))
                &&& versions_strictly_sorted(vs) ==> {
                    &&& versions_strictly_sorted(version_views(final(index).versions@))
                    &&& names_set(version_views(final(index).versions@)) == names_set(vs).insert(v)
                    &&& records_version(version_views(final(index).versions@), v, h)
                }
            }
        },
{
    let ghost old_vs = version_views(index.versions@);
    let v = match normalize_version(version) {
        Ok(v) => v,
        Err(e) => return Err(e),
    };
    let path = crate::paths::registry_constitution_path(project_root, v.as_str());
    let bytes = match stored {
        Some(b) => b,
        None => return Err(RegistryError::VersionNotFound { version: v, path }),
    };
    let hash = crate::util::sha256_bytes(bytes.as_slice());
    let active = ActivePointer { version: v.clone(), hash: hash.clone(), path: path.clone() };
    match upsert_index_version(index, v.as_str(), hash.as_str(), path.as_str(), None, now) {
        Ok(()) => {},
        Err(e) => return Err(e),
    }
    proof {
        if versions_strictly_sorted(old_vs) {
            law_upsert_keeps_versions_sorted(
                old_vs,
                version_views(index.versions@),
                v@,
                hash@,
                path@,
                None,
                now@,
            );
        }
    }
    let ghost before = index.active_history@;
    index.active_history.push(RegistryActiveHistoryEntry { version: v, hash, at: Some(to_owned_string(now)) });
    assert(history_views(index.active_history@) =~= history_views(before).push((active.version@, active.hash@, Some(now@))));
    Ok(ActivateResult { active })
}

/// Makes `version` active now; see `activate_registry_version_at`, which this
/// calls with the current time.
pub fn activate_registry_version(
    project_root: &str,
    version: &str,
    stored: Option<Vec<u8>>,
    index: &mut RegistryIndex,
) -> (r: Result<ActivateResult, RegistryError>)
    ensures
        final(index).thrash_warnings == old(index).thrash_warnings,
        r is Err ==> final(index).versions@ == old(index).versions@
            && final(index).active_history == old(index).active_history,
        trim(version@).len() == 0 ==> r is Err && r->Err_0 is VersionEmpty,
        trim(version@).len() > 0 && stored is None ==> r is Err && r->Err_0 is VersionNotFound,
        trim(version@).len() > 0 && stored is Some ==> {
            let v = trim(version@);
            let h = crate::util::sha256_hex(stored->Some_0@);
            let p = spec_version_path(project_root@, v);
            let vs = version_views(old(index).versions@);
            &&& hash_conflicts(vs, v, h) ==> r is Err && r->Err_0 is HashConflict
            &&& !hash_conflicts(vs, v, h) ==> {
                &&& r is Ok
                &&& pointer_view(r->Ok_0.active) == (v, h, p)
                &&& exists|now: Seq<char>| {
                    &&& sorted_by_version(version_views(final(index).versions@), #[trigger] upserted(vs, v, h, p, None, now))
                    &&& history_views(final(index).active_history@) == history_views(old(index).active_history@).push((v, h, Some(now)))
                }
                &&& versions_strictly_sorted(vs) ==> {
                    &&& versions_strictly_sorted(version_views(final(index).versions@))
                    &&& names_set(version_views(final(index).versions@)) == names_set(vs).insert(v)
                    &&& records_version(version_views(final(index).versions@), v, h)
                }
            }
        },
{
    let now = crate::util::now_rfc3339();
    activate_registry_version_at(project_root, version, stored, index, now.as_str())
}

/// Whether two byte strings are equal.
fn bytes_equal(a: &[u8], b: &[u8]) -> (r: bool)
    ensures
        r == (a@ == b@),
{
    if a.len() != b.len() {
        return false;
    }
    let mut i: usize = 0;
    while i < a.len()
        invariant
            a@.len() == b@.len(),
            i <= a@.len(),
            forall|k: int| 0 <= k < i ==> a@[k] == b@[k],
        decreases a@.len() - i,
    {
        if a[i] != b[i] {
            return false;
        }
        i += 1;
    }
    assert(a@ =~= b@);
    true
}

/// The first eight characters of a hash.
pub fn hash_prefix(hash: &str) -> (out: String)
    ensures
        out@ == spec_hash_prefix(hash@),
{
    let cs = chars_of(hash);
    if cs.len() <= 8 {
        string_of(cs.as_slice())
    } else {
        let out = string_of(&cs.as_slice()[0..8]);
        assert(out@ =~= hash@.take(8));
        out
    }
}

/// Checks that two reads of a freshly stored file agree, and gives the hash
/// of what was read.
pub fn verify_stored_reads(path: &str, read_1: &[u8], read_2: &[u8]) -> (r: Result<String, RegistryError>)
    requires
        read_1@.len() <= u64::MAX,
        read_2@.len() <= u64::MAX,
    ensures
        read_1@ == read_2@ ==> r is Ok && r->Ok_0@ == crate::util::sha256_hex(read_1@),
        read_1@ != read_2@ ==> r is Err && (r->Err_0 matches RegistryError::ReadMismatch { path: p, len1, len2, hash1, hash2 }
            && p@ == path@ && len1 == read_1@.len() && len2 == read_2@.len()
            && hash1@ == spec_hash_prefix(crate::util::sha256_hex(read_1@))
            && hash2@ == spec_hash_prefix(crate::util::sha256_hex(read_2@))),
{
    let hash_1 = crate::util::sha256_bytes(read_1);
    let hash_2 = crate::util::sha256_bytes(read_2);
    if !bytes_equal(read_1, read_2) {
        return Err(RegistryError::ReadMismatch {
            path: to_owned_string(path),
            len1: read_1.len() as u64,
            len2: read_2.len() as u64,
            hash1: hash_prefix(hash_1.as_str()),
            hash2: hash_prefix(hash_2.as_str()),
        });
    }
    Ok(hash_1)
}

/// What registry admission reads of a parsed constitution.
#[derive(Debug, Clone)]
pub struct ConstitutionHeader {
    pub constitution_version: String,
    pub has_audio_contract: bool,
}

/// Admission of a constitution into the registry, given what parsing its
/// YAML gave (`None` when it did not parse): it needs a non-blank
/// `constitution_version` and an `audio_contract`.
pub fn validate_registry_admission(parsed: &Option<ConstitutionHeader>) -> (r: Result<(), RegistryError>)
    ensures
        match parsed {
            None => r is Err && r->Err_0 is AdmissionUnparsable,
            Some(h) => if trim(h.constitution_version@).len() == 0 {
                r is Err && r->Err_0 is AdmissionVersionEmpty
            } else if !h.has_audio_contract {
                r is Err && r->Err_0 is AdmissionNoAudioContract
            } else {
                r is Ok
            },
        },
{
    match parsed {
        None => Err(RegistryError::AdmissionUnparsable),
        Some(h) => {
            if crate::graph::is_blank(h.constitution_version.as_str()) {
                Err(RegistryError::AdmissionVersionEmpty)
            } else if !h.has_audio_contract {
                Err(RegistryError::AdmissionNoAudioContract)
            } else {
                Ok(())
            }
        },
    }
}

/// Records a constitution just stored at its registry path, given the two
/// reads of the stored file and what parsing the first read gave: the reads
/// must agree, the content must pass admission, and the index then records
/// the version with the hash of the content.
pub fn record_stored_constitution(
    project_root: &str,
    version: &str,
    read_1: &[u8],
    read_2: &[u8],
    parsed: &Option<ConstitutionHeader>,
    note: Option<String>,
    index: &mut RegistryIndex,
    now: &str,
) -> (r: Result<RegistryWriteResult, RegistryError>)
    requires
        read_1@.len() <= u64::MAX,
        read_2@.len() <= u64::MAX,
    ensures
        final(index).active_history == old(index).active_history,
        final(index).thrash_warnings == old(index).thrash_warnings,
        r is Err ==> final(index).versions@ == old(index).versions@,
        read_1@ != read_2@ ==> r is Err && r->Err_0 is ReadMismatch,
        read_1@ == read_2@ && !admitted(*parsed) ==> r is Err,
        ({
            let h = crate::util::sha256_hex(read_1@);
            let p = spec_version_path(project_root@, version@);
            let vs = version_views(old(index).versions@);
            read_1@ == read_2@ && admitted(*parsed) ==> {
                &&& hash_conflicts(vs, version@, h) ==> r is Err && r->Err_0 is HashConflict
                &&& !hash_conflicts(vs, version@, h) ==> {
                    &&& r is Ok
                    &&& r->Ok_0.version@ == version@
                    &&& r->Ok_0.hash@ == h
                    &&& r->Ok_0.path@ == p
                    &&& sorted_by_version(version_views(final(index).versions@), upserted(vs, version@, h, p, opt_view(note), now@))
                    &&& versions_strictly_sorted(vs) ==> {
                        &&& versions_strictly_sorted(version_views(final(index).versions@))
                        &&& names_set(version_views(final(index).versions@)) == names_set(vs).insert(version@)
                        &&& records_version(version_views(final(index).versions@), version@, h)
                    }
                }
            }
        }),
{
    let ghost old_vs = version_views(index.versions@);
    let path = crate::paths::registry_constitution_path(project_root, version);
    let hash = match verify_stored_reads(path.as_str(), read_1, read_2) {
        Ok(h) => h,
        Err(e) => return Err(e),
    };
    match validate_registry_admission(parsed) {
        Ok(()) => {},
        Err(e) => return Err(e),
    }
    let ghost nv = opt_view(note);
    match upsert_index_version(index, version, hash.as_str(), path.as_str(), note, now) {
        Ok(()) => {},
        Err(e) => return Err(e),
    }
    proof {
        if versions_strictly_sorted(old_vs) {
            law_upsert_keeps_versions_sorted(old_vs, version_views(index.versions@), version@, hash@, path@, nv, now@);
        }
    }
    Ok(RegistryWriteResult { version: to_owned_string(version), hash, path })
}

/// The parsed constitution passes admission.
pub open spec fn admitted(parsed: Option<ConstitutionHeader>) -> bool {
    match parsed {
        Some(h) => trim(h.constitution_version@).len() > 0 && h.has_audio_contract,
        None => false,
    }
}

/// Finishes `registry init` once the legacy constitution has been stored:
/// the stored version becomes active and the activation is recorded at `now`.
pub fn init_registry(project_root: &str, written: &RegistryWriteResult, index: &mut RegistryIndex, now: &str) -> (out: InitResult)
    ensures
        pointer_view(out.active) == (written.version@, written.hash@, written.path@),
        out.source_path@ == join_spec(crate::paths::spec_project_sce_dir(project_root@), "constitution.yaml"@),
        final(index).versions == old(index).versions,
        final(index).thrash_warnings == old(index).thrash_warnings,
        history_views(final(index).active_history@) == history_views(old(index).active_history@).push(
            (written.version@, written.hash@, Some(now@)),
        ),
{
    let active = ActivePointer {
        version: written.version.clone(),
        hash: written.hash.clone(),
        path: written.path.clone(),
    };
    let ghost before = index.active_history@;
    index.active_history.push(RegistryActiveHistoryEntry {
        version: written.version.clone(),
        hash: written.hash.clone(),
        at: Some(to_owned_string(now)),
    });
    assert(history_views(index.active_history@) =~= history_views(before).push((written.version@, written.hash@, Some(now@))));
    let source_path = crate::paths::path_join(&crate::paths::project_sce_dir(project_root), "constitution.yaml");
    InitResult { active, source_path }
}


/// `bytes` ending in a newline: unchanged when they already do, else with one
/// appended.
pub open spec fn newline_terminated(b: Seq<u8>) -> Seq<u8> {
    if b.len() > 0 && b.last() == 10u8 { b } else { b.push(10u8) }
}

/// The temporary file name used while writing `file_name` from process `pid`.
pub open spec fn tmp_name(file_name: Seq<char>, pid: u32) -> Seq<char> {
    file_name + ".tmp."@ + crate::text::decimal(pid as nat)
}

/// How a file is replaced atomically: its parent directory is created, the
/// bytes are written to `tmp_path`, and `tmp_path` is renamed to `path`.
#[derive(Debug)]
pub struct AtomicWrite {
    pub parent: String,
    pub tmp_path: String,
    pub path: String,
    pub bytes: Vec<u8>,
}

/// Plans the atomic write of `bytes` (newline-terminated) to `path` by
/// process `pid`. A path without a parent or a file name is refused.
pub fn write_atomic_bytes(path: &str, bytes: &[u8], pid: u32) -> (r: Result<AtomicWrite, RegistryError>)
    ensures
        crate::paths::parent_of(path@) is None ==> r is Err && (r->Err_0 matches RegistryError::MissingParent { path: p } && p@ == path@),
        crate::paths::parent_of(path@) is Some && crate::paths::file_name_of(path@) is None ==>
            r is Err && (r->Err_0 matches RegistryError::MissingFileName { path: p } && p@ == path@),
        crate::paths::parent_of(path@) is Some && crate::paths::file_name_of(path@) is Some ==> {
            let parent = crate::paths::parent_of(path@)->Some_0;
            let name = crate::paths::file_name_of(path@)->Some_0;
            &&& r is Ok
            &&& r->Ok_0.parent@ == parent
            &&& r->Ok_0.tmp_path@ == join_spec(parent, tmp_name(name, pid))
            &&& r->Ok_0.path@ == path@
            &&& r->Ok_0.bytes@ == newline_terminated(bytes@)
        },
{
    let parent = match crate::paths::path_parent(path) {
        Some(p) => p,
        None => return Err(RegistryError::MissingParent { path: to_owned_string(path) }),
    };
    let name = match crate::paths::path_file_name(path) {
        Some(n) => n,
        None => return Err(RegistryError::MissingFileName { path: to_owned_string(path) }),
    };
    let mut tmp = cat(name.as_str(), ".tmp.");
    let pid_text = crate::text::decimal_string(pid as u64);
    tmp.append(pid_text.as_str());
    let tmp_path = crate::paths::path_join(parent.as_str(), tmp.as_str());
    let mut out: Vec<u8> = Vec::new();
    let mut i: usize = 0;
    while i < bytes.len()
        invariant
            i <= bytes@.len(),
            out@ == bytes@.take(i as int),
        decreases bytes@.len() - i,
    {
        out.push(bytes[i]);
        assert(bytes@.take(i as int).push(bytes@[i as int]) =~= bytes@.take(i + 1));
        i += 1;
    }
    assert(bytes@.take(bytes@.len() as int) =~= bytes@);
    if !(bytes.len() > 0 && bytes[bytes.len() - 1] == 10u8) {
        out.push(10u8);
    }
    Ok(AtomicWrite { parent, tmp_path, path: to_owned_string(path), bytes: out })
}

/// The canary budget as stored: a run count that must fit in an `i64`.
pub fn canary_budget(budget_runs: u64) -> (r: Result<i64, RegistryError>)
    ensures
        budget_runs <= i64::MAX ==> r is Ok && r->Ok_0 == budget_runs,
        budget_runs > i64::MAX ==> r is Err && r->Err_0 is BudgetTooLarge,
{
    if budget_runs <= 9223372036854775807u64 {
        Ok(budget_runs as i64)
    } else {
        Err(RegistryError::BudgetTooLarge)
    }
}

/// The file copy of a canary state row, and where it is written.
pub fn write_canary_projection(project_root: &str, state: &PolicyCanaryStateRow) -> (out: (CanaryStateProjection, String))
    ensures
        out.0.project_id@ == state.project_id@,
        out.0.candidate_version@ == state.candidate_version@,
        out.0.remaining_budget == state.remaining_budget,
        out.0.started_at@ == state.started_at@,
        out.0.updated_at@ == state.updated_at@,
        out.1@ == join_spec(
            join_spec(join_spec(spec_registry_dir(project_root@), "canary"@), state.candidate_version@),
            "canary_state.json"@,
        ),
{
    let projection = CanaryStateProjection {
        project_id: state.project_id.clone(),
        candidate_version: state.candidate_version.clone(),
        remaining_budget: state.remaining_budget,
        started_at: state.started_at.clone(),
        updated_at: state.updated_at.clone(),
    };
    let path = crate::paths::registry_canary_projection_path(project_root, state.candidate_version.as_str());
    (projection, path)
}

pub open spec fn spec_impact_status(s: crate::gates::GateStatus) -> ImpactGateStatus {
    match s {
        crate::gates::GateStatus::Pass => ImpactGateStatus::Pass,
        crate::gates::GateStatus::Warn => ImpactGateStatus::Warn,
        crate::gates::GateStatus::Fail => ImpactGateStatus::Fail,
    }
}

impl From<crate::gates::GateStatus> for ImpactGateStatus {
    fn from(value: crate::gates::GateStatus) -> (r: Self) {
        match value {
            crate::gates::GateStatus::Pass => ImpactGateStatus::Pass,
            crate::gates::GateStatus::Warn => ImpactGateStatus::Warn,
            crate::gates::GateStatus::Fail => ImpactGateStatus::Fail,
        }
    }
}

impl vstd::std_specs::convert::FromSpecImpl<crate::gates::GateStatus> for ImpactGateStatus {
    open spec fn obeys_from_spec() -> bool {
        true
    }

    open spec fn from_spec(v: crate::gates::GateStatus) -> Self {
        spec_impact_status(v)
    }
}

/// Run counts per gate status.
#[derive(Debug, Clone, Copy)]
pub struct GateStatusAccumulator {
    pub pass: u64,
    pub warn: u64,
    pub fail: u64,
}

impl GateStatusAccumulator {
    /// No runs counted.
    pub fn new() -> (out: Self)
        ensures
            out.pass == 0 && out.warn == 0 && out.fail == 0,
    {
        GateStatusAccumulator { pass: 0, warn: 0, fail: 0 }
    }

    /// Counts one run with the given status.
    pub fn add(&mut self, status: ImpactGateStatus)
        requires
            old(self).pass < u64::MAX,
            old(self).warn < u64::MAX,
            old(self).fail < u64::MAX,
        ensures
            final(self).pass == old(self).pass + if status == ImpactGateStatus::Pass { 1int } else { 0int },
            final(self).warn == old(self).warn + if status == ImpactGateStatus::Warn { 1int } else { 0int },
            final(self).fail == old(self).fail + if status == ImpactGateStatus::Fail { 1int } else { 0int },
    {
        match status {
            ImpactGateStatus::Pass => self.pass = self.pass + 1,
            ImpactGateStatus::Warn => self.warn = self.warn + 1,
            ImpactGateStatus::Fail => self.fail = self.fail + 1,
        }
    }
}

/// A run newly fails under the candidate: it did not fail before and fails now.
pub open spec fn spec_new_fail(baseline: ImpactGateStatus, candidate: ImpactGateStatus) -> bool {
    baseline != ImpactGateStatus::Fail && candidate == ImpactGateStatus::Fail
}

/// How many runs have the given status.
pub open spec fn status_count(s: Seq<ImpactGateStatus>, status: ImpactGateStatus) -> nat
    decreases s.len(),
{
    if s.len() == 0 {
        0
    } else {
        status_count(s.drop_last(), status) + if s.last() == status { 1nat } else { 0nat }
    }
}

/// How many runs newly fail.
pub open spec fn new_fail_count(b: Seq<ImpactGateStatus>, c: Seq<ImpactGateStatus>) -> nat
    decreases b.len(),
{
    if b.len() == 0 || c.len() != b.len() {
        0
    } else {
        new_fail_count(b.drop_last(), c.drop_last()) + if spec_new_fail(b.last(), c.last()) { 1nat } else { 0nat }
    }
}

proof fn lemma_counts_bounded(s: Seq<ImpactGateStatus>, status: ImpactGateStatus)
    ensures
        status_count(s, status) <= s.len(),
    decreases s.len(),
{
    if s.len() > 0 {
        lemma_counts_bounded(s.drop_last(), status);
    }
}

/// The counts that the impact report derives from the baseline and candidate
/// statuses of the selected runs.
#[derive(Debug)]
pub struct ImpactTallies {
    pub new_fail: Vec<bool>,
    pub new_fail_count: u64,
    pub new_blockers_count: u64,
    pub gate_status_delta: GateStatusDelta,
}

/// Compares each run's baseline status with its candidate status: which runs
/// newly fail (a new failure is also a new blocker), how many, and the change
/// in the count of each status.
pub fn impact_tallies(baseline: &Vec<ImpactGateStatus>, candidate: &Vec<ImpactGateStatus>) -> (out: ImpactTallies)
    requires
        baseline@.len() == candidate@.len(),
        baseline@.len() <= i64::MAX,
    ensures
        out.new_fail@.len() == baseline@.len(),
        forall|i: int| 0 <= i < baseline@.len() ==> out.new_fail@[i] == spec_new_fail(#[trigger] baseline@[i], candidate@[i]),
        out.new_fail_count == new_fail_count(baseline@, candidate@),
        out.new_blockers_count == out.new_fail_count,
        out.gate_status_delta.pass == status_count(candidate@, ImpactGateStatus::Pass) - status_count(baseline@, ImpactGateStatus::Pass),
        out.gate_status_delta.warn == status_count(candidate@, ImpactGateStatus::Warn) - status_count(baseline@, ImpactGateStatus::Warn),
        out.gate_status_delta.fail == status_count(candidate@, ImpactGateStatus::Fail) - status_count(baseline@, ImpactGateStatus::Fail),
{
    let mut base = GateStatusAccumulator::new();
    let mut cand = GateStatusAccumulator::new();
    let mut new_fail: Vec<bool> = Vec::new();
    let mut count: u64 = 0;
    let mut i: usize = 0;
    while i < baseline.len()
        invariant
            baseline@.len() == candidate@.len(),
            baseline@.len() <= i64::MAX,
            i <= baseline@.len(),
            new_fail@.len() == i,
            forall|k: int| 0 <= k < i ==> new_fail@[k] == spec_new_fail(#[trigger] baseline@[k], candidate@[k]),
            count == new_fail_count(baseline@.take(i as int), candidate@.take(i as int)),
            count <= i,
            base.pass == status_count(baseline@.take(i as int), ImpactGateStatus::Pass),
            base.warn == status_count(baseline@.take(i as int), ImpactGateStatus::Warn),
            base.fail == status_count(baseline@.take(i as int), ImpactGateStatus::Fail),
            cand.pass == status_count(candidate@.take(i as int), ImpactGateStatus::Pass),
            cand.warn == status_count(candidate@.take(i as int), ImpactGateStatus::Warn),
            cand.fail == status_count(candidate@.take(i as int), ImpactGateStatus::Fail),
        decreases baseline@.len() - i,
    {
        let b = baseline[i];
        let c = candidate[i];
        proof {
            assert(baseline@.take(i + 1).drop_last() =~= baseline@.take(i as int));
            assert(candidate@.take(i + 1).drop_last() =~= candidate@.take(i as int));
            lemma_counts_bounded(baseline@.take(i as int), ImpactGateStatus::Pass);
            lemma_counts_bounded(baseline@.take(i as int), ImpactGateStatus::Warn);
            lemma_counts_bounded(baseline@.take(i as int), ImpactGateStatus::Fail);
            lemma_counts_bounded(candidate@.take(i as int), ImpactGateStatus::Pass);
            lemma_counts_bounded(candidate@.take(i as int), ImpactGateStatus::Warn);
            lemma_counts_bounded(candidate@.take(i as int), ImpactGateStatus::Fail);
        }
        base.add(b);
        cand.add(c);
        let nf = b != ImpactGateStatus::Fail && c == ImpactGateStatus::Fail;
        new_fail.push(nf);
        if nf {
            count = count + 1;
        }
        i += 1;
    }
    proof {
        assert(baseline@.take(i as int) =~= baseline@);
        assert(candidate@.take(i as int) =~= candidate@);
        lemma_counts_bounded(baseline@, ImpactGateStatus::Pass);
        lemma_counts_bounded(baseline@, ImpactGateStatus::Warn);
        lemma_counts_bounded(baseline@, ImpactGateStatus::Fail);
        lemma_counts_bounded(candidate@, ImpactGateStatus::Pass);
        lemma_counts_bounded(candidate@, ImpactGateStatus::Warn);
        lemma_counts_bounded(candidate@, ImpactGateStatus::Fail);
    }
    let delta = GateStatusDelta {
        pass: cand.pass as i64 - base.pass as i64,
        warn: cand.warn as i64 - base.warn as i64,
        fail: cand.fail as i64 - base.fail as i64,
    };
    ImpactTallies { new_fail, new_fail_count: count, new_blockers_count: count, gate_status_delta: delta }
}


/// What the baseline run says of a gate: the pass flag of its last gate with
/// that name; a gate it did not evaluate counts as passing.
pub open spec fn baseline_pass(gates: Seq<GateResult>, name: Seq<char>) -> bool
    decreases gates.len(),
{
    if gates.len() == 0 {
        true
    } else if gates.last().gate_name@ == name {
        gates.last().pass_fail
    } else {
        baseline_pass(gates.drop_last(), name)
    }
}

/// How many gates named `name` fail.
pub open spec fn failing_named(gates: Seq<GateResult>, name: Seq<char>) -> nat
    decreases gates.len(),
{
    if gates.len() == 0 {
        0
    } else {
        failing_named(gates.drop_last(), name) + if gates.last().gate_name@ == name && !gates.last().pass_fail {
            1nat
        } else {
            0nat
        }
    }
}

/// How many failures of gate `name` under the candidate are new: all of them
/// when the baseline passed that gate, none otherwise.
pub open spec fn newly_failing(baseline: Seq<GateResult>, candidate: Seq<GateResult>, name: Seq<char>) -> nat {
    if baseline_pass(baseline, name) { failing_named(candidate, name) } else { 0 }
}

proof fn lemma_failing_named_bounded(gates: Seq<GateResult>, name: Seq<char>)
    ensures
        failing_named(gates, name) <= gates.len(),
    decreases gates.len(),
{
    if gates.len() > 0 {
        lemma_failing_named_bounded(gates.drop_last(), name);
    }
}

/// What the baseline run says of gate `name`.
fn baseline_passes(gates: &Vec<GateResult>, name: &str) -> (r: bool)
    ensures
        r == baseline_pass(gates@, name@),
{
    let mut r = true;
    let mut i: usize = 0;
    while i < gates.len()
        invariant
            i <= gates@.len(),
            r == baseline_pass(gates@.take(i as int), name@),
        decreases gates@.len() - i,
    {
        assert(gates@.take(i + 1).drop_last() =~= gates@.take(i as int));
        if str_eq(gates[i].gate_name.as_str(), name) {
            r = gates[i].pass_fail;
        }
        i += 1;
    }
    assert(gates@.take(i as int) =~= gates@);
    r
}

/// Adds to `counts`, for each gate that fails under the candidate, one new
/// failure when the baseline run passed that gate.
pub fn update_newly_failing_gates(baseline_gates: &Vec<GateResult>, candidate_gates: &Vec<GateResult>, counts: &mut Vec<NameCount>)
    requires
        well_formed_counts(old(counts)@),
        forall|k: Seq<char>| #[trigger] count_in(old(counts)@, k) + candidate_gates@.len() < usize::MAX,
    ensures
        well_formed_counts(final(counts)@),
        forall|k: Seq<char>| #[trigger] count_in(final(counts)@, k) == count_in(old(counts)@, k)
            + newly_failing(baseline_gates@, candidate_gates@, k),
{
    let ghost start = counts@;
    let mut i: usize = 0;
    while i < candidate_gates.len()
        invariant
            i <= candidate_gates@.len(),
            well_formed_counts(counts@),
            forall|k: Seq<char>| #[trigger] count_in(start, k) + candidate_gates@.len() < usize::MAX,
            forall|k: Seq<char>| #[trigger] count_in(counts@, k) == count_in(start, k)
                + newly_failing(baseline_gates@, candidate_gates@.take(i as int), k),
        decreases candidate_gates@.len() - i,
    {
        let ghost before = counts@;
        let ghost t = candidate_gates@.take(i + 1);
        proof {
            assert(t.drop_last() =~= candidate_gates@.take(i as int));
            assert(t.last() == candidate_gates@[i as int]);
        }
        let g = &candidate_gates[i];
        if !g.pass_fail && baseline_passes(baseline_gates, g.gate_name.as_str()) {
            proof {
                lemma_failing_named_bounded(candidate_gates@.take(i as int), g.gate_name@);
                assert(count_in(start, g.gate_name@) + candidate_gates@.len() < usize::MAX);
            }
            bump(counts, g.gate_name.as_str());
        }
        proof {
            assert forall|k: Seq<char>| #[trigger] count_in(counts@, k) == count_in(start, k)
                + newly_failing(baseline_gates@, t, k) by {
                assert(count_in(before, k) == count_in(start, k) + newly_failing(baseline_gates@, candidate_gates@.take(i as int), k));
            }
        }
        i += 1;
    }
    assert(candidate_gates@.take(i as int) =~= candidate_gates@);
}

/// A gate failure count as plain values.
pub open spec fn fail_pairs(v: Seq<GateFailCount>) -> Seq<(Seq<char>, nat)> {
    v.map_values(|c: GateFailCount| (c.gate_name@, c.count as nat))
}

/// The newly failing gates, most new failures first, ties by gate name.
pub fn top_newly_failing_gates(counts: Vec<NameCount>) -> (out: Vec<GateFailCount>)
    requires
        well_formed_counts(counts@),
    ensures
        is_ranking(fail_pairs(out@), |k: Seq<char>| count_in(counts@, k)),
{
    let ghost c = counts@;
    let ranked = rank_counts(counts);
    let mut out: Vec<GateFailCount> = Vec::new();
    let mut i: usize = 0;
    while i < ranked.len()
        invariant
            i <= ranked@.len(),
            fail_pairs(out@) == pairs(ranked@).take(i as int),
        decreases ranked@.len() - i,
    {
        let e = GateFailCount { gate_name: ranked[i].name.clone(), count: ranked[i].count as u64 };
        let ghost before = out@;
        out.push(e);
        assert(fail_pairs(out@) =~= fail_pairs(before).push((e.gate_name@, e.count as nat)));
        assert(pairs(ranked@).take(i + 1) =~= pairs(ranked@).take(i as int).push(pairs(ranked@)[i as int]));
        i += 1;
    }
    assert(pairs(ranked@).take(i as int) =~= pairs(ranked@));
    out
}

/// Where a worker takes its constitution from.
#[derive(Debug, Clone)]
pub enum ConstitutionSource {
    /// A pinned registry version, stored at `path`.
    Pinned { version: String, path: String },
    /// The version that the registry's active pointer names.
    Active,
    /// The project's own `constitution.yaml`, when there is no registry.
    Legacy,
}

/// Chooses a worker's constitution source for the pinned version, given
/// whether the pinned version's file, the active pointer and the registry
/// directory exist.
pub fn choose_constitution_source(
    project_root: &str,
    pinned_version: &str,
    version_exists: bool,
    active_exists: bool,
    registry_exists: bool,
) -> (r: Result<ConstitutionSource, RegistryError>)
    ensures
        trim(pinned_version@).len() == 0 ==> r is Err && r->Err_0 is PinnedVersionEmpty,
        trim(pinned_version@).len() > 0 && trim(pinned_version@) != "active"@ ==> {
            let v = trim(pinned_version@);
            let p = spec_version_path(project_root@, v);
            &&& version_exists ==> r is Ok && (r->Ok_0 matches ConstitutionSource::Pinned { version, path }
                && version@ == v && path@ == p)
            &&& !version_exists ==> r is Err && (r->Err_0 matches RegistryError::VersionNotFound { version, path }
                && version@ == v && path@ == p)
        },
        trim(pinned_version@) == "active"@ ==> {
            &&& active_exists ==> r is Ok && r->Ok_0 is Active
            &&& !active_exists && !registry_exists ==> r is Ok && r->Ok_0 is Legacy
            &&& !active_exists && registry_exists ==> r is Err && (r->Err_0 matches RegistryError::ActiveMissing { path }
                && path@ == spec_active_path(project_root@))
        },
{
    let pinned = trim_string(pinned_version);
    proof {
        reveal_strlit("active");
    }
    if pinned.as_str().is_empty() {
        return Err(RegistryError::PinnedVersionEmpty);
    }
    proof {
        crate::text::lemma_trim_idempotent(pinned_version@);
    }
    if !str_eq(pinned.as_str(), ACTIVE_CONSTITUTION_VERSION) {
        return match registry_version_path(project_root, pinned.as_str(), version_exists) {
            Ok(path) => Ok(ConstitutionSource::Pinned { version: pinned, path }),
            Err(e) => Err(e),
        };
    }
    if active_exists {
        Ok(ConstitutionSource::Active)
    } else if !registry_exists {
        Ok(ConstitutionSource::Legacy)
    } else {
        Err(RegistryError::ActiveMissing { path: crate::paths::registry_active_path(project_root) })
    }
}

/// Chooses a worker's constitution source for the pinned version, looking at
/// which registry files exist now.
pub fn constitution_source(project_root: &str, pinned_version: &str) -> (r: Result<ConstitutionSource, RegistryError>)
    ensures
        trim(pinned_version@).len() == 0 ==> r is Err && r->Err_0 is PinnedVersionEmpty,
        trim(pinned_version@).len() > 0 && trim(pinned_version@) != "active"@ ==> match r {
            Ok(s) => s matches ConstitutionSource::Pinned { version, path } && version@ == trim(pinned_version@)
                && path@ == spec_version_path(project_root@, trim(pinned_version@)),
            Err(e) => e is VersionNotFound,
        },
        trim(pinned_version@) == "active"@ ==> match r {
            Ok(s) => s is Active || s is Legacy,
            Err(e) => e matches RegistryError::ActiveMissing { path } && path@ == spec_active_path(project_root@),
        },
{
    let pinned = trim_string(pinned_version);
    let mut version_exists = false;
    let mut active_exists = false;
    let mut registry_exists = false;
    if !pinned.as_str().is_empty() {
        if !str_eq(pinned.as_str(), ACTIVE_CONSTITUTION_VERSION) {
            let path = crate::paths::registry_constitution_path(project_root, pinned.as_str());
            version_exists = crate::paths::path_exists(path.as_str());
        } else {
            let active_path = crate::paths::registry_active_path(project_root);
            active_exists = crate::paths::path_exists(active_path.as_str());
            if !active_exists {
                let dir = crate::paths::registry_dir(project_root);
                registry_exists = crate::paths::path_exists(dir.as_str());
            }
        }
    }
    choose_constitution_source(project_root, pinned_version, version_exists, active_exists, registry_exists)
}

/// The version recorded for a run that used the legacy constitution: its own
/// `constitution_version`, or `active` when that is blank.
pub fn legacy_version(constitution_version: &str) -> (out: String)
    ensures
        trim(constitution_version@).len() == 0 ==> out@ == "active"@,
        trim(constitution_version@).len() > 0 ==> out@ == constitution_version@,
{
    if crate::graph::is_blank(constitution_version) {
        to_owned_string(ACTIVE_CONSTITUTION_VERSION)
    } else {
        to_owned_string(constitution_version)
    }
}


/// The constitution version a newly queued run is pinned to. Without a
/// registry it is `active` (the project's own constitution). With one, the
/// active pointer must be readable; a run that consumed a unit of canary
/// budget is pinned to the canary candidate, whose stored file must exist;
/// any other run is pinned to the active version.
pub fn enqueue_pin(
    project_root: &str,
    registry_exists: bool,
    active: Option<ActivePointer>,
    canary_candidate: Option<String>,
    candidate_exists: bool,
) -> (r: Result<String, RegistryError>)
    ensures
        !registry_exists ==> r is Ok && r->Ok_0@ == "active"@,
        registry_exists && active is None ==> r is Err && (r->Err_0 matches RegistryError::EnqueueActiveMissing { path }
            && path@ == spec_active_path(project_root@)),
        registry_exists && active is Some && canary_candidate is Some && !candidate_exists ==> r is Err
            && (r->Err_0 matches RegistryError::CanaryCandidateMissing { version, path }
            && version@ == canary_candidate->Some_0@
            && path@ == spec_version_path(project_root@, canary_candidate->Some_0@)),
        registry_exists && active is Some && canary_candidate is Some && candidate_exists ==> r is Ok
            && r->Ok_0@ == canary_candidate->Some_0@,
        registry_exists && active is Some && canary_candidate is None ==> r is Ok && r->Ok_0@ == active->Some_0.version@,
{
    if !registry_exists {
        return Ok(to_owned_string(ACTIVE_CONSTITUTION_VERSION));
    }
    let pointer = match active {
        Some(p) => p,
        None => return Err(RegistryError::EnqueueActiveMissing { path: crate::paths::registry_active_path(project_root) }),
    };
    match canary_candidate {
        Some(v) => {
            if candidate_exists {
                Ok(v)
            } else {
                let path = crate::paths::registry_constitution_path(project_root, v.as_str());
                Err(RegistryError::CanaryCandidateMissing { version: v, path })
            }
        },
        None => Ok(pointer.version),
    }
}

} // verus!
