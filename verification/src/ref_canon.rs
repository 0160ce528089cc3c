//! The reference canon: a per-project index of reference audio files, each
//! identified by its content hash, with a display name and normalized tags.
use vstd::prelude::*;
use crate::analyzer::Metrics;
use crate::ordered::{
    KeyOrder, keys, strictly_sorted, sorted_unique, stably_sorted, sort_by_key_stable, views,
    copy_strings,
};
use crate::paths::{file_name_of, path_file_name, split_file_name, stem_of, extension_of, join_spec};
use crate::text::{
    comma_tokens, comma_separated_tokens, trim, trimmed_range, chars_of, string_of, str_eq,
    to_owned_string, seq_lt,
};

verus! {

pub const SCHEMA_VERSION: &'static str = "1.0";

pub const REF_ANALYZER_VERSION: &'static str = "TelemetryAnalyzer/1.0.0";

/// One reference in the canon index.
#[derive(Debug, Clone)]
pub struct RefEntry {
    pub content_hash: String,
    pub name: String,
    pub tags: Vec<String>,
    pub profile_path: String,
    pub copied_file_path: Option<String>,
}

/// The canon index, also what `refs list` prints.
#[derive(Debug, Clone)]
pub struct RefListOutput {
    pub schema_version: String,
    pub refs: Vec<RefEntry>,
}

/// One reference as `refs show` prints it.
#[derive(Debug, Clone)]
pub struct RefShowOutput {
    pub schema_version: String,
    pub content_hash: String,
    pub name: String,
    pub tags: Vec<String>,
    pub profile_path: String,
    pub copied_file_path: Option<String>,
}

/// The stored analysis profile of a reference.
#[derive(Debug, Clone)]
pub struct RefProfile {
    pub schema_version: String,
    pub content_hash: String,
    pub analyzer_version: String,
    pub metrics: Metrics,
}

/// An optional string as an optional character sequence.
pub open spec fn opt_view(o: Option<String>) -> Option<Seq<char>> {
    match o {
        Some(s) => Some(s@),
        None => None,
    }
}

/// A copy of an optional string.
pub fn copy_opt(o: &Option<String>) -> (out: Option<String>)
    ensures
        opt_view(out) == opt_view(*o),
{
    match o {
        Some(s) => Some(s.clone()),
        None => None,
    }
}

/// An entry as plain values: hash, name, tags, profile path, copied file path.
pub type EntryView = (Seq<char>, Seq<char>, Seq<Seq<char>>, Seq<char>, Option<Seq<char>>);

impl RefEntry {
    pub open spec fn view(&self) -> EntryView {
        (self.content_hash@, self.name@, views(self.tags@), self.profile_path@, opt_view(self.copied_file_path))
    }

    /// A copy of this entry.
    pub fn duplicate(&self) -> (e: RefEntry)
        ensures
            e.view() == self.view(),
    {
        RefEntry {
            content_hash: self.content_hash.clone(),
            name: self.name.clone(),
            tags: copy_strings(&self.tags),
            profile_path: self.profile_path.clone(),
            copied_file_path: copy_opt(&self.copied_file_path),
        }
    }
}

impl KeyOrder for RefEntry {
    type K = (Seq<char>, Seq<char>);

    open spec fn key(&self) -> (Seq<char>, Seq<char>) {
        (self.name@, self.content_hash@)
    }

    open spec fn key_lt(a: (Seq<char>, Seq<char>), b: (Seq<char>, Seq<char>)) -> bool {
        seq_lt(a.0, b.0) || (a.0 == b.0 && seq_lt(a.1, b.1))
    }

    proof fn lemma_key_lt_irreflexive(a: (Seq<char>, Seq<char>)) {
        crate::text::lemma_seq_lt_irreflexive(a.0);
        crate::text::lemma_seq_lt_irreflexive(a.1);
    }

    proof fn lemma_key_lt_transitive(a: (Seq<char>, Seq<char>), b: (Seq<char>, Seq<char>), c: (Seq<char>, Seq<char>)) {
        if seq_lt(a.0, b.0) && seq_lt(b.0, c.0) {
            crate::text::lemma_seq_lt_transitive(a.0, b.0, c.0);
        }
        if a.0 == b.0 && b.0 == c.0 && seq_lt(a.1, b.1) && seq_lt(b.1, c.1) {
            crate::text::lemma_seq_lt_transitive(a.1, b.1, c.1);
        }
    }

    proof fn lemma_key_lt_total(a: (Seq<char>, Seq<char>), b: (Seq<char>, Seq<char>)) {
        crate::text::lemma_seq_lt_total(a.0, b.0);
        crate::text::lemma_seq_lt_total(a.1, b.1);
    }

    fn key_less(&self, other: &Self) -> (r: bool) {
        if crate::text::str_lt(self.name.as_str(), other.name.as_str()) {
            true
        } else if str_eq(self.name.as_str(), other.name.as_str()) {
            crate::text::str_lt(self.content_hash.as_str(), other.content_hash.as_str())
        } else {
            false
        }
    }
}

/// The entries as plain values.
pub open spec fn entry_views(s: Seq<RefEntry>) -> Seq<EntryView> {
    s.map_values(|e: RefEntry| e.view())
}

/// A show record as plain values.
pub open spec fn show_view(o: RefShowOutput) -> (Seq<char>, EntryView) {
    (o.schema_version@, (o.content_hash@, o.name@, views(o.tags@), o.profile_path@, opt_view(o.copied_file_path)))
}

impl RefShowOutput {
    /// The show record of an index entry.
    pub fn from_entry(entry: &RefEntry) -> (out: RefShowOutput)
        ensures
            show_view(out) == (SCHEMA_VERSION@, entry.view()),
    {
        RefShowOutput {
            schema_version: to_owned_string(SCHEMA_VERSION),
            content_hash: entry.content_hash.clone(),
            name: entry.name.clone(),
            tags: copy_strings(&entry.tags),
            profile_path: entry.profile_path.clone(),
            copied_file_path: copy_opt(&entry.copied_file_path),
        }
    }
}

/// Why a canon operation was refused.
#[derive(Debug)]
pub enum RefError {
    /// No reference has this content hash.
    NotFound { content_hash: String },
    /// No name was given and the file path has no final component.
    NameUnderivable { file_path: String },
    /// The name to use is blank.
    NameEmpty,
}

impl RefError {
    pub open spec fn spec_message(&self) -> Seq<char> {
        match self {
            RefError::NotFound { content_hash } => "reference not found: "@ + content_hash@,
            RefError::NameUnderivable { file_path } => "unable to derive ref name from "@ + file_path@,
            RefError::NameEmpty => "ref name must be non-empty"@,
        }
    }

    /// The error as the text a user sees.
    pub fn message(&self) -> (out: String)
        ensures
            out@ == self.spec_message(),
    {
        match self {
            RefError::NotFound { content_hash } => {
                let mut out = to_owned_string("reference not found: ");
                out.append(content_hash.as_str());
                out
            },
            RefError::NameUnderivable { file_path } => {
                let mut out = to_owned_string("unable to derive ref name from ");
                out.append(file_path.as_str());
                out
            },
            RefError::NameEmpty => to_owned_string("ref name must be non-empty"),
        }
    }
}

/// Tags as stored: the comma-separated tokens, trimmed, blanks dropped, each
/// once, in ascending order.
pub fn normalize_tags(tags: &str) -> (out: Vec<String>)
    ensures
        strictly_sorted::<String>(views(out@)),
        views(out@).to_set() == comma_tokens(tags@).to_set(),
{
    let tokens = comma_separated_tokens(tags);
    let out = sorted_unique(tokens);
    proof {
        assert(keys::<String>(out@) =~= views(out@));
        assert(keys::<String>(tokens@) =~= views(tokens@));
    }
    out
}

/// The name a reference gets: the given name trimmed when it is not blank,
/// else the stem of the file name, if the path has one.
pub open spec fn spec_ref_name(name: Option<Seq<char>>, file_name: Option<Seq<char>>) -> Option<Seq<char>> {
    match name {
        Some(n) if trim(n).len() > 0 => Some(trim(n)),
        _ => match file_name {
            Some(f) => Some(stem_of(f)),
            None => None,
        },
    }
}

pub open spec fn opt_str_view(o: Option<&str>) -> Option<Seq<char>> {
    match o {
        Some(s) => Some(s@),
        None => None,
    }
}

/// Derives a reference's name from the name given and the file name of its
/// path (`file_path` is only quoted in the error).
pub fn derive_ref_name(name: Option<&str>, file_name: Option<&str>, file_path: &str) -> (r: Result<String, RefError>)
    ensures
        match spec_ref_name(opt_str_view(name), opt_str_view(file_name)) {
            None => r is Err && (r->Err_0 matches RefError::NameUnderivable { file_path: p } && p@ == file_path@),
            Some(n) => if trim(n).len() > 0 {
                r is Ok && r->Ok_0@ == n
            } else {
                r is Err && r->Err_0 is NameEmpty
            },
        },
{
    let mut derived: Option<String> = None;
    if let Some(n) = name {
        let cs = chars_of(n);
        let t = trimmed_range(&cs, 0, cs.len());
        assert(cs@.subrange(0, cs@.len() as int) =~= n@);
        if t.len() > 0 {
            derived = Some(string_of(t.as_slice()));
        }
    }
    if derived.is_none() {
        if let Some(f) = file_name {
            let (stem, _ext) = split_file_name(f);
            derived = Some(stem);
        }
    }
    match derived {
        None => Err(RefError::NameUnderivable { file_path: to_owned_string(file_path) }),
        Some(n) => {
            let cs = chars_of(n.as_str());
            let t = trimmed_range(&cs, 0, cs.len());
            assert(cs@.subrange(0, cs@.len() as int) =~= n@);
            if t.len() == 0 {
                Err(RefError::NameEmpty)
            } else {
                Ok(n)
            }
        },
    }
}

/// Derives a reference's name from the name given, or else from its file path.
pub fn normalize_name(name: Option<&str>, file_path: &str) -> (r: Result<String, RefError>)
    ensures
        match spec_ref_name(opt_str_view(name), file_name_of(file_path@)) {
            None => r is Err && (r->Err_0 matches RefError::NameUnderivable { file_path: p } && p@ == file_path@),
            Some(n) => if trim(n).len() > 0 {
                r is Ok && r->Ok_0@ == n
            } else {
                r is Err && r->Err_0 is NameEmpty
            },
        },
{
    let f = path_file_name(file_path);
    match f {
        Some(fname) => derive_ref_name(name, Some(fname.as_str()), file_path),
        None => derive_ref_name(name, None, file_path),
    }
}

/// Index of the first entry with this content hash.
pub open spec fn spec_first_with_hash(s: Seq<RefEntry>, hash: Seq<char>) -> Option<int> {
    if exists|i: int| 0 <= i < s.len() && s[i].content_hash@ == hash {
        Some(choose|i: int| 0 <= i < s.len() && s[i].content_hash@ == hash
            && forall|k: int| 0 <= k < i ==> s[k].content_hash@ != hash)
    } else {
        None
    }
}

/// The position of the first entry with this content hash.
pub fn find_entry(entries: &Vec<RefEntry>, content_hash: &str) -> (r: Option<usize>)
    ensures
        match r {
            Some(i) => i < entries@.len() && entries@[i as int].content_hash@ == content_hash@
                && forall|k: int| 0 <= k < i ==> #[trigger] entries@[k].content_hash@ != content_hash@,
            None => forall|k: int| 0 <= k < entries@.len() ==> #[trigger] entries@[k].content_hash@ != content_hash@,
        },
{
    let mut i: usize = 0;
    while i < entries.len()
        invariant
            i <= entries@.len(),
            forall|k: int| 0 <= k < i ==> #[trigger] entries@[k].content_hash@ != content_hash@,
        decreases entries@.len() - i,
    {
        if str_eq(entries[i].content_hash.as_str(), content_hash) {
            return Some(i);
        }
        i += 1;
    }
    None
}

/// The canon index as loaded: an absent file gives an empty index; a stored
/// one gets the current schema version and its entries sorted by name, then
/// content hash.
pub fn loaded_index(stored: Option<RefListOutput>) -> (out: RefListOutput)
    ensures
        out.schema_version@ == SCHEMA_VERSION@,
        match stored {
            None => out.refs@.len() == 0,
            Some(s) => stably_sorted(out.refs@, s.refs@),
        },
{
    match stored {
        None => RefListOutput { schema_version: to_owned_string(SCHEMA_VERSION), refs: Vec::new() },
        Some(s) => {
            let RefListOutput { schema_version: _, refs } = s;
            RefListOutput { schema_version: to_owned_string(SCHEMA_VERSION), refs: sort_by_key_stable(refs) }
        },
    }
}

/// What `refs list` reports: the loaded index.
pub fn list_refs(stored: Option<RefListOutput>) -> (out: RefListOutput)
    ensures
        out.schema_version@ == SCHEMA_VERSION@,
        match stored {
            None => out.refs@.len() == 0,
            Some(s) => stably_sorted(out.refs@, s.refs@),
        },
{
    loaded_index(stored)
}

/// The show record of the first entry with this content hash.
pub fn show_ref(index: &RefListOutput, content_hash: &str) -> (r: Result<RefShowOutput, RefError>)
    ensures
        match r {
            Ok(o) => exists|i: int| 0 <= i < index.refs@.len()
                && index.refs@[i].content_hash@ == content_hash@
                && (forall|k: int| 0 <= k < i ==> #[trigger] index.refs@[k].content_hash@ != content_hash@)
                && show_view(o) == (SCHEMA_VERSION@, index.refs@[i].view()),
            Err(e) => (e matches RefError::NotFound { content_hash: h } && h@ == content_hash@)
                && forall|k: int| 0 <= k < index.refs@.len() ==> #[trigger] index.refs@[k].content_hash@ != content_hash@,
        },
{
    match find_entry(&index.refs, content_hash) {
        Some(i) => Ok(RefShowOutput::from_entry(&index.refs[i])),
        None => Err(RefError::NotFound { content_hash: to_owned_string(content_hash) }),
    }
}

/// Removes the first entry with this content hash from the index and returns
/// its show record; the index is unchanged when there is none.
pub fn remove_ref(index: &mut RefListOutput, content_hash: &str) -> (r: Result<RefShowOutput, RefError>)
    ensures
        final(index).schema_version == old(index).schema_version,
        match r {
            Ok(o) => exists|i: int| 0 <= i < old(index).refs@.len()
                && old(index).refs@[i].content_hash@ == content_hash@
                && (forall|k: int| 0 <= k < i ==> #[trigger] old(index).refs@[k].content_hash@ != content_hash@)
                && show_view(o) == (SCHEMA_VERSION@, old(index).refs@[i].view())
                && final(index).refs@ == old(index).refs@.remove(i),
            Err(e) => (e matches RefError::NotFound { content_hash: h } && h@ == content_hash@)
                && final(index).refs@ == old(index).refs@
                && forall|k: int| 0 <= k < old(index).refs@.len() ==> #[trigger] old(index).refs@[k].content_hash@ != content_hash@,
        },
{
    match find_entry(&index.refs, content_hash) {
        Some(i) => {
            let removed = index.refs.remove(i);
            Ok(RefShowOutput::from_entry(&removed))
        },
        None => Err(RefError::NotFound { content_hash: to_owned_string(content_hash) }),
    }
}

/// The entries after adding or replacing `entry`: the first entry with the same
/// content hash is replaced, else the entry is appended.
pub open spec fn spec_upserted(s: Seq<RefEntry>, entry: RefEntry) -> Seq<RefEntry> {
    match spec_first_with_hash(s, entry.content_hash@) {
        Some(i) => s.update(i, entry),
        None => s.push(entry),
    }
}

/// Adds `entry`, replacing the first entry with the same content hash, and
/// re-sorts the entries by name, then content hash.
pub fn upsert_entry(entries: Vec<RefEntry>, entry: RefEntry) -> (out: Vec<RefEntry>)
    ensures
        stably_sorted(out@, spec_upserted(entries@, entry)),
{
    let mut entries = entries;
    let ghost s = entries@;
    let ghost e = entry;
    match find_entry(&entries, entry.content_hash.as_str()) {
        Some(i) => {
            proof {
                let w = choose|j: int| 0 <= j < s.len() && s[j].content_hash@ == e.content_hash@
                    && forall|k: int| 0 <= k < j ==> s[k].content_hash@ != e.content_hash@;
                if w < i {
                    assert(s[w].content_hash@ != e.content_hash@);
                } else if w > i {
                    assert(s[i as int].content_hash@ != e.content_hash@);
                }
                assert(spec_first_with_hash(s, e.content_hash@) == Some(i as int));
            }
            entries.set(i, entry);
        },
        None => {
            entries.push(entry);
        },
    }
    sort_by_key_stable(entries)
}

/// Where a reference file is copied: `<root>/SCE/refs/files/<hash>.<ext>`, or
/// without the extension when the file name has none (or an empty one).
pub open spec fn spec_copy_file_name(content_hash: Seq<char>, file_name: Option<Seq<char>>) -> Seq<char> {
    match file_name {
        Some(f) => match extension_of(f) {
            Some(e) if e.len() > 0 => content_hash + "."@ + e,
            _ => content_hash,
        },
        None => content_hash,
    }
}

/// The destination of a copied reference file.
pub fn copy_destination(project_root: &str, content_hash: &str, source_path: &str) -> (p: String)
    ensures
        p@ == join_spec(
            join_spec(crate::paths::spec_refs_dir(project_root@), "files"@),
            spec_copy_file_name(content_hash@, file_name_of(source_path@)),
        ),
{
    let mut name = to_owned_string(content_hash);
    match path_file_name(source_path) {
        Some(f) => {
            let (_stem, ext) = split_file_name(f.as_str());
            match ext {
                Some(e) => {
                    if !e.as_str().is_empty() {
                        name.append(".");
                        name.append(e.as_str());
                    }
                },
                None => {},
            }
        },
        None => {},
    }
    crate::paths::path_join(&crate::paths::refs_files_dir(project_root), name.as_str())
}

/// Adds (or replaces) the reference with this content hash in the index.
///
/// The name comes from `name` or the file path, tags from `tags`. With
/// `copy_file` the reference records its copy destination (returned so that
/// the caller copies the file there); otherwise an existing entry's copy is
/// kept. Returns the new entry's show record and the copy destination.
pub fn add_ref(
    index: &mut RefListOutput,
    project_root: &str,
    file_path: &str,
    content_hash: &str,
    profile_path: &str,
    name: Option<&str>,
    tags: &str,
    copy_file: bool,
) -> (r: Result<(RefShowOutput, Option<String>), RefError>)
    ensures
        final(index).schema_version == old(index).schema_version,
        match spec_ref_name(opt_str_view(name), file_name_of(file_path@)) {
            None => r is Err && (r->Err_0 matches RefError::NameUnderivable { file_path: p } && p@ == file_path@)
                && final(index).refs@ == old(index).refs@,
            Some(n) => if trim(n).len() == 0 {
                r is Err && r->Err_0 is NameEmpty && final(index).refs@ == old(index).refs@
            } else {
                r is Ok && {
                    let (shown, copy_to) = r->Ok_0;
                    let copied = if copy_file {
                        Some(join_spec(
                            join_spec(crate::paths::spec_refs_dir(project_root@), "files"@),
                            spec_copy_file_name(content_hash@, file_name_of(file_path@)),
                        ))
                    } else {
                        match spec_first_with_hash(old(index).refs@, content_hash@) {
                            Some(i) => opt_view(old(index).refs@[i].copied_file_path),
                            None => None,
                        }
                    };
                    &&& opt_view(copy_to) == (if copy_file { copied } else { None })
                    &&& show_view(shown).0 == SCHEMA_VERSION@
                    &&& show_view(shown).1.0 == content_hash@
                    &&& show_view(shown).1.1 == n
                    &&& strictly_sorted::<String>(show_view(shown).1.2)
                    &&& show_view(shown).1.2.to_set() == comma_tokens(tags@).to_set()
                    &&& show_view(shown).1.3 == profile_path@
                    &&& show_view(shown).1.4 == copied
                    &&& exists|e: RefEntry| e.view() == show_view(shown).1
                        && stably_sorted(final(index).refs@, spec_upserted(old(index).refs@, e))
                }
            },
        },
{
    let normalized_name = match normalize_name(name, file_path) {
        Ok(n) => n,
        Err(e) => return Err(e),
    };
    let normalized_tags = normalize_tags(tags);
    let copy_to = if copy_file {
        Some(copy_destination(project_root, content_hash, file_path))
    } else {
        None
    };
    let copied_file_path = if copy_file {
        copy_opt(&copy_to)
    } else {
        match find_entry(&index.refs, content_hash) {
            Some(i) => {
                proof {
                    let s = old(index).refs@;
                    let w = choose|j: int| 0 <= j < s.len() && s[j].content_hash@ == content_hash@
                        && forall|k: int| 0 <= k < j ==> s[k].content_hash@ != content_hash@;
                    if w < i {
                        assert(s[w].content_hash@ != content_hash@);
                    } else if w > i {
                        assert(s[i as int].content_hash@ != content_hash@);
                    }
                }
                copy_opt(&index.refs[i].copied_file_path)
            },
            None => None,
        }
    };
    let entry = RefEntry {
        content_hash: to_owned_string(content_hash),
        name: normalized_name,
        tags: normalized_tags,
        profile_path: to_owned_string(profile_path),
        copied_file_path,
    };
    let shown = RefShowOutput::from_entry(&entry);
    let mut refs: Vec<RefEntry> = Vec::new();
    std::mem::swap(&mut refs, &mut index.refs);
    index.refs = upsert_entry(refs, entry);
    Ok((shown, copy_to))
}

/// The canon operator's output: the loaded index and where it is written.
pub fn write_operator_output(project_root: &str, index: &RefListOutput) -> (out: (RefListOutput, String))
    ensures
        out.0.schema_version@ == index.schema_version@,
        entry_views(out.0.refs@) == entry_views(index.refs@),
        out.1@ == join_spec(crate::paths::spec_operator_dir(project_root@, "ref_canon"@), "latest.json"@),
{
    let mut refs: Vec<RefEntry> = Vec::new();
    let mut i: usize = 0;
    while i < index.refs.len()
        invariant
            i <= index.refs@.len(),
            entry_views(refs@) == entry_views(index.refs@).take(i as int),
        decreases index.refs@.len() - i,
    {
        let e = index.refs[i].duplicate();
        let ghost before = refs@;
        refs.push(e);
        assert(entry_views(refs@) =~= entry_views(before).push(e.view()));
        assert(entry_views(refs@) =~= entry_views(index.refs@).take(i + 1));
        i += 1;
    }
    assert(entry_views(index.refs@).take(index.refs@.len() as int) =~= entry_views(index.refs@));
    (
        RefListOutput { schema_version: index.schema_version.clone(), refs },
        crate::paths::ref_canon_operator_output_path(project_root),
    )
}


/// No two entries share a content hash.
pub open spec fn unique_hashes(s: Seq<RefEntry>) -> bool {
    forall|i: int, j: int| 0 <= i < j < s.len() ==> #[trigger] s[i].content_hash@ != #[trigger] s[j].content_hash@
}

/// The entry recorded under a content hash, if any.
pub open spec fn lookup(s: Seq<RefEntry>, hash: Seq<char>) -> Option<EntryView> {
    if exists|i: int| 0 <= i < s.len() && #[trigger] s[i].content_hash@ == hash {
        Some(s[choose|i: int| 0 <= i < s.len() && #[trigger] s[i].content_hash@ == hash].view())
    } else {
        None
    }
}

proof fn lemma_lookup_at(s: Seq<RefEntry>, i: int)
    requires
        unique_hashes(s),
        0 <= i < s.len(),
    ensures
        lookup(s, s[i].content_hash@) == Some(s[i].view()),
{
    let h = s[i].content_hash@;
    assert(exists|k: int| 0 <= k < s.len() && #[trigger] s[k].content_hash@ == h);
    let j = choose|k: int| 0 <= k < s.len() && #[trigger] s[k].content_hash@ == h;
    if j < i {
        assert(s[j].content_hash@ != s[i].content_hash@);
    } else if j > i {
        assert(s[i].content_hash@ != s[j].content_hash@);
    }
}

/// Sorting keeps the entries, so it keeps hashes unique and lookups as they were.
proof fn lemma_sorted_keeps_lookup(out: Seq<RefEntry>, inp: Seq<RefEntry>)
    requires
        stably_sorted(out, inp),
        unique_hashes(inp),
    ensures
        unique_hashes(out),
        out.len() == inp.len(),
        forall|h: Seq<char>| #[trigger] lookup(out, h) == lookup(inp, h),
{
    let perm = choose|perm: Seq<int>| crate::ordered::stable_sort_witness(out, inp, perm);
    assert forall|i: int, j: int| 0 <= i < j < out.len() implies #[trigger] out[i].content_hash@ != #[trigger] out[j].content_hash@ by {
        assert(out[i] == inp[perm[i]] && out[j] == inp[perm[j]]);
        assert(perm[i] != perm[j]);
        if perm[i] < perm[j] {
            assert(inp[perm[i]].content_hash@ != inp[perm[j]].content_hash@);
        } else {
            assert(inp[perm[j]].content_hash@ != inp[perm[i]].content_hash@);
        }
    }
    assert forall|h: Seq<char>| #[trigger] lookup(out, h) == lookup(inp, h) by {
        if exists|i: int| 0 <= i < out.len() && #[trigger] out[i].content_hash@ == h {
            let i = choose|i: int| 0 <= i < out.len() && #[trigger] out[i].content_hash@ == h;
            assert(out[i] == inp[perm[i]]);
            lemma_lookup_at(out, i);
            lemma_lookup_at(inp, perm[i]);
        } else {
            assert forall|t: int| 0 <= t < inp.len() implies #[trigger] inp[t].content_hash@ != h by {
                assert(crate::ordered::hits(perm, t));
                let i = choose|i: int| 0 <= i < perm.len() && perm[i] == t;
                assert(out[i] == inp[perm[i]]);
            }
        }
    }
}

/// Adding an entry into entries with unique hashes keeps hashes unique and
/// records exactly that entry under its hash.
proof fn lemma_upserted_lookup(s: Seq<RefEntry>, e: RefEntry)
    requires
        unique_hashes(s),
    ensures
        unique_hashes(spec_upserted(s, e)),
        forall|h: Seq<char>| #[trigger] lookup(spec_upserted(s, e), h)
            == if h == e.content_hash@ { Some(e.view()) } else { lookup(s, h) },
{
    let u = spec_upserted(s, e);
    let eh = e.content_hash@;
    match spec_first_with_hash(s, eh) {
        Some(k) => {
            assert(exists|i: int| 0 <= i < s.len() && s[i].content_hash@ == eh);
            assert(0 <= k < s.len() && s[k].content_hash@ == eh);
            assert(u == s.update(k, e));
            assert forall|i: int, j: int| 0 <= i < j < u.len() implies #[trigger] u[i].content_hash@ != #[trigger] u[j].content_hash@ by {
                if i != k && j != k {
                    assert(u[i] == s[i] && u[j] == s[j]);
                } else if i == k {
                    assert(u[j] == s[j]);
                    assert(s[k].content_hash@ != s[j].content_hash@);
                } else {
                    assert(u[i] == s[i]);
                    assert(s[i].content_hash@ != s[k].content_hash@);
                }
            }
            assert forall|h: Seq<char>| #[trigger] lookup(u, h)
                == if h == eh { Some(e.view()) } else { lookup(s, h) } by {
                if h == eh {
                    assert(u[k] == e);
                    lemma_lookup_at(u, k);
                } else if exists|i: int| 0 <= i < s.len() && #[trigger] s[i].content_hash@ == h {
                    let i = choose|i: int| 0 <= i < s.len() && #[trigger] s[i].content_hash@ == h;
                    assert(i != k);
                    assert(u[i] == s[i]);
                    lemma_lookup_at(u, i);
                    lemma_lookup_at(s, i);
                } else {
                    assert forall|i: int| 0 <= i < u.len() implies #[trigger] u[i].content_hash@ != h by {
                        if i != k {
                            assert(u[i] == s[i]);
                        }
                    }
                }
            }
        },
        None => {
            assert(forall|i: int| 0 <= i < s.len() ==> #[trigger] s[i].content_hash@ != eh);
            assert(u == s.push(e));
            assert forall|i: int, j: int| 0 <= i < j < u.len() implies #[trigger] u[i].content_hash@ != #[trigger] u[j].content_hash@ by {
                if j < s.len() {
                    assert(u[i] == s[i] && u[j] == s[j]);
                } else {
                    assert(u[i] == s[i]);
                }
            }
            assert forall|h: Seq<char>| #[trigger] lookup(u, h)
                == if h == eh { Some(e.view()) } else { lookup(s, h) } by {
                if h == eh {
                    lemma_lookup_at(u, s.len() as int);
                } else if exists|i: int| 0 <= i < s.len() && #[trigger] s[i].content_hash@ == h {
                    let i = choose|i: int| 0 <= i < s.len() && #[trigger] s[i].content_hash@ == h;
                    assert(u[i] == s[i]);
                    lemma_lookup_at(u, i);
                    lemma_lookup_at(s, i);
                } else {
                    assert forall|i: int| 0 <= i < u.len() implies #[trigger] u[i].content_hash@ != h by {
                        if i < s.len() {
                            assert(u[i] == s[i]);
                        }
                    }
                }
            }
        },
    }
}

/// Adding a reference to an index whose content hashes are unique keeps them
/// unique, records the new entry under its content hash, and leaves every
/// other reference as it was.
pub proof fn law_add_records_entry(s: Seq<RefEntry>, out: Seq<RefEntry>, e: RefEntry)
    requires
        unique_hashes(s),
        stably_sorted(out, spec_upserted(s, e)),
    ensures
        unique_hashes(out),
        forall|h: Seq<char>| #[trigger] lookup(out, h)
            == if h == e.content_hash@ { Some(e.view()) } else { lookup(s, h) },
{
    lemma_upserted_lookup(s, e);
    lemma_sorted_keeps_lookup(out, spec_upserted(s, e));
}

/// Adding the same reference twice gives the index that adding it once
/// gives: the same references under the same content hashes, and no more.
pub proof fn law_add_is_idempotent(s: Seq<RefEntry>, once: Seq<RefEntry>, twice: Seq<RefEntry>, e: RefEntry)
    requires
        unique_hashes(s),
        stably_sorted(once, spec_upserted(s, e)),
        stably_sorted(twice, spec_upserted(once, e)),
    ensures
        twice.len() == once.len(),
        forall|h: Seq<char>| #[trigger] lookup(twice, h) == lookup(once, h),
{
    law_add_records_entry(s, once, e);
    law_add_records_entry(once, twice, e);
    let eh = e.content_hash@;
    assert(lookup(once, eh) == Some(e.view()));
    assert(exists|i: int| 0 <= i < once.len() && #[trigger] once[i].content_hash@ == eh);
    assert(spec_upserted(once, e).len() == once.len());
}

/// Removing a reference just added takes its content hash out of the index
/// and leaves every other reference as it was before the add.
pub proof fn law_remove_after_add(s: Seq<RefEntry>, added: Seq<RefEntry>, e: RefEntry, i: int)
    requires
        unique_hashes(s),
        stably_sorted(added, spec_upserted(s, e)),
        0 <= i < added.len(),
        added[i].content_hash@ == e.content_hash@,
    ensures
        unique_hashes(added.remove(i)),
        lookup(added.remove(i), e.content_hash@) is None,
        forall|h: Seq<char>| h != e.content_hash@ ==> #[trigger] lookup(added.remove(i), h) == lookup(s, h),
{
    law_add_records_entry(s, added, e);
    let r = added.remove(i);
    let eh = e.content_hash@;
    assert forall|a: int, b: int| 0 <= a < b < r.len() implies #[trigger] r[a].content_hash@ != #[trigger] r[b].content_hash@ by {
        if b < i {
            assert(r[a] == added[a] && r[b] == added[b]);
        } else if a < i {
            assert(r[a] == added[a] && r[b] == added[b + 1]);
        } else {
            assert(r[a] == added[a + 1] && r[b] == added[b + 1]);
        }
    }
    assert forall|k: int| 0 <= k < r.len() implies #[trigger] r[k].content_hash@ != eh by {
        if k < i {
            assert(r[k] == added[k]);
            assert(added[k].content_hash@ != added[i].content_hash@);
        } else {
            assert(r[k] == added[k + 1]);
            assert(added[i].content_hash@ != added[k + 1].content_hash@);
        }
    }
    assert forall|h: Seq<char>| h != eh implies #[trigger] lookup(r, h) == lookup(s, h) by {
        assert(lookup(added, h) == lookup(s, h));
        if exists|k: int| 0 <= k < added.len() && #[trigger] added[k].content_hash@ == h {
            let k = choose|k: int| 0 <= k < added.len() && #[trigger] added[k].content_hash@ == h;
            assert(k != i);
            lemma_lookup_at(added, k);
            if k < i {
                assert(r[k] == added[k]);
                lemma_lookup_at(r, k);
            } else {
                assert(r[k - 1] == added[k]);
                lemma_lookup_at(r, k - 1);
            }
        } else {
            assert forall|k: int| 0 <= k < r.len() implies #[trigger] r[k].content_hash@ != h by {
                if k < i {
                    assert(r[k] == added[k]);
                } else {
                    assert(r[k] == added[k + 1]);
                }
            }
        }
    }
}


/// A run whose metrics a reference with this content hash can reuse: same
/// content, and a recorded analyzer version that the metrics agree with.
pub open spec fn reusable(run: crate::cll::ValidRun, content_hash: Seq<char>) -> bool {
    &&& run.asset_content_hash@ == content_hash
    &&& trim(run.analyzer_version@).len() > 0
    &&& trim(run.metrics_analyzer_version@).len() > 0
    &&& run.metrics_analyzer_version@ == run.analyzer_version@
}

/// The last run (in trend order) whose metrics a new reference reuses, if
/// any; without one the file is analyzed.
pub fn reusable_run(runs: &Vec<crate::cll::ValidRun>, content_hash: &str) -> (r: Option<usize>)
    ensures
        match r {
            Some(i) => i < runs@.len() && reusable(runs@[i as int], content_hash@)
                && forall|k: int| i < k < runs@.len() ==> !reusable(#[trigger] runs@[k], content_hash@),
            None => forall|k: int| 0 <= k < runs@.len() ==> !reusable(#[trigger] runs@[k], content_hash@),
        },
{
    let mut i: usize = runs.len();
    while i > 0
        invariant
            i <= runs@.len(),
            forall|k: int| i <= k < runs@.len() ==> !reusable(#[trigger] runs@[k], content_hash@),
        decreases i,
    {
        let run = &runs[i - 1];
        if str_eq(run.asset_content_hash.as_str(), content_hash)
            && !crate::graph::is_blank(run.analyzer_version.as_str())
            && !crate::graph::is_blank(run.metrics_analyzer_version.as_str())
            && str_eq(run.metrics_analyzer_version.as_str(), run.analyzer_version.as_str())
        {
            return Some(i - 1);
        }
        i -= 1;
    }
    None
}

} // verus!
