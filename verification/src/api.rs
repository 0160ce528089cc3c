//! The HTTP API's request and response bodies, and the checks it makes on
//! them before touching the database.
use vstd::prelude::*;
use crate::paths::{extension_of, file_name_of, path_file_name, split_file_name};
use crate::text::{ascii_lower, str_eq, to_ascii_lower, to_owned_string, trim, trim_string};
use crate::util::{is_audio_file, spec_is_audio_file_name};

verus! {

/// `POST /v1/projects` body.
#[derive(Debug, Clone)]
pub struct CreateProjectReq {
    pub name: String,
    pub root_path: String,
}

/// `POST /v1/projects` answer.
#[derive(Debug, Clone)]
pub struct CreateProjectResp {
    pub project_id: String,
}

/// `POST /v1/projects/:project_id/assets` body.
#[derive(Debug, Clone)]
pub struct RegisterAssetReq {
    pub file_path: String,
    pub kind: Option<String>,
}

/// A request the API refuses, with the message it answers.
#[derive(Debug, Clone)]
pub enum ApiError {
    BadRequest(String),
}

/// The project's name as stored: trimmed, and never empty.
pub fn project_name(req: &CreateProjectReq) -> (r: Result<String, ApiError>)
    ensures
        trim(req.name@).len() == 0 ==> r is Err && (r->Err_0 matches ApiError::BadRequest(m)
            && m@ == "project name cannot be empty"@),
        trim(req.name@).len() > 0 ==> r is Ok && r->Ok_0@ == trim(req.name@),
{
    let t = trim_string(req.name.as_str());
    if t.as_str().is_empty() {
        Err(ApiError::BadRequest(to_owned_string("project name cannot be empty")))
    } else {
        Ok(t)
    }
}

/// What `Uuid::parse_str` followed by `to_string` gives: the canonical
/// (lowercase, hyphenated) form of a UUID written in any accepted form.
pub uninterp spec fn uuid_canonical(s: Seq<char>) -> Option<Seq<char>>;

/// The canonical form of the UUID written in `s`, if `s` is one (uuid's
/// `Uuid::parse_str`, then `to_string`).
/// Trusted: the result is a function of the text alone.
#[verifier::external_body]
fn canonical_uuid_text(s: &str) -> (r: Option<String>)
    ensures
        match r {
            Some(c) => uuid_canonical(s@) == Some(c@),
            None => uuid_canonical(s@) is None,
        },
{
    match uuid::Uuid::parse_str(s) {
        Ok(u) => Some(u.to_string()),
        Err(_) => None,
    }
}

/// The decision on a project id, given its canonical form (`None` when it is
/// no UUID): it must be a UUID already written in canonical form.
pub fn check_canonical_project_id(project_id: &str, canonical: Option<&str>) -> (r: Result<(), ApiError>)
    ensures
        canonical is None ==> r is Err && (r->Err_0 matches ApiError::BadRequest(m)
            && m@ == "project_id must be a canonical UUID string"@),
        canonical is Some && canonical->Some_0@ != project_id@ ==> r is Err && (r->Err_0 matches ApiError::BadRequest(m)
            && m@ == "project_id must be lowercase hyphenated UUID"@),
        canonical is Some && canonical->Some_0@ == project_id@ ==> r is Ok,
{
    match canonical {
        None => Err(ApiError::BadRequest(to_owned_string("project_id must be a canonical UUID string"))),
        Some(c) => if str_eq(c, project_id) {
            Ok(())
        } else {
            Err(ApiError::BadRequest(to_owned_string("project_id must be lowercase hyphenated UUID")))
        },
    }
}

/// Checks that a project id is a UUID in canonical form.
pub fn check_project_id(project_id: &str) -> (r: Result<(), ApiError>)
    ensures
        uuid_canonical(project_id@) is None ==> r is Err && (r->Err_0 matches ApiError::BadRequest(m)
            && m@ == "project_id must be a canonical UUID string"@),
        uuid_canonical(project_id@) is Some && uuid_canonical(project_id@)->Some_0 != project_id@ ==> r is Err
            && (r->Err_0 matches ApiError::BadRequest(m) && m@ == "project_id must be lowercase hyphenated UUID"@),
        uuid_canonical(project_id@) == Some(project_id@) ==> r is Ok,
{
    let c = canonical_uuid_text(project_id);
    match c {
        Some(t) => check_canonical_project_id(project_id, Some(t.as_str())),
        None => check_canonical_project_id(project_id, None),
    }
}

/// The extension of a path in lower case, or `unknown`.
pub open spec fn spec_extension_label(path: Seq<char>) -> Seq<char> {
    match file_name_of(path) {
        Some(n) => match extension_of(n) {
            Some(e) => ascii_lower(e),
            None => "unknown"@,
        },
        None => "unknown"@,
    }
}

/// The extension of `path` in lower case, or `unknown`.
pub fn extension_label(path: &str) -> (out: String)
    ensures
        out@ == spec_extension_label(path@),
{
    match path_file_name(path) {
        Some(n) => {
            let (_stem, ext) = split_file_name(n.as_str());
            match ext {
                Some(e) => to_ascii_lower(e.as_str()),
                None => to_owned_string("unknown"),
            }
        },
        None => to_owned_string("unknown"),
    }
}

/// The message for an unsupported format.
pub open spec fn unsupported_message(ext: Seq<char>) -> Seq<char> {
    "unsupported format: "@ + ext + " (supported: wav, aiff, aif, flac, mp3)"@
}

/// Checks that an asset file has a supported audio format: `m4a` is refused
/// explicitly, and so is anything that is not an audio file.
pub fn check_asset_format(file_path: &str) -> (r: Result<(), ApiError>)
    ensures
        spec_extension_label(file_path@) == "m4a"@ ==> r is Err && (r->Err_0 matches ApiError::BadRequest(m)
            && m@ == unsupported_message("m4a"@)),
        spec_extension_label(file_path@) != "m4a"@ && !spec_is_audio_file_name(file_name_of(file_path@)) ==> r is Err
            && (r->Err_0 matches ApiError::BadRequest(m) && m@ == unsupported_message(spec_extension_label(file_path@))),
        spec_extension_label(file_path@) != "m4a"@ && spec_is_audio_file_name(file_name_of(file_path@)) ==> r is Ok,
{
    let ext = extension_label(file_path);
    if str_eq(ext.as_str(), "m4a") {
        let mut m = to_owned_string("unsupported format: ");
        m.append("m4a");
        m.append(" (supported: wav, aiff, aif, flac, mp3)");
        return Err(ApiError::BadRequest(m));
    }
    if !is_audio_file(file_path) {
        let mut m = to_owned_string("unsupported format: ");
        m.append(ext.as_str());
        m.append(" (supported: wav, aiff, aif, flac, mp3)");
        return Err(ApiError::BadRequest(m));
    }
    Ok(())
}

/// The asset kind of a registration: `mix` unless given.
pub fn asset_kind(req: &RegisterAssetReq) -> (out: String)
    ensures
        match req.kind {
            Some(k) => out@ == k@,
            None => out@ == "mix"@,
        },
{
    match &req.kind {
        Some(k) => k.clone(),
        None => to_owned_string("mix"),
    }
}


/// A canonical path lies inside a canonical root: it is the root, or it
/// continues the root after a `/` (the root `/` holds every absolute path).
pub open spec fn within_root(root: Seq<char>, path: Seq<char>) -> bool {
    ||| path == root
    ||| (root.len() > 0 && root.last() == '/' && root.is_prefix_of(path))
    ||| (root + seq!['/']).is_prefix_of(path)
}

fn chars_prefix(a: &Vec<char>, b: &Vec<char>, extra: Option<char>) -> (r: bool)
    ensures
        r == (match extra {
            Some(c) => a@.push(c),
            None => a@,
        }).is_prefix_of(b@),
{
    let ghost full = match extra {
        Some(c) => a@.push(c),
        None => a@,
    };
    let n = a.len();
    let total: usize = match extra {
        Some(_) => {
            if n >= b.len() {
                return false;
            }
            n + 1
        },
        None => n,
    };
    if total > b.len() {
        return false;
    }
    let mut i: usize = 0;
    while i < n
        invariant
            i <= n,
            n == a@.len(),
            total <= b@.len(),
            n <= total,
            full.len() == total,
            forall|k: int| 0 <= k < n ==> full[k] == a@[k],
            forall|k: int| 0 <= k < i ==> a@[k] == b@[k],
        decreases n - i,
    {
        if a[i] != b[i] {
            assert(full[i as int] != b@[i as int]);
            return false;
        }
        i += 1;
    }
    match extra {
        Some(c) => {
            if b[n] != c {
                assert(full[n as int] != b@[n as int]);
                return false;
            }
        },
        None => {},
    }
    assert(full =~= b@.subrange(0, total as int));
    true
}

/// Whether the canonical asset path `path` lies inside the canonical project
/// root `root`.
pub fn is_within_root(root: &str, path: &str) -> (r: bool)
    ensures
        r == within_root(root@, path@),
{
    let rc = crate::text::chars_of(root);
    let pc = crate::text::chars_of(path);
    if chars_prefix(&rc, &pc, None) && rc.len() == pc.len() {
        assert(rc@ =~= pc@);
        return true;
    }
    if rc.len() > 0 && rc[rc.len() - 1] == '/' && chars_prefix(&rc, &pc, None) {
        return true;
    }
    let with_slash = chars_prefix(&rc, &pc, Some('/'));
    proof {
        if !with_slash && rc@.len() == pc@.len() && rc@ == pc@ {
            assert(rc@.is_prefix_of(pc@));
        }
    }
    with_slash
}

} // verus!
