//! What the daemon checks of its SQLite database at startup.
use vstd::prelude::*;
use crate::text::{
    decimal, signed_decimal, signed_decimal_string, spec_parse_u32, split_on, split_pieces, str_eq,
    to_owned_string, parse_u32,
};
use crate::ordered::views;

verus! {

/// The index that the queue claim relies on.
pub const QUEUE_INDEX_NAME: &'static str = "idx_runs_status_queuedat_id";

/// A part of a dotted SQLite version.
#[derive(Debug, Clone, Copy, PartialEq, Eq, Structural)]
pub enum VersionPart {
    Major,
    Minor,
    Patch,
}

/// Why a SQLite version string was not understood.
#[derive(Debug, Clone, Copy, PartialEq, Eq, Structural)]
pub enum SqliteVersionError {
    Missing(VersionPart),
    Invalid(VersionPart),
}

impl VersionPart {
    pub open spec fn spec_name(self) -> Seq<char> {
        match self {
            VersionPart::Major => "major"@,
            VersionPart::Minor => "minor"@,
            VersionPart::Patch => "patch"@,
        }
    }

    fn name(self) -> (out: &'static str)
        ensures
            out@ == self.spec_name(),
    {
        match self {
            VersionPart::Major => "major",
            VersionPart::Minor => "minor",
            VersionPart::Patch => "patch",
        }
    }
}

impl SqliteVersionError {
    pub open spec fn spec_message(self) -> Seq<char> {
        match self {
            SqliteVersionError::Missing(p) => "missing sqlite "@ + p.spec_name() + " version"@,
            SqliteVersionError::Invalid(p) => "invalid sqlite "@ + p.spec_name() + " version"@,
        }
    }

    /// The error as the text a user sees.
    pub fn message(self) -> (out: String)
        ensures
            out@ == self.spec_message(),
    {
        let (lead, part) = match self {
            SqliteVersionError::Missing(p) => ("missing sqlite ", p),
            SqliteVersionError::Invalid(p) => ("invalid sqlite ", p),
        };
        let mut out = to_owned_string(lead);
        out.append(part.name());
        out.append(" version");
        out
    }
}

/// What `parse_sqlite_version` gives: the first three dot-separated pieces,
/// each a `u32` as `str::parse` reads it; later pieces are ignored.
pub open spec fn spec_sqlite_version(input: Seq<char>) -> Result<(u32, u32, u32), SqliteVersionError> {
    let pieces = split_on(input, '.');
    if spec_parse_u32(pieces[0]) is None {
        Err(SqliteVersionError::Invalid(VersionPart::Major))
    } else if pieces.len() < 2 {
        Err(SqliteVersionError::Missing(VersionPart::Minor))
    } else if spec_parse_u32(pieces[1]) is None {
        Err(SqliteVersionError::Invalid(VersionPart::Minor))
    } else if pieces.len() < 3 {
        Err(SqliteVersionError::Missing(VersionPart::Patch))
    } else if spec_parse_u32(pieces[2]) is None {
        Err(SqliteVersionError::Invalid(VersionPart::Patch))
    } else {
        Ok((spec_parse_u32(pieces[0])->Some_0, spec_parse_u32(pieces[1])->Some_0, spec_parse_u32(pieces[2])->Some_0))
    }
}

/// Reads a SQLite version such as `3.43.2` as (major, minor, patch).
pub fn parse_sqlite_version(input: &str) -> (r: Result<(u32, u32, u32), SqliteVersionError>)
    ensures
        r == spec_sqlite_version(input@),
{
    let pieces = split_pieces(input, '.');
    proof {
        crate::text::lemma_split_on_nonempty(input@, '.');
        assert(views(pieces@).len() == pieces@.len());
    }
    assert(views(pieces@)[0] == pieces@[0]@);
    let major = match parse_u32(pieces[0].as_str()) {
        Some(v) => v,
        None => return Err(SqliteVersionError::Invalid(VersionPart::Major)),
    };
    if pieces.len() < 2 {
        return Err(SqliteVersionError::Missing(VersionPart::Minor));
    }
    assert(views(pieces@)[1] == pieces@[1]@);
    let minor = match parse_u32(pieces[1].as_str()) {
        Some(v) => v,
        None => return Err(SqliteVersionError::Invalid(VersionPart::Minor)),
    };
    if pieces.len() < 3 {
        return Err(SqliteVersionError::Missing(VersionPart::Patch));
    }
    assert(views(pieces@)[2] == pieces@[2]@);
    let patch = match parse_u32(pieces[2].as_str()) {
        Some(v) => v,
        None => return Err(SqliteVersionError::Invalid(VersionPart::Patch)),
    };
    Ok((major, minor, patch))
}

/// Tuples of versions compared as Rust compares tuples: by major, then minor,
/// then patch.
pub open spec fn version_lt(a: (u32, u32, u32), b: (u32, u32, u32)) -> bool {
    a.0 < b.0 || (a.0 == b.0 && a.1 < b.1) || (a.0 == b.0 && a.1 == b.1 && a.2 < b.2)
}

/// Whether version `a` comes before version `b`.
pub fn version_before(a: (u32, u32, u32), b: (u32, u32, u32)) -> (r: bool)
    ensures
        r == version_lt(a, b),
{
    a.0 < b.0 || (a.0 == b.0 && a.1 < b.1) || (a.0 == b.0 && a.1 == b.1 && a.2 < b.2)
}

/// Why the daemon refuses to start on a database.
#[derive(Debug, Clone)]
pub enum StartupError {
    Version(SqliteVersionError),
    TooOld { version: String },
    ForeignKeysOff { value: i64 },
    MissingQueueIndex,
}

impl StartupError {
    pub open spec fn spec_message(&self) -> Seq<char> {
        match self {
            StartupError::Version(e) => e.spec_message(),
            StartupError::TooOld { version } =>
                "sqlite version "@ + version@ + " is too old; required >= 3.35.0 for UPDATE ... RETURNING"@,
            StartupError::ForeignKeysOff { value } => "PRAGMA foreign_keys must be 1, got "@ + signed_decimal(*value as int),
            StartupError::MissingQueueIndex => "required index idx_runs_status_queuedat_id is missing on analysis_runs"@,
        }
    }

    /// The error as the text a user sees.
    pub fn message(&self) -> (out: String)
        ensures
            out@ == self.spec_message(),
    {
        match self {
            StartupError::Version(e) => e.message(),
            StartupError::TooOld { version } => {
                let mut out = to_owned_string("sqlite version ");
                out.append(version.as_str());
                out.append(" is too old; required >= 3.35.0 for UPDATE ... RETURNING");
                out
            },
            StartupError::ForeignKeysOff { value } => {
                let mut out = to_owned_string("PRAGMA foreign_keys must be 1, got ");
                let v = signed_decimal_string(*value);
                out.append(v.as_str());
                out
            },
            StartupError::MissingQueueIndex => to_owned_string("required index idx_runs_status_queuedat_id is missing on analysis_runs"),
        }
    }
}

/// The startup checks on what the database reported: its SQLite version
/// (which must parse and be at least 3.35.0), `PRAGMA foreign_keys` (which
/// must be 1) and the names of the indexes on `analysis_runs` (which must
/// include the queue index). Gives the parsed version.
pub fn enforce_startup_invariants(sqlite_version: &str, foreign_keys: i64, index_names: &Vec<String>) -> (r: Result<(u32, u32, u32), StartupError>)
    ensures
        spec_sqlite_version(sqlite_version@) is Err ==> r is Err
            && r->Err_0 == StartupError::Version(spec_sqlite_version(sqlite_version@)->Err_0),
        spec_sqlite_version(sqlite_version@) is Ok ==> {
            let v = spec_sqlite_version(sqlite_version@)->Ok_0;
            &&& version_lt(v, (3, 35, 0)) ==> r is Err && (r->Err_0 matches StartupError::TooOld { version } && version@ == sqlite_version@)
            &&& !version_lt(v, (3, 35, 0)) && foreign_keys != 1 ==> r is Err && (r->Err_0 matches StartupError::ForeignKeysOff { value } && value == foreign_keys)
            &&& !version_lt(v, (3, 35, 0)) && foreign_keys == 1 && !views(index_names@).contains("idx_runs_status_queuedat_id"@)
                ==> r is Err && r->Err_0 is MissingQueueIndex
            &&& !version_lt(v, (3, 35, 0)) && foreign_keys == 1 && views(index_names@).contains("idx_runs_status_queuedat_id"@)
                ==> r is Ok && r->Ok_0 == v
        },
{
    let parsed = match parse_sqlite_version(sqlite_version) {
        Ok(v) => v,
        Err(e) => return Err(StartupError::Version(e)),
    };
    if version_before(parsed, (3, 35, 0)) {
        return Err(StartupError::TooOld { version: to_owned_string(sqlite_version) });
    }
    if foreign_keys != 1 {
        return Err(StartupError::ForeignKeysOff { value: foreign_keys });
    }
    if !crate::ordered::contains_str(index_names, QUEUE_INDEX_NAME) {
        return Err(StartupError::MissingQueueIndex);
    }
    Ok(parsed)
}

} // verus!
