//! Small shared utilities: audio file recognition, content hashing, clock.
use vstd::prelude::*;
use crate::paths::{extension_of, file_name_of, path_file_name, split_file_name};
use crate::text::{ascii_lower, to_ascii_lower, str_eq};

verus! {

/// The lowercase hex SHA-256 digest of `bytes`.
pub uninterp spec fn sha256_hex(bytes: Seq<u8>) -> Seq<char>;

/// A lowercase hexadecimal digit.
pub open spec fn is_lower_hex(c: char) -> bool {
    ('0' <= c && c <= '9') || ('a' <= c && c <= 'f')
}

/// Hex SHA-256 of a byte string (sha2's `Sha256` and `hex::encode`).
/// Trusted: the digest is a function of the bytes alone; SHA-256 yields 32
/// bytes and `hex::encode` writes two lowercase hex digits per byte.
#[verifier::external_body]
pub fn sha256_bytes(bytes: &[u8]) -> (out: String)
    ensures
        out@ == sha256_hex(bytes@),
        out@.len() == 64,
        forall|i: int| 0 <= i < out@.len() ==> is_lower_hex(#[trigger] out@[i]),
{
    hex::encode(<sha2::Sha256 as sha2::Digest>::digest(bytes))
}

/// The current UTC time as RFC 3339 with milliseconds (chrono's `Utc::now`
/// formatted with `to_rfc3339_opts(Millis, true)`).
/// Trusted: only that the text ends in `Z` (UTC written as `Z`); the time
/// itself is whatever the clock says.
#[verifier::external_body]
pub fn now_rfc3339() -> (out: String)
    ensures
        out@.len() > 0,
        out@.last() == 'Z',
{
    chrono::Utc::now().to_rfc3339_opts(chrono::SecondsFormat::Millis, true)
}

/// The audio extensions the library accepts (compared in lower case).
pub open spec fn is_audio_extension(ext: Seq<char>) -> bool {
    let e = ascii_lower(ext);
    e == "wav"@ || e == "aiff"@ || e == "aif"@ || e == "flac"@ || e == "mp3"@ || e == "m4a"@
}

/// Whether a path whose final component is `file_name` names an audio file.
pub open spec fn spec_is_audio_file_name(file_name: Option<Seq<char>>) -> bool {
    match file_name {
        Some(n) => match extension_of(n) {
            Some(e) => is_audio_extension(e),
            None => false,
        },
        None => false,
    }
}

/// Whether a file name (the last component of a path, if any) has one of the
/// audio extensions, in any ASCII case.
pub fn is_audio_file_name(file_name: Option<&str>) -> (r: bool)
    ensures
        r == spec_is_audio_file_name(
            match file_name {
                Some(n) => Some(n@),
                None => None,
            },
        ),
{
    match file_name {
        None => false,
        Some(name) => {
            let (_stem, ext) = split_file_name(name);
            match ext {
                None => false,
                Some(e) => {
                    let lower = to_ascii_lower(e.as_str());
                    let l = lower.as_str();
                    str_eq(l, "wav") || str_eq(l, "aiff") || str_eq(l, "aif") || str_eq(l, "flac")
                        || str_eq(l, "mp3") || str_eq(l, "m4a")
                },
            }
        },
    }
}

/// Whether `path` names an audio file by its extension.
pub fn is_audio_file(path: &str) -> (r: bool)
    ensures
        r == spec_is_audio_file_name(file_name_of(path@)),
{
    let name = path_file_name(path);
    match name {
        Some(n) => is_audio_file_name(Some(n.as_str())),
        None => is_audio_file_name(None),
    }
}


/// A path names an audio file exactly when its file name has one of the
/// extensions wav, aiff, aif, flac, mp3 or m4a, in any ASCII case.
pub proof fn law_audio_extensions(path: Seq<char>)
    ensures
        spec_is_audio_file_name(file_name_of(path)) <==> (file_name_of(path) matches Some(n) && extension_of(n) matches Some(e)
            && {
            let l = ascii_lower(e);
            l == "wav"@ || l == "aiff"@ || l == "aif"@ || l == "flac"@ || l == "mp3"@ || l == "m4a"@
        }),
{
}

} // verus!
