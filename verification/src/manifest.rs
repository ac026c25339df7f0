//! Reading the package version out of the project manifest's text.  The
//! file itself is read by the caller; a missing or malformed manifest is a
//! fatal configuration error, since the version is the report's identity.

use vstd::prelude::*;
use crate::errors::DiagError;

verus! {

/// The version string the manifest text declares under `package.version`,
/// if any; it depends on the text alone.
pub uninterp spec fn manifest_version_of(s: Seq<char>) -> Option<Seq<char>>;

/// An option's text, as sequences of characters.
pub open spec fn opt_str_view(r: Option<String>) -> Option<Seq<char>> {
    match r {
        None => None,
        Some(s) => Some(s@),
    }
}

/// Relies on the toml crate: the text parsed as a TOML document
/// (`toml::from_str`), the `package` table and its `version` entry looked
/// up with `Value::get`, and the entry read as a string with
/// `Value::as_str`.
#[verifier::external_body]
fn read_manifest_version(text: &str) -> (r: Option<String>)
    ensures
        opt_str_view(r) == manifest_version_of(text@),
{
    let value: toml::Value = match toml::from_str(text) {
        Ok(v) => v,
        Err(_) => {
            return None;
        },
    };
    let version = value.get("package")?.get("version")?.as_str()?;
    Some(version.to_string())
}

/// A result's text, as sequences of characters.
pub open spec fn res_str_view(r: Result<String, DiagError>) -> Result<Seq<char>, DiagError> {
    match r {
        Ok(s) => Ok(s@),
        Err(e) => Err(e),
    }
}

/// What reading the version yields: the declared version, or a file-access
/// failure when the manifest was unreadable, does not parse, or declares
/// no version.
pub open spec fn spec_version(m: Option<String>) -> Result<Seq<char>, DiagError> {
    match m {
        None => Err(DiagError::FileAccessFailure),
        Some(t) => match manifest_version_of(t@) {
            None => Err(DiagError::FileAccessFailure),
            Some(v) => Ok(v),
        },
    }
}

/// Reads the package version from the manifest text the caller read, or
/// from its absence.
pub fn manifest_version(text: &Option<String>) -> (r: Result<String, DiagError>)
    ensures
        res_str_view(r) == spec_version(*text),
{
    match text {
        None => Err(DiagError::FileAccessFailure),
        Some(t) => match read_manifest_version(t.as_str()) {
            None => Err(DiagError::FileAccessFailure),
            Some(v) => Ok(v),
        },
    }
}

} // verus!
