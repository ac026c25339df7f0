//! The error kinds a diagnostics or configuration request can surface.
//! Each failure ends only the invocation that hit it; the caller reports
//! the notice text and moves on.

use vstd::prelude::*;
use vstd::string::StringExecFns;

verus! {

/// Why an invocation failed.
#[derive(Clone, Copy, Debug, PartialEq, Eq, Structural)]
pub enum DiagError {
    /// The shard-runner latency state could not be reached.
    TransportUnavailable,
    /// A helper process could not be spawned or exited with failure.
    SubprocessFailure,
    /// A helper process wrote something that is not an unsigned integer.
    OutputParseFailure,
    /// The project manifest could not be read or holds no version.
    FileAccessFailure,
    /// A file of the source tree could not be read.
    ScanFailure,
    /// The backing store could not be queried.
    StoreQueryFailure,
    /// A user-supplied structured payload failed to parse.
    MalformedPayload,
}

/// The notice text for each error kind.
pub open spec fn spec_message(e: DiagError) -> Seq<char> {
    match e {
        DiagError::TransportUnavailable => "There was a problem getting the shard manager"@,
        DiagError::SubprocessFailure => "A memory helper process failed"@,
        DiagError::OutputParseFailure => "A memory helper did not return a number"@,
        DiagError::FileAccessFailure => "The project manifest could not be read"@,
        DiagError::ScanFailure => "A source file could not be read"@,
        DiagError::StoreQueryFailure => "The prefix store could not be queried"@,
        DiagError::MalformedPayload => "The payload could not be parsed"@,
    }
}

impl DiagError {
    /// A short human-readable failure notice for the originating channel.
    pub fn message(&self) -> (r: String)
        ensures
            r@ == spec_message(*self),
    {
        match self {
            DiagError::TransportUnavailable => String::from_str(
                "There was a problem getting the shard manager",
            ),
            DiagError::SubprocessFailure => String::from_str("A memory helper process failed"),
            DiagError::OutputParseFailure => String::from_str(
                "A memory helper did not return a number",
            ),
            DiagError::FileAccessFailure => String::from_str(
                "The project manifest could not be read",
            ),
            DiagError::ScanFailure => String::from_str("A source file could not be read"),
            DiagError::StoreQueryFailure => String::from_str(
                "The prefix store could not be queried",
            ),
            DiagError::MalformedPayload => String::from_str("The payload could not be parsed"),
        }
    }
}

} // verus!
