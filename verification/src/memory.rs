//! The resource sampler: turning the captured output of the two memory
//! helper processes into a memory sample.  Spawning the helpers is the
//! caller's side; the library receives how each invocation ended.

use vstd::prelude::*;
use crate::digits::parse_u64_spec;
use crate::digits::parse_u64_range;
use crate::errors::DiagError;
use crate::strutil::str_to_chars;

verus! {

/// How one helper-process invocation ended: it either could not be
/// spawned, or it ran to an exit status with captured standard output.
pub enum HelperOutcome {
    SpawnFailed,
    Completed { exit_ok: bool, stdout: String },
}

/// Process memory figures in kilobytes: everything resident, and the
/// baseline excluding shared and cached pages.
#[derive(Clone, Copy, Debug, PartialEq, Eq, Structural)]
pub struct MemorySample {
    pub total_kb: u64,
    pub baseline_kb: u64,
}

/// `s` with exactly one trailing line terminator removed: a final `\r\n`
/// or `\n` goes, anything else stays.
pub open spec fn trim_line_end(s: Seq<char>) -> Seq<char> {
    if s.len() >= 2 && s[s.len() - 2] == '\r' && s[s.len() - 1] == '\n' {
        s.take(s.len() - 2)
    } else if s.len() >= 1 && s[s.len() - 1] == '\n' {
        s.take(s.len() - 1)
    } else {
        s
    }
}

/// What one helper outcome is worth: a spawn failure or non-zero exit is a
/// subprocess failure; otherwise the output, minus its trailing line
/// terminator, must parse as an unsigned integer, and failing to is a
/// parse failure of its own kind.
pub open spec fn spec_helper_value(h: HelperOutcome) -> Result<u64, DiagError> {
    match h {
        HelperOutcome::SpawnFailed => Err(DiagError::SubprocessFailure),
        HelperOutcome::Completed { exit_ok, stdout } => {
            if !exit_ok {
                Err(DiagError::SubprocessFailure)
            } else {
                match parse_u64_spec(trim_line_end(stdout@)) {
                    Some(v) => Ok(v),
                    None => Err(DiagError::OutputParseFailure),
                }
            }
        },
    }
}

/// Reads one helper outcome.
pub fn parse_helper_output(h: &HelperOutcome) -> (r: Result<u64, DiagError>)
    ensures
        r == spec_helper_value(*h),
{
    match h {
        HelperOutcome::SpawnFailed => Err(DiagError::SubprocessFailure),
        HelperOutcome::Completed { exit_ok, stdout } => {
            if !*exit_ok {
                Err(DiagError::SubprocessFailure)
            } else {
                let v = str_to_chars(stdout.as_str());
                let n = v.len();
                let to: usize = if n >= 2 && v[n - 2] == '\r' && v[n - 1] == '\n' {
                    n - 2
                } else if n >= 1 && v[n - 1] == '\n' {
                    n - 1
                } else {
                    n
                };
                proof {
                    assert(v@.subrange(0, to as int) =~= trim_line_end(stdout@));
                }
                match parse_u64_range(&v, 0, to) {
                    Some(value) => Ok(value),
                    None => Err(DiagError::OutputParseFailure),
                }
            }
        },
    }
}

/// What sampling is worth over the two outcomes: the total figure is read
/// first, then the baseline, and the first failure wins.
pub open spec fn spec_sample_memory(total: HelperOutcome, baseline: HelperOutcome) -> Result<
    MemorySample,
    DiagError,
> {
    match spec_helper_value(total) {
        Err(e) => Err(e),
        Ok(t) => match spec_helper_value(baseline) {
            Err(e) => Err(e),
            Ok(b) => Ok(MemorySample { total_kb: t, baseline_kb: b }),
        },
    }
}

/// Builds the memory sample out of the two helper outcomes; every call of
/// the helpers is the caller's, so nothing here is cached.
pub fn sample_memory(total: &HelperOutcome, baseline: &HelperOutcome) -> (r: Result<
    MemorySample,
    DiagError,
>)
    ensures
        r == spec_sample_memory(*total, *baseline),
{
    match parse_helper_output(total) {
        Err(e) => Err(e),
        Ok(t) => match parse_helper_output(baseline) {
            Err(e) => Err(e),
            Ok(b) => Ok(MemorySample { total_kb: t, baseline_kb: b }),
        },
    }
}

} // verus!
