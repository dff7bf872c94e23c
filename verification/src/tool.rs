//! Interpretation of the external tools' captured outcomes: the inventory
//! query, the file-ownership query and the build-log query each hand back
//! an exit status and captured output, and these functions turn them into
//! values or fatal errors.

use vstd::prelude::*;
use crate::text::all_digits;
use crate::text::dec_value;
use crate::text::spec_lines;
use crate::text::spec_tokens;
use crate::text::split_lines;
use crate::text::split_tokens;
use crate::text::parse_u64;
use crate::text::views;

verus! {

/// Why a run must stop: an external tool failed, or a tool's numeric
/// output could not be read.
#[derive(Debug)]
pub enum AuditError {
    /// An external tool exited unsuccessfully; its captured output is kept
    /// for diagnosis.
    ToolFailure { stdout: String, stderr: String },
    /// The build-log tool's duration field is not a decimal numeral that
    /// fits the duration type.
    BadDuration { token: String },
}

/// Interprets the inventory tool's outcome: on success, its
/// newline-separated package identifiers in the tool's order; exit code 1
/// is the tool's benign "no matches" and yields the empty set; any other
/// failure is fatal.
pub fn enumerate(success: bool, code: Option<i32>, stdout: String, stderr: String) -> (r: Result<
    Vec<String>,
    AuditError,
>)
    ensures
        success ==> (r matches Ok(v) && views(v@) == spec_lines(stdout@)),
        !success && code == Some(1i32) ==> (r matches Ok(v) && v@.len() == 0),
        !success && code != Some(1i32) ==> (r matches Err(e) && (e matches AuditError::ToolFailure {
            stdout: o,
            stderr: er,
        } && o == stdout && er == stderr)),
{
    if success {
        Ok(split_lines(stdout.as_str()))
    } else {
        match code {
            Some(1i32) => Ok(Vec::new()),
            _ => Err(AuditError::ToolFailure { stdout, stderr }),
        }
    }
}

/// Interprets the ownership tool's outcome: on success, the
/// newline-separated paths the package owns — an empty output is a
/// legitimate empty file list; every failure is fatal.
pub fn parse_file_list(success: bool, stdout: String, stderr: String) -> (r: Result<
    Vec<String>,
    AuditError,
>)
    ensures
        success ==> (r matches Ok(v) && views(v@) == spec_lines(stdout@)),
        !success ==> (r matches Err(e) && (e matches AuditError::ToolFailure {
            stdout: o,
            stderr: er,
        } && o == stdout && er == stderr)),
{
    if success {
        Ok(split_lines(stdout.as_str()))
    } else {
        Err(AuditError::ToolFailure { stdout, stderr })
    }
}

/// Interprets the build-log tool's outcome: the second whitespace token of
/// its output read as a whole number of seconds. A missing second token
/// means an instant build, zero seconds; a failing tool or a token that is
/// not a fitting decimal numeral is fatal.
pub fn average_duration(success: bool, stdout: String, stderr: String) -> (r: Result<
    u64,
    AuditError,
>)
    ensures
        !success ==> (r matches Err(e) && (e matches AuditError::ToolFailure {
            stdout: o,
            stderr: er,
        } && o == stdout && er == stderr)),
        success && spec_tokens(stdout@).len() < 2 ==> (r matches Ok(v) && v == 0),
        success && spec_tokens(stdout@).len() >= 2 ==> {
            let t = spec_tokens(stdout@)[1];
            if all_digits(t) && t.len() > 0 && dec_value(t) <= u64::MAX {
                r matches Ok(v) && v == dec_value(t)
            } else {
                r matches Err(e) && (e matches AuditError::BadDuration { token } && token@ == t)
            }
        },
{
    if !success {
        return Err(AuditError::ToolFailure { stdout, stderr });
    }
    let mut toks = split_tokens(stdout.as_str());
    if toks.len() < 2 {
        return Ok(0);
    }
    let tok = toks.remove(1);
    assert(tok@ == spec_tokens(stdout@)[1]);
    match parse_u64(tok.as_str()) {
        Some(v) => Ok(v),
        None => Err(AuditError::BadDuration { token: tok }),
    }
}

} // verus!
