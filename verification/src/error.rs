//! Error surface for faces (CLI / MCP) to map into exit codes or MCP `isError`.

use vstd::prelude::*;

use crate::text::{owned, push_str};

verus! {

/// `std::io::Error`, carried through unopened.
#[verifier::external_type_specification]
#[verifier::external_body]
pub struct ExIoError(std::io::Error);

/// Public error surface for faces (CLI / MCP) to map into exit codes or MCP `isError`.
#[derive(Debug)]
pub enum HarnessError {
    /// Backend or environment is missing a required capability.
    Unavailable(String),
    /// Caller asked for something that needs human/policy approval first.
    PolicyBlocked(String),
    /// Target not found (window, element, app).
    NotFound(String),
    /// Ambiguous match — agent should re-snapshot and narrow the selector.
    Ambiguous(String),
    /// I/O or OS-level failure with the real reason preserved.
    Io(std::io::Error),
    /// Catch-all with a real reason string (never empty success).
    Other(String),
}

/// Suggested CLI exit code of each error class.
pub open spec fn exit_code_of(e: HarnessError) -> i32 {
    match e {
        HarnessError::NotFound(_) => 3,
        HarnessError::Ambiguous(_) => 4,
        HarnessError::Unavailable(_) => 2,
        HarnessError::PolicyBlocked(_) => 5,
        _ => 1,
    }
}

/// The message of an error, when it is not an I/O error (whose text comes
/// from the operating system).
pub open spec fn message_of(e: HarnessError) -> Option<Seq<char>> {
    match e {
        HarnessError::Unavailable(m) => Some("capability unavailable: "@ + m@),
        HarnessError::PolicyBlocked(m) => Some("policy blocked: "@ + m@),
        HarnessError::NotFound(m) => Some("not found: "@ + m@),
        HarnessError::Ambiguous(m) => Some("ambiguous: "@ + m@),
        HarnessError::Io(_) => None,
        HarnessError::Other(m) => Some(m@),
    }
}

/// `Display` of `std::io::Error` (its text depends on the operating system).
#[verifier::external_body]
pub(crate) fn io_error_text(e: &std::io::Error) -> String {
    e.to_string()
}

impl HarnessError {
    /// Suggested process exit code for the CLI face.
    pub fn exit_code(&self) -> (r: i32)
        ensures
            r == exit_code_of(*self),
    {
        match self {
            HarnessError::NotFound(_) => 3,
            HarnessError::Ambiguous(_) => 4,
            HarnessError::Unavailable(_) => 2,
            HarnessError::PolicyBlocked(_) => 5,
            _ => 1,
        }
    }

    /// The human-readable message (what `Display` shows): a class prefix and
    /// the reason; `Io` shows the OS error text and `Other` the bare reason.
    pub fn message(&self) -> (r: String)
        ensures
            message_of(*self) matches Some(t) ==> r@ == t,
    {
        match self {
            HarnessError::Unavailable(m) => prefixed("capability unavailable: ", m),
            HarnessError::PolicyBlocked(m) => prefixed("policy blocked: ", m),
            HarnessError::NotFound(m) => prefixed("not found: ", m),
            HarnessError::Ambiguous(m) => prefixed("ambiguous: ", m),
            HarnessError::Io(e) => io_error_text(e),
            HarnessError::Other(m) => m.clone(),
        }
    }
}

/// `prefix` followed by `m`.
fn prefixed(prefix: &str, m: &String) -> (r: String)
    ensures
        r@ == prefix@ + m@,
{
    let mut r = owned(prefix);
    push_str(&mut r, m.as_str());
    r
}

} // verus!
