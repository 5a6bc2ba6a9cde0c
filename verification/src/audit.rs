//! Mutation audit trail: one JSONL line per mutation.
//!
//! The file writes are the caller's; the event contents and the messages
//! around a failed write are decided here. Typed text never goes into an
//! audit detail — only its character count.

use vstd::prelude::*;

use crate::error::HarnessError;
use crate::text::{decimal, owned, push_decimal, push_str};
use crate::policy::OverrideRecord;
use crate::types::MutationClass;

verus! {

/// `serde_json::Value`, carried through unopened (audit targets).
#[verifier::external_type_specification]
#[verifier::external_body]
pub struct ExJsonValue(serde_json::Value);

/// One mutation event written to the audit trail.
#[derive(Debug, Clone, PartialEq)]
pub struct AuditEvent {
    /// RFC3339 timestamp (UTC).
    pub ts: String,
    /// Tool / operation name (`do_action`, `type_into`, `screenshot`, …).
    pub tool: String,
    pub mutation: MutationClass,
    pub target: Option<serde_json::Value>,
    /// `ok` or `error`.
    pub result: String,
    pub detail: Option<String>,
}

/// The current time in RFC3339 (`chrono::Utc::now().to_rfc3339()`); it
/// depends on the clock, so nothing is stated of it.
#[verifier::external_body]
fn now_rfc3339() -> String {
    chrono::Utc::now().to_rfc3339()
}

/// The audit event of a granted override: tool `policy_override`, a
/// mutating event with result `ok`, the override's detail, and `target` (the
/// record's tool, pattern and target, rendered by the caller).
pub fn override_event(rec: &OverrideRecord, target: Option<serde_json::Value>) -> (e: AuditEvent)
    ensures
        e.tool@ == "policy_override"@,
        e.mutation == MutationClass::Mutating,
        e.target == target,
        e.result@ == "ok"@,
        rec.detail@.len() == 0 ==> e.detail is None,
        rec.detail@.len() > 0 ==> (e.detail matches Some(d) && d@ == rec.detail@),
{
    new_event("policy_override", MutationClass::Mutating, target, true, rec.detail.as_str())
}

/// Build a standard event stamped with the current time: result `ok` or
/// `error`, and no detail when the detail is empty.
pub fn new_event(tool: &str, mutation: MutationClass, target: Option<serde_json::Value>, ok: bool, detail: &str) -> (e: AuditEvent)
    ensures
        e.tool@ == tool@,
        e.mutation == mutation,
        e.target == target,
        e.result@ == if ok { "ok"@ } else { "error"@ },
        detail@.len() == 0 ==> e.detail is None,
        detail@.len() > 0 ==> (e.detail matches Some(d) && d@ == detail@),
{
    AuditEvent {
        ts: now_rfc3339(),
        tool: owned(tool),
        mutation,
        target,
        result: owned(if ok { "ok" } else { "error" }),
        detail: if detail.is_empty() { None } else { Some(owned(detail)) },
    }
}

/// Detail for typed input: character count only — never the text.
pub fn typed_chars_detail(backend: &str, n: usize) -> (r: String)
    ensures
        r@ == backend@ + " typed "@ + decimal(n as nat) + " char(s)"@,
{
    let mut r = owned(backend);
    push_str(&mut r, " typed ");
    push_decimal(&mut r, n as u64);
    push_str(&mut r, " char(s)");
    r
}

/// Message refusing a mutation whose audit log cannot be opened.
pub open spec fn not_writable_message(reason: Seq<char>) -> Seq<char> {
    "audit log not writable: "@ + reason
}

/// Map the outcome of opening the audit log (the error's text on failure)
/// into the pre-mutation check: a log that cannot be opened refuses the
/// mutation, with the reason.
pub fn require_writable(opened: Result<(), String>) -> (r: Result<(), HarnessError>)
    ensures
        opened is Ok ==> r is Ok,
        opened matches Err(t) ==> (r matches Err(HarnessError::Other(m)) && m@ == not_writable_message(t@)),
{
    match opened {
        Ok(()) => Ok(()),
        Err(t) => Err(HarnessError::Other(with_reason("audit log not writable: ", t.as_str()))),
    }
}

/// `prefix` followed by `reason`.
fn with_reason(prefix: &str, reason: &str) -> (r: String)
    ensures
        r@ == prefix@ + reason@,
{
    let mut r = owned(prefix);
    push_str(&mut r, reason);
    r
}

/// The detail of a mutation whose audit line could not be written: the
/// detail, a warning, and the reason.
pub fn audit_warning(detail: &str, reason: &str) -> (r: String)
    ensures
        r@ == detail@ + "; WARNING audit log write failed: "@ + reason@,
{
    let mut prefix = owned(detail);
    push_str(&mut prefix, "; WARNING audit log write failed: ");
    with_reason(prefix.as_str(), reason)
}

/// The detail reported after a mutation: unchanged when its audit line was
/// written, else with the warning and the write error's text appended.
pub fn record_after(detail: &str, written: Result<(), String>) -> (r: String)
    ensures
        written is Ok ==> r@ == detail@,
        written matches Err(t) ==> r@ == detail@ + "; WARNING audit log write failed: "@ + t@,
{
    match written {
        Ok(()) => owned(detail),
        Err(t) => audit_warning(detail, t.as_str()),
    }
}

/// An override whose audit log cannot be opened is refused, with the reason.
pub fn override_not_writable(reason: &str) -> (r: HarnessError)
    ensures
        r matches HarnessError::Other(m) && m@ == "audit log not writable (override refused): "@ + reason@,
{
    HarnessError::Other(with_reason("audit log not writable (override refused): ", reason))
}

/// An override whose audit line cannot be written is refused, with the reason.
pub fn override_write_failed(reason: &str) -> (r: HarnessError)
    ensures
        r matches HarnessError::Other(m) && m@ == "audit log write failed (override refused): "@ + reason@,
{
    HarnessError::Other(with_reason("audit log write failed (override refused): ", reason))
}

} // verus!
