//! Typed refusals of the control plane.

use crate::json::Json;
use crate::text::{copy, join3};
use vstd::prelude::*;
use vstd::string::*;

verus! {

/// What kind of refusal an [`OrchError`] is.
#[derive(Debug, Clone, Copy, PartialEq, Eq, Structural)]
pub enum OrchErrorCode {
    Unauthenticated,
    ForbiddenScope,
    WorkspaceMismatch,
    SessionBusy,
    CapacityExhausted,
    StaleVersion,
    CursorExpired,
    Internal,
    /// A request deadline passed.
    Timeout,
    InvalidRequest,
    Unsupported,
    Conflict,
}

/// The wire name of a code.
pub open spec fn code_name(code: OrchErrorCode) -> Seq<char> {
    match code {
        OrchErrorCode::Unauthenticated => "unauthenticated"@,
        OrchErrorCode::ForbiddenScope => "forbidden_scope"@,
        OrchErrorCode::WorkspaceMismatch => "workspace_mismatch"@,
        OrchErrorCode::SessionBusy => "session_busy"@,
        OrchErrorCode::CapacityExhausted => "capacity_exhausted"@,
        OrchErrorCode::StaleVersion => "stale_version"@,
        OrchErrorCode::CursorExpired => "cursor_expired"@,
        OrchErrorCode::Internal => "internal"@,
        OrchErrorCode::Timeout => "timeout"@,
        OrchErrorCode::InvalidRequest => "invalid_request"@,
        OrchErrorCode::Unsupported => "unsupported"@,
        OrchErrorCode::Conflict => "conflict"@,
    }
}

impl OrchErrorCode {
    /// The wire name of this code.
    pub fn as_str(&self) -> (s: &'static str)
        ensures
            s@ == code_name(*self),
    {
        match self {
            OrchErrorCode::Unauthenticated => "unauthenticated",
            OrchErrorCode::ForbiddenScope => "forbidden_scope",
            OrchErrorCode::WorkspaceMismatch => "workspace_mismatch",
            OrchErrorCode::SessionBusy => "session_busy",
            OrchErrorCode::CapacityExhausted => "capacity_exhausted",
            OrchErrorCode::StaleVersion => "stale_version",
            OrchErrorCode::CursorExpired => "cursor_expired",
            OrchErrorCode::Internal => "internal",
            OrchErrorCode::Timeout => "timeout",
            OrchErrorCode::InvalidRequest => "invalid_request",
            OrchErrorCode::Unsupported => "unsupported",
            OrchErrorCode::Conflict => "conflict",
        }
    }
}

/// A refusal as a value of the specification.
pub struct Fault {
    pub code: OrchErrorCode,
    pub message: Seq<char>,
    pub data: Option<Json>,
}

/// The fault with this code and message, and no further data.
pub open spec fn fault(code: OrchErrorCode, message: Seq<char>) -> Fault {
    Fault { code, message, data: None }
}

/// An invalid request with this message.
pub open spec fn invalid_fault(message: Seq<char>) -> Fault {
    fault(OrchErrorCode::InvalidRequest, message)
}

/// A conflict with this message.
pub open spec fn conflict_fault(message: Seq<char>) -> Fault {
    fault(OrchErrorCode::Conflict, message)
}

/// A forbidden scope with this message.
pub open spec fn forbidden_fault(message: Seq<char>) -> Fault {
    fault(OrchErrorCode::ForbiddenScope, message)
}

/// A refusal that was handed in, as it is.
pub open spec fn as_fault(e: OrchError) -> Fault {
    Fault { code: e.code, message: e.message@, data: e.data }
}

/// A fault as a reader sees it: the code's name and the message.
pub open spec fn fault_text(f: Fault) -> Seq<char> {
    code_name(f.code) + ": "@ + f.message
}

/// A refusal: its code, a message, and fields to merge into the answer.
#[derive(Debug)]
pub struct OrchError {
    pub code: OrchErrorCode,
    pub message: String,
    pub data: Option<Json>,
}

impl OrchError {
    /// This error is the refusal `f`.
    pub open spec fn is(self, f: Fault) -> bool {
        self.code == f.code && self.message@ == f.message && self.data == f.data
    }

    /// A refusal without further data.
    pub fn new(code: OrchErrorCode, message: &str) -> (e: OrchError)
        ensures
            e.is(fault(code, message@)),
    {
        OrchError { code, message: copy(message), data: None }
    }

    /// A refusal that carries data.
    pub fn with_data(code: OrchErrorCode, message: &str, data: Json) -> (e: OrchError)
        ensures
            e.code == code,
            e.message@ == message@,
            e.data == Some(data),
    {
        OrchError { code, message: copy(message), data: Some(data) }
    }

    /// The code's name and the message, as a reader sees them.
    pub fn to_text(&self) -> (s: String)
        ensures
            s@ == code_name(self.code) + ": "@ + self.message@,
    {
        join3(self.code.as_str(), ": ", self.message.as_str())
    }
}

impl Clone for OrchError {
    fn clone(&self) -> (e: OrchError)
        ensures
            e == *self,
    {
        OrchError {
            code: self.code,
            message: self.message.clone(),
            data: match &self.data {
                Some(d) => Some(d.clone()),
                None => None,
            },
        }
    }
}

/// `r` is what the check `f` demands: success where there is no fault, and
/// otherwise exactly that fault.
pub open spec fn judged(r: Result<(), OrchError>, f: Option<Fault>) -> bool {
    match f {
        None => r is Ok,
        Some(f) => r is Err && r->Err_0.is(f),
    }
}

/// `r` is refused with exactly the fault `f`.
pub open spec fn refused<T>(r: Result<T, OrchError>, f: Fault) -> bool {
    r is Err && r->Err_0.is(f)
}

/// The first fault of two checks made one after the other.
pub open spec fn first_fault(a: Option<Fault>, b: Option<Fault>) -> Option<Fault> {
    match a {
        Some(f) => Some(f),
        None => b,
    }
}

/// An invalid request.
pub fn invalid(message: &str) -> (e: OrchError)
    ensures
        e.is(invalid_fault(message@)),
{
    OrchError::new(OrchErrorCode::InvalidRequest, message)
}

/// A conflict with the recorded state.
pub fn conflict(message: &str) -> (e: OrchError)
    ensures
        e.is(conflict_fault(message@)),
{
    OrchError::new(OrchErrorCode::Conflict, message)
}

/// A request outside its scope.
pub fn forbidden(message: &str) -> (e: OrchError)
    ensures
        e.is(forbidden_fault(message@)),
{
    OrchError::new(OrchErrorCode::ForbiddenScope, message)
}

} // verus!
