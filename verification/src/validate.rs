//! Checks shared by the durable records.

use crate::digest::{file_id_fault, safe_id_filename};
use crate::error::{first_fault, invalid, invalid_fault, judged, Fault, OrchError};
use crate::text::{byte_len, join2, join3, str_has_char, trim, trimmed, utf8_len};
use vstd::prelude::*;
use vstd::string::*;

verus! {

pub const MAX_AGENT_WORKSPACE_BYTES: usize = 4096;

/// The first fault that `check` finds at the positions from `i` up to `n`.
pub open spec fn scan(i: int, n: int, check: spec_fn(int) -> Option<Fault>) -> Option<Fault>
    decreases n - i,
{
    if i >= n {
        None
    } else {
        first_fault(check(i), scan(i + 1, n, check))
    }
}

/// A scan without a fault found none at any position.
pub proof fn clean_scan(i: int, n: int, check: spec_fn(int) -> Option<Fault>, k: int)
    requires
        scan(i, n, check) is None,
        i <= k < n,
    ensures
        check(k) is None,
    decreases n - i,
{
    if i < k {
        clean_scan(i + 1, n, check, k);
    }
}

/// What is wrong with an identifier held in `field`.
pub open spec fn id_fault(value: Seq<char>, field: Seq<char>) -> Option<Fault> {
    match file_id_fault(value) {
        None => None,
        Some(f) => Some(invalid_fault(field + " is invalid: "@ + f.message)),
    }
}

/// Refuses identifiers that could not name a file.
pub fn validate_id(value: &str, field: &str) -> (r: Result<(), OrchError>)
    ensures
        judged(r, id_fault(value@, field@)),
{
    match safe_id_filename(value) {
        Ok(_) => Ok(()),
        Err(e) => Err(invalid(join3(field, " is invalid: ", e.message.as_str()).as_str())),
    }
}

/// What is wrong with a text that must not be empty, longer than `max` bytes
/// or hold a NUL.
pub open spec fn bounded_fault(value: Seq<char>, max: int, field: Seq<char>) -> Option<Fault> {
    if value.len() == 0 || utf8_len(value) > max || value.contains('\0') {
        Some(invalid_fault(field + " is empty or exceeds its bound"@))
    } else {
        None
    }
}

/// Refuses empty texts, texts over their bound and texts with a NUL.
pub fn validate_bounded_string(value: &str, max_bytes: usize, field: &str) -> (r: Result<
    (),
    OrchError,
>)
    ensures
        judged(r, bounded_fault(value@, max_bytes as int, field@)),
{
    if value.is_empty() || byte_len(value) > max_bytes || str_has_char(value, '\0') {
        return Err(invalid(join2(field, " is empty or exceeds its bound").as_str()));
    }
    Ok(())
}

/// What is wrong with a workspace path.
pub open spec fn workspace_fault(value: Seq<char>) -> Option<Fault> {
    first_fault(
        bounded_fault(value, MAX_AGENT_WORKSPACE_BYTES as int, "workspace"@),
        if trimmed(value).len() == 0 {
            Some(invalid_fault("workspace must not be empty"@))
        } else {
            None
        },
    )
}

/// Refuses workspace paths that are blank or over their bound.
pub fn validate_workspace(value: &str) -> (r: Result<(), OrchError>)
    ensures
        judged(r, workspace_fault(value@)),
{
    validate_bounded_string(value, MAX_AGENT_WORKSPACE_BYTES, "workspace")?;
    let t: String = trim(value);
    if t.as_str().is_empty() {
        return Err(invalid("workspace must not be empty"));
    }
    Ok(())
}

} // verus!
