//! Where records are kept.
//!
//! Every record has a path below the root of the store, made from the digest
//! of its identifier, so that no identifier can lead out of its directory.

use crate::digest::{file_id_fault, hex, hex_digit, safe_id_filename, text_digest};
use crate::error::{first_fault, invalid, invalid_fault, refused, Fault, OrchError};
use crate::text::{decimal, decimal_text, join4, join5};
use vstd::prelude::*;
use vstd::string::*;

verus! {

/// The largest size of the audit log, in bytes, before it is set aside.
pub const MAX_AUDIT_BYTES: u64 = 4_194_304;

/// A kind of record that is kept under one identifier.
#[derive(Debug, Clone, Copy, PartialEq, Eq, Structural)]
pub enum RecordKind {
    Run,
    Receipt,
    Finalization,
    Agent,
    Checkpoint,
    ContinuationInput,
    ContinuationContext,
    AgentActivation,
    WorkItem,
    WorkAttempt,
    Routine,
    RoutineIntent,
    ManagerPlan,
    ManagerDecision,
    ManagerIntent,
    ManagedIntent,
    ManagedFinalization,
    Message,
    WorkerPresence,
}

impl RecordKind {
    /// The directory of these records.
    pub open spec fn name(self) -> Seq<char> {
        match self {
            RecordKind::Run => "runs"@,
            RecordKind::Receipt => "idempotency"@,
            RecordKind::Finalization => "finalization"@,
            RecordKind::Agent => "agents"@,
            RecordKind::Checkpoint => "checkpoints"@,
            RecordKind::ContinuationInput => "continuation-inputs"@,
            RecordKind::ContinuationContext => "continuation-contexts"@,
            RecordKind::AgentActivation => "agent-activation"@,
            RecordKind::WorkItem => "work-items"@,
            RecordKind::WorkAttempt => "work-attempts"@,
            RecordKind::Routine => "routines"@,
            RecordKind::RoutineIntent => "routine-intents"@,
            RecordKind::ManagerPlan => "manager-plans"@,
            RecordKind::ManagerDecision => "manager-decisions"@,
            RecordKind::ManagerIntent => "manager-intents"@,
            RecordKind::ManagedIntent => "managed-intents"@,
            RecordKind::ManagedFinalization => "managed-finalization"@,
            RecordKind::Message => "messages"@,
            RecordKind::WorkerPresence => "worker-presence"@,
        }
    }

    /// The directory of these records.
    pub fn directory(self) -> (d: &'static str)
        ensures
            d@ == self.name(),
    {
        match self {
            RecordKind::Run => "runs",
            RecordKind::Receipt => "idempotency",
            RecordKind::Finalization => "finalization",
            RecordKind::Agent => "agents",
            RecordKind::Checkpoint => "checkpoints",
            RecordKind::ContinuationInput => "continuation-inputs",
            RecordKind::ContinuationContext => "continuation-contexts",
            RecordKind::AgentActivation => "agent-activation",
            RecordKind::WorkItem => "work-items",
            RecordKind::WorkAttempt => "work-attempts",
            RecordKind::Routine => "routines",
            RecordKind::RoutineIntent => "routine-intents",
            RecordKind::ManagerPlan => "manager-plans",
            RecordKind::ManagerDecision => "manager-decisions",
            RecordKind::ManagerIntent => "manager-intents",
            RecordKind::ManagedIntent => "managed-intents",
            RecordKind::ManagedFinalization => "managed-finalization",
            RecordKind::Message => "messages",
            RecordKind::WorkerPresence => "worker-presence",
        }
    }
}

/// A kind of record that is kept under the identifier of what it belongs to and
/// its own.
#[derive(Debug, Clone, Copy, PartialEq, Eq, Structural)]
pub enum NestedKind {
    RoutineActivation,
    RoutineDedupe,
    WorkDecision,
}

impl NestedKind {
    /// The directory of these records.
    pub open spec fn name(self) -> Seq<char> {
        match self {
            NestedKind::RoutineActivation => "routine-activations"@,
            NestedKind::RoutineDedupe => "routine-dedupe"@,
            NestedKind::WorkDecision => "work-decisions"@,
        }
    }

    /// The directory of these records.
    pub fn directory(self) -> (d: &'static str)
        ensures
            d@ == self.name(),
    {
        match self {
            NestedKind::RoutineActivation => "routine-activations",
            NestedKind::RoutineDedupe => "routine-dedupe",
            NestedKind::WorkDecision => "work-decisions",
        }
    }
}

/// The path of a record below the root.
pub open spec fn path_of(kind: RecordKind, id: Seq<char>) -> Seq<char> {
    kind.name() + "/"@ + text_digest(id) + ".json"@
}

/// The path of a record below the root.
pub fn record_path(kind: RecordKind, id: &str) -> (r: Result<String, OrchError>)
    ensures
        match file_id_fault(id@) {
            Some(f) => refused(r, f),
            None => r is Ok && r->Ok_0@ == path_of(kind, id@),
        },
{
    let name: String = safe_id_filename(id)?;
    Ok(join4(kind.directory(), "/", name.as_str(), ".json"))
}

/// The directory that holds the records of one owner.
pub open spec fn folder_of(kind: NestedKind, owner: Seq<char>) -> Seq<char> {
    kind.name() + "/"@ + text_digest(owner)
}

/// The directory that holds the records of one owner.
pub fn record_folder(kind: NestedKind, owner: &str) -> (r: Result<String, OrchError>)
    ensures
        match file_id_fault(owner@) {
            Some(f) => refused(r, f),
            None => r is Ok && r->Ok_0@ == folder_of(kind, owner@),
        },
{
    let name: String = safe_id_filename(owner)?;
    Ok(crate::text::join3(kind.directory(), "/", name.as_str()))
}

/// The path of a record of an owner.
pub open spec fn nested_path_of(kind: NestedKind, owner: Seq<char>, id: Seq<char>) -> Seq<char> {
    folder_of(kind, owner) + "/"@ + text_digest(id) + ".json"@
}

/// The path of a record of an owner.
pub fn nested_path(kind: NestedKind, owner: &str, id: &str) -> (r: Result<String, OrchError>)
    ensures
        match first_fault(file_id_fault(owner@), file_id_fault(id@)) {
            Some(f) => refused(r, f),
            None => r is Ok && r->Ok_0@ == nested_path_of(kind, owner@, id@),
        },
{
    let folder: String = record_folder(kind, owner)?;
    let name: String = safe_id_filename(id)?;
    Ok(join4(folder.as_str(), "/", name.as_str(), ".json"))
}

/// Why a revision has no path.
pub open spec fn spec_path_fault(agent_id: Seq<char>, revision: u64) -> Option<Fault> {
    first_fault(
        file_id_fault(agent_id),
        if revision == 0 {
            Some(invalid_fault("agent specification revision must be greater than zero"@))
        } else {
            None
        },
    )
}

/// The path of a revision of an agent's specification.
pub fn agent_spec_path(agent_id: &str, revision: u64) -> (r: Result<String, OrchError>)
    ensures
        match spec_path_fault(agent_id@, revision) {
            Some(f) => refused(r, f),
            None => r is Ok && r->Ok_0@ == "agent-specs/"@ + text_digest(agent_id@) + "/"@ + decimal(
                revision as nat,
            ) + ".json"@,
        },
{
    let name: String = safe_id_filename(agent_id)?;
    if revision == 0 {
        return Err(invalid("agent specification revision must be greater than zero"));
    }
    let number: String = decimal_text(revision);
    Ok(join5("agent-specs/", name.as_str(), "/", number.as_str(), ".json"))
}

/// Whether the audit log is set aside before the next entry, given its size if
/// it is there.
pub fn audit_rotates(size: Option<u64>) -> (r: bool)
    ensures
        r == (size is Some && size->0 >= MAX_AUDIT_BYTES),
{
    match size {
        Some(n) => n >= MAX_AUDIT_BYTES,
        None => false,
    }
}

/// A lower-case hexadecimal digit.
pub open spec fn is_hex(c: char) -> bool {
    '0' <= c && c <= '9' || 'a' <= c && c <= 'f'
}

/// The name of a record's file is made of hexadecimal digits alone, whatever the
/// identifier: it holds no separator and no dots, and cannot lead out of its
/// directory.
pub proof fn paths_stay_in_their_directory(id: Seq<char>, i: int)
    requires
        0 <= i < text_digest(id).len(),
    ensures
        is_hex(text_digest(id)[i]),
        text_digest(id)[i] != '/',
        text_digest(id)[i] != '\\',
        text_digest(id)[i] != '.',
{
    let bytes = crate::digest::sha256_of(vstd::utf8::encode_utf8(id));
    assert(text_digest(id) == hex(bytes));
    let b = bytes[i / 2] as int;
    let n = if i % 2 == 0 {
        b / 16
    } else {
        b % 16
    };
    assert(text_digest(id)[i] == hex_digit(n));
    assert(0 <= n < 16);
    assert(is_hex(hex_digit(n)));
}

} // verus!
