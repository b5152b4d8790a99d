//! Receipts that make a mutation happen at most once.
//!
//! A request is claimed before it is carried out, and its outcome is recorded
//! once. A retry with the same payload is answered from the receipt.

use crate::digest::{file_id_fault, safe_id_filename};
use crate::error::{conflict, conflict_fault, fault, refused, Fault, OrchError, OrchErrorCode};
use crate::json::Json;
use crate::text::{copy, join2, str_eq};
use vstd::prelude::*;
use vstd::string::*;

verus! {

/// A durable receipt, as stored.
#[derive(Debug)]
pub struct IdempotencyReceipt {
    pub request_id: String,
    /// The scope the receipt was claimed in.
    pub scope: Option<String>,
    pub payload_hash: String,
    pub run_id: Option<String>,
    pub tool: String,
    pub response: Json,
    /// The recorded failure, replayed to exact retries.
    pub error: Option<OrchError>,
    /// When the key was claimed. It orders listings and never changes.
    pub created_at: i128,
    /// When the receipt reached `complete` or `failed`.
    pub settled_at: Option<i128>,
    /// `pending`, `complete` or `failed`.
    pub status: String,
}

/// What a claimant is to do.
#[derive(Debug)]
pub enum IdempotencyClaim {
    /// Carry the mutation out.
    Perform,
    /// Wait: another claimant is carrying it out.
    Pending,
    /// Answer with the recorded outcome.
    Replay(Result<Json, OrchError>),
}

/// How a receipt that does not say is read.
pub fn default_receipt_status() -> (s: String)
    ensures
        s@ == "complete"@,
{
    copy("complete")
}

/// The receipt is of this very request.
pub open spec fn same_request(
    r: IdempotencyReceipt,
    tool: Seq<char>,
    request_id: Seq<char>,
    payload_hash: Seq<char>,
) -> bool {
    r.request_id@ == request_id && r.tool@ == tool && r.payload_hash@ == payload_hash
}

/// A key that stands for another request.
pub open spec fn reused_fault() -> Fault {
    conflict_fault("request_id reused with different payload"@)
}

/// `r` is a new claim.
pub open spec fn is_pending_receipt(
    r: IdempotencyReceipt,
    tool: Seq<char>,
    request_id: Seq<char>,
    payload_hash: Seq<char>,
    now: i128,
) -> bool {
    &&& same_request(r, tool, request_id, payload_hash)
    &&& r.scope is None
    &&& r.run_id is None
    &&& r.response@ == "null"@
    &&& r.error is None
    &&& r.created_at == now
    &&& r.settled_at is None
    &&& r.status@ == "pending"@
}

/// `claim` is the answer that the receipt holds.
pub open spec fn is_answer(claim: IdempotencyClaim, prev: IdempotencyReceipt) -> bool {
    if prev.status@ == "complete"@ {
        claim == IdempotencyClaim::Replay(Ok(prev.response))
    } else if prev.status@ == "failed"@ {
        match claim {
            IdempotencyClaim::Replay(Err(e)) => match prev.error {
                Some(recorded) => e == recorded,
                None => e.is(fault(OrchErrorCode::Internal, "idempotent mutation failed"@)),
            },
            _ => false,
        }
    } else {
        claim is Pending
    }
}

/// What a claim comes to, and the receipt to be written if it is the first.
pub open spec fn claimed(
    r: Result<(IdempotencyClaim, Option<IdempotencyReceipt>), OrchError>,
    existing: Option<IdempotencyReceipt>,
    tool: Seq<char>,
    request_id: Seq<char>,
    payload_hash: Seq<char>,
    now: i128,
) -> bool {
    match file_id_fault(request_id) {
        Some(f) => refused(r, f),
        None => match existing {
            Some(prev) => if same_request(prev, tool, request_id, payload_hash) {
                r is Ok && is_answer(r->Ok_0.0, prev) && r->Ok_0.1 is None
            } else {
                refused(r, reused_fault())
            },
            None => {
                &&& r is Ok
                &&& r->Ok_0.0 is Perform
                &&& r->Ok_0.1 is Some
                &&& is_pending_receipt(r->Ok_0.1->0, tool, request_id, payload_hash, now)
            },
        },
    }
}

fn matches_request(r: &IdempotencyReceipt, tool: &str, request_id: &str, payload_hash: &str) -> (b:
    bool)
    ensures
        b == same_request(*r, tool@, request_id@, payload_hash@),
{
    str_eq(r.request_id.as_str(), request_id) && str_eq(r.tool.as_str(), tool) && str_eq(
        r.payload_hash.as_str(),
        payload_hash,
    )
}

fn replay(prev: IdempotencyReceipt) -> (c: IdempotencyClaim)
    ensures
        is_answer(c, prev),
{
    if str_eq(prev.status.as_str(), "complete") {
        IdempotencyClaim::Replay(Ok(prev.response))
    } else if str_eq(prev.status.as_str(), "failed") {
        IdempotencyClaim::Replay(
            Err(
                match prev.error {
                    Some(e) => e,
                    None => OrchError::new(OrchErrorCode::Internal, "idempotent mutation failed"),
                },
            ),
        )
    } else {
        IdempotencyClaim::Pending
    }
}

/// Claims a request, given the receipt that is stored under its key. The first
/// claimant gets a receipt, which is to be written only if there is still none.
pub fn claim_idempotency(
    existing: Option<IdempotencyReceipt>,
    tool: &str,
    request_id: &str,
    payload_hash: &str,
    now: i128,
) -> (r: Result<(IdempotencyClaim, Option<IdempotencyReceipt>), OrchError>)
    ensures
        claimed(r, existing, tool@, request_id@, payload_hash@, now),
{
    let _ = safe_id_filename(request_id)?;
    match existing {
        Some(prev) => {
            if !matches_request(&prev, tool, request_id, payload_hash) {
                return Err(conflict("request_id reused with different payload"));
            }
            Ok((replay(prev), None))
        },
        None => Ok(
            (
                IdempotencyClaim::Perform,
                Some(
                    IdempotencyReceipt {
                        request_id: copy(request_id),
                        scope: None,
                        payload_hash: copy(payload_hash),
                        run_id: None,
                        tool: copy(tool),
                        response: Json::null(),
                        error: None,
                        created_at: now,
                        settled_at: None,
                        status: copy("pending"),
                    },
                ),
            ),
        ),
    }
}

/// What a first claimant is to do once its receipt was offered to the store:
/// only one receipt is ever taken.
pub fn claim_after_write(already_there: bool) -> (c: IdempotencyClaim)
    ensures
        c == if already_there {
            IdempotencyClaim::Pending
        } else {
            IdempotencyClaim::Perform
        },
{
    if already_there {
        IdempotencyClaim::Pending
    } else {
        IdempotencyClaim::Perform
    }
}

/// Why an outcome is not recorded.
pub open spec fn settle_fault(
    existing: Option<IdempotencyReceipt>,
    tool: Seq<char>,
    request_id: Seq<char>,
    payload_hash: Seq<char>,
) -> Option<Fault> {
    match file_id_fault(request_id) {
        Some(f) => Some(f),
        None => match existing {
            None => Some(conflict_fault("idempotency claim is missing"@)),
            Some(prev) => if !same_request(prev, tool, request_id, payload_hash) {
                Some(reused_fault())
            } else if prev.status@ != "pending"@ {
                Some(conflict_fault("idempotency claim is already "@ + prev.status@))
            } else {
                None
            },
        },
    }
}

/// `after` is the claim `before` with its outcome.
pub open spec fn is_settled(
    after: IdempotencyReceipt,
    before: IdempotencyReceipt,
    run_id: Option<String>,
    status: Seq<char>,
    now: i128,
) -> bool {
    &&& after.request_id@ == before.request_id@
    &&& after.scope == before.scope
    &&& after.payload_hash@ == before.payload_hash@
    &&& after.run_id == run_id
    &&& after.tool@ == before.tool@
    &&& after.created_at == before.created_at
    &&& after.settled_at == Some(now)
    &&& after.status@ == status
}

fn finish_idempotency(
    existing: Option<IdempotencyReceipt>,
    tool: &str,
    request_id: &str,
    payload_hash: &str,
    run_id: Option<String>,
    response: Json,
    error: Option<OrchError>,
    status: &str,
    now: i128,
) -> (r: Result<IdempotencyReceipt, OrchError>)
    ensures
        match settle_fault(existing, tool@, request_id@, payload_hash@) {
            Some(f) => refused(r, f),
            None => {
                &&& r is Ok
                &&& is_settled(r->Ok_0, existing->0, run_id, status@, now)
                &&& r->Ok_0.response == response
                &&& r->Ok_0.error == error
            },
        },
{
    let _ = safe_id_filename(request_id)?;
    let previous: IdempotencyReceipt = match existing {
        Some(p) => p,
        None => {
            return Err(conflict("idempotency claim is missing"));
        },
    };
    if !matches_request(&previous, tool, request_id, payload_hash) {
        return Err(conflict("request_id reused with different payload"));
    }
    if !str_eq(previous.status.as_str(), "pending") {
        return Err(
            conflict(join2("idempotency claim is already ", previous.status.as_str()).as_str()),
        );
    }
    Ok(
        IdempotencyReceipt {
            request_id: previous.request_id,
            scope: previous.scope,
            payload_hash: previous.payload_hash,
            run_id,
            tool: previous.tool,
            response,
            error,
            created_at: previous.created_at,
            settled_at: Some(now),
            status: copy(status),
        },
    )
}

/// What recording a success comes to.
pub open spec fn completing(
    existing: Option<IdempotencyReceipt>,
    tool: Seq<char>,
    request_id: Seq<char>,
    payload_hash: Seq<char>,
    run_id: Option<String>,
    response: Json,
    now: i128,
    r: Result<IdempotencyReceipt, OrchError>,
) -> bool {
    match settle_fault(existing, tool, request_id, payload_hash) {
        Some(f) => refused(r, f),
        None => {
            &&& r is Ok
            &&& is_settled(r->Ok_0, existing->0, run_id, "complete"@, now)
            &&& r->Ok_0.response == response
            &&& r->Ok_0.error is None
        },
    }
}

/// Records that a claimed mutation was carried out.
pub fn complete_idempotency(
    existing: Option<IdempotencyReceipt>,
    tool: &str,
    request_id: &str,
    payload_hash: &str,
    run_id: Option<String>,
    response: Json,
    now: i128,
) -> (r: Result<IdempotencyReceipt, OrchError>)
    ensures
        completing(
            existing,
            tool@,
            request_id@,
            payload_hash@,
            run_id,
            response,
            now,
            r,
        ),
{
    finish_idempotency(
        existing,
        tool,
        request_id,
        payload_hash,
        run_id,
        response,
        None,
        "complete",
        now,
    )
}

/// What recording a failure comes to.
pub open spec fn failing(
    existing: Option<IdempotencyReceipt>,
    tool: Seq<char>,
    request_id: Seq<char>,
    payload_hash: Seq<char>,
    run_id: Option<String>,
    error: OrchError,
    now: i128,
    r: Result<IdempotencyReceipt, OrchError>,
) -> bool {
    match settle_fault(existing, tool, request_id, payload_hash) {
        Some(f) => refused(r, f),
        None => {
            &&& r is Ok
            &&& is_settled(r->Ok_0, existing->0, run_id, "failed"@, now)
            &&& r->Ok_0.response@ == "null"@
            &&& r->Ok_0.error == Some(error)
        },
    }
}

/// Records that a claimed mutation failed.
pub fn fail_idempotency(
    existing: Option<IdempotencyReceipt>,
    tool: &str,
    request_id: &str,
    payload_hash: &str,
    run_id: Option<String>,
    error: OrchError,
    now: i128,
) -> (r: Result<IdempotencyReceipt, OrchError>)
    ensures
        failing(
            existing,
            tool@,
            request_id@,
            payload_hash@,
            run_id,
            error,
            now,
            r,
        ),
{
    finish_idempotency(
        existing,
        tool,
        request_id,
        payload_hash,
        run_id,
        Json::null(),
        Some(error),
        "failed",
        now,
    )
}

/// What a restart makes of a claim that nobody is carrying out any more.
pub open spec fn orphaned(before: IdempotencyReceipt, after: IdempotencyReceipt, now: i128) -> bool {
    &&& is_settled(after, before, before.run_id, "failed"@, now)
    &&& after.response == before.response
    &&& after.error is Some
    &&& after.error->0.is(
        fault(
            OrchErrorCode::Internal,
            "mutation was interrupted before its durable receipt completed; use a new request_id"@,
        ),
    )
}

/// What a restart makes of a claim.
pub open spec fn orphaning(
    before: IdempotencyReceipt,
    after: IdempotencyReceipt,
    changed: bool,
    now: i128,
) -> bool {
    &&& changed == (before.status@ == "pending"@)
    &&& if changed {
        orphaned(before, after, now)
    } else {
        after == before
    }
}

/// Fails a claim that a restart left open. Says whether the receipt changed.
pub fn fail_orphaned_claim(receipt: &mut IdempotencyReceipt, now: i128) -> (changed: bool)
    ensures
        orphaning(
            *old(receipt),
            *final(receipt),
            changed,
            now,
        ),
{
    if !str_eq(receipt.status.as_str(), "pending") {
        return false;
    }
    receipt.status = copy("failed");
    receipt.error = Some(
        OrchError::new(
            OrchErrorCode::Internal,
            "mutation was interrupted before its durable receipt completed; use a new request_id",
        ),
    );
    receipt.settled_at = Some(now);
    true
}

/// What a completed request answered is what every exact retry is answered,
/// and no later outcome replaces it.
pub proof fn completed_requests_are_replayed(
    before: IdempotencyReceipt,
    after: IdempotencyReceipt,
    run_id: Option<String>,
    now: i128,
    retry: Result<(IdempotencyClaim, Option<IdempotencyReceipt>), OrchError>,
    later: i128,
)
    requires
        is_settled(after, before, run_id, "complete"@, now),
        file_id_fault(before.request_id@) is None,
        claimed(
            retry,
            Some(after),
            before.tool@,
            before.request_id@,
            before.payload_hash@,
            later,
        ),
    ensures
        retry == Ok::<(IdempotencyClaim, Option<IdempotencyReceipt>), OrchError>(
            (IdempotencyClaim::Replay(Ok(after.response)), None),
        ),
        settle_fault(Some(after), before.tool@, before.request_id@, before.payload_hash@) is Some,
        after.created_at == before.created_at,
{
    reveal_strlit("complete");
    reveal_strlit("pending");
    assert("complete"@[0] != "pending"@[0]);
}

/// A failed request is answered with its recorded failure, and no later
/// outcome replaces it.
pub proof fn failed_requests_are_replayed(
    before: IdempotencyReceipt,
    after: IdempotencyReceipt,
    run_id: Option<String>,
    now: i128,
    retry: Result<(IdempotencyClaim, Option<IdempotencyReceipt>), OrchError>,
    later: i128,
)
    requires
        is_settled(after, before, run_id, "failed"@, now),
        after.error is Some,
        file_id_fault(before.request_id@) is None,
        claimed(
            retry,
            Some(after),
            before.tool@,
            before.request_id@,
            before.payload_hash@,
            later,
        ),
    ensures
        retry == Ok::<(IdempotencyClaim, Option<IdempotencyReceipt>), OrchError>(
            (IdempotencyClaim::Replay(Err(after.error->0)), None),
        ),
        settle_fault(Some(after), before.tool@, before.request_id@, before.payload_hash@) is Some,
        after.created_at == before.created_at,
{
    reveal_strlit("complete");
    reveal_strlit("failed");
    reveal_strlit("pending");
    assert("complete"@[0] != "failed"@[0]);
    assert("failed"@[0] != "pending"@[0]);
}

/// A key never stands for two payloads.
pub proof fn keys_stand_for_one_payload(
    existing: IdempotencyReceipt,
    tool: Seq<char>,
    request_id: Seq<char>,
    payload_hash: Seq<char>,
    r: Result<(IdempotencyClaim, Option<IdempotencyReceipt>), OrchError>,
    now: i128,
)
    requires
        claimed(r, Some(existing), tool, request_id, payload_hash, now),
        existing.payload_hash@ != payload_hash,
    ensures
        r is Err,
{
}

/// What an outside observer may learn of a mutation.
#[derive(Debug)]
pub struct PublicReceipt {
    pub request_id: String,
    /// A fixed classification, never the name of the tool.
    pub operation: String,
    /// `pending`, `complete` or `failed`. A pending receipt is no outcome.
    pub status: String,
    /// The code of a failure; its message is withheld.
    pub outcome: Option<String>,
    /// A digest that equal payloads share.
    pub attempt_digest: String,
    pub run_id: Option<String>,
    pub recorded_at: i128,
}

/// How the contract classifies a tool.
pub open spec fn classification(tool: Seq<char>) -> Seq<char> {
    if tool == "ptah_create_session"@ {
        "create_session"@
    } else if tool == "ptah_submit_task"@ || tool == "ptah_resume_persistent_agent"@ {
        "submit_task"@
    } else if tool == "ptah_steer"@ {
        "follow_up"@
    } else if tool == "ptah_cancel_run"@ {
        "cancel"@
    } else if tool == "ptah_claim_work"@ {
        "acquire_lease"@
    } else if tool == "ptah_release_work"@ {
        "release_lease"@
    } else {
        "other"@
    }
}

impl PublicReceipt {
    /// Classifies a tool. The vocabulary is closed: a tool that it does not
    /// know is `other`.
    pub fn classify(tool: &str) -> (c: &'static str)
        ensures
            c@ == classification(tool@),
    {
        if str_eq(tool, "ptah_create_session") {
            "create_session"
        } else if str_eq(tool, "ptah_submit_task") || str_eq(tool, "ptah_resume_persistent_agent") {
            "submit_task"
        } else if str_eq(tool, "ptah_steer") {
            "follow_up"
        } else if str_eq(tool, "ptah_cancel_run") {
            "cancel"
        } else if str_eq(tool, "ptah_claim_work") {
            "acquire_lease"
        } else if str_eq(tool, "ptah_release_work") {
            "release_lease"
        } else {
            "other"
        }
    }
}

/// The first claimant carries the mutation out, and leaves a claim that says so;
/// an exact retry waits while the outcome is open. A key that stands for another
/// request is refused, and a retry never leaves a second claim.
pub proof fn mutations_are_carried_out_once(
    existing: Option<IdempotencyReceipt>,
    tool: Seq<char>,
    request_id: Seq<char>,
    payload_hash: Seq<char>,
    now: i128,
    r: Result<(IdempotencyClaim, Option<IdempotencyReceipt>), OrchError>,
)
    requires
        claimed(r, existing, tool, request_id, payload_hash, now),
        file_id_fault(request_id) is None,
    ensures
        existing is None ==> r is Ok && r->Ok_0.0 is Perform && r->Ok_0.1 is Some,
        existing is None ==> r->Ok_0.1->0.status@ == "pending"@ && r->Ok_0.1->0.request_id@
            == request_id && r->Ok_0.1->0.tool@ == tool && r->Ok_0.1->0.payload_hash@
            == payload_hash && r->Ok_0.1->0.created_at == now,
        existing is Some && (existing->0.request_id@ != request_id || existing->0.tool@ != tool
            || existing->0.payload_hash@ != payload_hash) ==> r is Err
            && r->Err_0.code is Conflict,
        existing is Some && existing->0.request_id@ == request_id && existing->0.tool@ == tool
            && existing->0.payload_hash@ == payload_hash ==> r is Ok && r->Ok_0.1 is None && !(
        r->Ok_0.0 is Perform),
        existing is Some && existing->0.status@ == "pending"@ && r is Ok ==> r->Ok_0.0 is Pending,
{
    reveal_strlit("complete");
    reveal_strlit("failed");
    reveal_strlit("pending");
    assert("complete"@[0] != "pending"@[0]);
    assert("failed"@[0] != "pending"@[0]);
}

/// Recording a success takes an open claim of this very request, and from then on
/// exact retries are answered with the response. The time of the claim stays.
pub proof fn successes_are_answered_again(
    existing: Option<IdempotencyReceipt>,
    tool: Seq<char>,
    request_id: Seq<char>,
    payload_hash: Seq<char>,
    run_id: Option<String>,
    response: Json,
    now: i128,
    r: Result<IdempotencyReceipt, OrchError>,
    retry: Result<(IdempotencyClaim, Option<IdempotencyReceipt>), OrchError>,
    later: i128,
)
    requires
        completing(existing, tool, request_id, payload_hash, run_id, response, now, r),
        r is Ok,
        claimed(retry, Some(r->Ok_0), tool, request_id, payload_hash, later),
    ensures
        existing is Some,
        existing->0.status@ == "pending"@,
        existing->0.payload_hash@ == payload_hash,
        r->Ok_0.status@ == "complete"@,
        r->Ok_0.response == response,
        r->Ok_0.run_id == run_id,
        r->Ok_0.created_at == existing->0.created_at,
        r->Ok_0.settled_at == Some(now),
        retry == Ok::<(IdempotencyClaim, Option<IdempotencyReceipt>), OrchError>(
            (IdempotencyClaim::Replay(Ok(response)), None),
        ),
{
}

/// Recording a failure takes an open claim of this very request, and from then on
/// exact retries are answered with that failure.
pub proof fn failures_are_answered_again(
    existing: Option<IdempotencyReceipt>,
    tool: Seq<char>,
    request_id: Seq<char>,
    payload_hash: Seq<char>,
    run_id: Option<String>,
    error: OrchError,
    now: i128,
    r: Result<IdempotencyReceipt, OrchError>,
    retry: Result<(IdempotencyClaim, Option<IdempotencyReceipt>), OrchError>,
    later: i128,
)
    requires
        failing(existing, tool, request_id, payload_hash, run_id, error, now, r),
        r is Ok,
        claimed(retry, Some(r->Ok_0), tool, request_id, payload_hash, later),
    ensures
        existing is Some,
        existing->0.status@ == "pending"@,
        r->Ok_0.status@ == "failed"@,
        r->Ok_0.error == Some(error),
        r->Ok_0.created_at == existing->0.created_at,
        retry == Ok::<(IdempotencyClaim, Option<IdempotencyReceipt>), OrchError>(
            (IdempotencyClaim::Replay(Err(error)), None),
        ),
{
    reveal_strlit("complete");
    reveal_strlit("failed");
    assert("complete"@[0] != "failed"@[0]);
}

/// An outcome is recorded on an open claim of this very request, and on nothing
/// else: not twice, not without a claim, and not for another payload.
pub proof fn outcomes_are_recorded_once(
    existing: Option<IdempotencyReceipt>,
    tool: Seq<char>,
    request_id: Seq<char>,
    payload_hash: Seq<char>,
    run_id: Option<String>,
    response: Json,
    now: i128,
    r: Result<IdempotencyReceipt, OrchError>,
)
    requires
        completing(existing, tool, request_id, payload_hash, run_id, response, now, r),
        file_id_fault(request_id) is None,
    ensures
        r is Ok <==> existing is Some && existing->0.request_id@ == request_id && existing->0.tool@
            == tool && existing->0.payload_hash@ == payload_hash && existing->0.status@
            == "pending"@,
        r is Err ==> r->Err_0.code is Conflict,
{
}

/// A restart fails what was left open and nothing else, and keeps the time of the
/// claim.
pub proof fn restarts_fail_open_claims(
    before: IdempotencyReceipt,
    after: IdempotencyReceipt,
    changed: bool,
    now: i128,
)
    requires
        orphaning(before, after, changed, now),
    ensures
        changed <==> before.status@ == "pending"@,
        changed ==> after.status@ == "failed"@ && after.error is Some && after.created_at
            == before.created_at && after.settled_at == Some(now) && after.request_id@
            == before.request_id@,
        !changed ==> after == before,
{
}

/// The kinds of request that repeated keys are told apart by.
pub proof fn requests_are_told_apart_by_kind()
    ensures
        classification("ptah_create_session"@) == "create_session"@,
        classification("ptah_submit_task"@) == "submit_task"@,
        classification("ptah_resume_persistent_agent"@) == "submit_task"@,
        classification("ptah_steer"@) == "follow_up"@,
        classification("ptah_cancel_run"@) == "cancel"@,
        classification("ptah_claim_work"@) == "acquire_lease"@,
        classification("ptah_release_work"@) == "release_lease"@,
        forall|tool: Seq<char>|
            tool != "ptah_create_session"@ && tool != "ptah_submit_task"@ && tool
                != "ptah_resume_persistent_agent"@ && tool != "ptah_steer"@ && tool
                != "ptah_cancel_run"@ && tool != "ptah_claim_work"@ && tool
                != "ptah_release_work"@ ==> #[trigger] classification(tool) == "other"@,
{
    reveal_strlit("ptah_create_session");
    reveal_strlit("ptah_submit_task");
    reveal_strlit("ptah_resume_persistent_agent");
    reveal_strlit("ptah_steer");
    reveal_strlit("ptah_cancel_run");
    reveal_strlit("ptah_claim_work");
    reveal_strlit("ptah_release_work");
    assert("ptah_create_session"@.len() == 19);
    assert("ptah_submit_task"@.len() == 16);
    assert("ptah_resume_persistent_agent"@.len() == 28);
    assert("ptah_steer"@.len() == 10);
    assert("ptah_release_work"@.len() == 17);
    assert("ptah_claim_work"@[6] == 'l');
    assert("ptah_cancel_run"@[6] == 'a');
}

} // verus!
