//! Managed execution: carrying work out on its own agent, and ending it once.
//!
//! An intent is recorded before work is claimed for it. How it ended is
//! journalled before any record changes, so that a restart reaches the same
//! end however far the first attempt came.

use crate::agent::copy_option;
use crate::checkpoint::{same_workspace, workspaces_match};
use crate::error::{
    conflict, conflict_fault, first_fault, forbidden, forbidden_fault, invalid, invalid_fault,
    judged, refused, Fault, OrchError,
};
use crate::ledger::{
    check_attempt, check_item, ended, is_linked, linked_attempt, missing_item, reports_failure,
    storage_fault, store_both, work_failure_result,
};
use crate::listing::{by_numbers, earliest, oldest_first, zeros};
use crate::run::{holds, RunRecord};
use crate::text::{copy, str_eq};
use crate::workload::{
    attempt_fault, bumped, copy_optional_result, item_fault, lease_live, same_optional_result,
    secret_token, token_digest, AttemptState, WorkAttempt, WorkItem, WorkResult, WorkState,
};
use vstd::prelude::*;
use vstd::string::*;

verus! {

pub const MANAGED_FINALIZATION_SCHEMA_VERSION: u32 = 1;

/// How far a managed execution has come.
#[derive(Debug, Clone, Copy, PartialEq, Eq, Structural)]
pub enum ManagedIntentState {
    /// Work is being claimed; there may be a run already.
    Claiming,
    Admitted,
    /// Waiting for a permission.
    Parked,
    /// A permission is being answered.
    Resolving,
    Finalized,
    Abandoned,
}

impl ManagedIntentState {
    /// The execution is over.
    pub open spec fn over(self) -> bool {
        self is Finalized || self is Abandoned
    }

    /// Whether the execution is still under way.
    pub fn is_live(self) -> (r: bool)
        ensures
            r == !self.over(),
    {
        !matches!(self, ManagedIntentState::Finalized | ManagedIntentState::Abandoned)
    }
}

/// A managed execution on record.
#[derive(Debug)]
pub struct ManagedExecutionIntent {
    pub intent_id: String,
    pub work_id: String,
    pub agent_id: String,
    pub session_id: u128,
    pub workspace: String,
    pub attempt_id: Option<String>,
    pub run_id: Option<String>,
    pub permission_request_id: Option<String>,
    pub state: ManagedIntentState,
    pub created_at: i128,
    pub updated_at: i128,
}

/// Why an execution is closed without an outcome of its own.
#[derive(Debug, Clone, Copy, PartialEq, Eq, Structural)]
pub enum ManagedRetryCause {
    Expired,
    Interrupted,
    Failed,
}

/// How a managed execution ended.
#[derive(Debug, Clone, Copy, PartialEq, Eq, Structural)]
pub enum ManagedFinalizationOutcome {
    Completed,
    AwaitingApproval,
    Failed,
    RetryQueued,
    Cancelled,
}

/// How far a finalization is carried out.
#[derive(Debug, Clone, Copy, PartialEq, Eq, Structural)]
pub enum ManagedFinalizationStage {
    AfterJournal,
    AfterAttempt,
    AfterWork,
    Complete,
}

/// The journal of an end: what every record is to become.
#[derive(Debug)]
pub struct ManagedFinalizationRecord {
    pub schema_version: u32,
    pub intent_id: String,
    pub work_id: String,
    pub attempt_id: Option<String>,
    pub outcome: ManagedFinalizationOutcome,
    pub attempt_state: AttemptState,
    pub work_state: WorkState,
    pub reason: String,
    pub result: Option<WorkResult>,
    pub created_at: i128,
}

/// When the intents were created.
pub open spec fn intent_times(intents: Seq<ManagedExecutionIntent>) -> Seq<i128> {
    Seq::new(intents.len(), |i: int| intents[i].created_at)
}

/// The order in which intents are listed.
pub open spec fn intents_listed(
    intents: Seq<ManagedExecutionIntent>,
    order: Seq<usize>,
) -> bool {
    order == by_numbers(earliest(intent_times(intents)), zeros(intents.len()))
}

/// The intents, the oldest first.
pub fn list_managed_intents(intents: &Vec<ManagedExecutionIntent>) -> (order: Vec<usize>)
    ensures
        intents_listed(
            intents@,
            order@,
        ),
{
    let mut times: Vec<i128> = Vec::new();
    let mut i: usize = 0;
    while i < intents.len()
        invariant
            i <= intents@.len(),
            times@.len() == i,
            forall|j: int| 0 <= j < i ==> #[trigger] times@[j] == intents@[j].created_at,
        decreases intents.len() - i,
    {
        times.push(intents[i].created_at);
        i = i + 1;
    }
    proof {
        assert(times@ =~= intent_times(intents@));
    }
    oldest_first(&times)
}

/// How many of the first `n` intents of an agent are under way.
pub open spec fn live_for(
    intents: Seq<ManagedExecutionIntent>,
    agent_id: Seq<char>,
    n: int,
) -> nat
    decreases n,
{
    if n <= 0 {
        0
    } else {
        live_for(intents, agent_id, n - 1) + if intents[n - 1].agent_id@ == agent_id
            && !intents[n - 1].state.over() {
            1nat
        } else {
            0
        }
    }
}

/// How many intents of an agent are under way.
pub fn live_managed_intents_for_agent(
    intents: &Vec<ManagedExecutionIntent>,
    agent_id: &str,
) -> (n: usize)
    ensures
        n == live_for(intents@, agent_id@, intents@.len() as int),
{
    let mut n: usize = 0;
    let mut i: usize = 0;
    while i < intents.len()
        invariant
            i <= intents@.len(),
            n == live_for(intents@, agent_id@, i as int),
            n <= i,
        decreases intents.len() - i,
    {
        if str_eq(intents[i].agent_id.as_str(), agent_id) && intents[i].state.is_live() {
            n = n + 1;
        }
        i = i + 1;
    }
    n
}

/// This intent carries the work out.
pub open spec fn carries(intent: ManagedExecutionIntent, work_id: Seq<char>) -> bool {
    intent.work_id@ == work_id && !intent.state.over()
}

/// The first intent that carries the work out.
pub fn live_managed_intent_for_work(
    intents: &Vec<ManagedExecutionIntent>,
    work_id: &str,
) -> (r: Option<usize>)
    ensures
        match r {
            Some(k) => {
                &&& k < intents@.len()
                &&& carries(intents@[k as int], work_id@)
                &&& forall|j: int| 0 <= j < k ==> !carries(#[trigger] intents@[j], work_id@)
            },
            None => forall|j: int|
                0 <= j < intents@.len() ==> !carries(#[trigger] intents@[j], work_id@),
        },
{
    let mut i: usize = 0;
    while i < intents.len()
        invariant
            i <= intents@.len(),
            forall|j: int| 0 <= j < i ==> !carries(#[trigger] intents@[j], work_id@),
        decreases intents.len() - i,
    {
        if str_eq(intents[i].work_id.as_str(), work_id) && intents[i].state.is_live() {
            return Some(i);
        }
        i = i + 1;
    }
    None
}

/// The first run that was made for this request.
pub fn find_run_by_request_id(runs: &Vec<RunRecord>, request_id: &str) -> (r: Option<usize>)
    ensures
        match r {
            Some(k) => {
                &&& k < runs@.len()
                &&& runs@[k as int].request_id@ == request_id@
                &&& forall|j: int| 0 <= j < k ==> (#[trigger] runs@[j]).request_id@ != request_id@
            },
            None => forall|j: int|
                0 <= j < runs@.len() ==> (#[trigger] runs@[j]).request_id@ != request_id@,
        },
{
    let mut i: usize = 0;
    while i < runs.len()
        invariant
            i <= runs@.len(),
            forall|j: int| 0 <= j < i ==> (#[trigger] runs@[j]).request_id@ != request_id@,
        decreases runs.len() - i,
    {
        if str_eq(runs[i].request_id.as_str(), request_id) {
            return Some(i);
        }
        i = i + 1;
    }
    None
}

/// What becomes of an intent, and the records to be stored with it.
#[derive(Debug)]
pub struct IntentChange {
    pub intent: ManagedExecutionIntent,
    /// Work given back to the queue, with its attempt.
    pub released: Option<(WorkItem, WorkAttempt)>,
    /// An attempt that a run was linked to.
    pub linked: Option<WorkAttempt>,
}

/// An attempt that nothing was started for is given back.
pub open spec fn gives_back(
    intent: ManagedExecutionIntent,
    attempt: Option<WorkAttempt>,
    item: Option<WorkItem>,
) -> bool {
    &&& intent.attempt_id is Some
    &&& intent.run_id is None
    &&& attempt is Some
    &&& attempt->0.state.active()
    &&& item is Some
}

/// What abandoning an intent comes to.
pub open spec fn abandoned(
    c: IntentChange,
    intent: ManagedExecutionIntent,
    attempt: Option<WorkAttempt>,
    item: Option<WorkItem>,
    now: i128,
) -> bool {
    &&& c.linked is None
    &&& if intent.state is Finalized {
        c.intent == intent && c.released is None
    } else {
        &&& c.intent == (ManagedExecutionIntent {
            state: ManagedIntentState::Abandoned,
            updated_at: now,
            ..intent
        })
        &&& (c.released is Some <==> gives_back(intent, attempt, item))
        &&& match c.released {
            Some((i, a)) => {
                &&& i == bumped(WorkItem { state: WorkState::Queued, ..item->0 }, now)
                &&& ended(
                    attempt->0,
                    a,
                    AttemptState::Released,
                    "managed admission abandoned before a Run was committed"@,
                    now,
                )
            },
            None => true,
        }
    }
}

/// Gives up an intent. Work that was claimed and not started goes back to the
/// queue.
pub fn abandon_managed_intent(
    intent: ManagedExecutionIntent,
    attempt: Option<WorkAttempt>,
    item: Option<WorkItem>,
    now: i128,
) -> (c: IntentChange)
    ensures
        abandoned(c, intent, attempt, item, now),
{
    if intent.state == ManagedIntentState::Finalized {
        return IntentChange { intent, released: None, linked: None };
    }
    let mut intent: ManagedExecutionIntent = intent;
    let unstarted: bool = intent.attempt_id.is_some() && intent.run_id.is_none();
    intent.state = ManagedIntentState::Abandoned;
    intent.updated_at = now;
    let released: Option<(WorkItem, WorkAttempt)> = match (attempt, item) {
        (Some(mut attempt), Some(mut item)) => if unstarted && attempt.state.is_active() {
            attempt.state = AttemptState::Released;
            attempt.terminal_reason = Some(
                copy("managed admission abandoned before a Run was committed"),
            );
            attempt.updated_at = now;
            item.state = WorkState::Queued;
            item.bump(now);
            Some((item, attempt))
        } else {
            None
        },
        _ => None,
    };
    IntentChange { intent, released, linked: None }
}

/// Where the run of a claim is looked for.
#[derive(Debug)]
pub enum RunSource {
    /// By its id.
    Run(String),
    /// By the request that made it.
    Request(String),
}

/// Where the run of a claim is looked for: the intent names it, or the receipt
/// of its request does, or it was made for that request.
pub fn run_source(intent: &ManagedExecutionIntent, receipt_run_id: Option<String>) -> (s: RunSource)
    ensures
        match intent.run_id {
            Some(id) => s == RunSource::Run(id),
            None => match receipt_run_id {
                Some(id) => s == RunSource::Run(id),
                None => s == RunSource::Request(intent.intent_id),
            },
        },
{
    match &intent.run_id {
        Some(id) => RunSource::Run(id.clone()),
        None => match receipt_run_id {
            Some(id) => RunSource::Run(id),
            None => RunSource::Request(intent.intent_id.clone()),
        },
    }
}

/// The secret opens the attempt, and its lease is held.
pub open spec fn opens(secret: Seq<char>, attempt: WorkAttempt, now: i128) -> bool {
    &&& attempt.lease_token_hash@ == token_digest(
        secret_token(secret, attempt.work_id@, attempt.attempt_id@, attempt.attempt_number),
    )
    &&& lease_live(attempt, now)
}

/// What reconciling a claim comes to.
pub open spec fn claim_reconciled(
    c: IntentChange,
    intent: ManagedExecutionIntent,
    run: Option<RunRecord>,
    attempt: Option<WorkAttempt>,
    item: Option<WorkItem>,
    secret: Seq<char>,
    now: i128,
) -> bool {
    if !(intent.state is Claiming) {
        c.intent == intent && c.released is None && c.linked is None
    } else {
        match run {
            None => abandoned(c, intent, attempt, item, now),
            Some(run) => {
                &&& c.released is None
                &&& c.intent == (ManagedExecutionIntent {
                    run_id: Some(run.run_id),
                    state: ManagedIntentState::Admitted,
                    updated_at: now,
                    ..intent
                })
                &&& (c.linked is Some <==> intent.attempt_id is Some && attempt is Some && opens(
                    secret,
                    attempt->0,
                    now,
                ))
                &&& c.linked is Some ==> linked_attempt(
                    attempt->0,
                    c.linked->0,
                    run.run_id@,
                    now,
                )
            },
        }
    }
}

fn link_run(attempt: WorkAttempt, run_id: &str, now: i128) -> (after: WorkAttempt)
    ensures
        linked_attempt(attempt, after, run_id@, now),
{
    let ghost before = attempt;
    let mut a: WorkAttempt = attempt;
    if !is_linked(&a.linked_run_ids, run_id) {
        a.linked_run_ids.push(copy(run_id));
        proof {
            assert(a.linked_run_ids@.drop_last() =~= before.linked_run_ids@);
        }
    }
    if a.state == AttemptState::Leased {
        a.state = AttemptState::Running;
    }
    a.updated_at = now;
    a
}

/// Recovers a claim without starting a second run: a run that was made for it
/// is adopted, and only a claim without a run is given up.
pub fn reconcile_claiming_intent(
    intent: ManagedExecutionIntent,
    run: Option<&RunRecord>,
    attempt: Option<WorkAttempt>,
    item: Option<WorkItem>,
    lease_secret: &str,
    now: i128,
) -> (c: IntentChange)
    ensures
        claim_reconciled(
            c,
            intent,
            match run {
                Some(r) => Some(*r),
                None => None,
            },
            attempt,
            item,
            lease_secret@,
            now,
        ),
{
    if intent.state != ManagedIntentState::Claiming {
        return IntentChange { intent, released: None, linked: None };
    }
    let run: &RunRecord = match run {
        Some(r) => r,
        None => {
            return abandon_managed_intent(intent, attempt, item, now);
        },
    };
    let mut intent: ManagedExecutionIntent = intent;
    let linked: Option<WorkAttempt> = match attempt {
        Some(attempt) => {
            let token: String = attempt.lease_token_for_secret(lease_secret);
            if intent.attempt_id.is_some() && attempt.token_matches(token.as_str())
                && attempt.lease_active_at(now) {
                Some(link_run(attempt, run.run_id.as_str(), now))
            } else {
                None
            }
        },
        None => None,
    };
    intent.run_id = Some(run.run_id.clone());
    intent.state = ManagedIntentState::Admitted;
    intent.updated_at = now;
    IntentChange { intent, released: None, linked }
}

/// A claim whose run is there is never given up, so that no second run is
/// started for it.
pub proof fn committed_runs_are_adopted(
    c: IntentChange,
    intent: ManagedExecutionIntent,
    run: RunRecord,
    attempt: Option<WorkAttempt>,
    item: Option<WorkItem>,
    secret: Seq<char>,
    now: i128,
)
    requires
        claim_reconciled(c, intent, Some(run), attempt, item, secret, now),
        intent.state is Claiming,
    ensures
        c.intent.state is Admitted,
        holds(c.intent.run_id, run.run_id@),
        c.released is None,
{
}

/// The number of the attempt that is being closed.
pub open spec fn closing_number(attempt: Option<WorkAttempt>, item: WorkItem) -> u32 {
    match attempt {
        Some(a) => a.attempt_number,
        None => if item.attempt_count > 1 {
            item.attempt_count
        } else {
            1
        },
    }
}

/// The number the next attempt would have.
pub fn next_attempt_number(attempt: Option<&WorkAttempt>, item: &WorkItem) -> (n: u32)
    ensures
        ({
            let last = closing_number(
                match attempt {
                    Some(a) => Some(*a),
                    None => None,
                },
                *item,
            );
            n == if last == u32::MAX {
                last as int
            } else {
                last + 1
            }
        }),
{
    let last: u32 = match attempt {
        Some(a) => a.attempt_number,
        None => if item.attempt_count > 1 {
            item.attempt_count
        } else {
            1
        },
    };
    last.saturating_add(1)
}

/// `record` journals an end of the intent.
pub open spec fn journals(
    record: ManagedFinalizationRecord,
    intent: ManagedExecutionIntent,
    outcome: ManagedFinalizationOutcome,
    attempt_state: AttemptState,
    work_state: WorkState,
    reason: Seq<char>,
    now: i128,
) -> bool {
    &&& record.schema_version == MANAGED_FINALIZATION_SCHEMA_VERSION
    &&& record.intent_id == intent.intent_id
    &&& record.work_id == intent.work_id
    &&& record.attempt_id == intent.attempt_id
    &&& record.outcome == outcome
    &&& record.attempt_state == attempt_state
    &&& record.work_state == work_state
    &&& record.reason@ == reason
    &&& record.created_at == now
}

fn journal(
    intent: &ManagedExecutionIntent,
    outcome: ManagedFinalizationOutcome,
    attempt_state: AttemptState,
    work_state: WorkState,
    reason: &str,
    result: Option<WorkResult>,
    now: i128,
) -> (record: ManagedFinalizationRecord)
    ensures
        journals(record, *intent, outcome, attempt_state, work_state, reason@, now),
        record.result == result,
{
    ManagedFinalizationRecord {
        schema_version: MANAGED_FINALIZATION_SCHEMA_VERSION,
        intent_id: intent.intent_id.clone(),
        work_id: intent.work_id.clone(),
        attempt_id: copy_option(&intent.attempt_id),
        outcome,
        attempt_state,
        work_state,
        reason: copy(reason),
        result,
        created_at: now,
    }
}

/// The state of an attempt that is closed for this cause.
pub open spec fn closed_as(cause: ManagedRetryCause) -> AttemptState {
    match cause {
        ManagedRetryCause::Expired | ManagedRetryCause::Interrupted => AttemptState::Expired,
        ManagedRetryCause::Failed => AttemptState::Failed,
    }
}

/// The end of work that is closed in this state.
pub open spec fn close_outcome(state: WorkState, retry: bool) -> ManagedFinalizationOutcome {
    match state {
        WorkState::Cancelled => ManagedFinalizationOutcome::Cancelled,
        WorkState::AwaitingApproval => ManagedFinalizationOutcome::AwaitingApproval,
        WorkState::Succeeded => ManagedFinalizationOutcome::Completed,
        _ => if retry {
            ManagedFinalizationOutcome::RetryQueued
        } else {
            ManagedFinalizationOutcome::Failed
        },
    }
}

/// The state of work once it is closed.
pub open spec fn close_state(state: WorkState, retry: bool) -> WorkState {
    match state {
        WorkState::Cancelled | WorkState::AwaitingApproval | WorkState::Succeeded => state,
        _ => if retry {
            WorkState::Queued
        } else {
            WorkState::Failed
        },
    }
}

/// Work whose end is known already.
pub open spec fn is_decided(state: WorkState) -> bool {
    state is Cancelled || state is Succeeded || state is AwaitingApproval
}

/// The journal of closing an attempt.
pub open spec fn closes(
    record: ManagedFinalizationRecord,
    intent: ManagedExecutionIntent,
    item: WorkItem,
    retry: bool,
    cause: ManagedRetryCause,
    reason: Seq<char>,
    now: i128,
) -> bool {
    &&& journals(
        record,
        intent,
        close_outcome(item.state, retry),
        closed_as(cause),
        close_state(item.state, retry),
        reason,
        now,
    )
    &&& if is_decided(item.state) {
        record.result == item.result
    } else if retry {
        record.result is None
    } else {
        record.result is Some && reports_failure(record.result->0, reason, now)
    }
}

/// What closing the attempt of an intent comes to.
pub open spec fn closing(
    intent: Option<ManagedExecutionIntent>,
    item: Option<WorkItem>,
    retry: bool,
    cause: ManagedRetryCause,
    reason: Seq<char>,
    now: i128,
    r: Result<Option<ManagedFinalizationRecord>, OrchError>,
) -> bool {
    match intent {
        None => r == Ok::<Option<ManagedFinalizationRecord>, OrchError>(None),
        Some(intent) => if intent.state.over() {
            r == Ok::<Option<ManagedFinalizationRecord>, OrchError>(None)
        } else {
            match item {
                None => refused(r, missing_item()),
                Some(item) => {
                    &&& r is Ok
                    &&& r->Ok_0 is Some
                    &&& closes(r->Ok_0->0, intent, item, retry, cause, reason, now)
                },
            }
        },
    }
}

/// Closes the attempt of an intent that did not end by itself. `retry` says
/// whether the work may be tried again. There is nothing to do for an intent
/// that is not there or is over.
pub fn close_managed_attempt_until(
    intent: Option<&ManagedExecutionIntent>,
    item: Option<WorkItem>,
    retry: bool,
    cause: ManagedRetryCause,
    reason: &str,
    now: i128,
) -> (r: Result<Option<ManagedFinalizationRecord>, OrchError>)
    ensures
        closing(
            match intent {
                Some(i) => Some(*i),
                None => None,
            },
            item,
            retry,
            cause,
            reason@,
            now,
            r,
        ),
{
    let intent: &ManagedExecutionIntent = match intent {
        Some(i) => i,
        None => {
            return Ok(None);
        },
    };
    if !intent.state.is_live() {
        return Ok(None);
    }
    let item: WorkItem = match item {
        Some(i) => i,
        None => {
            return Err(conflict("work item not found"));
        },
    };
    let attempt_state: AttemptState = match cause {
        ManagedRetryCause::Expired | ManagedRetryCause::Interrupted => AttemptState::Expired,
        ManagedRetryCause::Failed => AttemptState::Failed,
    };
    let state: WorkState = item.state;
    let (outcome, work_state, result): (
        ManagedFinalizationOutcome,
        WorkState,
        Option<WorkResult>,
    ) = match state {
        WorkState::Cancelled => (ManagedFinalizationOutcome::Cancelled, state, item.result),
        WorkState::AwaitingApproval => (
            ManagedFinalizationOutcome::AwaitingApproval,
            state,
            item.result,
        ),
        WorkState::Succeeded => (ManagedFinalizationOutcome::Completed, state, item.result),
        _ => if retry {
            (ManagedFinalizationOutcome::RetryQueued, WorkState::Queued, None)
        } else {
            (
                ManagedFinalizationOutcome::Failed,
                WorkState::Failed,
                Some(work_failure_result(reason, now)),
            )
        },
    };
    Ok(Some(journal(intent, outcome, attempt_state, work_state, reason, result, now)))
}

/// The attempt and the work once an intent ended like this.
pub open spec fn end_states(
    state: WorkState,
    outcome: ManagedFinalizationOutcome,
) -> (AttemptState, WorkState) {
    if state is Cancelled {
        (AttemptState::Cancelled, WorkState::Cancelled)
    } else if state is Succeeded && !(outcome is Cancelled) {
        (AttemptState::Succeeded, WorkState::Succeeded)
    } else {
        match outcome {
            ManagedFinalizationOutcome::Completed => (
                AttemptState::Succeeded,
                WorkState::Succeeded,
            ),
            ManagedFinalizationOutcome::AwaitingApproval => (
                AttemptState::AwaitingApproval,
                WorkState::AwaitingApproval,
            ),
            ManagedFinalizationOutcome::Failed => (AttemptState::Failed, WorkState::Failed),
            ManagedFinalizationOutcome::RetryQueued => (AttemptState::Failed, WorkState::Queued),
            ManagedFinalizationOutcome::Cancelled => (
                AttemptState::Cancelled,
                WorkState::Cancelled,
            ),
        }
    }
}

/// The journal of finalizing an intent.
pub open spec fn finalizes(
    record: ManagedFinalizationRecord,
    intent: ManagedExecutionIntent,
    item: WorkItem,
    outcome: ManagedFinalizationOutcome,
    reason: Seq<char>,
    result: Option<WorkResult>,
    now: i128,
) -> bool {
    &&& journals(
        record,
        intent,
        outcome,
        end_states(item.state, outcome).0,
        end_states(item.state, outcome).1,
        reason,
        now,
    )
    &&& if item.state is Cancelled || item.state is Succeeded && !(outcome is Cancelled) {
        record.result == item.result
    } else if outcome is RetryQueued {
        record.result is None
    } else if outcome is Failed && result is None {
        record.result is Some && reports_failure(record.result->0, reason, now)
    } else {
        record.result == result
    }
}

/// What ending an intent comes to.
pub open spec fn finalizing(
    intent: Option<ManagedExecutionIntent>,
    item: Option<WorkItem>,
    outcome: ManagedFinalizationOutcome,
    reason: Seq<char>,
    result: Option<WorkResult>,
    now: i128,
    r: Result<Option<ManagedFinalizationRecord>, OrchError>,
) -> bool {
    match intent {
        None => r == Ok::<Option<ManagedFinalizationRecord>, OrchError>(None),
        Some(intent) => if intent.state.over() {
            r == Ok::<Option<ManagedFinalizationRecord>, OrchError>(None)
        } else {
            match item {
                None => refused(r, missing_item()),
                Some(item) => {
                    &&& r is Ok
                    &&& r->Ok_0 is Some
                    &&& finalizes(r->Ok_0->0, intent, item, outcome, reason, result, now)
                },
            }
        },
    }
}

/// Ends an intent. An end that the work already reached stands.
pub fn finalize_managed_intent_until(
    intent: Option<&ManagedExecutionIntent>,
    item: Option<WorkItem>,
    outcome: ManagedFinalizationOutcome,
    reason: &str,
    result: Option<WorkResult>,
    now: i128,
) -> (r: Result<Option<ManagedFinalizationRecord>, OrchError>)
    ensures
        finalizing(
            match intent {
                Some(i) => Some(*i),
                None => None,
            },
            item,
            outcome,
            reason@,
            result,
            now,
            r,
        ),
{
    let intent: &ManagedExecutionIntent = match intent {
        Some(i) => i,
        None => {
            return Ok(None);
        },
    };
    if !intent.state.is_live() {
        return Ok(None);
    }
    let item: WorkItem = match item {
        Some(i) => i,
        None => {
            return Err(conflict("work item not found"));
        },
    };
    let (attempt_state, work_state, result): (AttemptState, WorkState, Option<WorkResult>) = if item.state
        == WorkState::Cancelled {
        (AttemptState::Cancelled, WorkState::Cancelled, item.result)
    } else if item.state == WorkState::Succeeded && outcome
        != ManagedFinalizationOutcome::Cancelled {
        (AttemptState::Succeeded, WorkState::Succeeded, item.result)
    } else {
        match outcome {
            ManagedFinalizationOutcome::Completed => (
                AttemptState::Succeeded,
                WorkState::Succeeded,
                result,
            ),
            ManagedFinalizationOutcome::AwaitingApproval => (
                AttemptState::AwaitingApproval,
                WorkState::AwaitingApproval,
                result,
            ),
            ManagedFinalizationOutcome::Failed => {
                let result: Option<WorkResult> = match result {
                    Some(r) => Some(r),
                    None => Some(work_failure_result(reason, now)),
                };
                (AttemptState::Failed, WorkState::Failed, result)
            },
            ManagedFinalizationOutcome::RetryQueued => (
                AttemptState::Failed,
                WorkState::Queued,
                None,
            ),
            ManagedFinalizationOutcome::Cancelled => (
                AttemptState::Cancelled,
                WorkState::Cancelled,
                result,
            ),
        }
    };
    Ok(Some(journal(intent, outcome, attempt_state, work_state, reason, result, now)))
}

/// What a journal makes of the attempt. An attempt that is over is left alone.
pub open spec fn settled_attempt(
    before: WorkAttempt,
    after: WorkAttempt,
    record: ManagedFinalizationRecord,
    now: i128,
) -> bool {
    &&& holds(after.terminal_reason, record.reason@)
    &&& if record.result is Some {
        same_optional_result(after.result, record.result)
    } else {
        after.result == before.result
    }
    &&& after == (WorkAttempt {
        state: record.attempt_state,
        terminal_reason: after.terminal_reason,
        result: after.result,
        updated_at: now,
        ..before
    })
}

/// What applying a journal to an attempt comes to.
pub open spec fn attempt_settling(
    record: ManagedFinalizationRecord,
    attempt: WorkAttempt,
    now: i128,
    r: Result<Option<WorkAttempt>, OrchError>,
) -> bool {
    if attempt.state.active() {
        exists|after: WorkAttempt| #[trigger]
            settled_attempt(attempt, after, record, now) && (match storage_fault(
                attempt_fault(after),
            ) {
                Some(f) => refused(r, f),
                None => r == Ok::<Option<WorkAttempt>, OrchError>(Some(after)),
            })
    } else {
        r == Ok::<Option<WorkAttempt>, OrchError>(None)
    }
}

/// Applies a journal to the attempt it names. `None` leaves the attempt alone.
pub fn settle_attempt(record: &ManagedFinalizationRecord, attempt: WorkAttempt, now: i128) -> (r:
    Result<Option<WorkAttempt>, OrchError>)
    ensures
        attempt_settling(
            *record,
            attempt,
            now,
            r,
        ),
{
    if !attempt.state.is_active() {
        return Ok(None);
    }
    let ghost before = attempt;
    let mut attempt: WorkAttempt = attempt;
    attempt.state = record.attempt_state;
    attempt.terminal_reason = Some(record.reason.clone());
    if record.result.is_some() {
        attempt.result = copy_optional_result(&record.result);
    }
    attempt.updated_at = now;
    proof {
        assert(settled_attempt(before, attempt, *record, now));
    }
    check_attempt(&attempt)?;
    Ok(Some(attempt))
}

/// What a journal makes of the work.
pub open spec fn settled_item(
    before: WorkItem,
    after: WorkItem,
    record: ManagedFinalizationRecord,
    now: i128,
) -> bool {
    &&& if record.work_state is Queued {
        after.result is None
    } else if record.result is Some {
        same_optional_result(after.result, record.result)
    } else {
        after.result == before.result
    }
    &&& after == bumped(
        WorkItem {
            state: record.work_state,
            blocked_reason: if record.work_state is Queued {
                None
            } else {
                before.blocked_reason
            },
            result: after.result,
            ..before
        },
        now,
    )
}

/// What applying a journal to work comes to.
pub open spec fn work_settling(
    record: ManagedFinalizationRecord,
    item: WorkItem,
    now: i128,
    r: Result<Option<WorkItem>, OrchError>,
) -> bool {
    if is_decided(item.state) {
        r == Ok::<Option<WorkItem>, OrchError>(None)
    } else {
        exists|after: WorkItem| #[trigger]
            settled_item(item, after, record, now) && (match storage_fault(
                item_fault(after),
            ) {
                Some(f) => refused(r, f),
                None => r == Ok::<Option<WorkItem>, OrchError>(Some(after)),
            })
    }
}

/// Applies a journal to the work it names. Work whose end is known is left
/// alone: then the answer is `None`.
pub fn settle_work(record: &ManagedFinalizationRecord, item: WorkItem, now: i128) -> (r: Result<
    Option<WorkItem>,
    OrchError,
>)
    ensures
        work_settling(
            *record,
            item,
            now,
            r,
        ),
{
    if matches!(
        item.state,
        WorkState::Cancelled | WorkState::Succeeded | WorkState::AwaitingApproval
    ) {
        return Ok(None);
    }
    let ghost before = item;
    let mut item: WorkItem = item;
    item.state = record.work_state;
    if record.work_state == WorkState::Queued {
        item.blocked_reason = None;
        item.result = None;
    } else if record.result.is_some() {
        item.result = copy_optional_result(&record.result);
    }
    item.bump(now);
    proof {
        assert(settled_item(before, item, *record, now));
    }
    check_item(&item)?;
    Ok(Some(item))
}

/// Applies a journal to the intent it names. An intent that is over is left
/// alone: then the answer is `None`.
pub fn settle_intent(intent: ManagedExecutionIntent, now: i128) -> (r: Option<
    ManagedExecutionIntent,
>)
    ensures
        r == if intent.state.over() {
            None
        } else {
            Some(
                ManagedExecutionIntent {
                    state: ManagedIntentState::Finalized,
                    updated_at: now,
                    ..intent
                },
            )
        },
{
    if !intent.state.is_live() {
        return None;
    }
    let mut intent: ManagedExecutionIntent = intent;
    intent.state = ManagedIntentState::Finalized;
    intent.updated_at = now;
    Some(intent)
}

/// What a stage has carried out once the journal is written: the attempt, the
/// work, and then the intent together with the removal of the journal.
pub fn stage_reaches(stage: ManagedFinalizationStage) -> (r: (bool, bool, bool))
    ensures
        r.0 == !(stage is AfterJournal),
        r.1 == (stage is AfterWork || stage is Complete),
        r.2 == (stage is Complete),
{
    (
        stage != ManagedFinalizationStage::AfterJournal,
        stage == ManagedFinalizationStage::AfterWork || stage == ManagedFinalizationStage::Complete,
        stage == ManagedFinalizationStage::Complete,
    )
}

/// Applying a journal again after a restart reaches the same end: the work is in
/// the same state with the same result, and the attempt likewise.
pub proof fn replayed_journals_converge(
    record: ManagedFinalizationRecord,
    before: WorkItem,
    once: WorkItem,
    twice: WorkItem,
    t: i128,
    u: i128,
)
    requires
        settled_item(before, once, record, t),
        settled_item(once, twice, record, u),
    ensures
        twice.state == once.state,
        twice.blocked_reason == once.blocked_reason,
        same_optional_result(twice.result, once.result) || twice.result == once.result,
{
}

/// An attempt that a journal settled is in the same state with the same reason
/// and result when the journal is applied again.
pub proof fn replayed_attempts_converge(
    record: ManagedFinalizationRecord,
    before: WorkAttempt,
    once: WorkAttempt,
    twice: WorkAttempt,
    t: i128,
    u: i128,
)
    requires
        settled_attempt(before, once, record, t),
        settled_attempt(once, twice, record, u),
    ensures
        twice.state == once.state,
        twice.terminal_reason->0@ == once.terminal_reason->0@,
        same_optional_result(twice.result, once.result) || twice.result == once.result,
{
}

/// Work that was cancelled stays cancelled, whatever end is reported for it.
pub proof fn cancellations_stand(
    record: ManagedFinalizationRecord,
    intent: ManagedExecutionIntent,
    item: WorkItem,
    outcome: ManagedFinalizationOutcome,
    reason: Seq<char>,
    result: Option<WorkResult>,
    now: i128,
)
    requires
        finalizes(record, intent, item, outcome, reason, result, now),
        item.state is Cancelled,
    ensures
        record.work_state is Cancelled,
        record.attempt_state is Cancelled,
        record.result == item.result,
{
}

/// The intent waits for this permission.
pub open spec fn asks_for(intent: ManagedExecutionIntent, permission_id: Seq<char>) -> bool {
    holds(intent.permission_request_id, permission_id)
}

/// The first intent that waits for this permission.
pub fn find_permission(intents: &Vec<ManagedExecutionIntent>, permission_id: &str) -> (r: Option<
    usize,
>)
    ensures
        match r {
            Some(k) => {
                &&& k < intents@.len()
                &&& asks_for(intents@[k as int], permission_id@)
                &&& forall|j: int| 0 <= j < k ==> !asks_for(#[trigger] intents@[j], permission_id@)
            },
            None => forall|j: int|
                0 <= j < intents@.len() ==> !asks_for(#[trigger] intents@[j], permission_id@),
        },
{
    let mut i: usize = 0;
    while i < intents.len()
        invariant
            i <= intents@.len(),
            forall|j: int| 0 <= j < i ==> !asks_for(#[trigger] intents@[j], permission_id@),
        decreases intents.len() - i,
    {
        let asks: bool = match &intents[i].permission_request_id {
            Some(id) => str_eq(id.as_str(), permission_id),
            None => false,
        };
        if asks {
            return Some(i);
        }
        i = i + 1;
    }
    None
}

/// Where a permission is answered from: its session and workspace, and what the
/// two workspaces resolve to on disk.
#[derive(Debug)]
pub struct PermissionScope {
    pub session_id: u128,
    pub workspace: String,
    pub workspace_resolved: Option<String>,
    pub intent_resolved: Option<String>,
}

/// Why a permission cannot be answered, whatever became of its work.
pub open spec fn answer_fault(
    intent: Option<ManagedExecutionIntent>,
    scope: PermissionScope,
) -> Option<Fault> {
    match intent {
        None => Some(invalid_fault("unknown permission request"@)),
        Some(intent) => if intent.session_id != scope.session_id || !same_workspace(
            intent.workspace@,
            scope.workspace@,
            scope.intent_resolved,
            scope.workspace_resolved,
        ) {
            Some(forbidden_fault("permission is outside the requested session workspace"@))
        } else if intent.state is Admitted || intent.state is Finalized {
            Some(conflict_fault("permission is already resolved"@))
        } else if !(intent.state is Parked) && !(intent.state is Resolving) {
            Some(conflict_fault("permission is not parked"@))
        } else {
            None
        },
    }
}

/// Why a permission cannot be answered.
pub open spec fn permission_fault(
    intent: Option<ManagedExecutionIntent>,
    scope: PermissionScope,
    item: Option<WorkItem>,
) -> Option<Fault> {
    first_fault(
        answer_fault(intent, scope),
        match item {
            None => Some(missing_item()),
            Some(item) => if item.state.terminal() {
                Some(conflict_fault("work is no longer awaiting input"@))
            } else if !(item.state is AwaitingInput) {
                Some(conflict_fault("work is not awaiting input"@))
            } else {
                None
            },
        },
    )
}

/// Whether an intent waits for a permission that may be answered from a scope.
/// Its work need not be known for that.
pub fn require_parked_permission(
    intent: Option<&ManagedExecutionIntent>,
    scope: &PermissionScope,
) -> (r: Result<(), OrchError>)
    ensures
        judged(
            r,
            answer_fault(
                match intent {
                    Some(i) => Some(*i),
                    None => None,
                },
                *scope,
            ),
        ),
{
    let intent: &ManagedExecutionIntent = match intent {
        Some(i) => i,
        None => {
            return Err(invalid("unknown permission request"));
        },
    };
    if intent.session_id != scope.session_id || !workspaces_match(
        intent.workspace.as_str(),
        scope.workspace.as_str(),
        &scope.intent_resolved,
        &scope.workspace_resolved,
    ) {
        return Err(forbidden("permission is outside the requested session workspace"));
    }
    match intent.state {
        ManagedIntentState::Parked | ManagedIntentState::Resolving => Ok(()),
        ManagedIntentState::Admitted | ManagedIntentState::Finalized => Err(
            conflict("permission is already resolved"),
        ),
        _ => Err(conflict("permission is not parked")),
    }
}

/// Whether the permission that an intent waits for may be answered.
pub fn inspect_parked_managed_permission(
    intent: Option<&ManagedExecutionIntent>,
    scope: &PermissionScope,
    item: Option<&WorkItem>,
) -> (r: Result<(), OrchError>)
    ensures
        judged(
            r,
            permission_fault(
                match intent {
                    Some(i) => Some(*i),
                    None => None,
                },
                *scope,
                match item {
                    Some(i) => Some(*i),
                    None => None,
                },
            ),
        ),
{
    require_parked_permission(intent, scope)?;
    let item: &WorkItem = match item {
        Some(i) => i,
        None => {
            return Err(conflict("work item not found"));
        },
    };
    if item.state.is_terminal() {
        return Err(conflict("work is no longer awaiting input"));
    }
    if item.state != WorkState::AwaitingInput {
        return Err(conflict("work is not awaiting input"));
    }
    Ok(())
}

/// Starts answering a permission.
pub fn begin_managed_permission_resolve(
    intent: Option<ManagedExecutionIntent>,
    scope: &PermissionScope,
    item: Option<&WorkItem>,
    now: i128,
) -> (r: Result<ManagedExecutionIntent, OrchError>)
    ensures
        match permission_fault(
            intent,
            *scope,
            match item {
                Some(i) => Some(*i),
                None => None,
            },
        ) {
            Some(f) => refused(r, f),
            None => r == Ok::<ManagedExecutionIntent, OrchError>(
                ManagedExecutionIntent {
                    state: ManagedIntentState::Resolving,
                    updated_at: now,
                    ..intent->0
                },
            ),
        },
{
    match intent {
        Some(mut intent) => {
            inspect_parked_managed_permission(Some(&intent), scope, item)?;
            intent.state = ManagedIntentState::Resolving;
            intent.updated_at = now;
            Ok(intent)
        },
        None => Err(invalid("unknown permission request")),
    }
}

/// Goes back to waiting when an answer did not come through. The second part of
/// the answer says whether the intent changed.
pub fn abort_managed_permission_resolve(intent: ManagedExecutionIntent, now: i128) -> (r: (
    ManagedExecutionIntent,
    bool,
))
    ensures
        r.1 == (intent.state is Resolving),
        r.0 == if r.1 {
            ManagedExecutionIntent {
                state: ManagedIntentState::Parked,
                updated_at: now,
                ..intent
            }
        } else {
            intent
        },
{
    if intent.state == ManagedIntentState::Resolving {
        let mut intent: ManagedExecutionIntent = intent;
        intent.state = ManagedIntentState::Parked;
        intent.updated_at = now;
        (intent, true)
    } else {
        (intent, false)
    }
}

/// Why a permission's work cannot go on.
pub open spec fn resume_fault(
    intent: ManagedExecutionIntent,
    attempt: Option<WorkAttempt>,
) -> Option<Fault> {
    if intent.attempt_id is None {
        Some(conflict_fault("parked intent is missing an attempt"@))
    } else {
        match attempt {
            None => Some(conflict_fault("work attempt not found"@)),
            Some(a) => if !a.state.active() {
                Some(conflict_fault("work attempt is no longer active"@))
            } else {
                None
            },
        }
    }
}

/// An answered permission: the intent, the work and the attempt as they are to
/// be stored.
#[derive(Debug)]
pub struct ResolvedPermission {
    pub intent: ManagedExecutionIntent,
    pub item: WorkItem,
    pub attempt: WorkAttempt,
}

/// What letting work go on comes to.
pub open spec fn resolving(
    intent: Option<ManagedExecutionIntent>,
    scope: PermissionScope,
    item: Option<WorkItem>,
    attempt: Option<WorkAttempt>,
    now: i128,
    r: Result<ResolvedPermission, OrchError>,
) -> bool {
    match permission_fault(intent, scope, item) {
        Some(f) => refused(r, f),
        None => match resume_fault(intent->0, attempt) {
            Some(f) => refused(r, f),
            None => {
                let after_item = bumped(
                    WorkItem { state: WorkState::Running, blocked_reason: None, ..item->0 },
                    now,
                );
                let after = WorkAttempt {
                    state: AttemptState::Running,
                    updated_at: now,
                    ..attempt->0
                };
                match crate::error::first_fault(
                    storage_fault(attempt_fault(after)),
                    storage_fault(item_fault(after_item)),
                ) {
                    Some(f) => refused(r, f),
                    None => r == Ok::<ResolvedPermission, OrchError>(
                        ResolvedPermission {
                            intent: ManagedExecutionIntent {
                                state: ManagedIntentState::Admitted,
                                updated_at: now,
                                ..intent->0
                            },
                            item: after_item,
                            attempt: after,
                        },
                    ),
                }
            },
        },
    }
}

/// Lets work go on after its permission was answered.
pub fn resolve_parked_managed_permission(
    intent: Option<ManagedExecutionIntent>,
    scope: &PermissionScope,
    item: Option<WorkItem>,
    attempt: Option<WorkAttempt>,
    now: i128,
) -> (r: Result<ResolvedPermission, OrchError>)
    ensures
        resolving(
            intent,
            *scope,
            item,
            attempt,
            now,
            r,
        ),
{
    let mut intent: ManagedExecutionIntent = match intent {
        Some(i) => i,
        None => {
            return Err(invalid("unknown permission request"));
        },
    };
    inspect_parked_managed_permission(Some(&intent), scope, item.as_ref())?;
    if intent.attempt_id.is_none() {
        return Err(conflict("parked intent is missing an attempt"));
    }
    let mut item: WorkItem = match item {
        Some(i) => i,
        None => {
            return Err(conflict("work item not found"));
        },
    };
    let mut attempt: WorkAttempt = match attempt {
        Some(a) => a,
        None => {
            return Err(conflict("work attempt not found"));
        },
    };
    if !attempt.state.is_active() {
        return Err(conflict("work attempt is no longer active"));
    }
    item.state = WorkState::Running;
    item.blocked_reason = None;
    item.bump(now);
    attempt.state = AttemptState::Running;
    attempt.updated_at = now;
    let pair: (WorkItem, WorkAttempt) = store_both(item, attempt)?;
    intent.state = ManagedIntentState::Admitted;
    intent.updated_at = now;
    Ok(ResolvedPermission { intent, item: pair.0, attempt: pair.1 })
}

/// A permission is answered at most once: after it was, asking again is refused.
pub proof fn permissions_are_answered_once(
    intent: ManagedExecutionIntent,
    scope: PermissionScope,
    item: Option<WorkItem>,
    now: i128,
)
    ensures
        permission_fault(
            Some(
                ManagedExecutionIntent {
                    state: ManagedIntentState::Admitted,
                    updated_at: now,
                    ..intent
                },
            ),
            scope,
            item,
        ) is Some,
{
}

} // verus!
