//! What managed executions promise: how they end, what an end leaves of the work
//! and its attempt, and who may let them go on.

use crate::error::OrchError;
use crate::ledger_laws::is_open;
use crate::listing::{earliest, lists_each_once, number_ranks, numbers_are_ordered, zeros};
use crate::managed::{
    abandoned, attempt_settling, carries, claim_reconciled, closing, finalizing, intent_times,
    intents_listed, live_for, resolving, work_settling, IntentChange, ManagedExecutionIntent,
    ManagedFinalizationOutcome, ManagedFinalizationRecord, ManagedIntentState, ManagedRetryCause,
    PermissionScope, ResolvedPermission,
};
use crate::order::listed_before;
use crate::run::holds;
use crate::workload::{WorkAttempt, WorkItem, WorkResult};
use vstd::prelude::*;

verus! {

/// The execution is under way.
pub open spec fn is_under_way(i: ManagedExecutionIntent) -> bool {
    !(i.state is Finalized) && !(i.state is Abandoned)
}

/// Work whose end is known keeps it when its attempt is closed. Other work is
/// queued again if it may be tried again, and fails otherwise, for the reason
/// given. The attempt expired, unless it failed.
pub proof fn closed_attempts_keep_known_ends(
    intent: ManagedExecutionIntent,
    item: WorkItem,
    retry: bool,
    cause: ManagedRetryCause,
    reason: Seq<char>,
    now: i128,
    r: Result<Option<ManagedFinalizationRecord>, OrchError>,
)
    requires
        closing(Some(intent), Some(item), retry, cause, reason, now, r),
    ensures
        r is Ok,
        r->Ok_0 is Some <==> is_under_way(intent),
        r->Ok_0 matches Some(j) ==> {
            let known = item.state is Cancelled || item.state is Succeeded
                || item.state is AwaitingApproval;
            &&& j.intent_id == intent.intent_id
            &&& j.work_id == intent.work_id
            &&& j.attempt_id == intent.attempt_id
            &&& j.reason@ == reason
            &&& known ==> j.work_state == item.state && j.result == item.result
            &&& !known && retry ==> j.work_state is Queued && j.outcome is RetryQueued
                && j.result is None
            &&& !known && !retry ==> j.work_state is Failed && j.outcome is Failed
                && j.result is Some && holds(j.result->0.failure, reason)
            &&& item.state is Cancelled ==> j.outcome is Cancelled
            &&& item.state is Succeeded ==> j.outcome is Completed
            &&& cause is Failed ==> j.attempt_state is Failed
            &&& !(cause is Failed) ==> j.attempt_state is Expired
        },
{
}

/// An execution ends as it reports, unless the work was cancelled or succeeded
/// before: that stands. A failure always says why, and work to be tried again
/// keeps no result.
pub proof fn executions_end_as_reported(
    intent: ManagedExecutionIntent,
    item: WorkItem,
    outcome: ManagedFinalizationOutcome,
    reason: Seq<char>,
    result: Option<WorkResult>,
    now: i128,
    r: Result<Option<ManagedFinalizationRecord>, OrchError>,
)
    requires
        finalizing(Some(intent), Some(item), outcome, reason, result, now, r),
    ensures
        r is Ok,
        r->Ok_0 is Some <==> is_under_way(intent),
        r->Ok_0 matches Some(j) ==> {
            let stands = item.state is Cancelled || (item.state is Succeeded && !(
            outcome is Cancelled));
            &&& j.intent_id == intent.intent_id
            &&& j.work_id == intent.work_id
            &&& j.outcome == outcome
            &&& j.reason@ == reason
            &&& stands ==> j.work_state == item.state && j.result == item.result
            &&& item.state is Cancelled ==> j.attempt_state is Cancelled
            &&& !stands && outcome is Completed ==> j.work_state is Succeeded
                && j.attempt_state is Succeeded && j.result == result
            &&& !stands && outcome is AwaitingApproval ==> j.work_state is AwaitingApproval
                && j.attempt_state is AwaitingApproval && j.result == result
            &&& !stands && outcome is Failed ==> j.work_state is Failed && j.attempt_state is Failed
                && j.result is Some && (result is Some ==> j.result == result)
            &&& !stands && outcome is RetryQueued ==> j.work_state is Queued
                && j.attempt_state is Failed && j.result is None
            &&& !stands && outcome is Cancelled ==> j.work_state is Cancelled
                && j.attempt_state is Cancelled && j.result == result
        },
{
}

/// A journal closes an attempt that is open, in the state and for the reason it
/// names, and leaves a closed one alone.
pub proof fn journals_close_open_attempts(
    record: ManagedFinalizationRecord,
    attempt: WorkAttempt,
    now: i128,
    r: Result<Option<WorkAttempt>, OrchError>,
)
    requires
        attempt_settling(record, attempt, now, r),
    ensures
        !is_open(attempt) ==> r == Ok::<Option<WorkAttempt>, OrchError>(None),
        is_open(attempt) && r is Ok ==> r->Ok_0 is Some && r->Ok_0->0.state == record.attempt_state
            && holds(r->Ok_0->0.terminal_reason, record.reason@) && r->Ok_0->0.attempt_id
            == attempt.attempt_id,
        r is Err ==> is_open(attempt) && r->Err_0.code is Internal,
{
}

/// A journal brings work to the state it names, unless its end is known. Work that
/// is queued again starts afresh: without a result or a reason to be blocked.
pub proof fn journals_move_undecided_work(
    record: ManagedFinalizationRecord,
    item: WorkItem,
    now: i128,
    r: Result<Option<WorkItem>, OrchError>,
)
    requires
        work_settling(record, item, now, r),
    ensures
        item.state is Cancelled || item.state is Succeeded || item.state is AwaitingApproval ==> r
            == Ok::<Option<WorkItem>, OrchError>(None),
        !(item.state is Cancelled) && !(item.state is Succeeded) && !(
        item.state is AwaitingApproval) && r is Ok ==> {
            &&& r->Ok_0 is Some
            &&& r->Ok_0->0.state == record.work_state
            &&& r->Ok_0->0.work_id == item.work_id
            &&& r->Ok_0->0.attempt_count == item.attempt_count
            &&& record.work_state is Queued ==> r->Ok_0->0.result is None
                && r->Ok_0->0.blocked_reason is None
            &&& !(record.work_state is Queued) && record.result is None ==> r->Ok_0->0.result
                == item.result
            &&& !(record.work_state is Queued) && record.result is Some
                ==> r->Ok_0->0.result is Some && r->Ok_0->0.result->0.summary@
                == record.result->0.summary@
        },
{
}

/// An execution that is given up gives work back that was claimed and never
/// started, and only that: an execution with a run gives back nothing.
pub proof fn abandoned_claims_give_work_back(
    c: IntentChange,
    intent: ManagedExecutionIntent,
    attempt: Option<WorkAttempt>,
    item: Option<WorkItem>,
    now: i128,
)
    requires
        abandoned(c, intent, attempt, item, now),
    ensures
        intent.state is Finalized ==> c.intent == intent && c.released is None,
        !(intent.state is Finalized) ==> c.intent.state is Abandoned,
        c.linked is None,
        intent.run_id is Some ==> c.released is None,
        !(intent.state is Finalized) && intent.attempt_id is Some && intent.run_id is None
            && attempt is Some && is_open(attempt->0) && item is Some ==> c.released is Some,
        c.released matches Some((i, a)) ==> i.state is Queued && a.state is Released
            && intent.run_id is None && i.work_id == item->0.work_id && a.attempt_id
            == attempt->0.attempt_id,
{
}

/// A claim whose run is not there is given up; one that was not claiming any more
/// is left alone.
pub proof fn claims_without_a_run_are_given_up(
    c: IntentChange,
    intent: ManagedExecutionIntent,
    attempt: Option<WorkAttempt>,
    item: Option<WorkItem>,
    secret: Seq<char>,
    now: i128,
)
    requires
        claim_reconciled(c, intent, None, attempt, item, secret, now),
    ensures
        intent.state is Claiming ==> c.intent.state is Abandoned,
        !(intent.state is Claiming) ==> c.intent == intent && c.released is None
            && c.linked is None,
{
}

/// Work goes on only from the session and workspace it belongs to, while its
/// execution is parked or being answered, the work awaits input and its attempt
/// is open. All three then run.
pub proof fn answered_work_runs(
    intent: Option<ManagedExecutionIntent>,
    scope: PermissionScope,
    item: Option<WorkItem>,
    attempt: Option<WorkAttempt>,
    now: i128,
    r: Result<ResolvedPermission, OrchError>,
)
    requires
        resolving(intent, scope, item, attempt, now, r),
    ensures
        r is Ok ==> {
            &&& intent is Some
            &&& intent->0.session_id == scope.session_id
            &&& intent->0.workspace@ == scope.workspace@ || (scope.intent_resolved is Some
                && scope.workspace_resolved is Some && scope.intent_resolved->0@
                == scope.workspace_resolved->0@)
            &&& intent->0.state is Parked || intent->0.state is Resolving
            &&& item is Some
            &&& item->0.state is AwaitingInput
            &&& attempt is Some
            &&& is_open(attempt->0)
            &&& r->Ok_0.intent.state is Admitted
            &&& r->Ok_0.item.state is Running
            &&& r->Ok_0.item.blocked_reason is None
            &&& r->Ok_0.attempt.state is Running
            &&& r->Ok_0.attempt.lease_expires_at == attempt->0.lease_expires_at
        },
        intent is Some && intent->0.session_id != scope.session_id ==> r is Err
            && r->Err_0.code is ForbiddenScope,
        r is Err && intent is Some && intent->0.session_id == scope.session_id
            && intent->0.workspace@ == scope.workspace@ && (intent->0.state is Parked
            || intent->0.state is Resolving) && intent->0.attempt_id is Some && item is Some
            && item->0.state is AwaitingInput && attempt is Some && is_open(attempt->0)
            ==> r->Err_0.code is Internal,
{
}

proof fn live_are_under_way(intents: Seq<ManagedExecutionIntent>, agent_id: Seq<char>, n: int)
    requires
        0 <= n <= intents.len(),
    ensures
        live_for(intents, agent_id, n) == intents.take(n).filter(
            |i: ManagedExecutionIntent| i.agent_id@ == agent_id && is_under_way(i),
        ).len(),
    decreases n,
{
    reveal(Seq::filter);
    if n > 0 {
        live_are_under_way(intents, agent_id, n - 1);
        assert(intents.take(n).drop_last() =~= intents.take(n - 1));
        assert(intents.take(n).last() == intents[n - 1]);
    }
}

/// What is counted for an agent are its executions that are under way.
pub proof fn executions_under_way_are_counted(
    intents: Seq<ManagedExecutionIntent>,
    agent_id: Seq<char>,
)
    ensures
        live_for(intents, agent_id, intents.len() as int) == intents.filter(
            |i: ManagedExecutionIntent| i.agent_id@ == agent_id && is_under_way(i),
        ).len(),
{
    live_are_under_way(intents, agent_id, intents.len() as int);
    assert(intents.take(intents.len() as int) =~= intents);
}

/// Executions are listed in the order in which they were created.
pub proof fn executions_are_listed_oldest_first(
    intents: Seq<ManagedExecutionIntent>,
    order: Seq<usize>,
)
    requires
        intents_listed(intents, order),
        intents.len() <= usize::MAX,
    ensures
        lists_each_once(intents.len(), order),
        forall|i: int, j: int|
            0 <= i < j < order.len() ==> intents[#[trigger] order[i] as int].created_at
                <= intents[#[trigger] order[j] as int].created_at,
{
    let keys = number_ranks(earliest(intent_times(intents)), zeros(intents.len()));
    numbers_are_ordered(earliest(intent_times(intents)), zeros(intents.len()));
    assert forall|i: int, j: int| 0 <= i < j < order.len() implies intents[
        #[trigger] order[i] as int].created_at <= intents[
    #[trigger] order[j] as int].created_at by {
        assert(listed_before(keys, order[i] as int, order[j] as int));
    }
}

/// An execution is found for work exactly where one that is not over carries
/// it, and then the first of them.
pub proof fn work_is_carried_by_one_under_way(
    intents: Seq<ManagedExecutionIntent>,
    work_id: Seq<char>,
    k: int,
)
    requires
        0 <= k < intents.len(),
    ensures
        carries(intents[k], work_id) <==> intents[k].work_id@ == work_id && match intents[k].state {
            ManagedIntentState::Claiming | ManagedIntentState::Admitted
            | ManagedIntentState::Parked | ManagedIntentState::Resolving => true,
            ManagedIntentState::Finalized | ManagedIntentState::Abandoned => false,
        },
{
}

} // verus!
