//! What the ledger promises of work: where each step leaves the item and its
//! attempts, and who may take it.

use crate::error::OrchError;
use crate::ledger::{
    approving, authorizing, cancelled_attempts, cancelling, completing, counted_item,
    dependencies_met, drained, drained_item, ended, expired, expiry_state, failing, granting,
    linked, linking, none_live, parking, preparing, progressing, reconciling, refreshed, releasing,
    renewing, retrying, sealing, stale, state_reconciling, tallied, Admission, LeaseCredential, Tally,
};
use crate::run::holds;
use crate::workload::{
    lease_live, result_fault, same_result, token_digest, AttemptState, BlockProvenance,
    WorkApproval, WorkAttempt, WorkItem, WorkProgress, WorkResult, WorkState,
    WorkloadReconciliationReport, LAST_LEASE_START,
};
use vstd::prelude::*;

verus! {

/// The attempt still holds or awaits something: it was not closed.
pub open spec fn is_open(a: WorkAttempt) -> bool {
    match a.state {
        AttemptState::Leased | AttemptState::Running | AttemptState::AwaitingInput
        | AttemptState::AwaitingApproval | AttemptState::Review => true,
        AttemptState::Released | AttemptState::Expired | AttemptState::Succeeded
        | AttemptState::Failed | AttemptState::Cancelled => false,
    }
}

/// The work is over.
pub open spec fn is_over(i: WorkItem) -> bool {
    i.state is Succeeded || i.state is Failed || i.state is Cancelled
}

/// The token opens the attempt's lease at `now`: it is the one whose digest the
/// attempt keeps, the attempt is not closed and its lease has not run out.
pub open spec fn opens(token: Seq<char>, a: WorkAttempt, now: i128) -> bool {
    a.lease_token_hash@ == token_digest(token) && is_open(a) && now < a.lease_expires_at
}

/// The holder of this token may act on this item through this attempt.
pub open spec fn may_act(
    item: Option<WorkItem>,
    attempt: Option<WorkAttempt>,
    token: Seq<char>,
    now: i128,
) -> bool {
    &&& item is Some
    &&& attempt is Some
    &&& attempt->0.work_id@ == item->0.work_id@
    &&& opens(token, attempt->0, now)
}

/// No deadline of the item has come.
pub open spec fn in_time(i: WorkItem, now: i128) -> bool {
    i.deadline is None || now < i.deadline->0
}

/// Every dependency of the item is in the state it must reach.
pub open spec fn all_reached(i: WorkItem, states: Seq<Option<WorkState>>) -> bool {
    forall|d: int|
        0 <= d < i.dependencies@.len() ==> #[trigger] states[d] == Some(
            i.dependencies@[d].required_state,
        )
}

proof fn reached_is_met(i: WorkItem, states: Seq<Option<WorkState>>)
    ensures
        dependencies_met(i, states) == all_reached(i, states),
{
    if dependencies_met(i, states) {
        assert forall|d: int| 0 <= d < i.dependencies@.len() implies #[trigger] states[d] == Some(
            i.dependencies@[d].required_state,
        ) by {}
    }
    if all_reached(i, states) {
        assert forall|d: int| 0 <= d < i.dependencies@.len() implies states[d] == Some(
            (#[trigger] i.dependencies@[d]).required_state,
        ) by {}
    }
}

proof fn nothing_to_drain(
    item: WorkItem,
    attempts: Seq<WorkAttempt>,
    k: int,
    guarded: bool,
    now: i128,
)
    requires
        0 <= k <= attempts.len(),
        forall|a: int| 0 <= a < k ==> !stale(#[trigger] attempts[a], now),
    ensures
        drained(item, attempts, k, guarded, now) == (Tally {
            state: item.state,
            steps: 0,
            retried: 0,
            failures: 0,
            stale: 0,
            failed: false,
        }),
    decreases k,
{
    if k > 0 {
        nothing_to_drain(item, attempts, k - 1, guarded, now);
        assert(!stale(attempts[k - 1], now));
    }
}

/// The attempt lost its lease: it is not closed, and its lease ran out.
pub open spec fn ran_out(a: WorkAttempt, now: i128) -> bool {
    is_open(a) && a.lease_expires_at <= now
}

/// Reconciling queues work whose dependencies are all where they must be, and
/// blocks work of which one is not. It moves only work that waits, and not what
/// a person blocked, and it counts what it moved.
pub proof fn reconciling_follows_dependencies(
    item: WorkItem,
    after: WorkItem,
    attempts: Seq<WorkAttempt>,
    left: Seq<WorkAttempt>,
    states: Seq<Option<WorkState>>,
    reason: Seq<char>,
    now: i128,
    report: WorkloadReconciliationReport,
    counted: WorkloadReconciliationReport,
)
    requires
        reconciling(item, after, attempts, left, states, reason, now, report, counted),
        !item.is_container,
        in_time(item, now),
        item.state is Queued || (item.state is Blocked && item.block_provenance != Some(
            BlockProvenance::Manual,
        )),
        forall|k: int| 0 <= k < attempts.len() ==> !ran_out(#[trigger] attempts[k], now),
        report.unblocked_items < usize::MAX,
        report.blocked_items < usize::MAX,
    ensures
        all_reached(item, states) ==> after.state is Queued,
        !all_reached(item, states) ==> after.state is Blocked,
        counted.unblocked_items == report.unblocked_items + if item.state is Blocked
            && all_reached(item, states) {
            1int
        } else {
            0int
        },
        counted.blocked_items == report.blocked_items + if item.state is Queued && !all_reached(
            item,
            states,
        ) {
            1int
        } else {
            0int
        },
        counted.failed_items == report.failed_items,
        counted.expired_attempts == report.expired_attempts,
        left =~= attempts,
        holds(after.blocked_reason, reason),
{
    reached_is_met(item, states);
    let mid = choose|mid: WorkItem|
        {
            let t = drained(mid, attempts, attempts.len() as int, true, now);
            &&& #[trigger] refreshed(
                item,
                mid,
                dependencies_met(item, states),
                reason,
                now,
            )
            &&& drained_item(mid, after, t, now)
            &&& counted == tallied(
                counted_item(report, item, mid, now),
                t,
            )
        };
    assert forall|a: int| 0 <= a < attempts.len() implies !stale(#[trigger] attempts[a], now) by {
        assert(!ran_out(attempts[a], now));
    }
    nothing_to_drain(mid, attempts, attempts.len() as int, true, now);
    assert forall|a: int| 0 <= a < attempts.len() implies left[a] == attempts[a] by {
        assert(!stale(attempts[a], now));
        assert(if stale(attempts[a], now) {
            expired(attempts[a], left[a], now)
        } else {
            left[a] == attempts[a]
        });
    }
}

/// Reconciling leaves alone what is over, what only groups other work, what a
/// person blocked, and work under way whose leases run.
pub proof fn reconciling_leaves_the_rest(
    item: WorkItem,
    after: WorkItem,
    attempts: Seq<WorkAttempt>,
    left: Seq<WorkAttempt>,
    states: Seq<Option<WorkState>>,
    reason: Seq<char>,
    now: i128,
    report: WorkloadReconciliationReport,
    counted: WorkloadReconciliationReport,
)
    requires
        reconciling(item, after, attempts, left, states, reason, now, report, counted),
        forall|k: int| 0 <= k < attempts.len() ==> !ran_out(#[trigger] attempts[k], now),
    ensures
        is_over(item) || item.is_container ==> after == item,
        in_time(item, now) && !is_over(item) && !(item.state is Queued) && !(
        item.state is Blocked) ==> after.state == item.state && after.result == item.result
            && after.revision == item.revision,
        in_time(item, now) && item.state is Blocked && item.block_provenance == Some(
            BlockProvenance::Manual,
        ) ==> after == item,
{
    let mid = choose|mid: WorkItem|
        {
            let t = drained(mid, attempts, attempts.len() as int, true, now);
            &&& #[trigger] refreshed(
                item,
                mid,
                dependencies_met(item, states),
                reason,
                now,
            )
            &&& drained_item(mid, after, t, now)
        };
    assert forall|a: int| 0 <= a < attempts.len() implies !stale(#[trigger] attempts[a], now) by {
        assert(!ran_out(attempts[a], now));
    }
    nothing_to_drain(mid, attempts, attempts.len() as int, true, now);
}

/// Work whose deadline has come, and that is not over, fails, and says so.
pub proof fn overdue_work_fails(
    item: WorkItem,
    after: WorkItem,
    attempts: Seq<WorkAttempt>,
    left: Seq<WorkAttempt>,
    states: Seq<Option<WorkState>>,
    reason: Seq<char>,
    now: i128,
    report: WorkloadReconciliationReport,
    counted: WorkloadReconciliationReport,
)
    requires
        reconciling(item, after, attempts, left, states, reason, now, report, counted),
        !item.is_container,
        !is_over(item),
        item.deadline is Some,
        item.deadline->0 <= now,
    ensures
        after.state is Failed,
        after.result is Some,
        after.result->0.summary@ == "work item deadline exceeded"@,
        holds(after.result->0.failure, "work item deadline exceeded"@),
{
    let mid = choose|mid: WorkItem|
        {
            let t = drained(mid, attempts, attempts.len() as int, true, now);
            &&& #[trigger] refreshed(
                item,
                mid,
                dependencies_met(item, states),
                reason,
                now,
            )
            &&& drained_item(mid, after, t, now)
        };
    over_stays_over(mid, attempts, attempts.len() as int, now);
}

proof fn over_stays_over(item: WorkItem, attempts: Seq<WorkAttempt>, k: int, now: i128)
    requires
        is_over(item),
        0 <= k <= attempts.len(),
    ensures
        drained(item, attempts, k, true, now).state == item.state,
        drained(item, attempts, k, true, now).steps == 0,
        !drained(item, attempts, k, true, now).failed,
    decreases k,
{
    if k > 0 {
        over_stays_over(item, attempts, k - 1, now);
    }
}

proof fn one_to_drain(
    item: WorkItem,
    attempts: Seq<WorkAttempt>,
    k: int,
    n: int,
    now: i128,
)
    requires
        !is_over(item),
        0 <= k < n <= attempts.len(),
        stale(attempts[k], now),
        forall|a: int| 0 <= a < n && a != k ==> !stale(#[trigger] attempts[a], now),
    ensures
        drained(item, attempts, n, true, now).state == expiry_state(
            item.policy.retry,
            attempts[k].attempt_number,
        ),
        drained(item, attempts, n, true, now).stale == 1,
    decreases n,
{
    if n - 1 == k {
        nothing_to_drain(item, attempts, k, true, now);
    } else {
        assert(!stale(attempts[n - 1], now));
        one_to_drain(item, attempts, k, n - 1, now);
    }
}

/// A lease that runs out closes its attempt, and no other. The work goes back to
/// the queue while its policy repeats what expired and attempts are left, and
/// fails otherwise.
pub proof fn expired_leases_are_retried_within_the_budget(
    item: WorkItem,
    after: WorkItem,
    attempts: Seq<WorkAttempt>,
    left: Seq<WorkAttempt>,
    states: Seq<Option<WorkState>>,
    reason: Seq<char>,
    now: i128,
    report: WorkloadReconciliationReport,
    counted: WorkloadReconciliationReport,
    k: int,
)
    requires
        reconciling(item, after, attempts, left, states, reason, now, report, counted),
        !item.is_container,
        !is_over(item),
        in_time(item, now),
        0 <= k < attempts.len(),
        ran_out(attempts[k], now),
        forall|a: int| 0 <= a < attempts.len() && a != k ==> !ran_out(#[trigger] attempts[a], now),
        report.expired_attempts < usize::MAX,
    ensures
        left.len() == attempts.len(),
        left[k].state is Expired,
        holds(left[k].terminal_reason, "lease expired"@),
        forall|a: int| 0 <= a < attempts.len() && a != k ==> #[trigger] left[a] == attempts[a],
        item.policy.retry.retry_expired && attempts[k].attempt_number
            < item.policy.retry.max_attempts ==> after.state is Queued,
        !item.policy.retry.retry_expired || attempts[k].attempt_number
            >= item.policy.retry.max_attempts ==> after.state is Failed,
        counted.expired_attempts == report.expired_attempts + 1,
{
    let mid = choose|mid: WorkItem|
        {
            let t = drained(mid, attempts, attempts.len() as int, true, now);
            &&& #[trigger] refreshed(
                item,
                mid,
                dependencies_met(item, states),
                reason,
                now,
            )
            &&& drained_item(mid, after, t, now)
            &&& counted == tallied(
                counted_item(report, item, mid, now),
                t,
            )
        };
    assert forall|a: int| 0 <= a < attempts.len() && a != k implies !stale(
        #[trigger] attempts[a],
        now,
    ) by {
        assert(!ran_out(attempts[a], now));
    }
    one_to_drain(mid, attempts, k, attempts.len() as int, now);
    assert forall|a: int| 0 <= a < attempts.len() implies if stale(attempts[a], now) {
        expired(attempts[a], #[trigger] left[a], now)
    } else {
        left[a] == attempts[a]
    } by {}
    assert(stale(attempts[k], now));
    assert(expired(attempts[k], left[k], now));
}

/// Every attempt whose lease ran out is closed by a pass, whatever else there is.
pub proof fn reconciling_closes_what_ran_out(
    item: WorkItem,
    after: WorkItem,
    attempts: Seq<WorkAttempt>,
    left: Seq<WorkAttempt>,
    states: Seq<Option<WorkState>>,
    reason: Seq<char>,
    now: i128,
    report: WorkloadReconciliationReport,
    counted: WorkloadReconciliationReport,
    k: int,
)
    requires
        reconciling(item, after, attempts, left, states, reason, now, report, counted),
        0 <= k < attempts.len(),
    ensures
        left.len() == attempts.len(),
        ran_out(attempts[k], now) ==> left[k].state is Expired,
        !ran_out(attempts[k], now) ==> left[k] == attempts[k],
{
    assert(if stale(attempts[k], now) {
        expired(attempts[k], left[k], now)
    } else {
        left[k] == attempts[k]
    });
}

/// A lease is granted only on queued work that the graph admits, within the
/// budget of attempts. The claimant gets the next attempt, for the time asked
/// for, and the work is leased.
pub proof fn grants_follow_the_policy(
    item: WorkItem,
    r: Result<(WorkItem, WorkAttempt, String), OrchError>,
    admission: Admission,
    assignment: Option<OrchError>,
    claimant_id: Seq<char>,
    attempt_id: Seq<char>,
    credential: LeaseCredential,
    lease: i128,
    now: i128,
)
    requires
        granting(
            item,
            r,
            admission,
            assignment,
            claimant_id,
            attempt_id,
            credential,
            lease,
            now,
        ),
        0 < lease <= 3_600_000_000_000,
        now <= LAST_LEASE_START,
    ensures
        r is Ok ==> {
            &&& item.state is Queued
            &&& admission.admissible
            &&& assignment is None
            &&& item.attempt_count < item.policy.retry.max_attempts
            &&& r->Ok_0.0.state is Leased
            &&& r->Ok_0.0.attempt_count == item.attempt_count + 1
            &&& r->Ok_0.0.work_id == item.work_id
            &&& r->Ok_0.1.state is Leased
            &&& r->Ok_0.1.attempt_id@ == attempt_id
            &&& r->Ok_0.1.work_id@ == item.work_id@
            &&& r->Ok_0.1.claimant_id@ == claimant_id
            &&& r->Ok_0.1.attempt_number == item.attempt_count + 1
            &&& r->Ok_0.1.acquired_at == now
            &&& r->Ok_0.1.lease_expires_at == now + lease
            &&& opens(r->Ok_0.2@, r->Ok_0.1, now)
            &&& credential matches LeaseCredential::Token(t) ==> r->Ok_0.2@ == t@
        },
        !(item.state is Queued) || !admission.admissible || item.attempt_count
            >= item.policy.retry.max_attempts ==> r is Err && (assignment is None
            ==> r->Err_0.code is Conflict),
        assignment is Some ==> r is Err,
        r is Err && item.state is Queued && admission.admissible && assignment is None
            && item.attempt_count < item.policy.retry.max_attempts
            ==> r->Err_0.code is Internal,
{
}

/// Only the holder of a live lease acts on work; a wrong token is forbidden, and
/// a lease that is over is a conflict.
pub proof fn tokens_open_their_lease_only(
    item: Option<WorkItem>,
    attempt: Option<WorkAttempt>,
    token: Seq<char>,
    now: i128,
    r: Result<(WorkItem, WorkAttempt), OrchError>,
)
    requires
        authorizing(item, attempt, token, now, r),
    ensures
        r is Ok <==> may_act(item, attempt, token, now),
        r is Ok ==> r->Ok_0.0 == item->0 && r->Ok_0.1 == attempt->0,
        item is Some && attempt is Some && attempt->0.work_id@ == item->0.work_id@
            && attempt->0.lease_token_hash@ != token_digest(token) ==> r->Err_0.code is ForbiddenScope,
        item is Some && attempt is Some && attempt->0.work_id@ != item->0.work_id@
            ==> r->Err_0.code is ForbiddenScope,
        item is Some && attempt is Some && attempt->0.work_id@ == item->0.work_id@
            && attempt->0.lease_token_hash@ == token_digest(token) && !(is_open(attempt->0) && now
            < attempt->0.lease_expires_at) ==> r->Err_0.code is Conflict,
        item is None || attempt is None ==> r->Err_0.code is Conflict,
{
}

/// A failure is recorded for the holder of the lease only. It closes the
/// attempt; the work is queued again while its policy repeats failures and the
/// attempt is not the last one allowed, and fails otherwise.
pub proof fn failures_are_retried_within_the_budget(
    item: Option<WorkItem>,
    attempt: Option<WorkAttempt>,
    token: Seq<char>,
    result: WorkResult,
    now: i128,
    r: Result<(WorkItem, WorkAttempt), OrchError>,
)
    requires
        failing(item, attempt, token, result, now, r),
    ensures
        r is Ok ==> {
            let retry = item->0.policy.retry;
            let n = attempt->0.attempt_number;
            &&& may_act(item, attempt, token, now)
            &&& retry.retry_failed && n < retry.max_attempts ==> r->Ok_0.0.state is Queued
            &&& !retry.retry_failed || n >= retry.max_attempts ==> r->Ok_0.0.state is Failed
            &&& r->Ok_0.0.result == Some(result)
            &&& r->Ok_0.0.work_id == item->0.work_id
            &&& r->Ok_0.0.attempt_count == item->0.attempt_count
            &&& r->Ok_0.1.state is Failed
            &&& r->Ok_0.1.terminal_reason == result.failure
            &&& r->Ok_0.1.result is Some
            &&& same_result(r->Ok_0.1.result->0, result)
            &&& r->Ok_0.1.attempt_id == attempt->0.attempt_id
        },
        may_act(item, attempt, token, now) && result_fault(result) is None && r is Err
            ==> r->Err_0.code is Internal,
        !may_act(item, attempt, token, now) ==> r is Err,
{
}

/// Completed work has succeeded, or awaits an approval where its policy asks
/// for one; its attempt with it. Only the holder of the lease completes it.
pub proof fn completions_await_the_approval_they_owe(
    item: Option<WorkItem>,
    attempt: Option<WorkAttempt>,
    token: Seq<char>,
    result: WorkResult,
    now: i128,
    r: Result<(WorkItem, WorkAttempt), OrchError>,
)
    requires
        completing(item, attempt, token, result, now, r),
    ensures
        r is Ok ==> {
            &&& may_act(item, attempt, token, now)
            &&& item->0.policy.requires_approval ==> r->Ok_0.0.state is AwaitingApproval
                && r->Ok_0.1.state is AwaitingApproval
            &&& !item->0.policy.requires_approval ==> r->Ok_0.0.state is Succeeded
                && r->Ok_0.1.state is Succeeded
            &&& r->Ok_0.0.result == Some(result)
            &&& r->Ok_0.0.work_id == item->0.work_id
            &&& r->Ok_0.1.result is Some
            &&& same_result(r->Ok_0.1.result->0, result)
            &&& r->Ok_0.1.attempt_id == attempt->0.attempt_id
        },
        may_act(item, attempt, token, now) && result_fault(result) is None && r is Err
            ==> r->Err_0.code is Internal,
        !may_act(item, attempt, token, now) ==> r is Err,
{
}

/// Released work is queued again and its attempt is closed, whatever the policy
/// says of retries.
pub proof fn released_work_is_queued(
    item: Option<WorkItem>,
    attempt: Option<WorkAttempt>,
    token: Seq<char>,
    reason: Seq<char>,
    now: i128,
    r: Result<(WorkItem, WorkAttempt), OrchError>,
)
    requires
        releasing(item, attempt, token, reason, now, r),
    ensures
        r is Ok ==> {
            &&& may_act(item, attempt, token, now)
            &&& r->Ok_0.0.state is Queued
            &&& r->Ok_0.0.attempt_count == item->0.attempt_count
            &&& r->Ok_0.1.state is Released
            &&& holds(r->Ok_0.1.terminal_reason, reason)
        },
        may_act(item, attempt, token, now) && r is Err ==> r->Err_0.code is Internal,
        !may_act(item, attempt, token, now) ==> r is Err,
{
}

/// A renewed lease runs for the time asked for from now on, and only its holder
/// renews it. A lease of no length or of more than an hour is refused.
pub proof fn renewals_start_from_now(
    item: Option<WorkItem>,
    attempt: Option<WorkAttempt>,
    token: Seq<char>,
    lease_ms: Option<u64>,
    now: i128,
    r: Result<WorkAttempt, OrchError>,
)
    requires
        renewing(item, attempt, token, lease_ms, now, r),
        now <= LAST_LEASE_START,
    ensures
        r is Ok ==> {
            &&& may_act(item, attempt, token, now)
            &&& lease_ms matches Some(ms) ==> 0 < ms <= 3_600_000 && r->Ok_0.lease_expires_at
                == now + ms * 1_000_000
            &&& lease_ms is None ==> r->Ok_0.lease_expires_at > now
            &&& r->Ok_0.last_heartbeat_at == now
            &&& r->Ok_0.state == attempt->0.state
            &&& opens(token, r->Ok_0, now)
        },
        !may_act(item, attempt, token, now) ==> r is Err,
        lease_ms == Some(0u64) ==> r is Err,
        may_act(item, attempt, token, now) && lease_ms is Some && 0 < lease_ms->0 <= 3_600_000
            && r is Err ==> r->Err_0.code is Internal,
{
}

/// A linked run is on the attempt's list from then on, what was linked before
/// stays, and the attempt runs. Linking a run again changes no list.
pub proof fn linked_runs_stay_linked(
    item: Option<WorkItem>,
    attempt: Option<WorkAttempt>,
    token: Seq<char>,
    run_id: Seq<char>,
    now: i128,
    r: Result<WorkAttempt, OrchError>,
)
    requires
        linking(item, attempt, token, run_id, now, r),
    ensures
        r is Ok ==> {
            &&& may_act(item, attempt, token, now)
            &&& exists|i: int|
                0 <= i < r->Ok_0.linked_run_ids@.len() && (
                #[trigger] r->Ok_0.linked_run_ids@[i])@ == run_id
            &&& forall|i: int|
                0 <= i < attempt->0.linked_run_ids@.len() ==> r->Ok_0.linked_run_ids@[i]
                    == #[trigger] attempt->0.linked_run_ids@[i]
            &&& r->Ok_0.linked_run_ids@.len() <= attempt->0.linked_run_ids@.len() + 1
            &&& (exists|i: int|
                0 <= i < attempt->0.linked_run_ids@.len() && (
                #[trigger] attempt->0.linked_run_ids@[i])@ == run_id)
                ==> r->Ok_0.linked_run_ids@ == attempt->0.linked_run_ids@
            &&& attempt->0.state is Leased ==> r->Ok_0.state is Running
            &&& !(attempt->0.state is Leased) ==> r->Ok_0.state == attempt->0.state
        },
        !may_act(item, attempt, token, now) ==> r is Err,
{
    if r is Ok {
        let after = r->Ok_0;
        let before = attempt->0;
        if linked(before.linked_run_ids@, run_id) {
            let i = choose|i: int|
                0 <= i < before.linked_run_ids@.len() && (#[trigger] before.linked_run_ids@[i])@
                    == run_id;
            assert(after.linked_run_ids@[i]@ == run_id);
        } else {
            let n = after.linked_run_ids@.len() - 1;
            assert(after.linked_run_ids@[n]@ == run_id);
            assert forall|i: int| 0 <= i < before.linked_run_ids@.len() implies after.linked_run_ids@[i]
                == #[trigger] before.linked_run_ids@[i] by {
                assert(after.linked_run_ids@.drop_last()[i] == after.linked_run_ids@[i]);
            }
        }
    }
}

/// A report of progress leaves work and attempt running, with that progress and
/// a fresh heartbeat, and the lease as it was.
pub proof fn progress_keeps_the_lease(
    item: Option<WorkItem>,
    attempt: Option<WorkAttempt>,
    token: Seq<char>,
    progress: WorkProgress,
    now: i128,
    r: Result<(WorkItem, WorkAttempt), OrchError>,
)
    requires
        progressing(item, attempt, token, progress, now, r),
    ensures
        r is Ok ==> {
            &&& may_act(item, attempt, token, now)
            &&& r->Ok_0.0.state is Running
            &&& r->Ok_0.1.state is Running
            &&& r->Ok_0.0.progress == Some(progress)
            &&& r->Ok_0.1.progress == Some(progress)
            &&& r->Ok_0.1.last_heartbeat_at == now
            &&& r->Ok_0.1.lease_expires_at == attempt->0.lease_expires_at
            &&& opens(token, r->Ok_0.1, now)
        },
        !may_act(item, attempt, token, now) ==> r is Err,
{
}

/// Parked work awaits its answer under the same lease.
pub proof fn parked_work_keeps_its_lease(
    item: Option<WorkItem>,
    attempt: Option<WorkAttempt>,
    token: Seq<char>,
    reason: Seq<char>,
    now: i128,
    r: Result<(WorkItem, WorkAttempt), OrchError>,
)
    requires
        parking(item, attempt, token, reason, now, r),
    ensures
        r is Ok ==> {
            &&& may_act(item, attempt, token, now)
            &&& r->Ok_0.0.state is AwaitingInput
            &&& holds(r->Ok_0.0.blocked_reason, reason)
            &&& r->Ok_0.1.state is AwaitingInput
            &&& r->Ok_0.1.lease_expires_at == attempt->0.lease_expires_at
            &&& opens(token, r->Ok_0.1, now)
        },
        !may_act(item, attempt, token, now) ==> r is Err,
{
}

/// Only failed work with attempts left is reopened. It is queued without its
/// old result and approval, and keeps its count of attempts.
pub proof fn only_failed_work_is_reopened(
    item: Option<WorkItem>,
    reason: Seq<char>,
    expected_revision: Option<u64>,
    now: i128,
    r: Result<WorkItem, OrchError>,
)
    requires
        retrying(item, reason, expected_revision, now, r),
    ensures
        r is Ok ==> {
            &&& item is Some
            &&& item->0.state is Failed
            &&& item->0.attempt_count < item->0.policy.retry.max_attempts
            &&& expected_revision is Some ==> expected_revision->0 == item->0.revision
            &&& r->Ok_0.state is Queued
            &&& r->Ok_0.result is None
            &&& r->Ok_0.approval is None
            &&& r->Ok_0.attempt_count == item->0.attempt_count
        },
        item is Some && expected_revision is Some && expected_revision->0 != item->0.revision
            ==> r is Err && r->Err_0.code is StaleVersion,
        item is Some && (expected_revision is None || expected_revision->0 == item->0.revision)
            && (!(item->0.state is Failed) || item->0.attempt_count
            >= item->0.policy.retry.max_attempts) ==> r is Err && r->Err_0.code is Conflict,
{
}

/// Only work that awaits its approval is approved, through an attempt that
/// awaits it too; both have then succeeded, and the approval is on record.
pub proof fn approvals_release_what_awaits_them(
    refusal: Option<OrchError>,
    item: Option<WorkItem>,
    attempts: Seq<WorkAttempt>,
    approval: WorkApproval,
    expected_revision: Option<u64>,
    now: i128,
    r: Result<(WorkItem, WorkAttempt), OrchError>,
)
    requires
        approving(refusal, item, attempts, approval, expected_revision, now, r),
    ensures
        r is Ok ==> {
            &&& refusal is None
            &&& item is Some
            &&& item->0.state is AwaitingApproval
            &&& expected_revision is Some ==> expected_revision->0 == item->0.revision
            &&& r->Ok_0.0.state is Succeeded
            &&& r->Ok_0.0.approval == Some(approval)
            &&& r->Ok_0.0.result == item->0.result
            &&& r->Ok_0.1.state is Succeeded
            &&& exists|k: int|
                0 <= k < attempts.len() && (#[trigger] attempts[k]).state is AwaitingApproval
                    && attempts[k].attempt_id == r->Ok_0.1.attempt_id && forall|j: int|
                    k < j < attempts.len() ==> !((#[trigger] attempts[j]).state is AwaitingApproval)
        },
        refusal is Some ==> r is Err && r->Err_0.code == refusal->0.code,
        refusal is None && item is Some && !(item->0.state is AwaitingApproval) ==> r is Err,
{
}

/// Sealing fails queued work for the reason given, and leaves all other work
/// alone.
pub proof fn sealing_touches_queued_work_only(
    item: WorkItem,
    reason: Seq<char>,
    now: i128,
    r: Result<WorkItem, OrchError>,
)
    requires
        sealing(item, reason, now, r),
    ensures
        item.state is Queued && r is Ok ==> r->Ok_0.state is Failed && r->Ok_0.result is Some
            && holds(r->Ok_0.result->0.failure, reason),
        item.state is Queued && r is Err ==> r->Err_0.code is Internal,
        !(item.state is Queued) ==> r == Ok::<WorkItem, OrchError>(item),
{
}

/// Cancelling leaves nothing open: the work is cancelled with every attempt that
/// was not closed, and closed attempts stay as they ended. Work that is over
/// stays as it is.
pub proof fn cancelling_leaves_nothing_open(
    item: Option<WorkItem>,
    attempts: Vec<WorkAttempt>,
    reason: Seq<char>,
    expected_revision: Option<u64>,
    now: i128,
    r: Result<(WorkItem, Vec<WorkAttempt>), OrchError>,
)
    requires
        cancelling(item, attempts, reason, expected_revision, now, r),
    ensures
        r is Ok && is_over(item->0) ==> r->Ok_0.0 == item->0 && r->Ok_0.1 == attempts,
        r is Ok && !is_over(item->0) ==> {
            &&& r->Ok_0.0.state is Cancelled
            &&& r->Ok_0.0.result is Some
            &&& holds(r->Ok_0.0.result->0.cancellation_reason, reason)
            &&& r->Ok_0.1@.len() == attempts@.len()
            &&& forall|k: int|
                0 <= k < attempts@.len() ==> if is_open(attempts@[k]) {
                    (#[trigger] r->Ok_0.1@[k]).state is Cancelled && holds(
                        r->Ok_0.1@[k].terminal_reason,
                        reason,
                    ) && r->Ok_0.1@[k].attempt_id == attempts@[k].attempt_id
                } else {
                    r->Ok_0.1@[k] == attempts@[k]
                }
        },
        item is Some && expected_revision is Some && expected_revision->0 != item->0.revision
            ==> r is Err && r->Err_0.code is StaleVersion,
        item is None ==> r is Err,
{
    if r is Ok && !is_over(item->0) {
        let i = item->0;
        assert(!i.state.terminal());
        let list = r->Ok_0.1@;
        assert(cancelled_attempts(attempts@, list, reason, now));
        assert forall|k: int| 0 <= k < attempts@.len() implies if is_open(attempts@[k]) {
            (#[trigger] list[k]).state is Cancelled && holds(list[k].terminal_reason, reason)
                && list[k].attempt_id == attempts@[k].attempt_id
        } else {
            list[k] == attempts@[k]
        } by {
            assert(if attempts@[k].state.active() {
                ended(
                    attempts@[k],
                    list[k],
                    AttemptState::Cancelled,
                    reason,
                    now,
                )
            } else {
                list[k] == attempts@[k]
            });
        }
    }
}

/// A claim is refused while an attempt holds a lease that runs, and only then;
/// work that merely groups other work is never claimed. Preparing closes what
/// ran out.
pub proof fn claims_wait_for_running_leases(
    item: WorkItem,
    after: WorkItem,
    attempts: Seq<WorkAttempt>,
    left: Seq<WorkAttempt>,
    p: Result<(), OrchError>,
    states: Seq<Option<WorkState>>,
    reason: Seq<char>,
    now: i128,
)
    requires
        preparing(item, after, attempts, left, p, states, reason, now),
    ensures
        item.is_container ==> p is Err && p->Err_0.code is Conflict,
        !item.is_container ==> (p is Err <==> exists|k: int|
            0 <= k < attempts.len() && is_open(#[trigger] attempts[k]) && now
                < attempts[k].lease_expires_at),
        p is Err ==> p->Err_0.code is Conflict && left == attempts,
        p is Ok ==> forall|k: int| 0 <= k < left.len() ==> !is_open(#[trigger] left[k]),
{
    if !item.is_container {
        if exists|k: int|
            0 <= k < attempts.len() && is_open(#[trigger] attempts[k]) && now
                < attempts[k].lease_expires_at {
            let k = choose|k: int|
                0 <= k < attempts.len() && is_open(#[trigger] attempts[k]) && now
                    < attempts[k].lease_expires_at;
            assert(lease_live(attempts[k], now));
        } else {
            assert forall|j: int| 0 <= j < attempts.len() implies !lease_live(
                #[trigger] attempts[j],
                now,
            ) by {
                assert(is_open(attempts[j]) == attempts[j].state.active());
            }
            assert(none_live(attempts, now));
            assert forall|k: int| 0 <= k < left.len() implies !is_open(#[trigger] left[k]) by {
                assert(if stale(attempts[k], now) {
                    expired(attempts[k], left[k], now)
                } else {
                    left[k] == attempts[k]
                });
                assert(!lease_live(attempts[k], now));
            }
        }
    }
}

/// What its dependencies make of an item: queued work waits while one of them
/// has not reached its state, blocked work is queued once all have, unless it
/// was blocked by hand, and work past its deadline fails. What is over, and a
/// container, is left alone.
pub proof fn items_wait_for_their_dependencies(
    item: WorkItem,
    after: WorkItem,
    states: Seq<Option<WorkState>>,
    now: i128,
)
    requires
        state_reconciling(item, after, states, now),
    ensures
        is_over(item) || item.is_container ==> after == item,
        !is_over(item) && !item.is_container && item.deadline is Some && item.deadline->0 <= now
            ==> after.state == WorkState::Failed && after.result is Some
            && after.result->0.summary@ == "work item deadline exceeded"@,
        !is_over(item) && !item.is_container && (item.deadline is Some ==> item.deadline->0 > now)
            ==> {
            &&& item.state is Queued && all_reached(item, states) ==> after == item
            &&& item.state is Queued && !all_reached(item, states) ==> after.state
                == WorkState::Blocked
            &&& item.state is Blocked && all_reached(item, states) && item.block_provenance
                != Some(BlockProvenance::Manual) ==> after.state == WorkState::Queued
            &&& item.state is Blocked && (!all_reached(item, states) || item.block_provenance
                == Some(BlockProvenance::Manual)) ==> after == item
            &&& !(item.state is Queued) && !(item.state is Blocked) ==> after == item
            &&& after == (WorkItem {
                state: after.state,
                revision: after.revision,
                updated_at: after.updated_at,
                ..item
            })
        },
{
    assert(all_reached(item, states) <==> dependencies_met(item, states)) by {
        if dependencies_met(item, states) {
            assert forall|d: int| 0 <= d < item.dependencies@.len() implies #[trigger] states[d]
                == Some(item.dependencies@[d].required_state) by {
                assert(item.dependencies@[d] == item.dependencies@[d]);
            }
        }
    }
}

} // verus!
