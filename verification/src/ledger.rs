//! The rules of the work ledger: how items and attempts change, and when a
//! change is refused.
//!
//! Records are given as they were loaded and handed back as they are to be
//! stored. What other parts of the bridge decide about an item (whether the
//! graph admits it, and why not) is given as a value.

use crate::error::{
    as_fault, code_name, conflict, conflict_fault, fault, first_fault, forbidden, forbidden_fault,
    invalid, invalid_fault, judged, refused, Fault, OrchError, OrchErrorCode,
};
use crate::run::holds;
use crate::text::{
    byte_len, copy, decimal, decimal_text, join2, join4, str_eq, trim, trimmed, utf8_len,
};
use crate::workload::{
    attempt_fault, bumped, copy_result, is_new_attempt, item_fault, lease_duration, lease_live,
    lease_nanos, result_fault, same_result, secret_token, token_digest, AttemptState,
    BlockProvenance, WorkApproval, WorkAttempt, WorkDependency, WorkItem, WorkProgress, WorkResult,
    WorkRetryPolicy, WorkState, WorkloadReconciliationReport, DEFAULT_WORK_LEASE_MS,
    LAST_LEASE_START, MAX_WORK_LEASE_MS,
};
use vstd::prelude::*;
use vstd::string::*;

verus! {

/// `r` reports a failure for the reason `summary`.
pub open spec fn reports_failure(r: WorkResult, summary: Seq<char>, now: i128) -> bool {
    &&& r.summary@ == summary
    &&& r.evidence@.len() == 0
    &&& r.artifacts@.len() == 0
    &&& holds(r.failure, summary)
    &&& r.cancellation_reason is None
    &&& r.completed_at == now
}

/// The result of work that failed for the reason `summary`.
pub fn work_failure_result(summary: &str, now: i128) -> (r: WorkResult)
    ensures
        reports_failure(r, summary@, now),
{
    WorkResult {
        summary: copy(summary),
        evidence: Vec::new(),
        artifacts: Vec::new(),
        failure: Some(copy(summary)),
        cancellation_reason: None,
        completed_at: now,
    }
}

/// A record that cannot be stored is an internal error that quotes the fault.
pub open spec fn storage_fault(f: Option<Fault>) -> Option<Fault> {
    match f {
        None => None,
        Some(f) => Some(
            fault(OrchErrorCode::Internal, code_name(f.code) + ": "@ + f.message),
        ),
    }
}

pub(crate) fn check_item(item: &WorkItem) -> (r: Result<(), OrchError>)
    ensures
        judged(r, storage_fault(item_fault(*item))),
{
    match item.validate() {
        Ok(()) => Ok(()),
        Err(e) => Err(OrchError::new(OrchErrorCode::Internal, e.to_text().as_str())),
    }
}

pub(crate) fn check_attempt(attempt: &WorkAttempt) -> (r: Result<(), OrchError>)
    ensures
        judged(r, storage_fault(attempt_fault(*attempt))),
{
    match attempt.validate() {
        Ok(()) => Ok(()),
        Err(e) => Err(OrchError::new(OrchErrorCode::Internal, e.to_text().as_str())),
    }
}

/// The item and attempt are stored and handed back, or the first that cannot
/// be stored is refused.
pub open spec fn stored(
    r: Result<(WorkItem, WorkAttempt), OrchError>,
    item: WorkItem,
    attempt: WorkAttempt,
) -> bool {
    match first_fault(
        storage_fault(attempt_fault(attempt)),
        storage_fault(item_fault(item)),
    ) {
        Some(f) => refused(r, f),
        None => r == Ok::<(WorkItem, WorkAttempt), OrchError>((item, attempt)),
    }
}

pub(crate) fn store_both(item: WorkItem, attempt: WorkAttempt) -> (r: Result<
    (WorkItem, WorkAttempt),
    OrchError,
>)
    ensures
        stored(r, item, attempt),
{
    check_attempt(&attempt)?;
    check_item(&item)?;
    Ok((item, attempt))
}

/// The item is stored and handed back, or refused.
pub open spec fn stored_item(r: Result<WorkItem, OrchError>, item: WorkItem) -> bool {
    match storage_fault(item_fault(item)) {
        Some(f) => refused(r, f),
        None => r == Ok::<WorkItem, OrchError>(item),
    }
}

fn store_item(item: WorkItem) -> (r: Result<WorkItem, OrchError>)
    ensures
        stored_item(r, item),
{
    check_item(&item)?;
    Ok(item)
}

/// The fault of naming work that is not on record.
pub open spec fn missing_item() -> Fault {
    conflict_fault("work item not found"@)
}

/// The fault of a caller that expects another revision.
pub open spec fn revision_fault(item: WorkItem, expected: Option<u64>) -> Option<Fault> {
    match expected {
        None => None,
        Some(n) => if n == item.revision {
            None
        } else {
            Some(
                fault(
                    OrchErrorCode::StaleVersion,
                    "work item revision is "@ + decimal(item.revision as nat) + ", expected "@
                        + decimal(n as nat),
                ),
            )
        },
    }
}

/// Refuses a caller that expects another revision than the one on record.
pub fn require_work_revision(item: &WorkItem, expected_revision: Option<u64>) -> (r: Result<
    (),
    OrchError,
>)
    ensures
        judged(r, revision_fault(*item, expected_revision)),
{
    match expected_revision {
        None => Ok(()),
        Some(n) => {
            if n == item.revision {
                Ok(())
            } else {
                let have: String = decimal_text(item.revision);
                let want: String = decimal_text(n);
                Err(
                    OrchError::new(
                        OrchErrorCode::StaleVersion,
                        join4(
                            "work item revision is ",
                            have.as_str(),
                            ", expected ",
                            want.as_str(),
                        ).as_str(),
                    ),
                )
            }
        },
    }
}

/// Every dependency is in the state it must reach. `states` are the states of
/// the dependencies in order, `None` for one that is not in the item's scope.
pub open spec fn dependencies_met(item: WorkItem, states: Seq<Option<WorkState>>) -> bool {
    forall|i: int|
        0 <= i < item.dependencies@.len() ==> states[i] == Some(
            (#[trigger] item.dependencies@[i]).required_state,
        )
}

/// A person blocked the item.
pub open spec fn held_by_hand(item: WorkItem) -> bool {
    item.state is Blocked && item.block_provenance == Some(BlockProvenance::Manual)
}

/// `item` after its dependencies were looked at: queued work that must wait is
/// blocked, and blocked work that need not is queued, unless a person holds it.
pub open spec fn moved(item: WorkItem, ready: bool, now: i128) -> WorkItem {
    if !ready && item.state is Queued {
        bumped(WorkItem { state: WorkState::Blocked, ..item }, now)
    } else if ready && item.state is Blocked && !held_by_hand(item) {
        bumped(WorkItem { state: WorkState::Queued, ..item }, now)
    } else {
        item
    }
}

/// The deadline of the item has come.
pub open spec fn overdue(item: WorkItem, now: i128) -> bool {
    item.deadline is Some && item.deadline->0 <= now
}

/// `after` is `before` brought up to date: moved by its dependencies, then
/// failed if it is overdue. Work that is over, or only groups other work, is
/// left alone.
pub open spec fn reconciled(before: WorkItem, after: WorkItem, ready: bool, now: i128) -> bool {
    if before.state.terminal() || before.is_container {
        after == before
    } else {
        let mid = moved(before, ready, now);
        if overdue(before, now) {
            &&& after.result is Some
            &&& reports_failure(after.result->0, "work item deadline exceeded"@, now)
            &&& after == bumped(
                WorkItem { state: WorkState::Failed, result: after.result, ..mid },
                now,
            )
        } else {
            after == mid
        }
    }
}

fn all_met(dependencies: &Vec<WorkDependency>, states: &Vec<Option<WorkState>>) -> (r: bool)
    requires
        dependencies@.len() == states@.len(),
    ensures
        r == forall|i: int|
            0 <= i < dependencies@.len() ==> states@[i] == Some(
                (#[trigger] dependencies@[i]).required_state,
            ),
{
    let mut i: usize = 0;
    while i < dependencies.len()
        invariant
            i <= dependencies@.len() == states@.len(),
            forall|j: int|
                0 <= j < i ==> states@[j] == Some((#[trigger] dependencies@[j]).required_state),
        decreases dependencies.len() - i,
    {
        let met: bool = match states[i] {
            Some(s) => s == dependencies[i].required_state,
            None => false,
        };
        if !met {
            proof {
                assert(states@[i as int] != Some(dependencies@[i as int].required_state));
            }
            return false;
        }
        i = i + 1;
    }
    true
}

fn is_manual(p: Option<BlockProvenance>) -> (r: bool)
    ensures
        r == (p == Some(BlockProvenance::Manual)),
{
    match p {
        Some(BlockProvenance::Manual) => true,
        _ => false,
    }
}

/// What the state of its dependencies makes of an item.
pub open spec fn state_reconciling(
    item: WorkItem,
    after: WorkItem,
    states: Seq<Option<WorkState>>,
    now: i128,
) -> bool {
    reconciled(item, after, dependencies_met(item, states), now)
}

/// Moves an item by its dependencies and fails it if it is overdue.
pub fn reconcile_state(item: &mut WorkItem, states: &Vec<Option<WorkState>>, now: i128)
    requires
        states@.len() == old(item).dependencies@.len(),
    ensures
        state_reconciling(
            *old(item),
            *final(item),
            states@,
            now,
        ),
{
    if item.state.is_terminal() || item.is_container {
        return;
    }
    let ready: bool = all_met(&item.dependencies, states);
    let held: bool = item.state == WorkState::Blocked && is_manual(item.block_provenance);
    if !ready && item.state == WorkState::Queued {
        item.state = WorkState::Blocked;
        item.bump(now);
    } else if ready && item.state == WorkState::Blocked && !held {
        item.state = WorkState::Queued;
        item.bump(now);
    }
    let late: bool = match item.deadline {
        Some(t) => t <= now,
        None => false,
    };
    if late {
        item.state = WorkState::Failed;
        item.result = Some(work_failure_result("work item deadline exceeded", now));
        item.bump(now);
    }
}

/// `after` is `before` brought up to date, with the reason the graph gives for
/// where it then stands. The reason of a person's block is kept.
pub open spec fn refreshed(
    before: WorkItem,
    after: WorkItem,
    ready: bool,
    reason: Seq<char>,
    now: i128,
) -> bool {
    if before.state.terminal() || before.is_container {
        after == before
    } else {
        let plain = WorkItem { blocked_reason: before.blocked_reason, ..after };
        &&& reconciled(before, plain, ready, now)
        &&& if held_by_hand(before) {
            after.blocked_reason == before.blocked_reason
        } else {
            holds(after.blocked_reason, reason)
        }
    }
}

/// Brings an item up to date. `reason` is what the graph says of the item as
/// [`reconcile_state`] leaves it.
pub fn refresh_work_item(
    item: &mut WorkItem,
    states: &Vec<Option<WorkState>>,
    reason: &str,
    now: i128,
)
    requires
        states@.len() == old(item).dependencies@.len(),
    ensures
        refreshed(*old(item), *final(item), dependencies_met(*old(item), states@), reason@, now),
{
    if item.state.is_terminal() || item.is_container {
        return;
    }
    let held: bool = item.state == WorkState::Blocked && is_manual(item.block_provenance);
    reconcile_state(item, states, now);
    let ghost mid = *item;
    if !held {
        item.blocked_reason = Some(copy(reason));
    }
    proof {
        assert((WorkItem { blocked_reason: old(item).blocked_reason, ..*item }) == mid);
    }
}

/// The lease of an active attempt ran out.
pub open spec fn stale(a: WorkAttempt, now: i128) -> bool {
    a.state.active() && now >= a.lease_expires_at
}

/// `after` is `before` closed because its lease ran out.
pub open spec fn expired(before: WorkAttempt, after: WorkAttempt, now: i128) -> bool {
    &&& holds(after.terminal_reason, "lease expired"@)
    &&& after == (WorkAttempt {
        state: AttemptState::Expired,
        terminal_reason: after.terminal_reason,
        updated_at: now,
        ..before
    })
}

/// Where work goes when an attempt runs out.
pub open spec fn expiry_state(retry: WorkRetryPolicy, attempt_number: u32) -> WorkState {
    if retry.retry_expired && attempt_number < retry.max_attempts {
        WorkState::Queued
    } else {
        WorkState::Failed
    }
}

/// What a pass over attempts did to an item.
pub struct Tally {
    pub state: WorkState,
    /// How often the item changed.
    pub steps: nat,
    /// How often it went from elsewhere to the queue.
    pub retried: nat,
    /// How often it went from elsewhere to failure.
    pub failures: nat,
    /// How many attempts ran out.
    pub stale: nat,
    /// Some change was a failure.
    pub failed: bool,
}

/// What closing the first `k` stale attempts does to an item. Where `guarded`,
/// an item that is over stays as it is.
pub open spec fn drained(
    item: WorkItem,
    attempts: Seq<WorkAttempt>,
    k: int,
    guarded: bool,
    now: i128,
) -> Tally
    decreases k,
{
    if k <= 0 {
        Tally { state: item.state, steps: 0, retried: 0, failures: 0, stale: 0, failed: false }
    } else {
        let t = drained(item, attempts, k - 1, guarded, now);
        let a = attempts[k - 1];
        if !stale(a, now) {
            t
        } else if guarded && t.state.terminal() {
            Tally { stale: t.stale + 1, ..t }
        } else {
            let s = expiry_state(item.policy.retry, a.attempt_number);
            Tally {
                state: s,
                steps: t.steps + 1,
                retried: t.retried + if !(t.state is Queued) && s is Queued {
                    1nat
                } else {
                    0nat
                },
                failures: t.failures + if !(t.state is Failed) && s is Failed {
                    1nat
                } else {
                    0nat
                },
                stale: t.stale + 1,
                failed: t.failed || s is Failed,
            }
        }
    }
}

/// A revision raised `n` times.
pub open spec fn raised(revision: u64, n: nat) -> u64 {
    if revision + n <= u64::MAX {
        (revision + n) as u64
    } else {
        u64::MAX
    }
}

/// `after` is `before` changed as `t` says.
pub open spec fn drained_item(before: WorkItem, after: WorkItem, t: Tally, now: i128) -> bool {
    &&& after == (WorkItem {
        state: t.state,
        revision: raised(before.revision, t.steps),
        updated_at: if t.steps > 0 {
            now
        } else {
            before.updated_at
        },
        result: after.result,
        ..before
    })
    &&& if t.failed {
        after.result is Some && reports_failure(
            after.result->0,
            "work item lease expired and retry budget was exhausted"@,
            now,
        )
    } else {
        after.result == before.result
    }
}

/// Every attempt whose lease ran out is closed, and no other changed.
pub open spec fn drained_attempts(
    before: Seq<WorkAttempt>,
    after: Seq<WorkAttempt>,
    now: i128,
) -> bool {
    &&& after.len() == before.len()
    &&& forall|i: int|
        0 <= i < before.len() ==> if stale(before[i], now) {
            expired(before[i], #[trigger] after[i], now)
        } else {
            after[i] == before[i]
        }
}

/// Closes one attempt because its lease ran out, and queues or fails the item.
pub fn expire_attempt(item: &mut WorkItem, attempt: &mut WorkAttempt, now: i128)
    ensures
        expired(*old(attempt), *final(attempt), now),
        ({
            let s = expiry_state(old(item).policy.retry, old(attempt).attempt_number);
            &&& *final(item) == bumped(
                WorkItem { state: s, result: final(item).result, ..*old(item) },
                now,
            )
            &&& if s is Failed {
                final(item).result is Some && reports_failure(
                    final(item).result->0,
                    "work item lease expired and retry budget was exhausted"@,
                    now,
                )
            } else {
                final(item).result == old(item).result
            }
        }),
{
    attempt.state = AttemptState::Expired;
    attempt.terminal_reason = Some(copy("lease expired"));
    attempt.updated_at = now;
    if item.policy.retry.retry_expired && attempt.attempt_number < item.policy.retry.max_attempts {
        item.state = WorkState::Queued;
    } else {
        item.state = WorkState::Failed;
        item.result = Some(
            work_failure_result("work item lease expired and retry budget was exhausted", now),
        );
    }
    item.bump(now);
}

proof fn drained_bounds(
    item: WorkItem,
    attempts: Seq<WorkAttempt>,
    k: int,
    guarded: bool,
    now: i128,
)
    requires
        0 <= k,
    ensures
        drained(item, attempts, k, guarded, now).retried <= k,
        drained(item, attempts, k, guarded, now).failures <= k,
        drained(item, attempts, k, guarded, now).stale <= k,
    decreases k,
{
    if k > 0 {
        drained_bounds(item, attempts, k - 1, guarded, now);
    }
}

/// The report after a pass over the attempts of one item.
pub open spec fn tallied(r: WorkloadReconciliationReport, t: Tally) -> WorkloadReconciliationReport {
    WorkloadReconciliationReport {
        expired_attempts: (r.expired_attempts + t.stale) as usize,
        retried_items: (r.retried_items + t.retried) as usize,
        failed_items: (r.failed_items + t.failures) as usize,
        ..r
    }
}

/// Closes every attempt whose lease ran out, and changes the item as each of
/// them demands. Where `guarded`, an item that is over keeps its state.
pub fn expire_stale_attempts(
    item: &mut WorkItem,
    attempts: &mut Vec<WorkAttempt>,
    guarded: bool,
    now: i128,
    report: &mut WorkloadReconciliationReport,
)
    requires
        old(report).expired_attempts + old(attempts)@.len() <= usize::MAX,
        old(report).retried_items + old(attempts)@.len() <= usize::MAX,
        old(report).failed_items + old(attempts)@.len() <= usize::MAX,
    ensures
        drained_item(
            *old(item),
            *final(item),
            drained(*old(item), old(attempts)@, old(attempts)@.len() as int, guarded, now),
            now,
        ),
        drained_attempts(old(attempts)@, final(attempts)@, now),
        *final(report) == tallied(
            *old(report),
            drained(*old(item), old(attempts)@, old(attempts)@.len() as int, guarded, now),
        ),
{
    let ghost start = *item;
    let ghost list = attempts@;
    let ghost counted = *report;
    let mut i: usize = 0;
    while i < attempts.len()
        invariant
            i <= attempts@.len() == list.len(),
            counted.expired_attempts + list.len() <= usize::MAX,
            counted.retried_items + list.len() <= usize::MAX,
            counted.failed_items + list.len() <= usize::MAX,
            drained_item(start, *item, drained(start, list, i as int, guarded, now), now),
            *report == tallied(counted, drained(start, list, i as int, guarded, now)),
            forall|j: int| i <= j < list.len() ==> attempts@[j] == list[j],
            forall|j: int|
                0 <= j < i ==> if stale(list[j], now) {
                    expired(list[j], #[trigger] attempts@[j], now)
                } else {
                    attempts@[j] == list[j]
                },
        decreases attempts.len() - i,
    {
        let is_stale: bool = attempts[i].state.is_active() && now >= attempts[i].lease_expires_at;
        proof {
            drained_bounds(start, list, i as int, guarded, now);
            drained_bounds(start, list, i as int + 1, guarded, now);
        }
        if is_stale {
            report.expired_attempts = report.expired_attempts + 1;
            if guarded && item.state.is_terminal() {
                attempts[i].state = AttemptState::Expired;
                attempts[i].terminal_reason = Some(copy("lease expired"));
                attempts[i].updated_at = now;
            } else {
                let previous: WorkState = item.state;
                expire_attempt(item, &mut attempts[i], now);
                if previous != WorkState::Queued && item.state == WorkState::Queued {
                    report.retried_items = report.retried_items + 1;
                }
                if previous != WorkState::Failed && item.state == WorkState::Failed {
                    report.failed_items = report.failed_items + 1;
                }
            }
        }
        i = i + 1;
    }
}

/// The report after one item was brought up to date.
pub open spec fn counted_item(
    r: WorkloadReconciliationReport,
    before: WorkItem,
    after: WorkItem,
    now: i128,
) -> WorkloadReconciliationReport {
    let late = !(before.state is Failed) && after.state is Failed && overdue(after, now);
    WorkloadReconciliationReport {
        scanned_items: (r.scanned_items + 1) as usize,
        unblocked_items: (r.unblocked_items + if before.state is Blocked && after.state is Queued {
            1int
        } else {
            0int
        }) as usize,
        blocked_items: (r.blocked_items + if before.state is Queued && after.state is Blocked {
            1int
        } else {
            0int
        }) as usize,
        failed_items: (r.failed_items + if late {
            1int
        } else {
            0int
        }) as usize,
        deadline_failed_items: (r.deadline_failed_items + if late {
            1int
        } else {
            0int
        }) as usize,
        ..r
    }
}

/// No counter of the report is within `n` of overflowing.
pub open spec fn has_room(r: WorkloadReconciliationReport, n: nat) -> bool {
    &&& r.scanned_items + n <= usize::MAX
    &&& r.expired_attempts + n <= usize::MAX
    &&& r.retried_items + n <= usize::MAX
    &&& r.failed_items + n <= usize::MAX
    &&& r.blocked_items + n <= usize::MAX
    &&& r.unblocked_items + n <= usize::MAX
    &&& r.deadline_failed_items + n <= usize::MAX
}

/// What reconciling one item and its attempts comes to.
pub open spec fn reconciling(
    item: WorkItem,
    after: WorkItem,
    attempts: Seq<WorkAttempt>,
    left: Seq<WorkAttempt>,
    states: Seq<Option<WorkState>>,
    reason: Seq<char>,
    now: i128,
    report: WorkloadReconciliationReport,
    counted: WorkloadReconciliationReport,
) -> bool {
    &&& drained_attempts(attempts, left, now)
    &&& (exists|mid: WorkItem|
        {
            let t = drained(mid, attempts, attempts.len() as int, true, now);
            &&& #[trigger] refreshed(
                item,
                mid,
                dependencies_met(item, states),
                reason,
                now,
            )
            &&& drained_item(mid, after, t, now)
            &&& counted == tallied(counted_item(report, item, mid, now), t)
        })
}

/// Reconciles one item and its attempts: brings the item up to date, closes
/// attempts whose lease ran out, and counts what changed.
pub fn reconcile_work(
    item: &mut WorkItem,
    attempts: &mut Vec<WorkAttempt>,
    states: &Vec<Option<WorkState>>,
    reason: &str,
    now: i128,
    report: &mut WorkloadReconciliationReport,
)
    requires
        states@.len() == old(item).dependencies@.len(),
        has_room(*old(report), old(attempts)@.len() + 1),
    ensures
        reconciling(
            *old(item),
            *final(item),
            old(attempts)@,
            final(attempts)@,
            states@,
            reason@,
            now,
            *old(report),
            *final(report),
        ),
{
    let previous: WorkState = item.state;
    let ghost start = *item;
    report.scanned_items = report.scanned_items + 1;
    refresh_work_item(item, states, reason, now);
    let ghost mid = *item;
    proof {
        assert(refreshed(start, mid, dependencies_met(start, states@), reason@, now));
    }
    if previous == WorkState::Blocked && item.state == WorkState::Queued {
        report.unblocked_items = report.unblocked_items + 1;
    } else if previous == WorkState::Queued && item.state == WorkState::Blocked {
        report.blocked_items = report.blocked_items + 1;
    }
    let late: bool = match item.deadline {
        Some(t) => t <= now,
        None => false,
    };
    if previous != WorkState::Failed && item.state == WorkState::Failed && late {
        report.failed_items = report.failed_items + 1;
        report.deadline_failed_items = report.deadline_failed_items + 1;
    }
    proof {
        assert(*report == counted_item(*old(report), start, mid, now));
    }
    expire_stale_attempts(item, attempts, true, now, report);
}

/// After a pass no attempt is left active with a lease that ran out.
pub proof fn reconciling_leaves_no_stale_lease(
    before: Seq<WorkAttempt>,
    after: Seq<WorkAttempt>,
    now: i128,
    i: int,
)
    requires
        drained_attempts(before, after, now),
        0 <= i < after.len(),
    ensures
        !stale(after[i], now),
{
    assert(if stale(before[i], now) {
        expired(before[i], after[i], now)
    } else {
        after[i] == before[i]
    });
}

/// A block that a person chose survives every pass: its state and reason stay
/// until the deadline.
pub proof fn manual_blocks_survive(
    before: WorkItem,
    after: WorkItem,
    ready: bool,
    reason: Seq<char>,
    now: i128,
)
    requires
        refreshed(before, after, ready, reason, now),
        held_by_hand(before),
        !overdue(before, now),
    ensures
        after.state == before.state,
        after.blocked_reason == before.blocked_reason,
        after.block_provenance == before.block_provenance,
        after.revision == before.revision,
{
}

/// What the graph says of an item: whether it may be carried out, and the name
/// of the reason why it may or may not.
#[derive(Debug)]
pub struct Admission {
    pub admissible: bool,
    pub reason: String,
}

/// What a lease is secured with.
#[derive(Debug)]
pub enum LeaseCredential {
    /// A fresh token.
    Token(String),
    /// A secret that the token follows from.
    Secret(String),
}

/// The length of the lease asked for, and whether the claimant has a usable
/// name.
pub open spec fn claim_request_fault(claimant_id: Seq<char>, lease_ms: Option<u64>) -> Option<Fault> {
    let ms = match lease_ms {
        Some(ms) => ms,
        None => DEFAULT_WORK_LEASE_MS,
    };
    if ms == 0 || ms > MAX_WORK_LEASE_MS {
        Some(invalid_fault("lease_ms must be between 1 and 3600000"@))
    } else if trimmed(claimant_id).len() == 0 || utf8_len(claimant_id) > 256 {
        Some(invalid_fault("claimant_id is empty or exceeds its bound"@))
    } else {
        None
    }
}

/// The length of a lease in nanoseconds, once the request is found in order.
pub fn begin_claim(claimant_id: &str, lease_ms: Option<u64>) -> (r: Result<i128, OrchError>)
    ensures
        match claim_request_fault(claimant_id@, lease_ms) {
            Some(f) => refused(r, f),
            None => r is Ok && 0 < r->Ok_0 <= 3_600_000_000_000 && r->Ok_0 == lease_nanos(
                match lease_ms {
                    Some(ms) => ms,
                    None => DEFAULT_WORK_LEASE_MS,
                },
            ),
        },
{
    let lease: i128 = lease_duration(lease_ms)?;
    let t: String = trim(claimant_id);
    if t.as_str().is_empty() || byte_len(claimant_id) > 256 {
        return Err(invalid("claimant_id is empty or exceeds its bound"));
    }
    Ok(lease)
}

/// A lease secret must not be empty.
pub fn require_lease_secret(lease_secret: &str) -> (r: Result<(), OrchError>)
    ensures
        judged(
            r,
            if lease_secret@.len() == 0 {
                Some(invalid_fault("lease_secret is required"@))
            } else {
                None
            },
        ),
{
    if lease_secret.is_empty() {
        return Err(invalid("lease_secret is required"));
    }
    Ok(())
}

/// The first attempt that holds its lease at `now`.
pub open spec fn first_live(attempts: Seq<WorkAttempt>, i: int, now: i128) -> bool {
    &&& 0 <= i < attempts.len()
    &&& lease_live(attempts[i], now)
    &&& forall|j: int| 0 <= j < i ==> !lease_live(#[trigger] attempts[j], now)
}

/// No attempt holds a lease at `now`.
pub open spec fn none_live(attempts: Seq<WorkAttempt>, now: i128) -> bool {
    forall|j: int| 0 <= j < attempts.len() ==> !lease_live(#[trigger] attempts[j], now)
}

fn find_live(attempts: &Vec<WorkAttempt>, now: i128) -> (r: Option<usize>)
    ensures
        match r {
            Some(i) => first_live(attempts@, i as int, now),
            None => none_live(attempts@, now),
        },
{
    let mut i: usize = 0;
    while i < attempts.len()
        invariant
            i <= attempts@.len(),
            forall|j: int| 0 <= j < i ==> !lease_live(#[trigger] attempts@[j], now),
        decreases attempts.len() - i,
    {
        if attempts[i].lease_active_at(now) {
            return Some(i);
        }
        i = i + 1;
    }
    None
}

/// What making work ready to be claimed comes to.
pub open spec fn preparing(
    item: WorkItem,
    after: WorkItem,
    attempts: Seq<WorkAttempt>,
    left: Seq<WorkAttempt>,
    r: Result<(), OrchError>,
    states: Seq<Option<WorkState>>,
    reason: Seq<char>,
    now: i128,
) -> bool {
    if item.is_container {
        &&& refused(r, conflict_fault("coordination container Work is not executable"@))
        &&& after == item
        &&& left == attempts
    } else {
        exists|mid: WorkItem|
            {
                &&& #[trigger] refreshed(item, mid, dependencies_met(item, states), reason, now)
                &&& if none_live(attempts, now) {
                    &&& r is Ok
                    &&& drained_item(
                        mid,
                        after,
                        drained(mid, attempts, attempts.len() as int, false, now),
                        now,
                    )
                    &&& drained_attempts(attempts, left, now)
                } else {
                    &&& after == mid
                    &&& left == attempts
                    &&& exists|i: int| #[trigger]
                        first_live(attempts, i, now) && refused(
                            r,
                            conflict_fault(
                                "work item already leased by "@ + attempts[i].claimant_id@,
                            ),
                        )
                }
            }
    }
}

/// Makes work ready to be claimed: brings it up to date, refuses it where an
/// attempt holds its lease, and closes attempts whose lease ran out.
pub fn prepare_claim(
    item: &mut WorkItem,
    attempts: &mut Vec<WorkAttempt>,
    states: &Vec<Option<WorkState>>,
    reason: &str,
    now: i128,
) -> (r: Result<(), OrchError>)
    requires
        states@.len() == old(item).dependencies@.len(),
    ensures
        preparing(
            *old(item),
            *final(item),
            old(attempts)@,
            final(attempts)@,
            r,
            states@,
            reason@,
            now,
        ),
{
    if item.is_container {
        return Err(conflict("coordination container Work is not executable"));
    }
    let ghost start = *item;
    refresh_work_item(item, states, reason, now);
    let ghost mid = *item;
    proof {
        assert(refreshed(start, mid, dependencies_met(start, states@), reason@, now));
    }
    match find_live(attempts, now) {
        Some(i) => {
            proof {
                assert(first_live(attempts@, i as int, now));
            }
            return Err(
                conflict(
                    join2("work item already leased by ", attempts[i].claimant_id.as_str()).as_str(),
                ),
            );
        },
        None => {},
    }
    let mut unused: WorkloadReconciliationReport = WorkloadReconciliationReport::default();
    proof {
        assert(attempts.len() <= usize::MAX);
    }
    expire_stale_attempts(item, attempts, false, now, &mut unused);
    Ok(())
}

/// How a state is written in a refusal.
pub open spec fn state_name(s: WorkState) -> Seq<char> {
    match s {
        WorkState::Queued => "Queued"@,
        WorkState::Blocked => "Blocked"@,
        WorkState::Leased => "Leased"@,
        WorkState::Running => "Running"@,
        WorkState::AwaitingInput => "AwaitingInput"@,
        WorkState::AwaitingApproval => "AwaitingApproval"@,
        WorkState::Review => "Review"@,
        WorkState::Succeeded => "Succeeded"@,
        WorkState::Failed => "Failed"@,
        WorkState::Cancelled => "Cancelled"@,
    }
}

fn name_state(s: WorkState) -> (n: &'static str)
    ensures
        n@ == state_name(s),
{
    match s {
        WorkState::Queued => "Queued",
        WorkState::Blocked => "Blocked",
        WorkState::Leased => "Leased",
        WorkState::Running => "Running",
        WorkState::AwaitingInput => "AwaitingInput",
        WorkState::AwaitingApproval => "AwaitingApproval",
        WorkState::Review => "Review",
        WorkState::Succeeded => "Succeeded",
        WorkState::Failed => "Failed",
        WorkState::Cancelled => "Cancelled",
    }
}

/// Why prepared work is not granted. `assignment` is the refusal of the
/// assignment rules, if they refuse this claimant.
pub open spec fn grant_fault(
    item: WorkItem,
    admission: Admission,
    assignment: Option<OrchError>,
) -> Option<Fault> {
    if !(item.state is Queued) {
        Some(
            conflict_fault("work item is not claimable in state "@ + state_name(item.state)),
        )
    } else if !admission.admissible {
        Some(conflict_fault("work item is not admissible: "@ + admission.reason@))
    } else if assignment is Some {
        Some(as_fault(assignment->0))
    } else if item.attempt_count >= item.policy.retry.max_attempts {
        Some(conflict_fault("work item retry budget is exhausted"@))
    } else {
        None
    }
}

/// The token a credential stands for.
pub open spec fn credential_token(
    c: LeaseCredential,
    work_id: Seq<char>,
    attempt_id: Seq<char>,
    attempt_number: u32,
) -> Seq<char> {
    match c {
        LeaseCredential::Token(t) => t@,
        LeaseCredential::Secret(s) => secret_token(s@, work_id, attempt_id, attempt_number),
    }
}

/// `after` is `before` with a lease granted.
pub open spec fn leased_item(before: WorkItem, after: WorkItem, now: i128) -> bool {
    after == bumped(
        WorkItem {
            attempt_count: (before.attempt_count + 1) as u32,
            state: WorkState::Leased,
            ..before
        },
        now,
    )
}

/// `after` and `attempt` are the item and the new attempt of a granted lease.
pub open spec fn granted(
    item: WorkItem,
    after: WorkItem,
    attempt: WorkAttempt,
    claimant_id: Seq<char>,
    attempt_id: Seq<char>,
    credential: LeaseCredential,
    lease: i128,
    now: i128,
) -> bool {
    let number = (item.attempt_count + 1) as u32;
    &&& leased_item(item, after, now)
    &&& is_new_attempt(
        attempt,
        attempt_id,
        item.work_id@,
        number,
        claimant_id,
        credential_token(credential, item.work_id@, attempt_id, number),
        now,
        now + lease,
    )
}

/// What granting a lease comes to.
pub open spec fn granting(
    item: WorkItem,
    r: Result<(WorkItem, WorkAttempt, String), OrchError>,
    admission: Admission,
    assignment: Option<OrchError>,
    claimant_id: Seq<char>,
    attempt_id: Seq<char>,
    credential: LeaseCredential,
    lease: i128,
    now: i128,
) -> bool {
    match grant_fault(item, admission, assignment) {
        Some(f) => refused(r, f),
        None => exists|after: WorkItem, attempt: WorkAttempt| #[trigger]
            granted(item, after, attempt, claimant_id, attempt_id, credential, lease, now) && (
            match first_fault(
                storage_fault(attempt_fault(attempt)),
                storage_fault(item_fault(after)),
            ) {
                Some(f) => refused(r, f),
                None => r is Ok && r->Ok_0.0 == after && r->Ok_0.1 == attempt && r->Ok_0.2@
                    == credential_token(
                    credential,
                    item.work_id@,
                    attempt_id,
                    (item.attempt_count + 1) as u32,
                ),
            }),
    }
}

/// Grants the lease of prepared work: the next attempt, under the claimant's
/// name, for `lease` nanoseconds from `now`, with the token that secures it.
pub fn grant_lease(
    item: WorkItem,
    admission: &Admission,
    assignment: Option<OrchError>,
    claimant_id: &str,
    attempt_id: &str,
    credential: &LeaseCredential,
    lease: i128,
    now: i128,
) -> (r: Result<(WorkItem, WorkAttempt, String), OrchError>)
    requires
        now <= LAST_LEASE_START,
        0 < lease <= 3_600_000_000_000,
    ensures
        granting(
            item,
            r,
            *admission,
            assignment,
            claimant_id@,
            attempt_id@,
            *credential,
            lease,
            now,
        ),
{
    if item.state != WorkState::Queued {
        return Err(
            conflict(
                join2("work item is not claimable in state ", name_state(item.state)).as_str(),
            ),
        );
    }
    if !admission.admissible {
        return Err(
            conflict(
                join2("work item is not admissible: ", admission.reason.as_str()).as_str(),
            ),
        );
    }
    match assignment {
        Some(e) => {
            return Err(e);
        },
        None => {},
    }
    if item.attempt_count >= item.policy.retry.max_attempts {
        return Err(conflict("work item retry budget is exhausted"));
    }
    let number: u32 = item.attempt_count + 1;
    let mut attempt: WorkAttempt = match credential {
        LeaseCredential::Token(t) => WorkAttempt::with_id(
            attempt_id,
            item.work_id.as_str(),
            number,
            claimant_id,
            t.as_str(),
            now,
        ),
        LeaseCredential::Secret(s) => WorkAttempt::with_id_and_secret(
            attempt_id,
            item.work_id.as_str(),
            number,
            claimant_id,
            s.as_str(),
            now,
        ),
    };
    let token: String = match credential {
        LeaseCredential::Token(t) => t.clone(),
        LeaseCredential::Secret(s) => attempt.lease_token_for_secret(s.as_str()),
    };
    attempt.lease_expires_at = now + lease;
    let mut after: WorkItem = item;
    after.attempt_count = number;
    after.state = WorkState::Leased;
    after.bump(now);
    proof {
        assert(granted(
            item,
            after,
            attempt,
            claimant_id@,
            attempt_id@,
            *credential,
            lease,
            now,
        ));
    }
    check_attempt(&attempt)?;
    check_item(&after)?;
    Ok((after, attempt, token))
}

/// Granting prepared work gives it exactly one live lease: none of the earlier
/// attempts is live, and the granted one is.
pub proof fn a_grant_is_the_only_live_lease(
    before: Seq<WorkAttempt>,
    prepared: Seq<WorkAttempt>,
    granted: WorkAttempt,
    attempt_id: Seq<char>,
    work_id: Seq<char>,
    number: u32,
    claimant_id: Seq<char>,
    token: Seq<char>,
    lease: i128,
    now: i128,
)
    requires
        none_live(before, now),
        drained_attempts(before, prepared, now),
        lease > 0,
        is_new_attempt(
            granted,
            attempt_id,
            work_id,
            number,
            claimant_id,
            token,
            now,
            now + lease,
        ),
    ensures
        none_live(prepared, now),
        forall|i: int| 0 <= i < prepared.len() ==> !(#[trigger] prepared[i]).state.active(),
        lease_live(granted, now),
        granted.lease_token_hash@ == token_digest(token),
{
    assert forall|i: int| 0 <= i < prepared.len() implies !(
    #[trigger] prepared[i]).state.active() by {
        assert(!lease_live(before[i], now));
        assert(if stale(before[i], now) {
            expired(before[i], prepared[i], now)
        } else {
            prepared[i] == before[i]
        });
    }
}

/// A claim that succeeds takes the only live lease, as the next attempt within
/// the budget: no other attempt is active, the work is leased, its count of
/// attempts and the attempt's number are both one more than before and no more
/// than the policy allows, and the token handed out is the one that the attempt
/// answers to.
pub proof fn claims_take_the_only_lease(
    item: WorkItem,
    ready: WorkItem,
    attempts: Seq<WorkAttempt>,
    left: Seq<WorkAttempt>,
    p: Result<(), OrchError>,
    r: Result<(WorkItem, WorkAttempt, String), OrchError>,
    states: Seq<Option<WorkState>>,
    reason: Seq<char>,
    admission: Admission,
    assignment: Option<OrchError>,
    claimant_id: Seq<char>,
    attempt_id: Seq<char>,
    credential: LeaseCredential,
    lease: i128,
    now: i128,
)
    requires
        preparing(item, ready, attempts, left, p, states, reason, now),
        p is Ok,
        granting(
            ready,
            r,
            admission,
            assignment,
            claimant_id,
            attempt_id,
            credential,
            lease,
            now,
        ),
        r is Ok,
        lease > 0,
    ensures
        none_live(attempts, now),
        forall|i: int| 0 <= i < left.len() ==> !(#[trigger] left[i]).state.active(),
        lease_live(r->Ok_0.1, now),
        r->Ok_0.0.work_id@ == item.work_id@,
        r->Ok_0.0.state is Leased,
        r->Ok_0.0.attempt_count == item.attempt_count + 1,
        r->Ok_0.1.attempt_number == item.attempt_count + 1,
        item.attempt_count + 1 <= item.policy.retry.max_attempts,
        r->Ok_0.1.claimant_id@ == claimant_id,
        r->Ok_0.1.lease_token_hash@ == token_digest(r->Ok_0.2@),
{
    let number = (ready.attempt_count + 1) as u32;
    a_grant_is_the_only_live_lease(
        attempts,
        left,
        r->Ok_0.1,
        attempt_id,
        ready.work_id@,
        number,
        claimant_id,
        credential_token(credential, ready.work_id@, attempt_id, number),
        lease,
        now,
    );
}

/// While a granted lease runs and its attempt is still active, every further
/// claim of the work is refused as a conflict, and no attempt is changed.
pub proof fn running_leases_refuse_claims(
    item: WorkItem,
    r: Result<(WorkItem, WorkAttempt, String), OrchError>,
    admission: Admission,
    assignment: Option<OrchError>,
    claimant_id: Seq<char>,
    attempt_id: Seq<char>,
    credential: LeaseCredential,
    lease: i128,
    then: i128,
    again: WorkItem,
    after: WorkItem,
    attempts: Seq<WorkAttempt>,
    left: Seq<WorkAttempt>,
    k: int,
    p: Result<(), OrchError>,
    states: Seq<Option<WorkState>>,
    reason: Seq<char>,
    now: i128,
)
    requires
        granting(
            item,
            r,
            admission,
            assignment,
            claimant_id,
            attempt_id,
            credential,
            lease,
            then,
        ),
        r is Ok,
        0 <= k < attempts.len(),
        attempts[k].attempt_id@ == attempt_id,
        attempts[k].state.active(),
        attempts[k].lease_expires_at >= r->Ok_0.1.lease_expires_at,
        now < then + lease,
        preparing(again, after, attempts, left, p, states, reason, now),
    ensures
        p is Err,
        p->Err_0.code is Conflict,
        left == attempts,
{
    assert(lease_live(attempts[k], now));
}

/// Why a holder of a lease is not let through.
pub open spec fn lease_fault(
    item: Option<WorkItem>,
    attempt: Option<WorkAttempt>,
    token: Seq<char>,
    now: i128,
) -> Option<Fault> {
    if item is None {
        Some(missing_item())
    } else if attempt is None {
        Some(conflict_fault("work attempt not found"@))
    } else if attempt->0.work_id@ != item->0.work_id@ {
        Some(forbidden_fault("work attempt does not belong to the work item"@))
    } else if attempt->0.lease_token_hash@ != token_digest(token) {
        Some(forbidden_fault("invalid work lease token"@))
    } else if !lease_live(attempt->0, now) {
        Some(conflict_fault("work lease is no longer active"@))
    } else {
        None
    }
}

/// What showing a lease token comes to.
pub open spec fn authorizing(
    item: Option<WorkItem>,
    attempt: Option<WorkAttempt>,
    token: Seq<char>,
    now: i128,
    r: Result<(WorkItem, WorkAttempt), OrchError>,
) -> bool {
    match lease_fault(item, attempt, token, now) {
        Some(f) => refused(r, f),
        None => r == Ok::<(WorkItem, WorkAttempt), OrchError>((item->0, attempt->0)),
    }
}

/// The item and attempt of a holder of a live lease.
pub fn authorize_attempt(
    item: Option<WorkItem>,
    attempt: Option<WorkAttempt>,
    lease_token: &str,
    now: i128,
) -> (r: Result<(WorkItem, WorkAttempt), OrchError>)
    ensures
        authorizing(
            item,
            attempt,
            lease_token@,
            now,
            r,
        ),
{
    let item: WorkItem = match item {
        Some(i) => i,
        None => {
            return Err(conflict("work item not found"));
        },
    };
    let attempt: WorkAttempt = match attempt {
        Some(a) => a,
        None => {
            return Err(conflict("work attempt not found"));
        },
    };
    if !str_eq(attempt.work_id.as_str(), item.work_id.as_str()) {
        return Err(forbidden("work attempt does not belong to the work item"));
    }
    if !attempt.token_matches(lease_token) {
        return Err(forbidden("invalid work lease token"));
    }
    if !attempt.lease_active_at(now) {
        return Err(conflict("work lease is no longer active"));
    }
    Ok((item, attempt))
}

/// The attempt is stored and handed back, or refused.
pub open spec fn stored_attempt(r: Result<WorkAttempt, OrchError>, attempt: WorkAttempt) -> bool {
    match storage_fault(attempt_fault(attempt)) {
        Some(f) => refused(r, f),
        None => r == Ok::<WorkAttempt, OrchError>(attempt),
    }
}

/// What renewing a lease comes to.
pub open spec fn renewing(
    item: Option<WorkItem>,
    attempt: Option<WorkAttempt>,
    token: Seq<char>,
    lease_ms: Option<u64>,
    now: i128,
    r: Result<WorkAttempt, OrchError>,
) -> bool {
    let ms = match lease_ms {
        Some(ms) => ms,
        None => DEFAULT_WORK_LEASE_MS,
    };
    if ms == 0 || ms > MAX_WORK_LEASE_MS {
        refused(r, invalid_fault("lease_ms must be between 1 and 3600000"@))
    } else {
        match lease_fault(item, attempt, token, now) {
            Some(f) => refused(r, f),
            None => stored_attempt(
                r,
                WorkAttempt {
                    last_heartbeat_at: now,
                    lease_expires_at: (now + lease_nanos(ms)) as i128,
                    updated_at: now,
                    ..attempt->0
                },
            ),
        }
    }
}

/// Lengthens a lease to `lease` nanoseconds from `now`.
pub fn renew_work_lease(
    item: Option<WorkItem>,
    attempt: Option<WorkAttempt>,
    lease_token: &str,
    lease_ms: Option<u64>,
    now: i128,
) -> (r: Result<WorkAttempt, OrchError>)
    requires
        now <= LAST_LEASE_START,
    ensures
        renewing(
            item,
            attempt,
            lease_token@,
            lease_ms,
            now,
            r,
        ),
{
    let lease: i128 = lease_duration(lease_ms)?;
    let pair: (WorkItem, WorkAttempt) = authorize_attempt(item, attempt, lease_token, now)?;
    let mut renewed: WorkAttempt = pair.1;
    renewed.last_heartbeat_at = now;
    renewed.lease_expires_at = now + lease;
    renewed.updated_at = now;
    check_attempt(&renewed)?;
    Ok(renewed)
}

/// A run with this id is linked.
pub open spec fn linked(ids: Seq<String>, run_id: Seq<char>) -> bool {
    exists|i: int| 0 <= i < ids.len() && (#[trigger] ids[i])@ == run_id
}

pub(crate) fn is_linked(ids: &Vec<String>, run_id: &str) -> (r: bool)
    ensures
        r == linked(ids@, run_id@),
{
    let mut i: usize = 0;
    while i < ids.len()
        invariant
            i <= ids@.len(),
            forall|j: int| 0 <= j < i ==> (#[trigger] ids@[j])@ != run_id@,
        decreases ids.len() - i,
    {
        if str_eq(ids[i].as_str(), run_id) {
            return true;
        }
        i = i + 1;
    }
    false
}

/// `after` is `before` linked to a run, and running if it was only leased.
pub open spec fn linked_attempt(
    before: WorkAttempt,
    after: WorkAttempt,
    run_id: Seq<char>,
    now: i128,
) -> bool {
    &&& if linked(before.linked_run_ids@, run_id) {
        after.linked_run_ids@ == before.linked_run_ids@
    } else {
        &&& after.linked_run_ids@.len() == before.linked_run_ids@.len() + 1
        &&& after.linked_run_ids@.drop_last() == before.linked_run_ids@
        &&& after.linked_run_ids@.last()@ == run_id
    }
    &&& after == (WorkAttempt {
        linked_run_ids: after.linked_run_ids,
        state: if before.state is Leased {
            AttemptState::Running
        } else {
            before.state
        },
        updated_at: now,
        ..before
    })
}

/// What linking a run to an attempt comes to.
pub open spec fn linking(
    item: Option<WorkItem>,
    attempt: Option<WorkAttempt>,
    token: Seq<char>,
    run_id: Seq<char>,
    now: i128,
    r: Result<WorkAttempt, OrchError>,
) -> bool {
    match lease_fault(item, attempt, token, now) {
        Some(f) => refused(r, f),
        None => if !linked(attempt->0.linked_run_ids@, run_id)
            && attempt->0.linked_run_ids@.len() >= 16 {
            refused(r, invalid_fault("work attempt cannot link more than 16 runs"@))
        } else {
            exists|after: WorkAttempt| #[trigger]
                linked_attempt(attempt->0, after, run_id, now) && stored_attempt(r, after)
        },
    }
}

/// Links a run to an attempt, at most sixteen of them.
pub fn link_work_run(
    item: Option<WorkItem>,
    attempt: Option<WorkAttempt>,
    lease_token: &str,
    run_id: &str,
    now: i128,
) -> (r: Result<WorkAttempt, OrchError>)
    ensures
        linking(
            item,
            attempt,
            lease_token@,
            run_id@,
            now,
            r,
        ),
{
    let pair: (WorkItem, WorkAttempt) = authorize_attempt(item, attempt, lease_token, now)?;
    let mut a: WorkAttempt = pair.1;
    let ghost before = a;
    if !is_linked(&a.linked_run_ids, run_id) {
        if a.linked_run_ids.len() >= 16 {
            return Err(invalid("work attempt cannot link more than 16 runs"));
        }
        a.linked_run_ids.push(copy(run_id));
        proof {
            assert(a.linked_run_ids@.drop_last() =~= before.linked_run_ids@);
        }
    }
    if a.state == AttemptState::Leased {
        a.state = AttemptState::Running;
    }
    a.updated_at = now;
    proof {
        assert(linked_attempt(before, a, run_id@, now));
    }
    check_attempt(&a)?;
    Ok(a)
}

/// What a report of progress comes to.
pub open spec fn progressing(
    item: Option<WorkItem>,
    attempt: Option<WorkAttempt>,
    token: Seq<char>,
    progress: WorkProgress,
    now: i128,
    r: Result<(WorkItem, WorkAttempt), OrchError>,
) -> bool {
    match lease_fault(item, attempt, token, now) {
        Some(f) => refused(r, f),
        None => stored(
            r,
            bumped(
                WorkItem { progress: Some(progress), state: WorkState::Running, ..item->0 },
                now,
            ),
            WorkAttempt {
                progress: Some(progress),
                state: AttemptState::Running,
                last_heartbeat_at: now,
                updated_at: now,
                ..attempt->0
            },
        ),
    }
}

/// Records how far the work has come; the work is running.
pub fn report_work_progress(
    item: Option<WorkItem>,
    attempt: Option<WorkAttempt>,
    lease_token: &str,
    progress: WorkProgress,
    now: i128,
) -> (r: Result<(WorkItem, WorkAttempt), OrchError>)
    ensures
        progressing(
            item,
            attempt,
            lease_token@,
            progress,
            now,
            r,
        ),
{
    let pair: (WorkItem, WorkAttempt) = authorize_attempt(item, attempt, lease_token, now)?;
    let mut i: WorkItem = pair.0;
    let mut a: WorkAttempt = pair.1;
    i.progress = Some(progress.clone());
    i.state = WorkState::Running;
    i.bump(now);
    a.progress = Some(progress);
    a.state = AttemptState::Running;
    a.last_heartbeat_at = now;
    a.updated_at = now;
    store_both(i, a)
}

/// The attempt was ended in the state `s` for a reason.
pub open spec fn ended(
    before: WorkAttempt,
    after: WorkAttempt,
    s: AttemptState,
    reason: Seq<char>,
    now: i128,
) -> bool {
    &&& holds(after.terminal_reason, reason)
    &&& after == (WorkAttempt {
        state: s,
        terminal_reason: after.terminal_reason,
        updated_at: now,
        ..before
    })
}

/// What giving work back comes to.
pub open spec fn releasing(
    item: Option<WorkItem>,
    attempt: Option<WorkAttempt>,
    token: Seq<char>,
    reason: Seq<char>,
    now: i128,
    r: Result<(WorkItem, WorkAttempt), OrchError>,
) -> bool {
    match lease_fault(item, attempt, token, now) {
        Some(f) => refused(r, f),
        None => exists|after: WorkAttempt| #[trigger]
            ended(attempt->0, after, AttemptState::Released, reason, now) && stored(
                r,
                bumped(WorkItem { state: WorkState::Queued, ..item->0 }, now),
                after,
            ),
    }
}

/// Gives work back to the queue.
pub fn release_work(
    item: Option<WorkItem>,
    attempt: Option<WorkAttempt>,
    lease_token: &str,
    reason: &str,
    now: i128,
) -> (r: Result<(WorkItem, WorkAttempt), OrchError>)
    ensures
        releasing(
            item,
            attempt,
            lease_token@,
            reason@,
            now,
            r,
        ),
{
    let pair: (WorkItem, WorkAttempt) = authorize_attempt(item, attempt, lease_token, now)?;
    let mut i: WorkItem = pair.0;
    let mut a: WorkAttempt = pair.1;
    let ghost before = a;
    a.state = AttemptState::Released;
    a.terminal_reason = Some(copy(reason));
    a.updated_at = now;
    i.state = WorkState::Queued;
    i.bump(now);
    proof {
        assert(ended(before, a, AttemptState::Released, reason@, now));
    }
    store_both(i, a)
}

/// `a` and `i` record the finished work `result`.
pub open spec fn finished(
    before_item: WorkItem,
    before: WorkAttempt,
    i: WorkItem,
    a: WorkAttempt,
    result: WorkResult,
    item_state: WorkState,
    attempt_state: AttemptState,
    now: i128,
) -> bool {
    &&& a.result is Some
    &&& same_result(a.result->0, result)
    &&& a == (WorkAttempt {
        result: a.result,
        state: attempt_state,
        terminal_reason: a.terminal_reason,
        updated_at: now,
        ..before
    })
    &&& i == bumped(WorkItem { result: Some(result), state: item_state, ..before_item }, now)
}

/// The state of completed work: an approval may still be owed.
pub open spec fn completed_state(item: WorkItem) -> WorkState {
    if item.policy.requires_approval {
        WorkState::AwaitingApproval
    } else {
        WorkState::Succeeded
    }
}

/// The state of an attempt that completed its work.
pub open spec fn completed_attempt_state(item: WorkItem) -> AttemptState {
    if item.policy.requires_approval {
        AttemptState::AwaitingApproval
    } else {
        AttemptState::Succeeded
    }
}

/// The state of work whose attempt failed.
pub open spec fn failed_state(item: WorkItem, attempt: WorkAttempt) -> WorkState {
    if item.policy.retry.retry_failed && attempt.attempt_number < item.policy.retry.max_attempts {
        WorkState::Queued
    } else {
        WorkState::Failed
    }
}

/// What completing work comes to.
pub open spec fn completing(
    item: Option<WorkItem>,
    attempt: Option<WorkAttempt>,
    token: Seq<char>,
    result: WorkResult,
    now: i128,
    r: Result<(WorkItem, WorkAttempt), OrchError>,
) -> bool {
    match first_fault(result_fault(result), lease_fault(item, attempt, token, now)) {
        Some(f) => refused(r, f),
        None => exists|i: WorkItem, a: WorkAttempt|
            {
                &&& #[trigger] finished(
                    item->0,
                    attempt->0,
                    i,
                    a,
                    result,
                    completed_state(item->0),
                    completed_attempt_state(item->0),
                    now,
                )
                &&& a.terminal_reason == attempt->0.terminal_reason
                &&& stored(r, i, a)
            },
    }
}

/// Completes work. Work that needs an approval waits for it.
pub fn complete_work(
    item: Option<WorkItem>,
    attempt: Option<WorkAttempt>,
    lease_token: &str,
    result: WorkResult,
    now: i128,
) -> (r: Result<(WorkItem, WorkAttempt), OrchError>)
    ensures
        completing(
            item,
            attempt,
            lease_token@,
            result,
            now,
            r,
        ),
{
    result.validate()?;
    let pair: (WorkItem, WorkAttempt) = authorize_attempt(item, attempt, lease_token, now)?;
    let mut i: WorkItem = pair.0;
    let mut a: WorkAttempt = pair.1;
    let ghost before_item = i;
    let ghost before = a;
    let gated: bool = i.policy.requires_approval;
    a.result = Some(copy_result(&result));
    a.state = if gated {
        AttemptState::AwaitingApproval
    } else {
        AttemptState::Succeeded
    };
    a.updated_at = now;
    i.result = Some(result);
    i.state = if gated {
        WorkState::AwaitingApproval
    } else {
        WorkState::Succeeded
    };
    i.bump(now);
    proof {
        assert(finished(before_item, before, i, a, result, i.state, a.state, now));
    }
    store_both(i, a)
}

/// What recording a failure comes to.
pub open spec fn failing(
    item: Option<WorkItem>,
    attempt: Option<WorkAttempt>,
    token: Seq<char>,
    result: WorkResult,
    now: i128,
    r: Result<(WorkItem, WorkAttempt), OrchError>,
) -> bool {
    match first_fault(result_fault(result), lease_fault(item, attempt, token, now)) {
        Some(f) => refused(r, f),
        None => exists|i: WorkItem, a: WorkAttempt|
            {
                &&& #[trigger] finished(
                    item->0,
                    attempt->0,
                    i,
                    a,
                    result,
                    failed_state(item->0, attempt->0),
                    AttemptState::Failed,
                    now,
                )
                &&& a.terminal_reason == result.failure
                &&& stored(r, i, a)
            },
    }
}

/// Records that an attempt failed. The work is queued again while its policy
/// allows another attempt.
pub fn fail_work(
    item: Option<WorkItem>,
    attempt: Option<WorkAttempt>,
    lease_token: &str,
    result: WorkResult,
    now: i128,
) -> (r: Result<(WorkItem, WorkAttempt), OrchError>)
    ensures
        failing(
            item,
            attempt,
            lease_token@,
            result,
            now,
            r,
        ),
{
    result.validate()?;
    let pair: (WorkItem, WorkAttempt) = authorize_attempt(item, attempt, lease_token, now)?;
    let mut i: WorkItem = pair.0;
    let mut a: WorkAttempt = pair.1;
    let ghost before_item = i;
    let ghost before = a;
    a.result = Some(copy_result(&result));
    a.state = AttemptState::Failed;
    a.terminal_reason = match &result.failure {
        Some(f) => Some(f.clone()),
        None => None,
    };
    a.updated_at = now;
    i.result = Some(result);
    i.state = if i.policy.retry.retry_failed && a.attempt_number < i.policy.retry.max_attempts {
        WorkState::Queued
    } else {
        WorkState::Failed
    };
    i.bump(now);
    proof {
        assert(finished(before_item, before, i, a, result, i.state, a.state, now));
    }
    store_both(i, a)
}

/// `i` is `before` parked until someone answers.
pub open spec fn parked_item(before: WorkItem, i: WorkItem, reason: Seq<char>, now: i128) -> bool {
    &&& holds(i.blocked_reason, reason)
    &&& i == bumped(
        WorkItem {
            state: WorkState::AwaitingInput,
            blocked_reason: i.blocked_reason,
            ..before
        },
        now,
    )
}

/// What parking work comes to.
pub open spec fn parking(
    item: Option<WorkItem>,
    attempt: Option<WorkAttempt>,
    token: Seq<char>,
    reason: Seq<char>,
    now: i128,
    r: Result<(WorkItem, WorkAttempt), OrchError>,
) -> bool {
    match lease_fault(item, attempt, token, now) {
        Some(f) => refused(r, f),
        None => exists|i: WorkItem| #[trigger]
            parked_item(item->0, i, reason, now) && stored(
                r,
                i,
                WorkAttempt {
                    state: AttemptState::AwaitingInput,
                    last_heartbeat_at: now,
                    updated_at: now,
                    ..attempt->0
                },
            ),
    }
}

/// Parks work until someone answers; the attempt keeps its lease.
pub fn park_work_input(
    item: Option<WorkItem>,
    attempt: Option<WorkAttempt>,
    lease_token: &str,
    reason: &str,
    now: i128,
) -> (r: Result<(WorkItem, WorkAttempt), OrchError>)
    ensures
        parking(
            item,
            attempt,
            lease_token@,
            reason@,
            now,
            r,
        ),
{
    let pair: (WorkItem, WorkAttempt) = authorize_attempt(item, attempt, lease_token, now)?;
    let mut i: WorkItem = pair.0;
    let mut a: WorkAttempt = pair.1;
    let ghost before = i;
    i.state = WorkState::AwaitingInput;
    i.blocked_reason = Some(copy(reason));
    i.bump(now);
    a.state = AttemptState::AwaitingInput;
    a.last_heartbeat_at = now;
    a.updated_at = now;
    proof {
        assert(parked_item(before, i, reason@, now));
    }
    store_both(i, a)
}

/// What reopening work comes to.
pub open spec fn retrying(
    item: Option<WorkItem>,
    reason: Seq<char>,
    expected_revision: Option<u64>,
    now: i128,
    r: Result<WorkItem, OrchError>,
) -> bool {
    match retry_refusal(item, reason, expected_revision) {
        Some(f) => refused(r, f),
        None => stored_item(
            r,
            bumped(
                WorkItem {
                    state: WorkState::Queued,
                    result: None,
                    approval: None,
                    ..item->0
                },
                now,
            ),
        ),
    }
}

/// Reopens failed work whose budget allows another attempt.
pub fn retry_work(
    item: Option<WorkItem>,
    reason: &str,
    expected_revision: Option<u64>,
    now: i128,
) -> (r: Result<WorkItem, OrchError>)
    ensures
        retrying(
            item,
            reason@,
            expected_revision,
            now,
            r,
        ),
{
    let mut i: WorkItem = match item {
        Some(i) => i,
        None => {
            return Err(conflict("work item not found"));
        },
    };
    require_work_revision(&i, expected_revision)?;
    if i.state != WorkState::Failed {
        return Err(conflict("only failed work items can be retried"));
    }
    if i.attempt_count >= i.policy.retry.max_attempts {
        return Err(conflict("work item retry budget is exhausted"));
    }
    let t: String = trim(reason);
    if t.as_str().is_empty() {
        return Err(invalid("retry reason is required"));
    }
    i.state = WorkState::Queued;
    i.result = None;
    i.approval = None;
    i.bump(now);
    store_item(i)
}

/// Why work is not reopened.
pub open spec fn retry_refusal(
    item: Option<WorkItem>,
    reason: Seq<char>,
    expected: Option<u64>,
) -> Option<Fault> {
    match item {
        None => Some(missing_item()),
        Some(i) => first_fault(
            revision_fault(i, expected),
            if !(i.state is Failed) {
                Some(conflict_fault("only failed work items can be retried"@))
            } else if i.attempt_count >= i.policy.retry.max_attempts {
                Some(conflict_fault("work item retry budget is exhausted"@))
            } else if trimmed(reason).len() == 0 {
                Some(invalid_fault("retry reason is required"@))
            } else {
                None
            },
        ),
    }
}

/// The last attempt that waits for an approval.
pub open spec fn last_awaiting(attempts: Seq<WorkAttempt>, i: int) -> bool {
    &&& 0 <= i < attempts.len()
    &&& attempts[i].state is AwaitingApproval
    &&& forall|j: int| i < j < attempts.len() ==> !((#[trigger] attempts[j]).state is AwaitingApproval)
}

pub open spec fn none_awaiting(attempts: Seq<WorkAttempt>) -> bool {
    forall|j: int|
        0 <= j < attempts.len() ==> !((#[trigger] attempts[j]).state is AwaitingApproval)
}

fn find_awaiting(attempts: &Vec<WorkAttempt>) -> (r: Option<usize>)
    ensures
        match r {
            Some(i) => last_awaiting(attempts@, i as int),
            None => none_awaiting(attempts@),
        },
{
    let mut n: usize = attempts.len();
    while n > 0
        invariant
            n <= attempts@.len(),
            forall|j: int|
                n <= j < attempts@.len() ==> !((
                #[trigger] attempts@[j]).state is AwaitingApproval),
        decreases n,
    {
        if attempts[n - 1].state == AttemptState::AwaitingApproval {
            return Some(n - 1);
        }
        n = n - 1;
    }
    None
}

/// Why finished work is not released.
pub open spec fn approval_refusal(
    refusal: Option<OrchError>,
    item: Option<WorkItem>,
    attempts: Seq<WorkAttempt>,
    expected: Option<u64>,
) -> Option<Fault> {
    if refusal is Some {
        Some(as_fault(refusal->0))
    } else {
        match item {
            None => Some(missing_item()),
            Some(i) => first_fault(
                revision_fault(i, expected),
                if !(i.state is AwaitingApproval) {
                    Some(conflict_fault("work item is not awaiting approval"@))
                } else if none_awaiting(attempts) {
                    Some(
                        conflict_fault("approval-gated work item has no awaiting attempt"@),
                    )
                } else {
                    None
                },
            ),
        }
    }
}

/// `i` and `a` are the item and attempt released by `approval`.
pub open spec fn approved(
    before_item: WorkItem,
    before: WorkAttempt,
    i: WorkItem,
    a: WorkAttempt,
    approval: WorkApproval,
    now: i128,
) -> bool {
    &&& ended(
        before,
        a,
        AttemptState::Succeeded,
        "approved by "@ + approval.reviewer_id@,
        approval.approved_at,
    )
    &&& i == bumped(
        WorkItem { state: WorkState::Succeeded, approval: Some(approval), ..before_item },
        now,
    )
}

/// What approving work comes to.
pub open spec fn approving(
    refusal: Option<OrchError>,
    item: Option<WorkItem>,
    attempts: Seq<WorkAttempt>,
    approval: WorkApproval,
    expected_revision: Option<u64>,
    now: i128,
    r: Result<(WorkItem, WorkAttempt), OrchError>,
) -> bool {
    match approval_refusal(refusal, item, attempts, expected_revision) {
        Some(f) => refused(r, f),
        None => exists|k: int, i: WorkItem, a: WorkAttempt|
            {
                &&& last_awaiting(attempts, k)
                &&& #[trigger] approved(item->0, attempts[k], i, a, approval, now)
                &&& stored(r, i, a)
            },
    }
}

/// Releases finished work that waits for an approval. `refusal` is why the
/// approval itself is refused, if it is.
pub fn approve_work(
    refusal: Option<OrchError>,
    item: Option<WorkItem>,
    attempts: Vec<WorkAttempt>,
    approval: WorkApproval,
    expected_revision: Option<u64>,
    now: i128,
) -> (r: Result<(WorkItem, WorkAttempt), OrchError>)
    ensures
        approving(
            refusal,
            item,
            attempts@,
            approval,
            expected_revision,
            now,
            r,
        ),
{
    match refusal {
        Some(e) => {
            return Err(e);
        },
        None => {},
    }
    let mut i: WorkItem = match item {
        Some(i) => i,
        None => {
            return Err(conflict("work item not found"));
        },
    };
    require_work_revision(&i, expected_revision)?;
    if i.state != WorkState::AwaitingApproval {
        return Err(conflict("work item is not awaiting approval"));
    }
    let k: usize = match find_awaiting(&attempts) {
        Some(k) => k,
        None => {
            return Err(conflict("approval-gated work item has no awaiting attempt"));
        },
    };
    let ghost before_item = i;
    let ghost before = attempts@[k as int];
    let mut list: Vec<WorkAttempt> = attempts;
    let mut a: WorkAttempt = list.remove(k);
    a.state = AttemptState::Succeeded;
    a.terminal_reason = Some(join2("approved by ", approval.reviewer_id.as_str()));
    a.updated_at = approval.approved_at;
    i.state = WorkState::Succeeded;
    i.approval = Some(approval);
    i.bump(now);
    proof {
        assert(last_awaiting(attempts@, k as int));
        assert(approved(before_item, before, i, a, approval, now));
    }
    store_both(i, a)
}

/// What sealing queued work comes to.
pub open spec fn sealing(
    item: WorkItem,
    reason: Seq<char>,
    now: i128,
    r: Result<WorkItem, OrchError>,
) -> bool {
    &&& (!(item.state is Queued) ==> r == Ok::<WorkItem, OrchError>(item))
    &&& (item.state is Queued ==> exists|after: WorkItem| #[trigger]
        sealed(item, after, reason, now) && stored_item(r, after))
}

/// Fails queued work that will not be carried out; other work is left alone.
pub fn seal_queued_managed_work(item: WorkItem, reason: &str, now: i128) -> (r: Result<
    WorkItem,
    OrchError,
>)
    ensures
        sealing(
            item,
            reason@,
            now,
            r,
        ),
{
    if item.state != WorkState::Queued {
        return Ok(item);
    }
    let ghost before = item;
    let mut i: WorkItem = item;
    i.state = WorkState::Failed;
    i.result = Some(work_failure_result(reason, now));
    i.bump(now);
    proof {
        assert(sealed(before, i, reason@, now));
    }
    store_item(i)
}

/// `after` is `before` failed for a reason.
pub open spec fn sealed(before: WorkItem, after: WorkItem, reason: Seq<char>, now: i128) -> bool {
    &&& after.result is Some
    &&& reports_failure(after.result->0, reason, now)
    &&& after == bumped(
        WorkItem { state: WorkState::Failed, result: after.result, ..before },
        now,
    )
}

/// Every active attempt is cancelled for a reason, and no other changed.
pub open spec fn cancelled_attempts(
    before: Seq<WorkAttempt>,
    after: Seq<WorkAttempt>,
    reason: Seq<char>,
    now: i128,
) -> bool {
    &&& after.len() == before.len()
    &&& forall|i: int|
        0 <= i < before.len() ==> if before[i].state.active() {
            ended(before[i], #[trigger] after[i], AttemptState::Cancelled, reason, now)
        } else {
            after[i] == before[i]
        }
}

/// `after` is `before` cancelled for a reason.
pub open spec fn cancelled_item(
    before: WorkItem,
    after: WorkItem,
    reason: Seq<char>,
    now: i128,
) -> bool {
    &&& after.result is Some
    &&& after.result->0.summary@ == "work item cancelled"@
    &&& after.result->0.evidence@.len() == 0
    &&& after.result->0.artifacts@.len() == 0
    &&& after.result->0.failure is None
    &&& holds(after.result->0.cancellation_reason, reason)
    &&& after.result->0.completed_at == now
    &&& after == bumped(
        WorkItem { state: WorkState::Cancelled, result: after.result, ..before },
        now,
    )
}

/// The first cancelled attempt among the first `n` that cannot be stored.
pub open spec fn cancel_attempts_fault(
    before: Seq<WorkAttempt>,
    after: Seq<WorkAttempt>,
    i: int,
) -> Option<Fault>
    decreases before.len() - i,
{
    if i >= before.len() || i < 0 {
        None
    } else if before[i].state.active() && attempt_fault(after[i]) is Some {
        storage_fault(attempt_fault(after[i]))
    } else {
        cancel_attempts_fault(before, after, i + 1)
    }
}

/// What cancelling work comes to.
pub open spec fn cancelling(
    item: Option<WorkItem>,
    attempts: Vec<WorkAttempt>,
    reason: Seq<char>,
    expected_revision: Option<u64>,
    now: i128,
    r: Result<(WorkItem, Vec<WorkAttempt>), OrchError>,
) -> bool {
    match item {
        None => refused(r, missing_item()),
        Some(i) => match revision_fault(i, expected_revision) {
            Some(f) => refused(r, f),
            None => if i.state.terminal() {
                r == Ok::<(WorkItem, Vec<WorkAttempt>), OrchError>((i, attempts))
            } else {
                exists|after: WorkItem, list: Seq<WorkAttempt>|
                    {
                        &&& #[trigger] cancelled_item(i, after, reason, now)
                        &&& #[trigger] cancelled_attempts(attempts@, list, reason, now)
                        &&& match first_fault(
                            cancel_attempts_fault(attempts@, list, 0),
                            storage_fault(item_fault(after)),
                        ) {
                            Some(f) => refused(r, f),
                            None => r is Ok && r->Ok_0.0 == after && r->Ok_0.1@ == list,
                        }
                    }
            },
        },
    }
}

/// Cancels work and every attempt at it. Work that is over is left alone.
pub fn cancel_work_checked(
    item: Option<WorkItem>,
    attempts: Vec<WorkAttempt>,
    reason: &str,
    expected_revision: Option<u64>,
    now: i128,
) -> (r: Result<(WorkItem, Vec<WorkAttempt>), OrchError>)
    ensures
        cancelling(
            item,
            attempts,
            reason@,
            expected_revision,
            now,
            r,
        ),
{
    let mut i: WorkItem = match item {
        Some(i) => i,
        None => {
            return Err(conflict("work item not found"));
        },
    };
    require_work_revision(&i, expected_revision)?;
    if i.state.is_terminal() {
        return Ok((i, attempts));
    }
    let ghost before_item = i;
    let ghost before = attempts@;
    let mut list: Vec<WorkAttempt> = attempts;
    let mut touched: Vec<bool> = Vec::new();
    let mut k: usize = 0;
    while k < list.len()
        invariant
            k <= list@.len() == before.len(),
            touched@.len() == k,
            forall|j: int| 0 <= j < k ==> (#[trigger] touched@[j]) == before[j].state.active(),
            forall|j: int| k <= j < before.len() ==> list@[j] == before[j],
            forall|j: int|
                0 <= j < k ==> if before[j].state.active() {
                    ended(before[j], #[trigger] list@[j], AttemptState::Cancelled, reason@, now)
                } else {
                    list@[j] == before[j]
                },
        decreases list.len() - k,
    {
        touched.push(list[k].state.is_active());
        if list[k].state.is_active() {
            list[k].state = AttemptState::Cancelled;
            list[k].terminal_reason = Some(copy(reason));
            list[k].updated_at = now;
        }
        k = k + 1;
    }
    i.state = WorkState::Cancelled;
    i.result = Some(
        WorkResult {
            summary: copy("work item cancelled"),
            evidence: Vec::new(),
            artifacts: Vec::new(),
            failure: None,
            cancellation_reason: Some(copy(reason)),
            completed_at: now,
        },
    );
    i.bump(now);
    proof {
        assert(cancelled_attempts(before, list@, reason@, now));
        assert(cancelled_item(before_item, i, reason@, now));
    }
    let mut m: usize = 0;
    while m < list.len()
        invariant
            m <= list@.len() == before.len(),
            touched@.len() == before.len(),
            forall|j: int|
                0 <= j < before.len() ==> (#[trigger] touched@[j]) == before[j].state.active(),
            cancelled_attempts(before, list@, reason@, now),
            cancelled_item(before_item, i, reason@, now),
            !before_item.state.terminal(),
            item == Some(before_item),
            attempts@ == before,
            revision_fault(before_item, expected_revision) is None,
            cancel_attempts_fault(before, list@, 0) == cancel_attempts_fault(
                before,
                list@,
                m as int,
            ),
        decreases list.len() - m,
    {
        if touched[m] {
            check_attempt(&list[m])?;
        }
        m = m + 1;
    }
    check_item(&i)?;
    Ok((i, list))
}

} // verus!
