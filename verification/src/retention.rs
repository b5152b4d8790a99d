//! Which finished records may be removed.
//!
//! Retention is bounded by age and by count. It never gives up an active run,
//! an isolated run that can still be looked at, or the source of a retry.

use crate::idempotency::IdempotencyReceipt;
use crate::instant::gone_by;
use crate::listing::{
    by_numbers, latest, newest_first, number_ranks, numbers_are_ordered, zeros,
};
use crate::order::{every_list_has_an_order, listed_before};
use crate::run::{holds, RunRecord};
use crate::text::{copy, str_eq};
use vstd::prelude::*;
use vstd::string::*;

verus! {

pub const DEFAULT_MAX_TERMINAL_RUNS: usize = 500;

pub const DEFAULT_MAX_IDEMPOTENCY_RECEIPTS: usize = 1_000;

/// Thirty days, in nanoseconds.
pub const DEFAULT_TERMINAL_RUN_AGE: i128 = 2_592_000_000_000_000;

/// Seven days, in nanoseconds.
pub const DEFAULT_IDEMPOTENCY_RECEIPT_AGE: i128 = 604_800_000_000_000;

/// How much is kept. Ages are in nanoseconds.
#[derive(Debug, Clone, Copy, PartialEq, Eq, Structural)]
pub struct RetentionPolicy {
    pub max_terminal_runs: usize,
    pub max_idempotency_receipts: usize,
    pub terminal_run_age: i128,
    pub idempotency_receipt_age: i128,
}

impl Default for RetentionPolicy {
    fn default() -> (p: RetentionPolicy)
        ensures
            p == (RetentionPolicy {
                max_terminal_runs: DEFAULT_MAX_TERMINAL_RUNS,
                max_idempotency_receipts: DEFAULT_MAX_IDEMPOTENCY_RECEIPTS,
                terminal_run_age: DEFAULT_TERMINAL_RUN_AGE,
                idempotency_receipt_age: DEFAULT_IDEMPOTENCY_RECEIPT_AGE,
            }),
    {
        RetentionPolicy {
            max_terminal_runs: DEFAULT_MAX_TERMINAL_RUNS,
            max_idempotency_receipts: DEFAULT_MAX_IDEMPOTENCY_RECEIPTS,
            terminal_run_age: DEFAULT_TERMINAL_RUN_AGE,
            idempotency_receipt_age: DEFAULT_IDEMPOTENCY_RECEIPT_AGE,
        }
    }
}

/// What a clean-up came to.
#[derive(Debug, Clone, Copy, PartialEq, Eq, Structural)]
pub struct RetentionReport {
    pub run_files_scanned: usize,
    pub run_files_removed: usize,
    pub idempotency_files_scanned: usize,
    pub idempotency_files_removed: usize,
    pub protected_runs: usize,
    pub skipped_files: usize,
}

impl Default for RetentionReport {
    fn default() -> (r: RetentionReport)
        ensures
            r == (RetentionReport {
                run_files_scanned: 0,
                run_files_removed: 0,
                idempotency_files_scanned: 0,
                idempotency_files_removed: 0,
                protected_runs: 0,
                skipped_files: 0,
            }),
    {
        RetentionReport {
            run_files_scanned: 0,
            run_files_removed: 0,
            idempotency_files_scanned: 0,
            idempotency_files_removed: 0,
            protected_runs: 0,
            skipped_files: 0,
        }
    }
}

/// What is known of the run that a receipt names.
#[derive(Debug, Clone, Copy, PartialEq, Eq, Structural)]
pub enum LinkedRun {
    /// The receipt names none, or there is none.
    Absent,
    Terminal,
    Active,
    /// It cannot be read.
    Unreadable,
}

/// What is to be removed, by position, and what was found on the way.
#[derive(Debug)]
pub struct RetentionPlan {
    pub runs: Vec<usize>,
    pub receipts: Vec<usize>,
    pub protected_runs: usize,
    pub skipped_files: usize,
}

/// Why a policy is refused.
pub open spec fn policy_fault(p: RetentionPolicy) -> Option<Seq<char>> {
    if p.max_terminal_runs == 0 {
        Some("retention must preserve at least one terminal run"@)
    } else if p.max_idempotency_receipts == 0 {
        Some("retention must preserve at least one idempotency receipt"@)
    } else if p.terminal_run_age <= 0 || p.idempotency_receipt_age <= 0 {
        Some("retention ages must be greater than zero"@)
    } else {
        None
    }
}

/// Some run is a retry of this one.
pub open spec fn is_retry_source(runs: Seq<RunRecord>, run_id: Seq<char>) -> bool {
    exists|i: int| 0 <= i < runs.len() && holds((#[trigger] runs[i]).retry_of, run_id)
}

/// A run that owns no execution workspace that is still there.
pub open spec fn safe_to_expire(run: RunRecord, workspace_exists: bool) -> bool {
    run.execution is None || !workspace_exists
}

/// A run that may be removed.
pub open spec fn may_expire(runs: Seq<RunRecord>, workspaces: Seq<bool>, i: int) -> bool {
    &&& runs[i].state.terminal()
    &&& !is_retry_source(runs, runs[i].run_id@)
    &&& safe_to_expire(runs[i], workspaces[i])
}

/// The positions below `n` of the runs that may be removed.
pub open spec fn expirable(runs: Seq<RunRecord>, workspaces: Seq<bool>, n: int) -> Seq<usize>
    decreases n,
{
    if n <= 0 {
        Seq::empty()
    } else {
        let rest = expirable(runs, workspaces, n - 1);
        if may_expire(runs, workspaces, n - 1) {
            rest.push((n - 1) as usize)
        } else {
            rest
        }
    }
}

/// A receipt that is settled in a way this library knows.
pub open spec fn known_settled(r: IdempotencyReceipt) -> bool {
    r.status@ == "complete"@ || r.status@ == "failed"@
}

/// A receipt that may be removed. One that cannot be reconciled with its run
/// is kept.
pub open spec fn receipt_may_expire(r: IdempotencyReceipt, linked: LinkedRun) -> bool {
    known_settled(r) && (linked is Absent || linked is Terminal)
}

/// The positions below `n` of the receipts that may be removed.
pub open spec fn expirable_receipts(
    receipts: Seq<IdempotencyReceipt>,
    linked: Seq<LinkedRun>,
    n: int,
) -> Seq<usize>
    decreases n,
{
    if n <= 0 {
        Seq::empty()
    } else {
        let rest = expirable_receipts(receipts, linked, n - 1);
        if receipt_may_expire(receipts[n - 1], linked[n - 1]) {
            rest.push((n - 1) as usize)
        } else {
            rest
        }
    }
}

/// A receipt that is passed over: it is not settled, or its run cannot be read.
pub open spec fn is_skipped(r: IdempotencyReceipt, linked: LinkedRun) -> bool {
    !known_settled(r) || linked is Unreadable
}

/// How many of the first `n` receipts are passed over.
pub open spec fn skipped_receipts(
    receipts: Seq<IdempotencyReceipt>,
    linked: Seq<LinkedRun>,
    n: int,
) -> nat
    decreases n,
{
    if n <= 0 {
        0
    } else {
        skipped_receipts(receipts, linked, n - 1) + if is_skipped(receipts[n - 1], linked[n - 1]) {
            1nat
        } else {
            0
        }
    }
}

/// The record at place `i` of the order, latest first, is beyond its count or
/// its age.
pub open spec fn is_over(
    times: Seq<i128>,
    order: Seq<usize>,
    max: usize,
    age: i128,
    now: i128,
    i: int,
) -> bool {
    i >= max || now - times[order[i] as int] >= age
}

/// What is over among the first `n` places.
pub open spec fn over(
    times: Seq<i128>,
    order: Seq<usize>,
    max: usize,
    age: i128,
    now: i128,
    n: int,
) -> Seq<usize>
    decreases n,
{
    if n <= 0 {
        Seq::empty()
    } else {
        let rest = over(times, order, max, age, now, n - 1);
        if is_over(times, order, max, age, now, n - 1) {
            rest.push(order[n - 1])
        } else {
            rest
        }
    }
}

/// The instants in the order latest first.
pub open spec fn by_age(times: Seq<i128>) -> Seq<usize> {
    by_numbers(latest(times), zeros(times.len()))
}

/// What is over of records with these instants.
pub open spec fn expired(times: Seq<i128>, max: usize, age: i128, now: i128) -> Seq<usize> {
    over(times, by_age(times), max, age, now, times.len() as int)
}

/// The members of `at` at these places.
pub open spec fn picked(at: Seq<usize>, places: Seq<usize>) -> Seq<usize> {
    Seq::new(places.len(), |i: int| at[places[i] as int])
}

/// The instants of the runs at these positions.
pub open spec fn run_times(runs: Seq<RunRecord>, at: Seq<usize>) -> Seq<i128> {
    Seq::new(at.len(), |i: int| runs[at[i] as int].updated_at)
}

/// The instants of the receipts at these positions.
pub open spec fn receipt_times(receipts: Seq<IdempotencyReceipt>, at: Seq<usize>) -> Seq<i128> {
    Seq::new(at.len(), |i: int| receipts[at[i] as int].created_at)
}

/// The runs that a policy removes.
pub open spec fn expired_runs(
    policy: RetentionPolicy,
    runs: Seq<RunRecord>,
    workspaces: Seq<bool>,
    now: i128,
) -> Seq<usize> {
    let at = expirable(runs, workspaces, runs.len() as int);
    picked(
        at,
        expired(run_times(runs, at), policy.max_terminal_runs, policy.terminal_run_age, now),
    )
}

/// The receipts that a policy removes.
pub open spec fn expired_receipts(
    policy: RetentionPolicy,
    receipts: Seq<IdempotencyReceipt>,
    linked: Seq<LinkedRun>,
    now: i128,
) -> Seq<usize> {
    let at = expirable_receipts(receipts, linked, receipts.len() as int);
    picked(
        at,
        expired(
            receipt_times(receipts, at),
            policy.max_idempotency_receipts,
            policy.idempotency_receipt_age,
            now,
        ),
    )
}

fn retry_source(runs: &Vec<RunRecord>, run_id: &str) -> (r: bool)
    ensures
        r == is_retry_source(runs@, run_id@),
{
    let mut i: usize = 0;
    while i < runs.len()
        invariant
            i <= runs@.len(),
            forall|j: int| 0 <= j < i ==> !holds((#[trigger] runs@[j]).retry_of, run_id@),
        decreases runs.len() - i,
    {
        let found: bool = match &runs[i].retry_of {
            Some(id) => str_eq(id.as_str(), run_id),
            None => false,
        };
        if found {
            return true;
        }
        i = i + 1;
    }
    false
}

/// A terminal run may be removed only when it no longer owns a live isolated
/// worktree.
fn safe_to_expire_run(run: &RunRecord, workspace_exists: bool) -> (r: bool)
    ensures
        r == safe_to_expire(*run, workspace_exists),
{
    match &run.execution {
        None => true,
        Some(_) => !workspace_exists,
    }
}

proof fn expirable_are_positions(runs: Seq<RunRecord>, workspaces: Seq<bool>, n: int)
    requires
        0 <= n <= runs.len() <= usize::MAX,
    ensures
        expirable(runs, workspaces, n).len() <= n,
        forall|i: int|
            0 <= i < expirable(runs, workspaces, n).len() ==> 0 <= (#[trigger] expirable(
                runs,
                workspaces,
                n,
            )[i]) < n && may_expire(runs, workspaces, expirable(runs, workspaces, n)[i] as int),
    decreases n,
{
    if n > 0 {
        expirable_are_positions(runs, workspaces, n - 1);
    }
}

proof fn expirable_receipts_are_positions(
    receipts: Seq<IdempotencyReceipt>,
    linked: Seq<LinkedRun>,
    n: int,
)
    requires
        0 <= n <= receipts.len() <= usize::MAX,
    ensures
        expirable_receipts(receipts, linked, n).len() <= n,
        forall|i: int|
            0 <= i < expirable_receipts(receipts, linked, n).len() ==> 0 <= (
            #[trigger] expirable_receipts(receipts, linked, n)[i]) < n && receipt_may_expire(
                receipts[expirable_receipts(receipts, linked, n)[i] as int],
                linked[expirable_receipts(receipts, linked, n)[i] as int],
            ),
    decreases n,
{
    if n > 0 {
        expirable_receipts_are_positions(receipts, linked, n - 1);
    }
}

proof fn over_are_places(
    times: Seq<i128>,
    order: Seq<usize>,
    max: usize,
    age: i128,
    now: i128,
    n: int,
)
    requires
        0 <= n <= order.len(),
        forall|i: int| 0 <= i < order.len() ==> 0 <= #[trigger] order[i] < times.len(),
    ensures
        forall|i: int|
            0 <= i < over(times, order, max, age, now, n).len() ==> 0 <= #[trigger] over(
                times,
                order,
                max,
                age,
                now,
                n,
            )[i] < times.len(),
    decreases n,
{
    if n > 0 {
        over_are_places(times, order, max, age, now, n - 1);
        assert(0 <= order[n - 1] < times.len());
        assert forall|i: int|
            0 <= i < over(times, order, max, age, now, n).len() implies 0 <= #[trigger] over(
            times,
            order,
            max,
            age,
            now,
            n,
        )[i] < times.len() by {
            let rest = over(times, order, max, age, now, n - 1);
            if i < rest.len() {
                assert(0 <= rest[i] < times.len());
            }
        }
    }
}

/// The places of what is beyond its count or its age.
fn expire(times: &Vec<i128>, max: usize, age: i128, now: i128) -> (out: Vec<usize>)
    ensures
        out@ == expired(times@, max, age, now),
        forall|i: int| 0 <= i < out@.len() ==> 0 <= #[trigger] out@[i] < times@.len(),
{
    let order: Vec<usize> = newest_first(times);
    let mut out: Vec<usize> = Vec::new();
    let mut i: usize = 0;
    while i < order.len()
        invariant
            i <= order@.len(),
            order@.len() == times@.len(),
            order@ == by_age(times@),
            forall|j: int| 0 <= j < order@.len() ==> 0 <= #[trigger] order@[j] < times@.len(),
            out@ == over(times@, order@, max, age, now, i as int),
        decreases order.len() - i,
    {
        let place: usize = order[i];
        let old_enough: bool = gone_by(times[place], now, age);
        if i >= max || old_enough {
            out.push(place);
        }
        i = i + 1;
    }
    proof {
        over_are_places(times@, order@, max, age, now, order@.len() as int);
    }
    out
}

fn pick(at: &Vec<usize>, places: &Vec<usize>) -> (out: Vec<usize>)
    requires
        forall|i: int| 0 <= i < places@.len() ==> 0 <= #[trigger] places@[i] < at@.len(),
    ensures
        out@ == picked(at@, places@),
{
    let mut out: Vec<usize> = Vec::new();
    let mut i: usize = 0;
    while i < places.len()
        invariant
            i <= places@.len(),
            forall|i: int| 0 <= i < places@.len() ==> 0 <= #[trigger] places@[i] < at@.len(),
            out@.len() == i,
            forall|j: int| 0 <= j < i ==> #[trigger] out@[j] == at@[places@[j] as int],
        decreases places.len() - i,
    {
        out.push(at[places[i]]);
        i = i + 1;
    }
    proof {
        assert(out@ =~= picked(at@, places@));
    }
    out
}

fn select_runs(policy: &RetentionPolicy, runs: &Vec<RunRecord>, workspaces: &Vec<bool>, now: i128) -> (
    r: (Vec<usize>, usize))
    requires
        workspaces@.len() == runs@.len(),
    ensures
        r.0@ == expired_runs(*policy, runs@, workspaces@, now),
        r.1 == runs@.len() - expirable(runs@, workspaces@, runs@.len() as int).len(),
{
    let mut at: Vec<usize> = Vec::new();
    let mut times: Vec<i128> = Vec::new();
    let mut protected: usize = 0;
    let mut i: usize = 0;
    while i < runs.len()
        invariant
            i <= runs@.len(),
            workspaces@.len() == runs@.len(),
            at@ == expirable(runs@, workspaces@, i as int),
            forall|j: int| 0 <= j < at@.len() ==> 0 <= #[trigger] at@[j] < i,
            times@.len() == at@.len(),
            forall|j: int|
                0 <= j < at@.len() ==> #[trigger] times@[j] == runs@[at@[j] as int].updated_at,
            protected == i - at@.len(),
        decreases runs.len() - i,
    {
        let run: &RunRecord = &runs[i];
        if run.state.is_terminal() && !retry_source(runs, run.run_id.as_str())
            && safe_to_expire_run(run, workspaces[i]) {
            at.push(i);
            times.push(run.updated_at);
        } else {
            protected = protected + 1;
        }
        i = i + 1;
    }
    proof {
        assert(times@ =~= run_times(runs@, at@));
    }
    let places: Vec<usize> = expire(
        &times,
        policy.max_terminal_runs,
        policy.terminal_run_age,
        now,
    );
    (pick(&at, &places), protected)
}

fn select_receipts(
    policy: &RetentionPolicy,
    receipts: &Vec<IdempotencyReceipt>,
    linked: &Vec<LinkedRun>,
    now: i128,
) -> (r: (Vec<usize>, usize))
    requires
        linked@.len() == receipts@.len(),
    ensures
        r.0@ == expired_receipts(*policy, receipts@, linked@, now),
        r.1 == skipped_receipts(receipts@, linked@, receipts@.len() as int),
{
    let mut at: Vec<usize> = Vec::new();
    let mut times: Vec<i128> = Vec::new();
    let mut skipped: usize = 0;
    let mut i: usize = 0;
    while i < receipts.len()
        invariant
            i <= receipts@.len(),
            linked@.len() == receipts@.len(),
            at@ == expirable_receipts(receipts@, linked@, i as int),
            forall|j: int| 0 <= j < at@.len() ==> 0 <= #[trigger] at@[j] < i,
            times@.len() == at@.len(),
            forall|j: int|
                0 <= j < at@.len() ==> #[trigger] times@[j] == receipts@[at@[j] as int].created_at,
            skipped == skipped_receipts(receipts@, linked@, i as int),
            skipped <= i,
        decreases receipts.len() - i,
    {
        let receipt: &IdempotencyReceipt = &receipts[i];
        let settled: bool = str_eq(receipt.status.as_str(), "complete") || str_eq(
            receipt.status.as_str(),
            "failed",
        );
        let link: LinkedRun = linked[i];
        if !settled || link == LinkedRun::Unreadable {
            skipped = skipped + 1;
        } else if link != LinkedRun::Active {
            at.push(i);
            times.push(receipt.created_at);
        }
        i = i + 1;
    }
    proof {
        assert(times@ =~= receipt_times(receipts@, at@));
    }
    let places: Vec<usize> = expire(
        &times,
        policy.max_idempotency_receipts,
        policy.idempotency_receipt_age,
        now,
    );
    (pick(&at, &places), skipped)
}

/// What a clean-up comes to.
pub open spec fn pruning(
    policy: RetentionPolicy,
    runs: Seq<RunRecord>,
    workspaces: Seq<bool>,
    receipts: Seq<IdempotencyReceipt>,
    linked: Seq<LinkedRun>,
    now: i128,
    r: Result<RetentionPlan, String>,
) -> bool {
    match policy_fault(policy) {
        Some(message) => r is Err && r->Err_0@ == message,
        None => {
            &&& r is Ok
            &&& r->Ok_0.runs@ == expired_runs(policy, runs, workspaces, now)
            &&& r->Ok_0.receipts@ == expired_receipts(policy, receipts, linked, now)
            &&& r->Ok_0.protected_runs == runs.len() - expirable(
                runs,
                workspaces,
                runs.len() as int,
            ).len()
            &&& r->Ok_0.skipped_files == skipped_receipts(
                receipts,
                linked,
                receipts.len() as int,
            )
        },
    }
}

/// Decides what is removed of the runs and receipts that were read.
/// `workspaces` says of each run whether its execution workspace is there, and
/// `linked` what is known of each receipt's run.
pub fn prune_retention(
    policy: &RetentionPolicy,
    runs: &Vec<RunRecord>,
    workspaces: &Vec<bool>,
    receipts: &Vec<IdempotencyReceipt>,
    linked: &Vec<LinkedRun>,
    now: i128,
) -> (r: Result<RetentionPlan, String>)
    requires
        workspaces@.len() == runs@.len(),
        linked@.len() == receipts@.len(),
    ensures
        pruning(
            *policy,
            runs@,
            workspaces@,
            receipts@,
            linked@,
            now,
            r,
        ),
{
    if policy.max_terminal_runs == 0 {
        return Err(copy("retention must preserve at least one terminal run"));
    }
    if policy.max_idempotency_receipts == 0 {
        return Err(copy("retention must preserve at least one idempotency receipt"));
    }
    if policy.terminal_run_age <= 0 || policy.idempotency_receipt_age <= 0 {
        return Err(copy("retention ages must be greater than zero"));
    }
    let (run_list, protected_runs): (Vec<usize>, usize) = select_runs(
        policy,
        runs,
        workspaces,
        now,
    );
    let (receipt_list, skipped_files): (Vec<usize>, usize) = select_receipts(
        policy,
        receipts,
        linked,
        now,
    );
    Ok(RetentionPlan { runs: run_list, receipts: receipt_list, protected_runs, skipped_files })
}

/// No clean-up removes an active run, an isolated run whose workspace is still
/// there, or the source of a retry.
pub proof fn retention_protects_runs(
    policy: RetentionPolicy,
    runs: Seq<RunRecord>,
    workspaces: Seq<bool>,
    now: i128,
    i: int,
)
    requires
        runs.len() <= usize::MAX,
        0 <= i < expired_runs(policy, runs, workspaces, now).len(),
    ensures
        ({
            let k = expired_runs(policy, runs, workspaces, now)[i] as int;
            &&& 0 <= k < runs.len()
            &&& runs[k].state.terminal()
            &&& !is_retry_source(runs, runs[k].run_id@)
            &&& (runs[k].execution is Some ==> !workspaces[k])
        }),
{
    let at = expirable(runs, workspaces, runs.len() as int);
    let times = run_times(runs, at);
    expirable_are_positions(runs, workspaces, runs.len() as int);
    every_list_has_an_order(number_ranks(latest(times), zeros(times.len())));
    over_are_places(
        times,
        by_age(times),
        policy.max_terminal_runs,
        policy.terminal_run_age,
        now,
        times.len() as int,
    );
    let places = expired(times, policy.max_terminal_runs, policy.terminal_run_age, now);
    assert(0 <= places[i] < times.len());
    assert(may_expire(runs, workspaces, at[places[i] as int] as int));
}

/// No clean-up removes a receipt that is not settled, or whose run is active or
/// cannot be read.
pub proof fn retention_protects_receipts(
    policy: RetentionPolicy,
    receipts: Seq<IdempotencyReceipt>,
    linked: Seq<LinkedRun>,
    now: i128,
    i: int,
)
    requires
        receipts.len() <= usize::MAX,
        0 <= i < expired_receipts(policy, receipts, linked, now).len(),
    ensures
        ({
            let k = expired_receipts(policy, receipts, linked, now)[i] as int;
            &&& 0 <= k < receipts.len()
            &&& known_settled(receipts[k])
            &&& !(linked[k] is Active)
            &&& !(linked[k] is Unreadable)
        }),
{
    let at = expirable_receipts(receipts, linked, receipts.len() as int);
    let times = receipt_times(receipts, at);
    expirable_receipts_are_positions(receipts, linked, receipts.len() as int);
    every_list_has_an_order(number_ranks(latest(times), zeros(times.len())));
    over_are_places(
        times,
        by_age(times),
        policy.max_idempotency_receipts,
        policy.idempotency_receipt_age,
        now,
        times.len() as int,
    );
    let places = expired(
        times,
        policy.max_idempotency_receipts,
        policy.idempotency_receipt_age,
        now,
    );
    assert(0 <= places[i] < times.len());
    assert(receipt_may_expire(
        receipts[at[places[i] as int] as int],
        linked[at[places[i] as int] as int],
    ));
}

proof fn kept_part_is_small(
    times: Seq<i128>,
    order: Seq<usize>,
    max: usize,
    age: i128,
    now: i128,
    n: int,
)
    requires
        0 <= n,
    ensures
        n - over(times, order, max, age, now, n).len() <= max,
        over(times, order, max, age, now, n).len() <= n,
    decreases n,
{
    if n > 0 {
        kept_part_is_small(times, order, max, age, now, n - 1);
    }
}

/// Of the runs that may be removed, no more are kept than the policy's count.
pub proof fn retention_is_bounded(
    policy: RetentionPolicy,
    runs: Seq<RunRecord>,
    workspaces: Seq<bool>,
    now: i128,
)
    requires
        runs.len() <= usize::MAX,
    ensures
        expirable(runs, workspaces, runs.len() as int).len() - expired_runs(
            policy,
            runs,
            workspaces,
            now,
        ).len() <= policy.max_terminal_runs,
{
    let times = run_times(runs, expirable(runs, workspaces, runs.len() as int));
    kept_part_is_small(
        times,
        by_age(times),
        policy.max_terminal_runs,
        policy.terminal_run_age,
        now,
        times.len() as int,
    );
}

/// A run that a clean-up may look at: it is over, no run is a retry of it, and it
/// owns no workspace that is still there.
pub open spec fn may_go(runs: Seq<RunRecord>, workspaces: Seq<bool>, k: int) -> bool {
    &&& !(runs[k].state is Queued)
    &&& !(runs[k].state is Running)
    &&& forall|i: int| 0 <= i < runs.len() ==> !holds((#[trigger] runs[i]).retry_of, runs[k].run_id@)
    &&& runs[k].execution is None || !workspaces[k]
}

/// A receipt that a clean-up may look at: it is settled, and its run is over or
/// there is none.
pub open spec fn receipt_may_go(r: IdempotencyReceipt, linked: LinkedRun) -> bool {
    (r.status@ == "complete"@ || r.status@ == "failed"@) && !(linked is Active) && !(
    linked is Unreadable)
}

proof fn over_holds(
    times: Seq<i128>,
    order: Seq<usize>,
    max: usize,
    age: i128,
    now: i128,
    n: int,
    i: int,
)
    requires
        0 <= i < n <= order.len(),
        is_over(times, order, max, age, now, i),
    ensures
        over(times, order, max, age, now, n).contains(order[i]),
    decreases n,
{
    let l = over(times, order, max, age, now, n);
    if i == n - 1 {
        assert(l.last() == order[i]);
    } else {
        over_holds(times, order, max, age, now, n - 1, i);
        let rest = over(times, order, max, age, now, n - 1);
        let k = choose|k: int| 0 <= k < rest.len() && rest[k] == order[i];
        assert(l[k] == order[i]);
    }
}

proof fn over_only(
    times: Seq<i128>,
    order: Seq<usize>,
    max: usize,
    age: i128,
    now: i128,
    n: int,
    j: int,
) -> (i: int)
    requires
        0 <= n <= order.len(),
        0 <= j < over(times, order, max, age, now, n).len(),
    ensures
        0 <= i < n,
        order[i] == over(times, order, max, age, now, n)[j],
        is_over(times, order, max, age, now, i),
    decreases n,
{
    if n > 0 {
        let rest = over(times, order, max, age, now, n - 1);
        if j < rest.len() {
            assert(over(times, order, max, age, now, n)[j] == rest[j]);
            over_only(times, order, max, age, now, n - 1, j)
        } else {
            n - 1
        }
    } else {
        0
    }
}

proof fn over_by_count(
    times: Seq<i128>,
    order: Seq<usize>,
    max: usize,
    age: i128,
    now: i128,
    n: int,
)
    requires
        0 <= n <= order.len(),
        forall|i: int|
            0 <= i < n && i < max ==> !is_over(times, order, max, age, now, i),
    ensures
        over(times, order, max, age, now, n).len() == if n <= max {
            0
        } else {
            n - max
        },
    decreases n,
{
    if n > 0 {
        over_by_count(times, order, max, age, now, n - 1);
    }
}

/// Of records with these instants the aged ones go, the newest stay, and none
/// goes for the count alone while there are not more than the count.
proof fn the_newest_stay(times: Seq<i128>, max: usize, age: i128, now: i128)
    requires
        times.len() <= usize::MAX,
    ensures
        forall|p: usize|
            p < times.len() && now - times[p as int] >= age ==> #[trigger] expired(
                times,
                max,
                age,
                now,
            ).contains(p),
        forall|p: usize, q: usize|
            p < times.len() && q < times.len() && #[trigger] expired(times, max, age, now).contains(
                p,
            ) && !#[trigger] expired(times, max, age, now).contains(q) ==> times[q as int]
                >= times[p as int],
        forall|p: usize|
            p < times.len() && now - times[p as int] < age && #[trigger] expired(
                times,
                max,
                age,
                now,
            ).contains(p) ==> times.len() - expired(times, max, age, now).len() == max,
{
    let major = latest(times);
    let keys = number_ranks(major, zeros(times.len()));
    let order = by_age(times);
    let n = times.len() as int;
    let gone = expired(times, max, age, now);
    numbers_are_ordered(major, zeros(times.len()));
    assert forall|i: int, j: int| 0 <= i < j < n implies times[#[trigger] order[i] as int]
        >= times[#[trigger] order[j] as int] by {
        assert(listed_before(keys, order[i] as int, order[j] as int));
    }
    assert forall|p: usize| p < times.len() && now - times[p as int] >= age implies
        #[trigger] gone.contains(p) by {
        assert(order.contains(p));
        let i = choose|i: int| 0 <= i < order.len() && order[i] == p;
        over_holds(times, order, max, age, now, n, i);
    }
    assert forall|p: usize, q: usize|
        p < times.len() && q < times.len() && #[trigger] gone.contains(p)
            && !#[trigger] gone.contains(q) implies times[q as int] >= times[p as int] by {
        let j = choose|j: int| 0 <= j < gone.len() && gone[j] == p;
        let i = over_only(times, order, max, age, now, n, j);
        assert(order.contains(q));
        let m = choose|m: int| 0 <= m < order.len() && order[m] == q;
        if is_over(times, order, max, age, now, m) {
            over_holds(times, order, max, age, now, n, m);
        }
        assert(order[i] == p && order[m] == q);
    }
    assert forall|p: usize|
        p < times.len() && now - times[p as int] < age && #[trigger] gone.contains(
            p,
        ) implies times.len() - gone.len() == max by {
        let j = choose|j: int| 0 <= j < gone.len() && gone[j] == p;
        let i = over_only(times, order, max, age, now, n, j);
        assert forall|m: int| 0 <= m < n && m < max implies !is_over(
            times,
            order,
            max,
            age,
            now,
            m,
        ) by {
            assert(order[m] < times.len());
            assert(times[order[m] as int] >= times[order[i] as int]);
        }
        over_by_count(times, order, max, age, now, n);
    }
}

proof fn expirable_is_complete(runs: Seq<RunRecord>, workspaces: Seq<bool>, n: int, k: int) -> (p:
    int)
    requires
        0 <= k < n <= runs.len() <= usize::MAX,
        may_expire(runs, workspaces, k),
    ensures
        0 <= p < expirable(runs, workspaces, n).len(),
        expirable(runs, workspaces, n)[p] == k,
    decreases n,
{
    if k == n - 1 {
        expirable(runs, workspaces, n).len() - 1
    } else {
        let p = expirable_is_complete(runs, workspaces, n - 1, k);
        assert(expirable(runs, workspaces, n)[p] == expirable(runs, workspaces, n - 1)[p]);
        p
    }
}

/// A clean-up removes only runs that may go. Those that are too old all go. Of
/// the others the newest stay: no run that stays is older than one that goes, and
/// none goes while there are not more than the policy keeps.
pub proof fn retention_keeps_the_newest_runs(
    policy: RetentionPolicy,
    runs: Seq<RunRecord>,
    workspaces: Seq<bool>,
    receipts: Seq<IdempotencyReceipt>,
    linked: Seq<LinkedRun>,
    now: i128,
    r: Result<RetentionPlan, String>,
    k: int,
    q: int,
)
    requires
        pruning(policy, runs, workspaces, receipts, linked, now, r),
        runs.len() <= usize::MAX,
        r is Ok,
        0 <= k < runs.len(),
        0 <= q < runs.len(),
    ensures
        r->Ok_0.runs@.contains(k as usize) ==> may_go(runs, workspaces, k),
        may_go(runs, workspaces, k) && now - runs[k].updated_at >= policy.terminal_run_age
            ==> r->Ok_0.runs@.contains(k as usize),
        r->Ok_0.runs@.contains(k as usize) && may_go(runs, workspaces, q)
            && !r->Ok_0.runs@.contains(q as usize) ==> runs[q].updated_at >= runs[k].updated_at,
        r->Ok_0.runs@.contains(k as usize) && now - runs[k].updated_at < policy.terminal_run_age
            ==> runs.len() - r->Ok_0.protected_runs - r->Ok_0.runs@.len()
            == policy.max_terminal_runs,
        runs.len() - r->Ok_0.protected_runs - r->Ok_0.runs@.len() <= policy.max_terminal_runs,
{
    let n = runs.len() as int;
    let at = expirable(runs, workspaces, n);
    let times = run_times(runs, at);
    let places = expired(times, policy.max_terminal_runs, policy.terminal_run_age, now);
    let gone = r->Ok_0.runs@;
    expirable_are_positions(runs, workspaces, n);
    the_newest_stay(times, policy.max_terminal_runs, policy.terminal_run_age, now);
    retention_is_bounded(policy, runs, workspaces, now);
    assert(may_expire(runs, workspaces, k) == may_go(runs, workspaces, k));
    assert(may_expire(runs, workspaces, q) == may_go(runs, workspaces, q));
    every_list_has_an_order(number_ranks(latest(times), zeros(times.len())));
    over_are_places(
        times,
        by_age(times),
        policy.max_terminal_runs,
        policy.terminal_run_age,
        now,
        times.len() as int,
    );
    if gone.contains(k as usize) {
        let j = choose|j: int| 0 <= j < gone.len() && gone[j] == k as usize;
        assert(gone[j] == at[places[j] as int]);
        assert(places.contains(places[j]));
        assert(times[places[j] as int] == runs[k].updated_at);
        if may_go(runs, workspaces, q) && !gone.contains(q as usize) {
            let p = expirable_is_complete(runs, workspaces, n, q);
            if places.contains(p as usize) {
                let m = choose|m: int| 0 <= m < places.len() && places[m] == p as usize;
                assert(gone[m] == at[p]);
            }
            assert(times[p] == runs[q].updated_at);
            assert(!places.contains(p as usize));
        }
    }
    if may_go(runs, workspaces, k) && now - runs[k].updated_at >= policy.terminal_run_age {
        let p = expirable_is_complete(runs, workspaces, n, k);
        assert(times[p] == runs[k].updated_at);
        assert(places.contains(p as usize));
        let m = choose|m: int| 0 <= m < places.len() && places[m] == p as usize;
        assert(gone[m] == at[p]);
    }
}

proof fn expirable_receipts_are_complete(
    receipts: Seq<IdempotencyReceipt>,
    linked: Seq<LinkedRun>,
    n: int,
    k: int,
) -> (p: int)
    requires
        0 <= k < n <= receipts.len() <= usize::MAX,
        receipt_may_expire(receipts[k], linked[k]),
    ensures
        0 <= p < expirable_receipts(receipts, linked, n).len(),
        expirable_receipts(receipts, linked, n)[p] == k,
    decreases n,
{
    if k == n - 1 {
        expirable_receipts(receipts, linked, n).len() - 1
    } else {
        let p = expirable_receipts_are_complete(receipts, linked, n - 1, k);
        assert(expirable_receipts(receipts, linked, n)[p] == expirable_receipts(
            receipts,
            linked,
            n - 1,
        )[p]);
        p
    }
}

/// A clean-up removes only receipts that may go. Those that are too old all go,
/// and no receipt that stays is older than one that goes.
pub proof fn retention_keeps_the_newest_receipts(
    policy: RetentionPolicy,
    runs: Seq<RunRecord>,
    workspaces: Seq<bool>,
    receipts: Seq<IdempotencyReceipt>,
    linked: Seq<LinkedRun>,
    now: i128,
    r: Result<RetentionPlan, String>,
    k: int,
    q: int,
)
    requires
        pruning(policy, runs, workspaces, receipts, linked, now, r),
        receipts.len() <= usize::MAX,
        r is Ok,
        0 <= k < receipts.len(),
        0 <= q < receipts.len(),
    ensures
        r->Ok_0.receipts@.contains(k as usize) ==> receipt_may_go(receipts[k], linked[k]),
        receipt_may_go(receipts[k], linked[k]) && now - receipts[k].created_at
            >= policy.idempotency_receipt_age ==> r->Ok_0.receipts@.contains(k as usize),
        r->Ok_0.receipts@.contains(k as usize) && receipt_may_go(receipts[q], linked[q])
            && !r->Ok_0.receipts@.contains(q as usize) ==> receipts[q].created_at
            >= receipts[k].created_at,
{
    let n = receipts.len() as int;
    let at = expirable_receipts(receipts, linked, n);
    let times = receipt_times(receipts, at);
    let places = expired(
        times,
        policy.max_idempotency_receipts,
        policy.idempotency_receipt_age,
        now,
    );
    let gone = r->Ok_0.receipts@;
    expirable_receipts_are_positions(receipts, linked, n);
    the_newest_stay(
        times,
        policy.max_idempotency_receipts,
        policy.idempotency_receipt_age,
        now,
    );
    every_list_has_an_order(number_ranks(latest(times), zeros(times.len())));
    over_are_places(
        times,
        by_age(times),
        policy.max_idempotency_receipts,
        policy.idempotency_receipt_age,
        now,
        times.len() as int,
    );
    if gone.contains(k as usize) {
        let j = choose|j: int| 0 <= j < gone.len() && gone[j] == k as usize;
        assert(gone[j] == at[places[j] as int]);
        assert(places.contains(places[j]));
        assert(times[places[j] as int] == receipts[k].created_at);
        if receipt_may_go(receipts[q], linked[q]) && !gone.contains(q as usize) {
            let p = expirable_receipts_are_complete(receipts, linked, n, q);
            if places.contains(p as usize) {
                let m = choose|m: int| 0 <= m < places.len() && places[m] == p as usize;
                assert(gone[m] == at[p]);
            }
            assert(times[p] == receipts[q].created_at);
            assert(!places.contains(p as usize));
        }
    }
    if receipt_may_go(receipts[k], linked[k]) && now - receipts[k].created_at
        >= policy.idempotency_receipt_age {
        let p = expirable_receipts_are_complete(receipts, linked, n, k);
        assert(times[p] == receipts[k].created_at);
        assert(places.contains(p as usize));
        let m = choose|m: int| 0 <= m < places.len() && places[m] == p as usize;
        assert(gone[m] == at[p]);
    }
}

/// A policy that would keep nothing is refused, and no other.
pub proof fn policies_keep_something(
    policy: RetentionPolicy,
    runs: Seq<RunRecord>,
    workspaces: Seq<bool>,
    receipts: Seq<IdempotencyReceipt>,
    linked: Seq<LinkedRun>,
    now: i128,
    r: Result<RetentionPlan, String>,
)
    requires
        pruning(policy, runs, workspaces, receipts, linked, now, r),
    ensures
        r is Ok <==> policy.max_terminal_runs > 0 && policy.max_idempotency_receipts > 0
            && policy.terminal_run_age > 0 && policy.idempotency_receipt_age > 0,
{
}

} // verus!
