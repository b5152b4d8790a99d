//! Control of a work graph: cancellation, timeouts, recovery, review and the
//! end of the whole graph.

use crate::error::{conflict, conflict_fault, invalid, invalid_fault, refused, OrchError};
use crate::order::{distinct_position, position_is_first};
use crate::run::holds;
use crate::swarm::authority::{finished_row, row_fault, ProviderAttemptRecord, SendCertainty};
use crate::swarm::ids::{LeaseId, WorkId};
use crate::swarm::lease::{made_uncertain, same_ids_same_shape, settle, settling};
use crate::swarm::scheduler::{
    AdmissionBlock, DispatchProbe, ReviewDecision, admissible, admission_stop, 
    recompute_derived, recomputed, recomputing_touches_derived_states_only, some_failure,
};
use crate::swarm::state::{
    attempt_ids, lease_at, lease_ids, record_at, record_ids, slots_held, truncate_text, uncertain,
    well_formed, GraphLifecycle, LeaseRecord, LeaseState, WorkGraphRecord, WorkRecord, WorkState,
    MAX_REASON_BYTES,
};
use crate::text::{byte_len, copy, fitted, utf8_len};
use vstd::prelude::*;
use vstd::string::*;

verus! {

/// The state a cancel request leads to. A child that may be running is never
/// declared cancelled.
pub open spec fn cancel_state(s: WorkState) -> WorkState {
    if s.derived() {
        WorkState::Cancelled
    } else if s is Leased || s is Running || s is Cancelling {
        WorkState::Cancelling
    } else {
        s
    }
}

/// The record of an item after a cancel request.
pub open spec fn cancelled_record(w: WorkRecord, now: i128) -> WorkRecord {
    if w.state.settled() {
        w
    } else {
        WorkRecord {
            state: cancel_state(w.state),
            current_lease_id: if w.state.derived() {
                None
            } else {
                w.current_lease_id
            },
            updated_at: now,
            ..w
        }
    }
}

/// A lease taken back.
pub open spec fn revoked_lease(l: LeaseRecord, now: i128) -> LeaseRecord {
    LeaseRecord { state: LeaseState::Revoked, settled_at: Some(now), ..l }
}

/// The lease at `j` is the one that an item held which never started.
pub open spec fn held_by_idle(g: WorkGraphRecord, i: int, j: int) -> bool {
    &&& g.work@[i].state.derived()
    &&& g.work@[i].current_lease_id is Some
    &&& lease_at(g.leases@, g.work@[i].current_lease_id->0@) == Some(j)
}

/// The leases after the item at `i` was cancelled.
pub open spec fn leases_after_cancel(g: WorkGraphRecord, i: int, now: i128) -> Seq<LeaseRecord> {
    Seq::new(
        g.leases@.len(),
        |j: int|
            if held_by_idle(g, i, j) && g.leases@[j].live() {
                revoked_lease(g.leases@[j], now)
            } else {
                g.leases@[j]
            },
    )
}

/// `mid` is `g` with the item at `i` cancelled, before the derived states are
/// computed anew.
pub open spec fn work_cancelled(
    g: WorkGraphRecord,
    mid: WorkGraphRecord,
    i: int,
    now: i128,
) -> bool {
    &&& mid == (WorkGraphRecord { leases: mid.leases, work: mid.work, updated_at: now, ..g })
    &&& mid.leases@ == leases_after_cancel(g, i, now)
    &&& mid.work@ == g.work@.update(i, cancelled_record(g.work@[i], now))
}

/// What holds of the graph and the answer after a cancel request.
pub open spec fn cancelling(
    g: WorkGraphRecord,
    after: WorkGraphRecord,
    r: Result<WorkState, OrchError>,
    id: Seq<char>,
    now: i128,
) -> bool {
    match record_at(g.work@, id) {
        None => after == g && refused(r, invalid_fault("cancel names undeclared work"@)),
        Some(i) => {
            &&& r == Ok::<WorkState, OrchError>(cancel_state(g.work@[i].state))
            &&& if g.work@[i].state.settled() {
                after == g
            } else {
                exists|mid: WorkGraphRecord| #[trigger]
                    work_cancelled(g, mid, i, now) && recomputed(mid, after, now)
            }
        },
    }
}

/// Requests cancellation of one work item.
///
/// An item that never started is cancelled outright. A live item settles only
/// when its owner confirms, and an uncertain dispatch is never cancelled blind.
pub fn cancel_work(record: &mut WorkGraphRecord, work_id: &WorkId, now: i128) -> (r: Result<
    WorkState,
    OrchError,
>)
    requires
        well_formed(*old(record)),
    ensures
        cancelling(*old(record), *final(record), r, work_id@, now),
        well_formed(*final(record)),
{
    let ghost g = *record;
    let i: usize = match record.find_record(work_id) {
        Some(i) => i,
        None => {
            return Err(invalid("cancel names undeclared work"));
        },
    };
    let state: WorkState = record.work[i].state;
    if state.is_settled() {
        return Ok(state);
    }
    let next: WorkState = match state {
        WorkState::Pending | WorkState::Ready | WorkState::Blocked => WorkState::Cancelled,
        WorkState::Leased | WorkState::Running | WorkState::Cancelling => WorkState::Cancelling,
        other => other,
    };
    if next == WorkState::Cancelled {
        let found: Option<usize> = match &record.work[i].current_lease_id {
            Some(lease_id) => record.find_lease(lease_id),
            None => None,
        };
        match found {
            Some(j) => {
                if record.leases[j].is_live() {
                    record.leases[j].state = LeaseState::Revoked;
                    record.leases[j].settled_at = Some(now);
                }
            },
            None => {},
        }
        record.work[i].current_lease_id = None;
    }
    record.work[i].state = next;
    record.work[i].updated_at = now;
    record.updated_at = now;
    let ghost mid = *record;
    proof {
        assert(mid.leases@ =~= leases_after_cancel(g, i as int, now));
        assert(mid.work@ =~= g.work@.update(i as int, cancelled_record(g.work@[i as int], now)));
        assert(work_cancelled(g, mid, i as int, now));
        assert(record_ids(mid.work@) =~= record_ids(g.work@));
        assert(lease_ids(mid.leases@) =~= lease_ids(g.leases@));
        same_ids_same_shape(g, mid);
    }
    recompute_derived(record, now);
    Ok(next)
}

/// Some of the first `n` items held the lease at `j` and never started.
pub open spec fn held_by_any_idle(g: WorkGraphRecord, j: int, n: int) -> bool {
    exists|i: int| 0 <= i < n && #[trigger] held_by_idle(g, i, j)
}

/// The leases after the first `n` items were cancelled.
pub open spec fn leases_after_cancels(g: WorkGraphRecord, n: int, now: i128) -> Seq<LeaseRecord> {
    Seq::new(
        g.leases@.len(),
        |j: int|
            if held_by_any_idle(g, j, n) && g.leases@[j].live() {
                revoked_lease(g.leases@[j], now)
            } else {
                g.leases@[j]
            },
    )
}

/// `w` differs from `before` at most in a derived state and its time.
pub open spec fn same_but_derived(before: WorkRecord, w: WorkRecord) -> bool {
    if before.state.derived() {
        w.state.derived() && w == (WorkRecord {
            state: w.state,
            updated_at: w.updated_at,
            ..before
        })
    } else {
        w == before
    }
}

/// `after` is `g` with the whole graph cancelled.
pub open spec fn graph_cancelled(
    g: WorkGraphRecord,
    after: WorkGraphRecord,
    reason: Seq<char>,
    now: i128,
) -> bool {
    &&& after == (WorkGraphRecord {
        lifecycle: GraphLifecycle::Cancelling,
        stop_reason: after.stop_reason,
        epoch: next_epoch(g.epoch),
        leases: after.leases,
        work: after.work,
        updated_at: now,
        ..g
    })
    &&& holds(after.stop_reason, fitted(reason, MAX_REASON_BYTES as nat))
    &&& after.leases@ == leases_after_cancels(g, g.work@.len() as int, now)
    &&& after.work@ == Seq::new(g.work@.len(), |i: int| cancelled_record(g.work@[i], now))
}

/// The epoch after this one.
pub open spec fn next_epoch(epoch: u64) -> u64 {
    if epoch == u64::MAX {
        epoch
    } else {
        (epoch + 1) as u64
    }
}

/// How far the cancellation of a graph has come: the first `n` items are done.
spec fn partly_cancelled(
    g: WorkGraphRecord,
    cur: WorkGraphRecord,
    reason: Seq<char>,
    n: int,
    now: i128,
) -> bool {
    &&& cur == (WorkGraphRecord {
        lifecycle: GraphLifecycle::Cancelling,
        stop_reason: cur.stop_reason,
        epoch: next_epoch(g.epoch),
        leases: cur.leases,
        work: cur.work,
        updated_at: cur.updated_at,
        ..g
    })
    &&& holds(cur.stop_reason, fitted(reason, MAX_REASON_BYTES as nat))
    &&& cur.leases@ == leases_after_cancels(g, n, now)
    &&& cur.work@.len() == g.work@.len()
    &&& forall|i: int|
        0 <= i < n ==> #[trigger] cur.work@[i] == cancelled_record(g.work@[i], now)
    &&& forall|i: int|
        n <= i < g.work@.len() ==> same_but_derived(g.work@[i], #[trigger] cur.work@[i])
}

proof fn cancel_one_more(
    g: WorkGraphRecord,
    cur: WorkGraphRecord,
    after: WorkGraphRecord,
    reason: Seq<char>,
    n: int,
    now: i128,
)
    requires
        well_formed(g),
        0 <= n < g.work@.len(),
        partly_cancelled(g, cur, reason, n, now),
        if cur.work@[n].state.settled() {
            after == cur
        } else {
            exists|mid: WorkGraphRecord| #[trigger]
                work_cancelled(cur, mid, n, now) && recomputed(mid, after, now)
        },
    ensures
        partly_cancelled(g, after, reason, n + 1, now),
{
    assert(same_but_derived(g.work@[n], cur.work@[n]));
    assert(lease_ids(cur.leases@) =~= lease_ids(g.leases@));
    assert forall|j: int| 0 <= j < g.leases@.len() implies held_by_any_idle(g, j, n + 1) == (
    held_by_any_idle(g, j, n) || held_by_idle(g, n, j)) by {
        if held_by_any_idle(g, j, n) {
            let i = choose|i: int| 0 <= i < n && #[trigger] held_by_idle(g, i, j);
            assert(0 <= i < n + 1 && held_by_idle(g, i, j));
        }
        if held_by_idle(g, n, j) {
            assert(0 <= n < n + 1 && held_by_idle(g, n, j));
        }
    }
    if cur.work@[n].state.settled() {
        assert(after.leases@ =~= leases_after_cancels(g, n + 1, now));
    } else {
        let mid = choose|mid: WorkGraphRecord| #[trigger]
            work_cancelled(cur, mid, n, now) && recomputed(mid, after, now);
        assert forall|j: int| 0 <= j < g.leases@.len() implies held_by_idle(cur, n, j)
            == held_by_idle(g, n, j) by {}
        assert(mid.leases@ =~= leases_after_cancels(g, n + 1, now));
        assert(cancelled_record(cur.work@[n], now) == cancelled_record(g.work@[n], now));
        assert forall|i: int| 0 <= i < n + 1 implies #[trigger] after.work@[i]
            == cancelled_record(g.work@[i], now) by {
            recomputing_touches_derived_states_only(mid, after, now, i);
            if i < n {
                assert(mid.work@[i] == cur.work@[i]);
            }
        }
        assert forall|i: int| n + 1 <= i < g.work@.len() implies same_but_derived(
            g.work@[i],
            #[trigger] after.work@[i],
        ) by {
            recomputing_touches_derived_states_only(mid, after, now, i);
            assert(mid.work@[i] == cur.work@[i]);
            assert(same_but_derived(g.work@[i], cur.work@[i]));
        }
    }
}

/// What holds of the graph and the answer after all of it was to be cancelled.
pub open spec fn graph_cancelling(
    g: WorkGraphRecord,
    after: WorkGraphRecord,
    r: Result<(), OrchError>,
    reason: Seq<char>,
    now: i128,
) -> bool {
    if g.lifecycle.terminal() {
        after == g && refused(
            r,
            conflict_fault("graph already reached a terminal lifecycle"@),
        )
    } else {
        r is Ok && graph_cancelled(g, after, reason, now)
    }
}

/// Stops admission for the whole graph and begins to wind down live children.
pub fn cancel_graph(record: &mut WorkGraphRecord, reason: &str, now: i128) -> (r: Result<
    (),
    OrchError,
>)
    requires
        well_formed(*old(record)),
    ensures
        graph_cancelling(*old(record), *final(record), r, reason@, now),
        well_formed(*final(record)),
{
    let ghost g = *record;
    if record.lifecycle.is_terminal() {
        return Err(conflict("graph already reached a terminal lifecycle"));
    }
    record.lifecycle = GraphLifecycle::Cancelling;
    record.stop_reason = Some(truncate_text(reason, MAX_REASON_BYTES));
    if record.epoch < u64::MAX {
        record.epoch = record.epoch + 1;
    }
    let count: usize = record.work.len();
    proof {
        assert(record.leases@ =~= leases_after_cancels(g, 0, now));
        assert(partly_cancelled(g, *record, reason@, 0, now));
        same_ids_same_shape(g, *record);
    }
    let mut n: usize = 0;
    while n < count
        invariant
            n <= count,
            count == g.work@.len(),
            well_formed(g),
            well_formed(*record),
            partly_cancelled(g, *record, reason@, n as int, now),
        decreases count - n,
    {
        let ghost cur = *record;
        let work_id: WorkId = record.work[n].work_id.clone();
        proof {
            distinct_position(record_ids(cur.work@), n as int);
        }
        let _ = cancel_work(record, &work_id, now)?;
        proof {
            cancel_one_more(g, cur, *record, reason@, n as int, now);
        }
        n = n + 1;
    }
    record.updated_at = now;
    proof {
        assert(record.work@ =~= Seq::new(
            g.work@.len(),
            |i: int| cancelled_record(g.work@[i], now),
        ));
    }
    Ok(())
}

/// A cancelled graph leaves nothing that could be admitted, keeps what was
/// settled, and still holds the slot of every child that may be running.
pub proof fn cancelled_graphs_admit_nothing(
    g: WorkGraphRecord,
    after: WorkGraphRecord,
    reason: Seq<char>,
    now: i128,
    i: int,
)
    requires
        graph_cancelled(g, after, reason, now),
        0 <= i < g.work@.len(),
    ensures
        !after.work@[i].state.derived(),
        g.work@[i].state.settled() ==> after.work@[i] == g.work@[i],
        g.work@[i].state.holds_slot() ==> after.work@[i].state.holds_slot(),
        admission_stop(after, now) == Some(AdmissionBlock::LifecycleStopped),
{
    assert(after.work@[i] == cancelled_record(g.work@[i], now));
}

/// The execution bound of a live lease has passed.
pub open spec fn overdue(l: LeaseRecord, now: i128) -> bool {
    l.live() && now >= l.expires_at
}

/// How many of the first `n` leases are overdue.
pub open spec fn overdue_count(leases: Seq<LeaseRecord>, n: int, now: i128) -> nat
    decreases n,
{
    if n <= 0 {
        0
    } else {
        overdue_count(leases, n - 1, now) + if overdue(leases[n - 1], now) {
            1nat
        } else {
            0nat
        }
    }
}

/// The last of the first `n` leases that is overdue and for this item.
pub open spec fn last_overdue(
    leases: Seq<LeaseRecord>,
    id: Seq<char>,
    n: int,
    now: i128,
) -> Option<int>
    decreases n,
{
    if n <= 0 {
        None
    } else if overdue(leases[n - 1], now) && leases[n - 1].work_id@ == id {
        Some(n - 1)
    } else {
        last_overdue(leases, id, n - 1, now)
    }
}

/// `w` is the record of an item whose lease ran out. A child that acknowledged
/// may still be running, so its fate is unknown.
pub open spec fn ran_out(before: WorkRecord, w: WorkRecord, lease: LeaseRecord, now: i128) -> bool {
    &&& w == (WorkRecord {
        state: if lease.state is Acknowledged {
            WorkState::DispatchUncertain
        } else {
            WorkState::TimedOut
        },
        current_lease_id: None,
        last_error: w.last_error,
        updated_at: now,
        ..before
    })
    &&& holds(w.last_error, "execution bound expired"@)
}

/// `w` is what the first `n` leases leave of the record of an item.
pub open spec fn swept_record(
    before: WorkRecord,
    w: WorkRecord,
    leases: Seq<LeaseRecord>,
    n: int,
    now: i128,
) -> bool {
    match last_overdue(leases, before.work_id@, n, now) {
        None => w == before,
        Some(j) => ran_out(before, w, leases[j], now),
    }
}

/// The leases after those of the first `n` that are overdue were revoked.
pub open spec fn swept_leases(leases: Seq<LeaseRecord>, n: int, now: i128) -> Seq<LeaseRecord> {
    Seq::new(
        leases.len(),
        |j: int|
            if j < n && overdue(leases[j], now) {
                revoked_lease(leases[j], now)
            } else {
                leases[j]
            },
    )
}

/// `mid` is `g` with every overdue lease revoked, before the derived states are
/// computed anew.
pub open spec fn swept(g: WorkGraphRecord, mid: WorkGraphRecord, now: i128) -> bool {
    let n = g.leases@.len() as int;
    &&& mid == (WorkGraphRecord { leases: mid.leases, work: mid.work, updated_at: now, ..g })
    &&& mid.leases@ == swept_leases(g.leases@, n, now)
    &&& mid.work@.len() == g.work@.len()
    &&& forall|i: int|
        0 <= i < g.work@.len() ==> swept_record(
            g.work@[i],
            #[trigger] mid.work@[i],
            g.leases@,
            n,
            now,
        )
}

/// What holds after leases were swept.
pub open spec fn sweeping(g: WorkGraphRecord, after: WorkGraphRecord, count: usize, now: i128) -> bool {
    &&& count == overdue_count(g.leases@, g.leases@.len() as int, now)
    &&& if count == 0 {
        after == g
    } else {
        exists|mid: WorkGraphRecord| #[trigger]
            swept(g, mid, now) && recomputed(mid, after, now)
    }
}

/// Expires leases whose execution bound has passed: they are revoked, never
/// used again.
pub fn sweep_timeouts(record: &mut WorkGraphRecord, now: i128) -> (count: usize)
    requires
        well_formed(*old(record)),
    ensures
        sweeping(*old(record), *final(record), count, now),
        well_formed(*final(record)),
{
    let ghost g = *record;
    let n: usize = record.leases.len();
    let mut count: usize = 0;
    let mut j: usize = 0;
    proof {
        assert(swept_leases(g.leases@, 0, now) =~= g.leases@);
    }
    while j < n
        invariant
            j <= n,
            n == g.leases@.len(),
            count <= j,
            count == overdue_count(g.leases@, j as int, now),
            count == 0 ==> *record == g,
            well_formed(g),
            *record == (WorkGraphRecord { leases: record.leases, work: record.work, ..g }),
            record.leases@ == swept_leases(g.leases@, j as int, now),
            record.work@.len() == g.work@.len(),
            record_ids(record.work@) == record_ids(g.work@),
            forall|i: int|
                0 <= i < g.work@.len() ==> swept_record(
                    g.work@[i],
                    #[trigger] record.work@[i],
                    g.leases@,
                    j as int,
                    now,
                ),
        decreases n - j,
    {
        let ghost cur = *record;
        proof {
            assert(record.leases@[j as int] == g.leases@[j as int]);
        }
        if record.leases[j].is_live() && now >= record.leases[j].expires_at {
            let ran: bool = record.leases[j].state == LeaseState::Acknowledged;
            let work_id: WorkId = record.leases[j].work_id.clone();
            record.leases[j].state = LeaseState::Revoked;
            record.leases[j].settled_at = Some(now);
            match record.find_record(&work_id) {
                Some(i) => {
                    record.work[i].state = if ran {
                        WorkState::DispatchUncertain
                    } else {
                        WorkState::TimedOut
                    };
                    record.work[i].current_lease_id = None;
                    record.work[i].last_error = Some(copy("execution bound expired"));
                    record.work[i].updated_at = now;
                },
                None => {},
            }
            count = count + 1;
            proof {
                assert(record.leases@ =~= swept_leases(g.leases@, j + 1, now));
                assert(record_ids(record.work@) =~= record_ids(cur.work@));
                let ids = record_ids(g.work@);
                position_is_first(ids, work_id@, 0);
                assert forall|i: int| 0 <= i < g.work@.len() implies swept_record(
                    g.work@[i],
                    #[trigger] record.work@[i],
                    g.leases@,
                    j + 1,
                    now,
                ) by {
                    assert(swept_record(g.work@[i], cur.work@[i], g.leases@, j as int, now));
                    assert(ids[i] == g.work@[i].work_id@);
                    if ids[i] == work_id@ {
                        distinct_position(ids, i);
                    }
                }
            }
        } else {
            proof {
                assert(swept_leases(g.leases@, j + 1, now) =~= swept_leases(
                    g.leases@,
                    j as int,
                    now,
                ));
                assert forall|i: int| 0 <= i < g.work@.len() implies swept_record(
                    g.work@[i],
                    #[trigger] record.work@[i],
                    g.leases@,
                    j + 1,
                    now,
                ) by {
                    assert(swept_record(g.work@[i], cur.work@[i], g.leases@, j as int, now));
                }
            }
        }
        j = j + 1;
    }
    if count > 0 {
        record.updated_at = now;
        let ghost mid = *record;
        proof {
            assert(swept(g, mid, now));
            assert(lease_ids(mid.leases@) =~= lease_ids(g.leases@));
            same_ids_same_shape(g, mid);
        }
        recompute_derived(record, now);
    }
    count
}

/// What a restart found.
#[derive(Debug, Clone, Copy, PartialEq, Eq, Structural)]
pub struct RecoveryReport {
    pub leases_marked_uncertain: usize,
    pub attempts_marked_uncertain: usize,
    pub orphaned_work: usize,
}

impl Default for RecoveryReport {
    fn default() -> (r: RecoveryReport)
        ensures
            r == (RecoveryReport {
                leases_marked_uncertain: 0,
                attempts_marked_uncertain: 0,
                orphaned_work: 0,
            }),
    {
        RecoveryReport {
            leases_marked_uncertain: 0,
            attempts_marked_uncertain: 0,
            orphaned_work: 0,
        }
    }
}

/// The lease was written and never acknowledged.
pub open spec fn unacknowledged(l: LeaseRecord) -> bool {
    l.state is Issued || l.state is Claimed
}

/// `l` is what a restart leaves of a lease.
pub open spec fn recovered_lease(before: LeaseRecord, l: LeaseRecord) -> bool {
    if unacknowledged(before) {
        l == (LeaseRecord {
            state: LeaseState::Uncertain,
            uncertain_reason: l.uncertain_reason,
            ..before
        }) && holds(l.uncertain_reason, "process restarted before acknowledgement"@)
    } else {
        l == before
    }
}

/// How many of the first `n` leases were never acknowledged.
pub open spec fn unacknowledged_count(leases: Seq<LeaseRecord>, n: int) -> nat
    decreases n,
{
    if n <= 0 {
        0
    } else {
        unacknowledged_count(leases, n - 1) + if unacknowledged(leases[n - 1]) {
            1nat
        } else {
            0nat
        }
    }
}

/// One of the first `n` leases was for this item and never acknowledged.
pub open spec fn left_open(leases: Seq<LeaseRecord>, id: Seq<char>, n: int) -> bool {
    exists|j: int|
        0 <= j < n && unacknowledged(#[trigger] leases[j]) && leases[j].work_id@ == id
}

/// What a restart leaves of an attempt.
pub open spec fn recovered_attempt(a: ProviderAttemptRecord, now: i128) -> ProviderAttemptRecord {
    finished_row(a, SendCertainty::UncertainAccept, None, None, now)
}

/// How many of the first `n` attempts a restart marks as possibly accepted.
pub open spec fn recovered_count(
    attempts: Seq<ProviderAttemptRecord>,
    n: int,
    now: i128,
) -> nat
    decreases n,
{
    if n <= 0 {
        0
    } else {
        recovered_count(attempts, n - 1, now) + if attempts[n - 1].state is Admitted
            && row_fault(recovered_attempt(attempts[n - 1], now)) is None {
            1nat
        } else {
            0nat
        }
    }
}

/// The item runs without a lease, and no lease tells of it.
pub open spec fn orphaned(g: WorkGraphRecord, i: int) -> bool {
    &&& g.work@[i].state is Running
    &&& g.work@[i].current_lease_id is None
    &&& !left_open(g.leases@, g.work@[i].work_id@, g.leases@.len() as int)
}

/// How many of the first `n` items are orphaned.
pub open spec fn orphan_count(g: WorkGraphRecord, n: int) -> nat
    decreases n,
{
    if n <= 0 {
        0
    } else {
        orphan_count(g, n - 1) + if orphaned(g, n - 1) {
            1nat
        } else {
            0nat
        }
    }
}

/// What a restart leaves of the item at `i`.
pub open spec fn recovered_record(g: WorkGraphRecord, i: int, now: i128) -> WorkRecord {
    if left_open(g.leases@, g.work@[i].work_id@, g.leases@.len() as int) || orphaned(g, i) {
        made_uncertain(g.work@[i], now)
    } else {
        g.work@[i]
    }
}

/// `mid` is what a restart leaves of the graph, before the derived states are
/// computed anew.
pub open spec fn recovered(
    g: WorkGraphRecord,
    mid: WorkGraphRecord,
    report: RecoveryReport,
    now: i128,
) -> bool {
    &&& mid == (WorkGraphRecord {
        leases: mid.leases,
        attempts: mid.attempts,
        work: mid.work,
        updated_at: now,
        ..g
    })
    &&& mid.leases@.len() == g.leases@.len()
    &&& forall|j: int|
        0 <= j < g.leases@.len() ==> recovered_lease(g.leases@[j], #[trigger] mid.leases@[j])
    &&& mid.attempts@ == Seq::new(
        g.attempts@.len(),
        |j: int| recovered_attempt(g.attempts@[j], now),
    )
    &&& mid.work@ == Seq::new(g.work@.len(), |i: int| recovered_record(g, i, now))
    &&& report.leases_marked_uncertain == unacknowledged_count(
        g.leases@,
        g.leases@.len() as int,
    )
    &&& report.attempts_marked_uncertain == recovered_count(
        g.attempts@,
        g.attempts@.len() as int,
        now,
    )
    &&& report.orphaned_work == orphan_count(g, g.work@.len() as int)
}

fn recover_leases(record: &mut WorkGraphRecord, now: i128) -> (count: usize)
    requires
        well_formed(*old(record)),
    ensures
        *final(record) == (WorkGraphRecord {
            leases: final(record).leases,
            work: final(record).work,
            ..*old(record)
        }),
        count == unacknowledged_count(old(record).leases@, old(record).leases@.len() as int),
        final(record).leases@.len() == old(record).leases@.len(),
        forall|j: int|
            0 <= j < old(record).leases@.len() ==> recovered_lease(
                old(record).leases@[j],
                #[trigger] final(record).leases@[j],
            ),
        final(record).work@ == Seq::new(
            old(record).work@.len(),
            |i: int|
                if left_open(
                    old(record).leases@,
                    old(record).work@[i].work_id@,
                    old(record).leases@.len() as int,
                ) {
                    made_uncertain(old(record).work@[i], now)
                } else {
                    old(record).work@[i]
                },
        ),
{
    let ghost g = *record;
    let n: usize = record.leases.len();
    let mut count: usize = 0;
    let mut j: usize = 0;
    while j < n
        invariant
            j <= n,
            n == g.leases@.len(),
            count <= j,
            count == unacknowledged_count(g.leases@, j as int),
            well_formed(g),
            *record == (WorkGraphRecord { leases: record.leases, work: record.work, ..g }),
            record.leases@.len() == n,
            forall|k: int|
                0 <= k < j ==> recovered_lease(g.leases@[k], #[trigger] record.leases@[k]),
            forall|k: int| j <= k < n ==> #[trigger] record.leases@[k] == g.leases@[k],
            record.work@.len() == g.work@.len(),
            forall|i: int|
                0 <= i < g.work@.len() ==> #[trigger] record.work@[i] == if left_open(
                    g.leases@,
                    g.work@[i].work_id@,
                    j as int,
                ) {
                    made_uncertain(g.work@[i], now)
                } else {
                    g.work@[i]
                },
        decreases n - j,
    {
        let ghost cur = *record;
        let state: LeaseState = record.leases[j].state;
        proof {
            assert(record_ids(cur.work@) =~= record_ids(g.work@));
            assert(cur.leases@[j as int] == g.leases@[j as int]);
        }
        if state == LeaseState::Issued || state == LeaseState::Claimed {
            let work_id: WorkId = record.leases[j].work_id.clone();
            record.leases[j].state = LeaseState::Uncertain;
            record.leases[j].uncertain_reason = Some(
                copy("process restarted before acknowledgement"),
            );
            match record.find_record(&work_id) {
                Some(i) => {
                    record.work[i].state = WorkState::DispatchUncertain;
                    record.work[i].updated_at = now;
                },
                None => {},
            }
            count = count + 1;
            proof {
                let ids = record_ids(g.work@);
                position_is_first(ids, work_id@, 0);
                assert forall|i: int| 0 <= i < g.work@.len() implies #[trigger] record.work@[i]
                    == if left_open(g.leases@, g.work@[i].work_id@, j + 1) {
                    made_uncertain(g.work@[i], now)
                } else {
                    g.work@[i]
                } by {
                    let id = g.work@[i].work_id@;
                    assert(ids[i] == id);
                    assert(cur.work@[i].work_id@ == id);
                    if id == work_id@ {
                        distinct_position(ids, i);
                        assert(unacknowledged(g.leases@[j as int]));
                    } else {
                        assert(left_open(g.leases@, id, j + 1) == left_open(
                            g.leases@,
                            id,
                            j as int,
                        ));
                    }
                }
            }
        } else {
            proof {
                assert forall|i: int| 0 <= i < g.work@.len() implies left_open(
                    g.leases@,
                    (#[trigger] g.work@[i]).work_id@,
                    j + 1,
                ) == left_open(g.leases@, g.work@[i].work_id@, j as int) by {
                    assert(!unacknowledged(g.leases@[j as int]));
                }
            }
        }
        j = j + 1;
    }
    proof {
        assert(record.work@ =~= Seq::new(
            g.work@.len(),
            |i: int|
                if left_open(g.leases@, g.work@[i].work_id@, g.leases@.len() as int) {
                    made_uncertain(g.work@[i], now)
                } else {
                    g.work@[i]
                },
        ));
    }
    count
}

fn recover_attempts(record: &mut WorkGraphRecord, now: i128) -> (count: usize)
    ensures
        *final(record) == (WorkGraphRecord { attempts: final(record).attempts, ..*old(record) }),
        count == recovered_count(old(record).attempts@, old(record).attempts@.len() as int, now),
        final(record).attempts@ == Seq::new(
            old(record).attempts@.len(),
            |j: int| recovered_attempt(old(record).attempts@[j], now),
        ),
{
    let ghost g = *record;
    let n: usize = record.attempts.len();
    let mut count: usize = 0;
    let mut j: usize = 0;
    while j < n
        invariant
            j <= n,
            n == g.attempts@.len(),
            count <= j,
            count == recovered_count(g.attempts@, j as int, now),
            *record == (WorkGraphRecord { attempts: record.attempts, ..g }),
            record.attempts@.len() == n,
            forall|k: int|
                0 <= k < n ==> #[trigger] record.attempts@[k] == if k < j {
                    recovered_attempt(g.attempts@[k], now)
                } else {
                    g.attempts@[k]
                },
        decreases n - j,
    {
        proof {
            assert(record.attempts@[j as int] == g.attempts@[j as int]);
        }
        let marked: bool = match record.attempts[j].recover_uncertain(now) {
            Ok(marked) => marked,
            Err(_) => false,
        };
        if marked {
            count = count + 1;
        }
        j = j + 1;
    }
    proof {
        assert(record.attempts@ =~= Seq::new(
            g.attempts@.len(),
            |j: int| recovered_attempt(g.attempts@[j], now),
        ));
    }
    count
}

fn recover_orphans(record: &mut WorkGraphRecord, now: i128) -> (count: usize)
    ensures
        *final(record) == (WorkGraphRecord { work: final(record).work, ..*old(record) }),
        count == lost_count(old(record).work@, old(record).work@.len() as int),
        final(record).work@ == Seq::new(
            old(record).work@.len(),
            |i: int|
                if lost(old(record).work@[i]) {
                    made_uncertain(old(record).work@[i], now)
                } else {
                    old(record).work@[i]
                },
        ),
{
    let ghost g = *record;
    let n: usize = record.work.len();
    let mut count: usize = 0;
    let mut i: usize = 0;
    while i < n
        invariant
            i <= n,
            n == g.work@.len(),
            count <= i,
            count == lost_count(g.work@, i as int),
            *record == (WorkGraphRecord { work: record.work, ..g }),
            record.work@.len() == n,
            forall|k: int|
                0 <= k < n ==> #[trigger] record.work@[k] == if k < i && lost(g.work@[k]) {
                    made_uncertain(g.work@[k], now)
                } else {
                    g.work@[k]
                },
        decreases n - i,
    {
        proof {
            assert(record.work@[i as int] == g.work@[i as int]);
        }
        if record.work[i].state == WorkState::Running && record.work[i].current_lease_id.is_none() {
            record.work[i].state = WorkState::DispatchUncertain;
            record.work[i].updated_at = now;
            count = count + 1;
        }
        i = i + 1;
    }
    proof {
        assert(record.work@ =~= Seq::new(
            g.work@.len(),
            |i: int|
                if lost(g.work@[i]) {
                    made_uncertain(g.work@[i], now)
                } else {
                    g.work@[i]
                },
        ));
    }
    count
}

/// The item runs without a lease.
spec fn lost(w: WorkRecord) -> bool {
    w.state is Running && w.current_lease_id is None
}

spec fn lost_count(work: Seq<WorkRecord>, n: int) -> nat
    decreases n,
{
    if n <= 0 {
        0
    } else {
        lost_count(work, n - 1) + if lost(work[n - 1]) {
            1nat
        } else {
            0nat
        }
    }
}

proof fn lost_are_orphans(g: WorkGraphRecord, work: Seq<WorkRecord>, n: int, now: i128)
    requires
        work == Seq::new(
            g.work@.len(),
            |i: int|
                if left_open(g.leases@, g.work@[i].work_id@, g.leases@.len() as int) {
                    made_uncertain(g.work@[i], now)
                } else {
                    g.work@[i]
                },
        ),
        0 <= n <= g.work@.len(),
    ensures
        lost_count(work, n) == orphan_count(g, n),
    decreases n,
{
    if n > 0 {
        lost_are_orphans(g, work, n - 1, now);
        assert(lost(work[n - 1]) == orphaned(g, n - 1));
    }
}

/// What holds of the graph and the report after a restart.
pub open spec fn recovering(
    g: WorkGraphRecord,
    after: WorkGraphRecord,
    report: RecoveryReport,
    now: i128,
) -> bool {
    exists|mid: WorkGraphRecord| #[trigger]
        recovered(g, mid, report, now) && recomputed(mid, after, now)
}

/// Recovers a graph after a restart.
///
/// A lease that was never acknowledged becomes uncertain; an acknowledged one
/// can be probed and is left running. An attempt without an outcome becomes
/// possibly accepted.
pub fn recover(record: &mut WorkGraphRecord, now: i128) -> (report: RecoveryReport)
    requires
        well_formed(*old(record)),
    ensures
        recovering(*old(record), *final(record), report, now),
        well_formed(*final(record)),
{
    let ghost g = *record;
    let leases: usize = recover_leases(record, now);
    let ghost opened = *record;
    let attempts: usize = recover_attempts(record, now);
    let orphans: usize = recover_orphans(record, now);
    record.updated_at = now;
    let report = RecoveryReport {
        leases_marked_uncertain: leases,
        attempts_marked_uncertain: attempts,
        orphaned_work: orphans,
    };
    let ghost mid = *record;
    proof {
        lost_are_orphans(g, opened.work@, g.work@.len() as int, now);
        assert(mid.work@ =~= Seq::new(g.work@.len(), |i: int| recovered_record(g, i, now)));
        assert(recovered(g, mid, report, now));
        assert(record_ids(mid.work@) =~= record_ids(g.work@));
        assert forall|j: int| 0 <= j < g.leases@.len() implies (
        #[trigger] mid.leases@[j]).lease_id == g.leases@[j].lease_id by {
            assert(recovered_lease(g.leases@[j], mid.leases@[j]));
        }
        assert(lease_ids(mid.leases@) =~= lease_ids(g.leases@));
        assert(attempt_ids(mid.attempts@) =~= attempt_ids(g.attempts@));
        same_ids_same_shape(g, mid);
    }
    recompute_derived(record, now);
    report
}

/// After a recovery no lease waits for an acknowledgement, every attempt has an
/// outcome, no item runs without a lease, and no item whose fate is unknown may
/// be dispatched.
pub proof fn recovery_leaves_nothing_open(
    g: WorkGraphRecord,
    mid: WorkGraphRecord,
    after: WorkGraphRecord,
    report: RecoveryReport,
    now: i128,
    i: int,
    j: int,
    k: int,
)
    requires
        recovered(g, mid, report, now),
        recomputed(mid, after, now),
        0 <= i < g.work@.len(),
        0 <= j < g.leases@.len(),
        0 <= k < g.attempts@.len(),
    ensures
        !unacknowledged(after.leases@[j]),
        after.attempts@[k].state is Finished,
        !(after.work@[i].state is Running && after.work@[i].current_lease_id is None),
        g.leases@[j].state is Acknowledged ==> after.leases@[j] == g.leases@[j],
        left_open(g.leases@, g.work@[i].work_id@, g.leases@.len() as int)
            ==> after.work@[i].state is DispatchUncertain && !admissible(after, i),
{
    assert(recovered_lease(g.leases@[j], mid.leases@[j]));
    assert(mid.attempts@[k] == recovered_attempt(g.attempts@[k], now));
    recomputing_touches_derived_states_only(mid, after, now, i);
    assert(mid.work@[i] == recovered_record(g, i, now));
}

/// `mid` is `g` with the lease at `j` proven never to have started.
pub open spec fn never_started(
    g: WorkGraphRecord,
    mid: WorkGraphRecord,
    j: int,
    now: i128,
) -> bool {
    &&& mid == (WorkGraphRecord { leases: mid.leases, work: mid.work, updated_at: now, ..g })
    &&& mid.leases@ == g.leases@.update(j, mid.leases@[j])
    &&& mid.leases@[j] == (LeaseRecord {
        uncertain_reason: mid.leases@[j].uncertain_reason,
        ..revoked_lease(g.leases@[j], now)
    })
    &&& holds(mid.leases@[j].uncertain_reason, "proven never started"@)
    &&& mid.work@ == match record_at(g.work@, g.leases@[j].work_id@) {
        None => g.work@,
        Some(i) => g.work@.update(
            i,
            WorkRecord {
                state: WorkState::Ready,
                current_lease_id: None,
                updated_at: now,
                ..g.work@[i]
            },
        ),
    }
}

/// `after` is `g` with the lease at `j` proven to be running.
pub open spec fn still_running(
    g: WorkGraphRecord,
    after: WorkGraphRecord,
    j: int,
    external_ref: Seq<char>,
    now: i128,
) -> bool {
    &&& after == (WorkGraphRecord {
        leases: after.leases,
        work: after.work,
        updated_at: now,
        ..g
    })
    &&& after.leases@ == g.leases@.update(j, after.leases@[j])
    &&& after.leases@[j] == (LeaseRecord {
        state: LeaseState::Acknowledged,
        external_ref: after.leases@[j].external_ref,
        acknowledged_at: Some(now),
        uncertain_reason: None,
        ..g.leases@[j]
    })
    &&& holds(after.leases@[j].external_ref, external_ref)
    &&& match record_at(g.work@, g.leases@[j].work_id@) {
        None => after.work@ == g.work@,
        Some(i) => {
            &&& after.work@ == g.work@.update(i, after.work@[i])
            &&& after.work@[i] == (WorkRecord {
                state: WorkState::Running,
                current_lease_id: after.work@[i].current_lease_id,
                updated_at: now,
                ..g.work@[i]
            })
            &&& after.work@[i].current_lease_id is Some
            &&& after.work@[i].current_lease_id->0@ == g.leases@[j].lease_id@
        },
    }
}

/// What holds of the graph and the answer after an uncertain lease was probed.
pub open spec fn reconciling(
    g: WorkGraphRecord,
    after: WorkGraphRecord,
    r: Result<bool, OrchError>,
    lease_id: Seq<char>,
    probe: DispatchProbe,
    now: i128,
) -> bool {
    match lease_at(g.leases@, lease_id) {
        None => after == g && refused(r, invalid_fault("lease is not in the ledger"@)),
        Some(j) => if !(g.leases@[j].state is Uncertain) {
            after == g && refused(r, conflict_fault("lease is not uncertain"@))
        } else {
            match probe {
                DispatchProbe::Unknown => after == g && r == Ok::<bool, OrchError>(false),
                DispatchProbe::NotStarted => r == Ok::<bool, OrchError>(true)
                    && exists|mid: WorkGraphRecord| #[trigger]
                    never_started(g, mid, j, now) && recomputed(mid, after, now),
                DispatchProbe::Running { external_ref } => if external_ref@.len() == 0
                    || utf8_len(external_ref@) > 512 {
                    after == g && refused(r, invalid_fault("external reference is invalid"@))
                } else {
                    r == Ok::<bool, OrchError>(true) && still_running(
                        g,
                        after,
                        j,
                        external_ref@,
                        now,
                    )
                },
                DispatchProbe::Settled { outcome } => match r {
                    Ok(b) => b && settling(g, after, Ok(()), lease_id, outcome, now),
                    Err(e) => settling(g, after, Err(e), lease_id, outcome, now),
                },
            }
        },
    }
}

fn prove_never_started(record: &mut WorkGraphRecord, j: usize, now: i128)
    requires
        j < old(record).leases@.len(),
        well_formed(*old(record)),
    ensures
        exists|mid: WorkGraphRecord| #[trigger]
            never_started(*old(record), mid, j as int, now) && recomputed(
                mid,
                *final(record),
                now,
            ),
        well_formed(*final(record)),
{
    let ghost g = *record;
    let work_id: WorkId = record.leases[j].work_id.clone();
    record.leases[j].state = LeaseState::Revoked;
    record.leases[j].settled_at = Some(now);
    record.leases[j].uncertain_reason = Some(copy("proven never started"));
    match record.find_record(&work_id) {
        Some(i) => {
            record.work[i].state = WorkState::Ready;
            record.work[i].current_lease_id = None;
            record.work[i].updated_at = now;
            proof {
                assert(record.work@ =~= g.work@.update(
                    i as int,
                    WorkRecord {
                        state: WorkState::Ready,
                        current_lease_id: None,
                        updated_at: now,
                        ..g.work@[i as int]
                    },
                ));
            }
        },
        None => {},
    }
    record.updated_at = now;
    let ghost mid = *record;
    proof {
        assert(mid.leases@ =~= g.leases@.update(j as int, mid.leases@[j as int]));
        assert(never_started(g, mid, j as int, now));
        assert(record_ids(mid.work@) =~= record_ids(g.work@));
        assert(lease_ids(mid.leases@) =~= lease_ids(g.leases@));
        same_ids_same_shape(g, mid);
    }
    recompute_derived(record, now);
}

fn prove_running(record: &mut WorkGraphRecord, j: usize, external_ref: &str, now: i128)
    requires
        j < old(record).leases@.len(),
        well_formed(*old(record)),
    ensures
        still_running(*old(record), *final(record), j as int, external_ref@, now),
        well_formed(*final(record)),
{
    let ghost g = *record;
    let work_id: WorkId = record.leases[j].work_id.clone();
    let lease_id: LeaseId = record.leases[j].lease_id.clone();
    record.leases[j].state = LeaseState::Acknowledged;
    record.leases[j].external_ref = Some(copy(external_ref));
    record.leases[j].acknowledged_at = Some(now);
    record.leases[j].uncertain_reason = None;
    match record.find_record(&work_id) {
        Some(i) => {
            record.work[i].state = WorkState::Running;
            record.work[i].current_lease_id = Some(lease_id);
            record.work[i].updated_at = now;
            proof {
                assert(record.work@ =~= g.work@.update(i as int, record.work@[i as int]));
            }
        },
        None => {},
    }
    record.updated_at = now;
    proof {
        assert(record.leases@ =~= g.leases@.update(j as int, record.leases@[j as int]));
        assert(record_ids(record.work@) =~= record_ids(g.work@));
        assert(lease_ids(record.leases@) =~= lease_ids(g.leases@));
        same_ids_same_shape(g, *record);
    }
}

/// Resolves an uncertain lease with positive evidence. Without evidence nothing
/// is resolved.
pub fn reconcile_uncertain(
    record: &mut WorkGraphRecord,
    lease_id: &LeaseId,
    probe: &DispatchProbe,
    now: i128,
) -> (r: Result<bool, OrchError>)
    requires
        well_formed(*old(record)),
    ensures
        reconciling(*old(record), *final(record), r, lease_id@, *probe, now),
        well_formed(*final(record)),
{
    let j: usize = match record.find_lease(lease_id) {
        Some(j) => j,
        None => {
            return Err(invalid("lease is not in the ledger"));
        },
    };
    if record.leases[j].state != LeaseState::Uncertain {
        return Err(conflict("lease is not uncertain"));
    }
    match probe {
        DispatchProbe::Unknown => Ok(false),
        DispatchProbe::NotStarted => {
            prove_never_started(record, j, now);
            Ok(true)
        },
        DispatchProbe::Running { external_ref } => {
            if external_ref.as_str().is_empty() || byte_len(external_ref.as_str()) > 512 {
                return Err(invalid("external reference is invalid"));
            }
            prove_running(record, j, external_ref.as_str(), now);
            Ok(true)
        },
        DispatchProbe::Settled { outcome } => match settle(record, lease_id, outcome, now) {
            Ok(()) => Ok(true),
            Err(e) => Err(e),
        },
    }
}

/// The state a decision leads to. To keep a result leaves the item as it is: a
/// success stays one, and nothing else becomes one.
pub open spec fn decided_state(s: WorkState, decision: ReviewDecision) -> WorkState {
    match decision {
        ReviewDecision::Keep => s,
        ReviewDecision::Discard => WorkState::Discarded,
    }
}

/// `mid` is `g` with a decision applied to the item at `i`.
pub open spec fn decided(
    g: WorkGraphRecord,
    mid: WorkGraphRecord,
    i: int,
    decision: ReviewDecision,
    now: i128,
) -> bool {
    &&& mid == (WorkGraphRecord { work: mid.work, updated_at: now, ..g })
    &&& mid.work@ == g.work@.update(
        i,
        WorkRecord {
            state: decided_state(g.work@[i].state, decision),
            updated_at: now,
            ..g.work@[i]
        },
    )
}

/// What holds of the graph and the answer after an operator decided.
pub open spec fn deciding(
    g: WorkGraphRecord,
    after: WorkGraphRecord,
    r: Result<WorkState, OrchError>,
    id: Seq<char>,
    decision: ReviewDecision,
    now: i128,
) -> bool {
    match record_at(g.work@, id) {
        None => after == g && refused(r, invalid_fault("review names undeclared work"@)),
        Some(i) => if !(g.work@[i].state is Succeeded) && decision is Discard {
            after == g && refused(
                r,
                conflict_fault("only a succeeded work item can be discarded"@),
            )
        } else {
            r == Ok::<WorkState, OrchError>(decided_state(g.work@[i].state, decision))
                && exists|mid: WorkGraphRecord| #[trigger]
                decided(g, mid, i, decision, now) && recomputed(mid, after, now)
        },
    }
}

/// Applies an operator's decision to a reviewed work item. There is nothing to
/// discard of an item that did not succeed, and no decision makes a success of
/// an item that is none.
pub fn review_work(
    record: &mut WorkGraphRecord,
    work_id: &WorkId,
    decision: ReviewDecision,
    now: i128,
) -> (r: Result<WorkState, OrchError>)
    requires
        well_formed(*old(record)),
    ensures
        deciding(*old(record), *final(record), r, work_id@, decision, now),
        well_formed(*final(record)),
{
    let ghost g = *record;
    let i: usize = match record.find_record(work_id) {
        Some(i) => i,
        None => {
            return Err(invalid("review names undeclared work"));
        },
    };
    let state: WorkState = record.work[i].state;
    if state != WorkState::Succeeded && decision == ReviewDecision::Discard {
        return Err(conflict("only a succeeded work item can be discarded"));
    }
    let next: WorkState = match decision {
        ReviewDecision::Keep => state,
        ReviewDecision::Discard => WorkState::Discarded,
    };
    record.work[i].state = next;
    record.work[i].updated_at = now;
    record.updated_at = now;
    let ghost mid = *record;
    proof {
        assert(mid.work@ =~= g.work@.update(
            i as int,
            WorkRecord {
                state: decided_state(g.work@[i as int].state, decision),
                updated_at: now,
                ..g.work@[i as int]
            },
        ));
        assert(decided(g, mid, i as int, decision, now));
        assert(record_ids(mid.work@) =~= record_ids(g.work@));
        same_ids_same_shape(g, mid);
    }
    recompute_derived(record, now);
    Ok(next)
}

/// Every item is in one of the given states.
pub open spec fn all_in(g: WorkGraphRecord, states: spec_fn(WorkState) -> bool) -> bool {
    forall|i: int| 0 <= i < g.work@.len() ==> states((#[trigger] g.work@[i]).state)
}

/// Some item is in one of the given states.
pub open spec fn some_in(g: WorkGraphRecord, states: spec_fn(WorkState) -> bool) -> bool {
    exists|i: int| 0 <= i < g.work@.len() && states((#[trigger] g.work@[i]).state)
}

/// Something is unknown or still holds capacity.
pub open spec fn unfinished(g: WorkGraphRecord) -> bool {
    uncertain(g) || slots_held(g.work@, g.work@.len() as int) > 0
}

/// Something of an active graph may still run.
pub open spec fn runnable(g: WorkGraphRecord) -> bool {
    g.lifecycle is Active && some_in(g, |s: WorkState| s is Pending || s is Ready)
}

/// How a graph in which nothing is open and nothing can run has ended.
pub open spec fn ended_as(g: WorkGraphRecord) -> GraphLifecycle {
    if g.lifecycle is Cancelling {
        GraphLifecycle::Cancelled
    } else if all_in(g, |s: WorkState| s is Succeeded) {
        GraphLifecycle::Succeeded
    } else if some_failure(g) {
        GraphLifecycle::Failed
    } else if some_in(g, |s: WorkState| s is Discarded) && all_in(
        g,
        |s: WorkState| s is Discarded || s is Succeeded || s is Blocked,
    ) {
        GraphLifecycle::Discarded
    } else {
        GraphLifecycle::Failed
    }
}

/// What holds after the lifecycle was settled.
pub open spec fn lifecycle_settled(
    g: WorkGraphRecord,
    after: WorkGraphRecord,
    r: GraphLifecycle,
    now: i128,
) -> bool {
    &&& r == after.lifecycle
    &&& if g.lifecycle.terminal() || unfinished(g) || runnable(g) {
        after == g
    } else {
        after == (WorkGraphRecord { lifecycle: ended_as(g), updated_at: now, ..g })
    }
}

/// What the states of a graph's items come to.
struct Tally {
    runnable: bool,
    all_succeeded: bool,
    failed: bool,
    discarded: bool,
    others: bool,
}

fn tally(g: &WorkGraphRecord) -> (t: Tally)
    ensures
        t.runnable == some_in(*g, |s: WorkState| s is Pending || s is Ready),
        t.all_succeeded == all_in(*g, |s: WorkState| s is Succeeded),
        t.failed == some_failure(*g),
        t.discarded == some_in(*g, |s: WorkState| s is Discarded),
        t.others == !all_in(
            *g,
            |s: WorkState| s is Discarded || s is Succeeded || s is Blocked,
        ),
{
    let mut t = Tally {
        runnable: false,
        all_succeeded: true,
        failed: false,
        discarded: false,
        others: false,
    };
    let mut i: usize = 0;
    while i < g.work.len()
        invariant
            i <= g.work@.len(),
            t.runnable == exists|k: int|
                0 <= k < i && ((#[trigger] g.work@[k]).state is Pending
                    || g.work@[k].state is Ready),
            t.all_succeeded == forall|k: int|
                0 <= k < i ==> (#[trigger] g.work@[k]).state is Succeeded,
            t.failed == exists|k: int|
                0 <= k < i && ((#[trigger] g.work@[k]).state is Failed
                    || g.work@[k].state is TimedOut),
            t.discarded == exists|k: int|
                0 <= k < i && (#[trigger] g.work@[k]).state is Discarded,
            t.others == exists|k: int|
                0 <= k < i && !((#[trigger] g.work@[k]).state is Discarded
                    || g.work@[k].state is Succeeded || g.work@[k].state is Blocked),
        decreases g.work.len() - i,
    {
        let s: WorkState = g.work[i].state;
        let ghost w = g.work@[i as int];
        proof {
            assert(w.state == s);
        }
        if s == WorkState::Pending || s == WorkState::Ready {
            t.runnable = true;
        }
        if s != WorkState::Succeeded {
            t.all_succeeded = false;
        }
        if s == WorkState::Failed || s == WorkState::TimedOut {
            t.failed = true;
        }
        if s == WorkState::Discarded {
            t.discarded = true;
        }
        if s != WorkState::Discarded && s != WorkState::Succeeded && s != WorkState::Blocked {
            t.others = true;
        }
        i = i + 1;
    }
    t
}

/// Settles the lifecycle of the whole graph, truthfully: no terminal outcome is
/// declared, not even a cancellation, while a child's fate is unknown or
/// capacity is still held.
pub fn settle_lifecycle(record: &mut WorkGraphRecord, now: i128) -> (r: GraphLifecycle)
    ensures
        lifecycle_settled(*old(record), *final(record), r, now),
{
    if record.lifecycle.is_terminal() {
        return record.lifecycle;
    }
    if record.has_uncertainty() || record.in_flight() > 0 {
        return record.lifecycle;
    }
    let t: Tally = tally(record);
    if record.lifecycle == GraphLifecycle::Active && t.runnable {
        return record.lifecycle;
    }
    let next: GraphLifecycle = if record.lifecycle == GraphLifecycle::Cancelling {
        GraphLifecycle::Cancelled
    } else if t.all_succeeded {
        GraphLifecycle::Succeeded
    } else if t.failed {
        GraphLifecycle::Failed
    } else if t.discarded && !t.others {
        GraphLifecycle::Discarded
    } else {
        GraphLifecycle::Failed
    };
    record.lifecycle = next;
    record.updated_at = now;
    next
}

/// A graph comes to an end only when nothing is open, and ends in success only
/// if every item succeeded.
pub proof fn ends_are_truthful(
    g: WorkGraphRecord,
    after: WorkGraphRecord,
    r: GraphLifecycle,
    now: i128,
    i: int,
)
    requires
        lifecycle_settled(g, after, r, now),
        !g.lifecycle.terminal(),
        r.terminal(),
        0 <= i < g.work@.len(),
    ensures
        !uncertain(g),
        slots_held(g.work@, g.work@.len() as int) == 0,
        r is Succeeded ==> g.work@[i].state is Succeeded,
        g.lifecycle is Cancelling <==> r is Cancelled,
{
    let succeeded = |s: WorkState| s is Succeeded;
    if r is Succeeded {
        assert(all_in(g, succeeded));
        assert(succeeded(g.work@[i].state));
    }
}

} // verus!
