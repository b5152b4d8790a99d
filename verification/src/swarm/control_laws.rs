//! What the control of a graph promises: what cancellation, timeouts, restarts,
//! evidence and decisions leave of it, and how it ends.

use crate::error::OrchError;
use crate::order::position_is_first;
use crate::run::holds;
use crate::swarm::control::{
    cancelled_record, cancelling, decided, deciding, graph_cancelling, last_overdue, left_open,
    lifecycle_settled, never_started, overdue, overdue_count, reconciling, recovered,
    recovered_attempt, recovered_lease, recovered_record, recovering, sweeping, swept, swept_record,
    work_cancelled, RecoveryReport,
};
use crate::swarm::lease_laws::has_not_started;
use crate::swarm::planning::is_busy;
use crate::swarm::scheduler::{
    recomputed, recomputing_touches_derived_states_only, DispatchProbe, ReviewDecision,
};
use crate::swarm::state::{
    lease_at, lease_ids, record_at, record_ids, slots_held, GraphLifecycle, LeaseRecord, LeaseState,
    WorkGraphRecord, WorkRecord, WorkState,
};
use vstd::prelude::*;

verus! {

/// The item came to an end.
pub open spec fn has_ended(w: WorkRecord) -> bool {
    match w.state {
        WorkState::Succeeded | WorkState::Failed | WorkState::Cancelled | WorkState::TimedOut
        | WorkState::Discarded => true,
        _ => false,
    }
}

/// The state in which a request to cancel leaves an item: what never started is
/// cancelled, what may be running is winding down, and what ended or is
/// uncertain stays.
pub open spec fn cancels_to(w: WorkRecord, s: WorkState) -> bool {
    match w.state {
        WorkState::Pending | WorkState::Ready | WorkState::Blocked => s is Cancelled,
        WorkState::Leased | WorkState::Running | WorkState::Cancelling => s is Cancelling,
        _ => s == w.state,
    }
}

proof fn found_record(g: WorkGraphRecord, id: Seq<char>)
    ensures
        record_at(g.work@, id) matches Some(i) ==> 0 <= i < g.work@.len() && g.work@[i].work_id@
            == id,
{
    position_is_first(record_ids(g.work@), id, 0);
}

/// A child that may be running is never declared cancelled, and what ended stays
/// as it ended. Cancelling one item touches no other that has started.
pub proof fn cancels_never_presume(
    g: WorkGraphRecord,
    after: WorkGraphRecord,
    r: Result<WorkState, OrchError>,
    id: Seq<char>,
    now: i128,
    i: int,
)
    requires
        cancelling(g, after, r, id, now),
        record_at(g.work@, id) == Some(i),
    ensures
        r is Ok,
        cancels_to(g.work@[i], r->Ok_0),
        after.work@[i].state == r->Ok_0,
        has_ended(g.work@[i]) ==> after == g,
        has_not_started(g.work@[i]) ==> after.work@[i].current_lease_id is None,
        forall|k: int|
            0 <= k < g.work@.len() && k != i && !has_not_started(g.work@[k])
                ==> #[trigger] after.work@[k] == g.work@[k],
        after.lifecycle == g.lifecycle,
        after.epoch == g.epoch,
{
    found_record(g, id);
    if !has_ended(g.work@[i]) {
        let mid = choose|mid: WorkGraphRecord| #[trigger]
            work_cancelled(g, mid, i, now) && recomputed(mid, after, now);
        recomputing_touches_derived_states_only(mid, after, now, i);
        assert forall|k: int|
            0 <= k < g.work@.len() && k != i && !has_not_started(
                g.work@[k],
            ) implies #[trigger] after.work@[k] == g.work@[k] by {
            recomputing_touches_derived_states_only(mid, after, now, k);
        }
    }
}

/// Cancelling a graph fences off its leases by a new epoch, stops admission and
/// asks every item to cancel; a graph that came to an end is left alone.
pub proof fn cancelled_graphs_wind_down(
    g: WorkGraphRecord,
    after: WorkGraphRecord,
    r: Result<(), OrchError>,
    reason: Seq<char>,
    now: i128,
)
    requires
        graph_cancelling(g, after, r, reason, now),
    ensures
        r is Ok <==> g.lifecycle is Active || g.lifecycle is Cancelling,
        r is Err ==> after == g && r->Err_0.code is Conflict,
        r is Ok ==> {
            &&& after.lifecycle is Cancelling
            &&& g.epoch < u64::MAX ==> after.epoch == g.epoch + 1
            &&& after.work@.len() == g.work@.len()
            &&& forall|i: int|
                0 <= i < g.work@.len() ==> cancels_to(
                    g.work@[i],
                    (#[trigger] after.work@[i]).state,
                )
            &&& forall|i: int|
                0 <= i < g.work@.len() && has_ended(g.work@[i]) ==> #[trigger] after.work@[i]
                    == g.work@[i]
        },
{
    if r is Ok {
        assert forall|i: int| 0 <= i < g.work@.len() implies cancels_to(
            g.work@[i],
            (#[trigger] after.work@[i]).state,
        ) && (has_ended(g.work@[i]) ==> after.work@[i] == g.work@[i]) by {
            assert(after.work@[i] == cancelled_record(g.work@[i], now));
        }
    }
}

/// The lease may describe a live child.
pub open spec fn may_be_live(l: LeaseRecord) -> bool {
    match l.state {
        LeaseState::Issued | LeaseState::Claimed | LeaseState::Acknowledged => true,
        LeaseState::Settled | LeaseState::Uncertain | LeaseState::Revoked => false,
    }
}

/// The lease may describe a live child, and its bound has passed.
pub open spec fn is_late(l: LeaseRecord, now: i128) -> bool {
    may_be_live(l) && l.expires_at <= now
}

proof fn late_is_overdue(leases: Seq<LeaseRecord>, n: int, now: i128)
    requires
        0 <= n <= leases.len(),
    ensures
        overdue_count(leases, n, now) == 0 <==> forall|j: int|
            0 <= j < n ==> !is_late(#[trigger] leases[j], now),
    decreases n,
{
    if n > 0 {
        late_is_overdue(leases, n - 1, now);
        assert(overdue(leases[n - 1], now) == is_late(leases[n - 1], now));
    }
}

proof fn last_late(leases: Seq<LeaseRecord>, id: Seq<char>, n: int, now: i128)
    requires
        0 <= n <= leases.len(),
    ensures
        match last_overdue(leases, id, n, now) {
            Some(j) => 0 <= j < n && is_late(leases[j], now) && leases[j].work_id@ == id,
            None => forall|j: int|
                0 <= j < n && (#[trigger] leases[j]).work_id@ == id ==> !is_late(leases[j], now),
        },
    decreases n,
{
    if n > 0 {
        last_late(leases, id, n - 1, now);
    }
}

/// A sweep takes back exactly the leases that are late.
pub proof fn sweeps_revoke_late_leases(
    g: WorkGraphRecord,
    after: WorkGraphRecord,
    count: usize,
    now: i128,
    j: int,
)
    requires
        sweeping(g, after, count, now),
        0 <= j < g.leases@.len(),
    ensures
        is_late(g.leases@[j], now) ==> after.leases@[j].state is Revoked
            && after.leases@[j].settled_at == Some(now) && count > 0,
        !is_late(g.leases@[j], now) ==> after.leases@[j] == g.leases@[j],
        count == 0 ==> after == g,
{
    late_is_overdue(g.leases@, g.leases@.len() as int, now);
    if count > 0 {
        let mid = choose|mid: WorkGraphRecord| #[trigger]
            swept(g, mid, now) && recomputed(mid, after, now);
        assert(mid.leases@[j] == after.leases@[j]);
    }
}

/// An item whose only late lease was never acknowledged timed out; one whose
/// worker had acknowledged may still run, so its fate is unknown. An item
/// without a late lease that has started is left alone.
pub proof fn late_items_time_out_or_are_uncertain(
    g: WorkGraphRecord,
    after: WorkGraphRecord,
    count: usize,
    now: i128,
    i: int,
    j: int,
)
    requires
        sweeping(g, after, count, now),
        0 <= i < g.work@.len(),
        0 <= j < g.leases@.len(),
    ensures
        is_late(g.leases@[j], now) && g.leases@[j].work_id@ == g.work@[i].work_id@ && (forall|k: int|
            0 <= k < g.leases@.len() && k != j && (#[trigger] g.leases@[k]).work_id@
                == g.work@[i].work_id@ ==> !is_late(g.leases@[k], now)) ==> {
            &&& g.leases@[j].state is Acknowledged ==> after.work@[i].state is DispatchUncertain
            &&& !(g.leases@[j].state is Acknowledged) ==> after.work@[i].state is TimedOut
            &&& after.work@[i].current_lease_id is None
            &&& holds(after.work@[i].last_error, "execution bound expired"@)
        },
        !has_not_started(g.work@[i]) && (forall|k: int|
            0 <= k < g.leases@.len() && (#[trigger] g.leases@[k]).work_id@ == g.work@[i].work_id@
                ==> !is_late(g.leases@[k], now)) ==> after.work@[i] == g.work@[i],
{
    late_is_overdue(g.leases@, g.leases@.len() as int, now);
    last_late(g.leases@, g.work@[i].work_id@, g.leases@.len() as int, now);
    if count > 0 {
        let mid = choose|mid: WorkGraphRecord| #[trigger]
            swept(g, mid, now) && recomputed(mid, after, now);
        assert(swept_record(
            g.work@[i],
            mid.work@[i],
            g.leases@,
            g.leases@.len() as int,
            now,
        ));
        recomputing_touches_derived_states_only(mid, after, now, i);
    }
}

/// After a restart a lease that was never acknowledged is uncertain, and so is
/// its item; a lease that was acknowledged stays, and with it an item that runs
/// under it. A send without an outcome may have been accepted.
pub proof fn restarts_presume_nothing(
    g: WorkGraphRecord,
    after: WorkGraphRecord,
    report: RecoveryReport,
    now: i128,
    i: int,
    j: int,
    k: int,
)
    requires
        recovering(g, after, report, now),
        0 <= i < g.work@.len(),
        0 <= j < g.leases@.len(),
        0 <= k < g.attempts@.len(),
    ensures
        g.leases@[j].state is Issued || g.leases@[j].state is Claimed
            ==> after.leases@[j].state is Uncertain,
        !(g.leases@[j].state is Issued) && !(g.leases@[j].state is Claimed) ==> after.leases@[j]
            == g.leases@[j],
        (g.leases@[j].state is Issued || g.leases@[j].state is Claimed) && g.leases@[j].work_id@
            == g.work@[i].work_id@ ==> after.work@[i].state is DispatchUncertain,
        g.work@[i].state is Running && g.work@[i].current_lease_id is None
            ==> after.work@[i].state is DispatchUncertain,
        !has_not_started(g.work@[i]) && (forall|q: int|
            0 <= q < g.leases@.len() && (#[trigger] g.leases@[q]).work_id@ == g.work@[i].work_id@
                ==> !(g.leases@[q].state is Issued) && !(g.leases@[q].state is Claimed)) && !(
        g.work@[i].state is Running && g.work@[i].current_lease_id is None) ==> after.work@[i]
            == g.work@[i],
        g.attempts@[k].state is Finished ==> after.attempts@[k] == g.attempts@[k],
        g.attempts@[k].state is Admitted ==> after.attempts@[k].state is Finished && (
        after.attempts@[k].send_certainty matches Some(c) && c is UncertainAccept) && (
        after.attempts@[k].retry_class matches Some(c) && c is ExplicitNewAttemptOnly),
{
    let mid = choose|mid: WorkGraphRecord| #[trigger]
        recovered(g, mid, report, now) && recomputed(mid, after, now);
    assert(recovered_lease(g.leases@[j], mid.leases@[j]));
    assert(mid.attempts@[k] == recovered_attempt(g.attempts@[k], now));
    recomputing_touches_derived_states_only(mid, after, now, i);
    assert(mid.work@[i] == recovered_record(g, i, now));
    if (g.leases@[j].state is Issued || g.leases@[j].state is Claimed) && g.leases@[j].work_id@
        == g.work@[i].work_id@ {
        assert(left_open(g.leases@, g.work@[i].work_id@, g.leases@.len() as int));
    }
}

/// An uncertain lease is resolved by evidence alone. What is still unknown
/// changes nothing; a child proven not to have started gives its lease back and
/// waits again; one proven to run runs under its lease.
pub proof fn evidence_resolves_uncertainty(
    g: WorkGraphRecord,
    after: WorkGraphRecord,
    r: Result<bool, OrchError>,
    lease_id: Seq<char>,
    probe: DispatchProbe,
    now: i128,
    j: int,
    i: int,
)
    requires
        reconciling(g, after, r, lease_id, probe, now),
        lease_at(g.leases@, lease_id) == Some(j),
        record_at(g.work@, g.leases@[j].work_id@) == Some(i),
    ensures
        !(g.leases@[j].state is Uncertain) ==> after == g && r is Err && r->Err_0.code is Conflict,
        probe is Unknown ==> after == g,
        g.leases@[j].state is Uncertain && probe is Unknown ==> r == Ok::<bool, OrchError>(false),
        g.leases@[j].state is Uncertain && probe is NotStarted ==> {
            &&& r == Ok::<bool, OrchError>(true)
            &&& after.leases@[j].state is Revoked
            &&& has_not_started(after.work@[i])
            &&& after.work@[i].current_lease_id is None
        },
        g.leases@[j].state is Uncertain && probe is Running && r is Ok ==> {
            &&& r->Ok_0
            &&& after.leases@[j].state is Acknowledged
            &&& holds(after.leases@[j].external_ref, probe->external_ref@)
            &&& after.work@[i].state is Running
            &&& after.work@[i].current_lease_id is Some
            &&& after.work@[i].current_lease_id->0@ == lease_id
        },
        g.leases@[j].state is Uncertain && probe is Settled && r is Ok ==> r->Ok_0
            && after.leases@[j].state is Settled,
        r is Err ==> after == g,
{
    found_record(g, g.leases@[j].work_id@);
    position_is_first(lease_ids(g.leases@), lease_id, 0);
    assert(lease_ids(g.leases@)[j] == g.leases@[j].lease_id@);
    if g.leases@[j].state is Uncertain {
        match probe {
            DispatchProbe::NotStarted => {
                let mid = choose|mid: WorkGraphRecord| #[trigger]
                    never_started(g, mid, j, now) && recomputed(mid, after, now);
                recomputing_touches_derived_states_only(mid, after, now, i);
            },
            DispatchProbe::Settled { outcome } => {
                if r is Ok {
                    crate::swarm::lease_laws::reports_settle_their_item(
                        g,
                        after,
                        Ok(()),
                        lease_id,
                        outcome,
                        now,
                        j,
                        i,
                    );
                }
            },
            _ => {},
        }
    }
}

/// Only a success is discarded, and it then counts as none. A result that is kept
/// leaves its item as it stood.
pub proof fn only_successes_are_discarded(
    g: WorkGraphRecord,
    after: WorkGraphRecord,
    r: Result<WorkState, OrchError>,
    id: Seq<char>,
    decision: ReviewDecision,
    now: i128,
    i: int,
)
    requires
        deciding(g, after, r, id, decision, now),
        record_at(g.work@, id) == Some(i),
    ensures
        decision is Discard ==> (r is Ok <==> g.work@[i].state is Succeeded),
        decision is Discard && r is Ok ==> after.work@[i].state is Discarded,
        r is Err ==> after == g && r->Err_0.code is Conflict,
        decision is Keep ==> r is Ok && r->Ok_0 == g.work@[i].state,
        decision is Keep && !has_not_started(g.work@[i]) ==> after.work@[i].state
            == g.work@[i].state,
        after.work@[i].state is Succeeded ==> g.work@[i].state is Succeeded,
        forall|k: int|
            0 <= k < g.work@.len() && k != i && !has_not_started(g.work@[k])
                ==> #[trigger] after.work@[k] == g.work@[k],
{
    found_record(g, id);
    if r is Ok {
        let mid = choose|mid: WorkGraphRecord| #[trigger]
            decided(g, mid, i, decision, now) && recomputed(mid, after, now);
        recomputing_touches_derived_states_only(mid, after, now, i);
        assert forall|k: int|
            0 <= k < g.work@.len() && k != i && !has_not_started(
                g.work@[k],
            ) implies #[trigger] after.work@[k] == g.work@[k] by {
            recomputing_touches_derived_states_only(mid, after, now, k);
        }
    }
}

proof fn busy_holds_a_slot(work: Seq<WorkRecord>, n: int)
    requires
        0 <= n <= work.len(),
    ensures
        slots_held(work, n) > 0 <==> exists|i: int| 0 <= i < n && is_busy(#[trigger] work[i]),
    decreases n,
{
    if n > 0 {
        busy_holds_a_slot(work, n - 1);
        assert(work[n - 1].state.holds_slot() == is_busy(work[n - 1]));
        if slots_held(work, n) > 0 {
            if slots_held(work, n - 1) > 0 {
                let i = choose|i: int| 0 <= i < n - 1 && is_busy(#[trigger] work[i]);
                assert(0 <= i < n && is_busy(work[i]));
            } else {
                assert(is_busy(work[n - 1]));
            }
        }
    }
}

/// A graph does not end while a child may run, nor while it is active and an
/// item of it waits or is ready. It then ends: cancelled if it was winding down;
/// in success if every item succeeded; in failure if one failed or timed out;
/// and discarded if something was discarded and nothing went wrong.
pub proof fn graphs_end_as_their_items_did(
    g: WorkGraphRecord,
    after: WorkGraphRecord,
    r: GraphLifecycle,
    now: i128,
)
    requires
        lifecycle_settled(g, after, r, now),
    ensures
        r == after.lifecycle,
        after.work@ == g.work@,
        after.leases@ == g.leases@,
        !(g.lifecycle is Active) && !(g.lifecycle is Cancelling) ==> after == g,
        (exists|i: int| 0 <= i < g.work@.len() && is_busy(#[trigger] g.work@[i])) ==> after == g,
        g.lifecycle is Active && (exists|i: int|
            0 <= i < g.work@.len() && ((#[trigger] g.work@[i]).state is Pending
                || g.work@[i].state is Ready)) ==> after == g,
        g.lifecycle is Cancelling && (forall|i: int|
            0 <= i < g.work@.len() ==> !is_busy(#[trigger] g.work@[i])) ==> r is Cancelled,
        g.lifecycle is Active && (forall|i: int|
            0 <= i < g.work@.len() ==> (#[trigger] g.work@[i]).state is Succeeded)
            ==> r is Succeeded,
        g.lifecycle is Active && r is Succeeded ==> forall|i: int|
            0 <= i < g.work@.len() ==> (#[trigger] g.work@[i]).state is Succeeded,
        g.lifecycle is Active && (forall|i: int|
            0 <= i < g.work@.len() ==> !is_busy(#[trigger] g.work@[i]) && !(
            g.work@[i].state is Pending) && !(g.work@[i].state is Ready)) && (exists|i: int|
            0 <= i < g.work@.len() && ((#[trigger] g.work@[i]).state is Failed
                || g.work@[i].state is TimedOut)) ==> r is Failed,
        g.lifecycle is Active && r is Discarded ==> (exists|i: int|
            0 <= i < g.work@.len() && (#[trigger] g.work@[i]).state is Discarded) && (forall|i: int|
            0 <= i < g.work@.len() ==> (#[trigger] g.work@[i]).state is Discarded
                || g.work@[i].state is Succeeded || g.work@[i].state is Blocked),
        g.lifecycle is Active && (exists|i: int|
            0 <= i < g.work@.len() && (#[trigger] g.work@[i]).state is Discarded) && (forall|i: int|
            0 <= i < g.work@.len() ==> (#[trigger] g.work@[i]).state is Discarded
                || g.work@[i].state is Succeeded || g.work@[i].state is Blocked) ==> r is Discarded,
{
    busy_holds_a_slot(g.work@, g.work@.len() as int);
    let waiting = |s: WorkState| s is Pending || s is Ready;
    let succeeded = |s: WorkState| s is Succeeded;
    let discarded = |s: WorkState| s is Discarded;
    let fine = |s: WorkState| s is Discarded || s is Succeeded || s is Blocked;
    assert(crate::swarm::control::some_in(g, waiting) == exists|i: int|
        0 <= i < g.work@.len() && ((#[trigger] g.work@[i]).state is Pending
            || g.work@[i].state is Ready));
    assert(crate::swarm::control::all_in(g, succeeded) == forall|i: int|
        0 <= i < g.work@.len() ==> (#[trigger] g.work@[i]).state is Succeeded);
    assert(crate::swarm::control::some_in(g, discarded) == exists|i: int|
        0 <= i < g.work@.len() && (#[trigger] g.work@[i]).state is Discarded);
    assert(crate::swarm::control::all_in(g, fine) == forall|i: int|
        0 <= i < g.work@.len() ==> (#[trigger] g.work@[i]).state is Discarded
            || g.work@[i].state is Succeeded || g.work@[i].state is Blocked);
}

} // verus!
