//! What the life of a lease promises: when one is written, how it moves on, and
//! what each step leaves of the graph.

use crate::error::OrchError;
use crate::order::position_is_first;
use crate::run::holds;
use crate::swarm::authority::ActionAuthority;
use crate::swarm::lease::{
    acknowledging, issue_fault, issue_state_fault, issuing, lease_for, lease_issued, lease_settled,
    leased_attempts, new_lease, settling, spawn_claimed,
};
use crate::swarm::ids::LeaseId;
use crate::swarm::scheduler::{
    final_sends_bar_their_item, last_send_is_final, recomputed,
    recomputing_touches_derived_states_only, DispatchIntent,
};
use crate::swarm::spec::{role_at, WorkCapability};
use crate::swarm::state::{
    lease_at, lease_ids, outcome_fault, record_at, record_ids, GrantBinding, LeaseRecord,
    WorkGraphRecord, WorkOutcome, WorkRecord, WorkState,
};
use vstd::prelude::*;

verus! {

/// The item has not started: its state follows from others.
pub open spec fn has_not_started(w: WorkRecord) -> bool {
    match w.state {
        WorkState::Pending | WorkState::Ready | WorkState::Blocked => true,
        _ => false,
    }
}

proof fn found_records(g: WorkGraphRecord, id: Seq<char>)
    ensures
        record_at(g.work@, id) matches Some(i) ==> 0 <= i < g.work@.len() && g.work@[i].work_id@
            == id,
{
    position_is_first(record_ids(g.work@), id, 0);
}

proof fn found_leases(g: WorkGraphRecord, id: Seq<char>)
    ensures
        lease_at(g.leases@, id) matches Some(j) ==> 0 <= j < g.leases@.len()
            && g.leases@[j].lease_id@ == id,
{
    position_is_first(lease_ids(g.leases@), id, 0);
}

/// A first lease is written only on an active graph, under the epoch the dispatch
/// was planned in, for an item that is ready, whose last send does not bar it,
/// and that has an attempt left in the graph's budget. The authority covers
/// every capability of the dispatch, and a grant comes with it exactly where the
/// dispatch needs one. The item is then leased, one attempt is used, and no
/// other item or lease changes.
pub proof fn leases_are_written_for_ready_items(
    g: WorkGraphRecord,
    after: WorkGraphRecord,
    r: Result<LeaseRecord, OrchError>,
    d: DispatchIntent,
    lease_id: LeaseId,
    authority: ActionAuthority,
    grant: Option<GrantBinding>,
    now: i128,
    i: int,
)
    requires
        issuing(g, after, r, d, lease_id, authority, grant, now),
        r is Ok,
        forall|j: int|
            0 <= j < g.leases@.len() ==> (#[trigger] g.leases@[j]).attempt_id@ != d.attempt_id@,
        record_at(g.work@, d.work_id@) == Some(i),
    ensures
        g.lifecycle is Active,
        d.epoch == g.epoch,
        d.graph_id@ == g.graph_id@,
        g.work@[i].state is Ready,
        !last_send_is_final(g, d.work_id@),
        g.budget.attempts_used < g.spec.budget.max_total_attempts,
        g.work@[i].attempts < u32::MAX ==> d.attempt == g.work@[i].attempts + 1,
        authority.attempt_id@ == d.attempt_id@,
        authority.work_id@ == d.work_id@,
        authority.graph_id@ == g.graph_id@,
        forall|c: WorkCapability| #[trigger]
            d.capabilities.has(c) ==> authority.capabilities.has(c),
        grant is Some <==> d.requires_computer_use,
        r->Ok_0.lease_id@ == lease_id@,
        r->Ok_0.work_id@ == d.work_id@,
        r->Ok_0.attempt_id@ == d.attempt_id@,
        r->Ok_0.state is Issued,
        r->Ok_0.epoch == g.epoch,
        r->Ok_0.grant == grant,
        now < r->Ok_0.expires_at <= g.deadline_at,
        after.leases@ == g.leases@.push(r->Ok_0),
        after.work@.len() == g.work@.len(),
        after.work@[i].state is Leased,
        after.work@[i].attempts == d.attempt,
        after.work@[i].current_lease_id == Some(lease_id),
        after.budget.attempts_used == g.budget.attempts_used + 1,
        forall|k: int|
            0 <= k < g.work@.len() && k != i ==> #[trigger] after.work@[k] == g.work@[k],
{
    position_is_first(leased_attempts(g.leases@), d.attempt_id@, 0);
    if lease_for(g.leases@, d.attempt_id@) is Some {
        let j = lease_for(g.leases@, d.attempt_id@)->0;
        assert(leased_attempts(g.leases@)[j] == g.leases@[j].attempt_id@);
    }
    assert(issue_fault(g, d, lease_id, authority, grant, now) is None);
    assert(issue_state_fault(g, d, lease_id, authority, grant) is None);
    final_sends_bar_their_item(g, d.work_id@);
    found_records(g, d.work_id@);
    assert(lease_issued(
        g,
        after,
        new_lease(g, d, lease_id, authority, grant, now),
        authority,
        now,
    ));
}

/// The bound of the item, too, ends the lease: it runs no longer than the item
/// may take.
pub proof fn leases_end_with_the_items_bound(
    g: WorkGraphRecord,
    after: WorkGraphRecord,
    r: Result<LeaseRecord, OrchError>,
    d: DispatchIntent,
    lease_id: LeaseId,
    authority: ActionAuthority,
    grant: Option<GrantBinding>,
    now: i128,
    k: int,
)
    requires
        issuing(g, after, r, d, lease_id, authority, grant, now),
        r is Ok,
        forall|j: int|
            0 <= j < g.leases@.len() ==> (#[trigger] g.leases@[j]).attempt_id@ != d.attempt_id@,
        crate::swarm::spec::work_at(g.spec.work@, d.work_id@) == Some(k),
        g.spec.work@[k].bounds.max_duration_ms <= i64::MAX,
    ensures
        r->Ok_0.expires_at == if now + g.spec.work@[k].bounds.max_duration_ms * 1_000_000
            < g.deadline_at {
            now + g.spec.work@[k].bounds.max_duration_ms * 1_000_000
        } else {
            g.deadline_at as int
        },
{
    position_is_first(leased_attempts(g.leases@), d.attempt_id@, 0);
    if lease_for(g.leases@, d.attempt_id@) is Some {
        let j = lease_for(g.leases@, d.attempt_id@)->0;
        assert(leased_attempts(g.leases@)[j] == g.leases@[j].attempt_id@);
    }
    assert(issue_fault(g, d, lease_id, authority, grant, now) is None);
}

/// A lease that is refused leaves the graph as it was.
pub proof fn refused_leases_change_nothing(
    g: WorkGraphRecord,
    after: WorkGraphRecord,
    r: Result<LeaseRecord, OrchError>,
    d: DispatchIntent,
    lease_id: LeaseId,
    authority: ActionAuthority,
    grant: Option<GrantBinding>,
    now: i128,
)
    requires
        issuing(g, after, r, d, lease_id, authority, grant, now),
    ensures
        r is Err ==> after == g,
        d.graph_id@ == g.graph_id@ && d.epoch != g.epoch ==> r is Err
            && r->Err_0.code is StaleVersion,
        d.graph_id@ == g.graph_id@ && d.epoch == g.epoch && !(g.lifecycle is Active) ==> r is Err
            && r->Err_0.code is Conflict,
        d.graph_id@ != g.graph_id@ ==> r is Err && r->Err_0.code is InvalidRequest,
{
}

/// The right to spawn is won from a lease that was issued, and asking again
/// changes nothing. A lease that moved on, or was taken back, is refused.
pub proof fn spawns_are_claimed_once(
    g: WorkGraphRecord,
    after: WorkGraphRecord,
    r: Result<(), OrchError>,
    lease_id: Seq<char>,
    now: i128,
    j: int,
)
    requires
        spawn_claimed(g, after, r, lease_id, now),
        lease_at(g.leases@, lease_id) == Some(j),
    ensures
        r is Ok <==> g.leases@[j].state is Issued || g.leases@[j].state is Claimed,
        r is Ok ==> after.leases@[j].state is Claimed,
        r is Err ==> after == g && r->Err_0.code is Conflict,
        g.leases@[j].state is Claimed ==> after == g,
        after.work@ == g.work@,
        after.leases@.len() == g.leases@.len(),
        forall|k: int|
            0 <= k < g.leases@.len() && k != j ==> #[trigger] after.leases@[k] == g.leases@[k],
{
    found_leases(g, lease_id);
}

/// A worker acknowledges a lease of the current epoch whose spawn was claimed. The
/// lease keeps the handle, and its item runs from then on.
pub proof fn acknowledged_items_run(
    g: WorkGraphRecord,
    after: WorkGraphRecord,
    r: Result<(), OrchError>,
    lease_id: Seq<char>,
    external_ref: Seq<char>,
    now: i128,
    j: int,
    i: int,
)
    requires
        acknowledging(g, after, r, lease_id, external_ref, now),
        lease_at(g.leases@, lease_id) == Some(j),
        record_at(g.work@, g.leases@[j].work_id@) == Some(i),
    ensures
        r is Ok ==> {
            &&& g.leases@[j].epoch == g.epoch
            &&& g.leases@[j].state is Claimed || g.leases@[j].state is Acknowledged
            &&& after.leases@[j].state is Acknowledged
            &&& holds(after.leases@[j].external_ref, external_ref)
            &&& g.work@[i].state is Leased ==> after.work@[i].state is Running
            &&& !(g.work@[i].state is Leased) ==> after.work@ == g.work@
            &&& external_ref.len() > 0
        },
        r is Err ==> after == g,
        r is Err && g.leases@[j].epoch == g.epoch && (g.leases@[j].state is Claimed
            || g.leases@[j].state is Acknowledged) ==> r->Err_0.code is InvalidRequest,
        forall|k: int|
            0 <= k < g.leases@.len() && k != j ==> #[trigger] after.leases@[k] == g.leases@[k],
        forall|k: int|
            0 <= k < g.work@.len() && k != i ==> #[trigger] after.work@[k] == g.work@[k],
{
    found_leases(g, lease_id);
    found_records(g, g.leases@[j].work_id@);
}

/// A report settles its lease once. The item ends as the report says and frees
/// its lease; a lease that was settled or taken back takes no report, and one of
/// an older epoch only while its fate is unknown.
pub proof fn reports_settle_their_item(
    g: WorkGraphRecord,
    after: WorkGraphRecord,
    r: Result<(), OrchError>,
    lease_id: Seq<char>,
    outcome: WorkOutcome,
    now: i128,
    j: int,
    i: int,
)
    requires
        settling(g, after, r, lease_id, outcome, now),
        lease_at(g.leases@, lease_id) == Some(j),
        record_at(g.work@, g.leases@[j].work_id@) == Some(i),
    ensures
        r is Ok ==> {
            &&& !(g.leases@[j].state is Settled)
            &&& !(g.leases@[j].state is Revoked)
            &&& g.leases@[j].epoch == g.epoch || g.leases@[j].state is Uncertain
            &&& after.leases@[j].state is Settled
            &&& after.leases@[j].settled_at == Some(now)
            &&& outcome.result is Succeeded ==> after.work@[i].state is Succeeded
            &&& outcome.result is Failed ==> after.work@[i].state is Failed
            &&& outcome.result is Cancelled ==> after.work@[i].state is Cancelled
            &&& outcome.result is TimedOut ==> after.work@[i].state is TimedOut
            &&& after.work@[i].verdict == outcome.verdict
            &&& after.work@[i].current_lease_id is None
            &&& after.work@[i].evidence@ == outcome.evidence@
        },
        r is Err ==> after == g,
        outcome_fault(outcome) is None && g.leases@[j].state is Settled && g.leases@[j].epoch
            == g.epoch ==> r is Err && r->Err_0.code is Conflict,
        outcome_fault(outcome) is None && g.leases@[j].state is Revoked && g.leases@[j].epoch
            == g.epoch ==> r is Err && r->Err_0.code is Conflict,
        forall|k: int|
            0 <= k < g.leases@.len() && k != j ==> #[trigger] after.leases@[k] == g.leases@[k],
        forall|k: int|
            0 <= k < g.work@.len() && k != i && !has_not_started(g.work@[k])
                ==> #[trigger] after.work@[k] == g.work@[k],
{
    found_leases(g, lease_id);
    found_records(g, g.leases@[j].work_id@);
    if r is Ok {
        let mid = choose|mid: WorkGraphRecord| #[trigger]
            lease_settled(g, mid, j, outcome, now) && recomputed(mid, after, now);
        recomputing_touches_derived_states_only(mid, after, now, i);
        assert forall|k: int|
            0 <= k < g.work@.len() && k != i && !has_not_started(
                g.work@[k],
            ) implies #[trigger] after.work@[k] == g.work@[k] by {
            recomputing_touches_derived_states_only(mid, after, now, k);
        }
    }
}

/// Only reviews give verdicts, and a review that was carried out gives one.
pub proof fn reviews_give_verdicts(
    g: WorkGraphRecord,
    after: WorkGraphRecord,
    r: Result<(), OrchError>,
    lease_id: Seq<char>,
    outcome: WorkOutcome,
    now: i128,
    j: int,
)
    requires
        settling(g, after, r, lease_id, outcome, now),
        lease_at(g.leases@, lease_id) == Some(j),
        r is Ok,
    ensures
        outcome.verdict is Some ==> role_at(g.spec, g.leases@[j].work_id@) is Some && role_at(
            g.spec,
            g.leases@[j].work_id@,
        )->0 is Review,
        outcome.result is Succeeded && outcome.verdict is None ==> role_at(
            g.spec,
            g.leases@[j].work_id@,
        ) is Some && !(role_at(g.spec, g.leases@[j].work_id@)->0 is Review),
{
}

} // verus!
