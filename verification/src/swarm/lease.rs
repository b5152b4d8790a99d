//! Leases of the work graph: how they are written, claimed, acknowledged and
//! settled.

use crate::error::{
    conflict, conflict_fault, fault, first_fault, forbidden, forbidden_fault, invalid,
    invalid_fault, judged, refused, Fault, OrchError, OrchErrorCode,
};
use crate::instant::{is_named, later, NANOS_PER_MILLI};
use crate::order::{all_distinct, position, position_from, position_is_first};
use crate::run::holds;
use crate::swarm::authority::{
    attempt_identity, authority_fault, derive_attempt_id, ActionAuthority,
};
use crate::swarm::ids::{AttemptId, LeaseId, WorkId};
use crate::swarm::scheduler::{
    DispatchIntent, declared, forbids_same_work_retry, one_more, recompute_derived, recomputed,
    retry_forbidden, room, smaller, state_of,
};
use crate::swarm::spec::{role_at, work_at, WorkSpec, WorkerRole};
use crate::swarm::state::{
    attempt_ids, authority_at, binding_fault, copy_evidence, lease_at, lease_fault, lease_ids,
    outcome_fault, record_at, record_ids, truncate_text, well_formed, BudgetLedger, GrantBinding,
    GraphLifecycle, LeaseRecord, LeaseState, WorkGraphRecord, WorkOutcome, WorkRecord, WorkResult,
    WorkState, MAX_SUMMARY_BYTES,
};
use crate::text::{byte_len, copy, fitted, str_has_char, utf8_len};
use vstd::prelude::*;
use vstd::string::*;

verus! {

/// A number of milliseconds as a signed 64-bit number.
pub open spec fn signed_millis(ms: u64) -> int {
    if ms <= i64::MAX {
        ms as int
    } else {
        ms - 0x1_0000_0000_0000_0000
    }
}

/// When a lease of so many milliseconds ends, if that instant can be named.
pub open spec fn lease_end(ms: u64, now: i128) -> Option<int> {
    let t = now + signed_millis(ms) * NANOS_PER_MILLI;
    if is_named(t) {
        Some(t)
    } else {
        None
    }
}

fn end_of_lease(ms: u64, now: i128) -> (r: Option<i128>)
    ensures
        match lease_end(ms, now) {
            Some(t) => r is Some && r->0 == t,
            None => r is None,
        },
{
    let signed: i128 = if ms <= 0x7fff_ffff_ffff_ffff {
        ms as i128
    } else {
        ms as i128 - 0x1_0000_0000_0000_0000
    };
    later(now, signed * NANOS_PER_MILLI)
}

/// Why a dispatch does not fit the graph as it stands.
pub open spec fn intent_fault(g: WorkGraphRecord, d: DispatchIntent) -> Option<Fault> {
    if d.graph_id@ != g.graph_id@ {
        Some(invalid_fault("dispatch intent belongs to a different graph"@))
    } else if d.epoch != g.epoch {
        Some(
            fault(
                OrchErrorCode::StaleVersion,
                "dispatch intent was planned under a superseded graph epoch"@,
            ),
        )
    } else if !(g.lifecycle is Active) {
        Some(conflict_fault("graph is no longer admitting work"@))
    } else {
        match work_at(g.spec.work@, d.work_id@) {
            None => Some(invalid_fault("dispatch intent names undeclared work"@)),
            Some(k) => if g.spec.work@[k].worker_id@ != d.worker_id@
                || g.spec.work@[k].capabilities != d.capabilities {
                Some(invalid_fault("dispatch intent disagrees with the declared work"@))
            } else if attempt_identity(g.graph_id@, d.work_id@, d.attempt) != d.attempt_id@ {
                Some(invalid_fault("dispatch intent attempt identity is not derivable"@))
            } else {
                None
            },
        }
    }
}

/// The attempts that the leases are for.
pub open spec fn leased_attempts(leases: Seq<LeaseRecord>) -> Seq<Seq<char>> {
    Seq::new(leases.len(), |i: int| leases[i].attempt_id@)
}

/// The position of the lease for an attempt.
pub open spec fn lease_for(leases: Seq<LeaseRecord>, attempt_id: Seq<char>) -> Option<int> {
    position(leased_attempts(leases), attempt_id)
}

/// When a lease for this dispatch expires: at the end of the item's bound, but
/// not after the graph's deadline.
pub open spec fn lease_expiry(g: WorkGraphRecord, d: DispatchIntent, now: i128) -> Option<int> {
    let item = g.spec.work@[work_at(g.spec.work@, d.work_id@)->0];
    match lease_end(item.bounds.max_duration_ms, now) {
        Some(t) => Some(smaller(t, g.deadline_at as int)),
        None => None,
    }
}

/// The lease of a dispatch.
pub open spec fn new_lease(
    g: WorkGraphRecord,
    d: DispatchIntent,
    lease_id: LeaseId,
    authority: ActionAuthority,
    grant: Option<GrantBinding>,
    now: i128,
) -> LeaseRecord {
    LeaseRecord {
        lease_id,
        graph_id: g.graph_id,
        work_id: d.work_id,
        worker_id: d.worker_id,
        attempt_id: d.attempt_id,
        attempt: d.attempt,
        authority_id: authority.authority_id,
        session_id: g.session_id,
        workspace: g.workspace,
        epoch: g.epoch,
        state: LeaseState::Issued,
        external_ref: None,
        grant,
        issued_at: now,
        expires_at: lease_expiry(g, d, now)->0 as i128,
        acknowledged_at: None,
        settled_at: None,
        uncertain_reason: None,
    }
}

/// Why the graph as it stands takes no lease for a dispatch whose attempt has
/// none yet.
pub open spec fn issue_state_fault(
    g: WorkGraphRecord,
    d: DispatchIntent,
    lease_id: LeaseId,
    authority: ActionAuthority,
    grant: Option<GrantBinding>,
) -> Option<Fault> {
    if lease_at(g.leases@, lease_id@) is Some {
        Some(conflict_fault("lease id is already present in the ledger"@))
    } else {
        match record_at(g.work@, d.work_id@) {
            None => Some(invalid_fault("dispatch intent names undeclared work"@)),
            Some(i) => if !(g.work@[i].state is Ready) {
                Some(conflict_fault("work item is not ready for dispatch"@))
            } else if one_more(g.work@[i].attempts) != d.attempt {
                Some(conflict_fault("dispatch intent attempt ordinal is stale"@))
            } else if retry_forbidden(g, d.work_id@) {
                Some(
                    conflict_fault(
                        "a prior attempt may have been accepted; an explicit new attempt is required"@,
                    ),
                )
            } else if g.budget.attempts_used >= g.spec.budget.max_total_attempts {
                Some(
                    fault(
                        OrchErrorCode::CapacityExhausted,
                        "graph attempt budget is exhausted"@,
                    ),
                )
            } else {
                issue_authority_fault(g, d, lease_id, authority, grant)
            },
        }
    }
}

/// Why a lease is not written for a dispatch whose attempt has none yet.
pub open spec fn issue_fault(
    g: WorkGraphRecord,
    d: DispatchIntent,
    lease_id: LeaseId,
    authority: ActionAuthority,
    grant: Option<GrantBinding>,
    now: i128,
) -> Option<Fault> {
    first_fault(
        issue_state_fault(g, d, lease_id, authority, grant),
        match lease_expiry(g, d, now) {
            None => Some(invalid_fault("lease deadline overflows"@)),
            Some(t) => if t <= now {
                Some(conflict_fault("graph deadline leaves no room for a new lease"@))
            } else {
                lease_fault(new_lease(g, d, lease_id, authority, grant, now))
            },
        },
    )
}

/// Why the authority or the grant does not cover a dispatch.
pub open spec fn issue_authority_fault(
    g: WorkGraphRecord,
    d: DispatchIntent,
    lease_id: LeaseId,
    authority: ActionAuthority,
    grant: Option<GrantBinding>,
) -> Option<Fault> {
    if d.requires_computer_use && grant is None {
        Some(
            forbidden_fault("work requires Computer Use but no grant binding was attached"@),
        )
    } else if !d.requires_computer_use && grant is Some {
        Some(
            invalid_fault(
                "a Computer Use grant was attached to work that does not require it"@,
            ),
        )
    } else if authority.attempt_id@ != d.attempt_id@ || authority.work_id@ != d.work_id@
        || authority.attempt != d.attempt || authority.graph_id@ != g.graph_id@ {
        Some(forbidden_fault("authority is not bound to this dispatch"@))
    } else if !d.capabilities.inside(authority.capabilities) {
        Some(
            forbidden_fault("authority does not cover every capability this dispatch claims"@),
        )
    } else {
        first_fault(authority_fault(authority), match grant {
            Some(b) => binding_fault(b, lease_id@, d.attempt_id@),
            None => None,
        })
    }
}

/// `after` is `g` with a lease written for the item it is for.
pub open spec fn lease_issued(
    g: WorkGraphRecord,
    after: WorkGraphRecord,
    lease: LeaseRecord,
    authority: ActionAuthority,
    now: i128,
) -> bool {
    let i = record_at(g.work@, lease.work_id@)->0;
    &&& after == (WorkGraphRecord {
        leases: after.leases,
        authorities: after.authorities,
        work: after.work,
        budget: BudgetLedger { attempts_used: one_more(g.budget.attempts_used), ..g.budget },
        updated_at: now,
        ..g
    })
    &&& after.leases@ == g.leases@.push(lease)
    &&& after.authorities@ == if authority_at(g.authorities@, authority.authority_id@) is Some {
        g.authorities@
    } else {
        g.authorities@.push(authority)
    }
    &&& after.work@ == g.work@.update(
        i,
        WorkRecord {
            state: WorkState::Leased,
            attempts: lease.attempt,
            current_lease_id: Some(lease.lease_id),
            updated_at: now,
            ..g.work@[i]
        },
    )
}

/// What holds of the graph and the answer after a lease was asked for.
pub open spec fn issuing(
    g: WorkGraphRecord,
    after: WorkGraphRecord,
    r: Result<LeaseRecord, OrchError>,
    d: DispatchIntent,
    lease_id: LeaseId,
    authority: ActionAuthority,
    grant: Option<GrantBinding>,
    now: i128,
) -> bool {
    match intent_fault(g, d) {
        Some(f) => after == g && refused(r, f),
        None => match lease_for(g.leases@, d.attempt_id@) {
            Some(j) => after == g && if g.leases@[j].lease_id@ != lease_id@ {
                refused(
                    r,
                    conflict_fault("this attempt already has a durable lease under another id"@),
                )
            } else {
                r == Ok::<LeaseRecord, OrchError>(g.leases@[j])
            },
            None => match issue_fault(g, d, lease_id, authority, grant, now) {
                Some(f) => after == g && refused(r, f),
                None => {
                    let lease = new_lease(g, d, lease_id, authority, grant, now);
                    r == Ok::<LeaseRecord, OrchError>(lease) && lease_issued(
                        g,
                        after,
                        lease,
                        authority,
                        now,
                    )
                },
            },
        },
    }
}

fn find_lease_for(g: &WorkGraphRecord, attempt_id: &AttemptId) -> (r: Option<usize>)
    ensures
        match r {
            Some(i) => i < g.leases@.len() && lease_for(g.leases@, attempt_id@) == Some(i as int),
            None => lease_for(g.leases@, attempt_id@) is None,
        },
{
    let ghost ids = leased_attempts(g.leases@);
    let mut i: usize = 0;
    while i < g.leases.len()
        invariant
            i <= g.leases@.len(),
            ids == leased_attempts(g.leases@),
            position_from(ids, attempt_id@, 0) == position_from(ids, attempt_id@, i as int),
        decreases g.leases.len() - i,
    {
        if g.leases[i].attempt_id.same(attempt_id) {
            return Some(i);
        }
        i = i + 1;
    }
    None
}

fn check_intent(record: &WorkGraphRecord, intent: &DispatchIntent) -> (r: Result<(), OrchError>)
    ensures
        judged(r, intent_fault(*record, *intent)),
{
    if !intent.graph_id.same(&record.graph_id) {
        return Err(invalid("dispatch intent belongs to a different graph"));
    }
    if intent.epoch != record.epoch {
        return Err(
            OrchError::new(
                OrchErrorCode::StaleVersion,
                "dispatch intent was planned under a superseded graph epoch",
            ),
        );
    }
    if record.lifecycle != GraphLifecycle::Active {
        return Err(conflict("graph is no longer admitting work"));
    }
    let spec: &WorkSpec = match record.spec.work_item(&intent.work_id) {
        Some(spec) => spec,
        None => {
            return Err(invalid("dispatch intent names undeclared work"));
        },
    };
    if !spec.worker_id.same(&intent.worker_id) || spec.capabilities != intent.capabilities {
        return Err(invalid("dispatch intent disagrees with the declared work"));
    }
    let expected: AttemptId = derive_attempt_id(
        &record.graph_id,
        &intent.work_id,
        intent.attempt,
    )?;
    if !expected.same(&intent.attempt_id) {
        return Err(invalid("dispatch intent attempt identity is not derivable"));
    }
    Ok(())
}

fn check_issue_authority(
    record: &WorkGraphRecord,
    intent: &DispatchIntent,
    lease_id: &LeaseId,
    authority: &ActionAuthority,
    grant: &Option<GrantBinding>,
) -> (r: Result<(), OrchError>)
    ensures
        judged(r, issue_authority_fault(*record, *intent, *lease_id, *authority, *grant)),
{
    if intent.requires_computer_use && grant.is_none() {
        return Err(forbidden("work requires Computer Use but no grant binding was attached"));
    }
    if !intent.requires_computer_use && grant.is_some() {
        return Err(
            invalid("a Computer Use grant was attached to work that does not require it"),
        );
    }
    if !authority.attempt_id.same(&intent.attempt_id) || !authority.work_id.same(&intent.work_id)
        || authority.attempt != intent.attempt || !authority.graph_id.same(&record.graph_id) {
        return Err(forbidden("authority is not bound to this dispatch"));
    }
    if !intent.capabilities.is_subset(&authority.capabilities) {
        return Err(
            forbidden("authority does not cover every capability this dispatch claims"),
        );
    }
    authority.validate()?;
    match grant {
        Some(binding) => binding.verify_binding(lease_id, &intent.attempt_id),
        None => Ok(()),
    }
}

fn check_issue(
    record: &WorkGraphRecord,
    intent: &DispatchIntent,
    lease_id: &LeaseId,
    authority: &ActionAuthority,
    grant: &Option<GrantBinding>,
) -> (r: Result<(), OrchError>)
    ensures
        judged(r, issue_state_fault(*record, *intent, *lease_id, *authority, *grant)),
{
    if record.find_lease(lease_id).is_some() {
        return Err(conflict("lease id is already present in the ledger"));
    }
    let item: &WorkRecord = match record.work_record(&intent.work_id) {
        Some(item) => item,
        None => {
            return Err(invalid("dispatch intent names undeclared work"));
        },
    };
    if item.state != WorkState::Ready {
        return Err(conflict("work item is not ready for dispatch"));
    }
    let attempt: u32 = if item.attempts == u32::MAX {
        u32::MAX
    } else {
        item.attempts + 1
    };
    if attempt != intent.attempt {
        return Err(conflict("dispatch intent attempt ordinal is stale"));
    }
    if forbids_same_work_retry(record, &intent.work_id) {
        return Err(
            conflict(
                "a prior attempt may have been accepted; an explicit new attempt is required",
            ),
        );
    }
    if record.budget.attempts_used >= record.spec.budget.max_total_attempts {
        return Err(
            OrchError::new(
                OrchErrorCode::CapacityExhausted,
                "graph attempt budget is exhausted",
            ),
        );
    }
    check_issue_authority(record, intent, lease_id, authority, grant)
}

/// The instant at which a lease for this dispatch expires.
fn expiry_of_lease(record: &WorkGraphRecord, intent: &DispatchIntent, now: i128) -> (r: Result<
    i128,
    OrchError,
>)
    requires
        work_at(record.spec.work@, intent.work_id@) is Some,
    ensures
        match lease_expiry(*record, *intent, now) {
            None => refused(r, invalid_fault("lease deadline overflows"@)),
            Some(t) => if t <= now {
                refused(r, conflict_fault("graph deadline leaves no room for a new lease"@))
            } else {
                r is Ok && r->Ok_0 == t
            },
        },
{
    let duration: u64 = match record.spec.work_item(&intent.work_id) {
        Some(spec) => spec.bounds.max_duration_ms,
        None => 0,
    };
    let end: i128 = match end_of_lease(duration, now) {
        Some(t) => t,
        None => {
            return Err(invalid("lease deadline overflows"));
        },
    };
    let expiry: i128 = if end < record.deadline_at {
        end
    } else {
        record.deadline_at
    };
    if expiry <= now {
        return Err(conflict("graph deadline leaves no room for a new lease"));
    }
    Ok(expiry)
}

fn write_lease(
    record: &mut WorkGraphRecord,
    lease: &LeaseRecord,
    authority: &ActionAuthority,
    now: i128,
)
    requires
        record_at(old(record).work@, lease.work_id@) is Some,
    ensures
        lease_issued(*old(record), *final(record), *lease, *authority, now),
{
    let ghost g = *record;
    record.leases.push(lease.clone());
    if record.find_authority(&authority.authority_id).is_none() {
        record.authorities.push(authority.clone());
    }
    if record.budget.attempts_used < u32::MAX {
        record.budget.attempts_used = record.budget.attempts_used + 1;
    }
    match record.find_record(&lease.work_id) {
        Some(i) => {
            record.work[i].state = WorkState::Leased;
            record.work[i].attempts = lease.attempt;
            record.work[i].current_lease_id = Some(lease.lease_id.clone());
            record.work[i].updated_at = now;
            proof {
                assert(record.work@ =~= g.work@.update(
                    i as int,
                    WorkRecord {
                        state: WorkState::Leased,
                        attempts: lease.attempt,
                        current_lease_id: Some(lease.lease_id),
                        updated_at: now,
                        ..g.work@[i as int]
                    },
                ));
            }
        },
        None => {},
    }
    record.updated_at = now;
}

/// Writes the durable lease for one planned dispatch.
///
/// The lease exists before any child does. The same dispatch again, in the same
/// epoch, gives back the stored lease instead of a second one.
pub fn issue_lease(
    record: &mut WorkGraphRecord,
    intent: &DispatchIntent,
    lease_id: LeaseId,
    authority: &ActionAuthority,
    grant: Option<GrantBinding>,
    now: i128,
) -> (r: Result<LeaseRecord, OrchError>)
    ensures
        issuing(*old(record), *final(record), r, *intent, lease_id, *authority, grant, now),
{
    let ghost g = *record;
    check_intent(record, intent)?;
    match find_lease_for(record, &intent.attempt_id) {
        Some(j) => {
            if !record.leases[j].lease_id.same(&lease_id) {
                return Err(
                    conflict("this attempt already has a durable lease under another id"),
                );
            }
            return Ok(record.leases[j].clone());
        },
        None => {},
    }
    check_issue(record, intent, &lease_id, authority, &grant)?;
    let expires_at: i128 = expiry_of_lease(record, intent, now)?;
    let lease = LeaseRecord {
        lease_id,
        graph_id: record.graph_id.clone(),
        work_id: intent.work_id.clone(),
        worker_id: intent.worker_id.clone(),
        attempt_id: intent.attempt_id.clone(),
        attempt: intent.attempt,
        authority_id: authority.authority_id.clone(),
        session_id: record.session_id,
        workspace: record.workspace.clone(),
        epoch: record.epoch,
        state: LeaseState::Issued,
        external_ref: None,
        grant,
        issued_at: now,
        expires_at,
        acknowledged_at: None,
        settled_at: None,
        uncertain_reason: None,
    };
    proof {
        assert(lease == new_lease(g, *intent, lease_id, *authority, grant, now));
    }
    lease.validate()?;
    write_lease(record, &lease, authority, now);
    Ok(lease)
}

/// Asking again for a lease that was just written, by the same dispatch under
/// the same identity, gives back that lease and changes nothing.
pub proof fn issuing_is_idempotent(
    g: WorkGraphRecord,
    once: WorkGraphRecord,
    twice: WorkGraphRecord,
    r: Result<LeaseRecord, OrchError>,
    s: Result<LeaseRecord, OrchError>,
    d: DispatchIntent,
    lease_id: LeaseId,
    again: LeaseId,
    authority: ActionAuthority,
    other: ActionAuthority,
    grant: Option<GrantBinding>,
    regrant: Option<GrantBinding>,
    t: i128,
    u: i128,
)
    requires
        issuing(g, once, r, d, lease_id, authority, grant, t),
        r is Ok,
        again@ == lease_id@,
        issuing(once, twice, s, d, again, other, regrant, u),
    ensures
        twice == once,
        s == r,
{
    assert(intent_fault(g, d) is None);
    assert(intent_fault(once, d) is None);
    let before = leased_attempts(g.leases@);
    let after = leased_attempts(once.leases@);
    position_is_first(before, d.attempt_id@, 0);
    position_is_first(after, d.attempt_id@, 0);
    match lease_for(g.leases@, d.attempt_id@) {
        Some(j) => {},
        None => {
            let n = g.leases@.len() as int;
            assert(once.leases@[n] == r->Ok_0);
            assert(after[n] == d.attempt_id@);
            assert forall|k: int| 0 <= k < n implies after[k] == before[k] by {
                assert(once.leases@[k] == g.leases@[k]);
            }
            assert(lease_for(once.leases@, d.attempt_id@) == Some(n));
        },
    }
}

/// No two leases are for the same attempt.
pub open spec fn one_lease_per_attempt(g: WorkGraphRecord) -> bool {
    all_distinct(leased_attempts(g.leases@))
}

/// Once an attempt has a lease, asking for one again never writes a second.
/// On any later state of the graph, of the same identity, epoch, lifecycle and
/// declaration, in which the lease still stands, the same identity gives back
/// that lease, another one is a conflict, and the graph stays as it is.
pub proof fn leases_are_given_once(
    g: WorkGraphRecord,
    once: WorkGraphRecord,
    later: WorkGraphRecord,
    after: WorkGraphRecord,
    r: Result<LeaseRecord, OrchError>,
    s: Result<LeaseRecord, OrchError>,
    d: DispatchIntent,
    lease_id: LeaseId,
    again: LeaseId,
    authority: ActionAuthority,
    other: ActionAuthority,
    grant: Option<GrantBinding>,
    regrant: Option<GrantBinding>,
    j: int,
    t: i128,
    u: i128,
)
    requires
        issuing(g, once, r, d, lease_id, authority, grant, t),
        r is Ok,
        later.graph_id@ == g.graph_id@,
        later.epoch == g.epoch,
        later.lifecycle == g.lifecycle,
        later.spec == g.spec,
        one_lease_per_attempt(later),
        0 <= j < later.leases@.len(),
        later.leases@[j].attempt_id@ == d.attempt_id@,
        later.leases@[j].lease_id@ == lease_id@,
        issuing(later, after, s, d, again, other, regrant, u),
    ensures
        after == later,
        again@ == lease_id@ ==> s == Ok::<LeaseRecord, OrchError>(later.leases@[j]),
        again@ != lease_id@ ==> s is Err && s->Err_0.code is Conflict,
{
    assert(intent_fault(g, d) is None);
    assert(intent_fault(later, d) is None);
    let ids = leased_attempts(later.leases@);
    position_is_first(ids, d.attempt_id@, 0);
    assert(ids[j] == d.attempt_id@);
}

proof fn a_new_lease_is_single(
    g: WorkGraphRecord,
    after: WorkGraphRecord,
    lease: LeaseRecord,
    authority: ActionAuthority,
    now: i128,
)
    requires
        lease_issued(g, after, lease, authority, now),
        lease_for(g.leases@, lease.attempt_id@) is None,
        lease_at(g.leases@, lease.lease_id@) is None,
        one_lease_per_attempt(g),
        well_formed(g),
        record_at(g.work@, lease.work_id@) is Some,
    ensures
        one_lease_per_attempt(after),
        well_formed(after),
{
    let before = leased_attempts(g.leases@);
    position_is_first(before, lease.attempt_id@, 0);
    assert(leased_attempts(after.leases@) =~= before.push(lease.attempt_id@));
    let ids = lease_ids(g.leases@);
    position_is_first(ids, lease.lease_id@, 0);
    assert(lease_ids(after.leases@) =~= ids.push(lease.lease_id@));
    position_is_first(record_ids(g.work@), lease.work_id@, 0);
    assert(record_ids(after.work@) =~= record_ids(g.work@));
}

/// Issuing never gives an attempt a second lease, nor a lease identity a
/// second use.
pub proof fn issuing_keeps_leases_single(
    g: WorkGraphRecord,
    after: WorkGraphRecord,
    r: Result<LeaseRecord, OrchError>,
    d: DispatchIntent,
    lease_id: LeaseId,
    authority: ActionAuthority,
    grant: Option<GrantBinding>,
    now: i128,
)
    requires
        issuing(g, after, r, d, lease_id, authority, grant, now),
        one_lease_per_attempt(g),
        well_formed(g),
    ensures
        one_lease_per_attempt(after),
        well_formed(after),
{
    if after != g {
        let lease = new_lease(g, d, lease_id, authority, grant, now);
        assert(issue_state_fault(g, d, lease_id, authority, grant) is None);
        a_new_lease_is_single(g, after, lease, authority, now);
    }
}

/// What holds after a spawn was claimed.
pub open spec fn spawn_claimed(
    g: WorkGraphRecord,
    after: WorkGraphRecord,
    r: Result<(), OrchError>,
    lease_id: Seq<char>,
    now: i128,
) -> bool {
    match lease_at(g.leases@, lease_id) {
        None => after == g && refused(r, invalid_fault("lease is not in the ledger"@)),
        Some(j) => if g.leases@[j].state is Issued {
            &&& r is Ok
            &&& after == (WorkGraphRecord { leases: after.leases, updated_at: now, ..g })
            &&& after.leases@ == g.leases@.update(
                j,
                LeaseRecord { state: LeaseState::Claimed, ..g.leases@[j] },
            )
        } else {
            after == g && if g.leases@[j].state is Claimed {
                r is Ok
            } else {
                refused(r, conflict_fault("lease is not available for a spawn claim"@))
            }
        },
    }
}

/// Records that one caller won the right to spawn this lease's child.
pub fn claim_spawn(record: &mut WorkGraphRecord, lease_id: &LeaseId, now: i128) -> (r: Result<
    (),
    OrchError,
>)
    ensures
        spawn_claimed(*old(record), *final(record), r, lease_id@, now),
{
    let j: usize = match record.find_lease(lease_id) {
        Some(j) => j,
        None => {
            return Err(invalid("lease is not in the ledger"));
        },
    };
    match record.leases[j].state {
        LeaseState::Issued => {
            record.leases[j].state = LeaseState::Claimed;
            record.updated_at = now;
            Ok(())
        },
        LeaseState::Claimed => Ok(()),
        _ => Err(conflict("lease is not available for a spawn claim")),
    }
}

/// A handle that an owner may report.
pub open spec fn handle_fault(external_ref: Seq<char>) -> Option<Fault> {
    if external_ref.len() == 0 || utf8_len(external_ref) > 512 || external_ref.contains('\0') {
        Some(invalid_fault("external reference is invalid"@))
    } else {
        None
    }
}

/// A lease of an older epoch.
pub open spec fn superseded() -> Fault {
    fault(OrchErrorCode::StaleVersion, "lease was superseded by a later control epoch"@)
}

/// Why a lease is not acknowledged.
pub open spec fn acknowledge_fault(
    g: WorkGraphRecord,
    lease_id: Seq<char>,
    external_ref: Seq<char>,
) -> Option<Fault> {
    first_fault(
        handle_fault(external_ref),
        match lease_at(g.leases@, lease_id) {
            None => Some(invalid_fault("lease is not in the ledger"@)),
            Some(j) => if g.leases@[j].epoch != g.epoch {
                Some(superseded())
            } else if !(g.leases@[j].state is Claimed || g.leases@[j].state is Acknowledged) {
                Some(conflict_fault("lease cannot be acknowledged from its current state"@))
            } else {
                None
            },
        },
    )
}

/// The records after the item with this identity was set to a state.
pub open spec fn with_state(
    work: Seq<WorkRecord>,
    id: Seq<char>,
    state: WorkState,
    now: i128,
) -> Seq<WorkRecord> {
    match record_at(work, id) {
        None => work,
        Some(i) => work.update(i, WorkRecord { state, updated_at: now, ..work[i] }),
    }
}

/// `after` is `g` with the lease at `j` acknowledged under a handle.
pub open spec fn acknowledged(
    g: WorkGraphRecord,
    after: WorkGraphRecord,
    j: int,
    external_ref: Seq<char>,
    now: i128,
) -> bool {
    &&& after == (WorkGraphRecord {
        leases: after.leases,
        work: after.work,
        updated_at: now,
        ..g
    })
    &&& after.leases@ == g.leases@.update(j, after.leases@[j])
    &&& after.leases@[j] == (LeaseRecord {
        state: LeaseState::Acknowledged,
        external_ref: after.leases@[j].external_ref,
        acknowledged_at: Some(now),
        ..g.leases@[j]
    })
    &&& holds(after.leases@[j].external_ref, external_ref)
    &&& after.work@ == if state_of(g, g.leases@[j].work_id@) == Some(WorkState::Leased) {
        with_state(g.work@, g.leases@[j].work_id@, WorkState::Running, now)
    } else {
        g.work@
    }
}

/// What acknowledging a lease comes to.
pub open spec fn acknowledging(
    g: WorkGraphRecord,
    after: WorkGraphRecord,
    r: Result<(), OrchError>,
    lease_id: Seq<char>,
    external_ref: Seq<char>,
    now: i128,
) -> bool {
    match acknowledge_fault(g, lease_id, external_ref) {
        Some(f) => after == g && refused(r, f),
        None => r is Ok && acknowledged(
            g,
            after,
            lease_at(g.leases@, lease_id)->0,
            external_ref,
            now,
        ),
    }
}

/// The worker acknowledged the lease and reported a handle.
pub fn acknowledge(
    record: &mut WorkGraphRecord,
    lease_id: &LeaseId,
    external_ref: &str,
    now: i128,
) -> (r: Result<(), OrchError>)
    ensures
        acknowledging(
            *old(record),
            *final(record),
            r,
            lease_id@,
            external_ref@,
            now,
        ),
{
    let ghost g = *record;
    if external_ref.is_empty() || byte_len(external_ref) > 512 || str_has_char(
        external_ref,
        '\0',
    ) {
        return Err(invalid("external reference is invalid"));
    }
    let j: usize = match record.find_lease(lease_id) {
        Some(j) => j,
        None => {
            return Err(invalid("lease is not in the ledger"));
        },
    };
    if record.leases[j].epoch != record.epoch {
        return Err(
            OrchError::new(
                OrchErrorCode::StaleVersion,
                "lease was superseded by a later control epoch",
            ),
        );
    }
    if record.leases[j].state != LeaseState::Claimed && record.leases[j].state
        != LeaseState::Acknowledged {
        return Err(conflict("lease cannot be acknowledged from its current state"));
    }
    record.leases[j].state = LeaseState::Acknowledged;
    record.leases[j].external_ref = Some(copy(external_ref));
    record.leases[j].acknowledged_at = Some(now);
    let work_id: WorkId = record.leases[j].work_id.clone();
    match record.find_record(&work_id) {
        Some(i) => {
            if record.work[i].state == WorkState::Leased {
                record.work[i].state = WorkState::Running;
                record.work[i].updated_at = now;
            }
        },
        None => {},
    }
    record.updated_at = now;
    proof {
        assert(record.leases@ =~= g.leases@.update(j as int, record.leases@[j as int]));
        assert(record.work@ =~= if state_of(g, work_id@) == Some(WorkState::Leased) {
            with_state(g.work@, work_id@, WorkState::Running, now)
        } else {
            g.work@
        });
        assert(acknowledged(g, *record, j as int, external_ref@, now));
    }
    Ok(())
}

/// The record of an item whose fate is unknown.
pub open spec fn made_uncertain(w: WorkRecord, now: i128) -> WorkRecord {
    WorkRecord { state: WorkState::DispatchUncertain, updated_at: now, ..w }
}

/// The state a report leads to.
pub open spec fn reported_state(result: WorkResult) -> WorkState {
    match result {
        WorkResult::Succeeded => WorkState::Succeeded,
        WorkResult::Failed => WorkState::Failed,
        WorkResult::Cancelled => WorkState::Cancelled,
        WorkResult::TimedOut => WorkState::TimedOut,
    }
}

/// Why a lease is not settled with a report.
pub open spec fn settle_fault(
    g: WorkGraphRecord,
    lease_id: Seq<char>,
    outcome: WorkOutcome,
) -> Option<Fault> {
    first_fault(
        outcome_fault(outcome),
        match lease_at(g.leases@, lease_id) {
            None => Some(invalid_fault("lease is not in the ledger"@)),
            Some(j) => {
                let l = g.leases@[j];
                if l.epoch != g.epoch && !(l.state is Uncertain) {
                    Some(superseded())
                } else if l.state is Settled {
                    Some(conflict_fault("lease is already settled"@))
                } else if l.state is Revoked {
                    Some(conflict_fault("lease was revoked"@))
                } else {
                    match role_at(g.spec, l.work_id@) {
                        None => Some(
                            invalid_fault("lease names work with no resolvable role"@),
                        ),
                        Some(role) => if role is Review && outcome.verdict is None
                            && outcome.result is Succeeded {
                            Some(invalid_fault("a completed review must report a verdict"@))
                        } else if !(role is Review) && outcome.verdict is Some {
                            Some(invalid_fault("only a review item may report a verdict"@))
                        } else {
                            None
                        },
                    }
                }
            },
        },
    )
}

/// `w` is the record of an item settled with a report.
pub open spec fn settled_record(
    before: WorkRecord,
    w: WorkRecord,
    outcome: WorkOutcome,
    now: i128,
) -> bool {
    &&& w == (WorkRecord {
        state: reported_state(outcome.result),
        verdict: outcome.verdict,
        summary: w.summary,
        evidence: w.evidence,
        current_lease_id: None,
        updated_at: now,
        ..before
    })
    &&& match outcome.summary {
        Some(s) => holds(w.summary, fitted(s@, MAX_SUMMARY_BYTES as nat)),
        None => w.summary is None,
    }
    &&& w.evidence@ == outcome.evidence@
}

/// `mid` is `g` with the lease at `j` settled with a report, before the derived
/// states are computed anew.
pub open spec fn lease_settled(
    g: WorkGraphRecord,
    mid: WorkGraphRecord,
    j: int,
    outcome: WorkOutcome,
    now: i128,
) -> bool {
    &&& mid == (WorkGraphRecord { leases: mid.leases, work: mid.work, updated_at: now, ..g })
    &&& mid.leases@ == g.leases@.update(
        j,
        LeaseRecord { state: LeaseState::Settled, settled_at: Some(now), ..g.leases@[j] },
    )
    &&& match record_at(g.work@, g.leases@[j].work_id@) {
        None => mid.work@ == g.work@,
        Some(i) => mid.work@ == g.work@.update(i, mid.work@[i]) && settled_record(
            g.work@[i],
            mid.work@[i],
            outcome,
            now,
        ),
    }
}

/// What holds of the graph and the answer after a report.
pub open spec fn settling(
    g: WorkGraphRecord,
    after: WorkGraphRecord,
    r: Result<(), OrchError>,
    lease_id: Seq<char>,
    outcome: WorkOutcome,
    now: i128,
) -> bool {
    match settle_fault(g, lease_id, outcome) {
        Some(f) => after == g && refused(r, f),
        None => r is Ok && exists|mid: WorkGraphRecord| #[trigger]
            lease_settled(g, mid, lease_at(g.leases@, lease_id)->0, outcome, now) && recomputed(
                mid,
                after,
                now,
            ),
    }
}

/// A graph is well formed if the same identities are where they were.
pub proof fn same_ids_same_shape(g: WorkGraphRecord, mid: WorkGraphRecord)
    requires
        well_formed(g),
        mid.spec == g.spec,
        record_ids(mid.work@) == record_ids(g.work@),
        lease_ids(mid.leases@) == lease_ids(g.leases@),
        attempt_ids(mid.attempts@) == attempt_ids(g.attempts@),
    ensures
        well_formed(mid),
{
}

/// Settles a lease with its owner's terminal report.
pub fn settle(
    record: &mut WorkGraphRecord,
    lease_id: &LeaseId,
    outcome: &WorkOutcome,
    now: i128,
) -> (r: Result<(), OrchError>)
    requires
        well_formed(*old(record)),
    ensures
        settling(*old(record), *final(record), r, lease_id@, *outcome, now),
        well_formed(*final(record)),
{
    let ghost g = *record;
    outcome.validate()?;
    let j: usize = match record.find_lease(lease_id) {
        Some(j) => j,
        None => {
            return Err(invalid("lease is not in the ledger"));
        },
    };
    let state: LeaseState = record.leases[j].state;
    if record.leases[j].epoch != record.epoch && state != LeaseState::Uncertain {
        return Err(
            OrchError::new(
                OrchErrorCode::StaleVersion,
                "lease was superseded by a later control epoch",
            ),
        );
    }
    if state == LeaseState::Settled {
        return Err(conflict("lease is already settled"));
    }
    if state == LeaseState::Revoked {
        return Err(conflict("lease was revoked"));
    }
    let role: WorkerRole = match record.spec.role_of(&record.leases[j].work_id) {
        Some(role) => role,
        None => {
            return Err(invalid("lease names work with no resolvable role"));
        },
    };
    if role == WorkerRole::Review && outcome.verdict.is_none() && outcome.result
        == WorkResult::Succeeded {
        return Err(invalid("a completed review must report a verdict"));
    }
    if role != WorkerRole::Review && outcome.verdict.is_some() {
        return Err(invalid("only a review item may report a verdict"));
    }
    let work_id: WorkId = record.leases[j].work_id.clone();
    record.leases[j].state = LeaseState::Settled;
    record.leases[j].settled_at = Some(now);
    let next: WorkState = match outcome.result {
        WorkResult::Succeeded => WorkState::Succeeded,
        WorkResult::Failed => WorkState::Failed,
        WorkResult::Cancelled => WorkState::Cancelled,
        WorkResult::TimedOut => WorkState::TimedOut,
    };
    match record.find_record(&work_id) {
        Some(i) => {
            record.work[i].state = next;
            record.work[i].verdict = outcome.verdict;
            record.work[i].summary = match &outcome.summary {
                Some(text) => Some(truncate_text(text.as_str(), MAX_SUMMARY_BYTES)),
                None => None,
            };
            record.work[i].evidence = copy_evidence(&outcome.evidence);
            record.work[i].current_lease_id = None;
            record.work[i].updated_at = now;
            proof {
                assert(record.work@ =~= g.work@.update(i as int, record.work@[i as int]));
            }
        },
        None => {},
    }
    record.updated_at = now;
    let ghost mid = *record;
    proof {
        assert(mid.leases@ =~= g.leases@.update(
            j as int,
            LeaseRecord {
                state: LeaseState::Settled,
                settled_at: Some(now),
                ..g.leases@[j as int]
            },
        ));
        assert(lease_settled(g, mid, j as int, *outcome, now));
        assert(record_ids(mid.work@) =~= record_ids(g.work@));
        assert(lease_ids(mid.leases@) =~= lease_ids(g.leases@));
        same_ids_same_shape(g, mid);
    }
    recompute_derived(record, now);
    Ok(())
}

} // verus!
