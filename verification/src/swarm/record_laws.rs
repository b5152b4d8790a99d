//! What is promised of sends, grants, stored graphs and what is shown of them,
//! said of the records alone.

use crate::error::OrchError;
use crate::order::{every_list_has_an_order, listed_before, order_of, position_is_first};
use crate::run::CompletionUsage;
use crate::swarm::attempts::{attempt_admitting, attempt_finishing};
use crate::swarm::authority::{
    authority_fault, finishing, use_fault, ActionAuthority, AttemptState, AuthorityUse,
    ProviderAttemptRecord, RetryClass, SendCertainty,
};
use crate::swarm::grant::{
    action_claiming, action_fault, fingerprint, grant_binding, grant_consuming, ActionGrant,
    ComputerRun, GrantClaim, GrantConsumption,
};
use crate::swarm::projection::{
    counted, is_lease_list, is_progress, is_progress_list, is_status, item_ranks, lease_ranks,
    projected_items, totals, Counted, GraphStatusProjection, LeaseRow, Redactor, WorkProgressRow,
};
use crate::swarm::scheduler::AdmissionBlock;
use crate::swarm::spec::role_at;
use crate::swarm::state::{
    attempt_at, attempt_ids, authority_at, authority_ids, binds, graph_record_fault, lease_at,
    lease_ids, record_at, record_ids, slots_held, GrantBinding, LeaseRecord, LeaseState,
    WorkGraphRecord, WorkRecord, WorkState,
};
use crate::swarm::store::{
    claiming, graph_ranks, graphs_listed, swapped, trusted, trusted_records, untrusted_count,
    ClaimOutcome, ClaimRecord, StoredGraph,
};
use crate::text::{text_lt, text_lt_irreflexive};
use vstd::prelude::*;
use vstd::string::*;

verus! {

/// The lease still binds its worker.
pub open spec fn in_force(l: LeaseRecord) -> bool {
    match l.state {
        LeaseState::Issued | LeaseState::Claimed | LeaseState::Acknowledged => true,
        _ => false,
    }
}

/// A send is admitted only under a lease in force. A lease whose attempt is on
/// record gets that attempt again and nothing changes; otherwise a new attempt
/// is put behind the others, under the authority the lease names, and takes
/// the next number of its item.
pub proof fn sends_are_admitted_under_leases_in_force(
    g: WorkGraphRecord,
    after: WorkGraphRecord,
    r: Result<ProviderAttemptRecord, OrchError>,
    lease_id: Seq<char>,
    now: i128,
)
    requires
        attempt_admitting(g, after, r, lease_id, now),
        r is Ok,
    ensures
        exists|j: int|
            {
                let l = #[trigger] g.leases@[j];
                &&& 0 <= j < g.leases@.len()
                &&& l.lease_id@ == lease_id
                &&& in_force(l)
                &&& {
                    ||| after == g && g.attempts@.contains(r->Ok_0) && r->Ok_0.attempt_id@
                        == l.attempt_id@
                    ||| after.attempts@ == g.attempts@.push(r->Ok_0) && exists|i: int, a: int|
                        {
                            &&& 0 <= i < g.work@.len()
                            &&& (#[trigger] g.work@[i]).work_id@ == l.work_id@
                            &&& 0 <= a < g.authorities@.len()
                            &&& (#[trigger] g.authorities@[a]).authority_id@ == l.authority_id@
                            &&& r->Ok_0.authority_id == g.authorities@[a].authority_id
                            &&& r->Ok_0.attempt_id == g.authorities@[a].attempt_id
                            &&& r->Ok_0.work_id == g.authorities@[a].work_id
                            &&& r->Ok_0.ordinal == g.work@[i].send_ordinal + 1
                            &&& after.work@ == g.work@.update(
                                i,
                                (WorkRecord {
                                    send_ordinal: (g.work@[i].send_ordinal + 1) as u64,
                                    ..g.work@[i]
                                }),
                            )
                        } && r->Ok_0.state == AttemptState::Admitted && r->Ok_0.usage is None
                        && r->Ok_0.send_certainty is None && r->Ok_0.created_at == now
                        && after.leases == g.leases && after.budget == g.budget
                }
            },
{
    position_is_first(lease_ids(g.leases@), lease_id, 0);
    let j = lease_at(g.leases@, lease_id)->0;
    let l = g.leases@[j];
    assert(l.lease_id@ == lease_id);
    position_is_first(attempt_ids(g.attempts@), l.attempt_id@, 0);
    position_is_first(authority_ids(g.authorities@), l.authority_id@, 0);
    position_is_first(record_ids(g.work@), l.work_id@, 0);
    match attempt_at(g.attempts@, l.attempt_id@) {
        Some(k) => {
            assert(g.attempts@[k] == r->Ok_0);
        },
        None => {
            let i = record_at(g.work@, l.work_id@)->0;
            let a = authority_at(g.authorities@, l.authority_id@)->0;
            assert(g.work@[i].work_id@ == l.work_id@);
            assert(g.authorities@[a].authority_id@ == l.authority_id@);
        },
    }
}

/// A send is not admitted where the lease is unknown or no longer in force, and
/// then nothing changes.
pub proof fn sends_end_with_their_lease(
    g: WorkGraphRecord,
    after: WorkGraphRecord,
    r: Result<ProviderAttemptRecord, OrchError>,
    lease_id: Seq<char>,
    now: i128,
)
    requires
        attempt_admitting(g, after, r, lease_id, now),
        forall|j: int|
            0 <= j < g.leases@.len() && (#[trigger] g.leases@[j]).lease_id@ == lease_id
                ==> !in_force(g.leases@[j]),
    ensures
        r is Err,
        after == g,
{
    position_is_first(lease_ids(g.leases@), lease_id, 0);
}

/// What a response used: the total it names, or the sum of both sides if that
/// is larger.
pub open spec fn used(u: CompletionUsage) -> int {
    if u.total_tokens >= u.prompt_tokens + u.completion_tokens {
        u.total_tokens as int
    } else {
        u.prompt_tokens + u.completion_tokens
    }
}

/// What is reported of a send is put on record as it came: only what certainly
/// was not sent may be sent again for the same item, usage comes with an
/// accepted response alone, and a status never with what was not sent.
pub proof fn reports_are_recorded_as_they_came(
    before: ProviderAttemptRecord,
    after: ProviderAttemptRecord,
    r: Result<(), OrchError>,
    certainty: SendCertainty,
    http_status: Option<u16>,
    usage: Option<CompletionUsage>,
    now: i128,
)
    requires
        finishing(before, after, r, certainty, http_status, usage, now),
    ensures
        r is Ok ==> {
            &&& after.state == AttemptState::Finished
            &&& after.send_certainty == Some(certainty)
            &&& after.http_status == http_status
            &&& after.usage == usage
        },
        before.state == AttemptState::Finished ==> after == before && (r is Ok
            <==> before.send_certainty == Some(certainty) && before.http_status == http_status
            && before.usage == usage),
        r is Ok && before.state != AttemptState::Finished ==> {
            &&& after.retry_class == Some(
                if certainty == SendCertainty::KnownNotSent {
                    RetryClass::SameWorkSafe
                } else {
                    RetryClass::ExplicitNewAttemptOnly
                },
            )
            &&& usage is Some ==> certainty == SendCertainty::KnownAccepted
            &&& http_status is Some ==> certainty != SendCertainty::KnownNotSent
            &&& after.finished_at == Some(after.updated_at)
            &&& after.updated_at >= now
            &&& after.updated_at >= before.updated_at
            &&& after.updated_at == now || after.updated_at == before.updated_at
            &&& after == (ProviderAttemptRecord {
                state: after.state,
                send_certainty: after.send_certainty,
                retry_class: after.retry_class,
                http_status: after.http_status,
                usage: after.usage,
                updated_at: after.updated_at,
                finished_at: after.finished_at,
                ..before
            })
        },
{
}

/// The item is the first on record under this name.
pub open spec fn is_item(work: Seq<WorkRecord>, i: int, name: Seq<char>) -> bool {
    &&& 0 <= i < work.len()
    &&& work[i].work_id@ == name
    &&& forall|m: int| 0 <= m < i ==> (#[trigger] work[m]).work_id@ != name
}

/// The item is at work, or is being stopped.
pub open spec fn is_at_work(w: WorkRecord) -> bool {
    w.state == WorkState::Leased || w.state == WorkState::Running || w.state
        == WorkState::Cancelling
}

/// The attempt at `k` is finished as reported, and no other changed.
pub open spec fn is_finished_at(
    before: Seq<ProviderAttemptRecord>,
    after: Seq<ProviderAttemptRecord>,
    k: int,
    certainty: SendCertainty,
    http_status: Option<u16>,
    usage: Option<CompletionUsage>,
) -> bool {
    &&& 0 <= k < before.len()
    &&& after.len() == before.len()
    &&& forall|m: int| 0 <= m < before.len() && m != k ==> #[trigger] after[m] == before[m]
    &&& after[k].state == AttemptState::Finished
    &&& after[k].send_certainty == Some(certainty)
    &&& after[k].usage == usage
    &&& after[k].http_status == http_status
}

/// What the graph has used after a first report, which stops at the largest
/// number there is.
pub open spec fn used_after(before: u64, usage: Option<CompletionUsage>) -> int {
    if usage is None {
        before as int
    } else if before + used(usage->0) > u64::MAX {
        u64::MAX as int
    } else {
        before + used(usage->0)
    }
}

/// A reported send counts what it used once, at the first report. One whose
/// fate is unknown makes its item uncertain, if that is at work; no other item
/// changes, and no lease.
pub proof fn reports_count_their_use(
    g: WorkGraphRecord,
    after: WorkGraphRecord,
    r: Result<(), OrchError>,
    attempt_id: Seq<char>,
    certainty: SendCertainty,
    http_status: Option<u16>,
    usage: Option<CompletionUsage>,
    now: i128,
)
    requires
        attempt_finishing(g, after, r, attempt_id, certainty, http_status, usage, now),
        r is Ok,
    ensures
        after.leases == g.leases,
        after.lifecycle == g.lifecycle,
        after.budget.attempts_used == g.budget.attempts_used,
        exists|k: int| #[trigger]
            is_finished_at(g.attempts@, after.attempts@, k, certainty, http_status, usage)
                && g.attempts@[k].attempt_id@ == attempt_id && after.budget.tokens_used == if g.attempts@[k].state
                == AttemptState::Finished {
                g.budget.tokens_used as int
            } else {
                used_after(g.budget.tokens_used, usage)
            } && after.work@.len() == g.work@.len() && forall|i: int|
                0 <= i < g.work@.len() ==> #[trigger] after.work@[i] == if certainty
                    == SendCertainty::UncertainAccept && is_item(
                    g.work@,
                    i,
                    g.attempts@[k].work_id@,
                ) && is_at_work(g.work@[i]) {
                    (WorkRecord {
                        state: WorkState::DispatchUncertain,
                        updated_at: now,
                        ..g.work@[i]
                    })
                } else {
                    g.work@[i]
                },
{
    position_is_first(attempt_ids(g.attempts@), attempt_id, 0);
    let k = attempt_at(g.attempts@, attempt_id)->0;
    let a = g.attempts@[k];
    position_is_first(record_ids(g.work@), a.work_id@, 0);
    assert(a.attempt_id@ == attempt_id);
    assert(finishing(a, after.attempts@[k], r, certainty, http_status, usage, now));
    reports_are_recorded_as_they_came(
        a,
        after.attempts@[k],
        r,
        certainty,
        http_status,
        usage,
        now,
    );
    let ids = record_ids(g.work@);
    assert forall|i: int| 0 <= i < g.work@.len() implies (is_item(g.work@, i, a.work_id@)
        <==> record_at(g.work@, a.work_id@) == Some(i)) by {
        if is_item(g.work@, i, a.work_id@) {
            assert(ids[i] == a.work_id@);
            let f = record_at(g.work@, a.work_id@)->0;
            if f < i {
                assert(g.work@[f].work_id@ == a.work_id@);
            } else if i < f {
                assert(ids[i] != a.work_id@);
            }
        }
        if record_at(g.work@, a.work_id@) == Some(i) {
            assert forall|m: int| 0 <= m < i implies (#[trigger] g.work@[m]).work_id@
                != a.work_id@ by {
                assert(ids[m] != a.work_id@);
            }
        }
    }
    assert(is_finished_at(g.attempts@, after.attempts@, k, certainty, http_status, usage));
}

/// An authority permits a use exactly where it is sound, in force, and names
/// that attempt, session, workspace, agent, route, revisions and capability.
pub proof fn authorities_permit_what_they_name(a: ActionAuthority, claim: AuthorityUse<'_>, now: i128)
    ensures
        use_fault(a, claim, now) is None <==> {
            &&& authority_fault(a) is None
            &&& a.issued_at <= now < a.expires_at
            &&& a.graph_id@ == claim.graph_id@
            &&& a.work_id@ == claim.work_id@
            &&& a.attempt_id@ == claim.attempt_id@
            &&& a.attempt == claim.attempt
            &&& a.session_id == claim.session_id
            &&& a.workspace@ == claim.workspace@
            &&& a.agent_id@ == claim.agent_id@
            &&& a.route.snapshot_hash@ == claim.route_snapshot_hash@
            &&& a.revisions == claim.revisions
            &&& a.capabilities.has(claim.capability)
        },
{
}

/// A grant is bound only to the run and the target it was given for, at the
/// epoch and for the session that hold then.
pub proof fn grants_are_bound_to_their_run(
    grant: ActionGrant,
    run: ComputerRun,
    lease_id: Seq<char>,
    attempt_id: Seq<char>,
    r: Result<GrantBinding, OrchError>,
)
    requires
        grant_binding(grant, run, lease_id, attempt_id, r),
        r is Ok,
    ensures
        grant.defect is None,
        grant.run_id@ == run.run_id@,
        grant.target@ == run.target@,
        r->Ok_0.grant_id@ == grant.grant_id@,
        r->Ok_0.computer_run_id@ == run.run_id@,
        r->Ok_0.target_fingerprint@ == fingerprint(run),
        r->Ok_0.owner_session_id == run.owner_session_id,
        r->Ok_0.control_epoch == run.control_epoch,
        binds(r->Ok_0, lease_id, attempt_id),
{
}

/// An action is permitted exactly where the lease is in force and not run out,
/// the grant is sound, not revoked, in its time, not used up and covers the
/// class, and both speak of this run as it is now.
pub proof fn actions_need_lease_grant_and_run(
    lease: LeaseRecord,
    grant: ActionGrant,
    run: ComputerRun,
    class: Seq<char>,
    session: u128,
    now: i128,
)
    ensures
        action_fault(lease, grant, run, class, session, now) is None <==> {
            &&& lease.grant is Some
            &&& binds(lease.grant->0, lease.lease_id@, lease.attempt_id@)
            &&& lease.grant->0.grant_id@ == grant.grant_id@
            &&& lease.grant->0.computer_run_id@ == run.run_id@
            &&& grant.run_id@ == run.run_id@
            &&& lease.grant->0.target_fingerprint@ == fingerprint(run)
            &&& lease.grant->0.owner_session_id == run.owner_session_id
            &&& lease.grant->0.owner_session_id == session
            &&& lease.grant->0.control_epoch == run.control_epoch
            &&& grant.defect is None
            &&& grant.revoked_at is None
            &&& grant.issued_at <= now < grant.expires_at
            &&& grant.uses_remaining is Some ==> grant.uses_remaining->0 > 0
            &&& exists|i: int|
                0 <= i < grant.action_classes@.len() && (#[trigger] grant.action_classes@[i])@
                    == class
            &&& in_force(lease)
            &&& now < lease.expires_at
        },
{
}

/// A permitted action claims the grant at its epoch in the name of the lease
/// and attempt, so that two leases under one grant claim the same.
pub proof fn actions_claim_their_grant(
    lease: LeaseRecord,
    grant: ActionGrant,
    run: ComputerRun,
    class: Seq<char>,
    session: u128,
    now: i128,
    r: Result<GrantClaim, OrchError>,
)
    requires
        action_claiming(lease, grant, run, class, session, now, r),
    ensures
        r is Ok <==> action_fault(lease, grant, run, class, session, now) is None,
        r is Ok ==> r->Ok_0.key@ == grant.grant_id@ + ":"@ + crate::text::decimal(
            run.control_epoch as nat,
        ),
        r is Ok ==> r->Ok_0.holder@ == lease.lease_id@ + ":"@ + lease.attempt_id@,
{
}

/// A grant is used by the one who won the claim, or by the same holder again;
/// another holder is refused. What is recorded names the grant, the lease and
/// the attempt.
pub proof fn grants_are_used_by_one_holder(
    lease: LeaseRecord,
    grant: ActionGrant,
    run: ComputerRun,
    class: Seq<char>,
    session: u128,
    claimed: ClaimOutcome,
    existing: Option<Seq<char>>,
    now: i128,
    r: Result<GrantConsumption, OrchError>,
)
    requires
        grant_consuming(lease, grant, run, class, session, claimed, existing, now, r),
    ensures
        r is Ok <==> action_fault(lease, grant, run, class, session, now) is None && (claimed
            == ClaimOutcome::Won || existing == Some(
            lease.lease_id@ + ":"@ + lease.attempt_id@,
        )),
        r is Ok ==> {
            &&& r->Ok_0.grant_id@ == grant.grant_id@
            &&& r->Ok_0.lease_id == lease.lease_id
            &&& r->Ok_0.attempt_id == lease.attempt_id
            &&& r->Ok_0.control_epoch == run.control_epoch
            &&& r->Ok_0.action_classes@ == grant.action_classes@
            &&& r->Ok_0.consumed_at == now
        },
{
}

/// A key is won by whoever finds no record of it, and written in that name;
/// where there is one nothing is written.
pub proof fn keys_are_won_once(
    key: Seq<char>,
    holder: Seq<char>,
    on_record: bool,
    now: i128,
    r: (ClaimOutcome, Option<ClaimRecord>),
)
    requires
        claiming(key, holder, on_record, now, r),
    ensures
        r.0 == ClaimOutcome::Won <==> !on_record,
        r.1 is Some <==> !on_record,
        r.1 is Some ==> r.1->0.key@ == key && r.1->0.holder@ == holder && r.1->0.claimed_at == now,
{
}

/// A graph is written exactly over the revision the writer saw, in the same
/// session and workspace. It gets the next revision, never an earlier time,
/// and is otherwise what the writer gave.
pub proof fn graphs_are_written_over_the_revision_seen(
    r: Result<WorkGraphRecord, OrchError>,
    current: Option<WorkGraphRecord>,
    expected: u64,
    next: WorkGraphRecord,
    now: i128,
)
    requires
        swapped(r, current, expected, next, now),
    ensures
        r is Ok ==> {
            &&& current is Some
            &&& current->0.revision == expected
            &&& current->0.session_id == next.session_id
            &&& current->0.workspace@ == next.workspace@
            &&& r->Ok_0.revision == expected + 1
            &&& r->Ok_0.updated_at >= now
            &&& r->Ok_0.updated_at >= next.updated_at
            &&& r->Ok_0.updated_at == now || r->Ok_0.updated_at == next.updated_at
            &&& r->Ok_0 == (WorkGraphRecord {
                revision: r->Ok_0.revision,
                updated_at: r->Ok_0.updated_at,
                ..next
            })
            &&& graph_record_fault(r->Ok_0) is None
        },
        current is Some && current->0.revision == expected && current->0.session_id
            == next.session_id && current->0.workspace@ == next.workspace@ && expected < u64::MAX
            && r is Err ==> exists|bad: WorkGraphRecord|
            {
                &&& #[trigger] graph_record_fault(bad) is Some
                &&& bad.revision == expected + 1
                &&& bad == (WorkGraphRecord {
                    revision: bad.revision,
                    updated_at: bad.updated_at,
                    ..next
                })
            },
{
    let c = crate::swarm::store::committed(expected, next, now);
    if graph_record_fault(c) is Some {
        assert(c.revision == expected as u64 + 1 || expected == u64::MAX);
    }
}

proof fn trusted_are_kept(files: Seq<StoredGraph>, n: int)
    requires
        0 <= n <= files.len(),
    ensures
        untrusted_count(files, n) + trusted_records(files, n).len() == n,
        forall|i: int|
            0 <= i < n && #[trigger] trusted(files[i]) ==> files[i].record is Some
                && trusted_records(files, n).contains(files[i].record->0),
    decreases n,
{
    if n > 0 {
        trusted_are_kept(files, n - 1);
        let p = trusted_records(files, n - 1);
        let q = trusted_records(files, n);
        reveal(trusted);
        assert forall|i: int| 0 <= i < n && #[trigger] trusted(files[i]) implies files[i].record is Some
            && q.contains(files[i].record->0) by {
            if i < n - 1 {
                let k = choose|k: int| 0 <= k < p.len() && p[k] == files[i].record->0;
                assert(q[k] == p[k]);
            } else {
                assert(q[p.len() as int] == files[i].record->0);
            }
        }
    }
}

/// Stored graphs that can be trusted are all listed, in the order of their
/// names, and those that cannot are counted.
pub proof fn trusted_graphs_are_listed(
    files: Seq<StoredGraph>,
    listed: Seq<usize>,
    untrusted: nat,
)
    requires
        graphs_listed(files, listed, untrusted),
        files.len() <= usize::MAX,
    ensures
        listed.len() + untrusted == files.len(),
        forall|j: int| 0 <= j < listed.len() ==> 0 <= #[trigger] listed[j] < files.len(),
        forall|i: int|
            0 <= i < files.len() && #[trigger] trusted(files[i]) ==> exists|j: int|
                0 <= j < listed.len() && files[(#[trigger] listed[j]) as int].record
                    == files[i].record,
        forall|a: int, b: int|
            0 <= a < b < listed.len() ==> {
                let x = files[(#[trigger] listed[a]) as int].record;
                let y = files[(#[trigger] listed[b]) as int].record;
                &&& x is Some
                &&& y is Some
                &&& text_lt(x->0.graph_id@, y->0.graph_id@) || x->0.graph_id@ == y->0.graph_id@
            },
{
    let n = files.len() as int;
    let kept = trusted_records(files, n);
    trusted_are_kept(files, n);
    let keys = graph_ranks(kept);
    every_list_has_an_order(keys);
    let order = order_of(keys);
    assert forall|i: int| 0 <= i < files.len() && #[trigger] trusted(files[i]) implies exists|j: int|
        0 <= j < listed.len() && files[(#[trigger] listed[j]) as int].record == files[i].record by {
        let k = choose|k: int| 0 <= k < kept.len() && kept[k] == files[i].record->0;
        assert(order.contains(k as usize));
        let j = choose|j: int| 0 <= j < order.len() && order[j] == k as usize;
        assert(files[listed[j] as int].record == Some(kept[order[j] as int]));
    }
    assert forall|a: int, b: int| 0 <= a < b < listed.len() implies ({
        let x = files[(#[trigger] listed[a]) as int].record;
        let y = files[(#[trigger] listed[b]) as int].record;
        &&& x is Some
        &&& y is Some
        &&& text_lt(x->0.graph_id@, y->0.graph_id@) || x->0.graph_id@ == y->0.graph_id@
    }) by {
        assert(listed_before(keys, order[a] as int, order[b] as int));
        text_lt_irreflexive(Seq::empty());
    }
}

/// The states that one of the figures of a graph counts.
pub open spec fn falls_under(kind: Counted, s: WorkState) -> bool {
    match kind {
        Counted::Succeeded => s == WorkState::Succeeded,
        Counted::Failed => s == WorkState::Failed || s == WorkState::TimedOut,
        Counted::Blocked => s == WorkState::Blocked,
        Counted::Discarded => s == WorkState::Discarded,
        Counted::Uncertain => s == WorkState::DispatchUncertain,
    }
}

proof fn states_are_counted(work: Seq<WorkRecord>, kind: Counted, n: int)
    requires
        0 <= n <= work.len(),
    ensures
        counted(work, kind, n) == work.take(n).filter(
            |w: WorkRecord| falls_under(kind, w.state),
        ).len(),
    decreases n,
{
    reveal(Seq::filter);
    if n > 0 {
        states_are_counted(work, kind, n - 1);
        assert(work.take(n).drop_last() =~= work.take(n - 1));
        assert(work.take(n).last() == work[n - 1]);
    } else {
        assert(work.take(n) =~= Seq::<WorkRecord>::empty());
    }
}

proof fn slots_are_counted(work: Seq<WorkRecord>, n: int)
    requires
        0 <= n <= work.len(),
    ensures
        slots_held(work, n) == work.take(n).filter(
            |w: WorkRecord|
                w.state == WorkState::Leased || w.state == WorkState::Running || w.state
                    == WorkState::Cancelling || w.state == WorkState::DispatchUncertain,
        ).len(),
    decreases n,
{
    reveal(Seq::filter);
    if n > 0 {
        slots_are_counted(work, n - 1);
        assert(work.take(n).drop_last() =~= work.take(n - 1));
        assert(work.take(n).last() == work[n - 1]);
    } else {
        assert(work.take(n) =~= Seq::<WorkRecord>::empty());
    }
}

/// What is shown of a graph's progress counts its items by their states, and
/// asks for attention exactly while the fate of one is unknown.
pub proof fn figures_count_the_items<R: Redactor>(
    p: GraphStatusProjection,
    g: WorkGraphRecord,
    block: Option<AdmissionBlock>,
    redactor: R,
)
    requires
        is_status(p, g, block, redactor),
    ensures
        p.work_total == g.work@.len(),
        p.in_flight == g.work@.filter(
            |w: WorkRecord|
                w.state == WorkState::Leased || w.state == WorkState::Running || w.state
                    == WorkState::Cancelling || w.state == WorkState::DispatchUncertain,
        ).len(),
        p.succeeded == g.work@.filter(
            |w: WorkRecord| falls_under(Counted::Succeeded, w.state),
        ).len(),
        p.failed == g.work@.filter(|w: WorkRecord| falls_under(Counted::Failed, w.state)).len(),
        p.blocked == g.work@.filter(|w: WorkRecord| falls_under(Counted::Blocked, w.state)).len(),
        p.discarded == g.work@.filter(
            |w: WorkRecord| falls_under(Counted::Discarded, w.state),
        ).len(),
        p.uncertain == g.work@.filter(
            |w: WorkRecord| falls_under(Counted::Uncertain, w.state),
        ).len(),
        p.needs_operator_attention <==> exists|i: int|
            0 <= i < g.work@.len() && (#[trigger] g.work@[i]).state
                == WorkState::DispatchUncertain,
        p.lifecycle == g.lifecycle,
        p.revision == g.revision,
        p.epoch == g.epoch,
        p.attempts_used == g.budget.attempts_used,
        p.tokens_used == g.budget.tokens_used,
        p.max_total_attempts == g.spec.budget.max_total_attempts,
        p.max_total_tokens == g.spec.budget.max_total_tokens,
        p.admission_block is Some ==> block == p.admission_block && block
            != Some(AdmissionBlock::Clear),
{
    let n = g.work@.len() as int;
    assert(g.work@.take(n) =~= g.work@);
    slots_are_counted(g.work@, n);
    states_are_counted(g.work@, Counted::Succeeded, n);
    states_are_counted(g.work@, Counted::Failed, n);
    states_are_counted(g.work@, Counted::Blocked, n);
    states_are_counted(g.work@, Counted::Discarded, n);
    states_are_counted(g.work@, Counted::Uncertain, n);
}

proof fn projected_are_those_with_a_role(g: WorkGraphRecord, n: int)
    requires
        0 <= n <= g.work@.len(),
    ensures
        projected_items(g, n).len() <= n,
        forall|k: int|
            0 <= k < projected_items(g, n).len() ==> 0 <= #[trigger] projected_items(g, n)[k] < n,
        forall|i: int|
            0 <= i < n && role_at(g.spec, (#[trigger] g.work@[i]).work_id@) is Some
                ==> projected_items(g, n).contains(i),
    decreases n,
{
    if n > 0 {
        projected_are_those_with_a_role(g, n - 1);
        let p = projected_items(g, n - 1);
        let q = projected_items(g, n);
        assert forall|i: int|
            0 <= i < n && role_at(g.spec, (#[trigger] g.work@[i]).work_id@) is Some implies q.contains(
            i,
        ) by {
            if i < n - 1 {
                let k = choose|k: int| 0 <= k < p.len() && p[k] == i;
                assert(q[k] == i);
            } else {
                assert(q[p.len() as int] == i);
            }
        }
    }
}

/// A row shows an item as it stands: its state, its attempts and its verdict.
pub proof fn rows_show_an_item<R: Redactor>(
    rows: Seq<WorkProgressRow>,
    g: WorkGraphRecord,
    redactor: R,
    j: int,
)
    requires
        is_progress_list(rows, g, redactor),
        g.work@.len() <= usize::MAX,
        0 <= j < rows.len(),
    ensures
        exists|i: int|
            0 <= i < g.work@.len() && rows[j].work_id@ == (#[trigger] g.work@[i]).work_id@
                && rows[j].state == g.work@[i].state && rows[j].attempts == g.work@[i].attempts
                && rows[j].verdict == g.work@[i].verdict,
{
    let items = projected_items(g, g.work@.len() as int);
    projected_are_those_with_a_role(g, g.work@.len() as int);
    let keys = item_ranks(g, items);
    every_list_has_an_order(keys);
    let i = items[order_of(keys)[j] as int];
    assert(is_progress(rows[j], g, i, redactor));
    assert(rows[j].work_id@ == g.work@[i].work_id@);
}

/// Every item that has a role is shown, in the state it has.
pub proof fn items_have_a_row<R: Redactor>(
    rows: Seq<WorkProgressRow>,
    g: WorkGraphRecord,
    redactor: R,
    i: int,
)
    requires
        is_progress_list(rows, g, redactor),
        g.work@.len() <= usize::MAX,
        0 <= i < g.work@.len(),
        role_at(g.spec, g.work@[i].work_id@) is Some,
    ensures
        exists|j: int|
            0 <= j < rows.len() && (#[trigger] rows[j]).work_id@ == g.work@[i].work_id@
                && rows[j].state == g.work@[i].state,
{
    let items = projected_items(g, g.work@.len() as int);
    projected_are_those_with_a_role(g, g.work@.len() as int);
    let keys = item_ranks(g, items);
    every_list_has_an_order(keys);
    let order = order_of(keys);
    let k = choose|k: int| 0 <= k < items.len() && items[k] == i;
    assert(order.contains(k as usize));
    let j = choose|j: int| 0 <= j < order.len() && order[j] == k as usize;
    assert(is_progress(rows[j], g, items[order[j] as int], redactor));
}

/// Items are shown in the order of their names.
pub proof fn rows_are_listed_by_name<R: Redactor>(
    rows: Seq<WorkProgressRow>,
    g: WorkGraphRecord,
    redactor: R,
    a: int,
    b: int,
)
    requires
        is_progress_list(rows, g, redactor),
        g.work@.len() <= usize::MAX,
        0 <= a < b < rows.len(),
    ensures
        text_lt(rows[a].work_id@, rows[b].work_id@) || rows[a].work_id@ == rows[b].work_id@,
{
    let items = projected_items(g, g.work@.len() as int);
    projected_are_those_with_a_role(g, g.work@.len() as int);
    let keys = item_ranks(g, items);
    every_list_has_an_order(keys);
    let order = order_of(keys);
    assert(listed_before(keys, order[a] as int, order[b] as int));
    text_lt_irreflexive(Seq::empty());
    assert(is_progress(rows[a], g, items[order[a] as int], redactor));
    assert(is_progress(rows[b], g, items[order[b] as int], redactor));
}

/// Every lease is shown, in the order of the names and in the state it has, with
/// whether the computer may be used under it.
pub proof fn leases_are_shown_as_they_stand<R: Redactor>(
    rows: Seq<LeaseRow>,
    leases: Seq<LeaseRecord>,
    redactor: R,
)
    requires
        is_lease_list(rows, leases, redactor),
        leases.len() <= usize::MAX,
    ensures
        rows.len() == leases.len(),
        forall|i: int|
            0 <= i < leases.len() ==> exists|j: int|
                0 <= j < rows.len() && (#[trigger] rows[j]).lease_id@ == (
                #[trigger] leases[i]).lease_id@ && rows[j].state == leases[i].state
                    && rows[j].work_id@ == leases[i].work_id@ && rows[j].expires_at
                    == leases[i].expires_at && rows[j].computer_use_bound
                    == leases[i].grant is Some,
        forall|a: int, b: int|
            0 <= a < b < rows.len() ==> text_lt(
                (#[trigger] rows[a]).lease_id@,
                (#[trigger] rows[b]).lease_id@,
            ) || rows[a].lease_id@ == rows[b].lease_id@,
{
    let keys = lease_ranks(leases);
    every_list_has_an_order(keys);
    let order = order_of(keys);
    assert forall|i: int| 0 <= i < leases.len() implies exists|j: int|
        0 <= j < rows.len() && (#[trigger] rows[j]).lease_id@ == (#[trigger] leases[i]).lease_id@
            && rows[j].state == leases[i].state && rows[j].work_id@ == leases[i].work_id@
            && rows[j].expires_at == leases[i].expires_at && rows[j].computer_use_bound
            == leases[i].grant is Some by {
        assert(order.contains(i as usize));
        let j = choose|j: int| 0 <= j < order.len() && order[j] == i as usize;
        assert(rows[j].lease_id@ == leases[order[j] as int].lease_id@);
    }
    assert forall|a: int, b: int| 0 <= a < b < rows.len() implies text_lt(
        (#[trigger] rows[a]).lease_id@,
        (#[trigger] rows[b]).lease_id@,
    ) || rows[a].lease_id@ == rows[b].lease_id@ by {
        assert(listed_before(keys, order[a] as int, order[b] as int));
        text_lt_irreflexive(Seq::empty());
        assert(rows[a].lease_id@ == leases[order[a] as int].lease_id@);
        assert(rows[b].lease_id@ == leases[order[b] as int].lease_id@);
    }
}

/// What a provider is accounted for: its sends, those of them that are
/// finished, and those whose fate is unknown. One more send adds what it used.
pub proof fn accounts_count_sends(attempts: Seq<ProviderAttemptRecord>, key: Seq<char>, n: int)
    requires
        0 <= n <= attempts.len(),
    ensures
        totals(attempts, key, n).attempts == attempts.take(n).filter(
            |a: ProviderAttemptRecord| a.attribution_key@ == key,
        ).len(),
        totals(attempts, key, n).finished == attempts.take(n).filter(
            |a: ProviderAttemptRecord|
                a.attribution_key@ == key && a.state == AttemptState::Finished,
        ).len(),
        totals(attempts, key, n).uncertain == attempts.take(n).filter(
            |a: ProviderAttemptRecord|
                a.attribution_key@ == key && (a.send_certainty == Some(
                    SendCertainty::UncertainAccept,
                ) || a.retry_class == Some(RetryClass::ExplicitNewAttemptOnly) && a.send_certainty
                    != Some(SendCertainty::KnownAccepted)),
        ).len(),
        n > 0 ==> totals(attempts, key, n).tokens - totals(attempts, key, n - 1).tokens == if attempts[n
            - 1].attribution_key@ == key && attempts[n - 1].usage is Some {
            if used(attempts[n - 1].usage->0) > u64::MAX {
                u64::MAX as int
            } else {
                used(attempts[n - 1].usage->0)
            }
        } else {
            0
        },
    decreases n,
{
    reveal(Seq::filter);
    if n > 0 {
        accounts_count_sends(attempts, key, n - 1);
        assert(attempts.take(n).drop_last() =~= attempts.take(n - 1));
        assert(attempts.take(n).last() == attempts[n - 1]);
    } else {
        assert(attempts.take(n) =~= Seq::<ProviderAttemptRecord>::empty());
    }
}

} // verus!
