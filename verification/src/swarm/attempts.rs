//! Provider attempts made under a lease.

use crate::error::{
    conflict, conflict_fault, invalid, invalid_fault, refused, Fault, OrchError, OrchErrorCode,
};
use crate::order::position_is_first;
use crate::run::CompletionUsage;
use crate::swarm::authority::{
    authority_fault, finish_fault, finished_row, is_admitted_row, row_fault, ActionAuthority,
    AttemptState, ProviderAttemptRecord, SendCertainty,
};
use crate::swarm::ids::{AttemptId, LeaseId};
use crate::swarm::lease::made_uncertain;
use crate::swarm::state::{
    attempt_at, attempt_ids, authority_at, lease_at, ordinals_exhausted, record_at, 
    BudgetLedger, LeaseRecord, WorkGraphRecord, WorkRecord, WorkState,
};
use vstd::prelude::*;
use vstd::string::*;

verus! {

/// Why no attempt is admitted under a lease, or the attempt it already has.
pub open spec fn admission_fault(g: WorkGraphRecord, lease_id: Seq<char>) -> Option<Fault> {
    match lease_at(g.leases@, lease_id) {
        None => Some(invalid_fault("lease is not in the ledger"@)),
        Some(j) => if !g.leases@[j].live() {
            Some(conflict_fault("lease is not live"@))
        } else {
            None
        },
    }
}

/// Why a lease without an attempt is not given one.
pub open spec fn new_attempt_fault(g: WorkGraphRecord, l: LeaseRecord) -> Option<Fault> {
    if authority_at(g.authorities@, l.authority_id@) is None {
        Some(invalid_fault("lease names an authority that is not in the ledger"@))
    } else {
        match record_at(g.work@, l.work_id@) {
            None => Some(invalid_fault("lease names undeclared work"@)),
            Some(i) => if g.work@[i].send_ordinal == u64::MAX {
                Some(ordinals_exhausted())
            } else {
                None
            },
        }
    }
}

/// The record at `i` with the next send ordinal taken.
pub open spec fn ordinal_taken(work: Seq<WorkRecord>, i: int) -> Seq<WorkRecord> {
    work.update(
        i,
        WorkRecord { send_ordinal: (work[i].send_ordinal + 1) as u64, ..work[i] },
    )
}

/// What holds of the graph and the answer after an attempt was to be admitted
/// under the live lease `l`. The send ordinal is used up even if the attempt is
/// then refused.
pub open spec fn admitting(
    g: WorkGraphRecord,
    after: WorkGraphRecord,
    r: Result<ProviderAttemptRecord, OrchError>,
    l: LeaseRecord,
    now: i128,
) -> bool {
    match attempt_at(g.attempts@, l.attempt_id@) {
        Some(k) => after == g && r == Ok::<ProviderAttemptRecord, OrchError>(g.attempts@[k]),
        None => match new_attempt_fault(g, l) {
            Some(f) => after == g && refused(r, f),
            None => {
                let i = record_at(g.work@, l.work_id@)->0;
                let authority = g.authorities@[authority_at(g.authorities@, l.authority_id@)->0];
                let ordinal = (g.work@[i].send_ordinal + 1) as u64;
                &&& after.work@ == ordinal_taken(g.work@, i)
                &&& match r {
                    Err(_) => {
                        &&& after == (WorkGraphRecord { work: after.work, ..g })
                        &&& match authority_fault(authority) {
                            Some(f) => refused(r, f),
                            None => exists|row: ProviderAttemptRecord| #[trigger]
                                is_admitted_row(row, authority, ordinal, now) && row_fault(
                                    row,
                                ) is Some && refused(r, row_fault(row)->0),
                        }
                    },
                    Ok(row) => {
                        &&& authority_fault(authority) is None
                        &&& is_admitted_row(row, authority, ordinal, now)
                        &&& row_fault(row) is None
                        &&& after == (WorkGraphRecord {
                            work: after.work,
                            attempts: after.attempts,
                            updated_at: now,
                            ..g
                        })
                        &&& after.attempts@ == g.attempts@.push(row)
                    },
                }
            },
        },
    }
}

fn take_ordinal(record: &mut WorkGraphRecord, lease: &LeaseRecord) -> (r: Result<
    (ActionAuthority, u64),
    OrchError,
>)
    ensures
        match new_attempt_fault(*old(record), *lease) {
            Some(f) => *final(record) == *old(record) && refused(r, f),
            None => {
                let i = record_at(old(record).work@, lease.work_id@)->0;
                &&& r is Ok
                &&& r->Ok_0.0 == old(record).authorities@[authority_at(
                    old(record).authorities@,
                    lease.authority_id@,
                )->0]
                &&& r->Ok_0.1 == old(record).work@[i].send_ordinal + 1
                &&& *final(record) == (WorkGraphRecord {
                    work: final(record).work,
                    ..*old(record)
                })
                &&& final(record).work@ == ordinal_taken(old(record).work@, i)
            },
        },
{
    let ghost g = *record;
    let authority: ActionAuthority = match record.authority(&lease.authority_id) {
        Some(authority) => authority.clone(),
        None => {
            return Err(invalid("lease names an authority that is not in the ledger"));
        },
    };
    let i: usize = match record.find_record(&lease.work_id) {
        Some(i) => i,
        None => {
            return Err(invalid("lease names undeclared work"));
        },
    };
    if record.work[i].send_ordinal == u64::MAX {
        return Err(
            OrchError::new(
                OrchErrorCode::CapacityExhausted,
                "work item exhausted its provider send ordinal space",
            ),
        );
    }
    let ordinal: u64 = record.work[i].claim_send_ordinal()?;
    proof {
        assert(record.work@ =~= ordinal_taken(g.work@, i as int));
    }
    Ok((authority, ordinal))
}

fn admit_attempt(record: &mut WorkGraphRecord, lease: &LeaseRecord, now: i128) -> (r: Result<
    ProviderAttemptRecord,
    OrchError,
>)
    ensures
        admitting(*old(record), *final(record), r, *lease, now),
{
    match record.find_attempt(&lease.attempt_id) {
        Some(k) => {
            return Ok(record.attempts[k].clone());
        },
        None => {},
    }
    let (authority, ordinal) = take_ordinal(record, lease)?;
    let attempt: ProviderAttemptRecord = ProviderAttemptRecord::admitted(
        &authority,
        ordinal,
        now,
    )?;
    record.attempts.push(attempt.clone());
    record.updated_at = now;
    Ok(attempt)
}

/// What the admission of a send under a lease comes to.
pub open spec fn attempt_admitting(
    g: WorkGraphRecord,
    after: WorkGraphRecord,
    r: Result<ProviderAttemptRecord, OrchError>,
    lease_id: Seq<char>,
    now: i128,
) -> bool {
    match admission_fault(g, lease_id) {
        Some(f) => after == g && refused(r, f),
        None => admitting(
            g,
            after,
            r,
            g.leases@[lease_at(g.leases@, lease_id)->0],
            now,
        ),
    }
}

/// Installs an attempt row before the host enters the transport. A lease that
/// has its row gets it back.
pub fn record_attempt_admitted(
    record: &mut WorkGraphRecord,
    lease_id: &LeaseId,
    now: i128,
) -> (r: Result<ProviderAttemptRecord, OrchError>)
    ensures
        attempt_admitting(
            *old(record),
            *final(record),
            r,
            lease_id@,
            now,
        ),
{
    let ghost g = *record;
    let j: usize = match record.find_lease(lease_id) {
        Some(j) => j,
        None => {
            return Err(invalid("lease is not in the ledger"));
        },
    };
    if !record.leases[j].is_live() {
        return Err(conflict("lease is not live"));
    }
    let lease: LeaseRecord = record.leases[j].clone();
    admit_attempt(record, &lease, now)
}

/// Tokens a usage report stands for.
pub open spec fn usage_total(u: CompletionUsage) -> u64 {
    let sum = if u.prompt_tokens + u.completion_tokens > u64::MAX {
        u64::MAX
    } else {
        (u.prompt_tokens + u.completion_tokens) as u64
    };
    if u.total_tokens > sum {
        u.total_tokens
    } else {
        sum
    }
}

/// Tokens used after a report.
pub open spec fn tokens_after(used: u64, u: Option<CompletionUsage>) -> u64 {
    match u {
        None => used,
        Some(u) => if used + usage_total(u) > u64::MAX {
            u64::MAX
        } else {
            (used + usage_total(u)) as u64
        },
    }
}

/// Tokens a usage report stands for.
pub fn total_tokens(u: &CompletionUsage) -> (n: u64)
    ensures
        n == usage_total(*u),
{
    let sum: u64 = u.prompt_tokens.saturating_add(u.completion_tokens);
    if u.total_tokens > sum {
        u.total_tokens
    } else {
        sum
    }
}

/// `after` is `g` with the outcome of the attempt at `k` recorded. Usage counts
/// once, and an uncertain send makes a live item uncertain.
pub open spec fn attempt_finished(
    g: WorkGraphRecord,
    after: WorkGraphRecord,
    k: int,
    certainty: SendCertainty,
    http_status: Option<u16>,
    usage: Option<CompletionUsage>,
    now: i128,
) -> bool {
    &&& after == (WorkGraphRecord {
        attempts: after.attempts,
        work: after.work,
        budget: BudgetLedger {
            tokens_used: if g.attempts@[k].state is Finished {
                g.budget.tokens_used
            } else {
                tokens_after(g.budget.tokens_used, usage)
            },
            ..g.budget
        },
        updated_at: now,
        ..g
    })
    &&& after.attempts@ == g.attempts@.update(
        k,
        finished_row(g.attempts@[k], certainty, http_status, usage, now),
    )
    &&& after.work@ == match record_at(g.work@, g.attempts@[k].work_id@) {
        Some(i) => if certainty is UncertainAccept && g.work@[i].state.holds_slot() && !(
        g.work@[i].state is DispatchUncertain) {
            g.work@.update(i, made_uncertain(g.work@[i], now))
        } else {
            g.work@
        },
        None => g.work@,
    }
}

/// What holds of the graph and the answer after the outcome of an attempt was
/// reported.
pub open spec fn attempt_finishing(
    g: WorkGraphRecord,
    after: WorkGraphRecord,
    r: Result<(), OrchError>,
    attempt_id: Seq<char>,
    certainty: SendCertainty,
    http_status: Option<u16>,
    usage: Option<CompletionUsage>,
    now: i128,
) -> bool {
    match attempt_at(g.attempts@, attempt_id) {
        None => after == g && refused(r, invalid_fault("attempt is not in the ledger"@)),
        Some(k) => {
            let row = finished_row(g.attempts@[k], certainty, http_status, usage, now);
            match finish_fault(g.attempts@[k], certainty, http_status, usage) {
                Some(f) => after.attempts@ == g.attempts@ && after == (WorkGraphRecord {
                    attempts: after.attempts,
                    ..g
                }) && refused(r, f),
                None => if !(g.attempts@[k].state is Finished) && row_fault(row) is Some {
                    after.attempts@ == g.attempts@.update(k, row) && after == (WorkGraphRecord {
                        attempts: after.attempts,
                        ..g
                    }) && refused(r, row_fault(row)->0)
                } else {
                    r is Ok && attempt_finished(
                        g,
                        after,
                        k,
                        certainty,
                        http_status,
                        usage,
                        now,
                    )
                },
            }
        },
    }
}

/// Records the outcome of one attempt and attributes its usage.
pub fn record_attempt_finished(
    record: &mut WorkGraphRecord,
    attempt_id: &AttemptId,
    certainty: SendCertainty,
    http_status: Option<u16>,
    usage: Option<CompletionUsage>,
    now: i128,
) -> (r: Result<(), OrchError>)
    ensures
        attempt_finishing(
            *old(record),
            *final(record),
            r,
            attempt_id@,
            certainty,
            http_status,
            usage,
            now,
        ),
{
    let ghost g = *record;
    let k: usize = match record.find_attempt(attempt_id) {
        Some(k) => k,
        None => {
            return Err(invalid("attempt is not in the ledger"));
        },
    };
    let done: bool = record.attempts[k].state == AttemptState::Finished;
    let outcome: Result<(), OrchError> = record.attempts[k].finish(
        certainty,
        http_status,
        usage,
        now,
    );
    proof {
        assert(record.attempts@ =~= g.attempts@.update(k as int, record.attempts@[k as int]));
    }
    match outcome {
        Ok(()) => {},
        Err(e) => {
            proof {
                if finish_fault(g.attempts@[k as int], certainty, http_status, usage) is Some {
                    assert(record.attempts@ =~= g.attempts@);
                }
            }
            return Err(e);
        },
    }
    if !done {
        match usage {
            Some(usage) => {
                let total: u64 = total_tokens(&usage);
                record.budget.tokens_used = record.budget.tokens_used.saturating_add(total);
            },
            None => {},
        }
    }
    if certainty == SendCertainty::UncertainAccept {
        match record.find_record(&record.attempts[k].work_id) {
            Some(i) => {
                if record.work[i].state.occupies_slot() && record.work[i].state
                    != WorkState::DispatchUncertain {
                    record.work[i].state = WorkState::DispatchUncertain;
                    record.work[i].updated_at = now;
                    proof {
                        assert(record.work@ =~= g.work@.update(
                            i as int,
                            made_uncertain(g.work@[i as int], now),
                        ));
                    }
                }
            },
            None => {},
        }
    }
    record.updated_at = now;
    Ok(())
}

/// Reporting the same outcome again counts no usage twice.
pub proof fn usage_counts_once(
    g: WorkGraphRecord,
    once: WorkGraphRecord,
    twice: WorkGraphRecord,
    attempt_id: Seq<char>,
    certainty: SendCertainty,
    http_status: Option<u16>,
    usage: Option<CompletionUsage>,
    t: i128,
    u: i128,
    r: Result<(), OrchError>,
    s: Result<(), OrchError>,
)
    requires
        attempt_finishing(g, once, r, attempt_id, certainty, http_status, usage, t),
        r is Ok,
        attempt_finishing(once, twice, s, attempt_id, certainty, http_status, usage, u),
    ensures
        s is Ok,
        twice.budget == once.budget,
        twice.attempts@ == once.attempts@,
{
    position_is_first(attempt_ids(g.attempts@), attempt_id, 0);
    assert(attempt_ids(once.attempts@) =~= attempt_ids(g.attempts@));
    let k = attempt_at(g.attempts@, attempt_id)->0;
    assert(once.attempts@[k].state is Finished);
    assert(twice.attempts@ =~= once.attempts@);
}

} // verus!
