//! What restarts and finished runs leave on record, said of the records alone.

use crate::run::{
    closed_attempts, finalized, finalizing, has_call, has_path, interrupted, merged_changes,
    merged_run, merged_tests, restarted, touched_by_restart, touched_places, unfinished_runs,
    ChangeRecord, PromotionState, RunAggregates, RunExecution, RunRecord, RunState, RunStopCause,
    TestObservation,
};
use vstd::prelude::*;
use vstd::string::*;

verus! {

/// The run waits or runs.
pub open spec fn is_under_way(run: RunRecord) -> bool {
    match run.state {
        RunState::Queued | RunState::Running => true,
        RunState::Completed | RunState::Failed | RunState::Cancelled | RunState::Interrupted
        | RunState::LimitReached => false,
    }
}

/// The run has a limit on its tokens and requests whose use is not known.
pub open spec fn lost_count(run: RunRecord) -> bool {
    run.aggregates.usage_pending_requests > 0 && run.bounds.max_total_tokens is Some
}

/// A restart interrupts runs under way, and nothing else; it closes requests
/// whose answer is lost, and with them the usage is incomplete. A run whose
/// tokens are limited is stopped for that rather than for the interruption.
pub proof fn restarts_interrupt_runs_under_way(before: RunRecord, after: RunRecord, now: i128)
    requires
        restarted(before, after, now),
    ensures
        !is_under_way(before) && before.aggregates.usage_pending_requests == 0 ==> after == before,
        is_under_way(before) || before.aggregates.usage_pending_requests > 0 ==> after.updated_at
            == now,
        is_under_way(before) ==> {
            &&& after.state == RunState::Interrupted
            &&& after.queue_position is None
            &&& before.execution is Some ==> after.execution == Some(
                RunExecution {
                    promotion_state: PromotionState::Conflicted,
                    ..before.execution->0
                },
            )
            &&& before.execution is None ==> after.execution is None
        },
        !is_under_way(before) ==> {
            &&& after.state == before.state
            &&& after.queue_position == before.queue_position
            &&& after.execution == before.execution
        },
        lost_count(before) ==> {
            &&& after.stop_cause == Some(RunStopCause::TokenAccountingUnavailable)
            &&& after.error_code is Some
            &&& after.error_code->0@ == "max_total_tokens_usage_unavailable"@
            &&& after.terminal_result is Some
            &&& after.terminal_result->0@ == "max_total_tokens_usage_unavailable"@
        },
        is_under_way(before) && !lost_count(before) ==> {
            &&& after.stop_cause == Some(RunStopCause::Interrupted)
            &&& after.error_code is Some
            &&& after.error_code->0@ == "interrupted"@
            &&& after.terminal_result is Some
            &&& after.terminal_result->0@ == "interrupted"@
        },
        !is_under_way(before) && !lost_count(before) ==> {
            &&& after.stop_cause == before.stop_cause
            &&& after.error_code == before.error_code
            &&& after.terminal_result == before.terminal_result
        },
        after.aggregates == (RunAggregates {
            usage_pending_requests: 0,
            usage_complete: before.aggregates.usage_complete
                && before.aggregates.usage_pending_requests == 0,
            ..before.aggregates
        }),
        after == (RunRecord {
            state: after.state,
            queue_position: after.queue_position,
            execution: after.execution,
            stop_cause: after.stop_cause,
            error_code: after.error_code,
            terminal_result: after.terminal_result,
            aggregates: after.aggregates,
            updated_at: after.updated_at,
            ..before
        }),
{
    if is_under_way(before) || before.aggregates.usage_pending_requests != 0 {
        let (stopped, settled) = choose|stopped: RunRecord, settled: RunRecord|
            {
                &&& #[trigger] closed_attempts(stopped, settled)
                &&& if !before.state.terminal() {
                    interrupted(before, stopped)
                } else {
                    stopped == before
                }
                &&& after == (RunRecord { updated_at: now, ..settled })
            };
        assert(closed_attempts(stopped, settled));
    }
}

/// A restart counts the runs that were under way, and names in order the places
/// of all that it changed: those under way and those with open requests.
pub proof fn restarts_name_what_they_changed(runs: Seq<RunRecord>, n: int)
    requires
        0 <= n <= runs.len(),
        n <= usize::MAX,
    ensures
        unfinished_runs(runs, n) == runs.take(n).filter(|r: RunRecord| is_under_way(r)).len(),
        forall|k: int|
            0 <= k < touched_places(runs, n).len() ==> {
                let i = #[trigger] touched_places(runs, n)[k] as int;
                0 <= i < n && (is_under_way(runs[i]) || runs[i].aggregates.usage_pending_requests
                    > 0)
            },
        forall|i: int|
            0 <= i < n && (is_under_way(#[trigger] runs[i])
                || runs[i].aggregates.usage_pending_requests > 0) ==> touched_places(
                runs,
                n,
            ).contains(i as usize),
        forall|j: int, k: int|
            0 <= j < k < touched_places(runs, n).len() ==> #[trigger] touched_places(runs, n)[j]
                < #[trigger] touched_places(runs, n)[k],
    decreases n,
{
    reveal(Seq::filter);
    let open = |r: RunRecord| is_under_way(r);
    if n > 0 {
        restarts_name_what_they_changed(runs, n - 1);
        assert(runs.take(n).drop_last() =~= runs.take(n - 1));
        assert(runs.take(n).last() == runs[n - 1]);
        let p = touched_places(runs, n - 1);
        if touched_by_restart(runs[n - 1]) {
            let q = p.push((n - 1) as usize);
            assert(touched_places(runs, n) == q);
            assert forall|i: int|
                0 <= i < n && (is_under_way(#[trigger] runs[i])
                    || runs[i].aggregates.usage_pending_requests > 0) implies q.contains(
                i as usize,
            ) by {
                if i < n - 1 {
                    let k = choose|k: int| 0 <= k < p.len() && p[k] == i as usize;
                    assert(q[k] == i as usize);
                } else {
                    assert(q[p.len() as int] == i as usize);
                }
            }
        } else {
            assert(touched_places(runs, n) == p);
        }
    } else {
        assert(runs.take(n) =~= Seq::<RunRecord>::empty());
    }
}

proof fn changes_are_merged(t: Seq<ChangeRecord>, c: Seq<ChangeRecord>)
    ensures
        merged_changes(t, c).len() >= t.len(),
        merged_changes(t, c).take(t.len() as int) == t,
        forall|i: int|
            0 <= i < c.len() ==> has_path(merged_changes(t, c), (#[trigger] c[i]).path@),
        forall|k: int|
            t.len() <= k < merged_changes(t, c).len() ==> c.contains(
                #[trigger] merged_changes(t, c)[k],
            ),
        forall|j: int, k: int|
            t.len() <= k < merged_changes(t, c).len() && 0 <= j < k ==> (
            #[trigger] merged_changes(t, c)[j]).path@ != (#[trigger] merged_changes(
                t,
                c,
            )[k]).path@,
    decreases c.len(),
{
    if c.len() > 0 {
        let d = c.drop_last();
        changes_are_merged(t, d);
        let m = merged_changes(t, d);
        let q = merged_changes(t, c);
        assert(q.take(t.len() as int) =~= m.take(t.len() as int));
        assert forall|i: int| 0 <= i < c.len() implies has_path(q, (#[trigger] c[i]).path@) by {
            if i < d.len() {
                assert(has_path(m, d[i].path@));
                let k = choose|k: int| 0 <= k < m.len() && (#[trigger] m[k]).path@ == d[i].path@;
                assert(q[k] == m[k]);
            } else if !has_path(m, c.last().path@) {
                assert(q[m.len() as int] == c.last());
            }
        }
        assert forall|k: int| t.len() <= k < q.len() implies c.contains(#[trigger] q[k]) by {
            if k < m.len() {
                assert(d.contains(m[k]));
                let i = choose|i: int| 0 <= i < d.len() && d[i] == m[k];
                assert(c[i] == q[k]);
            } else {
                assert(c[c.len() - 1] == q[k]);
            }
        }
    } else {
        assert(t.take(t.len() as int) =~= t);
    }
}

proof fn tests_are_merged(t: Seq<TestObservation>, c: Seq<TestObservation>)
    ensures
        merged_tests(t, c).len() >= t.len(),
        merged_tests(t, c).take(t.len() as int) == t,
        forall|i: int|
            0 <= i < c.len() ==> has_call(merged_tests(t, c), (#[trigger] c[i]).call_id@),
        forall|k: int|
            t.len() <= k < merged_tests(t, c).len() ==> c.contains(
                #[trigger] merged_tests(t, c)[k],
            ),
        forall|j: int, k: int|
            t.len() <= k < merged_tests(t, c).len() && 0 <= j < k ==> (
            #[trigger] merged_tests(t, c)[j]).call_id@ != (#[trigger] merged_tests(
                t,
                c,
            )[k]).call_id@,
    decreases c.len(),
{
    if c.len() > 0 {
        let d = c.drop_last();
        tests_are_merged(t, d);
        let m = merged_tests(t, d);
        let q = merged_tests(t, c);
        assert(q.take(t.len() as int) =~= m.take(t.len() as int));
        assert forall|i: int| 0 <= i < c.len() implies has_call(q, (#[trigger] c[i]).call_id@) by {
            if i < d.len() {
                assert(has_call(m, d[i].call_id@));
                let k = choose|k: int|
                    0 <= k < m.len() && (#[trigger] m[k]).call_id@ == d[i].call_id@;
                assert(q[k] == m[k]);
            } else if !has_call(m, c.last().call_id@) {
                assert(q[m.len() as int] == c.last());
            }
        }
        assert forall|k: int| t.len() <= k < q.len() implies c.contains(#[trigger] q[k]) by {
            if k < m.len() {
                assert(d.contains(m[k]));
                let i = choose|i: int| 0 <= i < d.len() && d[i] == m[k];
                assert(c[i] == q[k]);
            } else {
                assert(c[c.len() - 1] == q[k]);
            }
        }
    } else {
        assert(t.take(t.len() as int) =~= t);
    }
}

/// The changes seen on either side are all on record: those of the finished run
/// first and as they were, then those of the stored record at paths that are
/// new, each path once. The same holds of test calls.
pub proof fn observations_are_kept(target: RunRecord, current: RunRecord, after: RunRecord)
    requires
        merged_run(target, current, after),
    ensures
        after.aggregates.changes@.len() >= target.aggregates.changes@.len(),
        forall|i: int|
            0 <= i < target.aggregates.changes@.len() ==> after.aggregates.changes@[i]
                == #[trigger] target.aggregates.changes@[i],
        forall|i: int|
            0 <= i < current.aggregates.changes@.len() ==> exists|k: int|
                0 <= k < after.aggregates.changes@.len() && (
                #[trigger] after.aggregates.changes@[k]).path@ == (
                #[trigger] current.aggregates.changes@[i]).path@,
        forall|k: int|
            target.aggregates.changes@.len() <= k < after.aggregates.changes@.len()
                ==> current.aggregates.changes@.contains(#[trigger] after.aggregates.changes@[k]),
        forall|j: int, k: int|
            target.aggregates.changes@.len() <= k < after.aggregates.changes@.len() && 0 <= j < k
                ==> (#[trigger] after.aggregates.changes@[j]).path@ != (
            #[trigger] after.aggregates.changes@[k]).path@,
        after.aggregates.tests@.len() >= target.aggregates.tests@.len(),
        forall|i: int|
            0 <= i < target.aggregates.tests@.len() ==> after.aggregates.tests@[i]
                == #[trigger] target.aggregates.tests@[i],
        forall|i: int|
            0 <= i < current.aggregates.tests@.len() ==> exists|k: int|
                0 <= k < after.aggregates.tests@.len() && (
                #[trigger] after.aggregates.tests@[k]).call_id@ == (
                #[trigger] current.aggregates.tests@[i]).call_id@,
        forall|k: int|
            target.aggregates.tests@.len() <= k < after.aggregates.tests@.len()
                ==> current.aggregates.tests@.contains(#[trigger] after.aggregates.tests@[k]),
        forall|j: int, k: int|
            target.aggregates.tests@.len() <= k < after.aggregates.tests@.len() && 0 <= j < k
                ==> (#[trigger] after.aggregates.tests@[j]).call_id@ != (
            #[trigger] after.aggregates.tests@[k]).call_id@,
{
    let (tc, cc, ac) = (
        target.aggregates.changes@,
        current.aggregates.changes@,
        after.aggregates.changes@,
    );
    changes_are_merged(tc, cc);
    assert forall|i: int| 0 <= i < tc.len() implies ac[i] == #[trigger] tc[i] by {
        assert(ac.take(tc.len() as int)[i] == tc[i]);
    }
    assert forall|i: int| 0 <= i < cc.len() implies exists|k: int|
        0 <= k < ac.len() && (#[trigger] ac[k]).path@ == (#[trigger] cc[i]).path@ by {
        assert(has_path(ac, cc[i].path@));
    }
    let (tt, ct, at) = (
        target.aggregates.tests@,
        current.aggregates.tests@,
        after.aggregates.tests@,
    );
    tests_are_merged(tt, ct);
    assert forall|i: int| 0 <= i < tt.len() implies at[i] == #[trigger] tt[i] by {
        assert(at.take(tt.len() as int)[i] == tt[i]);
    }
    assert forall|i: int| 0 <= i < ct.len() implies exists|k: int|
        0 <= k < at.len() && (#[trigger] at[k]).call_id@ == (#[trigger] ct[i]).call_id@ by {
        assert(has_call(at, ct[i].call_id@));
    }
}

/// Of two counts the larger stands, whichever record has it, and the evidence
/// of a finished run says the same. Usage is complete only if both say so, and
/// the later report of progress stands.
pub proof fn larger_counts_stand(target: RunRecord, current: RunRecord, after: RunRecord)
    requires
        merged_run(target, current, after),
    ensures
        ({
            let (t, c, a) = (
                target.aggregates.usage,
                current.aggregates.usage,
                after.aggregates.usage,
            );
            &&& a.prompt_tokens >= t.prompt_tokens && a.prompt_tokens >= c.prompt_tokens
            &&& a.prompt_tokens == t.prompt_tokens || a.prompt_tokens == c.prompt_tokens
            &&& a.completion_tokens >= t.completion_tokens && a.completion_tokens
                >= c.completion_tokens
            &&& a.completion_tokens == t.completion_tokens || a.completion_tokens
                == c.completion_tokens
            &&& a.total_tokens >= t.total_tokens && a.total_tokens >= c.total_tokens
            &&& a.total_tokens == t.total_tokens || a.total_tokens == c.total_tokens
            &&& a.requests >= t.requests && a.requests >= c.requests
            &&& a.requests == t.requests || a.requests == c.requests
        }),
        target.aggregates.verification is Some ==> after.aggregates.verification is Some
            && after.aggregates.verification->0.usage == after.aggregates.usage,
        target.aggregates.verification is None ==> after.aggregates.verification is None,
        after.aggregates.usage_complete <==> target.aggregates.usage_complete
            && current.aggregates.usage_complete,
        current.progress is None ==> after.progress == target.progress,
        target.progress is None ==> after.progress == current.progress,
        target.progress is Some && current.progress is Some ==> (after.progress
            == current.progress && current.progress->0.updated_at > target.progress->0.updated_at
            || after.progress == target.progress && target.progress->0.updated_at
            >= current.progress->0.updated_at),
        target.stop_cause == Some(RunStopCause::TokenAccountingUnavailable) ==> after.stop_cause
            == target.stop_cause && after.aggregates.usage_pending_requests
            == target.aggregates.usage_pending_requests,
        target.stop_cause != Some(RunStopCause::TokenAccountingUnavailable) ==> {
            &&& after.aggregates.usage_pending_requests
                == current.aggregates.usage_pending_requests
            &&& current.stop_cause is Some ==> after.stop_cause == current.stop_cause
            &&& current.stop_cause is None ==> after.stop_cause == target.stop_cause
        },
        after.state == target.state,
        after.final_response == target.final_response,
        after.terminal_result == target.terminal_result,
        after.run_id == target.run_id,
        after.updated_at == target.updated_at,
{
}

/// Only a run that is over is finished. One that is over on record already
/// keeps how it ended and what it answered; otherwise the finished run says
/// both. Where tokens could not be accounted for, that is said instead.
pub proof fn first_ends_stand(
    candidate: RunRecord,
    current: Option<RunRecord>,
    r: Result<RunRecord, String>,
)
    requires
        finalizing(candidate, current, r),
    ensures
        r is Ok <==> !is_under_way(candidate),
        r is Ok && current is None ==> r->Ok_0 == candidate,
        r is Ok && current is Some && is_under_way(current->0) ==> {
            &&& r->Ok_0.state == candidate.state
            &&& r->Ok_0.final_response == candidate.final_response
            &&& r->Ok_0.terminal_result == candidate.terminal_result
        },
        r is Ok && current is Some && !is_under_way(current->0) ==> {
            &&& r->Ok_0.state == current->0.state
            &&& r->Ok_0.final_response == current->0.final_response
            &&& if candidate.stop_cause == Some(RunStopCause::TokenAccountingUnavailable)
                || current->0.stop_cause == Some(RunStopCause::TokenAccountingUnavailable) {
                &&& r->Ok_0.terminal_result is Some
                &&& r->Ok_0.terminal_result->0@ == "max_total_tokens_usage_unavailable"@
                &&& r->Ok_0.error_code is Some
                &&& r->Ok_0.error_code->0@ == "max_total_tokens_usage_unavailable"@
            } else {
                &&& r->Ok_0.terminal_result == current->0.terminal_result
                &&& r->Ok_0.error_code == current->0.error_code
            }
        },
        r is Ok && current is Some ==> exists|merged: RunRecord|
            {
                &&& #[trigger] merged_run(candidate, current->0, merged)
                &&& r->Ok_0.aggregates == merged.aggregates
                &&& r->Ok_0.stop_cause == merged.stop_cause
                &&& r->Ok_0.progress == merged.progress
            },
{
    if r is Ok && current is Some {
        let after = r->Ok_0;
        assert(finalized(candidate, current->0, after));
    }
}

} // verus!
