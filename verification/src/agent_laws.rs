//! What activations, releases and revisions of agents come to, said of the
//! records alone.

use crate::activation::{admitting, promoting, recovering_activation, Promotion};
use crate::agent::{
    agent_fault, known_lanes, spec_fault, AgentRecord, AgentSpec, AgentState, SpecFacts,
};
use crate::digest::file_id_fault;
use crate::roster::{
    deactivating, interrupting, owner_claiming, restarted_state, revised, same_spec, save_fault,
    spec_saving, updated, RevisedAgent, StoredSpec,
};
use crate::run::{RunRecord, RunState};
use crate::text::trimmed;
use vstd::prelude::*;
use vstd::string::*;

verus! {

/// The agent is free to take up the run: it is active on none, the run was made
/// in one of its lanes and under the specification it has now.
pub open spec fn may_take_up(agent: AgentRecord, run: RunRecord) -> bool {
    &&& agent.current_run_id is None
    &&& known_lanes(agent).contains(run.session_id)
    &&& agent.spec is Some
    &&& run.agent_spec_revision == Some(agent.spec->0.revision)
}

/// `after` is `before` active on the run, and otherwise as it was.
pub open spec fn active_on(
    before: AgentRecord,
    after: AgentRecord,
    run: RunRecord,
    now: i128,
) -> bool {
    &&& after.state == AgentState::Active
    &&& after.current_run_id == Some(run.run_id)
    &&& after.last_lane_id == Some(run.session_id)
    &&& after.updated_at == now
    &&& after == (AgentRecord {
        state: after.state,
        current_run_id: after.current_run_id,
        last_lane_id: after.last_lane_id,
        updated_at: after.updated_at,
        ..before
    })
}

/// A new run is admitted for the agent it names and for no other, when no
/// activation is half done, the run is not stored yet and the agent is free to
/// take it up. The agent is active on that run from then on.
pub proof fn admitted_runs_find_their_agent_free(
    run: RunRecord,
    agent_id: Seq<char>,
    intent_pending: bool,
    agent: Option<AgentRecord>,
    facts: SpecFacts,
    run_exists: bool,
    now: i128,
    r: Result<AgentRecord, String>,
)
    requires
        admitting(run, agent_id, intent_pending, agent, facts, run_exists, now, r),
    ensures
        r is Ok ==> {
            &&& agent is Some
            &&& run.agent_id is Some
            &&& run.agent_id->0@ == agent_id
            &&& !intent_pending
            &&& !run_exists
            &&& may_take_up(agent->0, run)
            &&& active_on(agent->0, r->Ok_0, run, now)
            &&& agent_fault(r->Ok_0, facts) is None
        },
        agent is Some && run.agent_id is Some && run.agent_id->0@ == agent_id && !intent_pending
            && !run_exists && may_take_up(agent->0, run) && file_id_fault(agent_id) is None
            && file_id_fault(run.run_id@) is None && (forall|after: AgentRecord| #[trigger]
            active_on(agent->0, after, run, now) ==> agent_fault(after, facts) is None) ==> r is Ok,
{
    if agent is Some {
        let after = crate::activation::activated_agent(agent->0, run, now);
        assert(active_on(agent->0, after, run, now));
    }
}

/// A queued run is promoted for the agent it names, when that agent is free to
/// take it up. The run runs from the given event on and is otherwise as it
/// was, and the agent is active on it.
pub proof fn promoted_runs_run(
    run_id: Seq<char>,
    agent_id: Seq<char>,
    start_seq: u64,
    intent_pending: bool,
    prior: Option<RunRecord>,
    agent: Option<AgentRecord>,
    facts: SpecFacts,
    now: i128,
    r: Result<Option<Promotion>, String>,
)
    requires
        promoting(run_id, agent_id, start_seq, intent_pending, prior, agent, facts, now, r),
    ensures
        intent_pending ==> r is Err,
        !intent_pending && prior is None ==> r matches Ok(None),
        r matches Ok(Some(p)) ==> {
            &&& prior is Some
            &&& prior->0.state == RunState::Queued
            &&& prior->0.agent_id is Some
            &&& prior->0.agent_id->0@ == agent_id
            &&& agent is Some
            &&& may_take_up(agent->0, prior->0)
            &&& active_on(agent->0, p.agent, prior->0, now)
            &&& p.run.state == RunState::Running
            &&& p.run.queue_position is None
            &&& p.run.start_seq == Some(start_seq)
            &&& p.run.updated_at == now
            &&& p.run == (RunRecord {
                state: p.run.state,
                queue_position: p.run.queue_position,
                start_seq: p.run.start_seq,
                updated_at: p.run.updated_at,
                ..prior->0
            })
        },
        !intent_pending && prior is Some && prior->0.state == RunState::Queued
            && prior->0.agent_id is Some && prior->0.agent_id->0@ == agent_id && agent is Some
            && may_take_up(agent->0, prior->0) && file_id_fault(agent_id) is None && file_id_fault(
            run_id,
        ) is None && (forall|after: AgentRecord| #[trigger]
            active_on(agent->0, after, prior->0, now) ==> agent_fault(after, facts) is None)
            ==> r matches Ok(Some(_)),
{
    if agent is Some && prior is Some {
        let after = crate::activation::activated_agent(agent->0, prior->0, now);
        assert(active_on(agent->0, after, prior->0, now));
    }
}

/// A half-done activation is completed only where its two records name each
/// other, the stored run does not disagree and the stored agent is active on
/// no other run.
pub proof fn recoveries_disturb_no_other_run(
    run: RunRecord,
    activated: AgentRecord,
    run_agrees: Option<bool>,
    stored: Option<AgentRecord>,
    r: Result<(), String>,
)
    requires
        recovering_activation(run, activated, run_agrees, stored, r),
    ensures
        r is Ok ==> {
            &&& run.agent_id is Some
            &&& run.agent_id->0@ == activated.agent_id@
            &&& activated.current_run_id is Some
            &&& activated.current_run_id->0@ == run.run_id@
            &&& run_agrees != Some(false)
            &&& stored is Some ==> stored->0.agent_id@ == activated.agent_id@
            &&& stored is Some && stored->0.current_run_id is Some
                ==> stored->0.current_run_id->0@ == run.run_id@
        },
        run.agent_id is Some && run.agent_id->0@ == activated.agent_id@
            && activated.current_run_id is Some && activated.current_run_id->0@ == run.run_id@
            && run_agrees != Some(false) && (stored is Some ==> stored->0.agent_id@
            == activated.agent_id@ && (stored->0.current_run_id is Some
            ==> stored->0.current_run_id->0@ == run.run_id@)) && file_id_fault(run.run_id@) is None
            && file_id_fault(activated.agent_id@) is None ==> r is Ok,
{
}

/// An agent lets go of a run it is active on, and remembers it; on another run
/// it stays, and nothing else of it changes.
pub open spec fn let_go(
    before: AgentRecord,
    after: AgentRecord,
    run_id: Seq<char>,
    state: AgentState,
    now: i128,
) -> bool {
    &&& after.updated_at == now
    &&& if before.current_run_id is Some && before.current_run_id->0@ == run_id {
        &&& after.current_run_id is None
        &&& after.last_run_id is Some
        &&& after.last_run_id->0@ == run_id
        &&& after.state == state
        &&& after == (AgentRecord {
            current_run_id: after.current_run_id,
            last_run_id: after.last_run_id,
            state: after.state,
            updated_at: now,
            ..before
        })
    } else {
        after == (AgentRecord { updated_at: now, ..before })
    }
}

/// An agent whose run failed has failed, and waits otherwise. One that is
/// active on another run is left to it.
pub proof fn finished_runs_free_their_agent(
    agent: Option<AgentRecord>,
    agent_id: Seq<char>,
    run_id: String,
    failed: bool,
    facts: SpecFacts,
    now: i128,
    r: Result<AgentRecord, String>,
)
    requires
        deactivating(agent, agent_id, run_id, failed, facts, now, r),
    ensures
        r is Ok ==> {
            &&& agent is Some
            &&& agent->0.current_run_id is Some ==> agent->0.current_run_id->0@ == run_id@
            &&& let_go(
                agent->0,
                r->Ok_0,
                run_id@,
                if failed {
                    AgentState::Failed
                } else {
                    AgentState::Waiting
                },
                now,
            )
            &&& r->Ok_0.current_run_id is None
        },
        agent is None ==> r is Err,
        agent is Some && agent->0.current_run_id is Some && agent->0.current_run_id->0@ != run_id@
            ==> r is Err,
{
}

/// A restart ends the run an agent was active on: the agent was interrupted
/// where the run is gone, or was its own and not over, and waits otherwise.
pub proof fn restarts_interrupt_their_agents(
    agent: AgentRecord,
    run_id: String,
    run: Option<RunRecord>,
    facts: SpecFacts,
    now: i128,
    r: Result<AgentRecord, String>,
)
    requires
        interrupting(agent, run_id, restarted_state(run, agent.agent_id@), facts, now, r),
        r is Ok,
    ensures
        let_go(
            agent,
            r->Ok_0,
            run_id@,
            match run {
                None => AgentState::Interrupted,
                Some(x) => if (x.state == RunState::Queued || x.state == RunState::Running)
                    && x.agent_id is Some && x.agent_id->0@ == agent.agent_id@ {
                    AgentState::Interrupted
                } else {
                    AgentState::Waiting
                },
            },
            now,
        ),
{
}

/// An agent is owned by the first account that claims it, and by that account
/// alone.
pub proof fn first_owners_stay(
    agent: Option<AgentRecord>,
    agent_id: Seq<char>,
    account: Seq<char>,
    facts: SpecFacts,
    now: i128,
    r: Result<Option<AgentRecord>, String>,
)
    requires
        owner_claiming(agent, agent_id, account, facts, now, r),
    ensures
        r matches Ok(Some(a)) ==> {
            &&& agent is Some
            &&& trimmed(account).len() > 0
            &&& a.owner_principal_id is Some
            &&& a.owner_principal_id->0@ == trimmed(account)
            &&& agent->0.owner_principal_id is Some ==> a.owner_principal_id
                == agent->0.owner_principal_id
            &&& a == (AgentRecord {
                owner_principal_id: a.owner_principal_id,
                updated_at: now,
                ..agent->0
            })
        },
        agent is Some && agent->0.owner_principal_id is Some
            && agent->0.owner_principal_id->0@ != trimmed(account) ==> r is Err,
        trimmed(account).len() == 0 ==> r is Err,
        agent is None && trimmed(account).len() > 0 && file_id_fault(agent_id) is None
            ==> r matches Ok(None),
{
}

/// An agent record is stored over another only under the revision of the
/// specification that stands there.
pub proof fn stored_agents_keep_their_revision(
    agent: AgentRecord,
    existing: Option<AgentRecord>,
    facts: SpecFacts,
)
    ensures
        save_fault(agent, existing, facts) is None <==> {
            &&& agent_fault(agent, facts) is None
            &&& agent.spec is Some
            &&& existing is Some ==> existing->0.spec is Some && existing->0.spec->0.revision
                == agent.spec->0.revision
        },
{
}

proof fn equal_specifications(a: AgentSpec, b: AgentSpec)
    ensures
        same_spec(a, b) ==> a.revision == b.revision,
        a == b ==> same_spec(a, b),
{
    reveal(same_spec);
}

/// A change to an agent is taken as it is, with the time of the change.
#[verifier::rlimit(60)]
pub proof fn changes_are_taken_whole(
    r: Result<AgentRecord, String>,
    before: AgentRecord,
    changed: AgentRecord,
    facts: SpecFacts,
    now: i128,
)
    requires
        updated(r, before, changed, facts, now),
    ensures
        r is Ok ==> r->Ok_0 == (AgentRecord { updated_at: now, ..changed }) && before.spec is Some
            && changed.spec is Some && changed.spec->0.revision == before.spec->0.revision,
        agent_fault(before, facts) is None && agent_fault(changed, facts) is None
            && before.spec is Some && changed.spec == before.spec ==> r is Ok,
{
    if before.spec is Some && changed.spec is Some {
        equal_specifications(changed.spec->0, before.spec->0);
    }
}

/// A revised agent works under the specification asked for: all that it says is
/// said by the new revision, but for its number, the one before it, who made
/// it and when. The agent itself is otherwise as it was.
pub proof fn revisions_say_what_was_asked(
    r: Result<RevisedAgent, String>,
    agent: AgentRecord,
    next: Result<AgentSpec, String>,
    actor: String,
    stored: Seq<StoredSpec>,
    facts: SpecFacts,
    now: i128,
)
    requires
        revised(r, agent, next, actor, stored, facts, now),
        r is Ok,
    ensures
        next is Ok,
        r->Ok_0.agent.spec is Some,
        r->Ok_0.agent.spec->0 == (AgentSpec {
            revision: r->Ok_0.agent.spec->0.revision,
            previous_revision: r->Ok_0.agent.spec->0.previous_revision,
            created_by: r->Ok_0.agent.spec->0.created_by,
            created_at: r->Ok_0.agent.spec->0.created_at,
            ..next->Ok_0
        }),
        r->Ok_0.write_spec ==> r->Ok_0.agent.spec->0.created_at == now,
        r->Ok_0.agent == (AgentRecord {
            workspace: next->Ok_0.source_workspace,
            model: next->Ok_0.model.selection_key,
            spec: r->Ok_0.agent.spec,
            updated_at: now,
            ..agent
        }),
{
}

/// A revision is written once: over nothing it is written, over the same it is
/// left as it is, and over another it is refused.
pub proof fn stored_revisions_never_change(
    agent_id: Seq<char>,
    spec: AgentSpec,
    existing: Option<AgentSpec>,
    facts: SpecFacts,
    r: Result<bool, String>,
)
    requires
        spec_saving(agent_id, spec, existing, facts, r),
    ensures
        r is Ok <==> spec_fault(spec, facts) is None && file_id_fault(agent_id) is None && (
        existing is Some ==> same_spec(existing->0, spec)),
        r is Ok ==> r->Ok_0 == (existing is None),
{
}

} // verus!
