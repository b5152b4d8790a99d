//! Binding a run to the agent that carries it out.
//!
//! An agent has at most one active run. Two records change together, so an
//! intent is written first: at every moment either both records agree or the
//! intent is there for a restart to finish from.

use crate::agent::{agent_fault, has_id, known_lanes, AgentRecord, AgentState, SpecFacts};
use crate::digest::{file_id_fault, safe_id_filename};
use crate::error::{fault_text, invalid_fault};
use crate::run::{holds, RunRecord, RunState};
use crate::text::{copy, str_eq};
use vstd::prelude::*;
use vstd::string::*;

verus! {

/// Why an agent cannot take up a run.
pub open spec fn binding_fault(run: RunRecord, agent: AgentRecord) -> Option<Seq<char>> {
    if agent.current_run_id is Some {
        Some("persistent Agent already has an active Run"@)
    } else if !known_lanes(agent).contains(run.session_id) {
        Some("Run Lane is not currently associated with the persistent Agent"@)
    } else if agent.spec is None {
        Some(fault_text(invalid_fault("agent specification has not been migrated"@)))
    } else if run.agent_spec_revision != Some(agent.spec->0.revision) {
        Some("Run Agent specification revision is stale"@)
    } else {
        None
    }
}

/// The agent with this run as its active one.
pub open spec fn activated_agent(agent: AgentRecord, run: RunRecord, now: i128) -> AgentRecord {
    AgentRecord {
        state: AgentState::Active,
        current_run_id: Some(run.run_id),
        last_lane_id: Some(run.session_id),
        updated_at: now,
        ..agent
    }
}

/// A fault as its text.
pub open spec fn fault_message(f: Option<crate::error::Fault>) -> Option<Seq<char>> {
    match f {
        Some(f) => Some(fault_text(f)),
        None => None,
    }
}

/// The first of two messages.
pub open spec fn first_message(a: Option<Seq<char>>, b: Option<Seq<char>>) -> Option<Seq<char>> {
    match a {
        Some(m) => Some(m),
        None => b,
    }
}

/// Why a new run is not admitted.
pub open spec fn admission_fault(
    run: RunRecord,
    agent_id: Seq<char>,
    intent_pending: bool,
    agent: Option<AgentRecord>,
    facts: SpecFacts,
    run_exists: bool,
    now: i128,
) -> Option<Seq<char>> {
    if !holds(run.agent_id, agent_id) {
        Some("Run Agent identity does not match activation target"@)
    } else if intent_pending {
        Some("a prior Agent activation requires restart recovery"@)
    } else {
        first_message(
            fault_message(file_id_fault(agent_id)),
            match agent {
                None => Some("persistent Agent record is missing"@),
                Some(a) => first_message(
                    binding_fault(run, a),
                    first_message(
                        fault_message(file_id_fault(run.run_id@)),
                        if run_exists {
                            Some("Run ID already exists"@)
                        } else {
                            fault_message(agent_fault(activated_agent(a, run, now), facts))
                        },
                    ),
                ),
            },
        )
    }
}

fn id_text(id: &str) -> (r: Result<(), String>)
    ensures
        match file_id_fault(id@) {
            Some(f) => r is Err && r->Err_0@ == fault_text(f),
            None => r is Ok,
        },
{
    match safe_id_filename(id) {
        Ok(_) => Ok(()),
        Err(e) => Err(e.to_text()),
    }
}

fn check_binding(run: &RunRecord, agent: &AgentRecord) -> (r: Result<(), String>)
    ensures
        match binding_fault(*run, *agent) {
            Some(m) => r is Err && r->Err_0@ == m,
            None => r is Ok,
        },
{
    if agent.current_run_id.is_some() {
        return Err(copy("persistent Agent already has an active Run"));
    }
    let lanes: Vec<u128> = agent.known_lane_ids();
    if !has_id(&lanes, run.session_id) {
        return Err(copy("Run Lane is not currently associated with the persistent Agent"));
    }
    let revision: u64 = match agent.current_spec() {
        Ok(spec) => spec.revision,
        Err(e) => {
            return Err(e.to_text());
        },
    };
    let current: bool = match run.agent_spec_revision {
        Some(r) => r == revision,
        None => false,
    };
    if !current {
        return Err(copy("Run Agent specification revision is stale"));
    }
    Ok(())
}

fn activate(agent: AgentRecord, run: &RunRecord, facts: &SpecFacts, now: i128) -> (r: Result<
    AgentRecord,
    String,
>)
    ensures
        match agent_fault(activated_agent(agent, *run, now), *facts) {
            Some(f) => r is Err && r->Err_0@ == fault_text(f),
            None => r == Ok::<AgentRecord, String>(activated_agent(agent, *run, now)),
        },
{
    let mut agent: AgentRecord = agent;
    agent.state = AgentState::Active;
    agent.current_run_id = Some(run.run_id.clone());
    agent.last_lane_id = Some(run.session_id);
    agent.updated_at = now;
    match agent.validate(facts) {
        Ok(()) => Ok(agent),
        Err(e) => Err(e.to_text()),
    }
}

/// What the admission of a run comes to.
pub open spec fn admitting(
    run: RunRecord,
    agent_id: Seq<char>,
    intent_pending: bool,
    agent: Option<AgentRecord>,
    facts: SpecFacts,
    run_exists: bool,
    now: i128,
    r: Result<AgentRecord, String>,
) -> bool {
    match admission_fault(run, agent_id, intent_pending, agent, facts, run_exists, now) {
        Some(m) => r is Err && r->Err_0@ == m,
        None => r == Ok::<AgentRecord, String>(activated_agent(agent->0, run, now)),
    }
}

/// Admits a new run for an agent: hands back the agent as it is to be stored
/// together with the run. `agent` is the stored record, brought up to date.
pub fn save_run_and_activate_agent(
    run: &RunRecord,
    agent_id: &str,
    intent_pending: bool,
    agent: Option<AgentRecord>,
    facts: &SpecFacts,
    run_exists: bool,
    now: i128,
) -> (r: Result<AgentRecord, String>)
    ensures
        admitting(
            *run,
            agent_id@,
            intent_pending,
            agent,
            *facts,
            run_exists,
            now,
            r,
        ),
{
    let named: bool = match &run.agent_id {
        Some(id) => str_eq(id.as_str(), agent_id),
        None => false,
    };
    if !named {
        return Err(copy("Run Agent identity does not match activation target"));
    }
    if intent_pending {
        return Err(copy("a prior Agent activation requires restart recovery"));
    }
    match id_text(agent_id) {
        Ok(()) => {},
        Err(m) => {
            return Err(m);
        },
    }
    let agent: AgentRecord = match agent {
        Some(a) => a,
        None => {
            return Err(copy("persistent Agent record is missing"));
        },
    };
    match check_binding(run, &agent) {
        Ok(()) => {},
        Err(m) => {
            return Err(m);
        },
    }
    match id_text(run.run_id.as_str()) {
        Ok(()) => {},
        Err(m) => {
            return Err(m);
        },
    }
    if run_exists {
        return Err(copy("Run ID already exists"));
    }
    activate(agent, run, facts, now)
}

/// A queued run and its agent, both to be stored.
#[derive(Debug)]
pub struct Promotion {
    pub run: RunRecord,
    pub agent: AgentRecord,
}

/// The queued run once it is running.
pub open spec fn promoted_run(run: RunRecord, start_seq: u64, now: i128) -> RunRecord {
    RunRecord {
        state: RunState::Running,
        queue_position: None,
        start_seq: Some(start_seq),
        updated_at: now,
        ..run
    }
}

/// Why a queued run is not promoted.
pub open spec fn promotion_fault(
    run_id: Seq<char>,
    agent_id: Seq<char>,
    prior: RunRecord,
    agent: Option<AgentRecord>,
    facts: SpecFacts,
    now: i128,
) -> Option<Seq<char>> {
    if !(prior.state is Queued) {
        Some("Run is no longer queued"@)
    } else if !holds(prior.agent_id, agent_id) {
        Some("Run Agent identity does not match activation target"@)
    } else {
        first_message(
            fault_message(file_id_fault(agent_id)),
            match agent {
                None => Some("persistent Agent record is missing"@),
                Some(a) => first_message(
                    binding_fault(prior, a),
                    first_message(
                        fault_message(agent_fault(activated_agent(a, prior, now), facts)),
                        fault_message(file_id_fault(run_id)),
                    ),
                ),
            },
        )
    }
}

/// What the promotion of a queued run comes to.
pub open spec fn promoting(
    run_id: Seq<char>,
    agent_id: Seq<char>,
    start_seq: u64,
    intent_pending: bool,
    prior: Option<RunRecord>,
    agent: Option<AgentRecord>,
    facts: SpecFacts,
    now: i128,
    r: Result<Option<Promotion>, String>,
) -> bool {
    if intent_pending {
        r is Err && r->Err_0@ == "a prior Agent activation requires restart recovery"@
    } else {
        match prior {
            None => r == Ok::<Option<Promotion>, String>(None),
            Some(p) => match promotion_fault(run_id, agent_id, p, agent, facts, now) {
                Some(m) => r is Err && r->Err_0@ == m,
                None => r == Ok::<Option<Promotion>, String>(
                    Some(
                        Promotion {
                            run: promoted_run(p, start_seq, now),
                            agent: activated_agent(agent->0, p, now),
                        },
                    ),
                ),
            },
        }
    }
}

/// Starts a queued run and binds its agent to it. A run that is not there is no
/// error. `agent` is the stored record, brought up to date.
pub fn promote_queued_run_and_activate_agent(
    run_id: &str,
    agent_id: &str,
    start_seq: u64,
    intent_pending: bool,
    prior: Option<RunRecord>,
    agent: Option<AgentRecord>,
    facts: &SpecFacts,
    now: i128,
) -> (r: Result<Option<Promotion>, String>)
    ensures
        promoting(
            run_id@,
            agent_id@,
            start_seq,
            intent_pending,
            prior,
            agent,
            *facts,
            now,
            r,
        ),
{
    if intent_pending {
        return Err(copy("a prior Agent activation requires restart recovery"));
    }
    let mut run: RunRecord = match prior {
        Some(p) => p,
        None => {
            return Ok(None);
        },
    };
    if run.state != RunState::Queued {
        return Err(copy("Run is no longer queued"));
    }
    let named: bool = match &run.agent_id {
        Some(id) => str_eq(id.as_str(), agent_id),
        None => false,
    };
    if !named {
        return Err(copy("Run Agent identity does not match activation target"));
    }
    match id_text(agent_id) {
        Ok(()) => {},
        Err(m) => {
            return Err(m);
        },
    }
    let agent: AgentRecord = match agent {
        Some(a) => a,
        None => {
            return Err(copy("persistent Agent record is missing"));
        },
    };
    match check_binding(&run, &agent) {
        Ok(()) => {},
        Err(m) => {
            return Err(m);
        },
    }
    let agent: AgentRecord = match activate(agent, &run, facts, now) {
        Ok(a) => a,
        Err(m) => {
            return Err(m);
        },
    };
    match id_text(run_id) {
        Ok(()) => {},
        Err(m) => {
            return Err(m);
        },
    }
    run.state = RunState::Running;
    run.queue_position = None;
    run.start_seq = Some(start_seq);
    run.updated_at = now;
    Ok(Some(Promotion { run, agent }))
}

/// An agent that is active on a run takes up no other: of two runs admitted one
/// after the other for one agent, the second is refused.
pub proof fn agents_have_one_active_run(
    first: RunRecord,
    second: RunRecord,
    agent: AgentRecord,
    t: i128,
)
    ensures
        binding_fault(second, activated_agent(agent, first, t)) is Some,
{
}

/// How far the records of an activation are written. The step is the write
/// that comes next.
#[derive(Debug, Clone, Copy, PartialEq, Eq, Structural)]
pub enum ActivationStep {
    WriteIntent,
    WriteRun,
    WriteAgent,
    /// Remove the intent; both records are installed.
    ClearIntent,
    /// Take the run back after its own write failed.
    UndoRun,
    /// Take the run back after the write of the agent failed.
    UndoRunOfAgent,
    /// Remove the intent; neither record is installed.
    RetireIntent,
    RetireIntentOfAgent,
    /// Both records are installed.
    Finished,
    Failed(ActivationFailure),
}

/// Which write an activation failed at, and whether a restart has to recover.
#[derive(Debug, Clone, Copy, PartialEq, Eq, Structural)]
pub enum ActivationFailure {
    Intent,
    Run,
    RunNeedsRestart,
    Agent,
    AgentNeedsRestart,
}

impl ActivationFailure {
    /// What a reader is told about the failure; the failure of the intent
    /// itself needs no explanation.
    pub open spec fn text(self, promotion: bool) -> Option<Seq<char>> {
        match self {
            ActivationFailure::Intent => None,
            ActivationFailure::Run => Some(
                if promotion {
                    "promote queued Run"@
                } else {
                    "persist Agent activation Run"@
                },
            ),
            ActivationFailure::RunNeedsRestart => Some(
                if promotion {
                    "promote queued Run; durable recovery intent requires restart"@
                } else {
                    "persist Agent activation Run; durable recovery intent requires restart"@
                },
            ),
            ActivationFailure::Agent => Some(
                if promotion {
                    "activate promoted Run"@
                } else {
                    "persist Agent activation"@
                },
            ),
            ActivationFailure::AgentNeedsRestart => Some(
                if promotion {
                    "activate promoted Run; durable recovery intent requires restart"@
                } else {
                    "persist Agent activation; durable recovery intent requires restart"@
                },
            ),
        }
    }

    /// What a reader is told about the failure.
    pub fn context(self, promotion: bool) -> (c: Option<&'static str>)
        ensures
            match self.text(promotion) {
                Some(t) => c is Some && c->0@ == t,
                None => c is None,
            },
    {
        match self {
            ActivationFailure::Intent => None,
            ActivationFailure::Run => if promotion {
                Some("promote queued Run")
            } else {
                Some("persist Agent activation Run")
            },
            ActivationFailure::RunNeedsRestart => if promotion {
                Some("promote queued Run; durable recovery intent requires restart")
            } else {
                Some("persist Agent activation Run; durable recovery intent requires restart")
            },
            ActivationFailure::Agent => if promotion {
                Some("activate promoted Run")
            } else {
                Some("persist Agent activation")
            },
            ActivationFailure::AgentNeedsRestart => if promotion {
                Some("activate promoted Run; durable recovery intent requires restart")
            } else {
                Some("persist Agent activation; durable recovery intent requires restart")
            },
        }
    }
}

/// The step after this one.
pub open spec fn step_after(step: ActivationStep, promotion: bool, ok: bool) -> ActivationStep {
    match step {
        ActivationStep::WriteIntent => if ok {
            ActivationStep::WriteRun
        } else {
            ActivationStep::Failed(ActivationFailure::Intent)
        },
        ActivationStep::WriteRun => if ok {
            ActivationStep::WriteAgent
        } else if promotion {
            ActivationStep::RetireIntent
        } else {
            ActivationStep::UndoRun
        },
        ActivationStep::WriteAgent => if ok {
            ActivationStep::ClearIntent
        } else {
            ActivationStep::UndoRunOfAgent
        },
        ActivationStep::ClearIntent => ActivationStep::Finished,
        ActivationStep::UndoRun => if ok {
            ActivationStep::RetireIntent
        } else {
            ActivationStep::Failed(ActivationFailure::RunNeedsRestart)
        },
        ActivationStep::UndoRunOfAgent => if ok {
            ActivationStep::RetireIntentOfAgent
        } else {
            ActivationStep::Failed(ActivationFailure::AgentNeedsRestart)
        },
        ActivationStep::RetireIntent => ActivationStep::Failed(
            if ok {
                ActivationFailure::Run
            } else {
                ActivationFailure::RunNeedsRestart
            },
        ),
        ActivationStep::RetireIntentOfAgent => ActivationStep::Failed(
            if ok {
                ActivationFailure::Agent
            } else {
                ActivationFailure::AgentNeedsRestart
            },
        ),
        ActivationStep::Finished => step,
        ActivationStep::Failed(_) => step,
    }
}

/// The step after this one, given how its write went. Where the intent cannot
/// be removed at the end, the activation stands: the intent only says again
/// what is installed.
pub fn next_step(step: ActivationStep, promotion: bool, ok: bool) -> (next: ActivationStep)
    ensures
        next == step_after(step, promotion, ok),
{
    match step {
        ActivationStep::WriteIntent => if ok {
            ActivationStep::WriteRun
        } else {
            ActivationStep::Failed(ActivationFailure::Intent)
        },
        ActivationStep::WriteRun => if ok {
            ActivationStep::WriteAgent
        } else if promotion {
            ActivationStep::RetireIntent
        } else {
            ActivationStep::UndoRun
        },
        ActivationStep::WriteAgent => if ok {
            ActivationStep::ClearIntent
        } else {
            ActivationStep::UndoRunOfAgent
        },
        ActivationStep::ClearIntent => ActivationStep::Finished,
        ActivationStep::UndoRun => if ok {
            ActivationStep::RetireIntent
        } else {
            ActivationStep::Failed(ActivationFailure::RunNeedsRestart)
        },
        ActivationStep::UndoRunOfAgent => if ok {
            ActivationStep::RetireIntentOfAgent
        } else {
            ActivationStep::Failed(ActivationFailure::AgentNeedsRestart)
        },
        ActivationStep::RetireIntent => if ok {
            ActivationStep::Failed(ActivationFailure::Run)
        } else {
            ActivationStep::Failed(ActivationFailure::RunNeedsRestart)
        },
        ActivationStep::RetireIntentOfAgent => if ok {
            ActivationStep::Failed(ActivationFailure::Agent)
        } else {
            ActivationStep::Failed(ActivationFailure::AgentNeedsRestart)
        },
        ActivationStep::Finished => step,
        ActivationStep::Failed(_) => step,
    }
}

/// What is on disk: the intent, the new run, the activated agent.
pub struct Disk {
    pub intent: bool,
    pub run: bool,
    pub agent: bool,
}

/// What one step may leave on disk. A write replaces its target as a whole, so
/// one that failed left the target as it was; only the first write of a new
/// run may leave it behind. A removal that failed may have taken effect.
pub open spec fn may_leave(
    step: ActivationStep,
    promotion: bool,
    ok: bool,
    before: Disk,
    after: Disk,
) -> bool {
    match step {
        ActivationStep::WriteIntent => after == (Disk { intent: ok, ..before }),
        ActivationStep::WriteRun => if ok {
            after == (Disk { run: true, ..before })
        } else {
            after == before || !promotion && after == (Disk { run: true, ..before })
        },
        ActivationStep::WriteAgent => after == if ok {
            Disk { agent: true, ..before }
        } else {
            before
        },
        ActivationStep::ClearIntent | ActivationStep::RetireIntent
        | ActivationStep::RetireIntentOfAgent => after == (Disk { intent: false, ..before }) || !ok
            && after == before,
        ActivationStep::UndoRun | ActivationStep::UndoRunOfAgent => after == (Disk {
            run: false,
            ..before
        }) || !ok && after == before,
        ActivationStep::Finished | ActivationStep::Failed(_) => after == before,
    }
}

/// What holds of the disk before a step.
pub open spec fn in_step(step: ActivationStep, disk: Disk) -> bool {
    match step {
        ActivationStep::WriteIntent => !disk.intent && !disk.run && !disk.agent,
        ActivationStep::WriteRun => disk.intent && !disk.run && !disk.agent,
        ActivationStep::WriteAgent => disk.intent && disk.run && !disk.agent,
        ActivationStep::ClearIntent => disk.intent && disk.run && disk.agent,
        ActivationStep::UndoRun => disk.intent && !disk.agent,
        ActivationStep::UndoRunOfAgent => disk.intent && disk.run && !disk.agent,
        ActivationStep::RetireIntent | ActivationStep::RetireIntentOfAgent => disk.intent
            && !disk.run && !disk.agent,
        ActivationStep::Finished => disk.run && disk.agent,
        ActivationStep::Failed(f) => {
            &&& !disk.agent
            &&& disk.run ==> disk.intent
            &&& (f is Intent || f is Run || f is Agent) ==> !disk.intent && !disk.run
        },
    }
}

/// Every step of an activation keeps to its plan, and whenever the host stops
/// the run and the agent agree or the intent is there to finish from.
pub proof fn activations_are_recoverable(
    step: ActivationStep,
    promotion: bool,
    ok: bool,
    before: Disk,
    after: Disk,
)
    requires
        in_step(step, before),
        may_leave(step, promotion, ok, before, after),
    ensures
        in_step(step_after(step, promotion, ok), after),
        after.intent || after.run == after.agent,
        before.intent || before.run == before.agent,
{
}

/// An activation ends with both records installed, or reports a failure and has
/// installed neither, or says that a restart must recover.
pub proof fn activations_end_truthfully(step: ActivationStep, disk: Disk)
    requires
        in_step(step, disk),
    ensures
        step is Finished ==> disk.run && disk.agent,
        step is Failed ==> !disk.agent,
        step is Failed && disk.run ==> step->Failed_0 is RunNeedsRestart
            || step->Failed_0 is AgentNeedsRestart,
{
}

/// Why a recovery intent is not carried out. `run_agrees` says of the stored
/// run, if there is one, whether it is the intent's run or the run before it.
pub open spec fn recovery_fault(
    run: RunRecord,
    activated: AgentRecord,
    run_agrees: Option<bool>,
    stored: Option<AgentRecord>,
) -> Option<Seq<char>> {
    if !holds(run.agent_id, activated.agent_id@) || !holds(activated.current_run_id, run.run_id@) {
        Some("Agent activation recovery intent is inconsistent"@)
    } else {
        first_message(
            fault_message(file_id_fault(run.run_id@)),
            if run_agrees == Some(false) {
                Some("Agent activation recovery Run conflicts with durable state"@)
            } else {
                first_message(
                    fault_message(file_id_fault(activated.agent_id@)),
                    match stored {
                        Some(a) => if a.agent_id@ != activated.agent_id@ || a.current_run_id is Some
                            && a.current_run_id->0@ != run.run_id@ {
                            Some("Agent activation recovery conflicts with another active Run"@)
                        } else {
                            None
                        },
                        None => None,
                    },
                )
            },
        )
    }
}

/// What the recovery of a half-done activation comes to.
pub open spec fn recovering_activation(
    run: RunRecord,
    activated: AgentRecord,
    run_agrees: Option<bool>,
    stored: Option<AgentRecord>,
    r: Result<(), String>,
) -> bool {
    match recovery_fault(
        run,
        activated,
        run_agrees,
        stored,
    ) {
        Some(m) => r is Err && r->Err_0@ == m,
        None => r is Ok,
    }
}

/// Whether a recovery intent may be carried out: both of its records written
/// and the intent removed.
pub fn recover_agent_activation(
    run: &RunRecord,
    activated: &AgentRecord,
    run_agrees: Option<bool>,
    stored: Option<&AgentRecord>,
) -> (r: Result<(), String>)
    ensures
        recovering_activation(
            *run,
            *activated,
            run_agrees,
            match stored {
                Some(a) => Some(*a),
                None => None,
            },
            r,
        ),
{
    let run_names_agent: bool = match &run.agent_id {
        Some(id) => str_eq(id.as_str(), activated.agent_id.as_str()),
        None => false,
    };
    let agent_names_run: bool = match &activated.current_run_id {
        Some(id) => str_eq(id.as_str(), run.run_id.as_str()),
        None => false,
    };
    if !run_names_agent || !agent_names_run {
        return Err(copy("Agent activation recovery intent is inconsistent"));
    }
    match id_text(run.run_id.as_str()) {
        Ok(()) => {},
        Err(m) => {
            return Err(m);
        },
    }
    match run_agrees {
        Some(agrees) => {
            if !agrees {
                return Err(copy("Agent activation recovery Run conflicts with durable state"));
            }
        },
        None => {},
    }
    match id_text(activated.agent_id.as_str()) {
        Ok(()) => {},
        Err(m) => {
            return Err(m);
        },
    }
    match stored {
        Some(a) => {
            let other_run: bool = match &a.current_run_id {
                Some(id) => !str_eq(id.as_str(), run.run_id.as_str()),
                None => false,
            };
            if !str_eq(a.agent_id.as_str(), activated.agent_id.as_str()) || other_run {
                return Err(copy("Agent activation recovery conflicts with another active Run"));
            }
        },
        None => {},
    }
    Ok(())
}

/// The intent of an admitted activation can be carried out after a restart,
/// wherever the host stopped.
pub proof fn admitted_activations_recover(
    run: RunRecord,
    agent: AgentRecord,
    facts: SpecFacts,
    now: i128,
    run_agrees: Option<bool>,
    agent_written: bool,
)
    requires
        admission_fault(run, agent.agent_id@, false, Some(agent), facts, false, now) is None,
        run_agrees != Some(false),
    ensures
        recovery_fault(
            run,
            activated_agent(agent, run, now),
            run_agrees,
            Some(
                if agent_written {
                    activated_agent(agent, run, now)
                } else {
                    agent
                },
            ),
        ) is None,
{
}

} // verus!
