//! Changes to the stored record of an agent.
//!
//! A specification changes only by a new, attributed revision; every other
//! change leaves it alone.

use crate::agent::{agent_fault, spec_fault, AgentRecord, AgentSpec, AgentState, SpecFacts};
use crate::digest::{file_id_fault, safe_id_filename};
use crate::error::{fault_text, invalid_fault};
use crate::json::texts;
use crate::run::{holds, RunRecord};
use crate::text::{copy, decimal, decimal_text, join3, str_eq, trim, trimmed};
use vstd::prelude::*;
use vstd::string::*;

verus! {

/// Two specifications that say the same.
#[verifier::opaque]
pub open spec fn same_spec(a: AgentSpec, b: AgentSpec) -> bool {
    &&& a.schema_version == b.schema_version
    &&& a.revision == b.revision
    &&& a.previous_revision == b.previous_revision
    &&& a.display_name@ == b.display_name@
    &&& a.role@ == b.role@
    &&& a.source_workspace@ == b.source_workspace@
    &&& a.model.selection_key@ == b.model.selection_key@
    &&& a.model.provider_id@ == b.model.provider_id@
    &&& a.model.model_id@ == b.model.model_id@
    &&& a.default_run_bounds == b.default_run_bounds
    &&& a.authority.sandbox_profile@ == b.authority.sandbox_profile@
    &&& a.authority.bypass_permissions == b.authority.bypass_permissions
    &&& texts(a.authority.allowed_tools@) == texts(b.authority.allowed_tools@)
    &&& texts(a.authority.allowed_mcp_servers@) == texts(b.authority.allowed_mcp_servers@)
    &&& a.authority.computer_use_allowed == b.authority.computer_use_allowed
    &&& texts(a.authority.auto_allowed_tools@) == texts(b.authority.auto_allowed_tools@)
    &&& texts(a.authority.allow_rules@) == texts(b.authority.allow_rules@)
    &&& texts(a.authority.deny_rules@) == texts(b.authority.deny_rules@)
    &&& a.memory.project_scope == b.memory.project_scope
    &&& a.memory.agent_private_scope == b.memory.agent_private_scope
    &&& texts(a.memory.team_ids@) == texts(b.memory.team_ids@)
    &&& a.managed_execution@ == b.managed_execution@
    &&& a.created_at == b.created_at
    &&& a.created_by@ == b.created_by@
}

pub(crate) fn same_texts(a: &Vec<String>, b: &Vec<String>) -> (r: bool)
    ensures
        r == (texts(a@) == texts(b@)),
{
    if a.len() != b.len() {
        proof {
            assert(texts(a@).len() != texts(b@).len());
        }
        return false;
    }
    let mut i: usize = 0;
    while i < a.len()
        invariant
            i <= a@.len(),
            a@.len() == b@.len(),
            forall|j: int| 0 <= j < i ==> (#[trigger] a@[j])@ == b@[j]@,
        decreases a.len() - i,
    {
        if !str_eq(a[i].as_str(), b[i].as_str()) {
            proof {
                assert(texts(a@)[i as int] != texts(b@)[i as int]);
            }
            return false;
        }
        i = i + 1;
    }
    proof {
        assert(texts(a@) =~= texts(b@));
    }
    true
}

/// Whether two specifications say the same.
pub fn specs_match(a: &AgentSpec, b: &AgentSpec) -> (r: bool)
    ensures
        r == same_spec(*a, *b),
{
    reveal(same_spec);
    let head: bool = a.schema_version == b.schema_version && a.revision == b.revision
        && a.previous_revision == b.previous_revision && str_eq(
        a.display_name.as_str(),
        b.display_name.as_str(),
    ) && str_eq(a.role.as_str(), b.role.as_str()) && str_eq(
        a.source_workspace.as_str(),
        b.source_workspace.as_str(),
    );
    let model: bool = str_eq(a.model.selection_key.as_str(), b.model.selection_key.as_str())
        && str_eq(a.model.provider_id.as_str(), b.model.provider_id.as_str()) && str_eq(
        a.model.model_id.as_str(),
        b.model.model_id.as_str(),
    ) && a.default_run_bounds == b.default_run_bounds;
    let authority: bool = str_eq(
        a.authority.sandbox_profile.as_str(),
        b.authority.sandbox_profile.as_str(),
    ) && a.authority.bypass_permissions == b.authority.bypass_permissions && same_texts(
        &a.authority.allowed_tools,
        &b.authority.allowed_tools,
    ) && same_texts(&a.authority.allowed_mcp_servers, &b.authority.allowed_mcp_servers)
        && a.authority.computer_use_allowed == b.authority.computer_use_allowed && same_texts(
        &a.authority.auto_allowed_tools,
        &b.authority.auto_allowed_tools,
    ) && same_texts(&a.authority.allow_rules, &b.authority.allow_rules) && same_texts(
        &a.authority.deny_rules,
        &b.authority.deny_rules,
    );
    let tail: bool = a.memory.project_scope == b.memory.project_scope
        && a.memory.agent_private_scope == b.memory.agent_private_scope && same_texts(
        &a.memory.team_ids,
        &b.memory.team_ids,
    ) && str_eq(a.managed_execution.text.as_str(), b.managed_execution.text.as_str())
        && a.created_at == b.created_at && str_eq(a.created_by.as_str(), b.created_by.as_str());
    head && model && authority && tail
}

/// The message that a change outside the revision operation is refused with.
pub open spec fn unattributed_change() -> Seq<char> {
    "Agent specification changes must use the attributable revision operation"@
}

/// A record without a specification.
pub open spec fn unmigrated() -> Seq<char> {
    fault_text(invalid_fault("agent specification has not been migrated"@))
}

/// Why an agent record is not stored over another.
pub open spec fn save_fault(
    agent: AgentRecord,
    existing: Option<AgentRecord>,
    facts: SpecFacts,
) -> Option<Seq<char>> {
    match agent_fault(agent, facts) {
        Some(f) => Some(fault_text(f)),
        None => match existing {
            Some(e) => if e.spec is None || agent.spec is None {
                Some(unmigrated())
            } else if e.spec->0.revision != agent.spec->0.revision {
                Some(unattributed_change())
            } else {
                None
            },
            None => if agent.spec is None {
                Some(unmigrated())
            } else {
                None
            },
        },
    }
}

/// Whether an agent record may be stored. Both records are brought up to date
/// before.
pub fn save_agent(agent: &AgentRecord, existing: Option<&AgentRecord>, facts: &SpecFacts) -> (r:
    Result<(), String>)
    ensures
        match save_fault(
            *agent,
            match existing {
                Some(e) => Some(*e),
                None => None,
            },
            *facts,
        ) {
            Some(m) => r is Err && r->Err_0@ == m,
            None => r is Ok,
        },
{
    match agent.validate(facts) {
        Ok(()) => {},
        Err(e) => {
            return Err(e.to_text());
        },
    }
    match existing {
        Some(e) => {
            let held: u64 = match e.current_spec() {
                Ok(spec) => spec.revision,
                Err(e) => {
                    return Err(e.to_text());
                },
            };
            let offered: u64 = match agent.current_spec() {
                Ok(spec) => spec.revision,
                Err(e) => {
                    return Err(e.to_text());
                },
            };
            if held != offered {
                return Err(
                    copy(
                        "Agent specification changes must use the attributable revision operation",
                    ),
                );
            }
        },
        None => {
            match agent.current_spec() {
                Ok(_) => {},
                Err(e) => {
                    return Err(e.to_text());
                },
            }
        },
    }
    Ok(())
}

/// Why a revision is not stored.
pub open spec fn revision_fault(
    agent_id: Seq<char>,
    spec: AgentSpec,
    existing: Option<AgentSpec>,
    facts: SpecFacts,
) -> Option<Seq<char>> {
    match spec_fault(spec, facts) {
        Some(f) => Some(fault_text(f)),
        None => match file_id_fault(agent_id) {
            Some(f) => Some(fault_text(f)),
            None => if existing is Some && !same_spec(existing->0, spec) {
                Some(
                    "agent specification revision "@ + decimal(spec.revision as nat)
                        + " is immutable"@,
                )
            } else {
                None
            },
        },
    }
}

/// What the storing of a revision comes to.
pub open spec fn spec_saving(
    agent_id: Seq<char>,
    spec: AgentSpec,
    existing: Option<AgentSpec>,
    facts: SpecFacts,
    r: Result<bool, String>,
) -> bool {
    match revision_fault(
        agent_id,
        spec,
        existing,
        facts,
    ) {
        Some(m) => r is Err && r->Err_0@ == m,
        None => r == Ok::<bool, String>(existing is None),
    }
}

/// Whether a revision is to be written: a stored revision never changes, and
/// storing the same again writes nothing.
pub fn save_agent_spec(
    agent_id: &str,
    spec: &AgentSpec,
    existing: Option<&AgentSpec>,
    facts: &SpecFacts,
) -> (r: Result<bool, String>)
    ensures
        spec_saving(
            agent_id@,
            *spec,
            match existing {
                Some(e) => Some(*e),
                None => None,
            },
            *facts,
            r,
        ),
{
    match spec.validate(facts) {
        Ok(()) => {},
        Err(e) => {
            return Err(e.to_text());
        },
    }
    match safe_id_filename(agent_id) {
        Ok(_) => {},
        Err(e) => {
            return Err(e.to_text());
        },
    }
    match existing {
        Some(e) => {
            if !specs_match(e, spec) {
                let number: String = decimal_text(spec.revision);
                return Err(
                    join3("agent specification revision ", number.as_str(), " is immutable"),
                );
            }
            Ok(false)
        },
        None => Ok(true),
    }
}

/// What becomes of a change to an agent record.
pub open spec fn updated(
    r: Result<AgentRecord, String>,
    before: AgentRecord,
    changed: AgentRecord,
    facts: SpecFacts,
    now: i128,
) -> bool {
    match agent_fault(before, facts) {
        Some(f) => r is Err && r->Err_0@ == fault_text(f),
        None => if before.spec is None || changed.spec is None {
            r is Err && r->Err_0@ == unmigrated()
        } else if !same_spec(changed.spec->0, before.spec->0) {
            r is Err && r->Err_0@ == unattributed_change()
        } else {
            match agent_fault(changed, facts) {
                Some(f) => r is Err && r->Err_0@ == fault_text(f),
                None => r == Ok::<AgentRecord, String>(AgentRecord { updated_at: now, ..changed }),
            }
        },
    }
}

fn stamp(changed: AgentRecord, facts: &SpecFacts, now: i128) -> (r: Result<AgentRecord, String>)
    ensures
        match agent_fault(changed, *facts) {
            Some(f) => r is Err && r->Err_0@ == fault_text(f),
            None => r == Ok::<AgentRecord, String>(AgentRecord { updated_at: now, ..changed }),
        },
{
    match changed.validate(facts) {
        Ok(()) => {},
        Err(e) => {
            return Err(e.to_text());
        },
    }
    let mut changed: AgentRecord = changed;
    changed.updated_at = now;
    Ok(changed)
}

fn check_record(agent: &AgentRecord, facts: &SpecFacts) -> (r: Result<(), String>)
    ensures
        match agent_fault(*agent, *facts) {
            Some(f) => r is Err && r->Err_0@ == fault_text(f),
            None => if agent.spec is None {
                r is Err && r->Err_0@ == unmigrated()
            } else {
                r is Ok
            },
        },
{
    match agent.validate(facts) {
        Ok(()) => {},
        Err(e) => {
            return Err(e.to_text());
        },
    }
    match agent.current_spec() {
        Ok(_) => Ok(()),
        Err(e) => Err(e.to_text()),
    }
}

/// Accepts a change to an agent record that leaves its specification alone.
/// `before` is the stored record, brought up to date.
pub fn update_agent(before: &AgentRecord, changed: AgentRecord, facts: &SpecFacts, now: i128) -> (r:
    Result<AgentRecord, String>)
    ensures
        updated(r, *before, changed, *facts, now),
{
    match check_record(before, facts) {
        Ok(()) => {},
        Err(m) => {
            return Err(m);
        },
    }
    let same: bool = match (before.current_spec(), changed.current_spec()) {
        (Ok(b), Ok(c)) => specs_match(c, b),
        (_, Err(e)) => {
            return Err(e.to_text());
        },
        (Err(e), _) => {
            return Err(e.to_text());
        },
    };
    if !same {
        return Err(
            copy("Agent specification changes must use the attributable revision operation"),
        );
    }
    stamp(changed, facts, now)
}

/// Changing an agent never changes its specification.
pub proof fn updates_keep_the_specification(
    r: Result<AgentRecord, String>,
    before: AgentRecord,
    changed: AgentRecord,
    facts: SpecFacts,
    now: i128,
)
    requires
        updated(r, before, changed, facts, now),
        r is Ok,
    ensures
        r->Ok_0.spec is Some,
        before.spec is Some,
        same_spec(r->Ok_0.spec->0, before.spec->0),
{
}

/// The record after its owner is claimed.
pub open spec fn owned(agent: AgentRecord, owner: String) -> AgentRecord {
    if agent.owner_principal_id is None {
        AgentRecord { owner_principal_id: Some(owner), ..agent }
    } else {
        agent
    }
}

/// What a claim of an owner comes to.
pub open spec fn owner_claiming(
    agent: Option<AgentRecord>,
    agent_id: Seq<char>,
    owner_principal_id: Seq<char>,
    facts: SpecFacts,
    now: i128,
    r: Result<Option<AgentRecord>, String>,
) -> bool {
    if trimmed(owner_principal_id).len() == 0 {
        r is Err && r->Err_0@ == "Agent owner principal id must not be empty"@
    } else {
        match file_id_fault(agent_id) {
            Some(f) => r is Err && r->Err_0@ == fault_text(f),
            None => match agent {
                None => r == Ok::<Option<AgentRecord>, String>(None),
                Some(a) => match agent_fault(a, facts) {
                    Some(f) => r is Err && r->Err_0@ == fault_text(f),
                    None => if a.spec is None {
                        r is Err && r->Err_0@ == unmigrated()
                    } else if a.owner_principal_id is Some && a.owner_principal_id->0@
                        != trimmed(owner_principal_id) {
                        r is Err && r->Err_0@ == "Agent is owned by a different service account ("@
                            + a.owner_principal_id->0@ + ")"@
                    } else {
                        exists|owner: String| #[trigger]
                            owner@ == trimmed(owner_principal_id) && (match agent_fault(
                                owned(a, owner),
                                facts,
                            ) {
                                Some(f) => r is Err && r->Err_0@ == fault_text(f),
                                None => r == Ok::<Option<AgentRecord>, String>(
                                    Some(AgentRecord { updated_at: now, ..owned(a, owner) }),
                                ),
                            })
                    },
                },
            },
        }
    }
}

/// Claims an agent that nobody owns for an account, or checks that it is owned
/// by that account.
pub fn claim_agent_owner(
    agent: Option<AgentRecord>,
    agent_id: &str,
    owner_principal_id: &str,
    facts: &SpecFacts,
    now: i128,
) -> (r: Result<Option<AgentRecord>, String>)
    ensures
        owner_claiming(
            agent,
            agent_id@,
            owner_principal_id@,
            *facts,
            now,
            r,
        ),
{
    let owner: String = trim(owner_principal_id);
    if owner.as_str().is_empty() {
        return Err(copy("Agent owner principal id must not be empty"));
    }
    match safe_id_filename(agent_id) {
        Ok(_) => {},
        Err(e) => {
            return Err(e.to_text());
        },
    }
    let mut agent: AgentRecord = match agent {
        Some(a) => a,
        None => {
            return Ok(None);
        },
    };
    match check_record(&agent, facts) {
        Ok(()) => {},
        Err(m) => {
            return Err(m);
        },
    }
    match &agent.owner_principal_id {
        Some(existing) => {
            if !str_eq(existing.as_str(), owner.as_str()) {
                return Err(
                    join3(
                        "Agent is owned by a different service account (",
                        existing.as_str(),
                        ")",
                    ),
                );
            }
        },
        None => {},
    }
    if agent.owner_principal_id.is_none() {
        agent.owner_principal_id = Some(owner.clone());
    }
    match stamp(agent, facts, now) {
        Ok(a) => Ok(Some(a)),
        Err(m) => Err(m),
    }
}

/// The record after the agent let go of this run, if it had it.
pub open spec fn released(agent: AgentRecord, run_id: String, state: AgentState) -> AgentRecord {
    if holds(agent.current_run_id, run_id@) {
        AgentRecord { current_run_id: None, last_run_id: Some(run_id), state, ..agent }
    } else {
        agent
    }
}

fn release(agent: &mut AgentRecord, run_id: &String, state: AgentState)
    ensures
        *final(agent) == released(*old(agent), *run_id, state),
{
    let held: bool = match &agent.current_run_id {
        Some(current) => str_eq(current.as_str(), run_id.as_str()),
        None => false,
    };
    if held {
        agent.current_run_id = None;
        agent.last_run_id = Some(run_id.clone());
        agent.state = state;
    }
}

/// What the end of a run comes to for its agent.
pub open spec fn deactivating(
    agent: Option<AgentRecord>,
    agent_id: Seq<char>,
    run_id: String,
    failed: bool,
    facts: SpecFacts,
    now: i128,
    r: Result<AgentRecord, String>,
) -> bool {
    match file_id_fault(agent_id) {
        Some(f) => r is Err && r->Err_0@ == fault_text(f),
        None => match agent {
            None => r is Err && r->Err_0@
                == "persistent Agent disappeared during deactivation"@,
            Some(a) => match agent_fault(a, facts) {
                Some(f) => r is Err && r->Err_0@ == fault_text(f),
                None => if a.spec is None {
                    r is Err && r->Err_0@ == unmigrated()
                } else if a.current_run_id is Some && a.current_run_id->0@ != run_id@ {
                    r is Err && r->Err_0@ == "persistent Agent is active on a different Run"@
                } else {
                    let after = released(
                        a,
                        run_id,
                        if failed {
                            AgentState::Failed
                        } else {
                            AgentState::Waiting
                        },
                    );
                    match agent_fault(after, facts) {
                        Some(f) => r is Err && r->Err_0@ == fault_text(f),
                        None => r == Ok::<AgentRecord, String>(
                            AgentRecord { updated_at: now, ..after },
                        ),
                    }
                },
            },
        },
    }
}

/// Lets an agent go of a finished run. Another active run is never disturbed.
pub fn deactivate_agent_run(
    agent: Option<AgentRecord>,
    agent_id: &str,
    run_id: &String,
    failed: bool,
    facts: &SpecFacts,
    now: i128,
) -> (r: Result<AgentRecord, String>)
    ensures
        deactivating(
            agent,
            agent_id@,
            *run_id,
            failed,
            *facts,
            now,
            r,
        ),
{
    match safe_id_filename(agent_id) {
        Ok(_) => {},
        Err(e) => {
            return Err(e.to_text());
        },
    }
    let mut agent: AgentRecord = match agent {
        Some(a) => a,
        None => {
            return Err(copy("persistent Agent disappeared during deactivation"));
        },
    };
    match check_record(&agent, facts) {
        Ok(()) => {},
        Err(m) => {
            return Err(m);
        },
    }
    let other: bool = match &agent.current_run_id {
        Some(current) => !str_eq(current.as_str(), run_id.as_str()),
        None => false,
    };
    if other {
        return Err(copy("persistent Agent is active on a different Run"));
    }
    release(
        &mut agent,
        run_id,
        if failed {
            AgentState::Failed
        } else {
            AgentState::Waiting
        },
    );
    stamp(agent, facts, now)
}

/// The state of an agent after a restart, with the run it was active on as the
/// restart found it: interrupted if the run is gone or was carried out for the
/// agent and not over, otherwise waiting.
pub open spec fn restarted_state(run: Option<RunRecord>, agent_id: Seq<char>) -> AgentState {
    match run {
        Some(r) => if !r.state.terminal() && holds(r.agent_id, agent_id) {
            AgentState::Interrupted
        } else {
            AgentState::Waiting
        },
        None => AgentState::Interrupted,
    }
}

/// The state of an agent after a restart. `run` is the run it was active on, as
/// the restart found it.
pub fn state_after_restart(run: Option<&RunRecord>, agent_id: &str) -> (s: AgentState)
    ensures
        s == restarted_state(
            match run {
                Some(r) => Some(*r),
                None => None,
            },
            agent_id@,
        ),
{
    match run {
        Some(run) => {
            let own: bool = match &run.agent_id {
                Some(id) => str_eq(id.as_str(), agent_id),
                None => false,
            };
            if !run.state.is_terminal() && own {
                AgentState::Interrupted
            } else {
                AgentState::Waiting
            }
        },
        None => AgentState::Interrupted,
    }
}

/// What a restart comes to for the agent of a run.
pub open spec fn interrupting(
    agent: AgentRecord,
    run_id: String,
    state: AgentState,
    facts: SpecFacts,
    now: i128,
    r: Result<AgentRecord, String>,
) -> bool {
    match agent_fault(agent, facts) {
        Some(f) => r is Err && r->Err_0@ == fault_text(f),
        None => if agent.spec is None {
            r is Err && r->Err_0@ == unmigrated()
        } else {
            let after = released(agent, run_id, state);
            match agent_fault(after, facts) {
                Some(f) => r is Err && r->Err_0@ == fault_text(f),
                None => r == Ok::<AgentRecord, String>(
                    AgentRecord { updated_at: now, ..after },
                ),
            }
        },
    }
}

/// Lets an agent go of a run that a restart ended.
pub fn interrupt_agent_run(
    agent: AgentRecord,
    run_id: &String,
    state: AgentState,
    facts: &SpecFacts,
    now: i128,
) -> (r: Result<AgentRecord, String>)
    ensures
        interrupting(
            agent,
            *run_id,
            state,
            *facts,
            now,
            r,
        ),
{
    match check_record(&agent, facts) {
        Ok(()) => {},
        Err(m) => {
            return Err(m);
        },
    }
    let mut agent: AgentRecord = agent;
    release(&mut agent, run_id, state);
    stamp(agent, facts, now)
}

/// A restart leaves no agent active, and every agent can be resumed.
pub proof fn restart_frees_every_agent(
    agent: AgentRecord,
    run_id: String,
    run: Option<RunRecord>,
)
    requires
        holds(agent.current_run_id, run_id@),
    ensures
        ({
            let after = released(agent, run_id, restarted_state(run, agent.agent_id@));
            &&& after.current_run_id is None
            &&& !(after.state is Active)
            &&& after.state.resumable()
            &&& after.latest_checkpoint_id == agent.latest_checkpoint_id
        }),
{
}

/// After a run is released the agent is not active on it, keeps its latest
/// checkpoint, and remembers the run.
pub proof fn releases_keep_the_checkpoint(agent: AgentRecord, run_id: String, state: AgentState)
    ensures
        !holds(released(agent, run_id, state).current_run_id, run_id@),
        released(agent, run_id, state).latest_checkpoint_id == agent.latest_checkpoint_id,
        released(agent, run_id, state).continuation_ordinal == agent.continuation_ordinal,
        holds(agent.current_run_id, run_id@) ==> holds(
            released(agent, run_id, state).last_run_id,
            run_id@,
        ),
{
}

/// Why a specification is refused, as a reader sees it.
#[verifier::opaque]
pub open spec fn spec_refusal(spec: AgentSpec, facts: SpecFacts) -> Option<Seq<char>> {
    match spec_fault(spec, facts) {
        Some(f) => Some(fault_text(f)),
        None => None,
    }
}

/// A stored revision, with what the rest of the bridge says of it.
#[derive(Debug)]
pub struct StoredSpec {
    pub spec: AgentSpec,
    pub facts: SpecFacts,
}

/// The revision that follows `current` under this number.
pub open spec fn candidate(
    next: AgentSpec,
    current: u64,
    revision: u64,
    actor: String,
    created_at: i128,
) -> AgentSpec {
    AgentSpec {
        revision,
        previous_revision: Some(current),
        created_by: actor,
        created_at,
        ..next
    }
}

/// Where the stored revision with this number stands.
pub open spec fn stored_at(stored: Seq<StoredSpec>, revision: u64, i: int) -> Option<int>
    decreases stored.len() - i,
{
    if i >= stored.len() {
        None
    } else if stored[i].spec.revision == revision {
        Some(i)
    } else {
        stored_at(stored, revision, i + 1)
    }
}

/// Where a new revision goes.
pub enum Slot {
    Refused(Seq<char>),
    /// The stored revision says the same already.
    Reused(int),
    /// Under a number that nothing is stored under.
    Free(u64),
}

/// Where a new revision goes, from this number on. A number that another
/// revision was stored under is passed over.
pub open spec fn slot(
    stored: Seq<StoredSpec>,
    facts: SpecFacts,
    next: AgentSpec,
    current: u64,
    actor: String,
    now: i128,
    r: u64,
) -> Slot
    decreases u64::MAX - r,
{
    match stored_at(stored, r, 0) {
        None => match spec_refusal(candidate(next, current, r, actor, now), facts) {
            Some(m) => Slot::Refused(m),
            None => Slot::Free(r),
        },
        Some(i) => {
            let held = stored[i].spec;
            let offered = candidate(next, current, r, actor, held.created_at);
            match spec_refusal(held, stored[i].facts) {
                Some(m) => Slot::Refused(m),
                None => match spec_refusal(offered, facts) {
                    Some(m) => Slot::Refused(m),
                    None => if same_spec(held, offered) {
                        Slot::Reused(i)
                    } else if r == u64::MAX {
                        Slot::Refused("agent specification revision counter overflowed"@)
                    } else {
                        slot(stored, facts, next, current, actor, now, (r + 1) as u64)
                    },
                },
            }
        },
    }
}

/// The agent bound to this revision.
pub open spec fn respecified(agent: AgentRecord, spec: AgentSpec, now: i128) -> AgentRecord {
    AgentRecord {
        workspace: spec.source_workspace,
        model: spec.model.selection_key,
        spec: Some(spec),
        updated_at: now,
        ..agent
    }
}

/// Why a revision is refused before its number is looked for.
pub open spec fn revise_fault(agent: AgentRecord, next: Result<AgentSpec, String>) -> Option<
    Seq<char>,
> {
    if agent.spec is None {
        Some(unmigrated())
    } else {
        match next {
            Err(m) => Some(m@),
            Ok(n) => if agent.spec->0.revision == u64::MAX {
                Some("agent specification revision counter overflowed"@)
            } else if n.source_workspace@ != agent.spec->0.source_workspace@ {
                Some("an Agent source workspace cannot change through a spec revision"@)
            } else {
                None
            },
        }
    }
}

/// An agent under a new revision, and whether the revision is to be written.
/// It is written before the agent, so that no agent names a missing revision.
#[derive(Debug)]
pub struct RevisedAgent {
    pub agent: AgentRecord,
    pub write_spec: bool,
}

/// What a revision comes to.
pub open spec fn revised(
    r: Result<RevisedAgent, String>,
    agent: AgentRecord,
    next: Result<AgentSpec, String>,
    actor: String,
    stored: Seq<StoredSpec>,
    facts: SpecFacts,
    now: i128,
) -> bool {
    match revise_fault(agent, next) {
        Some(m) => r is Err && r->Err_0@ == m,
        None => {
            let current = agent.spec->0.revision;
            match slot(stored, facts, next->Ok_0, current, actor, now, (current + 1) as u64) {
                Slot::Refused(m) => r is Err && r->Err_0@ == m,
                Slot::Reused(i) => installed(
                    r,
                    agent,
                    candidate(
                        next->Ok_0,
                        current,
                        stored[i].spec.revision,
                        actor,
                        stored[i].spec.created_at,
                    ),
                    facts,
                    false,
                    now,
                ),
                Slot::Free(n) => installed(
                    r,
                    agent,
                    candidate(next->Ok_0, current, n, actor, now),
                    facts,
                    true,
                    now,
                ),
            }
        },
    }
}

/// The agent is bound to this revision, unless the record would be invalid.
pub open spec fn installed(
    r: Result<RevisedAgent, String>,
    agent: AgentRecord,
    spec: AgentSpec,
    facts: SpecFacts,
    write_spec: bool,
    now: i128,
) -> bool {
    match agent_fault(respecified(agent, spec, now), facts) {
        Some(f) => r is Err && r->Err_0@ == fault_text(f),
        None => r == Ok::<RevisedAgent, String>(
            RevisedAgent { agent: respecified(agent, spec, now), write_spec },
        ),
    }
}

fn find_stored(stored: &Vec<StoredSpec>, revision: u64) -> (r: Option<usize>)
    ensures
        match r {
            Some(i) => i < stored@.len() && stored_at(stored@, revision, 0) == Some(i as int)
                && stored@[i as int].spec.revision == revision,
            None => stored_at(stored@, revision, 0) is None,
        },
{
    let mut i: usize = 0;
    while i < stored.len()
        invariant
            i <= stored@.len(),
            stored_at(stored@, revision, 0) == stored_at(stored@, revision, i as int),
        decreases stored.len() - i,
    {
        if stored[i].spec.revision == revision {
            return Some(i);
        }
        i = i + 1;
    }
    None
}

fn check_spec(spec: &AgentSpec, facts: &SpecFacts) -> (r: Result<(), String>)
    ensures
        match spec_refusal(*spec, *facts) {
            Some(m) => r is Err && r->Err_0@ == m,
            None => r is Ok,
        },
{
    reveal(spec_refusal);
    match spec.validate(facts) {
        Ok(()) => Ok(()),
        Err(e) => Err(e.to_text()),
    }
}

fn choose_slot(
    stored: &Vec<StoredSpec>,
    facts: &SpecFacts,
    next: AgentSpec,
    current: u64,
    actor: &String,
    now: i128,
) -> (r: Result<(AgentSpec, bool), String>)
    requires
        current < u64::MAX,
    ensures
        match slot(stored@, *facts, next, current, *actor, now, (current + 1) as u64) {
            Slot::Refused(m) => r is Err && r->Err_0@ == m,
            Slot::Reused(i) => r == Ok::<(AgentSpec, bool), String>(
                (
                    candidate(
                        next,
                        current,
                        stored@[i].spec.revision,
                        *actor,
                        stored@[i].spec.created_at,
                    ),
                    false,
                ),
            ),
            Slot::Free(n) => r == Ok::<(AgentSpec, bool), String>(
                (candidate(next, current, n, *actor, now), true),
            ),
        },
{
    let ghost want = slot(stored@, *facts, next, current, *actor, now, (current + 1) as u64);
    let mut spec: AgentSpec = next;
    let mut revision: u64 = current + 1;
    loop
        invariant
            spec == (AgentSpec {
                revision: spec.revision,
                previous_revision: spec.previous_revision,
                created_by: spec.created_by,
                created_at: spec.created_at,
                ..next
            }),
            want == slot(stored@, *facts, next, current, *actor, now, (current + 1) as u64),
            want == slot(stored@, *facts, next, current, *actor, now, revision),
        decreases u64::MAX - revision,
    {
        spec.revision = revision;
        spec.previous_revision = Some(current);
        spec.created_by = actor.clone();
        match find_stored(stored, revision) {
            Some(i) => {
                match check_spec(&stored[i].spec, &stored[i].facts) {
                    Ok(()) => {},
                    Err(m) => {
                        return Err(m);
                    },
                }
                spec.created_at = stored[i].spec.created_at;
                match check_spec(&spec, facts) {
                    Ok(()) => {},
                    Err(m) => {
                        return Err(m);
                    },
                }
                if specs_match(&stored[i].spec, &spec) {
                    return Ok((spec, false));
                }
                if revision == u64::MAX {
                    return Err(copy("agent specification revision counter overflowed"));
                }
                revision = revision + 1;
            },
            None => {
                spec.created_at = now;
                match check_spec(&spec, facts) {
                    Ok(()) => {},
                    Err(m) => {
                        return Err(m);
                    },
                }
                return Ok((spec, true));
            },
        }
    }
}

/// Gives an agent a new, attributed revision. `next` is the changed
/// specification, or why there is none; `stored` are the revisions on record.
pub fn revise_agent_spec(
    agent: AgentRecord,
    next: Result<AgentSpec, String>,
    actor: &String,
    stored: &Vec<StoredSpec>,
    facts: &SpecFacts,
    now: i128,
) -> (r: Result<RevisedAgent, String>)
    ensures
        revised(r, agent, next, *actor, stored@, *facts, now),
{
    let next: AgentSpec = match agent.current_spec() {
        Err(e) => {
            return Err(e.to_text());
        },
        Ok(current) => match next {
            Err(m) => {
                return Err(m);
            },
            Ok(n) => {
                if current.revision == u64::MAX {
                    return Err(copy("agent specification revision counter overflowed"));
                }
                if !str_eq(n.source_workspace.as_str(), current.source_workspace.as_str()) {
                    return Err(
                        copy("an Agent source workspace cannot change through a spec revision"),
                    );
                }
                n
            },
        },
    };
    let current: u64 = match &agent.spec {
        Some(spec) => spec.revision,
        None => 0,
    };
    let (spec, write_spec): (AgentSpec, bool) = match choose_slot(
        stored,
        facts,
        next,
        current,
        actor,
        now,
    ) {
        Ok(found) => found,
        Err(m) => {
            return Err(m);
        },
    };
    let mut agent: AgentRecord = agent;
    agent.workspace = spec.source_workspace.clone();
    agent.model = spec.model.selection_key.clone();
    agent.spec = Some(spec);
    agent.updated_at = now;
    match agent.validate(facts) {
        Ok(()) => Ok(RevisedAgent { agent, write_spec }),
        Err(e) => Err(e.to_text()),
    }
}

proof fn slots_are_later(
    stored: Seq<StoredSpec>,
    facts: SpecFacts,
    next: AgentSpec,
    current: u64,
    actor: String,
    now: i128,
    r: u64,
)
    ensures
        match slot(stored, facts, next, current, actor, now, r) {
            Slot::Refused(_) => true,
            Slot::Reused(i) => {
                &&& 0 <= i < stored.len()
                &&& stored[i].spec.revision >= r
                &&& same_spec(
                    stored[i].spec,
                    candidate(
                        next,
                        current,
                        stored[i].spec.revision,
                        actor,
                        stored[i].spec.created_at,
                    ),
                )
            },
            Slot::Free(n) => n >= r && stored_at(stored, n, 0) is None,
        },
    decreases u64::MAX - r,
{
    stored_position(stored, r, 0);
    match stored_at(stored, r, 0) {
        None => {},
        Some(i) => {
            let held = stored[i].spec;
            let offered = candidate(next, current, r, actor, held.created_at);
            if !same_spec(held, offered) && r < u64::MAX {
                slots_are_later(stored, facts, next, current, actor, now, (r + 1) as u64);
            }
        },
    }
}

proof fn stored_position(stored: Seq<StoredSpec>, revision: u64, i: int)
    requires
        0 <= i,
    ensures
        match stored_at(stored, revision, i) {
            Some(k) => i <= k < stored.len() && stored[k].spec.revision == revision,
            None => forall|k: int|
                i <= k < stored.len() ==> (#[trigger] stored[k]).spec.revision != revision,
        },
    decreases stored.len() - i,
{
    if i < stored.len() && stored[i].spec.revision != revision {
        stored_position(stored, revision, i + 1);
    }
}

/// Revisions are append-only and attributed: a new one has a later number, names
/// the one before it and who made it, keeps the workspace, and never stands in
/// the place of a stored one that says something else.
pub proof fn revisions_are_append_only(
    r: Result<RevisedAgent, String>,
    agent: AgentRecord,
    next: Result<AgentSpec, String>,
    actor: String,
    stored: Seq<StoredSpec>,
    facts: SpecFacts,
    now: i128,
)
    requires
        revised(r, agent, next, actor, stored, facts, now),
        r is Ok,
    ensures
        agent.spec is Some,
        r->Ok_0.agent.spec is Some,
        r->Ok_0.agent.spec->0.revision > agent.spec->0.revision,
        r->Ok_0.agent.spec->0.previous_revision == Some(agent.spec->0.revision),
        r->Ok_0.agent.spec->0.created_by == actor,
        r->Ok_0.agent.spec->0.source_workspace@ == agent.spec->0.source_workspace@,
        r->Ok_0.write_spec ==> forall|k: int|
            0 <= k < stored.len() ==> (#[trigger] stored[k]).spec.revision
                != r->Ok_0.agent.spec->0.revision,
        !r->Ok_0.write_spec ==> exists|k: int|
            0 <= k < stored.len() && same_spec(
                (#[trigger] stored[k]).spec,
                r->Ok_0.agent.spec->0,
            ),
{
    let current = agent.spec->0.revision;
    slots_are_later(stored, facts, next->Ok_0, current, actor, now, (current + 1) as u64);
    match slot(stored, facts, next->Ok_0, current, actor, now, (current + 1) as u64) {
        Slot::Free(n) => {
            stored_position(stored, n, 0);
        },
        _ => {},
    }
}

} // verus!
