//! Decisions about who does which work, and who may take part in them.

use crate::agent::{has_id, known_lanes, AgentRecord};
use crate::checkpoint::{same_workspace, workspaces_match};
use crate::error::{
    conflict, conflict_fault, first_fault, forbidden, forbidden_fault, invalid, invalid_fault,
    judged, refused, Fault, OrchError,
};
use crate::ledger::{missing_item, require_work_revision, revision_fault};
use crate::run::holds;
use crate::text::{str_eq, trim, trimmed};
use crate::workload::{
    bumped, item_fault, AssignmentStatus, BlockProvenance, WorkItem, WorkState,
    WORKLOAD_SCHEMA_VERSION,
};
use vstd::prelude::*;
use vstd::string::*;

verus! {

/// An agent that a request names: what is on record of it, and what its
/// workspace resolves to on disk.
#[derive(Debug)]
pub struct NamedAgent {
    pub id: String,
    pub record: Option<AgentRecord>,
    pub path: Option<String>,
}

/// Why an agent may not take part in a session's workspace.
pub open spec fn scope_fault(
    agent: NamedAgent,
    session_id: u128,
    workspace: Seq<char>,
    workspace_path: Option<String>,
) -> Option<Fault> {
    match agent.record {
        None => Some(invalid_fault("unknown agent identity"@)),
        Some(record) => if !known_lanes(record).contains(session_id) || !same_workspace(
            record.workspace@,
            workspace,
            agent.path,
            workspace_path,
        ) {
            Some(forbidden_fault("agent is outside the requested session workspace"@))
        } else if !record.state.acting() {
            Some(conflict_fault("agent identity is inactive"@))
        } else {
            None
        },
    }
}

/// Refuses agents that are unknown, outside the session's workspace or no
/// longer acting.
pub fn require_agent_in_scope(
    agent: &NamedAgent,
    session_id: u128,
    workspace: &str,
    workspace_path: &Option<String>,
) -> (r: Result<(), OrchError>)
    ensures
        judged(r, scope_fault(*agent, session_id, workspace@, *workspace_path)),
{
    match &agent.record {
        None => Err(invalid("unknown agent identity")),
        Some(record) => {
            let lanes: Vec<u128> = record.known_lane_ids();
            if !has_id(&lanes, session_id) || !workspaces_match(
                record.workspace.as_str(),
                workspace,
                &agent.path,
                workspace_path,
            ) {
                return Err(forbidden("agent is outside the requested session workspace"));
            }
            if !record.state.is_active_identity() {
                return Err(conflict("agent identity is inactive"));
            }
            Ok(())
        },
    }
}

/// The assigned agent is the actor itself.
pub open spec fn assigns_itself(actor: Option<&NamedAgent>, assigned: Option<&NamedAgent>) -> bool {
    &&& actor is Some
    &&& assigned is Some
    &&& actor->0.record is Some
    &&& actor->0.record->0.agent_id@ == assigned->0.id@
}

/// Why the agents of a decision are refused.
pub open spec fn agents_fault(
    item: WorkItem,
    actor: Option<&NamedAgent>,
    assigned: Option<&NamedAgent>,
    workspace_path: Option<String>,
) -> Option<Fault> {
    first_fault(
        match actor {
            None => None,
            Some(a) => scope_fault(*a, item.session_id, item.workspace@, workspace_path),
        },
        if assigned is None || assigns_itself(actor, assigned) {
            None
        } else {
            scope_fault(*assigned->0, item.session_id, item.workspace@, workspace_path)
        },
    )
}

/// The specification revision of an agent on record.
pub open spec fn revision_of(agent: NamedAgent) -> Option<u64> {
    match agent.record {
        None => None,
        Some(record) => match record.spec {
            None => None,
            Some(spec) => Some(spec.revision),
        },
    }
}

/// The revision a decision was made under: the actor's, else the assignee's.
pub open spec fn deciding_revision(
    actor: Option<&NamedAgent>,
    assigned: Option<&NamedAgent>,
) -> Option<u64> {
    match actor {
        Some(a) => revision_of(*a),
        None => match assigned {
            Some(a) => revision_of(*a),
            None => None,
        },
    }
}

fn spec_revision(agent: &NamedAgent) -> (r: Option<u64>)
    ensures
        r == revision_of(*agent),
{
    match &agent.record {
        None => None,
        Some(record) => match &record.spec {
            None => None,
            Some(spec) => Some(spec.revision),
        },
    }
}

/// Checks the agents of a decision, and yields the actor's identity and the
/// specification revision the decision is made under.
pub fn resolve_assignment_agents(
    item: &WorkItem,
    actor: Option<&NamedAgent>,
    assigned: Option<&NamedAgent>,
    workspace_path: &Option<String>,
) -> (r: Result<(Option<String>, Option<u64>), OrchError>)
    ensures
        match agents_fault(*item, actor, assigned, *workspace_path) {
            Some(f) => refused(r, f),
            None => r is Ok && r->Ok_0.1 == deciding_revision(actor, assigned) && r->Ok_0.0 == (
            match actor {
                Some(a) => Some(a.record->0.agent_id),
                None => None,
            }),
        },
{
    let mut actor_id: Option<String> = None;
    match actor {
        Some(a) => {
            require_agent_in_scope(a, item.session_id, item.workspace.as_str(), workspace_path)?;
            match &a.record {
                Some(record) => {
                    actor_id = Some(record.agent_id.clone());
                },
                None => {},
            }
        },
        None => {},
    }
    match assigned {
        Some(b) => {
            let itself: bool = match &actor_id {
                Some(id) => str_eq(id.as_str(), b.id.as_str()),
                None => false,
            };
            if !itself {
                require_agent_in_scope(
                    b,
                    item.session_id,
                    item.workspace.as_str(),
                    workspace_path,
                )?;
            }
        },
        None => {},
    }
    let revision: Option<u64> = match actor {
        Some(a) => spec_revision(a),
        None => match assigned {
            Some(b) => spec_revision(b),
            None => None,
        },
    };
    Ok((actor_id, revision))
}

#[derive(Debug, Clone, Copy, PartialEq, Eq, Structural)]
pub enum WorkDecisionAction {
    Offer,
    Accept,
    Decline,
    Reassign,
    Reprioritize,
    Block,
    RequestReview,
    AuthorizeExecution,
}

/// The record of one decision.
#[derive(Debug, Clone)]
pub struct WorkDecision {
    pub schema_version: u32,
    pub decision_id: String,
    pub work_id: String,
    pub action: WorkDecisionAction,
    pub actor_id: String,
    pub actor_agent_id: Option<String>,
    pub assigned_agent_id: Option<String>,
    pub policy_revision: Option<u64>,
    pub work_revision: Option<u64>,
    pub reason: String,
    pub created_at: i128,
}

/// A request for a decision. `priority` counts for a new priority alone.
#[derive(Debug)]
pub struct AssignmentRequest<'a> {
    pub action: WorkDecisionAction,
    pub decision_id: String,
    pub actor_id: String,
    pub actor: Option<&'a NamedAgent>,
    pub assigned: Option<&'a NamedAgent>,
    pub priority: i32,
    pub reason: String,
    pub expected_revision: Option<u64>,
}

/// The name of the agent that work is assigned to by the request.
pub open spec fn assignee(request: AssignmentRequest) -> Seq<char> {
    match request.assigned {
        Some(a) => a.id@,
        None => Seq::empty(),
    }
}

/// An offer to the agent the request names is pending.
pub open spec fn offered_to(item: WorkItem, agent: Seq<char>) -> bool {
    item.assignment_status is Offered && holds(item.assigned_agent_id, agent)
}

/// Why the state of the item does not allow the decision.
pub open spec fn change_fault(item: WorkItem, request: AssignmentRequest) -> Option<Fault> {
    match request.action {
        WorkDecisionAction::Offer => if item.state.terminal() {
            Some(conflict_fault("terminal work items cannot be offered"@))
        } else {
            None
        },
        WorkDecisionAction::Accept => if !offered_to(item, assignee(request)) {
            Some(conflict_fault("work offer is not pending for this worker"@))
        } else {
            None
        },
        WorkDecisionAction::Decline => if !offered_to(item, assignee(request)) {
            Some(conflict_fault("work offer is not pending for this worker"@))
        } else {
            None
        },
        WorkDecisionAction::Reassign => if item.state.terminal() || item.state is Leased
            || item.state is Running {
            Some(conflict_fault("active or terminal work cannot be reassigned"@))
        } else {
            None
        },
        WorkDecisionAction::Reprioritize => if item.state.terminal() {
            Some(conflict_fault("terminal work cannot be reprioritized"@))
        } else {
            None
        },
        WorkDecisionAction::Block => if item.state.terminal() {
            Some(conflict_fault("terminal work cannot be blocked"@))
        } else if item.state is Leased || item.state is Running {
            Some(conflict_fault("leased work cannot be blocked"@))
        } else {
            None
        },
        WorkDecisionAction::RequestReview => if !(item.state is Succeeded
            || item.state is AwaitingApproval || item.state is Review) {
            Some(
                conflict_fault(
                    "review can be requested only for completed or approval-gated work"@,
                ),
            )
        } else {
            None
        },
        WorkDecisionAction::AuthorizeExecution => None,
    }
}

/// `after` is `before` changed by the decision alone.
pub open spec fn changed(before: WorkItem, after: WorkItem, request: AssignmentRequest) -> bool {
    match request.action {
        WorkDecisionAction::Offer => {
            &&& holds(after.assigned_agent_id, assignee(request))
            &&& after == (WorkItem {
                assigned_agent_id: after.assigned_agent_id,
                assignment_status: AssignmentStatus::Offered,
                ..before
            })
        },
        WorkDecisionAction::Accept => after == (WorkItem {
            assignment_status: AssignmentStatus::Accepted,
            ..before
        }),
        WorkDecisionAction::Decline => after == (WorkItem {
            assigned_agent_id: None,
            assignment_status: AssignmentStatus::Declined,
            ..before
        }),
        WorkDecisionAction::Reassign => {
            &&& holds(after.assigned_agent_id, assignee(request))
            &&& after == (WorkItem {
                assigned_agent_id: after.assigned_agent_id,
                assignment_status: AssignmentStatus::Accepted,
                ..before
            })
        },
        WorkDecisionAction::Reprioritize => after == (WorkItem {
            priority: request.priority,
            ..before
        }),
        WorkDecisionAction::Block => {
            &&& holds(after.blocked_reason, request.reason@)
            &&& after == (WorkItem {
                state: WorkState::Blocked,
                blocked_reason: after.blocked_reason,
                block_provenance: Some(BlockProvenance::Manual),
                ..before
            })
        },
        WorkDecisionAction::RequestReview => after == (WorkItem {
            state: WorkState::Review,
            ..before
        }),
        WorkDecisionAction::AuthorizeExecution => after == before,
    }
}

/// Why a decision is refused before anything changes.
pub open spec fn decision_fault(
    item: Option<WorkItem>,
    request: AssignmentRequest,
    workspace_path: Option<String>,
) -> Option<Fault> {
    if trimmed(request.reason@).len() == 0 {
        Some(invalid_fault("decision reason is required"@))
    } else {
        match item {
            None => Some(missing_item()),
            Some(i) => first_fault(
                revision_fault(i, request.expected_revision),
                first_fault(
                    agents_fault(i, request.actor, request.assigned, workspace_path),
                    change_fault(i, request),
                ),
            ),
        }
    }
}

/// `d` records the decision that made `mid` of the item it was about.
pub open spec fn records(
    d: WorkDecision,
    mid: WorkItem,
    request: AssignmentRequest,
    now: i128,
) -> bool {
    &&& d.schema_version == WORKLOAD_SCHEMA_VERSION
    &&& d.decision_id == request.decision_id
    &&& d.work_id@ == mid.work_id@
    &&& d.action == request.action
    &&& d.actor_id == request.actor_id
    &&& d.actor_agent_id == (match request.actor {
        Some(a) => Some(a.record->0.agent_id),
        None => None,
    })
    &&& match request.assigned {
        Some(a) => holds(d.assigned_agent_id, a.id@),
        None => d.assigned_agent_id == mid.assigned_agent_id,
    }
    &&& d.policy_revision == deciding_revision(request.actor, request.assigned)
    &&& d.work_revision == Some(mid.revision)
    &&& d.reason == request.reason
    &&& d.created_at == now
}

/// `after` and `d` are what the decision leaves: the changed item, with the
/// decision named and its revision raised, and the record of the decision.
pub open spec fn decided(
    before: WorkItem,
    after: WorkItem,
    d: WorkDecision,
    request: AssignmentRequest,
    now: i128,
) -> bool {
    exists|mid: WorkItem|
        {
            &&& #[trigger] changed(before, mid, request)
            &&& records(d, mid, request, now)
            &&& after == bumped(
                WorkItem { last_decision_id: Some(request.decision_id), ..mid },
                now,
            )
        }
}

fn apply_change(item: &mut WorkItem, request: &AssignmentRequest) -> (r: Result<(), OrchError>)
    requires
        request.action is Offer || request.action is Reassign || request.action is Accept
            || request.action is Decline ==> request.assigned is Some,
    ensures
        judged(r, change_fault(*old(item), *request)),
        r is Ok ==> changed(*old(item), *final(item), *request),
{
    let pending: bool = match (&request.assigned, &item.assigned_agent_id) {
        (Some(a), Some(id)) => item.assignment_status == AssignmentStatus::Offered && str_eq(
            id.as_str(),
            a.id.as_str(),
        ),
        _ => false,
    };
    let name: String = match &request.assigned {
        Some(a) => a.id.clone(),
        None => String::new(),
    };
    match request.action {
        WorkDecisionAction::Offer => {
            if item.state.is_terminal() {
                return Err(conflict("terminal work items cannot be offered"));
            }
            item.assigned_agent_id = Some(name);
            item.assignment_status = AssignmentStatus::Offered;
        },
        WorkDecisionAction::Accept => {
            if !pending {
                return Err(conflict("work offer is not pending for this worker"));
            }
            item.assignment_status = AssignmentStatus::Accepted;
        },
        WorkDecisionAction::Decline => {
            if !pending {
                return Err(conflict("work offer is not pending for this worker"));
            }
            item.assigned_agent_id = None;
            item.assignment_status = AssignmentStatus::Declined;
        },
        WorkDecisionAction::Reassign => {
            if item.state.is_terminal() || item.state == WorkState::Leased || item.state
                == WorkState::Running {
                return Err(conflict("active or terminal work cannot be reassigned"));
            }
            item.assigned_agent_id = Some(name);
            item.assignment_status = AssignmentStatus::Accepted;
        },
        WorkDecisionAction::Reprioritize => {
            if item.state.is_terminal() {
                return Err(conflict("terminal work cannot be reprioritized"));
            }
            item.priority = request.priority;
        },
        WorkDecisionAction::Block => {
            if item.state.is_terminal() {
                return Err(conflict("terminal work cannot be blocked"));
            }
            if item.state == WorkState::Leased || item.state == WorkState::Running {
                return Err(conflict("leased work cannot be blocked"));
            }
            item.state = WorkState::Blocked;
            item.blocked_reason = Some(request.reason.clone());
            item.block_provenance = Some(BlockProvenance::Manual);
        },
        WorkDecisionAction::RequestReview => {
            if !(item.state == WorkState::Succeeded || item.state == WorkState::AwaitingApproval
                || item.state == WorkState::Review) {
                return Err(
                    conflict("review can be requested only for completed or approval-gated work"),
                );
            }
            item.state = WorkState::Review;
        },
        WorkDecisionAction::AuthorizeExecution => {},
    }
    Ok(())
}

/// `r` answers a request for a decision: it is refused, or the item is changed
/// and the decision recorded.
pub open spec fn answers(
    r: Result<(WorkItem, WorkDecision), OrchError>,
    item: Option<WorkItem>,
    request: AssignmentRequest,
    workspace_path: Option<String>,
    now: i128,
) -> bool {
    match decision_fault(item, request, workspace_path) {
        Some(f) => refused(r, f),
        None => exists|after: WorkItem, d: WorkDecision| #[trigger]
            decided(item->0, after, d, request, now) && (match item_fault(after) {
                Some(f) => refused(r, f),
                None => r == Ok::<(WorkItem, WorkDecision), OrchError>((after, d)),
            }),
    }
}

/// Decides about the assignment of work. Offers, acceptances, refusals and
/// reassignments name the agent they are about.
pub fn mutate_assignment(
    item: Option<WorkItem>,
    request: &AssignmentRequest,
    workspace_path: &Option<String>,
    now: i128,
) -> (r: Result<(WorkItem, WorkDecision), OrchError>)
    requires
        request.action is Offer || request.action is Reassign || request.action is Accept
            || request.action is Decline ==> request.assigned is Some,
    ensures
        answers(r, item, *request, *workspace_path, now),
{
    let t: String = trim(request.reason.as_str());
    if t.as_str().is_empty() {
        return Err(invalid("decision reason is required"));
    }
    let mut i: WorkItem = match item {
        Some(i) => i,
        None => {
            return Err(conflict("work item not found"));
        },
    };
    let ghost before = i;
    require_work_revision(&i, request.expected_revision)?;
    let agents: (Option<String>, Option<u64>) = resolve_assignment_agents(
        &i,
        request.actor,
        request.assigned,
        workspace_path,
    )?;
    apply_change(&mut i, request)?;
    let ghost mid = i;
    let decision = WorkDecision {
        schema_version: WORKLOAD_SCHEMA_VERSION,
        decision_id: request.decision_id.clone(),
        work_id: i.work_id.clone(),
        action: request.action,
        actor_id: request.actor_id.clone(),
        actor_agent_id: agents.0,
        assigned_agent_id: match &request.assigned {
            Some(a) => Some(a.id.clone()),
            None => match &i.assigned_agent_id {
                Some(id) => Some(id.clone()),
                None => None,
            },
        },
        policy_revision: agents.1,
        work_revision: Some(i.revision),
        reason: request.reason.clone(),
        created_at: now,
    };
    i.last_decision_id = Some(request.decision_id.clone());
    i.bump(now);
    proof {
        assert(changed(before, mid, *request));
        assert(records(decision, mid, *request, now));
        assert(decided(before, i, decision, *request, now));
    }
    i.validate()?;
    Ok((i, decision))
}

/// Who decides, and why. `expected_revision` is the revision of the item that
/// they have seen.
#[derive(Debug)]
pub struct DecisionNote {
    pub decision_id: String,
    pub actor_id: String,
    pub reason: String,
    pub expected_revision: Option<u64>,
}

impl DecisionNote {
    /// The request that this note makes for an action.
    pub open spec fn requests<'a>(
        self,
        action: WorkDecisionAction,
        actor: Option<&'a NamedAgent>,
        assigned: Option<&'a NamedAgent>,
        priority: i32,
    ) -> AssignmentRequest<'a> {
        AssignmentRequest {
            action,
            decision_id: self.decision_id,
            actor_id: self.actor_id,
            actor,
            assigned,
            priority,
            reason: self.reason,
            expected_revision: self.expected_revision,
        }
    }

    fn request<'a>(
        self,
        action: WorkDecisionAction,
        actor: Option<&'a NamedAgent>,
        assigned: Option<&'a NamedAgent>,
        priority: i32,
    ) -> (r: AssignmentRequest<'a>)
        ensures
            r == self.requests(action, actor, assigned, priority),
    {
        AssignmentRequest {
            action,
            decision_id: self.decision_id,
            actor_id: self.actor_id,
            actor,
            assigned,
            priority,
            reason: self.reason,
            expected_revision: self.expected_revision,
        }
    }
}

/// What an offer comes to.
pub open spec fn offering(
    r: Result<(WorkItem, WorkDecision), OrchError>,
    item: Option<WorkItem>,
    agent: NamedAgent,
    actor: Option<&NamedAgent>,
    note: DecisionNote,
    workspace_path: Option<String>,
    now: i128,
) -> bool {
    answers(
        r,
        item,
        note.requests(WorkDecisionAction::Offer, actor, Some(&agent), 0),
        workspace_path,
        now,
    )
}

/// Offers work to an agent.
pub fn offer_work(
    item: Option<WorkItem>,
    agent: &NamedAgent,
    actor: Option<&NamedAgent>,
    note: DecisionNote,
    workspace_path: &Option<String>,
    now: i128,
) -> (r: Result<(WorkItem, WorkDecision), OrchError>)
    ensures
        offering(
            r,
            item,
            *agent,
            actor,
            note,
            *workspace_path,
            now,
        ),
{
    let request = note.request(WorkDecisionAction::Offer, actor, Some(agent), 0);
    mutate_assignment(item, &request, workspace_path, now)
}

/// What it comes to that the offered agent accepts.
pub open spec fn accepting(
    r: Result<(WorkItem, WorkDecision), OrchError>,
    item: Option<WorkItem>,
    agent: NamedAgent,
    note: DecisionNote,
    workspace_path: Option<String>,
    now: i128,
) -> bool {
    answers(
        r,
        item,
        note.requests(WorkDecisionAction::Accept, Some(&agent), Some(&agent), 0),
        workspace_path,
        now,
    )
}

/// Accepts work on behalf of the agent it is offered to. That agent is the actor.
pub fn accept_work(
    item: Option<WorkItem>,
    agent: &NamedAgent,
    note: DecisionNote,
    workspace_path: &Option<String>,
    now: i128,
) -> (r: Result<(WorkItem, WorkDecision), OrchError>)
    ensures
        accepting(
            r,
            item,
            *agent,
            note,
            *workspace_path,
            now,
        ),
{
    let request = note.request(WorkDecisionAction::Accept, Some(agent), Some(agent), 0);
    mutate_assignment(item, &request, workspace_path, now)
}

/// What it comes to that the offered agent declines.
pub open spec fn declining(
    r: Result<(WorkItem, WorkDecision), OrchError>,
    item: Option<WorkItem>,
    agent: NamedAgent,
    note: DecisionNote,
    workspace_path: Option<String>,
    now: i128,
) -> bool {
    answers(
        r,
        item,
        note.requests(WorkDecisionAction::Decline, Some(&agent), Some(&agent), 0),
        workspace_path,
        now,
    )
}

/// Declines work on behalf of the agent it is offered to. That agent is the actor.
pub fn decline_work(
    item: Option<WorkItem>,
    agent: &NamedAgent,
    note: DecisionNote,
    workspace_path: &Option<String>,
    now: i128,
) -> (r: Result<(WorkItem, WorkDecision), OrchError>)
    ensures
        declining(
            r,
            item,
            *agent,
            note,
            *workspace_path,
            now,
        ),
{
    let request = note.request(WorkDecisionAction::Decline, Some(agent), Some(agent), 0);
    mutate_assignment(item, &request, workspace_path, now)
}

/// What it comes to that work is given to another agent.
pub open spec fn reassigning(
    r: Result<(WorkItem, WorkDecision), OrchError>,
    item: Option<WorkItem>,
    agent: NamedAgent,
    actor: Option<&NamedAgent>,
    note: DecisionNote,
    workspace_path: Option<String>,
    now: i128,
) -> bool {
    answers(
        r,
        item,
        note.requests(WorkDecisionAction::Reassign, actor, Some(&agent), 0),
        workspace_path,
        now,
    )
}

/// Gives work to another agent, who need not accept it.
pub fn reassign_work(
    item: Option<WorkItem>,
    agent: &NamedAgent,
    actor: Option<&NamedAgent>,
    note: DecisionNote,
    workspace_path: &Option<String>,
    now: i128,
) -> (r: Result<(WorkItem, WorkDecision), OrchError>)
    ensures
        reassigning(
            r,
            item,
            *agent,
            actor,
            note,
            *workspace_path,
            now,
        ),
{
    let request = note.request(WorkDecisionAction::Reassign, actor, Some(agent), 0);
    mutate_assignment(item, &request, workspace_path, now)
}

/// What another priority comes to.
pub open spec fn reprioritizing(
    r: Result<(WorkItem, WorkDecision), OrchError>,
    item: Option<WorkItem>,
    priority: i32,
    note: DecisionNote,
    workspace_path: Option<String>,
    now: i128,
) -> bool {
    answers(
        r,
        item,
        note.requests(WorkDecisionAction::Reprioritize, None, None, priority),
        workspace_path,
        now,
    )
}

/// Gives work another priority.
pub fn reprioritize_work(
    item: Option<WorkItem>,
    priority: i32,
    note: DecisionNote,
    workspace_path: &Option<String>,
    now: i128,
) -> (r: Result<(WorkItem, WorkDecision), OrchError>)
    ensures
        reprioritizing(
            r,
            item,
            priority,
            note,
            *workspace_path,
            now,
        ),
{
    let request = note.request(WorkDecisionAction::Reprioritize, None, None, priority);
    mutate_assignment(item, &request, workspace_path, now)
}

/// What a block by hand comes to.
pub open spec fn blocking(
    r: Result<(WorkItem, WorkDecision), OrchError>,
    item: Option<WorkItem>,
    note: DecisionNote,
    workspace_path: Option<String>,
    now: i128,
) -> bool {
    answers(
        r,
        item,
        note.requests(WorkDecisionAction::Block, None, None, 0),
        workspace_path,
        now,
    )
}

/// Blocks work by hand, for a reason.
pub fn block_work(
    item: Option<WorkItem>,
    note: DecisionNote,
    workspace_path: &Option<String>,
    now: i128,
) -> (r: Result<(WorkItem, WorkDecision), OrchError>)
    ensures
        blocking(
            r,
            item,
            note,
            *workspace_path,
            now,
        ),
{
    let request = note.request(WorkDecisionAction::Block, None, None, 0);
    mutate_assignment(item, &request, workspace_path, now)
}

/// What a request for review comes to.
pub open spec fn requesting_review(
    r: Result<(WorkItem, WorkDecision), OrchError>,
    item: Option<WorkItem>,
    note: DecisionNote,
    workspace_path: Option<String>,
    now: i128,
) -> bool {
    answers(
        r,
        item,
        note.requests(WorkDecisionAction::RequestReview, None, None, 0),
        workspace_path,
        now,
    )
}

/// Asks for a review of work that is done or waits for approval.
pub fn request_work_review(
    item: Option<WorkItem>,
    note: DecisionNote,
    workspace_path: &Option<String>,
    now: i128,
) -> (r: Result<(WorkItem, WorkDecision), OrchError>)
    ensures
        requesting_review(
            r,
            item,
            note,
            *workspace_path,
            now,
        ),
{
    let request = note.request(WorkDecisionAction::RequestReview, None, None, 0);
    mutate_assignment(item, &request, workspace_path, now)
}

/// What a permit to carry work out comes to.
pub open spec fn authorizing_execution(
    r: Result<(WorkItem, WorkDecision), OrchError>,
    item: Option<WorkItem>,
    actor: Option<&NamedAgent>,
    note: DecisionNote,
    workspace_path: Option<String>,
    now: i128,
) -> bool {
    answers(
        r,
        item,
        note.requests(WorkDecisionAction::AuthorizeExecution, actor, None, 0),
        workspace_path,
        now,
    )
}

/// Records that work may be carried out. The item itself does not change.
pub fn authorize_work_execution(
    item: Option<WorkItem>,
    actor: Option<&NamedAgent>,
    note: DecisionNote,
    workspace_path: &Option<String>,
    now: i128,
) -> (r: Result<(WorkItem, WorkDecision), OrchError>)
    ensures
        authorizing_execution(
            r,
            item,
            actor,
            note,
            *workspace_path,
            now,
        ),
{
    let request = note.request(WorkDecisionAction::AuthorizeExecution, actor, None, 0);
    mutate_assignment(item, &request, workspace_path, now)
}

/// Work is accepted by the agent it was offered to alone, and in that agent's
/// name, while the agent acts in the session's workspace.
pub proof fn offers_are_accepted_by_their_agent(
    r: Result<(WorkItem, WorkDecision), OrchError>,
    item: Option<WorkItem>,
    agent: &NamedAgent,
    note: DecisionNote,
    workspace_path: Option<String>,
    now: i128,
)
    requires
        answers(
            r,
            item,
            note.requests(WorkDecisionAction::Accept, Some(agent), Some(agent), 0),
            workspace_path,
            now,
        ),
        r is Ok,
    ensures
        item is Some,
        offered_to(item->0, agent.id@),
        scope_fault(*agent, item->0.session_id, item->0.workspace@, workspace_path) is None,
        r->Ok_0.0.assignment_status is Accepted,
        holds(r->Ok_0.0.assigned_agent_id, agent.id@),
        r->Ok_0.1.actor_agent_id == Some(agent.record->0.agent_id),
{
    let request = note.requests(WorkDecisionAction::Accept, Some(agent), Some(agent), 0);
    let (after, d) = choose|after: WorkItem, d: WorkDecision| #[trigger]
        decided(item->0, after, d, request, now) && (match item_fault(after) {
            Some(f) => refused(r, f),
            None => r == Ok::<(WorkItem, WorkDecision), OrchError>((after, d)),
        });
    let mid = choose|mid: WorkItem|
        {
            &&& #[trigger] changed(item->0, mid, request)
            &&& records(d, mid, request, now)
            &&& after == bumped(
                WorkItem { last_decision_id: Some(request.decision_id), ..mid },
                now,
            )
        };
    assert(changed(item->0, mid, request));
}

/// A decision never starts work: no attempt count, policy or result changes,
/// and the state only by a block or a request for review.
pub proof fn decisions_never_start_work(
    before: WorkItem,
    after: WorkItem,
    d: WorkDecision,
    request: AssignmentRequest,
    now: i128,
)
    requires
        decided(before, after, d, request, now),
    ensures
        after.attempt_count == before.attempt_count,
        after.policy == before.policy,
        after.result == before.result,
        after.dependencies == before.dependencies,
        after.review == before.review,
        after.review_receipts == before.review_receipts,
        request.action is Block ==> after.state is Blocked,
        request.action is RequestReview ==> after.state is Review,
        !(request.action is Block) && !(request.action is RequestReview) ==> after.state
            == before.state,
{
    let mid = choose|mid: WorkItem|
        {
            &&& #[trigger] changed(before, mid, request)
            &&& records(d, mid, request, now)
            &&& after == bumped(
                WorkItem { last_decision_id: Some(request.decision_id), ..mid },
                now,
            )
        };
    assert(changed(before, mid, request));
}

/// What a change of owner comes to.
pub open spec fn assigning(
    r: Result<WorkItem, OrchError>,
    item: Option<WorkItem>,
    assigned_agent_id: Option<String>,
    expected_revision: Option<u64>,
    now: i128,
) -> bool {
    match assign_fault(item, expected_revision) {
        Some(f) => refused(r, f),
        None => {
            let assigned = WorkItem {
                assigned_agent_id,
                assignment_status: if assigned_agent_id is Some {
                    AssignmentStatus::Accepted
                } else {
                    AssignmentStatus::Unassigned
                },
                ..item->0
            };
            match item_fault(assigned) {
                Some(f) => refused(r, f),
                None => r == Ok::<WorkItem, OrchError>(bumped(assigned, now)),
            }
        },
    }
}

/// Changes the owner of work without a lease, on a person's word.
pub fn assign_work(
    item: Option<WorkItem>,
    assigned_agent_id: Option<String>,
    expected_revision: Option<u64>,
    now: i128,
) -> (r: Result<WorkItem, OrchError>)
    ensures
        assigning(
            r,
            item,
            assigned_agent_id,
            expected_revision,
            now,
        ),
{
    let mut i: WorkItem = match item {
        Some(i) => i,
        None => {
            return Err(conflict("work item not found"));
        },
    };
    require_work_revision(&i, expected_revision)?;
    if i.state.is_terminal() {
        return Err(conflict("terminal work items cannot be reassigned"));
    }
    i.assignment_status = if assigned_agent_id.is_some() {
        AssignmentStatus::Accepted
    } else {
        AssignmentStatus::Unassigned
    };
    i.assigned_agent_id = assigned_agent_id;
    i.validate()?;
    i.bump(now);
    Ok(i)
}

/// Why the owner of work is not changed.
pub open spec fn assign_fault(item: Option<WorkItem>, expected: Option<u64>) -> Option<Fault> {
    match item {
        None => Some(missing_item()),
        Some(i) => first_fault(
            revision_fault(i, expected),
            if i.state.terminal() {
                Some(conflict_fault("terminal work items cannot be reassigned"@))
            } else {
                None
            },
        ),
    }
}

} // verus!
