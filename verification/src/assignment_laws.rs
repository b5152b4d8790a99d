//! What the decisions about assigned work come to, said of the records alone.

use crate::agent::{known_lanes, AgentState};
use crate::assignment::{
    accepting, agents_fault, answers, assigning, authorizing_execution, blocking, changed, decided,
    declining, offering, reassigning, records, reprioritizing, requesting_review, AssignmentRequest,
    DecisionNote, NamedAgent, WorkDecision, WorkDecisionAction,
};
use crate::error::{refused, OrchError};
use crate::ledger_laws::is_over;
use crate::text::trimmed;
use crate::workload::{bumped, item_fault, AssignmentStatus, BlockProvenance, WorkItem, WorkState};
use vstd::prelude::*;
use vstd::string::*;

verus! {

/// Work in this state may be the subject of the action.
pub open spec fn may_be_decided(state: WorkState, action: WorkDecisionAction) -> bool {
    match action {
        WorkDecisionAction::Offer | WorkDecisionAction::Reprioritize => match state {
            WorkState::Queued | WorkState::Blocked | WorkState::Leased | WorkState::Running
            | WorkState::AwaitingInput | WorkState::AwaitingApproval | WorkState::Review => true,
            WorkState::Succeeded | WorkState::Failed | WorkState::Cancelled => false,
        },
        WorkDecisionAction::Reassign | WorkDecisionAction::Block => match state {
            WorkState::Queued | WorkState::Blocked | WorkState::AwaitingInput
            | WorkState::AwaitingApproval | WorkState::Review => true,
            WorkState::Leased | WorkState::Running | WorkState::Succeeded | WorkState::Failed
            | WorkState::Cancelled => false,
        },
        WorkDecisionAction::RequestReview => match state {
            WorkState::Succeeded | WorkState::AwaitingApproval | WorkState::Review => true,
            _ => false,
        },
        WorkDecisionAction::Accept | WorkDecisionAction::Decline
        | WorkDecisionAction::AuthorizeExecution => true,
    }
}

/// The work was offered to this agent, which has not answered.
pub open spec fn awaits_answer(item: WorkItem, agent: Seq<char>) -> bool {
    item.assignment_status == AssignmentStatus::Offered && item.assigned_agent_id is Some
        && item.assigned_agent_id->0@ == agent
}

/// The agent is on record in the work's session and workspace, and has neither
/// failed nor completed.
pub open spec fn takes_part(agent: NamedAgent, item: WorkItem, path: Option<String>) -> bool {
    &&& agent.record is Some
    &&& known_lanes(agent.record->0).contains(item.session_id)
    &&& agent.record->0.workspace@ == item.workspace@ || agent.path is Some && path is Some
        && agent.path->0@ == path->0@
    &&& match agent.record->0.state {
        AgentState::Active | AgentState::Waiting | AgentState::Interrupted => true,
        AgentState::Failed | AgentState::Completed => false,
    }
}

/// The assigned agent is the actor, who was looked at already.
pub open spec fn is_the_actor(agent: NamedAgent, actor: Option<&NamedAgent>) -> bool {
    actor is Some && actor->0.record is Some && actor->0.record->0.agent_id@ == agent.id@
}

/// Nothing about the request itself stands against the decision: it has a
/// reason, speaks of the item as it is, and its agents take part.
pub open spec fn well_asked(
    item: WorkItem,
    request: AssignmentRequest,
    path: Option<String>,
) -> bool {
    &&& trimmed(request.reason@).len() > 0
    &&& request.expected_revision is Some ==> request.expected_revision->0 == item.revision
    &&& request.actor is Some ==> takes_part(*request.actor->0, item, path)
    &&& request.assigned is Some ==> is_the_actor(*request.assigned->0, request.actor)
        || takes_part(*request.assigned->0, item, path)
}

/// A decision is taken only where it is well asked, on work whose state admits
/// it, and accepted or declined only by the agent the work was offered to. It
/// is taken wherever these hold, unless the item it would leave is invalid.
pub proof fn decisions_are_taken_where_asked_well(
    r: Result<(WorkItem, WorkDecision), OrchError>,
    item: Option<WorkItem>,
    request: AssignmentRequest,
    path: Option<String>,
    now: i128,
)
    requires
        answers(r, item, request, path, now),
    ensures
        r is Ok ==> {
            &&& item is Some
            &&& well_asked(item->0, request, path)
            &&& may_be_decided(item->0.state, request.action)
            &&& (request.action == WorkDecisionAction::Accept || request.action
                == WorkDecisionAction::Decline) && request.assigned is Some ==> awaits_answer(
                item->0,
                request.assigned->0.id@,
            )
        },
        item is Some && well_asked(item->0, request, path) && may_be_decided(
            item->0.state,
            request.action,
        ) && ((request.action == WorkDecisionAction::Accept || request.action
            == WorkDecisionAction::Decline) ==> request.assigned is Some && awaits_answer(
            item->0,
            request.assigned->0.id@,
        )) && (forall|after: WorkItem, d: WorkDecision| #[trigger]
            decided(item->0, after, d, request, now) ==> item_fault(after) is None) ==> r is Ok,
{
    if item is Some {
        assert(agents_fault(item->0, request.actor, request.assigned, path) is None <==> {
            &&& request.actor is Some ==> takes_part(*request.actor->0, item->0, path)
            &&& request.assigned is Some ==> is_the_actor(*request.assigned->0, request.actor)
                || takes_part(*request.assigned->0, item->0, path)
        });
    }
}

/// What a decision leaves of the item, but for the fields that the action is
/// about: the assignment, the priority, the state and why it is blocked.
pub open spec fn keeps_the_rest(before: WorkItem, after: WorkItem, now: i128) -> bool {
    after == (WorkItem {
        assigned_agent_id: after.assigned_agent_id,
        assignment_status: after.assignment_status,
        priority: after.priority,
        state: after.state,
        blocked_reason: after.blocked_reason,
        block_provenance: after.block_provenance,
        last_decision_id: after.last_decision_id,
        revision: after.revision,
        updated_at: now,
        ..before
    })
}

/// The assignment, the priority and the state are as they were.
pub open spec fn same_course(before: WorkItem, after: WorkItem) -> bool {
    &&& after.state == before.state
    &&& after.blocked_reason == before.blocked_reason
    &&& after.block_provenance == before.block_provenance
}

proof fn decided_by(
    r: Result<(WorkItem, WorkDecision), OrchError>,
    item: Option<WorkItem>,
    request: AssignmentRequest,
    path: Option<String>,
    now: i128,
) -> (mid: WorkItem)
    requires
        answers(r, item, request, path, now),
        r is Ok,
    ensures
        item is Some,
        changed(item->0, mid, request),
        records(r->Ok_0.1, mid, request, now),
        r->Ok_0.0 == bumped(
            WorkItem { last_decision_id: Some(request.decision_id), ..mid },
            now,
        ),
{
    let (after, d) = choose|after: WorkItem, d: WorkDecision| #[trigger]
        decided(item->0, after, d, request, now) && (match item_fault(after) {
            Some(f) => refused(r, f),
            None => r == Ok::<(WorkItem, WorkDecision), OrchError>((after, d)),
        });
    choose|mid: WorkItem|
        {
            &&& #[trigger] changed(item->0, mid, request)
            &&& records(d, mid, request, now)
            &&& after == bumped(
                WorkItem { last_decision_id: Some(request.decision_id), ..mid },
                now,
            )
        }
}

/// The decision is on record as it was made: the action, who made it and why,
/// the item and the revision it was about. The item names it as its last.
pub open spec fn on_record(
    before: WorkItem,
    after: WorkItem,
    d: WorkDecision,
    note: DecisionNote,
    action: WorkDecisionAction,
    now: i128,
) -> bool {
    &&& d.action == action
    &&& d.decision_id == note.decision_id
    &&& d.actor_id == note.actor_id
    &&& d.reason == note.reason
    &&& d.work_id@ == before.work_id@
    &&& d.work_revision == Some(before.revision)
    &&& d.created_at == now
    &&& after.last_decision_id == Some(note.decision_id)
    &&& before.revision < u64::MAX ==> after.revision == before.revision + 1
    &&& keeps_the_rest(before, after, now)
}

/// Offered work names the agent it is offered to, and waits for the answer.
pub proof fn offers_name_their_agent(
    r: Result<(WorkItem, WorkDecision), OrchError>,
    item: Option<WorkItem>,
    agent: NamedAgent,
    actor: Option<&NamedAgent>,
    note: DecisionNote,
    path: Option<String>,
    now: i128,
)
    requires
        offering(r, item, agent, actor, note, path, now),
        r is Ok,
    ensures
        item is Some,
        !is_over(item->0),
        awaits_answer(r->Ok_0.0, agent.id@),
        r->Ok_0.0.priority == item->0.priority,
        same_course(item->0, r->Ok_0.0),
        r->Ok_0.1.assigned_agent_id is Some,
        r->Ok_0.1.assigned_agent_id->0@ == agent.id@,
        on_record(item->0, r->Ok_0.0, r->Ok_0.1, note, WorkDecisionAction::Offer, now),
{
    let request = note.requests(WorkDecisionAction::Offer, actor, Some(&agent), 0);
    decided_by(r, item, request, path, now);
    decisions_are_taken_where_asked_well(r, item, request, path, now);
}

/// An answer is given by the agent the work was offered to: an accepted item
/// stays with it, a declined one is with nobody.
pub proof fn answers_are_the_offered_agents(
    accepted: bool,
    r: Result<(WorkItem, WorkDecision), OrchError>,
    item: Option<WorkItem>,
    agent: NamedAgent,
    note: DecisionNote,
    path: Option<String>,
    now: i128,
)
    requires
        if accepted {
            accepting(r, item, agent, note, path, now)
        } else {
            declining(r, item, agent, note, path, now)
        },
        r is Ok,
    ensures
        item is Some,
        awaits_answer(item->0, agent.id@),
        takes_part(agent, item->0, path),
        if accepted {
            &&& r->Ok_0.0.assignment_status == AssignmentStatus::Accepted
            &&& r->Ok_0.0.assigned_agent_id == item->0.assigned_agent_id
            &&& on_record(item->0, r->Ok_0.0, r->Ok_0.1, note, WorkDecisionAction::Accept, now)
        } else {
            &&& r->Ok_0.0.assignment_status == AssignmentStatus::Declined
            &&& r->Ok_0.0.assigned_agent_id is None
            &&& on_record(item->0, r->Ok_0.0, r->Ok_0.1, note, WorkDecisionAction::Decline, now)
        },
        r->Ok_0.0.priority == item->0.priority,
        same_course(item->0, r->Ok_0.0),
        r->Ok_0.1.actor_agent_id == Some(agent.record->0.agent_id),
{
    let action = if accepted {
        WorkDecisionAction::Accept
    } else {
        WorkDecisionAction::Decline
    };
    let request = note.requests(action, Some(&agent), Some(&agent), 0);
    decided_by(r, item, request, path, now);
    decisions_are_taken_where_asked_well(r, item, request, path, now);
}

/// Work that nobody is at goes to another agent, whose it is at once.
pub proof fn reassigned_work_changes_hands(
    r: Result<(WorkItem, WorkDecision), OrchError>,
    item: Option<WorkItem>,
    agent: NamedAgent,
    actor: Option<&NamedAgent>,
    note: DecisionNote,
    path: Option<String>,
    now: i128,
)
    requires
        reassigning(r, item, agent, actor, note, path, now),
        r is Ok,
    ensures
        item is Some,
        !is_over(item->0),
        !(item->0.state is Leased),
        !(item->0.state is Running),
        r->Ok_0.0.assignment_status == AssignmentStatus::Accepted,
        r->Ok_0.0.assigned_agent_id is Some,
        r->Ok_0.0.assigned_agent_id->0@ == agent.id@,
        r->Ok_0.0.priority == item->0.priority,
        same_course(item->0, r->Ok_0.0),
        on_record(item->0, r->Ok_0.0, r->Ok_0.1, note, WorkDecisionAction::Reassign, now),
{
    let request = note.requests(WorkDecisionAction::Reassign, actor, Some(&agent), 0);
    decided_by(r, item, request, path, now);
    decisions_are_taken_where_asked_well(r, item, request, path, now);
}

/// A new priority is the one asked for, and all that changes.
pub proof fn priorities_are_those_asked_for(
    r: Result<(WorkItem, WorkDecision), OrchError>,
    item: Option<WorkItem>,
    priority: i32,
    note: DecisionNote,
    path: Option<String>,
    now: i128,
)
    requires
        reprioritizing(r, item, priority, note, path, now),
        r is Ok,
    ensures
        item is Some,
        !is_over(item->0),
        r->Ok_0.0.priority == priority,
        r->Ok_0.0.assignment_status == item->0.assignment_status,
        r->Ok_0.0.assigned_agent_id == item->0.assigned_agent_id,
        same_course(item->0, r->Ok_0.0),
        on_record(item->0, r->Ok_0.0, r->Ok_0.1, note, WorkDecisionAction::Reprioritize, now),
{
    let request = note.requests(WorkDecisionAction::Reprioritize, None, None, priority);
    decided_by(r, item, request, path, now);
    decisions_are_taken_where_asked_well(r, item, request, path, now);
}

/// Blocked work is blocked by hand, for the reason given, and only where
/// nobody is at it.
pub proof fn blocks_are_by_hand(
    r: Result<(WorkItem, WorkDecision), OrchError>,
    item: Option<WorkItem>,
    note: DecisionNote,
    path: Option<String>,
    now: i128,
)
    requires
        blocking(r, item, note, path, now),
        r is Ok,
    ensures
        item is Some,
        !is_over(item->0),
        !(item->0.state is Leased),
        !(item->0.state is Running),
        r->Ok_0.0.state == WorkState::Blocked,
        r->Ok_0.0.blocked_reason is Some,
        r->Ok_0.0.blocked_reason->0@ == note.reason@,
        r->Ok_0.0.block_provenance == Some(BlockProvenance::Manual),
        r->Ok_0.0.assignment_status == item->0.assignment_status,
        r->Ok_0.0.assigned_agent_id == item->0.assigned_agent_id,
        r->Ok_0.0.priority == item->0.priority,
        on_record(item->0, r->Ok_0.0, r->Ok_0.1, note, WorkDecisionAction::Block, now),
{
    let request = note.requests(WorkDecisionAction::Block, None, None, 0);
    decided_by(r, item, request, path, now);
    decisions_are_taken_where_asked_well(r, item, request, path, now);
}

/// A review is asked for of work that has succeeded, waits for approval or is
/// under review, and the work is under review from then on.
pub proof fn reviews_follow_completion(
    r: Result<(WorkItem, WorkDecision), OrchError>,
    item: Option<WorkItem>,
    note: DecisionNote,
    path: Option<String>,
    now: i128,
)
    requires
        requesting_review(r, item, note, path, now),
        r is Ok,
    ensures
        item is Some,
        item->0.state is Succeeded || item->0.state is AwaitingApproval || item->0.state is Review,
        r->Ok_0.0.state == WorkState::Review,
        r->Ok_0.0.assignment_status == item->0.assignment_status,
        r->Ok_0.0.assigned_agent_id == item->0.assigned_agent_id,
        r->Ok_0.0.priority == item->0.priority,
        on_record(item->0, r->Ok_0.0, r->Ok_0.1, note, WorkDecisionAction::RequestReview, now),
{
    let request = note.requests(WorkDecisionAction::RequestReview, None, None, 0);
    decided_by(r, item, request, path, now);
    decisions_are_taken_where_asked_well(r, item, request, path, now);
}

/// That work may be carried out is put on record and changes nothing else.
pub proof fn permits_change_nothing_else(
    r: Result<(WorkItem, WorkDecision), OrchError>,
    item: Option<WorkItem>,
    actor: Option<&NamedAgent>,
    note: DecisionNote,
    path: Option<String>,
    now: i128,
)
    requires
        authorizing_execution(r, item, actor, note, path, now),
        r is Ok,
    ensures
        item is Some,
        r->Ok_0.0.assignment_status == item->0.assignment_status,
        r->Ok_0.0.assigned_agent_id == item->0.assigned_agent_id,
        r->Ok_0.0.priority == item->0.priority,
        same_course(item->0, r->Ok_0.0),
        r->Ok_0.1.assigned_agent_id == item->0.assigned_agent_id,
        on_record(
            item->0,
            r->Ok_0.0,
            r->Ok_0.1,
            note,
            WorkDecisionAction::AuthorizeExecution,
            now,
        ),
{
    let request = note.requests(WorkDecisionAction::AuthorizeExecution, actor, None, 0);
    decided_by(r, item, request, path, now);
    decisions_are_taken_where_asked_well(r, item, request, path, now);
}

/// On a person's word work that is not over gets the owner named, or none; its
/// state and priority stay as they are.
pub proof fn owners_are_those_named(
    r: Result<WorkItem, OrchError>,
    item: Option<WorkItem>,
    owner: Option<String>,
    expected: Option<u64>,
    now: i128,
)
    requires
        assigning(r, item, owner, expected, now),
    ensures
        r is Ok ==> {
            &&& item is Some
            &&& !is_over(item->0)
            &&& expected is Some ==> expected->0 == item->0.revision
            &&& r->Ok_0.assigned_agent_id == owner
            &&& r->Ok_0.assignment_status == if owner is Some {
                AssignmentStatus::Accepted
            } else {
                AssignmentStatus::Unassigned
            }
            &&& r->Ok_0.priority == item->0.priority
            &&& same_course(item->0, r->Ok_0)
            &&& r->Ok_0.last_decision_id == item->0.last_decision_id
            &&& keeps_the_rest(item->0, r->Ok_0, now)
        },
        item is None || is_over(item->0) || expected is Some && expected->0 != item->0.revision
            ==> r is Err,
{
}

} // verus!
