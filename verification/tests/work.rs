//! Work items, their attempts and leases, and the workers that hold them.

use agent_bridge::agent::{
    AgentAuthorityPolicy, AgentRecord, AgentSpec, AgentState, ModelSelection, SpecFacts,
};
use agent_bridge::assignment::{
    accept_work, assign_work, authorize_work_execution, block_work, decline_work, offer_work,
    reassign_work, reprioritize_work, request_work_review, DecisionNote, NamedAgent,
    WorkDecision, WorkDecisionAction,
};
use agent_bridge::bounds::RunBounds;
use agent_bridge::error::{OrchError, OrchErrorCode};
use agent_bridge::gate::{check_work_save, scoped_work_items};
use agent_bridge::json::Json;
use agent_bridge::ledger::{
    approve_work, begin_claim, cancel_work_checked, complete_work, fail_work, grant_lease,
    link_work_run, park_work_input, prepare_claim, reconcile_work, release_work, renew_work_lease,
    report_work_progress, require_lease_secret, retry_work, seal_queued_managed_work,
    work_failure_result, Admission, LeaseCredential,
};
use agent_bridge::listing::{
    list_checkpoints, list_work_attempts, list_work_items, newest_first, oldest_first,
};
use agent_bridge::worker::{
    list_workers, reject_privilege_amplification, WorkerHostKind, WorkerLivenessState,
    WorkerPresence, WorkerProjection,
};
use agent_bridge::workload::{
    lease_duration, AssignmentStatus, AttemptState, BlockProvenance, WorkApproval, WorkAttempt,
    WorkAttemptView, WorkDependency, WorkItem, WorkPolicy, WorkProgress, WorkResult,
    WorkRetryPolicy, WorkState, WorkloadReconciliationReport, DEFAULT_WORK_LEASE_MS,
    MAX_WORK_LEASE_MS,
};

const SESSION: u128 = 0x6ba7b810_9dad_41d1_80b4_00c04fd430c8;
const NOW: i128 = 1_700_000_000_000_000_000;
const SECOND: i128 = 1_000_000_000;

fn work() -> WorkItem {
    WorkItem::new(
        "coding",
        "Run the conformance suite",
        SESSION,
        "/tmp/project",
        "operator",
        WorkPolicy::default(),
        NOW,
    )
    .unwrap()
}

fn facts() -> SpecFacts {
    SpecFacts {
        selection: Ok(ModelSelection {
            provider_id: "xai".to_string(),
            model_id: "grok".to_string(),
        }),
        managed: None,
    }
}

fn bounds(
    max_prompt_bytes: usize,
    max_rounds: u32,
    max_duration_ms: u64,
    max_total_tokens: Option<u64>,
) -> RunBounds {
    RunBounds { max_prompt_bytes, max_rounds, max_duration_ms, max_total_tokens }
}

fn spec(default_run_bounds: RunBounds) -> AgentSpec {
    let mut spec = AgentSpec::initial(
        "worker-1",
        "/tmp/ws",
        "grok",
        AgentAuthorityPolicy::default(),
        Json::null(),
        &facts(),
        NOW,
        "privilege-amplification-test",
    )
    .unwrap();
    spec.default_run_bounds = default_run_bounds;
    spec
}

fn named(id: &str, workspace: &str) -> NamedAgent {
    NamedAgent {
        id: id.to_string(),
        record: Some(AgentRecord {
            agent_id: id.to_string(),
            owner_principal_id: None,
            session_id: SESSION,
            lane_ids: vec![SESSION],
            lane_associations: Vec::new(),
            workspace: workspace.to_string(),
            model: "grok".to_string(),
            spec: Some(spec(RunBounds::default())),
            state: AgentState::Waiting,
            current_run_id: None,
            last_run_id: None,
            last_lane_id: None,
            latest_checkpoint_id: None,
            continuation_ordinal: 0,
            created_at: NOW,
            updated_at: NOW,
        }),
        path: None,
    }
}

fn note(expected_revision: Option<u64>) -> DecisionNote {
    DecisionNote {
        decision_id: "decision-1".to_string(),
        actor_id: "operator".to_string(),
        reason: "held pending a decision".to_string(),
        expected_revision,
    }
}

fn admitted() -> Admission {
    Admission { admissible: true, reason: "admissible".to_string() }
}

/// Claims the item with a token and a lease of the default length.
fn claimed(item: WorkItem, claimant: &str, token: &str, now: i128) -> (WorkItem, WorkAttempt) {
    let lease = begin_claim(claimant, None).unwrap();
    let (item, attempt, shown) = grant_lease(
        item,
        &admitted(),
        None,
        claimant,
        "attempt-1",
        &LeaseCredential::Token(token.to_string()),
        lease,
        now,
    )
    .unwrap();
    assert_eq!(shown, token);
    (item, attempt)
}

fn result(summary: &str) -> WorkResult {
    WorkResult {
        summary: summary.to_string(),
        evidence: Vec::new(),
        artifacts: Vec::new(),
        failure: None,
        cancellation_reason: None,
        completed_at: NOW,
    }
}

#[test]
fn workload_starts_queued_and_validates_bounds() {
    let item = work();
    assert_eq!(item.state, WorkState::Queued);
    assert!(item.validate().is_ok());
    assert!(lease_duration(Some(MAX_WORK_LEASE_MS + 1)).is_err());
}

#[test]
fn lease_durations_are_nanoseconds() {
    assert_eq!(lease_duration(None).unwrap(), DEFAULT_WORK_LEASE_MS as i128 * 1_000_000);
    assert_eq!(lease_duration(Some(1)).unwrap(), 1_000_000);
    assert!(lease_duration(Some(0)).is_err());
}

#[test]
fn lease_token_is_not_persisted_in_plaintext() {
    let attempt = WorkAttempt::new("work-1", 1, "worker-a", "secret-token", NOW);
    assert!(!format!("{attempt:?}").contains("secret-token"));
    assert!(attempt.token_matches("secret-token"));
    assert!(!attempt.token_matches("wrong-token"));
}

#[test]
fn secrets_give_tokens_of_their_own() {
    let attempt = WorkAttempt::new_with_lease_secret("work-1", 1, "worker-a", "s3cret", NOW);
    let token = attempt.lease_token_for_secret("s3cret");
    assert!(attempt.token_matches(&token));
    assert!(!attempt.token_matches("s3cret"));
    assert_ne!(token, attempt.lease_token_for_secret("other"));
    let view = WorkAttemptView::of(&attempt);
    assert_eq!(view.attempt_id, attempt.attempt_id);
    assert_eq!(view.lease_expires_at, attempt.lease_expires_at);
}

#[test]
fn dependency_readiness_requires_every_dependency_to_succeed() {
    let mut item = work();
    item.dependencies = vec![
        WorkDependency {
            work_id: "dependency-a".to_string(),
            required_state: WorkState::Succeeded,
        },
        WorkDependency {
            work_id: "dependency-b".to_string(),
            required_state: WorkState::Succeeded,
        },
    ];
    assert!(!item.dependency_ready(&[WorkState::Succeeded, WorkState::Failed]));
    assert!(item.dependency_ready(&[WorkState::Succeeded, WorkState::Succeeded]));
}

#[test]
fn terminal_states_are_not_claimable() {
    assert!(WorkState::Succeeded.is_terminal());
    assert!(WorkState::Failed.is_terminal());
    assert!(!WorkState::Leased.is_claimable());
}

#[test]
fn connected_presence_is_not_lease_ownership() {
    let presence = WorkerPresence::new("agent-1", "device", WorkerHostKind::Service, NOW);
    let attempt = WorkAttempt {
        schema_version: 1,
        attempt_id: "att-1".to_string(),
        work_id: "work-1".to_string(),
        attempt_number: 1,
        claimant_id: "other-agent".to_string(),
        lease_token_hash: "hash".to_string(),
        acquired_at: NOW,
        lease_expires_at: NOW + 300 * SECOND,
        last_heartbeat_at: NOW,
        state: AttemptState::Leased,
        linked_run_ids: Vec::new(),
        progress: None,
        result: None,
        terminal_reason: None,
        created_at: NOW,
        updated_at: NOW,
    };
    assert!(attempt.lease_active_at(NOW));
    assert_ne!(attempt.claimant_id, presence.agent_id);
}

#[test]
fn projections_show_owned_leases_only() {
    let agent = named("agent-1", "/tmp/project").record.unwrap();
    let presence = WorkerPresence::new("agent-1", "device", WorkerHostKind::Service, NOW);
    let (item, mine) = claimed(work(), "agent-1", "token-a", NOW);
    let mut other = mine.clone();
    other.attempt_id = "attempt-2".to_string();
    other.claimant_id = "agent-2".to_string();
    let shown = WorkerProjection::project(
        &agent,
        agent.spec.as_ref(),
        Some(&presence),
        &vec![item],
        &vec![mine.clone(), other],
        NOW + SECOND,
        None,
    );
    assert_eq!(shown.liveness, WorkerLivenessState::Live);
    assert_eq!(shown.active_leases.len(), 1);
    assert_eq!(shown.active_leases[0].attempt_id, "attempt-1");
    assert_eq!(shown.load.active_leases, 1);
    let stale = WorkerProjection::project(
        &agent,
        None,
        Some(&presence),
        &Vec::new(),
        &vec![mine],
        NOW + 31 * SECOND,
        None,
    );
    assert_eq!(stale.liveness, WorkerLivenessState::Stale);
    let unknown =
        WorkerProjection::project(&agent, None, None, &Vec::new(), &Vec::new(), NOW, None);
    assert_eq!(unknown.liveness, WorkerLivenessState::Unknown);
    assert_eq!(unknown.host_kind, WorkerHostKind::Unknown);
}

#[test]
fn workers_are_listed_by_their_workspace() {
    let agents = vec![
        named("b", "/tmp/project").record.unwrap(),
        named("x", "/tmp/other").record.unwrap(),
        named("a", "/elsewhere").record.unwrap(),
    ];
    let paths = vec![None, None, Some("/private/tmp/project".to_string())];
    let path = Some("/private/tmp/project".to_string());
    let list = list_workers(&agents, &paths, "/tmp/project", &path);
    assert!(list.contains(&0));
    assert!(list.contains(&2));
    assert!(!list.contains(&1));
}

#[test]
fn a_computer_use_worker_is_never_assignable() {
    let server = bounds(10_000, 8, 60_000, Some(10_000));
    let mut worker = spec(server);
    worker.authority.computer_use_allowed = true;
    let error = reject_privilege_amplification(None, &worker, &server, &server).unwrap_err();
    assert_eq!(error.code, OrchErrorCode::ForbiddenScope);
    assert!(error.message.contains("Computer Use"), "unexpected message: {}", error.message);

    worker.authority.computer_use_allowed = false;
    reject_privilege_amplification(None, &worker, &server, &server).unwrap();
}

#[test]
fn work_bounds_cannot_exceed_the_narrowest_ceiling_on_any_axis() {
    let wide = bounds(10_000, 20, 600_000, Some(100_000));
    let narrow_prompt = bounds(1_000, 20, 600_000, Some(100_000));
    let narrow_rounds = bounds(10_000, 2, 600_000, Some(100_000));
    let narrow_duration = bounds(10_000, 20, 60_000, Some(100_000));
    let narrow_tokens = bounds(10_000, 20, 600_000, Some(5_000));

    let cases: Vec<(&str, Option<RunBounds>, RunBounds, RunBounds, RunBounds)> = vec![
        (
            "manager narrows prompt bytes",
            Some(narrow_prompt),
            wide,
            wide,
            bounds(1_001, 2, 60_000, Some(5_000)),
        ),
        (
            "worker narrows rounds",
            Some(wide),
            narrow_rounds,
            wide,
            bounds(1_000, 3, 60_000, Some(5_000)),
        ),
        (
            "server narrows duration",
            Some(wide),
            wide,
            narrow_duration,
            bounds(1_000, 2, 60_001, Some(5_000)),
        ),
        (
            "worker narrows total tokens",
            Some(wide),
            narrow_tokens,
            wide,
            bounds(1_000, 2, 60_000, Some(5_001)),
        ),
    ];

    for (case, manager, worker, server, work) in cases {
        let manager_spec = manager.map(spec);
        let worker_spec = spec(worker);
        let error =
            reject_privilege_amplification(manager_spec.as_ref(), &worker_spec, &work, &server)
                .unwrap_err();
        assert_eq!(error.code, OrchErrorCode::ForbiddenScope, "{case}");
        assert!(
            error.message.contains("amplify bounds"),
            "{case}: unexpected message {}",
            error.message
        );
    }

    let manager_spec = spec(narrow_prompt);
    let worker_spec = spec(narrow_rounds);
    reject_privilege_amplification(
        Some(&manager_spec),
        &worker_spec,
        &bounds(1_000, 2, 60_000, Some(5_000)),
        &narrow_duration,
    )
    .unwrap();
}

#[test]
fn an_absent_manager_falls_back_to_the_server_ceiling() {
    let server = bounds(1_000, 2, 60_000, Some(5_000));
    let worker = spec(bounds(10_000, 20, 600_000, Some(100_000)));

    reject_privilege_amplification(None, &worker, &server, &server).unwrap();
    let error = reject_privilege_amplification(
        None,
        &worker,
        &bounds(1_001, 2, 60_000, Some(5_000)),
        &server,
    )
    .unwrap_err();
    assert_eq!(error.code, OrchErrorCode::ForbiddenScope);
}

#[test]
fn the_token_ceiling_is_the_smallest_declared_limit() {
    let open = bounds(10_000, 20, 600_000, None);
    let manager = spec(open);
    let worker = spec(bounds(10_000, 20, 600_000, Some(5_000)));

    reject_privilege_amplification(
        Some(&manager),
        &worker,
        &bounds(1_000, 2, 60_000, Some(5_000)),
        &open,
    )
    .unwrap();
    let error = reject_privilege_amplification(
        Some(&manager),
        &worker,
        &bounds(1_000, 2, 60_000, Some(5_001)),
        &open,
    )
    .unwrap_err();
    assert_eq!(error.code, OrchErrorCode::ForbiddenScope);

    reject_privilege_amplification(Some(&manager), &worker, &bounds(1_000, 2, 60_000, None), &open)
        .unwrap();

    let open_worker = spec(open);
    reject_privilege_amplification(
        Some(&manager),
        &open_worker,
        &bounds(1_000, 2, 60_000, Some(u64::MAX)),
        &open,
    )
    .unwrap();
}

#[test]
fn manual_blocks_survive_reconciliation() {
    let (mut blocked, decision) =
        block_work(Some(work()), note(None), &None, NOW + SECOND).unwrap();
    assert_eq!(decision.action, WorkDecisionAction::Block);
    assert_eq!(blocked.block_provenance, Some(BlockProvenance::Manual));
    let mut report = WorkloadReconciliationReport::default();
    for _ in 0..3 {
        reconcile_work(
            &mut blocked,
            &mut Vec::new(),
            &Vec::new(),
            "admissible",
            NOW + 2 * SECOND,
            &mut report,
        );
    }
    assert_eq!(blocked.state, WorkState::Blocked);
    assert_eq!(blocked.blocked_reason.as_deref(), Some("held pending a decision"));
    assert_eq!(report.unblocked_items, 0);
}

#[test]
fn decisions_move_assignments_but_never_start_work() {
    let agent = named("agent-1", "/tmp/project");
    let offered = offer_work(Some(work()), &agent, None, note(None), &None, NOW).unwrap().0;
    assert_eq!(offered.assignment_status, AssignmentStatus::Offered);
    assert_eq!(offered.assigned_agent_id.as_deref(), Some("agent-1"));
    assert_eq!(offered.state, WorkState::Queued);
    let stale = note(Some(offered.revision + 1));
    assert_eq!(
        accept_work(Some(offered.clone()), &agent, stale, &None, NOW).unwrap_err().code,
        OrchErrorCode::StaleVersion
    );
    let seen = note(Some(offered.revision));
    let (accepted, decision) =
        accept_work(Some(offered), &agent, seen, &None, NOW).unwrap();
    assert_eq!(accepted.assignment_status, AssignmentStatus::Accepted);
    assert_eq!(accepted.state, WorkState::Queued);
    assert_eq!(accepted.last_decision_id.as_deref(), Some("decision-1"));
    assert_eq!(decision.assigned_agent_id.as_deref(), Some("agent-1"));
    assert_eq!(decision.actor_agent_id.as_deref(), Some("agent-1"));
    let strange = named("agent-9", "/tmp/other");
    assert!(offer_work(Some(work()), &strange, None, note(None), &None, NOW).is_err());
    assert_eq!(
        accept_work(None, &agent, note(None), &None, NOW).unwrap_err().message,
        "work item not found"
    );
}

#[test]
fn only_the_agent_an_offer_is_for_answers_it() {
    let (agent, other) = (named("agent-1", "/tmp/project"), named("agent-2", "/tmp/project"));
    let offered = offer_work(Some(work()), &agent, Some(&other), note(None), &None, NOW).unwrap();
    assert_eq!(offered.1.actor_agent_id.as_deref(), Some("agent-2"));
    let refused = accept_work(Some(offered.0.clone()), &other, note(None), &None, NOW);
    assert_eq!(refused.unwrap_err().message, "work offer is not pending for this worker");
    let (declined, decision) =
        decline_work(Some(offered.0), &agent, note(None), &None, NOW).unwrap();
    assert_eq!(declined.assignment_status, AssignmentStatus::Declined);
    assert_eq!(declined.assigned_agent_id, None);
    assert_eq!(decision.action, WorkDecisionAction::Decline);
    let again = accept_work(Some(declined), &agent, note(None), &None, NOW);
    assert_eq!(again.unwrap_err().code, OrchErrorCode::Conflict);
}

#[test]
fn handed_in_refusals_come_back_whole() {
    let data = Json::from_compact("{\"retryAfterMs\":5}".to_string());
    let refusal = OrchError::with_data(OrchErrorCode::Conflict, "offered to another", data);
    let lease = begin_claim("worker-a", None).unwrap();
    let error = grant_lease(
        work(),
        &admitted(),
        Some(refusal.clone()),
        "worker-a",
        "attempt-1",
        &LeaseCredential::Token("token".to_string()),
        lease,
        NOW,
    )
    .unwrap_err();
    assert_eq!(error.message, "offered to another");
    assert_eq!(error.data.unwrap().text, "{\"retryAfterMs\":5}");
    let approval =
        WorkApproval { reviewer_id: "r".to_string(), note: None, approved_at: NOW };
    let error = approve_work(Some(refusal), None, Vec::new(), approval, None, NOW).unwrap_err();
    assert!(error.data.is_some());
}

#[test]
fn each_decision_asks_for_a_fitting_state() {
    let agent = named("agent-1", "/tmp/project");
    let mut over = work();
    over.state = WorkState::Failed;
    over.result = Some(result("failed"));
    let message = |r: Result<(WorkItem, WorkDecision), OrchError>| r.unwrap_err().message;
    assert_eq!(
        message(offer_work(Some(over.clone()), &agent, None, note(None), &None, NOW)),
        "terminal work items cannot be offered"
    );
    assert_eq!(
        message(reassign_work(Some(over.clone()), &agent, None, note(None), &None, NOW)),
        "active or terminal work cannot be reassigned"
    );
    assert_eq!(
        message(reprioritize_work(Some(over.clone()), 3, note(None), &None, NOW)),
        "terminal work cannot be reprioritized"
    );
    assert_eq!(
        message(block_work(Some(over), note(None), &None, NOW)),
        "terminal work cannot be blocked"
    );
    let mut leased = work();
    leased.state = WorkState::Leased;
    assert_eq!(
        message(block_work(Some(leased), note(None), &None, NOW)),
        "leased work cannot be blocked"
    );
    assert_eq!(
        message(request_work_review(Some(work()), note(None), &None, NOW)),
        "review can be requested only for completed or approval-gated work"
    );
    let mut silent = note(None);
    silent.reason = "  ".to_string();
    assert_eq!(
        message(block_work(Some(work()), silent, &None, NOW)),
        "decision reason is required"
    );
    let urgent = reprioritize_work(Some(work()), 7, note(None), &None, NOW).unwrap().0;
    assert_eq!(urgent.priority, 7);
    let given = reassign_work(Some(work()), &agent, None, note(None), &None, NOW).unwrap().0;
    assert_eq!(given.assignment_status, AssignmentStatus::Accepted);
    let (same, decision) =
        authorize_work_execution(Some(work()), None, note(None), &None, NOW).unwrap();
    assert_eq!(decision.action, WorkDecisionAction::AuthorizeExecution);
    assert_eq!(same.state, WorkState::Queued);
    assert_eq!(same.revision, work().revision + 1);
}

#[test]
fn assignments_follow_the_revision() {
    let item = work();
    let revision = item.revision;
    let assigned =
        assign_work(Some(item.clone()), Some("agent-1".to_string()), Some(revision), NOW).unwrap();
    assert_eq!(assigned.assigned_agent_id.as_deref(), Some("agent-1"));
    assert_eq!(assigned.revision, revision + 1);
    let error = assign_work(Some(item), None, Some(revision + 1), NOW).unwrap_err();
    assert_eq!(error.code, OrchErrorCode::StaleVersion);
}

#[test]
fn a_lease_admits_its_token_until_it_expires() {
    let (item, attempt) = claimed(work(), "agent-1", "token-a", NOW);
    assert_eq!(item.state, WorkState::Leased);
    assert_eq!(item.attempt_count, 1);
    assert_eq!(attempt.attempt_number, 1);
    assert_eq!(attempt.lease_expires_at, NOW + 300 * SECOND);
    let wrong = renew_work_lease(
        Some(item.clone()),
        Some(attempt.clone()),
        "token-b",
        None,
        NOW + SECOND,
    );
    assert_eq!(wrong.unwrap_err().code, OrchErrorCode::ForbiddenScope);
    let late = renew_work_lease(
        Some(item.clone()),
        Some(attempt.clone()),
        "token-a",
        None,
        NOW + 301 * SECOND,
    );
    assert!(late.is_err());
    let renewed =
        renew_work_lease(Some(item), Some(attempt), "token-a", Some(1_000), NOW + SECOND).unwrap();
    assert_eq!(renewed.lease_expires_at, NOW + 2 * SECOND);
    assert_eq!(renewed.last_heartbeat_at, NOW + SECOND);
}

#[test]
fn a_claimed_item_has_one_claimant() {
    let (mut item, attempt) = claimed(work(), "worker-0", "token-a", NOW);
    let mut attempts = vec![attempt];
    for _ in 1..4 {
        assert!(prepare_claim(&mut item, &mut attempts, &Vec::new(), "admissible", NOW).is_err());
    }
    assert_eq!(attempts.len(), 1);
}

#[test]
fn a_running_lease_refuses_claims_until_it_ends() {
    let mut start = work();
    prepare_claim(&mut start, &mut Vec::new(), &Vec::new(), "admissible", NOW).unwrap();
    let (mut item, attempt) = claimed(start, "worker-0", "token-a", NOW);
    assert_eq!((item.attempt_count, attempt.attempt_number), (1, 1));
    assert_eq!(item.state, WorkState::Leased);
    let end = attempt.lease_expires_at;
    let mut attempts = vec![attempt];
    for now in [NOW, NOW + SECOND, end - 1] {
        let error = prepare_claim(&mut item, &mut attempts, &Vec::new(), "admissible", now)
            .unwrap_err();
        assert_eq!(error.code, OrchErrorCode::Conflict);
        assert_eq!(error.message, "work item already leased by worker-0");
        assert_eq!(attempts[0].lease_expires_at, end);
    }
    prepare_claim(&mut item, &mut attempts, &Vec::new(), "admissible", end).unwrap();
    assert_ne!(item.state, WorkState::Leased);
}

#[test]
fn refused_admissions_grant_nothing() {
    let lease = begin_claim("worker", None).unwrap();
    let refusal = Admission { admissible: false, reason: "review_pending".to_string() };
    let error = grant_lease(
        work(),
        &refusal,
        None,
        "worker",
        "attempt-1",
        &LeaseCredential::Token("t".to_string()),
        lease,
        NOW,
    )
    .unwrap_err();
    assert_eq!(error.code, OrchErrorCode::Conflict);
    assert!(begin_claim("", None).is_err());
    assert!(begin_claim("worker", Some(0)).is_err());
    assert!(require_lease_secret("").is_err());
}

#[test]
fn expired_leases_are_retried() {
    let (mut item, attempt) = claimed(work(), "agent-1", "token-a", NOW);
    let mut attempts = vec![attempt];
    let mut report = WorkloadReconciliationReport::default();
    reconcile_work(
        &mut item,
        &mut attempts,
        &Vec::new(),
        "admissible",
        NOW + 301 * SECOND,
        &mut report,
    );
    assert_eq!(attempts[0].state, AttemptState::Expired);
    assert_eq!(item.state, WorkState::Queued);
    assert_eq!(report.expired_attempts, 1);
    assert_eq!(report.retried_items, 1);
}

#[test]
fn a_last_expired_lease_fails_the_work() {
    let mut once = work();
    once.policy.retry = WorkRetryPolicy { max_attempts: 1, ..WorkRetryPolicy::default() };
    let (mut item, attempt) = claimed(once, "agent-1", "token-a", NOW);
    let mut attempts = vec![attempt];
    let mut report = WorkloadReconciliationReport::default();
    reconcile_work(
        &mut item,
        &mut attempts,
        &Vec::new(),
        "admissible",
        NOW + 301 * SECOND,
        &mut report,
    );
    assert_eq!(item.state, WorkState::Failed);
    assert_eq!(report.failed_items, 1);
}

#[test]
fn finished_work_closes_its_attempt() {
    let (item, attempt) = claimed(work(), "agent-1", "token-a", NOW);
    let (item, attempt) = report_work_progress(
        Some(item),
        Some(attempt),
        "token-a",
        WorkProgress { summary: "half".to_string(), percent: Some(50), updated_at: NOW },
        NOW + SECOND,
    )
    .unwrap();
    assert_eq!(item.state, WorkState::Running);
    let attempt =
        link_work_run(Some(item.clone()), Some(attempt), "token-a", "run-1", NOW + SECOND).unwrap();
    assert_eq!(attempt.linked_run_ids, vec!["run-1".to_string()]);
    let again =
        link_work_run(Some(item.clone()), Some(attempt), "token-a", "run-1", NOW + SECOND).unwrap();
    assert_eq!(again.linked_run_ids.len(), 1);
    let (done, closed) = complete_work(
        Some(item),
        Some(again),
        "token-a",
        result("all green"),
        NOW + 2 * SECOND,
    )
    .unwrap();
    assert_eq!(done.state, WorkState::Succeeded);
    assert_eq!(closed.state, AttemptState::Succeeded);
    assert_eq!(done.result.unwrap().summary, "all green");
}

#[test]
fn approvals_are_asked_for_where_the_policy_says_so() {
    let mut gated = work();
    gated.policy.requires_approval = true;
    let (item, attempt) = claimed(gated, "agent-1", "token-a", NOW);
    let (parked, parked_attempt) =
        complete_work(Some(item), Some(attempt), "token-a", result("done"), NOW + SECOND).unwrap();
    assert_eq!(parked.state, WorkState::AwaitingApproval);
    let approval = WorkApproval {
        reviewer_id: "operator".to_string(),
        note: None,
        approved_at: NOW + 2 * SECOND,
    };
    let (approved, attempt) = approve_work(
        None,
        Some(parked),
        vec![parked_attempt],
        approval,
        None,
        NOW + 2 * SECOND,
    )
    .unwrap();
    assert_eq!(approved.state, WorkState::Succeeded);
    assert_eq!(attempt.state, AttemptState::Succeeded);
    assert_eq!(attempt.terminal_reason.as_deref(), Some("approved by operator"));
}

#[test]
fn failures_are_final_only_without_retries() {
    let (item, attempt) = claimed(work(), "agent-1", "token-a", NOW);
    let (failed, closed) = fail_work(
        Some(item),
        Some(attempt),
        "token-a",
        work_failure_result("broken", NOW),
        NOW + SECOND,
    )
    .unwrap();
    assert_eq!(closed.state, AttemptState::Failed);
    assert!(matches!(failed.state, WorkState::Queued | WorkState::Failed));
    let mut ended = work();
    ended.state = WorkState::Failed;
    let retried = retry_work(Some(ended.clone()), "try again", None, NOW).unwrap();
    assert_eq!(retried.state, WorkState::Queued);
    assert!(retry_work(Some(retried), "again", None, NOW).is_err());
    assert!(retry_work(Some(ended), "again", Some(99), NOW).is_err());
}

#[test]
fn releases_and_parks_keep_the_item_alive() {
    let (item, attempt) = claimed(work(), "agent-1", "token-a", NOW);
    let (released, closed) = release_work(
        Some(item.clone()),
        Some(attempt.clone()),
        "token-a",
        "shutting down",
        NOW + SECOND,
    )
    .unwrap();
    assert_eq!(released.state, WorkState::Queued);
    assert_eq!(closed.state, AttemptState::Released);
    let (parked, waiting) = park_work_input(
        Some(item),
        Some(attempt),
        "token-a",
        "need an answer",
        NOW + SECOND,
    )
    .unwrap();
    assert_eq!(parked.state, WorkState::AwaitingInput);
    assert_eq!(waiting.state, AttemptState::AwaitingInput);
}

#[test]
fn cancelled_work_takes_its_attempts_along() {
    let (item, attempt) = claimed(work(), "agent-1", "token-a", NOW);
    let (cancelled, attempts) =
        cancel_work_checked(Some(item), vec![attempt], "not needed", None, NOW + SECOND).unwrap();
    assert_eq!(cancelled.state, WorkState::Cancelled);
    assert_eq!(attempts[0].state, AttemptState::Cancelled);
    let kept = seal_queued_managed_work(cancelled, "late", NOW).unwrap();
    assert_eq!(kept.state, WorkState::Cancelled);
    let sealed = seal_queued_managed_work(work(), "superseded", NOW).unwrap();
    assert_eq!(sealed.state, WorkState::Failed);
    assert_eq!(sealed.result.unwrap().summary, "superseded");
}

#[test]
fn ordinary_saves_leave_the_review_alone() {
    let item = work();
    assert!(check_work_save(&item, None, &None, &None).is_ok());
    let mut moved = item.clone();
    moved.session_id = SESSION + 1;
    assert_eq!(check_work_save(&moved, Some(&item), &None, &None), Ok(false));
    moved.dependencies = vec![WorkDependency {
        work_id: "dependency-a".to_string(),
        required_state: WorkState::Succeeded,
    }];
    assert_eq!(check_work_save(&moved, Some(&item), &None, &None), Ok(true));
    assert_eq!(check_work_save(&moved, Some(&moved.clone()), &None, &None), Ok(false));
    let mut approved = item.clone();
    approved.review = Some(agent_bridge::workload::WorkReviewPolicy {
        reviewers: vec!["r1".to_string()],
        required_approvals: 1,
        policy_revision: 1,
    });
    assert!(check_work_save(&approved, Some(&item), &None, &None).is_err());
}

#[test]
fn scopes_are_bounded() {
    let items = vec![work(), work(), work()];
    let scope = vec![true, false, true];
    let found = scoped_work_items(&items, &scope, "candidate", 10, 10).unwrap();
    assert_eq!(found, vec![0, 2]);
    assert!(scoped_work_items(&items, &scope, "candidate", 2, 10).is_err());
    assert!(scoped_work_items(&items, &scope, "candidate", 10, 1).is_err());
}

#[test]
fn lists_are_ordered_by_time() {
    assert_eq!(newest_first(&vec![1, 3, 2]), vec![1, 2, 0]);
    assert_eq!(oldest_first(&vec![1, 3, 2]), vec![0, 2, 1]);
    let mut first = work();
    first.priority = 5;
    let items = vec![work(), first];
    assert_eq!(list_work_items(&items).len(), 2);
    let (_, attempt) = claimed(work(), "agent-1", "token-a", NOW);
    let mut later = attempt.clone();
    later.attempt_number = 2;
    later.work_id = "other".to_string();
    let attempts = vec![later, attempt.clone()];
    assert_eq!(list_work_attempts(&attempts, Some(&attempt.work_id)), vec![1]);
    assert_eq!(list_work_attempts(&attempts, None).len(), 2);
    assert_eq!(list_checkpoints(&Vec::new(), None).len(), 0);
}
