//! What is kept of runs, agents, requests and reviews, and what a restart makes
//! of it.

use agent_bridge::activation::{
    next_step, promote_queued_run_and_activate_agent, recover_agent_activation,
    save_run_and_activate_agent, ActivationFailure, ActivationStep,
};
use agent_bridge::agent::{AgentRecord, AgentSpec, AgentState, ModelSelection, SpecFacts};
use agent_bridge::bounds::RunBounds;
use agent_bridge::checkpoint::{ContinuationCheckpoint, ContinuationReason};
use agent_bridge::continuation::{
    save_continuation_context, save_continuation_input, ContinuationContext,
    ContinuationInputSnapshot, ReferencedInput,
};
use agent_bridge::error::{OrchError, OrchErrorCode};
use agent_bridge::idempotency::{
    claim_after_write, claim_idempotency, complete_idempotency, default_receipt_status,
    fail_idempotency, fail_orphaned_claim, IdempotencyClaim, IdempotencyReceipt, PublicReceipt,
};
use agent_bridge::json::Json;
use agent_bridge::layout::{
    agent_spec_path, audit_rotates, nested_path, record_folder, record_path, NestedKind,
    RecordKind, MAX_AUDIT_BYTES,
};
use agent_bridge::listing::{list_agent_specs, list_agents, list_runs};
use agent_bridge::retention::{
    prune_retention, LinkedRun, RetentionPolicy, DEFAULT_MAX_TERMINAL_RUNS,
};
use agent_bridge::review::{
    dependency_state, execution_identity, record_review_verdict, review_detail,
    review_intent_entry, review_outcome_entry, revoke_review_verdict, unresolved_reviews,
    VerifiedPrincipal,
};
use agent_bridge::roster::{
    claim_agent_owner, deactivate_agent_run, interrupt_agent_run, revise_agent_spec, save_agent,
    save_agent_spec, state_after_restart, update_agent, StoredSpec,
};
use agent_bridge::run::{
    finalize_run, mark_unfinished_interrupted, PromotionState, RunAggregates, RunExecution,
    RunExecutionMode, RunPurpose, RunRecord, RunState, RunStopCause,
};
use agent_bridge::workload::{
    ReviewVerdict, WorkItem, WorkPolicy, WorkReviewPolicy, WorkState,
};

const SESSION: u128 = 0x6ba7b810_9dad_41d1_80b4_00c04fd430c8;
const NOW: i128 = 1_700_000_000_000_000_000;
const SECOND: i128 = 1_000_000_000;
const HOUR: i128 = 3_600 * SECOND;
const DAY: i128 = 24 * HOUR;

fn terminal_run(run_id: &str) -> RunRecord {
    RunRecord {
        run_id: run_id.to_string(),
        session_id: SESSION,
        workspace: "/tmp/w".to_string(),
        request_id: format!("req-{run_id}"),
        client_id: None,
        state: RunState::Completed,
        purpose: RunPurpose::default(),
        agent_id: None,
        retry_of: None,
        parent_run_id: None,
        agent_spec_revision: None,
        checkpoint_id: None,
        continuation_context_id: None,
        continuation_context_hash: None,
        continuation_fidelity: None,
        queue_position: None,
        bounds: RunBounds::default(),
        prompt_preview: "hi".to_string(),
        start_seq: Some(1),
        end_seq: Some(2),
        created_at: NOW,
        updated_at: NOW,
        terminal_result: Some("completed".to_string()),
        final_response: Some("done".to_string()),
        error_code: None,
        stop_cause: None,
        aggregates: RunAggregates::default(),
        progress: None,
        execution: None,
        approval: None,
    }
}

fn running(run_id: &str) -> RunRecord {
    let mut run = terminal_run(run_id);
    run.state = RunState::Running;
    run.terminal_result = None;
    run.final_response = None;
    run.end_seq = None;
    run
}

fn facts_of(model: &str) -> SpecFacts {
    SpecFacts {
        selection: Ok(ModelSelection {
            provider_id: "xai".to_string(),
            model_id: model.to_string(),
        }),
        managed: None,
    }
}

fn facts() -> SpecFacts {
    facts_of("grok")
}

fn managed() -> Json {
    Json::null()
}

fn agent(agent_id: &str, workspace: &str) -> AgentRecord {
    AgentRecord {
        agent_id: agent_id.to_string(),
        owner_principal_id: None,
        session_id: SESSION,
        lane_ids: vec![SESSION],
        lane_associations: Vec::new(),
        workspace: workspace.to_string(),
        model: "grok".to_string(),
        spec: None,
        state: AgentState::Waiting,
        current_run_id: None,
        last_run_id: None,
        last_lane_id: Some(SESSION),
        latest_checkpoint_id: None,
        continuation_ordinal: 0,
        created_at: NOW,
        updated_at: NOW,
    }
}

/// An agent as it is after it was stored: with its first revision.
fn stored_agent(agent_id: &str, workspace: &str) -> AgentRecord {
    let mut agent = agent(agent_id, workspace);
    agent.migrate_legacy_spec(managed(), &facts()).unwrap();
    save_agent(&agent, None, &facts()).unwrap();
    agent
}

fn stored_spec(spec: &AgentSpec) -> StoredSpec {
    StoredSpec { spec: spec.clone(), facts: facts() }
}

fn principal(owner: &str) -> VerifiedPrincipal {
    VerifiedPrincipal { token_id: format!("token-of-{owner}"), owner_id: owner.to_string() }
}

fn gated_item(names: &[&str], required: u32) -> WorkItem {
    let mut item = WorkItem::new(
        "review",
        "synthetic objective",
        SESSION,
        "/tmp/ws",
        "creator",
        WorkPolicy::default(),
        NOW,
    )
    .unwrap();
    item.review = Some(WorkReviewPolicy {
        reviewers: names.iter().map(|r| (*r).to_string()).collect(),
        required_approvals: required,
        policy_revision: 1,
    });
    item
}

/// Records a verdict of the principal of that name, in its own name.
fn cast(
    item: WorkItem,
    name: &str,
    verdict: ReviewVerdict,
    revision: Option<u64>,
) -> Result<WorkItem, OrchError> {
    record_review_verdict(
        Some(item),
        &principal(name),
        name,
        verdict,
        None,
        None,
        "subject",
        revision,
        NOW,
    )
}

#[test]
fn restart_marks_running_interrupted() {
    let mut run = running("r1");
    run.request_id = "req1".to_string();
    run.reconcile_restart(NOW + SECOND);
    assert_eq!(run.state, RunState::Interrupted);
}

#[test]
fn restart_fails_closed_when_a_bounded_provider_attempt_was_unresolved() {
    let mut run = terminal_run("pending-provider");
    run.state = RunState::Running;
    run.terminal_result = None;
    run.final_response = None;
    run.bounds.max_total_tokens = Some(1_000);
    run.aggregates.usage_pending_requests = 1;
    run.reconcile_restart(NOW + SECOND);
    assert_eq!(run.state, RunState::Interrupted);
    assert_eq!(run.aggregates.usage_pending_requests, 0);
    assert!(!run.aggregates.usage_complete);
    assert_eq!(run.error_code.as_deref(), Some("max_total_tokens_usage_unavailable"));
    assert_eq!(run.stop_cause, Some(RunStopCause::TokenAccountingUnavailable));
}

#[test]
fn restart_reconciles_a_terminal_run_with_an_unresolved_provider_attempt() {
    let mut run = terminal_run("terminal-pending-provider");
    run.state = RunState::Cancelled;
    run.terminal_result = Some("cancelled".to_string());
    run.error_code = Some("cancelled".to_string());
    run.stop_cause = Some(RunStopCause::Cancelled);
    run.bounds.max_total_tokens = Some(1_000);
    run.aggregates.usage_pending_requests = 1;
    run.reconcile_restart(NOW + SECOND);
    assert_eq!(run.state, RunState::Cancelled);
    assert_eq!(run.aggregates.usage_pending_requests, 0);
    assert!(!run.aggregates.usage_complete);
    assert_eq!(run.error_code.as_deref(), Some("max_total_tokens_usage_unavailable"));
    assert_eq!(run.stop_cause, Some(RunStopCause::TokenAccountingUnavailable));
}

#[test]
fn restarts_count_what_was_open_and_name_what_changed() {
    let mut pending = terminal_run("pending");
    pending.aggregates.usage_pending_requests = 2;
    let mut runs = vec![terminal_run("over"), running("open"), pending];
    let (unfinished, touched) = mark_unfinished_interrupted(&mut runs, NOW + SECOND);
    assert_eq!(unfinished, 1);
    assert_eq!(touched, vec![1, 2]);
    assert!(runs.iter().all(|run| run.state.is_terminal()));
    assert!(runs.iter().all(|run| run.aggregates.usage_pending_requests == 0));
    assert_eq!(runs[1].state, RunState::Interrupted);
    assert_eq!(runs[2].updated_at, NOW + SECOND);
    let (unfinished, touched) = mark_unfinished_interrupted(&mut runs, NOW + 2 * SECOND);
    assert_eq!((unfinished, touched.len()), (0, 0));
}

#[test]
fn a_second_restart_changes_nothing() {
    let mut run = running("r1");
    let (changed, _) = run.reconcile_restart(NOW + SECOND);
    assert!(changed);
    let after = format!("{run:?}");
    let (again, _) = run.reconcile_restart(NOW + 2 * SECOND);
    assert!(!again);
    assert_eq!(format!("{run:?}"), after);
}

#[test]
fn restart_marks_bound_agent_interrupted_but_preserves_checkpoint() {
    let mut cp = ContinuationCheckpoint {
        checkpoint_id: "checkpoint-r-agent".to_string(),
        agent_id: "agent-restart".to_string(),
        session_id: SESSION,
        run_id: "r-agent".to_string(),
        agent_spec_revision: None,
        parent_checkpoint_id: None,
        ordinal: 1,
        workspace: "/tmp/w".to_string(),
        context_summary: "verified context".to_string(),
        context_hash: String::new(),
        event_seq: 2,
        reason: ContinuationReason::TurnCompleted,
        created_at: NOW,
    };
    cp.context_hash = cp.context_hash_for();
    assert!(cp.validate().is_ok());
    let mut bound = stored_agent("agent-restart", "/tmp/w");
    bound.state = AgentState::Active;
    bound.current_run_id = Some("r-agent".to_string());
    bound.latest_checkpoint_id = Some(cp.checkpoint_id.clone());
    bound.continuation_ordinal = 1;
    let mut run = running("r-agent");
    run.agent_id = Some("agent-restart".to_string());
    let state = state_after_restart(Some(&run), "agent-restart");
    run.reconcile_restart(NOW + SECOND);
    let agent =
        interrupt_agent_run(bound, &"r-agent".to_string(), state, &facts(), NOW + SECOND).unwrap();
    assert_eq!(agent.state, AgentState::Interrupted);
    assert_eq!(agent.current_run_id, None);
    assert_eq!(agent.latest_checkpoint_id, Some(cp.checkpoint_id));
}

#[test]
fn restart_clears_agent_after_terminal_run_before_checkpoint_attach() {
    let mut bound = stored_agent("agent-terminal-gap", "/tmp/w");
    bound.state = AgentState::Active;
    bound.current_run_id = Some("terminal-gap".to_string());
    let mut run = terminal_run("terminal-gap");
    run.agent_id = Some("agent-terminal-gap".to_string());
    let state = state_after_restart(Some(&run), "agent-terminal-gap");
    run.reconcile_restart(NOW + SECOND);
    let agent = interrupt_agent_run(
        bound,
        &"terminal-gap".to_string(),
        state,
        &facts(),
        NOW + SECOND,
    )
    .unwrap();
    assert_eq!(agent.state, AgentState::Waiting);
    assert_eq!(agent.current_run_id, None);
}

#[test]
fn agent_spec_revisions_are_append_only_and_attributable() {
    let mut legacy = agent("agent-revisions", "/tmp/project");
    let stored = stored_agent("agent-revisions", "/tmp/project");
    let first = stored.current_spec().unwrap().clone();
    assert!(save_agent_spec("agent-revisions", &first, None, &facts()).unwrap());
    let mut next = first.clone();
    next.role = "Release steward".to_string();
    let revised = revise_agent_spec(
        stored,
        Ok(next),
        &"operator:test".to_string(),
        &vec![stored_spec(&first)],
        &facts(),
        NOW + SECOND,
    )
    .unwrap();
    assert!(revised.write_spec);
    let current = revised.agent.current_spec().unwrap();
    assert_eq!(current.revision, 2);
    assert_eq!(current.previous_revision, Some(1));
    assert_eq!(current.created_by, "operator:test");
    assert_eq!(current.role, "Release steward");
    let specs = vec![current.clone(), first];
    let order = list_agent_specs(&specs);
    assert_eq!(order.len(), 2);
    assert_eq!(specs[order[0]].role, "Software development agent");

    legacy.migrate_legacy_spec(managed(), &facts()).unwrap();
    assert!(save_agent(&legacy, Some(&revised.agent), &facts()).is_err());
    legacy.spec.as_mut().unwrap().role = "tampered".to_string();
    assert!(save_agent(&legacy, Some(&revised.agent), &facts()).is_err());
}

#[test]
fn orphaned_agent_spec_revision_is_reused_or_skipped_without_wedging() {
    let stored = stored_agent("agent-orphan-revision", "/tmp/project");
    let current = stored.current_spec().unwrap().clone();
    let mut orphan = current.clone();
    orphan.revision = 2;
    orphan.previous_revision = Some(1);
    orphan.role = "First attempted role".to_string();
    orphan.created_by = "operator:test".to_string();
    orphan.created_at = NOW + SECOND;
    assert!(save_agent_spec("agent-orphan-revision", &orphan, None, &facts()).unwrap());

    let mut next = current.clone();
    next.role = "First attempted role".to_string();
    let reused = revise_agent_spec(
        stored,
        Ok(next),
        &"operator:test".to_string(),
        &vec![stored_spec(&current), stored_spec(&orphan)],
        &facts(),
        NOW + 2 * SECOND,
    )
    .unwrap();
    assert_eq!(reused.agent.current_spec().unwrap().revision, 2);
    assert!(!reused.write_spec);

    let second = reused.agent.current_spec().unwrap().clone();
    let mut conflicting = second.clone();
    conflicting.revision = 3;
    conflicting.previous_revision = Some(2);
    conflicting.role = "Abandoned role".to_string();
    conflicting.created_by = "operator:abandoned".to_string();
    conflicting.created_at = NOW + 3 * SECOND;
    assert!(save_agent_spec("agent-orphan-revision", &conflicting, None, &facts()).unwrap());
    let mut last = second.clone();
    last.role = "Final role".to_string();
    let advanced = revise_agent_spec(
        reused.agent,
        Ok(last),
        &"operator:test".to_string(),
        &vec![stored_spec(&current), stored_spec(&second), stored_spec(&conflicting)],
        &facts(),
        NOW + 4 * SECOND,
    )
    .unwrap();
    assert_eq!(advanced.agent.current_spec().unwrap().revision, 4);
    assert_eq!(advanced.agent.current_spec().unwrap().previous_revision, Some(2));
}

#[test]
fn owners_are_claimed_once() {
    let stored = stored_agent("agent-owner", "/tmp/w");
    let owned = claim_agent_owner(Some(stored), "agent-owner", "owner-1", &facts(), NOW + SECOND)
        .unwrap()
        .unwrap();
    assert_eq!(owned.owner_principal_id.as_deref(), Some("owner-1"));
    assert!(
        claim_agent_owner(Some(owned), "agent-owner", "owner-2", &facts(), NOW + SECOND).is_err()
    );
    assert!(claim_agent_owner(None, "agent-owner", "owner-1", &facts(), NOW).unwrap().is_none());
    assert!(claim_agent_owner(None, "agent-owner", "  ", &facts(), NOW).is_err());
}

#[test]
fn updates_keep_the_revision() {
    let stored = stored_agent("agent-update", "/tmp/w");
    let mut changed = stored.clone();
    changed.continuation_ordinal = 3;
    let updated = update_agent(&stored, changed.clone(), &facts(), NOW + SECOND).unwrap();
    assert_eq!(updated.continuation_ordinal, 3);
    assert_eq!(updated.updated_at, NOW + SECOND);
    changed.spec.as_mut().unwrap().role = "tampered".to_string();
    assert!(update_agent(&stored, changed, &facts(), NOW + SECOND).is_err());
}

#[test]
fn idempotency_claim_exclusive() {
    let (claim, receipt) = claim_idempotency(None, "t", "req", "h", NOW).unwrap();
    match claim {
        IdempotencyClaim::Perform => {}
        _ => panic!("first claim should perform"),
    }
    let done = complete_idempotency(
        receipt,
        "t",
        "req",
        "h",
        None,
        Json::from_compact("{\"ok\":true}".to_string()),
        NOW + SECOND,
    )
    .unwrap();
    assert_eq!(done.created_at, NOW);
    assert_eq!(done.settled_at, Some(NOW + SECOND));
    let again = IdempotencyReceipt { response: done.response.clone(), ..done };
    let (claim, written) = claim_idempotency(Some(again), "t", "req", "h", NOW).unwrap();
    match claim {
        IdempotencyClaim::Replay(Ok(v)) => assert_eq!(v.text, "{\"ok\":true}"),
        _ => panic!("replay"),
    }
    assert!(written.is_none());
    let (_, receipt) = claim_idempotency(None, "t", "req", "h", NOW).unwrap();
    assert!(claim_idempotency(receipt, "t", "req", "other", NOW).is_err());
}

#[test]
fn open_claims_are_pending() {
    let (_, receipt) = claim_idempotency(None, "t", "req", "h", NOW).unwrap();
    let (claim, _) = claim_idempotency(receipt, "t", "req", "h", NOW).unwrap();
    assert!(matches!(claim, IdempotencyClaim::Pending));
    assert!(matches!(claim_after_write(true), IdempotencyClaim::Pending));
    assert!(matches!(claim_after_write(false), IdempotencyClaim::Perform));
    assert_eq!(default_receipt_status(), "complete");
}

#[test]
fn terminal_receipt_cannot_be_overwritten() {
    let (claim, receipt) = claim_idempotency(None, "t", "failed", "h", NOW).unwrap();
    assert!(matches!(claim, IdempotencyClaim::Perform));
    let error = OrchError::new(OrchErrorCode::Internal, "failed once");
    let failed =
        fail_idempotency(receipt, "t", "failed", "h", None, error.clone(), NOW + SECOND).unwrap();
    let copy = |r: &IdempotencyReceipt| IdempotencyReceipt {
        request_id: r.request_id.clone(),
        scope: r.scope.clone(),
        payload_hash: r.payload_hash.clone(),
        run_id: r.run_id.clone(),
        tool: r.tool.clone(),
        response: r.response.clone(),
        error: r.error.clone(),
        created_at: r.created_at,
        settled_at: r.settled_at,
        status: r.status.clone(),
    };
    assert!(complete_idempotency(
        Some(copy(&failed)),
        "t",
        "failed",
        "h",
        None,
        Json::from_compact("{\"ok\":true}".to_string()),
        NOW
    )
    .is_err());
    match claim_idempotency(Some(failed), "t", "failed", "h", NOW).unwrap().0 {
        IdempotencyClaim::Replay(Err(replayed)) => {
            assert_eq!(replayed.code.as_str(), error.code.as_str());
            assert_eq!(replayed.message, error.message);
        }
        _ => panic!("failed outcome must remain monotonic"),
    }
}

#[test]
fn restart_fails_orphaned_idempotency_claim() {
    let (claim, receipt) = claim_idempotency(None, "t", "orphan", "h", NOW).unwrap();
    assert!(matches!(claim, IdempotencyClaim::Perform));
    let mut orphan = receipt.unwrap();
    assert!(fail_orphaned_claim(&mut orphan, NOW + SECOND));
    assert!(!fail_orphaned_claim(&mut orphan, NOW + 2 * SECOND));
    match claim_idempotency(Some(orphan), "t", "orphan", "h", NOW).unwrap().0 {
        IdempotencyClaim::Replay(Err(e)) => {
            assert!(e.message.contains("interrupted"));
        }
        _ => panic!("orphan must become a durable failed receipt"),
    }
}

#[test]
fn traversal_id_rejected() {
    assert!(record_path(RecordKind::Receipt, "../x").is_err());
}

#[test]
fn receipts_are_classified() {
    assert_eq!(PublicReceipt::classify("ptah_submit_task"), "submit_task");
}

fn receipt(request_id: &str, status: &str, created_at: i128) -> IdempotencyReceipt {
    IdempotencyReceipt {
        request_id: request_id.to_string(),
        scope: None,
        payload_hash: "hash".to_string(),
        run_id: None,
        tool: "ptah_submit_task".to_string(),
        response: Json::null(),
        error: None,
        created_at,
        settled_at: None,
        status: status.to_string(),
    }
}

#[test]
fn retention_prunes_only_expirable_records() {
    let mut old = terminal_run("old-shared");
    old.updated_at = NOW - 10 * DAY;
    let mut retry_source = terminal_run("retry-source");
    retry_source.state = RunState::Interrupted;
    retry_source.updated_at = NOW - 10 * DAY;
    let mut retry = terminal_run("retry-child");
    retry.retry_of = Some("retry-source".to_string());
    let mut active = terminal_run("active");
    active.state = RunState::Running;
    active.updated_at = NOW - 10 * DAY;
    let mut isolated = terminal_run("isolated-live");
    isolated.updated_at = NOW - 10 * DAY;
    isolated.execution = Some(RunExecution {
        mode: RunExecutionMode::IsolatedWorktree,
        source_workspace: "/tmp/d".to_string(),
        execution_workspace: "/tmp/d/live-worktree".to_string(),
        base_revision: "base".to_string(),
        source_fingerprint: "source".to_string(),
        final_fingerprint: Some("final".to_string()),
        promotion_state: PromotionState::Ready,
        promoted_at: None,
    });
    let runs = vec![old, retry_source, retry, active, isolated];
    let mut settled = receipt("old-receipt", "complete", NOW - 10 * DAY);
    settled.response = Json::from_compact("{\"runId\":\"old-shared\"}".to_string());
    let plan = prune_retention(
        &RetentionPolicy {
            max_terminal_runs: 100,
            max_idempotency_receipts: 100,
            terminal_run_age: DAY,
            idempotency_receipt_age: DAY,
        },
        &runs,
        &vec![false, false, false, false, true],
        &vec![settled],
        &vec![LinkedRun::Absent],
        NOW,
    )
    .unwrap();
    assert_eq!(plan.runs, vec![0]);
    assert_eq!(plan.receipts, vec![0]);
}

#[test]
fn retention_enforces_terminal_run_count_without_deleting_recent_active() {
    let mut runs = Vec::new();
    for (run_id, age_hours) in [("oldest", 3), ("middle", 2), ("newest", 1)] {
        let mut run = terminal_run(run_id);
        run.updated_at = NOW - age_hours * HOUR;
        runs.push(run);
    }
    let plan = prune_retention(
        &RetentionPolicy {
            max_terminal_runs: 2,
            max_idempotency_receipts: 100,
            terminal_run_age: 365 * DAY,
            idempotency_receipt_age: 365 * DAY,
        },
        &runs,
        &vec![false, false, false],
        &Vec::new(),
        &Vec::new(),
        NOW,
    )
    .unwrap();
    assert_eq!(plan.runs.len(), 1);
    assert_eq!(runs[plan.runs[0]].run_id, "oldest");
}

#[test]
fn retention_fails_closed_on_invalid_policy_and_unknown_receipt_status() {
    let mut unknown = receipt("unknown-status", "future_status", NOW - 10 * DAY);
    unknown.tool = "ptah_queue_prompt".to_string();
    let receipts = vec![unknown];
    let linked = vec![LinkedRun::Absent];
    let invalid = RetentionPolicy { terminal_run_age: -DAY, ..RetentionPolicy::default() };
    assert!(
        prune_retention(&invalid, &Vec::new(), &Vec::new(), &receipts, &linked, NOW).is_err()
    );

    let plan = prune_retention(
        &RetentionPolicy {
            terminal_run_age: DAY,
            idempotency_receipt_age: DAY,
            ..RetentionPolicy::default()
        },
        &Vec::new(),
        &Vec::new(),
        &receipts,
        &linked,
        NOW,
    )
    .unwrap();
    assert_eq!(plan.receipts.len(), 0);
    assert!(plan.skipped_files >= 1);
    assert_eq!(RetentionPolicy::default().max_terminal_runs, DEFAULT_MAX_TERMINAL_RUNS);
}

#[test]
fn receipts_of_active_runs_are_kept() {
    let mut linked = receipt("r", "complete", NOW - 10 * DAY);
    linked.run_id = Some("run-1".to_string());
    let policy = RetentionPolicy { idempotency_receipt_age: DAY, ..RetentionPolicy::default() };
    let receipts = vec![linked];
    for (state, removed) in [
        (LinkedRun::Active, 0),
        (LinkedRun::Unreadable, 0),
        (LinkedRun::Terminal, 1),
        (LinkedRun::Absent, 1),
    ] {
        let plan =
            prune_retention(&policy, &Vec::new(), &Vec::new(), &receipts, &vec![state], NOW)
                .unwrap();
        assert_eq!(plan.receipts.len(), removed, "{state:?}");
    }
}

#[test]
fn finalization_preserves_newer_durable_usage_and_typed_stop() {
    let mut durable = terminal_run("usage-final");
    durable.state = RunState::Running;
    durable.terminal_result = None;
    durable.final_response = None;
    durable.aggregates.usage.prompt_tokens = 7;
    durable.aggregates.usage.completion_tokens = 5;
    durable.aggregates.usage.total_tokens = 12;
    durable.aggregates.usage.requests = 2;
    durable.aggregates.usage_complete = false;
    durable.error_code = Some("max_total_tokens_usage_unavailable".to_string());
    durable.stop_cause = Some(RunStopCause::TokenAccountingUnavailable);

    let mut stale_candidate = terminal_run("usage-final");
    stale_candidate.error_code = Some("limit_reached".to_string());
    stale_candidate.stop_cause = Some(RunStopCause::Completed);
    let finalized = finalize_run(stale_candidate, Some(&durable)).unwrap();

    assert_eq!(finalized.aggregates.usage.prompt_tokens, 7);
    assert_eq!(finalized.aggregates.usage.completion_tokens, 5);
    assert_eq!(finalized.aggregates.usage.total_tokens, 12);
    assert_eq!(finalized.aggregates.usage.requests, 2);
    assert!(!finalized.aggregates.usage_complete);
    assert_eq!(finalized.error_code.as_deref(), Some("max_total_tokens_usage_unavailable"));
    assert_eq!(finalized.stop_cause, Some(RunStopCause::TokenAccountingUnavailable));
}

#[test]
fn finalization_keeps_accounting_fields_consistent_across_a_cancel_race() {
    let mut cancelled = terminal_run("cancel-accounting-race");
    cancelled.state = RunState::Cancelled;
    cancelled.terminal_result = Some("cancelled".to_string());
    cancelled.error_code = Some("cancelled".to_string());
    cancelled.stop_cause = Some(RunStopCause::Cancelled);
    cancelled.bounds.max_total_tokens = Some(100);
    cancelled.aggregates.usage_pending_requests = 1;

    let mut accounting = terminal_run("cancel-accounting-race");
    accounting.state = RunState::LimitReached;
    accounting.bounds.max_total_tokens = Some(100);
    accounting.terminal_result = Some("max_total_tokens_usage_unavailable".to_string());
    accounting.error_code = Some("max_total_tokens_usage_unavailable".to_string());
    accounting.stop_cause = Some(RunStopCause::TokenAccountingUnavailable);
    accounting.aggregates.usage_complete = false;
    accounting.aggregates.usage_pending_requests = 0;

    let finalized = finalize_run(accounting, Some(&cancelled)).unwrap();
    assert_eq!(finalized.state, RunState::Cancelled);
    assert_eq!(finalized.stop_cause, Some(RunStopCause::TokenAccountingUnavailable));
    assert_eq!(finalized.terminal_result.as_deref(), Some("max_total_tokens_usage_unavailable"));
    assert_eq!(finalized.error_code.as_deref(), Some("max_total_tokens_usage_unavailable"));
    assert_eq!(finalized.aggregates.usage_pending_requests, 0);
    assert!(!finalized.aggregates.usage_complete);
}

#[test]
fn finalization_takes_the_candidate_where_nothing_is_stored() {
    let finalized = finalize_run(terminal_run("corrupt-final"), None).unwrap();
    assert_eq!(finalized.state, RunState::Completed);
    assert!(finalize_run(running("open"), None).is_err());
}

#[test]
fn agent_activation_serializes_competing_lane_runs() {
    let second_lane = SESSION + 1;
    let mut stored = stored_agent("agent-activation-race", "/tmp/w");
    stored.lane_ids = vec![SESSION, second_lane];
    stored.lane_associations = Vec::new();
    stored.last_lane_id = None;
    let id = "agent-activation-race";
    let mut first = running("activation-first");
    first.agent_id = Some(id.to_string());
    first.agent_spec_revision = Some(stored.current_spec().unwrap().revision);
    let mut second = first.clone();
    second.run_id = "activation-second".to_string();
    second.request_id = "req-activation-second".to_string();
    second.session_id = second_lane;

    let active =
        save_run_and_activate_agent(&first, id, false, Some(stored), &facts(), false, NOW).unwrap();
    let error = save_run_and_activate_agent(
        &second,
        id,
        false,
        Some(active.clone()),
        &facts(),
        false,
        NOW,
    )
    .unwrap_err();
    assert!(error.contains("active Run"), "unexpected error: {error}");
    assert_eq!(active.current_run_id.as_deref(), Some("activation-first"));

    let waiting = deactivate_agent_run(
        Some(active),
        id,
        &"activation-first".to_string(),
        false,
        &facts(),
        NOW + SECOND,
    )
    .unwrap();
    second.state = RunState::Queued;
    second.start_seq = None;
    let promotion = promote_queued_run_and_activate_agent(
        "activation-second",
        id,
        42,
        false,
        Some(second),
        Some(waiting),
        &facts(),
        NOW + 2 * SECOND,
    )
    .unwrap()
    .unwrap();
    assert_eq!(promotion.run.state, RunState::Running);
    assert_eq!(promotion.run.start_seq, Some(42));
    assert_eq!(promotion.agent.current_run_id.as_deref(), Some("activation-second"));
}

#[test]
fn restart_recovers_partial_agent_activation_then_interrupts_it() {
    let id = "agent-activation-crash";
    let run_id = "activation-crash-run".to_string();
    let stored = stored_agent(id, "/tmp/w");
    let mut run = running(&run_id);
    run.purpose = RunPurpose::ManagerProposal;
    run.agent_id = Some(id.to_string());
    let mut activated = stored.clone();
    activated.state = AgentState::Active;
    activated.current_run_id = Some(run_id.clone());
    activated.last_lane_id = Some(SESSION);
    recover_agent_activation(&run, &activated, Some(true), Some(&stored)).unwrap();

    let state = state_after_restart(Some(&run), id);
    run.reconcile_restart(NOW + SECOND);
    let agent = interrupt_agent_run(activated, &run_id, state, &facts(), NOW + SECOND).unwrap();
    assert_eq!(run.state, RunState::Interrupted);
    assert_eq!(run.purpose, RunPurpose::ManagerProposal);
    assert_eq!(agent.state, AgentState::Interrupted);
    assert_eq!(agent.current_run_id, None);
    assert_eq!(agent.last_run_id.as_deref(), Some(run_id.as_str()));
}

#[test]
fn activations_write_the_intent_first_and_the_agent_last() {
    let mut step = ActivationStep::WriteIntent;
    let mut seen = Vec::new();
    while !matches!(step, ActivationStep::Finished | ActivationStep::Failed(_)) {
        seen.push(step);
        step = next_step(step, false, true);
    }
    assert_eq!(step, ActivationStep::Finished);
    assert_eq!(
        seen,
        vec![
            ActivationStep::WriteIntent,
            ActivationStep::WriteRun,
            ActivationStep::WriteAgent,
            ActivationStep::ClearIntent,
        ]
    );
    assert_eq!(
        next_step(ActivationStep::WriteIntent, false, false),
        ActivationStep::Failed(ActivationFailure::Intent)
    );
}

#[test]
fn a_principal_may_only_cast_its_own_verdict() {
    let item = gated_item(&["r1", "r2"], 2);
    let error = record_review_verdict(
        Some(item.clone()),
        &principal("r2"),
        "r1",
        ReviewVerdict::Approve,
        None,
        None,
        "subject",
        None,
        NOW,
    )
    .expect_err("impersonation must be refused");
    assert!(error.message.contains("only record its own"), "{}", error.message);

    let error = cast(item, "intruder", ReviewVerdict::Approve, None)
        .expect_err("an unnamed party must be refused");
    assert!(error.message.contains("does not name"), "{}", error.message);
}

#[test]
fn a_stale_expected_revision_is_refused() {
    let item = gated_item(&["r1", "r2"], 2);
    let before = item.revision;
    let updated = cast(item, "r1", ReviewVerdict::Approve, Some(before)).expect("first verdict");
    let error = cast(updated, "r2", ReviewVerdict::Approve, Some(before))
        .expect_err("a stale expected revision must be refused");
    assert_eq!(error.code, OrchErrorCode::StaleVersion);
}

#[test]
fn verdicts_are_immutable_until_they_are_revoked() {
    let approved = cast(gated_item(&["r1"], 1), "r1", ReviewVerdict::Approve, None).unwrap();
    assert_eq!(approved.review_receipts.len(), 1);
    assert_eq!(approved.review_receipts[0].subject_digest, "subject");
    assert_eq!(approved.review_receipts[0].principal_owner_id, "r1");
    assert!(
        cast(approved.clone(), "r1", ReviewVerdict::Reject, None).is_err(),
        "an active verdict must be revoked before it can change"
    );
    let revision = approved.revision;
    let revoked = revoke_review_verdict(
        Some(approved),
        &principal("r1"),
        "r1",
        "subject",
        Some(revision),
        NOW + SECOND,
    )
    .unwrap();
    assert_eq!(revoked.review_receipts.len(), 1, "the receipt is retained");
    assert!(revoked.review_receipts[0].revoked_at.is_some());
    let recast = cast(revoked, "r1", ReviewVerdict::Reject, None).unwrap();
    assert_eq!(recast.review_receipts.len(), 2);
    assert_eq!(recast.review_receipts[1].verdict, ReviewVerdict::Reject);
}

#[test]
fn verdicts_on_an_old_subject_bind_nothing() {
    let approved = cast(gated_item(&["r1"], 1), "r1", ReviewVerdict::Approve, None).unwrap();
    let fresh = record_review_verdict(
        Some(approved.clone()),
        &principal("r1"),
        "r1",
        ReviewVerdict::Approve,
        None,
        None,
        "another subject",
        None,
        NOW,
    )
    .unwrap();
    assert_eq!(fresh.review_receipts.len(), 2);
    let gone = revoke_review_verdict(
        Some(approved),
        &principal("r1"),
        "r1",
        "another subject",
        None,
        NOW,
    );
    assert_eq!(gone.unwrap_err().code, OrchErrorCode::Conflict);
}

#[test]
fn a_terminal_item_accepts_no_verdict() {
    let mut item = gated_item(&["r1"], 1);
    item.state = WorkState::Cancelled;
    item.bump(NOW);
    let error = cast(item, "r1", ReviewVerdict::Approve, None)
        .expect_err("a terminal item must not accept a verdict");
    assert!(error.message.contains("terminal"), "{}", error.message);
}

#[test]
fn ungated_items_accept_no_verdict() {
    let mut item = gated_item(&["r1"], 1);
    item.review = None;
    let error = cast(item, "r1", ReviewVerdict::Approve, None).unwrap_err();
    assert_eq!(error.message, "work item has no review gate");
    let missing = record_review_verdict(
        None,
        &principal("r1"),
        "r1",
        ReviewVerdict::Approve,
        None,
        None,
        "subject",
        None,
        NOW,
    );
    assert!(missing.is_err());
}

#[test]
fn interrupted_reviews_are_closed_once() {
    let item = gated_item(&["r1"], 1);
    let intent =
        review_intent_entry(&item, "record", "intent-interrupted", "work under review", NOW);
    assert_eq!(intent.outcome, "record_intent");
    assert_eq!(intent.tool, "work_review_verdict");
    let mut log = vec![intent];
    let closed = unresolved_reviews(&log, NOW + SECOND);
    assert_eq!(closed.len(), 1);
    assert_eq!(closed[0].outcome, "record_unresolved");
    assert_eq!(closed[0].request_id.as_deref(), Some("intent-interrupted"));
    log.extend(closed);
    assert_eq!(unresolved_reviews(&log, NOW + 2 * SECOND).len(), 0);
}

#[test]
fn settled_reviews_need_no_closing() {
    let item = gated_item(&["r1"], 1);
    let detail = review_detail(&item, "r1", Some(ReviewVerdict::Approve), 1, "abc");
    assert_eq!(
        detail,
        format!(
            "work {} revision {} identity r1 verdict Approve policy revision 1 subject abc",
            item.work_id, item.revision
        )
    );
    let intent = review_intent_entry(&item, "record", "i", &detail, NOW);
    let outcome = review_outcome_entry(&item, "record", "i", &detail, None, NOW + SECOND);
    assert_eq!(outcome.outcome, "record_committed");
    assert_eq!(unresolved_reviews(&vec![intent, outcome], NOW).len(), 0);
    let failed = review_outcome_entry(&item, "record", "i", &detail, Some("disk full"), NOW);
    assert_ne!(failed.outcome, "record_committed");
}

#[test]
fn identities_of_execution_follow_the_assignment() {
    let mut item = gated_item(&["r1"], 1);
    let agent = stored_agent("agent-a", "/tmp/ws");
    assert!(execution_identity(&item, Some(&agent)).is_none());
    item.assigned_agent_id = Some("agent-a".to_string());
    let identity = execution_identity(&item, Some(&agent)).unwrap();
    assert_eq!(identity.agent_id, "agent-a");
    assert_eq!(identity.agent_spec_revision, 1);
    assert_eq!(identity.model_selection_key, "grok");
    assert_eq!(dependency_state(Some(&item), true), Some(WorkState::Queued));
    assert_eq!(dependency_state(Some(&item), false), None);
    assert_eq!(dependency_state(None, true), None);
}

#[test]
fn audit_logs_rotate_at_their_bound() {
    assert!(!audit_rotates(None));
    assert!(!audit_rotates(Some(MAX_AUDIT_BYTES - 1)));
    assert!(audit_rotates(Some(MAX_AUDIT_BYTES)));
}

#[test]
fn records_have_their_own_directories() {
    let run = record_path(RecordKind::Run, "run-1").unwrap();
    let agent = record_path(RecordKind::Agent, "run-1").unwrap();
    assert_ne!(run, agent);
    assert!(run.starts_with(RecordKind::Run.directory()));
    assert!(run.ends_with(".json"));
    let folder = record_folder(NestedKind::WorkDecision, "work-1").unwrap();
    let nested = nested_path(NestedKind::WorkDecision, "work-1", "decision-1").unwrap();
    assert!(nested.starts_with(&folder));
    assert!(agent_spec_path("agent-1", 7).unwrap().contains('7'));
    assert!(agent_spec_path("../agent", 7).is_err());
    assert!(nested_path(NestedKind::WorkDecision, "work-1", "a/b").is_err());
}

#[test]
fn newer_records_come_first() {
    let mut old = terminal_run("old");
    old.updated_at = NOW - DAY;
    old.created_at = NOW - DAY;
    let runs = vec![old, terminal_run("new")];
    assert_eq!(list_runs(&runs), vec![1, 0]);
    let mut early = agent("early", "/tmp/w");
    early.updated_at = NOW - DAY;
    early.created_at = NOW - DAY;
    assert_eq!(list_agents(&vec![early, agent("late", "/tmp/w")]).len(), 2);
}

#[test]
fn continuations_are_bound_to_their_input() {
    let snapshot = ContinuationInputSnapshot {
        input_hash: "hash-1".to_string(),
        document: Json::from_compact("{\"a\":1}".to_string()),
    };
    assert_eq!(save_continuation_input(&snapshot, None, None), Ok(true));
    assert_eq!(save_continuation_input(&snapshot, None, Some(&snapshot)), Ok(false));
    let other = ContinuationInputSnapshot {
        input_hash: "hash-1".to_string(),
        document: Json::from_compact("{\"a\":2}".to_string()),
    };
    assert!(save_continuation_input(&other, None, Some(&snapshot)).is_err());
    let context = ContinuationContext {
        context_id: "context-1".to_string(),
        input_hash: "hash-1".to_string(),
        document: Json::null(),
    };
    assert!(save_continuation_context(&context, None, None, None).is_err());
    let input = ReferencedInput {
        snapshot,
        refusal: None,
        assembled: Ok(ContinuationContext {
            context_id: "context-1".to_string(),
            input_hash: "hash-1".to_string(),
            document: Json::null(),
        }),
    };
    assert_eq!(save_continuation_context(&context, None, Some(input), None), Ok(true));
}
