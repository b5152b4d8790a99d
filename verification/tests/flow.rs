//! Routines, managed execution, messages, plans, sends and supervisors.

use agent_bridge::bounds::RunBounds;
use agent_bridge::error::{OrchError, OrchErrorCode};
use agent_bridge::ledger::work_failure_result;
use agent_bridge::managed::{
    abandon_managed_intent, abort_managed_permission_resolve, begin_managed_permission_resolve,
    close_managed_attempt_until, finalize_managed_intent_until, find_permission,
    find_run_by_request_id, list_managed_intents, live_managed_intent_for_work,
    live_managed_intents_for_agent, next_attempt_number, reconcile_claiming_intent,
    resolve_parked_managed_permission, run_source, settle_attempt, settle_intent, settle_work,
    stage_reaches, ManagedExecutionIntent, ManagedFinalizationOutcome, ManagedFinalizationStage,
    ManagedIntentState, ManagedRetryCause, PermissionScope, RunSource,
};
use agent_bridge::manager::{
    check_decision_work, check_plan_swap, check_plan_with_root, list_manager_decisions,
    list_manager_plans, ManagerDecisionRecord, ManagerPlan,
};
use agent_bridge::message::{
    ack_message, last_message_seq, list_messages, list_recent_messages, messages_to_prune,
    send_message, send_message_once, MessageScope, SendFacts, WorkMessage,
};
use agent_bridge::physical_send::{
    advance, is_bound, wire_idempotency_key, PhysicalSendBinding, Receipts, SendEvent,
    PROVIDER_REQUEST_ID_HEADER,
};
use agent_bridge::routine::{
    activate_routine, activations_to_prune, begin_firing, count_activation, list_activations,
    note_fired, note_missed, scheduled_request, set_routine_lifecycle, ActivationCause,
    ActivationDisposition, ActivationFacts, ActivationRequest, CapturedActivationPolicy, Firing,
    RoutineFireReport, RoutineLifecycle, RoutineRecord, WorkTemplate,
};
use agent_bridge::supervisor::{
    interval_ms, used_interval, ManagerSupervisorStatus, RoutineSupervisorStatus,
    WorkloadSupervisorStatus, DEFAULT_WORKLOAD_RECONCILIATION_INTERVAL,
};
use agent_bridge::workload::{
    AttemptState, WorkAttempt, WorkItem, WorkPolicy, WorkState, WorkloadReconciliationReport,
};

const SESSION: u128 = 0x6ba7b810_9dad_41d1_80b4_00c04fd430c8;
const NOW: i128 = 1_700_000_000_000_000_000;
const SECOND: i128 = 1_000_000_000;

fn work(work_id: &str) -> WorkItem {
    WorkItem::with_id(
        work_id,
        "coding",
        "Run the conformance suite",
        SESSION,
        "/tmp/project",
        "operator",
        WorkPolicy::default(),
        NOW,
    )
    .unwrap()
}

fn routine() -> RoutineRecord {
    RoutineRecord {
        routine_id: "routine-1".to_string(),
        revision: 4,
        lifecycle: RoutineLifecycle::Enabled,
        expires_at: None,
        agent_id: "agent-1".to_string(),
        session_id: SESSION,
        workspace: "/tmp/project".to_string(),
        work_template: WorkTemplate {
            kind: "coding".to_string(),
            objective: "Nightly run".to_string(),
            priority: 3,
            policy: WorkPolicy::default(),
        },
        max_in_flight: 1,
        circuit_failures: 2,
        consecutive_failures: 0,
        circuit_open: false,
        next_fire_at: Some(NOW),
        last_fire_at: None,
        updated_at: NOW,
    }
}

fn captured() -> CapturedActivationPolicy {
    CapturedActivationPolicy {
        routine_revision: 4,
        agent_id: Some("agent-1".to_string()),
        agent_spec_revision: Some(1),
        run_bounds: RunBounds::default(),
        work_policy: WorkPolicy::default(),
        sandbox_profile: "workspace-write".to_string(),
        computer_use_allowed: false,
        auto_approve_tools: false,
    }
}

fn activation_facts() -> ActivationFacts {
    ActivationFacts {
        dedupe: None,
        existing: None,
        payload: Ok(None),
        lifecycle_skip: None,
        in_flight: 0,
        agent_workspace_matches: Some(true),
        captured: Ok(captured()),
        bare: None,
        bare_default: None,
        retry_delay: 60 * SECOND,
        activation_refusal: None,
        work_id: "work-1".to_string(),
        activation_id: "activation-1".to_string(),
    }
}

fn request(cause: ActivationCause) -> ActivationRequest {
    ActivationRequest {
        cause,
        trigger_kind: "schedule".to_string(),
        dedupe_key: "key-1".to_string(),
        scheduled_at: NOW,
        received_at: NOW,
        created_by: "routine-supervisor".to_string(),
    }
}

#[test]
fn passes_fire_what_is_due_and_count_the_rest() {
    let mut report = RoutineFireReport::default();
    assert_eq!(begin_firing(Some(NOW), Some(2), NOW, &mut report), Firing::Due);
    assert_eq!(begin_firing(Some(NOW + 1), Some(0), NOW, &mut report), Firing::Idle);
    assert_eq!(begin_firing(None, Some(0), NOW, &mut report), Firing::Idle);
    assert_eq!((report.skipped, report.rejected), (0, 0));
    assert_eq!(begin_firing(Some(NOW), Some(0), NOW, &mut report), Firing::Missed);
    assert_eq!(begin_firing(Some(NOW), None, NOW, &mut report), Firing::Rejected);
    assert_eq!((report.skipped, report.rejected), (1, 1));
    let request = scheduled_request("r-1", "timer".to_string(), "key".to_string(), NOW - 1, NOW);
    assert_eq!(request.cause, ActivationCause::Scheduled);
    assert_eq!(request.created_by, "routine:r-1");
    assert_eq!(request.trigger_kind, "timer");
    assert_eq!((request.scheduled_at, request.received_at), (NOW - 1, NOW));
}

#[test]
fn a_due_routine_creates_work() {
    let outcome = activate_routine(
        Some(routine()),
        &request(ActivationCause::Scheduled),
        activation_facts(),
        NOW,
    );
    let intent = outcome.intent.unwrap();
    assert_eq!(intent.activation.disposition, ActivationDisposition::CreatedWork);
    let item = intent.work.unwrap();
    assert_eq!(item.work_id, "work-1");
    assert_eq!(item.created_by, "routine:routine-1");
    assert_eq!(item.source_routine_id.as_deref(), Some("routine-1"));
    assert_eq!(item.source_activation_id.as_deref(), Some("activation-1"));
    assert_eq!(item.priority, 3);
    assert_eq!(intent.dedupe.unwrap().work_id.as_deref(), Some("work-1"));
}

#[test]
fn an_occurrence_creates_work_once() {
    let first = activate_routine(
        Some(routine()),
        &request(ActivationCause::Scheduled),
        activation_facts(),
        NOW,
    )
    .intent
    .unwrap();
    let mut facts = activation_facts();
    facts.dedupe = first.dedupe;
    facts.existing = Some(first.activation);
    let again =
        activate_routine(Some(routine()), &request(ActivationCause::Scheduled), facts, NOW)
            .intent
            .unwrap();
    assert!(again.work.is_none());
    assert_eq!(again.activation.activation_id, "activation-1");
    assert_eq!(again.activation.work_id.as_deref(), Some("work-1"));
}

#[test]
fn a_receipt_answers_where_the_history_is_gone() {
    let cause = ActivationCause::Scheduled;
    let first = activate_routine(Some(routine()), &request(cause), activation_facts(), NOW)
        .intent
        .unwrap();
    let mut facts = activation_facts();
    facts.dedupe = first.dedupe;
    facts.work_id = "work-2".to_string();
    facts.activation_id = "activation-2".to_string();
    let outcome = activate_routine(Some(routine()), &request(cause), facts, NOW + SECOND);
    assert!(outcome.routine.is_none());
    let again = outcome.intent.unwrap();
    assert_eq!(again.activation.disposition, ActivationDisposition::Deduplicated);
    assert_eq!(again.activation.activation_id, "activation-1");
    assert_eq!(again.activation.work_id.as_deref(), Some("work-1"));
    assert!(again.work.is_none());
    assert!(again.dedupe.is_none());
}

#[test]
fn busy_and_expired_routines_are_skipped() {
    let mut busy = activation_facts();
    busy.in_flight = 1;
    let outcome =
        activate_routine(Some(routine()), &request(ActivationCause::Scheduled), busy, NOW);
    let intent = outcome.intent.unwrap();
    assert_eq!(intent.activation.disposition, ActivationDisposition::SkippedOverlap);
    assert!(intent.work.is_none());
    let mut expired = routine();
    expired.expires_at = Some(NOW - 1);
    let outcome = activate_routine(
        Some(expired),
        &request(ActivationCause::Scheduled),
        activation_facts(),
        NOW,
    );
    assert_eq!(
        outcome.intent.unwrap().activation.disposition,
        ActivationDisposition::SkippedExpired
    );
    let external = activate_routine(
        Some(routine()),
        &request(ActivationCause::External),
        activation_facts(),
        NOW,
    );
    assert_eq!(external.intent.unwrap_err().code, OrchErrorCode::Unsupported);
    let unknown =
        activate_routine(None, &request(ActivationCause::Direct), activation_facts(), NOW);
    assert!(unknown.intent.is_err());
}

#[test]
fn failing_routines_open_their_circuit() {
    let mut facts = activation_facts();
    facts.agent_workspace_matches = None;
    let outcome =
        activate_routine(Some(routine()), &request(ActivationCause::Scheduled), facts, NOW);
    let failed = outcome.routine.unwrap();
    assert_eq!(failed.consecutive_failures, 1);
    assert!(!failed.circuit_open);
    let mut facts = activation_facts();
    facts.agent_workspace_matches = Some(false);
    let outcome =
        activate_routine(Some(failed), &request(ActivationCause::Scheduled), facts, NOW);
    assert!(outcome.routine.unwrap().circuit_open);
}

#[test]
fn reports_count_every_activation() {
    let mut report = RoutineFireReport::default();
    count_activation(&mut report, Some(ActivationDisposition::CreatedWork));
    count_activation(&mut report, Some(ActivationDisposition::Deduplicated));
    count_activation(&mut report, Some(ActivationDisposition::SkippedPaused));
    count_activation(&mut report, None);
    assert_eq!(report.created_work, 1);
    assert_eq!(report.deduplicated, 1);
    assert_eq!(report.skipped, 1);
    assert_eq!(report.rejected, 1);
}

#[test]
fn schedules_move_on() {
    let (fired, _) = note_fired(routine(), Some(NOW + 60 * SECOND), NOW);
    assert_eq!(fired.next_fire_at, Some(NOW + 60 * SECOND));
    assert_eq!(fired.last_fire_at, Some(NOW));
    let missed = note_missed(routine(), Some(NOW + 60 * SECOND), NOW);
    assert_eq!(missed.next_fire_at, Some(NOW + 60 * SECOND));
    let paused =
        set_routine_lifecycle(Some(routine()), RoutineLifecycle::Paused, Some(4), Ok(None), NOW)
            .unwrap();
    assert_eq!(paused.lifecycle, RoutineLifecycle::Paused);
    let stale =
        set_routine_lifecycle(Some(routine()), RoutineLifecycle::Paused, Some(3), Ok(None), NOW);
    assert_eq!(stale.unwrap_err().code, OrchErrorCode::StaleVersion);
    assert_eq!(list_activations(&Vec::new(), 5).len(), 0);
    assert_eq!(activations_to_prune(&Vec::new(), 5).len(), 0);
}

fn intent(state: ManagedIntentState) -> ManagedExecutionIntent {
    ManagedExecutionIntent {
        intent_id: "intent-1".to_string(),
        work_id: "work-1".to_string(),
        agent_id: "agent-1".to_string(),
        session_id: SESSION,
        workspace: "/tmp/project".to_string(),
        attempt_id: Some("attempt-1".to_string()),
        run_id: Some("run-1".to_string()),
        permission_request_id: Some("permission-1".to_string()),
        state,
        created_at: NOW,
        updated_at: NOW,
    }
}

fn attempt(state: AttemptState) -> WorkAttempt {
    let mut a =
        WorkAttempt::with_id_and_secret("attempt-1", "work-1", 1, "agent-1", "s3cret", NOW);
    a.state = state;
    a
}

fn scope() -> PermissionScope {
    PermissionScope {
        session_id: SESSION,
        workspace: "/tmp/project".to_string(),
        workspace_resolved: None,
        intent_resolved: None,
    }
}

#[test]
fn live_intents_are_counted() {
    let mut other = intent(ManagedIntentState::Finalized);
    other.created_at = NOW - SECOND;
    let intents = vec![intent(ManagedIntentState::Admitted), other];
    assert_eq!(live_managed_intents_for_agent(&intents, "agent-1"), 1);
    assert_eq!(live_managed_intent_for_work(&intents, "work-1"), Some(0));
    assert_eq!(live_managed_intent_for_work(&intents, "work-2"), None);
    assert_eq!(list_managed_intents(&intents).len(), 2);
    assert_eq!(find_permission(&intents, "permission-9"), None);
    assert!(ManagedIntentState::Parked.is_live());
    assert!(!ManagedIntentState::Abandoned.is_live());
    assert_eq!(find_run_by_request_id(&Vec::new(), "req-1"), None);
}

#[test]
fn journals_replay_to_the_same_end() {
    let mut item = work("work-1");
    item.state = WorkState::Running;
    let record = finalize_managed_intent_until(
        Some(&intent(ManagedIntentState::Admitted)),
        Some(item.clone()),
        ManagedFinalizationOutcome::Failed,
        "run failed",
        None,
        NOW,
    )
    .unwrap()
    .unwrap();
    assert_eq!(record.work_state, WorkState::Failed);
    assert_eq!(record.attempt_state, AttemptState::Failed);
    let settled = settle_work(&record, item, NOW + SECOND).unwrap().unwrap();
    assert_eq!(settled.state, WorkState::Failed);
    let again = settle_work(&record, settled, NOW + 2 * SECOND).unwrap().unwrap();
    assert_eq!(again.state, WorkState::Failed);
    let closed =
        settle_attempt(&record, attempt(AttemptState::Running), NOW + SECOND).unwrap().unwrap();
    assert_eq!(closed.state, AttemptState::Failed);
    assert!(settle_attempt(&record, closed, NOW + SECOND).unwrap().is_none());
    let done = settle_intent(intent(ManagedIntentState::Admitted), NOW).unwrap();
    assert_eq!(done.state, ManagedIntentState::Finalized);
    assert!(settle_intent(done, NOW).is_none());
}

#[test]
fn cancelled_work_stays_cancelled() {
    let mut item = work("work-1");
    item.state = WorkState::Running;
    let record = finalize_managed_intent_until(
        Some(&intent(ManagedIntentState::Admitted)),
        Some(item.clone()),
        ManagedFinalizationOutcome::Completed,
        "done",
        Some(work_failure_result("late", NOW)),
        NOW,
    )
    .unwrap()
    .unwrap();
    item.state = WorkState::Cancelled;
    assert!(settle_work(&record, item, NOW).unwrap().is_none());
}

#[test]
fn closed_attempts_are_retried_or_failed() {
    let mut item = work("work-1");
    item.state = WorkState::Running;
    item.attempt_count = 1;
    let retried = close_managed_attempt_until(
        Some(&intent(ManagedIntentState::Admitted)),
        Some(item.clone()),
        true,
        ManagedRetryCause::Interrupted,
        "restart",
        NOW,
    )
    .unwrap()
    .unwrap();
    assert_eq!(retried.outcome, ManagedFinalizationOutcome::RetryQueued);
    assert_eq!(retried.work_state, WorkState::Queued);
    let failed = close_managed_attempt_until(
        Some(&intent(ManagedIntentState::Admitted)),
        Some(item),
        false,
        ManagedRetryCause::Failed,
        "broken",
        NOW,
    )
    .unwrap()
    .unwrap();
    assert_eq!(failed.outcome, ManagedFinalizationOutcome::Failed);
    assert_eq!(stage_reaches(ManagedFinalizationStage::AfterJournal), (false, false, false));
    assert_eq!(stage_reaches(ManagedFinalizationStage::Complete), (true, true, true));
}

#[test]
fn unfinished_claims_are_abandoned_or_adopted() {
    let change = abandon_managed_intent(intent(ManagedIntentState::Claiming), None, None, NOW);
    assert_eq!(change.intent.state, ManagedIntentState::Abandoned);
    let none = reconcile_claiming_intent(
        intent(ManagedIntentState::Claiming),
        None,
        None,
        None,
        "s3cret",
        NOW,
    );
    assert_eq!(none.intent.state, ManagedIntentState::Abandoned);
    assert!(matches!(
        run_source(&intent(ManagedIntentState::Claiming), None),
        RunSource::Run(id) if id == "run-1"
    ));
    assert_eq!(next_attempt_number(None, &work("work-1")), 2);
}

#[test]
fn permissions_are_answered_once() {
    let mut item = work("work-1");
    item.state = WorkState::AwaitingInput;
    let parked = intent(ManagedIntentState::Parked);
    let resolving =
        begin_managed_permission_resolve(Some(parked), &scope(), Some(&item), NOW).unwrap();
    assert_eq!(resolving.state, ManagedIntentState::Resolving);
    let twice = begin_managed_permission_resolve(
        Some(intent(ManagedIntentState::Admitted)),
        &scope(),
        Some(&item),
        NOW,
    );
    assert_eq!(twice.unwrap_err().message, "permission is already resolved");
    let gone = begin_managed_permission_resolve(
        Some(intent(ManagedIntentState::Abandoned)),
        &scope(),
        Some(&item),
        NOW,
    );
    assert_eq!(gone.unwrap_err().message, "permission is not parked");
    let mut elsewhere = scope();
    elsewhere.session_id = 1;
    assert!(begin_managed_permission_resolve(
        Some(intent(ManagedIntentState::Parked)),
        &elsewhere,
        Some(&item),
        NOW
    )
    .is_err());
    let (back, changed) =
        abort_managed_permission_resolve(intent(ManagedIntentState::Resolving), NOW);
    assert!(changed);
    assert_eq!(back.state, ManagedIntentState::Parked);
    let resolved = resolve_parked_managed_permission(
        Some(resolving),
        &scope(),
        Some(item),
        Some(attempt(AttemptState::AwaitingInput)),
        NOW,
    )
    .unwrap();
    assert_eq!(resolved.item.state, WorkState::Running);
    assert_eq!(resolved.attempt.state, AttemptState::Running);
}

fn message(id: &str, seq: u64) -> WorkMessage {
    WorkMessage {
        message_id: id.to_string(),
        seq,
        kind: "note".to_string(),
        from_actor: "operator".to_string(),
        from_agent_id: None,
        to_agent_id: Some("agent-1".to_string()),
        session_id: SESSION,
        workspace: "/tmp/project".to_string(),
        work_id: None,
        attempt_id: None,
        run_id: None,
        reply_to_id: None,
        thread_id: None,
        body: "hello".to_string(),
        payload: None,
        expires_at: None,
        acked_at: None,
        acked_by: None,
    }
}

fn send_facts(last_seq: u64) -> SendFacts {
    SendFacts { refusal: None, from_agent: None, to_agent: None, workspace_path: None, last_seq }
}

fn message_scope() -> MessageScope {
    MessageScope { session_id: SESSION, workspace: "/tmp/project".to_string(), path: None }
}

#[test]
fn messages_are_numbered_in_order() {
    let mut plain = message("m1", 0);
    plain.to_agent_id = None;
    let sent = send_message(plain, send_facts(4)).unwrap();
    assert_eq!(sent.seq, 5);
    let mut again = message("m1", 0);
    again.to_agent_id = None;
    let (replayed, written) = send_message_once(again, Some(sent), send_facts(9));
    assert_eq!(replayed.unwrap().seq, 5);
    assert!(!written);
    let refusal = SendFacts {
        refusal: Some(OrchError::new(OrchErrorCode::InvalidRequest, "too long")),
        ..send_facts(0)
    };
    assert!(send_message(message("m2", 0), refusal).is_err());
    assert_eq!(last_message_seq(Some(" 17 \n")), 17);
    assert_eq!(last_message_seq(Some("x")), 0);
    assert_eq!(last_message_seq(None), 0);
}

#[test]
fn pages_follow_on() {
    let messages: Vec<WorkMessage> =
        (1..=5).map(|n| message(&format!("m{n}"), n)).collect();
    let paths: Vec<Option<String>> = messages.iter().map(|_| None).collect();
    let first =
        list_messages(&messages, &paths, &message_scope(), 0, Some("agent-1"), None, 3).unwrap();
    assert_eq!(first.messages, vec![0, 1, 2]);
    assert_eq!(first.next_seq, 3);
    let second = list_messages(
        &messages,
        &paths,
        &message_scope(),
        first.next_seq,
        Some("agent-1"),
        None,
        3,
    )
    .unwrap();
    assert_eq!(second.messages, vec![3, 4]);
    let recent =
        list_recent_messages(&messages, &paths, &message_scope(), None, None, 2, 100);
    assert_eq!(recent.messages, vec![3, 4]);
    assert_eq!(messages_to_prune(&messages, 2), vec![0, 1, 2]);
}

#[test]
fn messages_are_acknowledged_once() {
    let (acked, changed) =
        ack_message(Some(message("m1", 1)), &None, Some(&message_scope()), "agent-1", NOW).unwrap();
    assert!(changed);
    assert_eq!(acked.acked_by.as_deref(), Some("agent-1"));
    let (again, changed) = ack_message(Some(acked), &None, None, "agent-2", NOW).unwrap();
    assert!(!changed);
    assert_eq!(again.acked_by.as_deref(), Some("agent-1"));
    assert!(ack_message(None, &None, None, "agent-1", NOW).is_err());
}

fn plan(revision: u64) -> ManagerPlan {
    ManagerPlan {
        plan_id: "plan-1".to_string(),
        root_work_id: "work-1".to_string(),
        session_id: SESSION,
        workspace: "/tmp/project".to_string(),
        revision,
        updated_at: NOW,
    }
}

#[test]
fn plans_belong_to_their_root() {
    let mut root = work("work-1");
    assert!(check_plan_with_root(&plan(1), &root, None).is_err());
    root.is_container = true;
    assert!(check_plan_with_root(&plan(1), &root, None).is_ok());
    assert!(check_plan_swap(Some(&plan(1)), 1).is_ok());
    assert_eq!(
        check_plan_swap(Some(&plan(2)), 1).unwrap_err().code,
        OrchErrorCode::StaleVersion
    );
    assert!(check_plan_swap(None, 1).is_err());
    assert_eq!(check_decision_work(&work("w"), None, None).unwrap(), true);
    let plans = vec![plan(1)];
    assert_eq!(list_manager_plans(&plans), vec![0]);
    let decisions = vec![
        ManagerDecisionRecord {
            decision_id: "d1".to_string(),
            plan_id: "plan-1".to_string(),
            created_at: NOW,
        },
        ManagerDecisionRecord {
            decision_id: "d2".to_string(),
            plan_id: "plan-2".to_string(),
            created_at: NOW,
        },
    ];
    assert_eq!(list_manager_decisions(&decisions, Some("plan-2")), vec![1]);
}

#[test]
fn receipts_are_evidence() {
    let start = || Receipts { request: None, provider_replied: false };
    let (sending, moved) = advance(start(), SendEvent::Sending, false, true);
    assert!(moved);
    assert!(!sending.provider_replied);
    let (sent, _) =
        advance(sending, SendEvent::Sent(Some("req-9".to_string())), false, true);
    assert!(sent.provider_replied);
    let (kept, _) = advance(sent, SendEvent::Sent(Some("other".to_string())), false, true);
    assert_eq!(kept.request.as_deref(), Some("req-9"));
    let (same, moved) = advance(start(), SendEvent::Responding, false, false);
    assert!(!moved);
    assert!(!same.provider_replied);
    let binding = PhysicalSendBinding::new("a".to_string(), "key".to_string(), true);
    assert!(is_bound(Some(&binding)));
    assert!(!is_bound(None));
    assert_eq!(wire_idempotency_key(Some(&binding)).as_deref(), Some("key"));
    let silent = PhysicalSendBinding::new("a".to_string(), "key".to_string(), false);
    assert_eq!(wire_idempotency_key(Some(&silent)), None);
    assert_eq!(PROVIDER_REQUEST_ID_HEADER, "x-request-id");
}

#[test]
fn supervisors_report_their_last_pass() {
    let mut status =
        WorkloadSupervisorStatus::started(DEFAULT_WORKLOAD_RECONCILIATION_INTERVAL, NOW);
    assert_eq!(status.interval_ms, 5_000);
    status.begin_pass(NOW + SECOND);
    assert_eq!(status.last_run_at, Some(NOW + SECOND));
    let report = WorkloadReconciliationReport {
        scanned_items: 3,
        ..WorkloadReconciliationReport::default()
    };
    status.end_pass(Ok(report), NOW + 2 * SECOND);
    assert_eq!(status.last_success_at, Some(NOW + 2 * SECOND));
    assert_eq!(status.last_report.scanned_items, 3);
    status.end_pass(Err("disk full".to_string()), NOW + 3 * SECOND);
    assert_eq!(status.last_error.as_deref(), Some("disk full"));
    assert_eq!(status.last_success_at, Some(NOW + 2 * SECOND));
    assert!(!RoutineSupervisorStatus::disabled(SECOND as u128).enabled);
    assert!(!ManagerSupervisorStatus::disabled().enabled);
    assert_eq!(interval_ms(1_500_000), 1);
    assert!(used_interval(0) > 0);
}
