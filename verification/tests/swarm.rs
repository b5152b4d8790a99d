//! Graphs of work: what is admitted, leased, settled, recovered and shown.

use agent_bridge::bounds::RunBounds;
use agent_bridge::error::OrchErrorCode;
use agent_bridge::instant::LAST_INSTANT;
use agent_bridge::json::Json;
use agent_bridge::run::CompletionUsage;
use agent_bridge::swarm::attempts::{record_attempt_admitted, record_attempt_finished};
use agent_bridge::swarm::authority::{
    derive_attempt_id, derive_authority_id, ActionAuthority, AttemptState, AuthorityUse,
    EffortLevel, ModelCapabilities, PolicyRevisions, ProviderRouteSnapshot, RetryClass,
    SendCertainty,
};
use agent_bridge::swarm::control::{
    cancel_graph, cancel_work, reconcile_uncertain, recover, review_work, settle_lifecycle,
    sweep_timeouts,
};
use agent_bridge::swarm::grant::{
    bind_grant, claim_for_action, consume_grant_for_action, revoke_bound_grants,
    target_fingerprint, ActionGrant, ComputerRun,
};
use agent_bridge::swarm::ids::{AuthorityId, GrantId, GraphId, LeaseId, WorkId, WorkerId, MAX_ID_BYTES};
use agent_bridge::swarm::lease::{acknowledge, claim_spawn, issue_lease, settle};
use agent_bridge::swarm::projection::{
    project_attribution, project_desktop, project_evidence, project_graph, project_leases,
    project_status, project_work, BoundOnlyRedactor, MAX_PROJECTED_TEXT_BYTES,
};
use agent_bridge::swarm::scheduler::{
    forbids_same_work_retry, plan_admissions, recompute_derived, AdmissionBlock, DispatchProbe,
    ReviewDecision,
};
use agent_bridge::swarm::spec::{
    CapabilitySet, ComputerUseTier, FailurePolicy, GraphBudget, IsolationRequirement, QuorumGate,
    merge_item_bounds, WorkCapability, WorkGraphSpec, WorkSpec, WorkerBinding, WorkerRole,
    WorkerSpec,
};
use agent_bridge::swarm::state::{
    EvidenceEntry, GrantBinding, GraphLifecycle, LeaseRecord, LeaseState, ReviewVerdict, WorkGraphRecord,
    WorkOutcome, WorkState,
};
use agent_bridge::swarm::store::{
    claim, compare_and_swap, grant_key, list_graphs, load_graph, ClaimOutcome, StoredGraph,
};

const SESSION: u128 = 0x6ba7b810_9dad_41d1_80b4_00c04fd430c8;
const NOW: i128 = 1_700_000_000_000_000_000;
const SECOND: i128 = 1_000_000_000;

fn reading() -> CapabilitySet {
    CapabilitySet::new().with(WorkCapability::ReadWorkspace)
}

fn id(value: &str) -> WorkId {
    WorkId::parse(value).unwrap()
}

fn lease_id(value: &str) -> LeaseId {
    LeaseId::parse(value).unwrap()
}

fn worker(name: &str, role: WorkerRole) -> WorkerSpec {
    WorkerSpec {
        worker_id: WorkerId::parse(name).unwrap(),
        role,
        binding: WorkerBinding {
            provider_id: "xai".to_string(),
            profile_id: "default".to_string(),
            model_id: "grok".to_string(),
            effort: "medium".to_string(),
            computer_use_tier: ComputerUseTier { name: "none".to_string(), observes: false },
        },
        credential_ref: "keychain:xai".to_string(),
        capabilities: reading(),
    }
}

fn item(name: &str, worker: &str, depends_on: &[&str]) -> WorkSpec {
    WorkSpec {
        work_id: id(name),
        worker_id: WorkerId::parse(worker).unwrap(),
        priority: 0,
        depends_on: depends_on.iter().map(|d| id(d)).collect(),
        capabilities: reading(),
        isolation: IsolationRequirement::Shared,
        quorum: None,
        bounds: RunBounds::default(),
        objective: "look at it".to_string(),
    }
}

/// An item, two reviews of it, and a synthesis that both must approve.
fn spec() -> WorkGraphSpec {
    let mut last = item("synthesis", "author", &["review-a", "review-b"]);
    last.quorum = Some(QuorumGate {
        reviewers: vec![id("review-a"), id("review-b")],
        required_approvals: 2,
    });
    WorkGraphSpec {
        schema_version: 1,
        bounds_ceiling: RunBounds::default(),
        budget: GraphBudget::default(),
        workers: vec![
            worker("scout", WorkerRole::Investigate),
            worker("critic", WorkerRole::Review),
            worker("author", WorkerRole::Synthesize),
        ],
        work: vec![
            item("survey", "scout", &[]),
            item("review-a", "critic", &["survey"]),
            item("review-b", "critic", &["survey"]),
            last,
        ],
        failure_policy: FailurePolicy::default(),
    }
}

fn graph() -> WorkGraphRecord {
    let mut g = WorkGraphRecord::new(
        GraphId::parse("graph-1").unwrap(),
        SESSION,
        "/tmp/project",
        "agent-1",
        spec(),
        NOW,
    )
    .unwrap();
    recompute_derived(&mut g, NOW);
    g
}

fn route() -> ProviderRouteSnapshot {
    ProviderRouteSnapshot {
        schema_version: 1,
        provider_id: "xai".to_string(),
        profile_id: "default".to_string(),
        model_id: "grok".to_string(),
        wire_model_id: "grok-4".to_string(),
        kind: Json::string("cloud"),
        dialect: Json::string("chat"),
        base_url: "https://api.example.com".to_string(),
        endpoint_fingerprint: String::new(),
        credential_ref: "keychain:xai".to_string(),
        credential_fingerprint: "fingerprint".to_string(),
        capabilities: ModelCapabilities {
            document: Json::null(),
            computer_use_tier: ComputerUseTier { name: "none".to_string(), observes: false },
        },
        deadline_class: Json::string("interactive"),
        effort: EffortLevel { name: "medium".to_string(), document: Json::string("medium") },
        snapshot_hash: String::new(),
    }
}

fn revisions() -> PolicyRevisions {
    PolicyRevisions { capability_revision: 1, policy_revision: 2 }
}

fn authority(work: &str, worker: &str, attempt: u32) -> ActionAuthority {
    let graph_id = GraphId::parse("graph-1").unwrap();
    let attempt_id = derive_attempt_id(&graph_id, &id(work), attempt).unwrap();
    ActionAuthority {
        schema_version: 1,
        authority_id: derive_authority_id(&attempt_id, revisions()).unwrap(),
        graph_id,
        work_id: id(work),
        worker_id: WorkerId::parse(worker).unwrap(),
        attempt_id,
        attempt,
        session_id: SESSION,
        workspace: "/tmp/project".to_string(),
        agent_id: "agent-1".to_string(),
        route: route(),
        revisions: revisions(),
        capabilities: reading(),
        bounds: RunBounds::default(),
        issued_at: NOW,
        expires_at: NOW + 3_600 * SECOND,
        binding_hash: String::new(),
    }
    .seal()
    .unwrap()
}

/// Leases the named item and leaves its lease issued.
fn lease(g: &mut WorkGraphRecord, work: &str, worker: &str, lease: &str) -> LeaseRecord {
    let plan = plan_admissions(g, 8, NOW);
    let intent = plan.intents.iter().find(|i| i.work_id.as_str() == work).expect("planned");
    let attempt = intent.attempt;
    issue_lease(g, intent, lease_id(lease), &authority(work, worker, attempt), None, NOW).unwrap()
}

/// Carries the named item through to its outcome.
fn carry_out(g: &mut WorkGraphRecord, work: &str, worker: &str, outcome: WorkOutcome) {
    let name = format!("lease-{work}");
    lease(g, work, worker, &name);
    claim_spawn(g, &lease_id(&name), NOW).unwrap();
    acknowledge(g, &lease_id(&name), "child-1", NOW).unwrap();
    settle(g, &lease_id(&name), &outcome, NOW + SECOND).unwrap();
    recompute_derived(g, NOW + SECOND);
}

fn state_of(g: &WorkGraphRecord, work: &str) -> WorkState {
    g.work_record(&id(work)).unwrap().state
}

#[test]
fn rejects_path_traversal_and_separators() {
    assert!(WorkId::parse("../escape").is_err());
    assert!(WorkId::parse("a/b").is_err());
    assert!(WorkId::parse("a\\b").is_err());
    assert!(WorkId::parse("a\0b").is_err());
    assert!(WorkId::parse("").is_err());
    assert!(WorkId::parse(&"x".repeat(MAX_ID_BYTES + 1)).is_err());
    assert!(WorkId::parse("build:step-1.a_b").is_ok());
}

#[test]
fn deserialized_ids_still_require_validation() {
    let hostile = WorkId::from_stored("../../etc/passwd");
    assert!(hostile.validate().is_err());
}

#[test]
fn graphs_start_with_the_items_that_wait_for_nothing() {
    let g = graph();
    assert!(g.validate().is_ok());
    assert_eq!(state_of(&g, "survey"), WorkState::Ready);
    assert_eq!(state_of(&g, "review-a"), WorkState::Pending);
    assert_eq!(g.lifecycle, GraphLifecycle::Active);
    assert_eq!(g.in_flight(), 0);
}

#[test]
fn graphs_with_cycles_are_refused() {
    let mut cyclic = spec();
    cyclic.work[0].depends_on = vec![id("review-a")];
    assert!(cyclic.validate().is_err());
    let mut unknown = spec();
    unknown.work[0].depends_on = vec![id("nowhere")];
    assert!(unknown.validate().is_err());
    let mut twice = spec();
    twice.work[1].work_id = id("survey");
    assert!(twice.validate().is_err());
    let mut greedy = spec();
    greedy.work[0].capabilities = reading().with(WorkCapability::WriteWorkspace);
    assert!(greedy.validate().is_err());
    let mut amplified = spec();
    amplified.work[0].bounds.max_rounds = 25;
    assert!(amplified.validate().is_err());
    let mut loose = spec();
    loose.work[3].depends_on = vec![id("review-a")];
    assert!(loose.validate().unwrap_err().message.contains("must depend on the review item"));
    assert!(spec().validate().is_ok());
}

#[test]
fn plans_stay_within_their_slots() {
    let g = graph();
    let plan = plan_admissions(&g, 4, NOW);
    assert_eq!(plan.intents.len(), 1);
    assert_eq!(plan.intents[0].work_id.as_str(), "survey");
    assert_eq!(plan.intents[0].attempt, 1);
    let none = plan_admissions(&g, 0, NOW);
    assert_eq!(none.intents.len(), 0);
    assert_eq!(none.blocked_by, AdmissionBlock::NoSlots);
    assert_eq!(none.ready_not_admitted, 1);
    let late = plan_admissions(&g, 4, g.deadline_at);
    assert_eq!(late.blocked_by, AdmissionBlock::DeadlineExceeded);
}

#[test]
fn the_same_dispatch_has_one_lease() {
    let mut g = graph();
    let plan = plan_admissions(&g, 1, NOW);
    let a = authority("survey", "scout", 1);
    let first = issue_lease(&mut g, &plan.intents[0], lease_id("l1"), &a, None, NOW).unwrap();
    let again = issue_lease(&mut g, &plan.intents[0], lease_id("l1"), &a, None, NOW).unwrap();
    assert_eq!(first.lease_id.as_str(), again.lease_id.as_str());
    assert_eq!(g.leases.len(), 1);
    assert_eq!(g.budget.attempts_used, 1);
    let other = issue_lease(&mut g, &plan.intents[0], lease_id("l2"), &a, None, NOW);
    assert_eq!(other.unwrap_err().code, OrchErrorCode::Conflict);
    assert_eq!(first.state, LeaseState::Issued);
    assert_eq!(first.expires_at, NOW + 900 * SECOND);
}

#[test]
fn a_lease_is_given_once_however_far_it_went() {
    let mut g = graph();
    let intent = plan_admissions(&g, 1, NOW).intents.remove(0);
    let a = authority("survey", "scout", 1);
    issue_lease(&mut g, &intent, lease_id("l1"), &a, None, NOW).unwrap();
    claim_spawn(&mut g, &lease_id("l1"), NOW).unwrap();
    acknowledge(&mut g, &lease_id("l1"), "child-1", NOW + SECOND).unwrap();
    let state = g.leases[0].state;
    assert_ne!(state, LeaseState::Issued);
    let later = NOW + 5_000 * SECOND;
    let again = issue_lease(&mut g, &intent, lease_id("l1"), &a, None, later).unwrap();
    assert_eq!(again.lease_id.as_str(), "l1");
    assert_eq!(again.state, state);
    let other = issue_lease(&mut g, &intent, lease_id("l2"), &a, None, later);
    assert_eq!(other.unwrap_err().code, OrchErrorCode::Conflict);
    assert_eq!(g.leases.len(), 1);
    assert_eq!(g.budget.attempts_used, 1);
}

#[test]
fn graphs_live_as_long_as_instants_have_names() {
    let begin = |now: i128| {
        WorkGraphRecord::new(
            GraphId::parse("graph-1").unwrap(),
            SESSION,
            "/tmp/project",
            "agent-1",
            spec(),
            now,
        )
    };
    let span = graph().deadline_at - NOW;
    let year_2300 = 10_413_792_000 * SECOND;
    assert_eq!(begin(year_2300).unwrap().deadline_at, year_2300 + span);
    assert_eq!(begin(LAST_INSTANT - span).unwrap().deadline_at, LAST_INSTANT);
    let error = begin(LAST_INSTANT - span + 1).unwrap_err();
    assert_eq!(error.code, OrchErrorCode::InvalidRequest);
    assert_eq!(error.message, "graph deadline overflows");
}

#[test]
fn quorums_ask_for_approvals() {
    let mut g = graph();
    carry_out(&mut g, "survey", "scout", WorkOutcome::succeeded());
    assert_eq!(state_of(&g, "review-a"), WorkState::Ready);
    let approve = || WorkOutcome::succeeded().with_verdict(ReviewVerdict::Approve);
    carry_out(&mut g, "review-a", "critic", approve());
    assert_eq!(state_of(&g, "synthesis"), WorkState::Pending);
    carry_out(&mut g, "review-b", "critic", approve());
    assert_eq!(state_of(&g, "synthesis"), WorkState::Ready);
    carry_out(&mut g, "synthesis", "author", WorkOutcome::succeeded());
    assert_eq!(settle_lifecycle(&mut g, NOW + SECOND), GraphLifecycle::Succeeded);
    assert!(g.validate().is_ok());
    assert_eq!(plan_admissions(&g, 4, NOW).intents.len(), 0);
}

#[test]
fn a_rejection_blocks_the_synthesis() {
    let mut g = graph();
    carry_out(&mut g, "survey", "scout", WorkOutcome::succeeded());
    let reject = WorkOutcome::succeeded().with_verdict(ReviewVerdict::Reject);
    carry_out(&mut g, "review-a", "critic", reject);
    assert_eq!(state_of(&g, "synthesis"), WorkState::Blocked);
}

#[test]
fn failures_block_their_dependents() {
    let mut g = graph();
    carry_out(&mut g, "survey", "scout", WorkOutcome::failed("no access"));
    assert_eq!(state_of(&g, "survey"), WorkState::Failed);
    assert_eq!(state_of(&g, "review-a"), WorkState::Blocked);
    assert_eq!(settle_lifecycle(&mut g, NOW + SECOND), GraphLifecycle::Failed);
}

#[test]
fn authorities_permit_their_use_only() {
    let a = authority("survey", "scout", 1);
    assert!(a.validate().is_ok());
    let mut tampered = a.clone();
    tampered.workspace = "/tmp/other".to_string();
    assert!(tampered.validate().is_err());
    let hash = a.route.snapshot_hash.clone();
    let ask = |capability: WorkCapability| AuthorityUse {
        graph_id: &a.graph_id,
        work_id: &a.work_id,
        attempt_id: &a.attempt_id,
        attempt: 1,
        session_id: SESSION,
        workspace: "/tmp/project",
        agent_id: "agent-1",
        route_snapshot_hash: &hash,
        revisions: revisions(),
        capability,
    };
    assert!(a.verify(&ask(WorkCapability::ReadWorkspace), NOW).is_ok());
    assert!(a.verify(&ask(WorkCapability::WriteWorkspace), NOW).is_err());
    assert!(a.verify(&ask(WorkCapability::ReadWorkspace), a.expires_at).is_err());
    let mut moved = ask(WorkCapability::ReadWorkspace);
    moved.session_id = 1;
    assert!(a.verify(&moved, NOW).is_err());
    assert_eq!(a.route.attribution_key(), "xai/default/grok@medium");
}

#[test]
fn derived_identities_are_stable() {
    let graph_id = GraphId::parse("graph-1").unwrap();
    let one = derive_attempt_id(&graph_id, &id("survey"), 1).unwrap();
    assert_eq!(one.as_str(), derive_attempt_id(&graph_id, &id("survey"), 1).unwrap().as_str());
    assert_ne!(one.as_str(), derive_attempt_id(&graph_id, &id("survey"), 2).unwrap().as_str());
    assert!(derive_authority_id(&one, revisions()).is_ok());
}

#[test]
fn usage_is_counted_once() {
    let mut g = graph();
    lease(&mut g, "survey", "scout", "l1");
    let row = record_attempt_admitted(&mut g, &lease_id("l1"), NOW).unwrap();
    assert_eq!(row.state, AttemptState::Admitted);
    let usage = CompletionUsage {
        prompt_tokens: 10,
        completion_tokens: 5,
        total_tokens: 15,
        requests: 1,
    };
    for _ in 0..2 {
        record_attempt_finished(
            &mut g,
            &row.attempt_id,
            SendCertainty::KnownAccepted,
            Some(200),
            Some(usage),
            NOW + SECOND,
        )
        .unwrap();
    }
    assert_eq!(g.budget.tokens_used, 15);
    let rows = project_attribution(&g);
    assert_eq!(rows.len(), 1);
    assert_eq!(rows[0].attempts, 1);
    assert_eq!(rows[0].tokens, 15);
    assert_eq!(SendCertainty::KnownNotSent.retry_class(), RetryClass::SameWorkSafe);
    assert_eq!(SendCertainty::UncertainAccept.retry_class(), RetryClass::ExplicitNewAttemptOnly);
}

#[test]
fn recovery_leaves_nothing_open() {
    let mut g = graph();
    lease(&mut g, "survey", "scout", "l1");
    claim_spawn(&mut g, &lease_id("l1"), NOW).unwrap();
    record_attempt_admitted(&mut g, &lease_id("l1"), NOW).unwrap();
    let report = recover(&mut g, NOW + SECOND);
    assert_eq!(report.leases_marked_uncertain, 1);
    assert_eq!(report.attempts_marked_uncertain, 1);
    assert_eq!(state_of(&g, "survey"), WorkState::DispatchUncertain);
    assert!(g.has_uncertainty());
    assert!(forbids_same_work_retry(&g, &id("survey")));
    recompute_derived(&mut g, NOW + SECOND);
    assert_eq!(state_of(&g, "review-a"), WorkState::Blocked);
    let again = recover(&mut g, NOW + 2 * SECOND);
    assert_eq!(again.leases_marked_uncertain, 0);
    let settled = reconcile_uncertain(
        &mut g,
        &lease_id("l1"),
        &DispatchProbe::Settled { outcome: WorkOutcome::succeeded() },
        NOW + 2 * SECOND,
    )
    .unwrap();
    assert!(settled);
    assert_eq!(state_of(&g, "survey"), WorkState::Succeeded);
}

#[test]
fn cancelled_graphs_admit_nothing() {
    let mut g = graph();
    lease(&mut g, "survey", "scout", "l1");
    claim_spawn(&mut g, &lease_id("l1"), NOW).unwrap();
    cancel_graph(&mut g, "not needed", NOW + SECOND).unwrap();
    assert_eq!(g.stop_reason.as_deref(), Some("not needed"));
    let plan = plan_admissions(&g, 4, NOW + SECOND);
    assert_eq!(plan.intents.len(), 0);
    assert_eq!(plan.blocked_by, AdmissionBlock::LifecycleStopped);
}

#[test]
fn single_items_can_be_cancelled() {
    let mut g = graph();
    assert_eq!(cancel_work(&mut g, &id("survey"), NOW).unwrap(), WorkState::Cancelled);
    assert!(cancel_work(&mut g, &id("nowhere"), NOW).is_err());
    recompute_derived(&mut g, NOW);
    assert_eq!(state_of(&g, "review-a"), WorkState::Blocked);
}

#[test]
fn overdue_work_times_out() {
    let mut g = graph();
    lease(&mut g, "survey", "scout", "l1");
    assert_eq!(sweep_timeouts(&mut g, NOW + SECOND), 0);
    assert!(sweep_timeouts(&mut g, NOW + 901 * SECOND) >= 1);
    assert_ne!(state_of(&g, "survey"), WorkState::Leased);
}

#[test]
fn keeping_a_result_makes_no_success() {
    let mut g = graph();
    assert_eq!(
        review_work(&mut g, &id("survey"), ReviewDecision::Keep, NOW).unwrap(),
        WorkState::Ready
    );
    carry_out(&mut g, "survey", "scout", WorkOutcome::failed("no route"));
    assert_eq!(
        review_work(&mut g, &id("survey"), ReviewDecision::Keep, NOW).unwrap(),
        WorkState::Failed
    );
    assert_eq!(state_of(&g, "survey"), WorkState::Failed);
    let mut g = graph();
    carry_out(&mut g, "survey", "scout", WorkOutcome::succeeded());
    assert_eq!(
        review_work(&mut g, &id("survey"), ReviewDecision::Keep, NOW).unwrap(),
        WorkState::Succeeded
    );
}

#[test]
fn item_bounds_only_narrow_the_ceiling() {
    let bounds = |tokens: Option<u64>| RunBounds {
        max_prompt_bytes: 100,
        max_rounds: 2,
        max_duration_ms: 1000,
        max_total_tokens: tokens,
    };
    let refused = merge_item_bounds(&bounds(Some(8)), &bounds(Some(9))).unwrap_err();
    assert_eq!(refused.code, OrchErrorCode::InvalidRequest);
    assert_eq!(refused.message, "work bounds exceed the graph ceiling");
    let kept = merge_item_bounds(&bounds(Some(8)), &bounds(Some(8))).unwrap();
    assert_eq!(kept.max_total_tokens, Some(8));
    assert_eq!(merge_item_bounds(&bounds(None), &bounds(Some(9))).unwrap().max_total_tokens, Some(9));
    assert_eq!(merge_item_bounds(&bounds(Some(8)), &bounds(None)).unwrap().max_total_tokens, None);
}

#[test]
fn changed_routes_are_refused() {
    let sealed = route().seal().unwrap();
    assert!(sealed.validate().is_ok());
    let changes: [fn(&mut ProviderRouteSnapshot); 7] = [
        |r| r.provider_id = "other".to_string(),
        |r| r.profile_id = "other".to_string(),
        |r| r.model_id = "other".to_string(),
        |r| r.wire_model_id = "other".to_string(),
        |r| r.base_url = "https://other.example".to_string(),
        |r| r.credential_ref = "other".to_string(),
        |r| r.credential_fingerprint = "other".to_string(),
    ];
    for change in changes {
        let mut changed = sealed.clone();
        change(&mut changed);
        assert_eq!(changed.validate().unwrap_err().code, OrchErrorCode::InvalidRequest);
        assert!(changed.seal().is_ok());
    }
}

#[test]
fn bindings_serve_one_lease() {
    let lease_id = LeaseId::parse("lease-1").unwrap();
    let graph_id = GraphId::parse("graph-1").unwrap();
    let attempt = derive_attempt_id(&graph_id, &id("survey"), 1).unwrap();
    let other_attempt = derive_attempt_id(&graph_id, &id("survey"), 2).unwrap();
    let mut binding = GrantBinding::new(
        GrantId::parse("grant-1").unwrap(),
        "computer-run-1",
        &"a".repeat(64),
        SESSION,
        3,
        &lease_id,
        &attempt,
    )
    .unwrap();
    assert!(binding.verify_binding(&lease_id, &attempt).is_ok());
    let refused = binding.verify_binding(&LeaseId::parse("lease-2").unwrap(), &attempt);
    assert_eq!(refused.unwrap_err().code, OrchErrorCode::ForbiddenScope);
    assert!(binding.verify_binding(&lease_id, &other_attempt).is_err());
    binding.computer_run_id = "computer-run-2".to_string();
    assert!(binding.verify_binding(&lease_id, &attempt).is_err());
}

#[test]
fn functions_redact() {
    let mut g = graph();
    carry_out(&mut g, "survey", "scout", WorkOutcome::failed("token s3cret leaked"));
    let hide = |text: &str, _max: usize| text.replace("s3cret", "[redacted]");
    let rows = project_work(&g, &hide);
    let row = rows.iter().find(|row| row.work_id == "survey").unwrap();
    let told = format!("{:?} {:?}", row.summary, row.last_error);
    assert!(told.contains("[redacted]"));
    assert!(!told.contains("s3cret"));
    let long = |_text: &str, _max: usize| "y".repeat(9_000);
    let status = project_status(&g, None, &long);
    assert_eq!(status.agent_id.len(), MAX_PROJECTED_TEXT_BYTES);
}

#[test]
fn discarded_work_stays_discarded() {
    let mut g = graph();
    carry_out(&mut g, "survey", "scout", WorkOutcome::succeeded());
    assert_eq!(
        review_work(&mut g, &id("survey"), ReviewDecision::Discard, NOW).unwrap(),
        WorkState::Discarded
    );
    assert_eq!(
        review_work(&mut g, &id("survey"), ReviewDecision::Keep, NOW).unwrap(),
        WorkState::Discarded
    );
}

#[test]
fn shown_text_is_bounded() {
    let mut g = graph();
    let evidence = vec![EvidenceEntry::new("log", &"e".repeat(2_000))];
    let outcome = WorkOutcome::failed(&"x".repeat(3_000)).with_evidence(evidence);
    carry_out(&mut g, "survey", "scout", outcome);
    let rows = project_work(&g, &BoundOnlyRedactor);
    assert_eq!(rows.len(), 4);
    assert!(rows[0].summary.as_ref().map_or(0, |s| s.len()) <= MAX_PROJECTED_TEXT_BYTES);
    let shown = project_evidence(&g, &BoundOnlyRedactor);
    assert_eq!(shown.len(), 1);
    assert!(shown[0].detail.len() <= MAX_PROJECTED_TEXT_BYTES);
    assert_eq!(project_leases(&g, &BoundOnlyRedactor).len(), 1);
    let status = project_status(&g, None, &BoundOnlyRedactor);
    assert_eq!(status.failed, 1);
    assert_eq!(status.blocked, 3);
    assert_eq!(status.session_id, "6ba7b810-9dad-41d1-80b4-00c04fd430c8");
    let desktop = project_desktop(&status);
    assert_eq!(desktop.work_total, 4);
    let whole = project_graph(&g, Some(AdmissionBlock::NoSlots), &BoundOnlyRedactor);
    assert_eq!(whole.status.admission_block, Some(AdmissionBlock::NoSlots));
}

fn computer_run() -> ComputerRun {
    ComputerRun {
        run_id: "computer-run-1".to_string(),
        target: Json::from_compact("{\"app\":\"Notes\"}".to_string()),
        owner_session_id: SESSION,
        control_epoch: 3,
    }
}

fn action_grant() -> ActionGrant {
    ActionGrant {
        grant_id: "grant-1".to_string(),
        run_id: "computer-run-1".to_string(),
        target: Json::from_compact("{\"app\":\"Notes\"}".to_string()),
        action_classes: vec!["click".to_string()],
        issued_at: NOW,
        expires_at: NOW + 60 * SECOND,
        revoked_at: None,
        uses_remaining: None,
        defect: None,
    }
}

#[test]
fn bound_grants_act_once() {
    let mut g = graph();
    let mut leased = lease(&mut g, "survey", "scout", "l1");
    leased.state = LeaseState::Acknowledged;
    let run = computer_run();
    let grant = action_grant();
    assert_eq!(target_fingerprint(&run).len(), 64);
    leased.grant =
        Some(bind_grant(&grant, &run, &leased.lease_id, &leased.attempt_id).unwrap());
    let asked = claim_for_action(&leased, &grant, &run, "click", SESSION, NOW).unwrap();
    let won = consume_grant_for_action(
        &leased,
        &grant,
        &run,
        "click",
        SESSION,
        ClaimOutcome::Won,
        None,
        NOW,
    )
    .unwrap();
    assert_eq!(won.control_epoch, 3);
    let lost = consume_grant_for_action(
        &leased,
        &grant,
        &run,
        "click",
        SESSION,
        ClaimOutcome::AlreadyHeld,
        Some("someone-else"),
        NOW,
    );
    assert!(lost.is_err());
    assert!(!asked.key.is_empty());
    let mut revoked = computer_run();
    revoked.control_epoch = revoke_bound_grants(&run);
    assert_eq!(revoked.control_epoch, 4);
    assert!(claim_for_action(&leased, &grant, &revoked, "click", SESSION, NOW).is_err());
    assert!(claim_for_action(&leased, &grant, &run, "type", SESSION, NOW).is_err());
    assert!(
        claim_for_action(&leased, &grant, &run, "click", SESSION, NOW + 61 * SECOND).is_err()
    );
}

#[test]
fn one_writer_wins() {
    let g = graph();
    let revision = g.revision;
    let saved = compare_and_swap(Some(&g), revision, graph(), NOW + SECOND).unwrap();
    assert_eq!(saved.revision, revision + 1);
    let late = compare_and_swap(Some(&saved), revision, graph(), NOW + SECOND);
    assert_eq!(late.unwrap_err().code, OrchErrorCode::StaleVersion);
    assert!(load_graph(graph(), &GraphId::parse("graph-1").unwrap()).is_ok());
    assert!(load_graph(graph(), &GraphId::parse("graph-2").unwrap()).is_err());
}

#[test]
fn claims_are_won_once() {
    let (outcome, record) = claim("spawn:l1", "worker-1", false, NOW);
    assert_eq!(outcome, ClaimOutcome::Won);
    assert_eq!(record.unwrap().holder, "worker-1");
    let (outcome, record) = claim("spawn:l1", "worker-2", true, NOW);
    assert_eq!(outcome, ClaimOutcome::AlreadyHeld);
    assert!(record.is_none());
    let grant = GrantId::parse("grant-1").unwrap();
    assert_ne!(grant_key(&grant, 3), grant_key(&grant, 4));
}

#[test]
fn unreadable_graphs_are_counted() {
    let files = vec![
        StoredGraph { stem: "graph-1".to_string(), record: Some(graph()) },
        StoredGraph { stem: "broken".to_string(), record: None },
    ];
    let (shown, skipped) = list_graphs(&files);
    assert!(shown.len() + skipped == 2);
    assert!(AuthorityId::parse("a b").is_err());
}
