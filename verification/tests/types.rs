//! Prompts, bounds, identifiers, checkpoints and agent records.

use agent_bridge::agent::{
    AgentAuthorityPolicy, AgentLaneAssociation, AgentModelSpec, AgentRecord, AgentSpec, AgentState,
    ModelSelection, SpecFacts, DEFAULT_PERSISTENT_AGENT_MAX_TOTAL_TOKENS,
};
use agent_bridge::bounds::{merge_bound_fields, merge_bounds, RunBounds};
use agent_bridge::checkpoint::{
    AgentResumePlan, ContinuationCheckpoint, ContinuationReason, ResumePaths,
};
use agent_bridge::contract::{
    CONTROL_TOOLS, FORBIDDEN_TOOLS, PUBLIC_CONTRACT_MAJOR, PUBLIC_CONTRACT_MINOR,
};
use agent_bridge::digest::{
    constant_time_eq, digest_text, hash_payload, hex_decode, hex_encode, hex_sha256,
    hmac_sha256_hex, safe_id_filename,
};
use agent_bridge::error::{OrchError, OrchErrorCode};
use agent_bridge::identity::{
    fresh_id, stamped_client_id, uuid_text, AuthContext, IdempotencyScope, HOST_AUTHORED_CLIENT_ID,
};
use agent_bridge::json::{field, Json};
use agent_bridge::prompt::{is_recognized_test_command, prompt_preview, reject_control_prompt};
use agent_bridge::run::{RunAggregates, RunPurpose, RunRecord, RunState};
use agent_bridge::validate::{validate_bounded_string, validate_id, validate_workspace};

const SESSION: u128 = 0x6ba7b810_9dad_41d1_80b4_00c04fd430c8;
const LANE: u128 = 0x6ba7b811_9dad_41d1_80b4_00c04fd430c8;
const NOW: i128 = 1_700_000_000_000_000_000;

fn facts() -> SpecFacts {
    SpecFacts {
        selection: Ok(ModelSelection {
            provider_id: "xai".to_string(),
            model_id: "grok".to_string(),
        }),
        managed: None,
    }
}

fn agent(agent_id: &str, state: AgentState) -> AgentRecord {
    AgentRecord {
        agent_id: agent_id.to_string(),
        owner_principal_id: None,
        session_id: SESSION,
        lane_ids: vec![SESSION],
        lane_associations: Vec::new(),
        workspace: "/tmp/project".to_string(),
        model: "grok".to_string(),
        spec: None,
        state,
        current_run_id: None,
        last_run_id: None,
        last_lane_id: Some(SESSION),
        latest_checkpoint_id: Some("checkpoint-1".to_string()),
        continuation_ordinal: 1,
        created_at: NOW,
        updated_at: NOW,
    }
}

fn checkpoint(summary: &str, event_seq: u64) -> ContinuationCheckpoint {
    let mut checkpoint = ContinuationCheckpoint {
        checkpoint_id: "checkpoint-1".to_string(),
        agent_id: "agent-1".to_string(),
        session_id: SESSION,
        run_id: "run-1".to_string(),
        agent_spec_revision: None,
        parent_checkpoint_id: None,
        ordinal: 1,
        workspace: "/tmp/project".to_string(),
        context_summary: summary.to_string(),
        context_hash: String::new(),
        event_seq,
        reason: ContinuationReason::TurnCompleted,
        created_at: NOW,
    };
    checkpoint.context_hash = checkpoint.context_hash_for();
    checkpoint
}

fn no_paths() -> ResumePaths {
    ResumePaths { agent: None, checkpoint: None, requested: None }
}

fn json(text: &str) -> Json {
    Json::from_compact(text.to_string())
}

#[test]
fn rejects_bang_and_admin_slash() {
    assert!(reject_control_prompt("!ls").is_err());
    assert!(reject_control_prompt("/mcp list").is_err());
    assert!(reject_control_prompt("/yolo").is_err());
    assert!(reject_control_prompt("/model grok").is_err());
    assert!(reject_control_prompt("/effort max").is_err());
    assert!(reject_control_prompt("   ").is_err());
    assert!(reject_control_prompt("fix the tests").is_ok());
}

#[test]
fn control_tools_exclude_forbidden() {
    for f in FORBIDDEN_TOOLS {
        assert!(!CONTROL_TOOLS.contains(&f), "{f} must not be in allowlist");
    }
}

#[test]
fn control_tools_are_distinct() {
    for i in 0..CONTROL_TOOLS.len() {
        for j in 0..i {
            assert_ne!(CONTROL_TOOLS[i], CONTROL_TOOLS[j]);
        }
    }
    assert_eq!(PUBLIC_CONTRACT_MAJOR, 1);
    assert_eq!(PUBLIC_CONTRACT_MINOR, 2);
}

#[test]
fn prompt_preview_utf8_safe() {
    let s = "日".repeat(100);
    let p = prompt_preview(&s);
    assert!(!p.is_empty());
    assert!(p.chars().count() <= 120);
}

#[test]
fn previews_are_cut_at_a_character() {
    assert_eq!(prompt_preview("short"), "short");
    let s = "日".repeat(400);
    let p = prompt_preview(&s);
    assert!(s.starts_with(p.trim_end_matches('…')));
    assert!(p.chars().count() <= 120);
}

#[test]
fn bounds_ceiling_reject_escalation() {
    let ceil = RunBounds::default();
    let bad = json("{\"maxRounds\":100}");
    assert!(merge_bounds(&ceil, Some(&bad)).is_err());
    let zero = json("{\"maxRounds\":0}");
    assert!(merge_bounds(&ceil, Some(&zero)).is_err());
    let ok = json("{\"maxRounds\":2,\"maxDurationMs\":1000}");
    let m = merge_bounds(&ceil, Some(&ok)).unwrap();
    assert_eq!(m.max_rounds, 2);
    assert_eq!(m.max_duration_ms, 1000);
}

#[test]
fn token_bound_is_optional_and_caller_may_only_narrow() {
    let unbounded = RunBounds::default();
    let omitted = merge_bounds(&unbounded, None).unwrap();
    assert_eq!(omitted.max_total_tokens, None);

    let caller_bound = json("{\"maxTotalTokens\":9000}");
    assert_eq!(
        merge_bounds(&unbounded, Some(&caller_bound)).unwrap().max_total_tokens,
        Some(9_000)
    );

    let ceiling = RunBounds { max_total_tokens: Some(8_000), ..RunBounds::default() };
    assert_eq!(merge_bounds(&ceiling, None).unwrap().max_total_tokens, Some(8_000));
    assert_eq!(
        merge_bounds(&ceiling, Some(&json("{\"max_total_tokens\":4000}")))
            .unwrap()
            .max_total_tokens,
        Some(4_000)
    );
    assert!(merge_bounds(&ceiling, Some(&json("{\"maxTotalTokens\":8001}"))).is_err());
    assert!(merge_bounds(&ceiling, Some(&json("{\"maxTotalTokens\":0}"))).is_err());
}

#[test]
fn bounds_refusals_name_the_field() {
    let ceiling = RunBounds::default();
    let message = |text: &str| merge_bounds(&ceiling, Some(&json(text))).unwrap_err().message;
    assert_eq!(message("[]"), "bounds must be an object");
    assert_eq!(message("{\"speed\":1}"), "unknown bounds field speed");
    assert_eq!(message("{\"maxRounds\":-1}"), "maxRounds must be a positive integer");
    assert_eq!(message("{\"max_rounds\":0}"), "max_rounds must be > 0 and within range");
    assert_eq!(message("{\"maxRounds\":25}"), "max_rounds exceeds server ceiling");
    assert_eq!(message("{\"maxPromptBytes\":100001}"), "max_prompt_bytes exceeds server ceiling");
    assert_eq!(message("{\"maxDurationMs\":900001}"), "max_duration_ms exceeds server ceiling");
    let tokens = RunBounds { max_total_tokens: Some(5), ..ceiling };
    assert_eq!(
        merge_bounds(&tokens, Some(&json("{\"maxTotalTokens\":6}"))).unwrap_err().message,
        "max_total_tokens exceeds server ceiling"
    );
    let zero = RunBounds { max_rounds: 0, ..ceiling };
    assert_eq!(zero.validate().unwrap_err().message, "max_rounds must be > 0");
    assert_eq!(
        merge_bound_fields(&ceiling, &None).unwrap_err().code,
        OrchErrorCode::InvalidRequest
    );
}

#[test]
fn camel_case_wins_over_snake_case() {
    let ceiling = RunBounds::default();
    let both = json("{\"max_rounds\":3,\"maxRounds\":5}");
    assert_eq!(merge_bounds(&ceiling, Some(&both)).unwrap().max_rounds, 5);
}

#[test]
fn merged_bounds_stay_within_the_ceiling() {
    let ceiling = RunBounds::default();
    assert_eq!(merge_bounds(&ceiling, Some(&json("{}"))).unwrap(), ceiling);
    assert_eq!(
        ceiling,
        RunBounds {
            max_prompt_bytes: 100_000,
            max_rounds: 24,
            max_duration_ms: 900_000,
            max_total_tokens: None,
        }
    );
}

#[test]
fn new_aggregates_start_complete() {
    assert!(RunAggregates::default().usage_complete);
    assert_eq!(RunAggregates::default().usage_pending_requests, 0);
}

#[test]
fn test_command_classification() {
    assert!(is_recognized_test_command("cargo test"));
    assert!(is_recognized_test_command("FOO=1 cargo test -- --nocapture"));
    assert!(is_recognized_test_command("npm test"));
    assert!(is_recognized_test_command("pytest tests/"));
    assert!(!is_recognized_test_command("echo test"));
    assert!(!is_recognized_test_command("cat contest.txt"));
    assert!(!is_recognized_test_command("sleep 1"));
}

#[test]
fn safe_id_rejects_traversal() {
    assert!(safe_id_filename("../etc/passwd").is_err());
    assert!(safe_id_filename("a/b").is_err());
    let a = safe_id_filename("req-1").unwrap();
    let b = safe_id_filename("req_1").unwrap();
    assert_eq!(a.len(), 64);
    assert_ne!(a, b);
    assert!(!a.contains('/'));
    assert!(!b.contains(".."));
}

#[test]
fn checkpoint_hash_is_verified_and_tamper_evident() {
    let mut checkpoint = checkpoint("last verified turn", 4);
    assert!(checkpoint.validate().is_ok());
    checkpoint.context_summary.push_str(" changed");
    assert!(checkpoint.validate().is_err());
}

#[test]
fn changed_checkpoints_are_refused() {
    let mut sealed = checkpoint("summary", 4);
    sealed.agent_spec_revision = Some(3);
    sealed.context_hash = sealed.context_hash_for();
    assert!(sealed.validate().is_ok());
    let changes: [fn(&mut ContinuationCheckpoint); 4] = [
        |c| c.agent_id = "agent-2".to_string(),
        |c| c.run_id = "run-2".to_string(),
        |c| c.workspace = "/tmp/other".to_string(),
        |c| c.context_summary = "another".to_string(),
    ];
    for change in changes {
        let mut changed = sealed.clone();
        change(&mut changed);
        assert!(changed.validate().is_err());
    }
}

#[test]
fn legacy_agent_records_project_the_primary_session_as_a_lane() {
    let mut agent = agent("agent-legacy", AgentState::Waiting);
    agent.lane_ids = Vec::new();
    assert!(agent.lane_ids.is_empty());
    assert_eq!(agent.known_lane_ids(), vec![SESSION]);
}

#[test]
fn legacy_run_records_project_the_session_as_the_lane_id() {
    let run = RunRecord {
        run_id: "run-legacy".to_string(),
        session_id: SESSION,
        workspace: "/tmp/project".to_string(),
        request_id: "request-1".to_string(),
        client_id: None,
        state: RunState::Queued,
        purpose: RunPurpose::default(),
        agent_id: None,
        retry_of: None,
        parent_run_id: None,
        agent_spec_revision: None,
        checkpoint_id: None,
        continuation_context_id: None,
        continuation_context_hash: None,
        continuation_fidelity: None,
        queue_position: None,
        bounds: RunBounds {
            max_prompt_bytes: 1000,
            max_rounds: 2,
            max_duration_ms: 1000,
            max_total_tokens: None,
        },
        prompt_preview: "inspect".to_string(),
        start_seq: None,
        end_seq: None,
        created_at: NOW,
        updated_at: NOW,
        terminal_result: None,
        final_response: None,
        error_code: None,
        stop_cause: None,
        aggregates: RunAggregates::default(),
        progress: None,
        execution: None,
        approval: None,
    };
    assert_eq!(run.lane_id(), SESSION);
    assert_eq!(run.purpose, RunPurpose::Execution);
}

#[test]
fn resume_plan_rejects_workspace_or_active_agent_mismatch() {
    let mut active = agent("agent-1", AgentState::Waiting);
    let plan = AgentResumePlan {
        agent: active.clone(),
        checkpoint: checkpoint("verified", 2),
        parent_run_id: "run-1".to_string(),
    };
    let paths = no_paths();
    assert!(plan.validate_for(&facts(), SESSION, "/tmp/project", &paths).is_ok());
    let mut secondary_plan = plan.clone();
    secondary_plan.agent.lane_ids.push(LANE);
    assert!(secondary_plan.validate_for(&facts(), LANE, "/tmp/project", &paths).is_ok());
    secondary_plan.agent.lane_associations = vec![
        AgentLaneAssociation {
            lane_id: SESSION,
            source_workspace: "/tmp/project".to_string(),
            attached_at: NOW,
            attached_by: "test".to_string(),
            detached_at: None,
            detached_by: None,
        },
        AgentLaneAssociation {
            lane_id: LANE,
            source_workspace: "/tmp/project".to_string(),
            attached_at: NOW,
            attached_by: "test".to_string(),
            detached_at: Some(NOW),
            detached_by: Some("test".to_string()),
        },
    ];
    assert!(!secondary_plan.agent.known_lane_ids().contains(&LANE));
    assert!(secondary_plan.agent.historical_lane_ids().contains(&LANE));
    assert!(secondary_plan.validate_for(&facts(), LANE, "/tmp/project", &paths).is_err());
    assert_eq!(
        plan.validate_for(&facts(), SESSION, "/tmp/other", &paths).unwrap_err().code,
        OrchErrorCode::WorkspaceMismatch
    );
    active.state = AgentState::Active;
    let active_plan = AgentResumePlan { agent: active, ..plan };
    assert_eq!(
        active_plan.validate_for(&facts(), SESSION, "/tmp/project", &paths).unwrap_err().code,
        OrchErrorCode::Conflict
    );
}

#[test]
fn interrupted_agents_may_resume() {
    let plan = AgentResumePlan {
        agent: agent("agent-1", AgentState::Interrupted),
        checkpoint: checkpoint("adapter contract", 9),
        parent_run_id: "run-1".to_string(),
    };
    let paths = no_paths();
    assert!(plan.clone().validate_for(&facts(), SESSION, "/tmp/project", &paths).is_ok());
    let resolved = ResumePaths {
        agent: Some("/private/tmp/project".to_string()),
        checkpoint: Some("/private/tmp/project".to_string()),
        requested: Some("/private/tmp/project".to_string()),
    };
    assert!(plan.validate_for(&facts(), SESSION, "/private/tmp/project", &resolved).is_ok());
}

#[test]
fn legacy_agents_migrate_to_an_attributable_revision() {
    let mut legacy = agent("agent-legacy-spec", AgentState::Waiting);
    legacy.lane_ids = Vec::new();
    legacy.last_lane_id = None;
    legacy.latest_checkpoint_id = None;
    let managed = json("{\"mode\":\"manual\"}");
    assert!(legacy.migrate_legacy_spec(managed.clone(), &facts()).unwrap());
    {
        let spec = legacy.current_spec().unwrap();
        assert_eq!(spec.revision, 1);
        assert_eq!(spec.created_by, "legacy_migration");
        assert_eq!(spec.managed_execution.text, managed.text);
        assert_eq!(spec.model.provider_id, "xai");
        assert_eq!(spec.authority.allowed_mcp_servers, vec!["*".to_string()]);
    }
    assert_eq!(legacy.known_lane_ids(), vec![SESSION]);
    assert_eq!(legacy.lane_associations.len(), 1);
    assert!(legacy.validate(&facts()).is_ok());
    assert!(!legacy.migrate_legacy_spec(managed, &facts()).unwrap());
    assert_eq!(legacy.lane_associations.len(), 1);
}

#[test]
fn first_revisions_have_default_bounds() {
    let spec = AgentSpec::initial(
        "agent-1",
        "/tmp/project",
        "grok",
        AgentAuthorityPolicy::default(),
        json("{}"),
        &facts(),
        NOW,
        "operator",
    )
    .unwrap();
    assert_eq!(spec.revision, 1);
    assert_eq!(spec.previous_revision, None);
    assert_eq!(spec.role, "Software development agent");
    assert_eq!(
        spec.default_run_bounds.max_total_tokens,
        Some(DEFAULT_PERSISTENT_AGENT_MAX_TOTAL_TOKENS)
    );
    assert_eq!(spec.created_by, "operator");
    let unknown = SpecFacts { selection: Err("no such model".to_string()), managed: None };
    assert!(AgentModelSpec::from_selection_key("grok", &unknown.selection).is_err());
    assert!(spec.validate(&unknown).is_err());
    let route = AgentModelSpec::from_selection_key("xai/grok", &facts().selection).unwrap();
    assert_eq!(route.selection_key, "xai/grok");
    assert_eq!(route.model_id, "grok");
}

#[test]
fn refusals_of_texts_carry_their_field() {
    assert!(validate_id("agent-1", "agent_id").is_ok());
    assert_eq!(validate_id("", "agent_id").unwrap_err().code, OrchErrorCode::InvalidRequest);
    assert!(validate_id("a/b", "agent_id").unwrap_err().message.contains("agent_id"));
    assert!(validate_bounded_string("abc", 3, "role").is_ok());
    assert!(validate_bounded_string("abcd", 3, "role").unwrap_err().message.contains("role"));
    assert_eq!(
        validate_bounded_string("", 3, "role").unwrap_err().message,
        "role is empty or exceeds its bound"
    );
    assert!(validate_bounded_string("a\0", 3, "role").is_err());
    assert!(validate_workspace("/tmp").is_ok());
    assert!(validate_workspace("").is_err());
}

#[test]
fn error_codes_have_wire_names() {
    let names = [
        (OrchErrorCode::Unauthenticated, "unauthenticated"),
        (OrchErrorCode::ForbiddenScope, "forbidden_scope"),
        (OrchErrorCode::WorkspaceMismatch, "workspace_mismatch"),
        (OrchErrorCode::SessionBusy, "session_busy"),
        (OrchErrorCode::CapacityExhausted, "capacity_exhausted"),
        (OrchErrorCode::StaleVersion, "stale_version"),
        (OrchErrorCode::CursorExpired, "cursor_expired"),
        (OrchErrorCode::Internal, "internal"),
        (OrchErrorCode::Timeout, "timeout"),
        (OrchErrorCode::InvalidRequest, "invalid_request"),
        (OrchErrorCode::Unsupported, "unsupported"),
        (OrchErrorCode::Conflict, "conflict"),
    ];
    for (code, name) in names {
        assert_eq!(code.as_str(), name);
    }
    let error = OrchError::new(OrchErrorCode::Timeout, "too slow");
    assert_eq!(error.to_text(), "timeout: too slow");
    let with = OrchError::with_data(OrchErrorCode::Conflict, "taken", Json::number(7));
    assert_eq!(with.clone().data.unwrap().text, "7");
}

#[test]
fn json_is_written_compactly() {
    assert_eq!(Json::null().text, "null");
    assert_eq!(Json::boolean(true).text, "true");
    assert_eq!(Json::number(42).text, "42");
    assert_eq!(Json::string("a\"b\n").text, "\"a\\\"b\\n\"");
    assert_eq!(Json::array(vec![Json::number(1), Json::string("x")]).text, "[1,\"x\"]");
    let object = Json::object(vec![
        field("b", Json::number(1)),
        field("a", Json::null()),
        field("b", Json::number(2)),
    ]);
    assert_eq!(object.text, "{\"a\":null,\"b\":2}");
    assert_eq!(Json::instant(0).text, "\"1970-01-01T00:00:00Z\"");
    assert_eq!(Json::instant(NOW + 5_000_000).text, "\"2023-11-14T22:13:20.005Z\"");
    assert_eq!(Json::uuid(SESSION).text, "\"6ba7b810-9dad-41d1-80b4-00c04fd430c8\"");
}

#[test]
fn digests_have_known_values() {
    assert_eq!(hex_sha256(b"abc"), "616263");
    assert_eq!(
        digest_text("abc"),
        "ba7816bf8f01cfea414140de5dae2223b00361a396177a9cb410ff61f20015ad"
    );
    assert_eq!(hash_payload(&Json::string("abc")), digest_text("\"abc\""));
    assert_eq!(
        hmac_sha256_hex(b"Jefe", b"what do ya want for nothing?"),
        "5bdcc146bf60754e6a042426089575c75a003f089d2739839dec58b964ec3843"
    );
    let long = [0xaau8; 131];
    assert_eq!(
        hmac_sha256_hex(&long, b"Test Using Larger Than Block-Size Key - Hash Key First"),
        "60e431591ee0b67f0d8a26aacbf5b77f8e0bc6213728c5140546040f0ee37f54"
    );
}

#[test]
fn hex_round_trips() {
    let bytes = [0u8, 1, 15, 16, 127, 128, 255];
    let text = hex_encode(&bytes);
    assert_eq!(text, "00010f107f80ff");
    assert_eq!(hex_decode(&text), Some(bytes.to_vec()));
    assert_eq!(hex_decode("0"), None);
    assert_eq!(hex_decode("zz"), None);
    assert!(constant_time_eq(b"same", b"same"));
    assert!(!constant_time_eq(b"same", b"sane"));
    assert!(!constant_time_eq(b"same", b"sam"));
}

#[test]
fn identities_are_stamped_by_their_token() {
    let auth = AuthContext { token_id: "token-1".to_string(), owner_id: "owner-1".to_string() };
    let other = AuthContext { token_id: "token-2".to_string(), owner_id: "owner-2".to_string() };
    assert_ne!(stamped_client_id(&auth), stamped_client_id(&other));
    assert_ne!(stamped_client_id(&auth), HOST_AUTHORED_CLIENT_ID);
    let scope = IdempotencyScope::of(&auth);
    assert_eq!(scope.as_str().len(), IdempotencyScope::WIDTH);
    assert_ne!(scope.as_str(), IdempotencyScope::of(&other).as_str());
    assert_ne!(scope.as_str(), IdempotencyScope::host().as_str());
    assert_eq!(IdempotencyScope::from_stored(scope.as_str()).as_str(), scope.as_str());
}

#[test]
fn fresh_ids_are_version_four() {
    let id = fresh_id();
    assert_eq!(id.len(), 36);
    assert_eq!(&id[14..15], "4");
    assert!(matches!(&id[19..20], "8" | "9" | "a" | "b"));
    assert_ne!(id, fresh_id());
    assert!(validate_id(&id, "run_id").is_ok());
    assert_eq!(uuid_text(SESSION), "6ba7b810-9dad-41d1-80b4-00c04fd430c8");
    assert_eq!(uuid_text(0), "00000000-0000-0000-0000-000000000000");
}
