//! The public contract of the control plane: its version and its tools.

use vstd::prelude::*;
use vstd::string::*;

verus! {

/// Raised when a field, tool, error code or capability is removed or reshaped.
pub const PUBLIC_CONTRACT_MAJOR: u32 = 1;

/// Raised for additions.
pub const PUBLIC_CONTRACT_MINOR: u32 = 2;

/// The tools that the control plane exposes.
pub const CONTROL_TOOLS: [&'static str; 83] = [
    "ptah_list_sessions",
    "ptah_create_session",
    "ptah_list_persistent_agents",
    "ptah_get_persistent_agent",
    "ptah_get_capacity",
    "ptah_list_runs",
    "ptah_get_run",
    "ptah_get_progress",
    "ptah_get_events",
    "ptah_list_receipts",
    "ptah_get_host_info",
    "ptah_get_changes",
    "ptah_get_test_results",
    "ptah_get_handoff",
    "ptah_review_run",
    "ptah_list_computer_runs",
    "ptah_get_computer_run",
    "ptah_get_computer_run_events",
    "ptah_get_computer_capacity",
    "ptah_submit_task",
    "ptah_resume_persistent_agent",
    "ptah_create_work",
    "ptah_create_manager_plan",
    "ptah_list_manager_plans",
    "ptah_get_manager_plan",
    "ptah_advance_manager_plan",
    "ptah_tick_manager_plan",
    "ptah_replan_manager_plan",
    "ptah_assign_work",
    "ptah_list_work",
    "ptah_get_work",
    "ptah_claim_work",
    "ptah_renew_work",
    "ptah_link_work_run",
    "ptah_report_work_progress",
    "ptah_release_work",
    "ptah_complete_work",
    "ptah_fail_work",
    "ptah_cancel_work",
    "ptah_retry_work",
    "ptah_approve_work",
    "ptah_create_routine",
    "ptah_list_routines",
    "ptah_get_routine",
    "ptah_pause_routine",
    "ptah_enable_routine",
    "ptah_disable_routine",
    "ptah_fire_routine",
    "ptah_list_activations",
    "ptah_list_workers",
    "ptah_get_worker",
    "ptah_heartbeat_worker",
    "ptah_offer_work",
    "ptah_accept_work",
    "ptah_decline_work",
    "ptah_reassign_work",
    "ptah_reprioritize_work",
    "ptah_block_work",
    "ptah_request_review",
    "ptah_list_work_decisions",
    "ptah_send_message",
    "ptah_ack_message",
    "ptah_list_inbox",
    "ptah_list_outbox",
    "ptah_set_managed_execution",
    "ptah_get_managed_execution",
    "ptah_authorize_work_execution",
    "ptah_resolve_work_input",
    "ptah_list_execution_intents",
    "ptah_retry_run",
    "ptah_approve_run",
    "ptah_promote_run",
    "ptah_discard_run",
    "ptah_get_queue",
    "ptah_queue_prompt",
    "ptah_edit_queue",
    "ptah_remove_queue",
    "ptah_reorder_queue",
    "ptah_clear_queue",
    "ptah_run_next",
    "ptah_steer_queued",
    "ptah_steer",
    "ptah_cancel",
];

/// Tools that are never exposed.
pub const FORBIDDEN_TOOLS: [&'static str; 11] = [
    "run_terminal_cmd",
    "shell",
    "bash",
    "ptah_shell",
    "ptah_set_config",
    "ptah_manage_plugin",
    "ptah_manage_mcp",
    "ptah_approve",
    "ptah_pause",
    "ptah_resume",
    "ptah_delete_session",
];

} // verus!
