//! Tool gates and the joining of prompts.

use agent_bridge::permission::{evaluate_tool_gate, rule_matches, ToolGate};
use agent_bridge::prompt_combine::{
    can_merge_follower, can_merge_front, combine_prefix_len, is_combined, join_texts, CombineGate,
    TEXT_SEPARATOR,
};

fn g<'a>(id: &'a str, text: &'a str, plain: bool, images: bool, synthetic: bool) -> CombineGate<'a> {
    CombineGate {
        id,
        is_plain_prompt: plain,
        is_synthetic: synthetic,
        is_expanded_skill: false,
        is_bash: false,
        has_images: images,
        text,
    }
}

#[test]
fn deny_wins_over_allow() {
    let g = evaluate_tool_gate(
        "run_terminal_cmd",
        false,
        &[],
        "default",
        &["Shell(*)".to_string()],
        &["Shell(*)".to_string()],
    );
    assert_eq!(g, ToolGate::AutoDeny);
}

#[test]
fn allow_suppresses_prompt() {
    let g = evaluate_tool_gate(
        "run_terminal_cmd",
        false,
        &[],
        "default",
        &["Shell(*)".to_string()],
        &[],
    );
    assert_eq!(g, ToolGate::AutoAllow);
}

#[test]
fn webfetch_alias_matches_web_fetch() {
    assert!(rule_matches("WebFetch(*)", "web_fetch"));
    assert!(!rule_matches("WebFetch(*)", "run_terminal_cmd"));
}

#[test]
fn rules_match_by_name_in_any_case() {
    for tool in ["web_fetch", "mcp__files__list", "x", ""] {
        assert!(rule_matches("*", tool));
    }
    for blank in ["", " ", "\t\n", "\u{3000}"] {
        assert!(!rule_matches(blank, "web_fetch"));
        assert!(!rule_matches(blank, ""));
    }
    for tool in ["web_fetch", "read_file", "Odd(Tool)", " padded ", "star*", "(x)", "mcp", "\u{e9}"] {
        assert!(rule_matches(tool, tool));
    }
    for rule in ["Shell(*)", "WebFetch", "mcp", "read_file", "Edit*"] {
        for tool in ["run_terminal_cmd", "web_fetch", "mcp__a", "read_file", "apply_patch"] {
            assert_eq!(
                rule_matches(rule, tool),
                rule_matches(&rule.to_ascii_uppercase(), &tool.to_ascii_uppercase())
            );
        }
    }
}

#[test]
fn yolo_suppresses_prompts_when_no_explicit_deny_exists() {
    let g = evaluate_tool_gate("write_file", true, &[], "default", &[], &[]);
    assert_eq!(g, ToolGate::AutoAllow);
}

#[test]
fn explicit_deny_remains_effective_in_yolo_mode() {
    let g = evaluate_tool_gate(
        "memory_write",
        true,
        &[],
        "default",
        &[],
        &["memory_write".to_string()],
    );
    assert_eq!(g, ToolGate::AutoDeny);
}

#[test]
fn unknown_tools_are_asked_for() {
    assert_eq!(
        evaluate_tool_gate("write_file", false, &[], "default", &[], &[]),
        ToolGate::Prompt
    );
    assert_eq!(
        evaluate_tool_gate("write_file", false, &["write_file".to_string()], "default", &[], &[]),
        ToolGate::AutoAllow
    );
    assert_eq!(
        evaluate_tool_gate("mcp__files__read", false, &["mcp".to_string()], "default", &[], &[]),
        ToolGate::AutoAllow
    );
    assert_eq!(
        evaluate_tool_gate("files", false, &["mcp".to_string()], "default", &[], &[]),
        ToolGate::Prompt
    );
}

#[test]
fn merges_two_plain() {
    let items = [g("a", "one", true, false, false), g("b", "two", true, false, false)];
    assert_eq!(combine_prefix_len(&items, &[]), 2);
    assert_eq!(join_texts(&["one", "two"]), "one\n\ntwo");
}

#[test]
fn stops_on_bash() {
    let items = [
        g("a", "one", true, false, false),
        CombineGate {
            id: "b",
            is_plain_prompt: false,
            is_synthetic: false,
            is_expanded_skill: false,
            is_bash: true,
            has_images: false,
            text: "ls",
        },
    ];
    assert_eq!(combine_prefix_len(&items, &[]), 1);
}

#[test]
fn follower_with_images_breaks() {
    let items = [g("a", "one", true, true, false), g("b", "two", true, true, false)];
    assert_eq!(combine_prefix_len(&items, &[]), 1);
}

#[test]
fn skipped_followers_break() {
    let items = [
        g("a", "one", true, false, false),
        g("b", "two", true, false, false),
        g("c", "three", true, false, false),
    ];
    assert_eq!(combine_prefix_len(&items, &["c"]), 2);
    assert_eq!(combine_prefix_len(&items, &["b"]), 1);
    assert_eq!(combine_prefix_len(&[], &[]), 0);
    assert!(can_merge_front(&items[0]));
    assert!(!can_merge_front(&g("s", "x", true, false, true)));
    assert!(!can_merge_follower(&items[1], &["b"]));
    assert!(can_merge_follower(&items[1], &[]));
}

#[test]
fn joined_texts_are_combined() {
    assert_eq!(TEXT_SEPARATOR, "\n\n");
    assert_eq!(join_texts(&[]), "");
    assert!(!is_combined(&["one".to_string()]));
    assert!(is_combined(&["one".to_string(), "two".to_string()]));
}
