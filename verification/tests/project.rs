//! Instructions, skills, the working tree, patches and file patterns.

use agent_bridge::glob::{glob_match, path_matches_simple, select_files, with_slashes};
use agent_bridge::patch::{
    apply_hunk, apply_json_hunk, begin_patch, json_hunk, next_hunk, update_report, Hunk,
};
use agent_bridge::project::{
    diff_for_path, git_status_context, is_markdown, load_project_instructions, root_files,
    Candidate, CommandOutput, MAX_TOTAL_CHARS,
};
use agent_bridge::skills::{
    choose_skills, load_skills_context, load_skills_context_for_task, skill_matches_task,
    SkillInfo,
};
use agent_bridge::text::{
    byte_len, decimal_text, join2, parse_number, split_once, str_contains, str_ends_with,
    str_starts_with, to_lower, trim, trim_end_char, truncate_at_char_boundary,
    truncate_with_marker,
};

fn candidate(rel: &str, raw: Option<&str>) -> Candidate {
    Candidate { rel: rel.to_string(), raw: raw.map(|r| r.to_string()) }
}

fn skill(name: &str, description: &str) -> SkillInfo {
    SkillInfo {
        id: name.to_string(),
        name: name.to_string(),
        description: description.to_string(),
    }
}

fn printed(text: &str) -> CommandOutput {
    CommandOutput::Printed(text.to_string())
}

#[test]
fn patterns_without_a_directory_match_names() {
    let paths = vec!["a.rs".to_string(), "src/b.rs".to_string(), "c.txt".to_string()];
    let hits = select_files(&paths, "*.rs", 50);
    assert!(hits.iter().any(|h| h.ends_with("a.rs")));
    assert!(hits.iter().any(|h| h.ends_with("src/b.rs") || h == "src/b.rs"));
    assert!(!hits.iter().any(|h| h.ends_with("c.txt")));
    assert_eq!(select_files(&paths, "*.rs", 1).len(), 1);
}

#[test]
fn stars_stay_in_their_directory() {
    assert!(glob_match("src/*.rs", "src/a.rs"));
    assert!(!glob_match("src/*.rs", "src/deep/a.rs"));
    assert!(glob_match("src/**/*.rs", "src/deep/er/a.rs"));
    assert!(glob_match("**", "any/where"));
    assert!(glob_match("a?c", "abc"));
    assert!(!glob_match("a?c", "a/c"));
    assert!(path_matches_simple("*.rs", "a.rs"));
    assert!(!path_matches_simple("*.rs", "src/a.rs"));
    assert_eq!(with_slashes("a\\b"), "a/b");
}

#[test]
fn json_patches_replace_one_text() {
    let hunk = json_hunk(
        "{\"path\":\"f.txt\",\"old_string\":\"world\",\"new_string\":\"ptah\"}",
    )
    .unwrap();
    assert_eq!(hunk.path, "f.txt");
    let after = apply_json_hunk("hello world", &hunk).unwrap();
    assert_eq!(after, "hello ptah");
    assert!(update_report("f.txt", "hello world", &after).contains("updated"));
    assert_eq!(update_report("f.txt", "abc", "é"), "updated f.txt (3 → 2 bytes)");
    assert!(json_hunk("{\"old_string\":\"a\",\"new_string\":\"b\"}").is_err());
    assert!(json_hunk("not json").is_err());
    assert!(apply_json_hunk("nothing here", &hunk).is_err());
}

#[test]
fn every_block_of_a_patch_is_applied() {
    let patch = "*** Update File: multi.txt\n<<<<<<< SEARCH\nline one\n=======\nLINE ONE\n>>>>>>> REPLACE\n*** Update File: multi.txt\n<<<<<<< SEARCH\nline three\n=======\nLINE THREE\n>>>>>>> REPLACE\n";
    let mut body = "line one\nline two\nline three\n".to_string();
    let mut rest = begin_patch(patch).unwrap();
    let mut count = 0;
    while let Some((hunk, more)) = next_hunk(&rest).unwrap() {
        assert_eq!(hunk.path, "multi.txt");
        body = apply_hunk(&body, &hunk).unwrap();
        rest = more;
        count += 1;
    }
    assert_eq!(count, 2);
    assert!(body.contains("LINE ONE"), "{body}");
    assert!(body.contains("line two"), "{body}");
    assert!(body.contains("LINE THREE"), "{body}");
}

#[test]
fn replacements_can_be_undone() {
    let hunk =
        Hunk { path: "f".to_string(), old: "one".to_string(), new: "two".to_string() };
    let back = Hunk { path: "f".to_string(), old: "two".to_string(), new: "one".to_string() };
    let after = apply_hunk("a one b", &hunk).unwrap();
    assert_eq!(after, "a two b");
    assert_eq!(apply_hunk(&after, &back).unwrap(), "a one b");
}

#[test]
fn instructions_are_loaded_in_order() {
    let (text, loaded) = load_project_instructions(
        &vec![candidate("AGENTS.md", Some("Always use tabs.")), candidate("AGENT.md", None)],
        &vec![candidate(".grok/rules/style.md", Some("   "))],
    );
    assert!(loaded.iter().any(|l| l == "AGENTS.md"));
    assert!(text.contains("Always use tabs"));
    assert_eq!(loaded.len(), 1);
    assert_eq!(load_project_instructions(&Vec::new(), &Vec::new()).0, "");
}

#[test]
fn instructions_are_bounded() {
    let long = "x".repeat(20_000);
    let roots: Vec<Candidate> = (0..5).map(|i| candidate(&format!("f{i}.md"), Some(&long))).collect();
    let (text, loaded) = load_project_instructions(&roots, &Vec::new());
    assert!(text.len() < 2 * MAX_TOTAL_CHARS);
    assert!(loaded.len() < 5);
    assert!(text.contains("(truncated)"));
}

#[test]
fn hosts_may_name_root_files() {
    let files = root_files(&["HOST.md".to_string()]);
    assert_eq!(files[0], "AGENTS.md");
    assert_eq!(files[1], "HOST.md");
    assert_eq!(files[2], "AGENT.md");
    assert_eq!(files.len(), 8);
    assert_eq!(files[7], "docs/ARCHITECTURE.md");
    assert!(is_markdown("md"));
    assert!(!is_markdown("txt"));
}

#[test]
fn unmatched_skills_are_previewed() {
    let skills = vec![skill("review", "edge cases")];
    let body = "# Review\n\nAlways mention edge cases.\n".to_string();
    let ctx = load_skills_context(&skills, &vec![Some(body)]);
    assert!(ctx.contains("edge cases") || ctx.contains("Review") || ctx.contains("review"));
}

#[test]
fn matched_skills_are_told_in_full() {
    let marker = "UNIQUE_SKILL_MARKER_END_OF_BODY";
    let body = format!("# bigskill\n\n{}\n{marker}\n", "x".repeat(5000));
    let skills = vec![skill("bigskill", "")];
    let choice = choose_skills(&skills, Some("please run bigskill carefully"));
    assert_eq!(choice.full, vec![0]);
    let ctx = load_skills_context_for_task(
        &skills,
        &choice,
        &vec![Some(body)],
        &choice.preview.iter().map(|_| None).collect(),
    );
    assert!(ctx.contains(marker));
}

#[test]
fn skills_match_by_name_and_description() {
    let s = skill("code-audit", "Formal (verification), tooling");
    assert!(skill_matches_task(&s, "run code-audit"));
    assert!(skill_matches_task(&s, "an audit please"));
    assert!(skill_matches_task(&s, "do verification now"));
    assert!(!skill_matches_task(&s, "bake a cake"));
    assert!(!skill_matches_task(&s, ""));
}

#[test]
fn untracked_files_are_shown() {
    let ctx = git_status_context(
        &printed("true\n"),
        &printed("main\n"),
        &printed("?? orphan.txt\n M src/lib.rs\nA  new.rs\n"),
    );
    assert!(ctx.contains("orphan.txt"));
    assert!(ctx.contains("main"));
    assert!(ctx.contains("src/lib.rs"));
    assert!(ctx.contains("new.rs"));
    let outside =
        git_status_context(&CommandOutput::Failed, &CommandOutput::NotRun, &CommandOutput::NotRun);
    assert_eq!(outside, "");
}

#[test]
fn diffs_fall_back_to_a_note() {
    assert_eq!(diff_for_path(Some("@@ -1 +1 @@"), None, "f"), "@@ -1 +1 @@");
    assert_eq!(diff_for_path(Some("  "), Some("new"), "f"), "new");
    assert_eq!(diff_for_path(None, None, "f"), "(updated f)");
}

#[test]
fn texts_are_cut_at_characters() {
    assert_eq!(truncate_at_char_boundary("aé", 2), "a");
    assert_eq!(truncate_at_char_boundary("aé", 3), "aé");
    assert_eq!(truncate_with_marker("abc", 3, "…"), "abc");
    assert!(truncate_with_marker("abcdef", 3, "…").ends_with("…"));
    assert_eq!(byte_len("aé"), 3);
    assert_eq!(join2("a", "b"), "ab");
    assert_eq!(trim("  a b \n"), "a b");
    assert_eq!(trim_end_char("a**", '*'), "a");
    assert_eq!(to_lower("ÀbC"), "Àbc");
    assert_eq!(split_once("a=b=c", "="), Some(("a".to_string(), "b=c".to_string())));
    assert_eq!(split_once("abc", "="), None);
    assert!(str_contains("haystack", "st"));
    assert!(str_starts_with("haystack", "hay"));
    assert!(str_ends_with("haystack", "stack"));
}

#[test]
fn numbers_round_trip() {
    for n in [0u64, 7, 10, 4_294_967_296, u64::MAX] {
        assert_eq!(decimal_text(n), n.to_string());
        assert_eq!(parse_number(&decimal_text(n)), Some(n));
    }
    assert_eq!(parse_number("18446744073709551616"), None);
    assert_eq!(parse_number(""), None);
    assert_eq!(parse_number("1x"), None);
}
