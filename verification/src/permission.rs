//! Permissions for tools: who may run what without asking.

use crate::json::Json;
use crate::text::{
    chars_to_string, contains_text, has_prefix, is_white, lower, lower_char, occurs_at, str_contains,
    str_eq, str_starts_with, to_chars, to_lower, trim, trim_end_char, trimmed, trimmed_end,
    trimmed_start, without_trailing,
};
use vstd::prelude::*;
use vstd::string::*;

verus! {

/// A question to the operator.
#[derive(Debug)]
pub struct PermissionRequest {
    pub id: u128,
    pub session_id: u128,
    /// The run that asks, when there is one.
    pub run_id: Option<String>,
    pub tool_name: String,
    pub summary: String,
    pub detail: Json,
}

/// A question that is still open, as others see it.
#[derive(Debug)]
pub struct PendingPermissionView {
    pub request_id: u128,
    pub session_id: u128,
    pub run_id: Option<String>,
    pub tool_name: String,
    pub receiver_open: bool,
}

/// The operator's answer.
#[derive(Debug, Clone, Copy, PartialEq, Eq, Structural)]
pub enum PermissionDecision {
    Allow,
    Deny,
    AlwaysAllow,
}

/// Whether a tool is run, refused or asked about.
#[derive(Debug, Clone, Copy, PartialEq, Eq, Structural)]
pub enum ToolGate {
    AutoAllow,
    AutoDeny,
    Prompt,
}

/// The part of a text before a character; all of it where there is none.
pub open spec fn until(s: Seq<char>, c: char) -> Seq<char>
    decreases s.len(),
{
    if s.len() == 0 || s[0] == c {
        Seq::empty()
    } else {
        seq![s[0]] + until(s.drop_first(), c)
    }
}

/// What a rule names, without its arguments and stars: `Shell(*)` names `shell`.
pub open spec fn rule_base(rule: Seq<char>) -> Seq<char> {
    let r = lower(trimmed(rule));
    let name = if r.contains('(') {
        trimmed(until(r, '('))
    } else {
        r
    };
    trimmed(without_trailing(name, '*'))
}

/// The tools of a known family.
pub open spec fn family(base: Seq<char>) -> Option<Seq<Seq<char>>> {
    if base == "shell"@ || base == "bash"@ || base == "run_terminal_cmd"@ || base == "terminal"@ {
        Some(seq!["run_terminal_cmd"@])
    } else if base == "webfetch"@ || base == "web_fetch"@ || base == "fetch"@ {
        Some(seq!["web_fetch"@])
    } else if base == "write"@ || base == "write_file"@ || base == "write_files"@ || base
        == "edit"@ {
        Some(seq!["write_file"@, "write_files"@, "apply_patch"@])
    } else if base == "apply_patch"@ || base == "patch"@ {
        Some(seq!["apply_patch"@])
    } else if base == "read"@ || base == "read_file"@ {
        Some(seq!["read_file"@])
    } else if base == "mcp"@ {
        Some(seq!["mcp"@])
    } else {
        None
    }
}

/// A rule matches a tool: it is a star, names the tool's family, or the two
/// names are part of one another.
pub open spec fn is_match(rule: Seq<char>, tool: Seq<char>) -> bool {
    let r = lower(trimmed(rule));
    let t = lower(tool);
    let base = rule_base(rule);
    &&& trimmed(rule).len() > 0
    &&& {
        ||| r == "*"@
        ||| r == "*()"@
        ||| base.len() == 0
        ||| match family(base) {
            Some(names) => names.contains(t) || base == "mcp"@ && has_prefix(t, "mcp__"@)
                || contains_text(t, base),
            None => t == base || contains_text(t, base) || contains_text(base, t),
        }
    }
}

proof fn until_is_prefix(s: Seq<char>, c: char, n: int)
    requires
        0 <= n <= s.len(),
        forall|i: int| 0 <= i < n ==> s[i] != c,
        n == s.len() || s[n] == c,
    ensures
        until(s, c) == s.take(n),
    decreases s.len(),
{
    if n == 0 {
        assert(s.take(0) =~= Seq::<char>::empty());
    } else {
        until_is_prefix(s.drop_first(), c, n - 1);
        assert(s.take(n) =~= seq![s[0]] + s.drop_first().take(n - 1));
    }
}

fn base_of(rule: &str) -> (base: String)
    ensures
        base@ == rule_base(rule@),
{
    let r: String = to_lower(trim(rule).as_str());
    let v: Vec<char> = to_chars(r.as_str());
    let n: usize = v.len();
    let mut at: usize = 0;
    while at < n && v[at] != '('
        invariant
            at <= n,
            n == v@.len(),
            forall|i: int| 0 <= i < at ==> v@[i] != '(',
        decreases n - at,
    {
        at = at + 1;
    }
    let name: String = if at < n {
        proof {
            until_is_prefix(v@, '(', at as int);
            assert(v@.subrange(0, at as int) =~= v@.take(at as int));
            assert(v@[at as int] == '(');
        }
        trim(chars_to_string(&v, 0, at).as_str())
    } else {
        proof {
            assert(!r@.contains('('));
        }
        r
    };
    trim(trim_end_char(name.as_str(), '*').as_str())
}

fn in_family(base: &str, t: &str) -> (r: Option<bool>)
    ensures
        match family(base@) {
            Some(names) => r == Some(names.contains(t@)),
            None => r is None,
        },
{
    if str_eq(base, "shell") || str_eq(base, "bash") || str_eq(base, "run_terminal_cmd") || str_eq(
        base,
        "terminal",
    ) {
        proof {
            assert(seq!["run_terminal_cmd"@][0] == "run_terminal_cmd"@);
        }
        Some(str_eq(t, "run_terminal_cmd"))
    } else if str_eq(base, "webfetch") || str_eq(base, "web_fetch") || str_eq(base, "fetch") {
        proof {
            assert(seq!["web_fetch"@][0] == "web_fetch"@);
        }
        Some(str_eq(t, "web_fetch"))
    } else if str_eq(base, "write") || str_eq(base, "write_file") || str_eq(base, "write_files")
        || str_eq(base, "edit") {
        proof {
            let names = seq!["write_file"@, "write_files"@, "apply_patch"@];
            assert(names[0] == "write_file"@ && names[1] == "write_files"@ && names[2]
                == "apply_patch"@);
        }
        Some(str_eq(t, "write_file") || str_eq(t, "write_files") || str_eq(t, "apply_patch"))
    } else if str_eq(base, "apply_patch") || str_eq(base, "patch") {
        proof {
            assert(seq!["apply_patch"@][0] == "apply_patch"@);
        }
        Some(str_eq(t, "apply_patch"))
    } else if str_eq(base, "read") || str_eq(base, "read_file") {
        proof {
            assert(seq!["read_file"@][0] == "read_file"@);
        }
        Some(str_eq(t, "read_file"))
    } else if str_eq(base, "mcp") {
        proof {
            assert(seq!["mcp"@][0] == "mcp"@);
        }
        Some(str_eq(t, "mcp"))
    } else {
        None
    }
}

/// Whether a rule matches a tool.
pub fn rule_matches(rule: &str, tool_name: &str) -> (r: bool)
    ensures
        r == is_match(rule@, tool_name@),
{
    let raw: String = trim(rule);
    if raw.as_str().is_empty() {
        return false;
    }
    let text: String = to_lower(raw.as_str());
    let t: String = to_lower(tool_name);
    if str_eq(text.as_str(), "*") || str_eq(text.as_str(), "*()") {
        return true;
    }
    let base: String = base_of(rule);
    if base.as_str().is_empty() {
        return true;
    }
    match in_family(base.as_str(), t.as_str()) {
        Some(named) => named || str_eq(base.as_str(), "mcp") && str_starts_with(t.as_str(), "mcp__")
            || str_contains(t.as_str(), base.as_str()),
        None => str_eq(t.as_str(), base.as_str()) || str_contains(t.as_str(), base.as_str())
            || str_contains(base.as_str(), t.as_str()),
    }
}

proof fn white_in_any_case(c: char)
    ensures
        is_white(lower_char(c)) == is_white(c),
{
}

proof fn lower_then_trim(s: Seq<char>)
    ensures
        lower(trimmed(s)) == trimmed(lower(s)),
{
    lower_then_trim_start(s);
    lower_then_trim_end(trimmed_start(s));
}

proof fn lower_then_trim_start(s: Seq<char>)
    ensures
        lower(trimmed_start(s)) == trimmed_start(lower(s)),
    decreases s.len(),
{
    if s.len() > 0 {
        white_in_any_case(s[0]);
        assert(lower(s)[0] == lower_char(s[0]));
        if is_white(s[0]) {
            lower_then_trim_start(s.drop_first());
            assert(lower(s).drop_first() =~= lower(s.drop_first()));
        }
    }
}

proof fn lower_then_trim_end(s: Seq<char>)
    ensures
        lower(trimmed_end(s)) == trimmed_end(lower(s)),
    decreases s.len(),
{
    if s.len() > 0 {
        white_in_any_case(s.last());
        assert(lower(s).last() == lower_char(s.last()));
        if is_white(s.last()) {
            lower_then_trim_end(s.drop_last());
            assert(lower(s).drop_last() =~= lower(s.drop_last()));
        }
    }
}

proof fn part_of_part(a: Seq<char>, b: Seq<char>, c: Seq<char>)
    requires
        contains_text(a, b),
        contains_text(b, c),
    ensures
        contains_text(a, c),
{
    let i = choose|i: int| occurs_at(a, b, i);
    let j = choose|j: int| occurs_at(b, c, j);
    assert(a.subrange(i + j, i + j + c.len()) =~= b.subrange(j, j + c.len()));
    assert(occurs_at(a, c, i + j));
}

proof fn start_is_part(s: Seq<char>, n: int)
    requires
        0 <= n <= s.len(),
    ensures
        contains_text(s, s.take(n)),
{
    assert(s.subrange(0, n) =~= s.take(n));
    assert(occurs_at(s, s.take(n), 0));
}

proof fn trimmed_start_is_part(s: Seq<char>)
    ensures
        contains_text(s, trimmed_start(s)),
    decreases s.len(),
{
    if s.len() > 0 && is_white(s[0]) {
        trimmed_start_is_part(s.drop_first());
        assert(s.subrange(1, s.len() as int) =~= s.drop_first());
        assert(occurs_at(s, s.drop_first(), 1));
        part_of_part(s, s.drop_first(), trimmed_start(s));
    } else {
        start_is_part(s, s.len() as int);
        assert(s.take(s.len() as int) =~= s);
    }
}

proof fn trimmed_end_is_part(s: Seq<char>)
    ensures
        contains_text(s, trimmed_end(s)),
    decreases s.len(),
{
    if s.len() > 0 && is_white(s.last()) {
        trimmed_end_is_part(s.drop_last());
        start_is_part(s, s.len() - 1);
        assert(s.take(s.len() - 1) =~= s.drop_last());
        part_of_part(s, s.drop_last(), trimmed_end(s));
    } else {
        start_is_part(s, s.len() as int);
        assert(s.take(s.len() as int) =~= s);
    }
}

proof fn trimmed_is_part(s: Seq<char>)
    ensures
        contains_text(s, trimmed(s)),
{
    trimmed_start_is_part(s);
    trimmed_end_is_part(trimmed_start(s));
    part_of_part(s, trimmed_start(s), trimmed(s));
}

proof fn without_trailing_is_part(s: Seq<char>, c: char)
    ensures
        contains_text(s, without_trailing(s, c)),
    decreases s.len(),
{
    if s.len() > 0 && s.last() == c {
        without_trailing_is_part(s.drop_last(), c);
        start_is_part(s, s.len() - 1);
        assert(s.take(s.len() - 1) =~= s.drop_last());
        part_of_part(s, s.drop_last(), without_trailing(s, c));
    } else {
        start_is_part(s, s.len() as int);
        assert(s.take(s.len() as int) =~= s);
    }
}

proof fn until_is_part(s: Seq<char>, c: char)
    requires
        s.contains(c),
    ensures
        contains_text(s, until(s, c)),
{
    let n = s.index_of_first(c)->0;
    s.index_of_first_ensures(c);
    until_is_prefix(s, c, n);
    start_is_part(s, n);
}

proof fn base_is_part(rule: Seq<char>)
    ensures
        contains_text(lower(trimmed(rule)), rule_base(rule)),
{
    let r = lower(trimmed(rule));
    let name = if r.contains('(') {
        trimmed(until(r, '('))
    } else {
        r
    };
    if r.contains('(') {
        until_is_part(r, '(');
        trimmed_is_part(until(r, '('));
        part_of_part(r, until(r, '('), name);
    } else {
        start_is_part(r, r.len() as int);
        assert(r.take(r.len() as int) =~= r);
    }
    without_trailing_is_part(name, '*');
    part_of_part(r, name, without_trailing(name, '*'));
    trimmed_is_part(without_trailing(name, '*'));
    part_of_part(r, without_trailing(name, '*'), rule_base(rule));
}

proof fn trimmed_start_of_text(s: Seq<char>, k: int)
    requires
        0 <= k < s.len(),
        !is_white(s[k]),
    ensures
        trimmed_start(s).len() > 0,
        !is_white(trimmed_start(s)[0]),
    decreases s.len(),
{
    if is_white(s[0]) {
        assert(s.drop_first()[k - 1] == s[k]);
        trimmed_start_of_text(s.drop_first(), k - 1);
    }
}

proof fn trimmed_end_of_text(s: Seq<char>)
    requires
        s.len() > 0,
        !is_white(s[0]),
    ensures
        trimmed_end(s).len() > 0,
    decreases s.len(),
{
    if is_white(s.last()) {
        assert(s.drop_last()[0] == s[0]);
        trimmed_end_of_text(s.drop_last());
    }
}

proof fn trimmed_start_of_blank(s: Seq<char>)
    requires
        forall|i: int| 0 <= i < s.len() ==> is_white(#[trigger] s[i]),
    ensures
        trimmed_start(s).len() == 0,
    decreases s.len(),
{
    if s.len() > 0 {
        assert(is_white(s[0]));
        assert forall|i: int| 0 <= i < s.drop_first().len() implies is_white(
            #[trigger] s.drop_first()[i],
        ) by {
            assert(s.drop_first()[i] == s[i + 1]);
        }
        trimmed_start_of_blank(s.drop_first());
    }
}

/// A star matches every tool.
pub proof fn star_matches_every_tool(tool: Seq<char>)
    ensures
        is_match("*"@, tool),
{
    reveal_strlit("*");
    assert(trimmed("*"@) == "*"@);
    assert(lower("*"@) =~= "*"@);
}

/// A rule of nothing but white space matches no tool.
pub proof fn blank_rules_match_nothing(rule: Seq<char>, tool: Seq<char>)
    requires
        forall|i: int| 0 <= i < rule.len() ==> is_white(#[trigger] rule[i]),
    ensures
        !is_match(rule, tool),
{
    trimmed_start_of_blank(rule);
}

/// A tool's own name, where it is not blank, is a rule that matches it.
pub proof fn tools_match_their_own_names(tool: Seq<char>, k: int)
    requires
        0 <= k < tool.len(),
        !is_white(tool[k]),
    ensures
        is_match(tool, tool),
{
    trimmed_start_of_text(tool, k);
    trimmed_end_of_text(trimmed_start(tool));
    lower_then_trim(tool);
    trimmed_is_part(lower(tool));
    base_is_part(tool);
    part_of_part(lower(tool), lower(trimmed(tool)), rule_base(tool));
}

/// The case of ASCII letters does not matter, neither in the rule nor in the
/// name of the tool.
pub proof fn case_does_not_matter(
    rule: Seq<char>,
    other_rule: Seq<char>,
    tool: Seq<char>,
    other_tool: Seq<char>,
)
    requires
        lower(rule) == lower(other_rule),
        lower(tool) == lower(other_tool),
    ensures
        is_match(rule, tool) == is_match(other_rule, other_tool),
{
    lower_then_trim(rule);
    lower_then_trim(other_rule);
    assert(trimmed(rule).len() == lower(trimmed(rule)).len());
    assert(trimmed(other_rule).len() == lower(trimmed(other_rule)).len());
}

/// Some rule matches the tool.
pub open spec fn any_match(rules: Seq<String>, tool: Seq<char>) -> bool {
    exists|i: int| 0 <= i < rules.len() && is_match((#[trigger] rules[i])@, tool)
}

/// The list holds this text.
pub open spec fn lists(texts: Seq<String>, text: Seq<char>) -> bool {
    exists|i: int| 0 <= i < texts.len() && (#[trigger] texts[i])@ == text
}

/// What happens to a tool before anyone is asked.
pub open spec fn gate_of(
    tool: Seq<char>,
    always_approve: bool,
    always_allowed: Seq<String>,
    mode: Seq<char>,
    allow_rules: Seq<String>,
    deny_rules: Seq<String>,
) -> ToolGate {
    if any_match(deny_rules, tool) {
        ToolGate::AutoDeny
    } else if mode == "bypassPermissions"@ || always_approve || lists(always_allowed, tool)
        || has_prefix(tool, "mcp__"@) && lists(always_allowed, "mcp"@) || any_match(
        allow_rules,
        tool,
    ) {
        ToolGate::AutoAllow
    } else {
        ToolGate::Prompt
    }
}

fn any_rule(rules: &[String], tool_name: &str) -> (r: bool)
    ensures
        r == any_match(rules@, tool_name@),
{
    let mut i: usize = 0;
    while i < rules.len()
        invariant
            i <= rules@.len(),
            forall|j: int| 0 <= j < i ==> !is_match((#[trigger] rules@[j])@, tool_name@),
        decreases rules.len() - i,
    {
        if rule_matches(rules[i].as_str(), tool_name) {
            return true;
        }
        i = i + 1;
    }
    false
}

fn holds_text(list: &[String], text: &str) -> (r: bool)
    ensures
        r == lists(list@, text@),
{
    let mut i: usize = 0;
    while i < list.len()
        invariant
            i <= list@.len(),
            forall|j: int| 0 <= j < i ==> (#[trigger] list@[j])@ != text@,
        decreases list.len() - i,
    {
        if str_eq(list[i].as_str(), text) {
            return true;
        }
        i = i + 1;
    }
    false
}

/// Decides about a tool before anyone is asked. A rule that denies wins over
/// everything: modes that skip the question do not lift a denial.
pub fn evaluate_tool_gate(
    tool_name: &str,
    always_approve: bool,
    always_allowed_tools: &[String],
    permission_mode: &str,
    allow_rules: &[String],
    deny_rules: &[String],
) -> (g: ToolGate)
    ensures
        g == gate_of(
            tool_name@,
            always_approve,
            always_allowed_tools@,
            permission_mode@,
            allow_rules@,
            deny_rules@,
        ),
{
    if any_rule(deny_rules, tool_name) {
        return ToolGate::AutoDeny;
    }
    if str_eq(permission_mode, "bypassPermissions") || always_approve {
        return ToolGate::AutoAllow;
    }
    if holds_text(always_allowed_tools, tool_name) {
        return ToolGate::AutoAllow;
    }
    if str_starts_with(tool_name, "mcp__") && holds_text(always_allowed_tools, "mcp") {
        return ToolGate::AutoAllow;
    }
    if any_rule(allow_rules, tool_name) {
        return ToolGate::AutoAllow;
    }
    ToolGate::Prompt
}

/// A rule that denies a tool is effective in every mode and whatever else
/// allows the tool.
pub proof fn denials_always_win(
    tool: Seq<char>,
    always_approve: bool,
    always_allowed: Seq<String>,
    mode: Seq<char>,
    allow_rules: Seq<String>,
    deny_rules: Seq<String>,
)
    requires
        any_match(deny_rules, tool),
    ensures
        gate_of(tool, always_approve, always_allowed, mode, allow_rules, deny_rules) is AutoDeny,
{
}

/// A tool is run unasked only where no rule denies it and a mode, a list or a
/// rule allows it.
pub proof fn tools_run_unasked_only_if_allowed(
    tool: Seq<char>,
    always_allowed: Seq<String>,
    mode: Seq<char>,
    allow_rules: Seq<String>,
    deny_rules: Seq<String>,
)
    requires
        mode != "bypassPermissions"@,
        !any_match(allow_rules, tool),
        !lists(always_allowed, tool),
        !lists(always_allowed, "mcp"@),
    ensures
        !(gate_of(tool, false, always_allowed, mode, allow_rules, deny_rules) is AutoAllow),
{
}

/// Where no rule denies a tool it runs unasked if the mode bypasses permissions,
/// if everything is approved, if the tool is on the list of those always
/// allowed, if it is served by MCP and that list holds `mcp`, or if a rule allows
/// it; and in no other case.
pub proof fn gates_open_where_something_allows(
    tool: Seq<char>,
    always_approve: bool,
    always_allowed: Seq<String>,
    mode: Seq<char>,
    allow_rules: Seq<String>,
    deny_rules: Seq<String>,
)
    requires
        forall|i: int| 0 <= i < deny_rules.len() ==> !is_match((#[trigger] deny_rules[i])@, tool),
    ensures
        ({
            let g = gate_of(tool, always_approve, always_allowed, mode, allow_rules, deny_rules);
            let named = exists|i: int|
                0 <= i < always_allowed.len() && (#[trigger] always_allowed[i])@ == tool;
            let served = tool.len() >= 5 && tool.take(5) == seq!['m', 'c', 'p', '_', '_']
                && exists|i: int|
                0 <= i < always_allowed.len() && (#[trigger] always_allowed[i])@ == seq![
                    'm',
                    'c',
                    'p',
                ];
            let ruled = exists|i: int|
                0 <= i < allow_rules.len() && is_match((#[trigger] allow_rules[i])@, tool);
            &&& mode == "bypassPermissions"@ ==> g is AutoAllow
            &&& always_approve ==> g is AutoAllow
            &&& named ==> g is AutoAllow
            &&& served ==> g is AutoAllow
            &&& ruled ==> g is AutoAllow
            &&& mode != "bypassPermissions"@ && !always_approve && !named && !served && !ruled
                ==> g is Prompt
        }),
{
    reveal_strlit("mcp__");
    reveal_strlit("mcp");
    assert("mcp__"@ =~= seq!['m', 'c', 'p', '_', '_']);
    assert("mcp"@ =~= seq!['m', 'c', 'p']);
    if tool.len() >= 5 {
        assert(tool.subrange(0, 5) =~= tool.take(5));
    }
}

/// A tool is refused exactly where some rule that denies matches it.
pub proof fn only_denied_tools_are_refused(
    tool: Seq<char>,
    always_approve: bool,
    always_allowed: Seq<String>,
    mode: Seq<char>,
    allow_rules: Seq<String>,
    deny_rules: Seq<String>,
)
    ensures
        gate_of(tool, always_approve, always_allowed, mode, allow_rules, deny_rules) is AutoDeny
            <==> exists|i: int|
            0 <= i < deny_rules.len() && is_match((#[trigger] deny_rules[i])@, tool),
{
}

/// The name is plain: lower case, with nothing blank around it, and without
/// stars or arguments.
pub open spec fn is_plain_name(n: Seq<char>) -> bool {
    &&& n.len() > 0
    &&& lower(n) == n
    &&& !is_white(n[0])
    &&& !is_white(n.last())
    &&& !n.contains('(')
    &&& n.last() != '*'
}

proof fn plain_names_stay(n: Seq<char>)
    requires
        is_plain_name(n),
    ensures
        trimmed(n) == n,
        rule_base(n) == n,
        without_trailing(n, '*') == n,
        n != "*"@,
        n != "*()"@,
{
    assert(trimmed_start(n) == n);
    assert(trimmed_end(n) == n);
    reveal_strlit("*");
    reveal_strlit("*()");
    assert("*()"@[1] == '(');
    if n == "*()"@ {
        assert(n.contains(n[1]));
    }
}

proof fn plain_names_match_by_family(n: Seq<char>, tool: Seq<char>)
    requires
        is_plain_name(n),
    ensures
        is_match(n, tool) == match family(n) {
            Some(names) => names.contains(lower(tool)) || n == "mcp"@ && has_prefix(
                lower(tool),
                "mcp__"@,
            ) || contains_text(lower(tool), n),
            None => lower(tool) == n || contains_text(lower(tool), n) || contains_text(
                n,
                lower(tool),
            ),
        },
{
    plain_names_stay(n);
}

/// A rule with arguments, whatever they are, matches what its name matches.
pub proof fn arguments_do_not_matter(name: Seq<char>, args: Seq<char>, tool: Seq<char>)
    requires
        is_plain_name(name),
    ensures
        is_match(name + seq!['('] + args + seq![')'], tool) == is_match(name, tool),
{
    let rule = name + seq!['('] + args + seq![')'];
    plain_names_stay(name);
    assert(rule[0] == name[0]);
    assert(rule.last() == ')');
    assert(trimmed_start(rule) == rule);
    assert(trimmed_end(rule) == rule);
    let r = lower(rule);
    assert(r[name.len() as int] == '(');
    assert forall|i: int| 0 <= i < name.len() implies r[i] != '(' by {
        assert(r[i] == lower(name)[i]);
        assert(name.contains(name[i]));
    }
    until_is_prefix(r, '(', name.len() as int);
    assert(r.take(name.len() as int) =~= name) by {
        assert forall|i: int| 0 <= i < name.len() implies r[i] == name[i] by {
            assert(lower(name)[i] == lower_char(name[i]));
        }
    }
    assert(r.contains('(')) by {
        assert(r[name.len() as int] == '(');
    }
    reveal_strlit("*");
    reveal_strlit("*()");
    assert(r[0] == name[0]) by {
        assert(lower(name)[0] == lower_char(name[0]));
    }
    assert(r.len() >= 3);
    assert(r != "*"@);
    if r == "*()"@ {
        assert(name.len() == 1);
        assert(name.last() == '*');
    }
    if name == "*"@ {
        assert(name.last() == '*');
    }
    if name == "*()"@ {
        assert(name[1] == '(');
        assert(name.contains('('));
    }
    assert(until(r, '(') == name);
    assert(rule_base(rule) == name);
}

/// The name stands for the tools that run commands.
pub open spec fn names_shell_tools(n: Seq<char>) -> bool {
    ||| n == "shell"@
    ||| n == "bash"@
    ||| n == "run_terminal_cmd"@
    ||| n == "terminal"@
}

/// The name stands for the tools that fetch pages.
pub open spec fn names_fetch_tools(n: Seq<char>) -> bool {
    ||| n == "webfetch"@
    ||| n == "web_fetch"@
    ||| n == "fetch"@
}

/// The name stands for the tools that write files.
pub open spec fn names_write_tools(n: Seq<char>) -> bool {
    ||| n == "write"@
    ||| n == "write_file"@
    ||| n == "write_files"@
    ||| n == "edit"@
}

/// The name stands for the tools that apply patches.
pub open spec fn names_patch_tools(n: Seq<char>) -> bool {
    ||| n == "apply_patch"@
    ||| n == "patch"@
}

/// The name stands for the tools that read files.
pub open spec fn names_read_tools(n: Seq<char>) -> bool {
    ||| n == "read"@
    ||| n == "read_file"@
}

proof fn family_names_are_plain()
    ensures
        is_plain_name("shell"@),
        is_plain_name("bash"@),
        is_plain_name("run_terminal_cmd"@),
        is_plain_name("terminal"@),
        is_plain_name("webfetch"@),
        is_plain_name("web_fetch"@),
        is_plain_name("fetch"@),
        is_plain_name("write"@),
        is_plain_name("write_file"@),
        is_plain_name("write_files"@),
        is_plain_name("edit"@),
        is_plain_name("apply_patch"@),
        is_plain_name("patch"@),
        is_plain_name("read"@),
        is_plain_name("read_file"@),
        is_plain_name("mcp"@),
{
    reveal_strlit("shell");
    assert(lower("shell"@) =~= "shell"@);
    reveal_strlit("bash");
    assert(lower("bash"@) =~= "bash"@);
    reveal_strlit("run_terminal_cmd");
    assert(lower("run_terminal_cmd"@) =~= "run_terminal_cmd"@);
    reveal_strlit("terminal");
    assert(lower("terminal"@) =~= "terminal"@);
    reveal_strlit("webfetch");
    assert(lower("webfetch"@) =~= "webfetch"@);
    reveal_strlit("web_fetch");
    assert(lower("web_fetch"@) =~= "web_fetch"@);
    reveal_strlit("fetch");
    assert(lower("fetch"@) =~= "fetch"@);
    reveal_strlit("write");
    assert(lower("write"@) =~= "write"@);
    reveal_strlit("write_file");
    assert(lower("write_file"@) =~= "write_file"@);
    reveal_strlit("write_files");
    assert(lower("write_files"@) =~= "write_files"@);
    reveal_strlit("edit");
    assert(lower("edit"@) =~= "edit"@);
    reveal_strlit("apply_patch");
    assert(lower("apply_patch"@) =~= "apply_patch"@);
    reveal_strlit("patch");
    assert(lower("patch"@) =~= "patch"@);
    reveal_strlit("read");
    assert(lower("read"@) =~= "read"@);
    reveal_strlit("read_file");
    assert(lower("read_file"@) =~= "read_file"@);
    reveal_strlit("mcp");
    assert(lower("mcp"@) =~= "mcp"@);
}

proof fn family_names_differ()
    ensures
        "shell"@.len() == 5 && "shell"@[0] == 's',
        "bash"@.len() == 4 && "bash"@[0] == 'b',
        "run_terminal_cmd"@.len() == 16 && "run_terminal_cmd"@[0] == 'r',
        "terminal"@.len() == 8 && "terminal"@[0] == 't',
        "webfetch"@.len() == 8 && "webfetch"@[0] == 'w',
        "web_fetch"@.len() == 9 && "web_fetch"@[0] == 'w',
        "fetch"@.len() == 5 && "fetch"@[0] == 'f',
        "write"@.len() == 5 && "write"@[0] == 'w',
        "write_file"@.len() == 10 && "write_file"@[0] == 'w',
        "write_files"@.len() == 11 && "write_files"@[0] == 'w',
        "edit"@.len() == 4 && "edit"@[0] == 'e',
        "apply_patch"@.len() == 11 && "apply_patch"@[0] == 'a',
        "patch"@.len() == 5 && "patch"@[0] == 'p',
        "read"@.len() == 4 && "read"@[0] == 'r',
        "read_file"@.len() == 9 && "read_file"@[0] == 'r',
        "mcp"@.len() == 3 && "mcp"@[0] == 'm',
{
    reveal_strlit("shell");
    reveal_strlit("bash");
    reveal_strlit("run_terminal_cmd");
    reveal_strlit("terminal");
    reveal_strlit("webfetch");
    reveal_strlit("web_fetch");
    reveal_strlit("fetch");
    reveal_strlit("write");
    reveal_strlit("write_file");
    reveal_strlit("write_files");
    reveal_strlit("edit");
    reveal_strlit("apply_patch");
    reveal_strlit("patch");
    reveal_strlit("read");
    reveal_strlit("read_file");
    reveal_strlit("mcp");
}

proof fn families_by_name(n: Seq<char>)
    ensures
        names_shell_tools(n) ==> family(n) == Some(seq!["run_terminal_cmd"@]),
        names_fetch_tools(n) ==> family(n) == Some(seq!["web_fetch"@]),
        names_write_tools(n) ==> family(n) == Some(seq!["write_file"@, "write_files"@, "apply_patch"@]),
        names_patch_tools(n) ==> family(n) == Some(seq!["apply_patch"@]),
        names_read_tools(n) ==> family(n) == Some(seq!["read_file"@]),
        n == "mcp"@ ==> family(n) == Some(seq!["mcp"@]),
{
    family_names_differ();
}

proof fn family_names_are_plain_names(n: Seq<char>)
    requires
        names_shell_tools(n) || names_fetch_tools(n) || names_write_tools(n) || names_patch_tools(n)
            || names_read_tools(n) || n == "mcp"@,
    ensures
        is_plain_name(n),
{
    family_names_are_plain();
}

proof fn family_matches(n: Seq<char>, tool: Seq<char>, names: Seq<Seq<char>>)
    requires
        is_plain_name(n),
        family(n) == Some(names),
        n != "mcp"@,
    ensures
        is_match(n, tool) <==> names.contains(lower(tool)) || contains_text(lower(tool), n),
{
    plain_names_match_by_family(n, tool);
}

/// A rule that names a family matches the tools of the family, and the tools
/// whose name it is part of; and no others.
pub proof fn families_match_their_tools(name: Seq<char>, tool: Seq<char>)
    ensures
        names_shell_tools(name) ==> (is_match(name, tool) <==> lower(tool) == "run_terminal_cmd"@
            || contains_text(lower(tool), name)),
        names_fetch_tools(name) ==> (is_match(name, tool) <==> lower(tool) == "web_fetch"@
            || contains_text(lower(tool), name)),
        names_write_tools(name) ==> (is_match(name, tool) <==> lower(tool) == "write_file"@ || lower(tool) == "write_files"@ || lower(tool) == "apply_patch"@
            || contains_text(lower(tool), name)),
        names_patch_tools(name) ==> (is_match(name, tool) <==> lower(tool) == "apply_patch"@
            || contains_text(lower(tool), name)),
        names_read_tools(name) ==> (is_match(name, tool) <==> lower(tool) == "read_file"@
            || contains_text(lower(tool), name)),
{
    family_names_differ();
    families_by_name(name);
    if names_shell_tools(name) {
        family_names_are_plain_names(name);
        let names = seq!["run_terminal_cmd"@];
        family_matches(name, tool, names);
        assert(names[0] == "run_terminal_cmd"@);
    }
    if names_fetch_tools(name) {
        family_names_are_plain_names(name);
        let names = seq!["web_fetch"@];
        family_matches(name, tool, names);
        assert(names[0] == "web_fetch"@);
    }
    if names_write_tools(name) {
        family_names_are_plain_names(name);
        let names = seq!["write_file"@, "write_files"@, "apply_patch"@];
        family_matches(name, tool, names);
        assert(names[0] == "write_file"@);
        assert(names[1] == "write_files"@);
        assert(names[2] == "apply_patch"@);
    }
    if names_patch_tools(name) {
        family_names_are_plain_names(name);
        let names = seq!["apply_patch"@];
        family_matches(name, tool, names);
        assert(names[0] == "apply_patch"@);
    }
    if names_read_tools(name) {
        family_names_are_plain_names(name);
        let names = seq!["read_file"@];
        family_matches(name, tool, names);
        assert(names[0] == "read_file"@);
    }
}

proof fn served_names_contain_mcp(t: Seq<char>)
    requires
        has_prefix(t, "mcp__"@),
    ensures
        contains_text(t, "mcp"@),
{
    reveal_strlit("mcp");
    reveal_strlit("mcp__");
    assert(t.subrange(0, 3) =~= t.subrange(0, 5).subrange(0, 3));
    assert("mcp__"@.subrange(0, 3) =~= "mcp"@);
    assert(occurs_at(t, "mcp"@, 0));
}

proof fn mcp_family_matches(tool: Seq<char>, names: Seq<Seq<char>>)
    requires
        is_plain_name("mcp"@),
        family("mcp"@) == Some(names),
    ensures
        is_match("mcp"@, tool) <==> names.contains(lower(tool)) || has_prefix(
            lower(tool),
            "mcp__"@,
        ) || contains_text(lower(tool), "mcp"@),
{
    plain_names_match_by_family("mcp"@, tool);
}

/// The rule `mcp` matches exactly the tools whose name it is part of.
pub proof fn mcp_matches_served_tools(tool: Seq<char>)
    ensures
        is_match("mcp"@, tool) <==> contains_text(lower(tool), "mcp"@),
{
    let t = lower(tool);
    let names = seq!["mcp"@];
    family_names_are_plain_names("mcp"@);
    families_by_name("mcp"@);
    mcp_family_matches(tool, names);
    assert(names[0] == "mcp"@);
    if names.contains(t) {
        start_is_part(t, t.len() as int);
        assert(t.take(t.len() as int) =~= t);
    }
    if has_prefix(t, "mcp__"@) {
        served_names_contain_mcp(t);
    }
}

/// A plain rule that names no family matches the tools that it is part of, and
/// those whose name is part of it, in any case; and no others.
pub proof fn plain_rules_match_by_containment(name: Seq<char>, tool: Seq<char>)
    requires
        is_plain_name(name),
        !names_shell_tools(name),
        !names_fetch_tools(name),
        !names_write_tools(name),
        !names_patch_tools(name),
        !names_read_tools(name),
        name != "mcp"@,
    ensures
        is_match(name, tool) <==> contains_text(lower(tool), name) || contains_text(
            name,
            lower(tool),
        ),
{
    plain_names_match_by_family(name, tool);
    assert(family(name) is None);
    start_is_part(name, name.len() as int);
    assert(name.take(name.len() as int) =~= name);
}

} // verus!
