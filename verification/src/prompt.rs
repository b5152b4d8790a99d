//! Prompts and commands as the control plane reads them.

use crate::error::{forbidden, forbidden_fault, invalid, invalid_fault, judged, Fault, OrchError};
use crate::json::texts;
use crate::text::{
    contains_text, fitted, has_prefix, is_white, lower, skip_white, str_contains, str_eq,
    str_has_char, str_starts_with, text_begins_behind_white_space, to_chars, to_lower, trim, trimmed,
    trimmed_start, truncate_at_char_boundary, white,
};
use vstd::prelude::*;
use vstd::string::*;

verus! {

/// Why a control prompt is refused.
pub open spec fn control_prompt_fault(prompt: Seq<char>) -> Option<Fault> {
    let t = trimmed_start(prompt);
    if t.len() == 0 {
        Some(invalid_fault("control prompt cannot be empty"@))
    } else if t[0] == '!' {
        Some(forbidden_fault("shell-style ! prompts are not allowed via control plane"@))
    } else if t[0] == '/' {
        Some(
            forbidden_fault(
                "slash commands are not allowed via the orchestration control plane"@,
            ),
        )
    } else {
        None
    }
}

/// Refuses blank prompts, shell prompts and slash commands.
pub fn reject_control_prompt(prompt: &str) -> (r: Result<(), OrchError>)
    ensures
        judged(r, control_prompt_fault(prompt@)),
{
    let v: Vec<char> = to_chars(prompt);
    let i: usize = skip_white(&v, 0, v.len());
    proof {
        assert(v@.subrange(0, v@.len() as int) =~= prompt@);
    }
    if i >= v.len() {
        return Err(invalid("control prompt cannot be empty"));
    }
    if v[i] == '!' {
        return Err(forbidden("shell-style ! prompts are not allowed via control plane"));
    }
    if v[i] == '/' {
        return Err(
            forbidden("slash commands are not allowed via the orchestration control plane"),
        );
    }
    Ok(())
}

/// The beginning of a prompt, cut between characters at 120 bytes.
pub fn prompt_preview(prompt: &str) -> (p: String)
    ensures
        p@ == fitted(trimmed(prompt@), 120),
{
    let t: String = trim(prompt);
    truncate_at_char_boundary(t.as_str(), 120)
}

/// The words of a text: its runs of characters that are not white space.
pub open spec fn words(s: Seq<char>) -> Seq<Seq<char>>
    decreases s.len(),
{
    if s.len() == 0 {
        Seq::empty()
    } else {
        let before = words(s.drop_last());
        if is_white(s.last()) {
            before
        } else if s.len() == 1 || is_white(s[s.len() - 2]) {
            before.push(seq![s.last()])
        } else {
            before.drop_last().push(before.last().push(s.last()))
        }
    }
}

/// The words of a string.
pub fn split_words(s: &str) -> (r: Vec<String>)
    ensures
        texts(r@) == words(s@),
{
    let v: Vec<char> = to_chars(s);
    let mut list: Vec<String> = Vec::new();
    let mut word: String = String::new();
    let mut inside: bool = false;
    let mut i: usize = 0;
    proof {
        assert(texts(list@) =~= words(s@.take(0)));
    }
    while i < v.len()
        invariant
            v@ == s@,
            i <= v@.len(),
            inside == (i > 0 && !is_white(s@[i - 1])),
            inside ==> words(s@.take(i as int)) == texts(list@).push(word@),
            !inside ==> words(s@.take(i as int)) == texts(list@) && word@.len() == 0,
        decreases v.len() - i,
    {
        let c: char = v[i];
        proof {
            assert(s@.take(i as int + 1).drop_last() =~= s@.take(i as int));
            if i > 0 {
                assert(s@.take(i as int + 1)[i - 1] == s@[i - 1]);
            }
        }
        if white(c) {
            if inside {
                let ghost before = texts(list@);
                let ghost w = word@;
                list.push(word);
                proof {
                    assert(texts(list@) =~= before.push(w));
                }
                word = String::new();
            }
            inside = false;
        } else {
            let ghost w = word@;
            word.push(c);
            proof {
                if inside {
                    let before = texts(list@).push(w);
                    assert(before.drop_last() =~= texts(list@));
                    assert(before.last() == w);
                } else {
                    assert(word@ =~= seq![c]);
                }
            }
            inside = true;
        }
        i = i + 1;
    }
    proof {
        assert(s@.take(s@.len() as int) =~= s@);
    }
    if inside {
        let ghost before = texts(list@);
        let ghost w = word@;
        list.push(word);
        proof {
            assert(texts(list@) =~= before.push(w));
        }
    }
    list
}

/// A word that sets a variable for the command after it.
pub open spec fn is_assignment(word: Seq<char>) -> bool {
    word.contains('=') && !has_prefix(word, "-"@)
}

/// The words of a command after its leading assignments.
pub open spec fn command_words(w: Seq<Seq<char>>) -> Seq<Seq<char>>
    decreases w.len(),
{
    if w.len() > 0 && is_assignment(w[0]) {
        command_words(w.drop_first())
    } else {
        w
    }
}

/// The second word of a command is `word`.
pub open spec fn second_is(w: Seq<Seq<char>>, word: Seq<char>) -> bool {
    w.len() > 1 && w[1] == word
}

/// A command that runs tests.
pub open spec fn runs_tests(w: Seq<Seq<char>>) -> bool {
    if w.len() == 0 {
        false
    } else if w[0] == "cargo"@ {
        second_is(w, "test"@) || second_is(w, "t"@)
    } else if w[0] == "npm"@ || w[0] == "pnpm"@ || w[0] == "yarn"@ || w[0] == "bun"@ {
        second_is(w, "test"@)
    } else if w[0] == "npx"@ {
        second_is(w, "vitest"@) || second_is(w, "jest"@) || second_is(w, "mocha"@)
    } else if w[0] == "pytest"@ || w[0] == "py.test"@ {
        true
    } else if w[0] == "go"@ {
        second_is(w, "test"@)
    } else if w[0] == "python"@ || w[0] == "python3"@ {
        w.len() > 1 && contains_text(w[1], "pytest"@)
    } else if w[0] == "make"@ {
        second_is(w, "test"@)
    } else {
        w[0] == "vitest"@ || w[0] == "jest"@
    }
}

fn next_is(w: &Vec<String>, i: usize, word: &str) -> (r: bool)
    requires
        i < w@.len(),
    ensures
        r == second_is(texts(w@).skip(i as int), word@),
{
    if i < w.len() - 1 {
        str_eq(w[i + 1].as_str(), word)
    } else {
        false
    }
}

/// Whether a command line runs a known test runner.
pub fn is_recognized_test_command(command: &str) -> (r: bool)
    ensures
        r == runs_tests(command_words(words(lower(trimmed(command@))))),
{
    let t: String = trim(command);
    let l: String = to_lower(t.as_str());
    let w: Vec<String> = split_words(l.as_str());
    let ghost all = texts(w@);
    let mut i: usize = 0;
    proof {
        assert(all.skip(0) =~= all);
    }
    while i < w.len() && str_has_char(w[i].as_str(), '=') && !str_starts_with(w[i].as_str(), "-")
        invariant
            all == texts(w@),
            i <= w@.len(),
            command_words(all) == command_words(all.skip(i as int)),
        decreases w.len() - i,
    {
        proof {
            assert(all.skip(i as int).drop_first() =~= all.skip(i as int + 1));
        }
        i = i + 1;
    }
    if i >= w.len() {
        return false;
    }
    let ghost rest = all.skip(i as int);
    proof {
        assert(command_words(all) == rest);
        assert(rest[0] == w@[i as int]@);
    }
    let first: &str = w[i].as_str();
    if str_eq(first, "cargo") {
        next_is(&w, i, "test") || next_is(&w, i, "t")
    } else if str_eq(first, "npm") || str_eq(first, "pnpm") || str_eq(first, "yarn") || str_eq(
        first,
        "bun",
    ) {
        next_is(&w, i, "test")
    } else if str_eq(first, "npx") {
        next_is(&w, i, "vitest") || next_is(&w, i, "jest") || next_is(&w, i, "mocha")
    } else if str_eq(first, "pytest") || str_eq(first, "py.test") {
        true
    } else if str_eq(first, "go") {
        next_is(&w, i, "test")
    } else if str_eq(first, "python") || str_eq(first, "python3") {
        if i + 1 < w.len() {
            str_contains(w[i + 1].as_str(), "pytest")
        } else {
            false
        }
    } else if str_eq(first, "make") {
        next_is(&w, i, "test")
    } else {
        str_eq(first, "vitest") || str_eq(first, "jest")
    }
}

/// A prompt is refused exactly where nothing but white space is in it, or where
/// it begins, behind white space, with a mark that would make it a command.
pub proof fn commands_are_no_prompts(prompt: Seq<char>, k: int, r: Result<(), OrchError>)
    requires
        judged(r, control_prompt_fault(prompt)),
        0 <= k <= prompt.len(),
        forall|i: int| 0 <= i < k ==> is_white(#[trigger] prompt[i]),
        k < prompt.len() ==> !is_white(prompt[k]),
    ensures
        r is Ok <==> k < prompt.len() && prompt[k] != '!' && prompt[k] != '/',
{
    text_begins_behind_white_space(prompt, k);
}

/// White space behind a text adds no word, and a run of other characters behind
/// white space, or at the start, adds one.
pub proof fn words_stand_between_white_space(s: Seq<char>, w: Seq<char>, c: char)
    requires
        is_white(c),
        w.len() > 0,
        forall|i: int| 0 <= i < w.len() ==> !is_white(#[trigger] w[i]),
        s.len() == 0 || is_white(s.last()),
    ensures
        words(s.push(c)) == words(s),
        words(s + w) == words(s).push(w),
    decreases w.len(),
{
    assert(s.push(c).drop_last() =~= s);
    let t = s + w;
    let v = w.drop_last();
    assert(t.drop_last() =~= s + v);
    assert(t.last() == w.last());
    assert(!is_white(w[w.len() - 1]));
    if v.len() == 0 {
        assert(s + v =~= s);
        assert(w =~= seq![w.last()]);
        if s.len() > 0 {
            assert(t[t.len() - 2] == s.last());
        }
    } else {
        assert forall|i: int| 0 <= i < v.len() implies !is_white(#[trigger] v[i]) by {
            assert(v[i] == w[i]);
        }
        words_stand_between_white_space(s, v, c);
        assert(t[t.len() - 2] == v.last());
        assert(v.last() == w[v.len() - 1]);
        assert(words(s).push(v).drop_last() =~= words(s));
        assert(v.push(w.last()) =~= w);
    }
}

/// Settings in front of a command do not change what it is taken for, and only
/// the first two words of it count.
pub proof fn settings_do_not_make_a_test(w: Seq<Seq<char>>)
    ensures
        w.len() > 0 && w[0].contains('=') && !has_prefix(w[0], "-"@) ==> command_words(w)
            == command_words(w.drop_first()),
        w.len() > 0 && !w[0].contains('=') ==> command_words(w) == w,
        w.len() >= 2 ==> runs_tests(w) == runs_tests(w.take(2)),
        w.len() == 0 ==> !runs_tests(w),
{
    if w.len() >= 2 {
        assert(w.take(2)[0] == w[0]);
        assert(w.take(2)[1] == w[1]);
    }
}

/// The commands that run tests, by their first words.
pub proof fn test_runners_are_known(w: Seq<Seq<char>>)
    ensures
        w.len() >= 2 && w[0] == "cargo"@ && (w[1] == "test"@ || w[1] == "t"@) ==> runs_tests(w),
        w.len() >= 2 && (w[0] == "npm"@ || w[0] == "pnpm"@ || w[0] == "yarn"@ || w[0] == "bun"@
            || w[0] == "go"@ || w[0] == "make"@) && w[1] == "test"@ ==> runs_tests(w),
        w.len() >= 2 && w[0] == "npx"@ && (w[1] == "vitest"@ || w[1] == "jest"@ || w[1]
            == "mocha"@) ==> runs_tests(w),
        w.len() >= 1 && (w[0] == "pytest"@ || w[0] == "py.test"@ || w[0] == "vitest"@ || w[0]
            == "jest"@) ==> runs_tests(w),
        w.len() >= 2 && (w[0] == "python"@ || w[0] == "python3"@) && contains_text(
            w[1],
            "pytest"@,
        ) ==> runs_tests(w),
        runs_tests(w) ==> {
            ||| w[0] == "cargo"@ && w.len() >= 2 && (w[1] == "test"@ || w[1] == "t"@)
            ||| (w[0] == "npm"@ || w[0] == "pnpm"@ || w[0] == "yarn"@ || w[0] == "bun"@ || w[0]
                == "go"@ || w[0] == "make"@) && w.len() >= 2 && w[1] == "test"@
            ||| w[0] == "npx"@ && w.len() >= 2 && (w[1] == "vitest"@ || w[1] == "jest"@ || w[1]
                == "mocha"@)
            ||| w[0] == "pytest"@ || w[0] == "py.test"@ || w[0] == "vitest"@ || w[0] == "jest"@
            ||| (w[0] == "python"@ || w[0] == "python3"@) && w.len() >= 2 && contains_text(
                w[1],
                "pytest"@,
            )
        },
{
    reveal_strlit("cargo");
    reveal_strlit("npm");
    reveal_strlit("pnpm");
    reveal_strlit("yarn");
    reveal_strlit("bun");
    reveal_strlit("go");
    reveal_strlit("make");
    reveal_strlit("npx");
    reveal_strlit("pytest");
    reveal_strlit("py.test");
    reveal_strlit("vitest");
    reveal_strlit("jest");
    reveal_strlit("python");
    reveal_strlit("python3");
    assert("npm"@[2] != "npx"@[2]);
    assert("bun"@[0] != "npx"@[0]);
    assert("pnpm"@[0] != "make"@[0] && "yarn"@[0] != "make"@[0]);
    assert("pnpm"@[0] != "jest"@[0] && "yarn"@[0] != "jest"@[0] && "make"@[0] != "jest"@[0]);
    assert("pytest"@[3] != "python"@[3]);
    assert("py.test"@[2] != "python3"@[2]);
    assert("vitest"@[0] != "python"@[0] && "vitest"@[0] != "pytest"@[0]);
    if w.len() >= 2 && w[0] == "python"@ {
        assert(w[0].len() == 6 && w[0][0] == 'p' && w[0][3] == 'h');
    }
    if w.len() >= 2 && w[0] == "python3"@ {
        assert(w[0].len() == 7 && w[0][2] == 't');
    }
}

} // verus!
