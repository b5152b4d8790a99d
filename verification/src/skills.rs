//! Skills: which of them match a task, and what a model is told about them.

use crate::json::texts;
use crate::prompt::{split_words, words};
use crate::text::{
    byte_len, chars_to_string, contains_text, copy, join2, join5, lower, marked, str_contains,
    to_chars, to_lower, trim, trimmed, truncate_with_marker, utf8_len,
};
use vstd::prelude::*;
use vstd::string::*;

verus! {

/// The most that the list of skills may take, in bytes, and twice that.
pub const MAX_SKILLS_CATALOG_CHARS: usize = 12_000;

/// The most that one skill may take when it matches the task.
pub const MAX_MATCHED_SKILL_BODY: usize = 200_000;

/// How many skills that match are given in full.
pub const MAX_MATCHED_SKILLS: usize = 8;

/// The most that all skills that match may take.
pub const MAX_MATCHED_TOTAL: usize = 400_000;

/// A skill: the path of its file, its name, and what it is for.
#[derive(Debug)]
pub struct SkillInfo {
    pub id: String,
    pub name: String,
    pub description: String,
}

/// A letter or a digit of any script: `char::is_alphanumeric`.
pub uninterp spec fn alphanumeric(c: char) -> bool;

/// `char::is_alphanumeric` of the standard library.
#[verifier::external_body]
fn is_alphanumeric(c: char) -> (r: bool)
    ensures
        r == alphanumeric(c),
{
    c.is_alphanumeric()
}

/// A word without what stands around it.
pub open spec fn bare_word(w: Seq<char>) -> Seq<char>
    decreases w.len(),
{
    if w.len() > 0 && !alphanumeric(w[0]) {
        bare_word(w.drop_first())
    } else if w.len() > 0 && !alphanumeric(w.last()) {
        bare_word(w.drop_last())
    } else {
        w
    }
}

fn bare_word_of(w: &str) -> (r: String)
    ensures
        r@ == bare_word(w@),
{
    let v: Vec<char> = to_chars(w);
    let mut from: usize = 0;
    let mut to: usize = v.len();
    proof {
        assert(v@.subrange(0, v@.len() as int) =~= v@);
    }
    while from < to && !is_alphanumeric(v[from])
        invariant
            from <= to <= v@.len(),
            bare_word(v@.subrange(from as int, to as int)) == bare_word(v@),
        decreases to - from,
    {
        proof {
            assert(v@.subrange(from as int, to as int).drop_first() =~= v@.subrange(
                from as int + 1,
                to as int,
            ));
        }
        from = from + 1;
    }
    while from < to && !is_alphanumeric(v[to - 1])
        invariant
            from <= to <= v@.len(),
            from == to || alphanumeric(v@[from as int]),
            bare_word(v@.subrange(from as int, to as int)) == bare_word(v@),
        decreases to - from,
    {
        proof {
            let s = v@.subrange(from as int, to as int);
            assert(s[0] == v@[from as int]);
            assert(s.drop_last() =~= v@.subrange(from as int, to as int - 1));
        }
        to = to - 1;
    }
    proof {
        let s = v@.subrange(from as int, to as int);
        if s.len() > 0 {
            assert(s[0] == v@[from as int]);
            assert(s.last() == v@[to - 1]);
        }
    }
    chars_to_string(&v, from, to)
}

/// A character between the parts of a name.
pub open spec fn is_joint(c: char) -> bool {
    c == '-' || c == '_' || c == ' '
}

/// `s[i..j]` is one part of a name.
pub open spec fn is_part(s: Seq<char>, i: int, j: int) -> bool {
    &&& 0 <= i <= j <= s.len()
    &&& i == 0 || is_joint(s[i - 1])
    &&& j == s.len() || is_joint(s[j])
    &&& forall|k: int| i <= k < j ==> !is_joint(#[trigger] s[k])
}

/// Some part of a name that is not too short stands in the task.
pub open spec fn names_part(name: Seq<char>, task: Seq<char>) -> bool {
    exists|i: int, j: int| #[trigger]
        is_part(name, i, j) && utf8_len(name.subrange(i, j)) > 2 && contains_text(
            task,
            name.subrange(i, j),
        )
}

/// Some word of a description that is not too short stands in the task.
pub open spec fn describes(description: Seq<char>, task: Seq<char>) -> bool {
    exists|i: int|
        0 <= i < words(description).len() && utf8_len(bare_word(#[trigger] words(description)[i])) >= 5
            && contains_text(task, bare_word(words(description)[i]))
}

/// A skill matches a task, given in lower case.
pub open spec fn is_match(skill: SkillInfo, task: Seq<char>) -> bool {
    &&& task.len() > 0
    &&& {
        ||| contains_text(task, lower(skill.name@))
        ||| names_part(lower(skill.name@), task)
        ||| describes(lower(skill.description@), task)
    }
}

fn part_matches(name: &str, task: &str) -> (r: bool)
    ensures
        r == names_part(name@, task@),
{
    let v: Vec<char> = to_chars(name);
    let n: usize = v.len();
    let mut i: usize = 0;
    loop
        invariant
            i <= n,
            n == v@.len(),
            v@ == name@,
            forall|a: int, b: int|
                a < i && #[trigger] is_part(name@, a, b) ==> !(utf8_len(name@.subrange(a, b)) > 2
                    && contains_text(task@, name@.subrange(a, b))),
        ensures
            !names_part(name@, task@),
        decreases n - i,
    {
        if i == 0 || v[i - 1] == '-' || v[i - 1] == '_' || v[i - 1] == ' ' {
            let mut j: usize = i;
            while j < n && v[j] != '-' && v[j] != '_' && v[j] != ' '
                invariant
                    i <= j <= n,
                    n == v@.len(),
                    forall|k: int| i <= k < j ==> !is_joint(#[trigger] v@[k]),
                decreases n - j,
            {
                j = j + 1;
            }
            let part: String = chars_to_string(&v, i, j);
            proof {
                assert(is_part(name@, i as int, j as int));
                assert forall|b: int| #[trigger] is_part(name@, i as int, b) implies b == j by {
                    if b < j {
                        assert(!is_joint(v@[b]));
                    } else if b > j {
                        assert(is_joint(name@[j as int]));
                    }
                }
            }
            if byte_len(part.as_str()) > 2 && str_contains(task, part.as_str()) {
                return true;
            }
        }
        if i == n {
            break;
        }
        i = i + 1;
    }
    false
}

/// Whether a skill matches a task, given in lower case: the task names it or a
/// part of its name, or holds a word of its description.
pub fn skill_matches_task(skill: &SkillInfo, task_lower: &str) -> (r: bool)
    ensures
        r == is_match(*skill, task_lower@),
{
    if task_lower.is_empty() {
        return false;
    }
    let name: String = to_lower(skill.name.as_str());
    let description: String = to_lower(skill.description.as_str());
    if str_contains(task_lower, name.as_str()) || part_matches(name.as_str(), task_lower) {
        return true;
    }
    let list: Vec<String> = split_words(description.as_str());
    let mut i: usize = 0;
    while i < list.len()
        invariant
            i <= list@.len(),
            texts(list@) == words(description@),
            description@ == lower(skill.description@),
            task_lower@.len() > 0,
            forall|j: int|
                0 <= j < i ==> !(utf8_len(bare_word(#[trigger] words(description@)[j])) >= 5
                    && contains_text(task_lower@, bare_word(words(description@)[j]))),
        decreases list.len() - i,
    {
        let w: String = bare_word_of(list[i].as_str());
        proof {
            assert(words(description@)[i as int] == list@[i as int]@);
        }
        if byte_len(w.as_str()) >= 5 && str_contains(task_lower, w.as_str()) {
            return true;
        }
        i = i + 1;
    }
    false
}

/// The positions below `n` of the skills that match, or that do not.
pub open spec fn sorted_out(
    skills: Seq<SkillInfo>,
    task: Seq<char>,
    matching: bool,
    n: int,
) -> Seq<usize>
    decreases n,
{
    if n <= 0 {
        Seq::empty()
    } else {
        let before = sorted_out(skills, task, matching, n - 1);
        if is_match(skills[n - 1], task) == matching {
            before.push((n - 1) as usize)
        } else {
            before
        }
    }
}

/// The first `most` of a list.
pub open spec fn front(list: Seq<usize>, most: int) -> Seq<usize> {
    if list.len() > most {
        list.take(most)
    } else {
        list
    }
}

/// Which skills are given in full and which only begun.
#[derive(Debug)]
pub struct SkillChoice {
    pub full: Vec<usize>,
    pub preview: Vec<usize>,
}

/// The task in lower case; no task is an empty one.
pub open spec fn task_text(task: Option<&str>) -> Seq<char> {
    match task {
        Some(t) => lower(t@),
        None => Seq::empty(),
    }
}

/// Which skills are told in full and which in part.
pub open spec fn choosing(
    skills: Seq<SkillInfo>,
    task: Seq<char>,
    c: SkillChoice,
) -> bool {
    &&& c.full@ == front(
        sorted_out(skills, task, true, skills.len() as int),
        MAX_MATCHED_SKILLS as int,
    )
    &&& c.preview@ == front(
        sorted_out(skills, task, false, skills.len() as int),
        4,
    )
}

/// Chooses skills for a task: those that match are given in full, and of the
/// others a few are begun.
pub fn choose_skills(skills: &Vec<SkillInfo>, task: Option<&str>) -> (c: SkillChoice)
    ensures
        choosing(
            skills@,
            task_text(task),
            c,
        ),
{
    let wanted: String = match task {
        Some(t) => to_lower(t),
        None => String::new(),
    };
    proof {
        assert(wanted@ =~= task_text(task));
    }
    let mut full: Vec<usize> = Vec::new();
    let mut preview: Vec<usize> = Vec::new();
    let mut i: usize = 0;
    while i < skills.len()
        invariant
            i <= skills@.len(),
            full@ == sorted_out(skills@, wanted@, true, i as int),
            preview@ == sorted_out(skills@, wanted@, false, i as int),
        decreases skills.len() - i,
    {
        if skill_matches_task(&skills[i], wanted.as_str()) {
            full.push(i);
        } else {
            preview.push(i);
        }
        i = i + 1;
    }
    if full.len() > MAX_MATCHED_SKILLS {
        full.truncate(MAX_MATCHED_SKILLS);
    }
    if preview.len() > 4 {
        preview.truncate(4);
    }
    SkillChoice { full, preview }
}

/// The line of a skill in the list.
pub open spec fn catalog_line(skill: SkillInfo) -> Seq<char> {
    "- **"@ + skill.name@ + "**: "@ + skill.description@ + "\n"@
}

/// `out` with the lines of the skills from `i` on, as long as they fit.
pub open spec fn catalog(out: Seq<char>, skills: Seq<SkillInfo>, i: int) -> Seq<char>
    decreases skills.len() - i,
{
    if i >= skills.len() || utf8_len(out) + utf8_len(catalog_line(skills[i]))
        > MAX_SKILLS_CATALOG_CHARS / 2 {
        out
    } else {
        catalog(out + catalog_line(skills[i]), skills, i + 1)
    }
}

/// How a skill is told: in full or only begun.
pub open spec fn told(skill: SkillInfo, body: Seq<char>, full: bool) -> Seq<char> {
    if full {
        "### Skill: "@ + skill.name@ + " (matched — full body)\n"@ + marked(
            body,
            MAX_MATCHED_SKILL_BODY as nat,
            "…\n(truncated)"@,
        ) + "\n\n"@
    } else {
        "### Skill: "@ + skill.name@ + " (preview)\n"@ + marked(
            body,
            400,
            "…\n(preview; open skill file for full text)"@,
        ) + "\n\n"@
    }
}

/// `out` with the skills at the places from `i` on, until as much as `most` was
/// told. A skill that is blank or cannot be read is passed over.
pub open spec fn tell(
    out: Seq<char>,
    used: nat,
    skills: Seq<SkillInfo>,
    at: Seq<usize>,
    bodies: Seq<Option<String>>,
    full: bool,
    most: nat,
    i: int,
) -> Seq<char>
    decreases at.len() - i,
{
    if i >= at.len() || used >= most {
        out
    } else if bodies[i] is None || trimmed(bodies[i]->0@).len() == 0 {
        tell(out, used, skills, at, bodies, full, most, i + 1)
    } else {
        let block = told(skills[at[i] as int], trimmed(bodies[i]->0@), full);
        tell(out + block, used + utf8_len(block), skills, at, bodies, full, most, i + 1)
    }
}

/// What a model is told about skills.
pub open spec fn context(
    skills: Seq<SkillInfo>,
    choice: SkillChoice,
    full_bodies: Seq<Option<String>>,
    preview_bodies: Seq<Option<String>>,
) -> Seq<char> {
    if skills.len() == 0 {
        Seq::empty()
    } else {
        let list = catalog(
            "Skills available for this session (follow a skill body when the user task matches):\n\n"@,
            skills,
            0,
        ) + "\n"@;
        let some = tell(
            list,
            0,
            skills,
            choice.full@,
            full_bodies,
            true,
            MAX_MATCHED_TOTAL as nat,
            0,
        );
        tell(
            some,
            0,
            skills,
            choice.preview@,
            preview_bodies,
            false,
            MAX_SKILLS_CATALOG_CHARS as nat,
            0,
        )
    }
}

fn write_told(skill: &SkillInfo, body: &str, full: bool) -> (r: String)
    ensures
        r@ == told(*skill, body@, full),
{
    if full {
        let text: String = truncate_with_marker(body, MAX_MATCHED_SKILL_BODY, "…\n(truncated)");
        join5(
            "### Skill: ",
            skill.name.as_str(),
            " (matched — full body)\n",
            text.as_str(),
            "\n\n",
        )
    } else {
        let text: String = truncate_with_marker(
            body,
            400,
            "…\n(preview; open skill file for full text)",
        );
        join5("### Skill: ", skill.name.as_str(), " (preview)\n", text.as_str(), "\n\n")
    }
}

fn write_all(
    start: String,
    skills: &Vec<SkillInfo>,
    at: &Vec<usize>,
    bodies: &Vec<Option<String>>,
    full: bool,
    most: usize,
) -> (r: String)
    requires
        bodies@.len() == at@.len(),
        forall|i: int| 0 <= i < at@.len() ==> (#[trigger] at@[i]) < skills@.len(),
    ensures
        r@ == tell(start@, 0, skills@, at@, bodies@, full, most as nat, 0),
{
    let ghost want = tell(start@, 0, skills@, at@, bodies@, full, most as nat, 0);
    let mut out: String = start;
    let mut used: usize = 0;
    let ghost mut told_bytes: nat = 0;
    let mut i: usize = 0;
    while i < at.len() && used < most
        invariant
            i <= at@.len(),
            bodies@.len() == at@.len(),
            forall|i: int| 0 <= i < at@.len() ==> (#[trigger] at@[i]) < skills@.len(),
            used == if told_bytes > usize::MAX {
                usize::MAX as nat
            } else {
                told_bytes
            },
            want == tell(
                out@,
                told_bytes,
                skills@,
                at@,
                bodies@,
                full,
                most as nat,
                i as int,
            ),
        decreases at.len() - i,
    {
        match &bodies[i] {
            Some(raw) => {
                let body: String = trim(raw.as_str());
                if !body.as_str().is_empty() {
                    let block: String = write_told(&skills[at[i]], body.as_str(), full);
                    used = used.saturating_add(byte_len(block.as_str()));
                    out = join2(out.as_str(), block.as_str());
                    proof {
                        told_bytes = told_bytes + utf8_len(block@);
                    }
                }
            },
            None => {},
        }
        i = i + 1;
    }
    out
}

/// Tells a model about skills. `full_bodies` and `preview_bodies` are what the
/// files of the chosen skills hold.
pub fn load_skills_context_for_task(
    skills: &Vec<SkillInfo>,
    choice: &SkillChoice,
    full_bodies: &Vec<Option<String>>,
    preview_bodies: &Vec<Option<String>>,
) -> (r: String)
    requires
        full_bodies@.len() == choice.full@.len(),
        preview_bodies@.len() == choice.preview@.len(),
        forall|i: int| 0 <= i < choice.full@.len() ==> (#[trigger] choice.full@[i]) < skills@.len(),
        forall|i: int|
            0 <= i < choice.preview@.len() ==> (#[trigger] choice.preview@[i]) < skills@.len(),
    ensures
        r@ == context(skills@, *choice, full_bodies@, preview_bodies@),
{
    if skills.len() == 0 {
        let none: String = String::new();
        proof {
            assert(none@ =~= Seq::<char>::empty());
        }
        return none;
    }
    let mut out: String = copy(
        "Skills available for this session (follow a skill body when the user task matches):\n\n",
    );
    let ghost head = out@;
    let mut i: usize = 0;
    loop
        invariant
            i <= skills@.len(),
            catalog(out@, skills@, i as int) == catalog(head, skills@, 0),
        ensures
            out@ == catalog(head, skills@, 0),
        decreases skills.len() - i,
    {
        if i == skills.len() {
            break;
        }
        let line: String = join5(
            "- **",
            skills[i].name.as_str(),
            "**: ",
            skills[i].description.as_str(),
            "\n",
        );
        let half: usize = MAX_SKILLS_CATALOG_CHARS / 2;
        let size: usize = byte_len(line.as_str());
        if size > half || byte_len(out.as_str()) > half - size {
            break;
        }
        out = join2(out.as_str(), line.as_str());
        i = i + 1;
    }
    let list: String = join2(out.as_str(), "\n");
    let some: String = write_all(
        list,
        skills,
        &choice.full,
        full_bodies,
        true,
        MAX_MATCHED_TOTAL,
    );
    write_all(
        some,
        skills,
        &choice.preview,
        preview_bodies,
        false,
        MAX_SKILLS_CATALOG_CHARS,
    )
}

/// Without a task no skill is given in full.
pub fn load_skills_context(skills: &Vec<SkillInfo>, preview_bodies: &Vec<Option<String>>) -> (r:
    String)
    requires
        preview_bodies@.len() == if skills@.len() > 4 {
            4
        } else {
            skills@.len()
        },
    ensures
        exists|choice: SkillChoice| #[trigger]
            is_blind_choice(choice, skills@) && r@ == context(
                skills@,
                choice,
                Seq::empty(),
                preview_bodies@,
            ),
{
    let choice: SkillChoice = choose_skills(skills, None);
    let count: usize = skills.len();
    proof {
        no_task_no_match(skills@, count as int);
        assert(is_blind_choice(choice, skills@));
    }
    let none: Vec<Option<String>> = Vec::new();
    proof {
        assert(none@ =~= Seq::<Option<String>>::empty());
    }
    load_skills_context_for_task(skills, &choice, &none, preview_bodies)
}

/// The choice that is made without a task: the first few skills are begun.
pub open spec fn is_blind_choice(choice: SkillChoice, skills: Seq<SkillInfo>) -> bool {
    &&& choice.full@.len() == 0
    &&& choice.preview@.len() == if skills.len() > 4 {
        4
    } else {
        skills.len()
    }
    &&& forall|i: int| 0 <= i < choice.preview@.len() ==> #[trigger] choice.preview@[i] == i
}

proof fn no_task_no_match(skills: Seq<SkillInfo>, n: int)
    requires
        0 <= n <= skills.len() <= usize::MAX,
    ensures
        sorted_out(skills, Seq::empty(), true, n).len() == 0,
        sorted_out(skills, Seq::empty(), false, n).len() == n,
        forall|i: int| 0 <= i < n ==> #[trigger] sorted_out(skills, Seq::empty(), false, n)[i] == i,
    decreases n,
{
    if n > 0 {
        no_task_no_match(skills, n - 1);
        assert forall|i: int| 0 <= i < n implies #[trigger] sorted_out(
            skills,
            Seq::empty(),
            false,
            n,
        )[i] == i by {
            if i < n - 1 {
                assert(sorted_out(skills, Seq::empty(), false, n - 1)[i] == i);
            }
        }
    }
}

/// A skill that matches the task and is not longer than its bound is told word
/// for word.
pub proof fn matched_skills_are_told_in_full(skill: SkillInfo, body: Seq<char>)
    requires
        utf8_len(body) <= MAX_MATCHED_SKILL_BODY,
    ensures
        told(skill, body, true) == "### Skill: "@ + skill.name@ + " (matched — full body)\n"@ + body
            + "\n\n"@,
{
}

proof fn sorted_out_by_match(skills: Seq<SkillInfo>, task: Seq<char>, matching: bool, n: int)
    requires
        0 <= n <= skills.len(),
        n <= usize::MAX,
    ensures
        forall|k: int|
            0 <= k < sorted_out(skills, task, matching, n).len() ==> (
            #[trigger] sorted_out(skills, task, matching, n)[k]) < n && is_match(
                skills[sorted_out(skills, task, matching, n)[k] as int],
                task,
            ) == matching,
        forall|j: int, k: int|
            0 <= j < k < sorted_out(skills, task, matching, n).len() ==> (
            #[trigger] sorted_out(skills, task, matching, n)[j]) < (
            #[trigger] sorted_out(skills, task, matching, n)[k]),
        forall|i: int|
            0 <= i < n && is_match(#[trigger] skills[i], task) == matching ==> sorted_out(
                skills,
                task,
                matching,
                n,
            ).contains(i as usize),
    decreases n,
{
    if n > 0 {
        sorted_out_by_match(skills, task, matching, n - 1);
        let p = sorted_out(skills, task, matching, n - 1);
        let q = sorted_out(skills, task, matching, n);
        assert forall|i: int|
            0 <= i < n && is_match(#[trigger] skills[i], task) == matching implies q.contains(
            i as usize,
        ) by {
            if i < n - 1 {
                let k = choose|k: int| 0 <= k < p.len() && p[k] == i as usize;
                assert(q[k] == i as usize);
            } else {
                assert(q[p.len() as int] == i as usize);
            }
        }
    }
}

/// The skills told in full match the task, and those told in part do not; both
/// in the order they are on record, no more than eight and four. Where fewer
/// are told, none is missing. Without a task none is told in full.
pub proof fn matching_skills_are_told(skills: Seq<SkillInfo>, task: Seq<char>, c: SkillChoice)
    requires
        choosing(skills, task, c),
        skills.len() <= usize::MAX,
    ensures
        c.full@.len() <= 8,
        c.preview@.len() <= 4,
        task.len() == 0 ==> c.full@.len() == 0,
        forall|k: int|
            0 <= k < c.full@.len() ==> (#[trigger] c.full@[k]) < skills.len() && is_match(
                skills[c.full@[k] as int],
                task,
            ),
        forall|k: int|
            0 <= k < c.preview@.len() ==> (#[trigger] c.preview@[k]) < skills.len() && !is_match(
                skills[c.preview@[k] as int],
                task,
            ),
        forall|j: int, k: int|
            0 <= j < k < c.full@.len() ==> (#[trigger] c.full@[j]) < (#[trigger] c.full@[k]),
        forall|j: int, k: int|
            0 <= j < k < c.preview@.len() ==> (#[trigger] c.preview@[j]) < (
            #[trigger] c.preview@[k]),
        c.full@.len() < 8 ==> forall|i: int|
            0 <= i < skills.len() && is_match(#[trigger] skills[i], task) ==> c.full@.contains(
                i as usize,
            ),
        c.preview@.len() < 4 ==> forall|i: int|
            0 <= i < skills.len() && !is_match(#[trigger] skills[i], task) ==> c.preview@.contains(
                i as usize,
            ),
{
    let n = skills.len() as int;
    sorted_out_by_match(skills, task, true, n);
    sorted_out_by_match(skills, task, false, n);
    if task.len() == 0 && c.full@.len() > 0 {
        assert(is_match(skills[c.full@[0] as int], task));
    }
}

/// A skill matches a task that names it whole, or names a part of its name of
/// more than two bytes, or a word of its description of at least five. It
/// matches for no other reason.
pub proof fn skills_match_what_names_them(skill: SkillInfo, task: Seq<char>)
    ensures
        is_match(skill, task) <==> task.len() > 0 && {
            ||| contains_text(task, lower(skill.name@))
            ||| exists|i: int, j: int|
                {
                    &&& #[trigger] is_part(lower(skill.name@), i, j)
                    &&& utf8_len(lower(skill.name@).subrange(i, j)) >= 3
                    &&& contains_text(task, lower(skill.name@).subrange(i, j))
                }
            ||| exists|i: int|
                {
                    &&& 0 <= i < words(lower(skill.description@)).len()
                    &&& utf8_len(bare_word(#[trigger] words(lower(skill.description@))[i])) >= 5
                    &&& contains_text(task, bare_word(words(lower(skill.description@))[i]))
                }
        },
{
}

/// The parts of a name stand between dashes, underscores, blanks and its ends.
pub proof fn parts_stand_between_joints(s: Seq<char>, i: int, j: int)
    requires
        is_part(s, i, j),
    ensures
        0 <= i <= j <= s.len(),
        i > 0 ==> s[i - 1] == '-' || s[i - 1] == '_' || s[i - 1] == ' ',
        j < s.len() ==> s[j] == '-' || s[j] == '_' || s[j] == ' ',
        forall|k: int| i <= k < j ==> #[trigger] s[k] != '-' && s[k] != '_' && s[k] != ' ',
{
}

/// What is left of a word from `a` to `b` begins and ends with a letter or
/// digit, and there is none outside.
pub open spec fn is_core(w: Seq<char>, a: int, b: int) -> bool {
    &&& 0 <= a <= b <= w.len()
    &&& a < b ==> alphanumeric(w[a]) && alphanumeric(w[b - 1])
    &&& forall|i: int| 0 <= i < a ==> !alphanumeric(#[trigger] w[i])
    &&& forall|i: int| b <= i < w.len() ==> !alphanumeric(#[trigger] w[i])
}

proof fn core_of(w: Seq<char>) -> (r: (int, int))
    ensures
        is_core(w, r.0, r.1),
        bare_word(w) == w.subrange(r.0, r.1),
    decreases w.len(),
{
    if w.len() > 0 && !alphanumeric(w[0]) {
        let t = w.drop_first();
        let (a, b) = core_of(t);
        assert(w.subrange(a + 1, b + 1) =~= t.subrange(a, b));
        assert forall|i: int| 0 <= i < a + 1 implies !alphanumeric(#[trigger] w[i]) by {
            if i > 0 {
                assert(t[i - 1] == w[i]);
            }
        }
        assert forall|i: int| b + 1 <= i < w.len() implies !alphanumeric(#[trigger] w[i]) by {
            assert(t[i - 1] == w[i]);
        }
        (a + 1, b + 1)
    } else if w.len() > 0 && !alphanumeric(w.last()) {
        let t = w.drop_last();
        let (a, b) = core_of(t);
        assert(w.subrange(a, b) =~= t.subrange(a, b));
        assert forall|i: int| 0 <= i < a implies !alphanumeric(#[trigger] w[i]) by {
            assert(t[i] == w[i]);
        }
        assert forall|i: int| b <= i < w.len() implies !alphanumeric(#[trigger] w[i]) by {
            if i < t.len() {
                assert(t[i] == w[i]);
            }
        }
        (a, b)
    } else {
        assert(w.subrange(0, w.len() as int) =~= w);
        (0, w.len() as int)
    }
}

/// A bare word is a word without the marks at its ends.
pub proof fn bare_words_begin_and_end_well(w: Seq<char>)
    ensures
        exists|a: int, b: int| #[trigger] is_core(w, a, b) && bare_word(w) == w.subrange(a, b),
{
    let (a, b) = core_of(w);
    assert(is_core(w, a, b));
}

} // verus!
