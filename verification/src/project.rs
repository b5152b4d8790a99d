//! What a model is told about the project it works on: instructions, skills and
//! the state of the working tree.

use crate::json::texts;
use crate::text::{
    byte_len, chars_to_string, copy, has_prefix, join2, join3, join4, lower, marked,
    marked_is_short, parted,
    parted_where_contained, split_once, str_eq, to_chars, to_lower, trim, trimmed,
    truncate_with_marker, utf8_len,
};
use vstd::prelude::*;
use vstd::string::*;
use vstd::utf8::encode_utf8;

verus! {

/// The most that instructions may take, in bytes.
pub const MAX_TOTAL_CHARS: usize = 24_000;

/// The most that one file of instructions may take, in bytes.
pub const MAX_FILE_CHARS: usize = 12_000;

/// The file of instructions for every assistant.
pub const COMMON_FILE: &'static str = "AGENTS.md";

/// Further files that are looked for, in this order, without their ending.
pub const ROOT_STEMS: [&'static str; 6] = [
    "AGENT",
    ".grok/rules",
    ".grok/AGENTS",
    ".grokptah/rules",
    "docs/AGENTS",
    "docs/ARCHITECTURE",
];

/// The files that are looked for first, in this order: the common one, those
/// that the host names for particular assistants, and the further ones.
pub open spec fn root_names(own: Seq<String>) -> Seq<Seq<char>> {
    seq![COMMON_FILE@] + texts(own) + Seq::new(
        ROOT_STEMS@.len(),
        |i: int| ROOT_STEMS@[i]@ + ".md"@,
    )
}

/// The files that are looked for first. `own` are the names that the host gives
/// for particular assistants.
pub fn root_files(own: &[String]) -> (files: Vec<String>)
    ensures
        texts(files@) == root_names(own@),
{
    let mut files: Vec<String> = Vec::new();
    files.push(copy(COMMON_FILE));
    let mut i: usize = 0;
    while i < own.len()
        invariant
            i <= own@.len(),
            texts(files@) == seq![COMMON_FILE@] + texts(own@).take(i as int),
        decreases own.len() - i,
    {
        let ghost before = files@;
        files.push(copy(own[i].as_str()));
        proof {
            assert(texts(files@) =~= texts(before).push(own@[i as int]@));
        }
        i = i + 1;
        proof {
            assert(texts(files@) =~= seq![COMMON_FILE@] + texts(own@).take(i as int));
        }
    }
    proof {
        assert(texts(own@).take(i as int) =~= texts(own@));
    }
    let stems: [&'static str; 6] = ROOT_STEMS;
    let ghost ended: Seq<Seq<char>> = Seq::new(6, |j: int| ROOT_STEMS@[j]@ + ".md"@);
    let mut k: usize = 0;
    while k < 6
        invariant
            k <= 6,
            stems@ == ROOT_STEMS@,
            stems@.len() == 6,
            ended == Seq::new(6, |j: int| ROOT_STEMS@[j]@ + ".md"@),
            texts(files@) == seq![COMMON_FILE@] + texts(own@) + ended.take(k as int),
        decreases 6 - k,
    {
        let ghost before = files@;
        files.push(join2(stems[k], ".md"));
        proof {
            assert(texts(files@) =~= texts(before).push(ended[k as int]));
        }
        k = k + 1;
        proof {
            assert(texts(files@) =~= seq![COMMON_FILE@] + texts(own@) + ended.take(k as int));
        }
    }
    proof {
        assert(ended.take(6) =~= ended);
    }
    files
}

/// A file that may hold instructions, with what it holds if it can be read.
#[derive(Debug)]
pub struct Candidate {
    pub rel: String,
    pub raw: Option<String>,
}

/// Instructions as they are gathered.
pub struct Book {
    pub parts: Seq<Seq<char>>,
    pub loaded: Seq<Seq<char>>,
    pub total: nat,
}

/// What is taken of a file: nothing of a blank one, and no more than `max`.
pub open spec fn capped(raw: Option<String>, max: nat) -> Option<Seq<char>> {
    match raw {
        None => None,
        Some(r) => if trimmed(r@).len() == 0 {
            None
        } else {
            Some(marked(r@, max, "\n… (truncated)"@))
        },
    }
}

/// The instructions with one more file, cut to the room that is left.
pub open spec fn with_file(book: Book, rel: Seq<char>, chunk: Seq<char>) -> Book {
    let text = marked(chunk, (MAX_TOTAL_CHARS - book.total) as nat, "…"@);
    Book {
        parts: book.parts.push("### "@ + rel + "\n"@ + text),
        loaded: book.loaded.push(rel),
        total: book.total + utf8_len(text),
    }
}

/// The instructions of the files that are looked for first.
pub open spec fn with_roots(files: Seq<Candidate>, n: int) -> Book
    decreases n,
{
    if n <= 0 {
        Book { parts: Seq::empty(), loaded: Seq::empty(), total: 0 }
    } else {
        let book = with_roots(files, n - 1);
        match capped(files[n - 1].raw, MAX_FILE_CHARS as nat) {
            Some(chunk) => if book.total < MAX_TOTAL_CHARS {
                with_file(book, files[n - 1].rel@, chunk)
            } else {
                book
            },
            None => book,
        }
    }
}

/// The instructions with further files, each of which is taken only once and
/// only while there is room for some of it.
pub open spec fn with_extras(start: Book, files: Seq<Candidate>, n: int) -> Book
    decreases n,
{
    if n <= 0 {
        start
    } else {
        let book = with_extras(start, files, n - 1);
        match capped(files[n - 1].raw, (MAX_FILE_CHARS / 2) as nat) {
            Some(chunk) => if book.total + 200 <= MAX_TOTAL_CHARS && !book.loaded.contains(
                files[n - 1].rel@,
            ) {
                with_file(book, files[n - 1].rel@, chunk)
            } else {
                book
            },
            None => book,
        }
    }
}

/// All instructions.
pub open spec fn gathered(roots: Seq<Candidate>, extras: Seq<Candidate>) -> Book {
    with_extras(with_roots(roots, roots.len() as int), extras, extras.len() as int)
}

/// The parts with blank lines between them.
pub open spec fn paragraphs(parts: Seq<Seq<char>>) -> Seq<char>
    decreases parts.len(),
{
    if parts.len() == 0 {
        Seq::empty()
    } else if parts.len() == 1 {
        parts[0]
    } else {
        paragraphs(parts.drop_last()) + "\n\n"@ + parts.last()
    }
}

fn read_capped(raw: &Option<String>, max: usize) -> (r: Option<String>)
    ensures
        match capped(*raw, max as nat) {
            Some(t) => r is Some && r->0@ == t,
            None => r is None,
        },
{
    match raw {
        None => None,
        Some(text) => {
            if trim(text.as_str()).as_str().is_empty() {
                return None;
            }
            Some(truncate_with_marker(text.as_str(), max, "\n… (truncated)"))
        },
    }
}

fn holds_text(list: &Vec<String>, text: &str) -> (r: bool)
    ensures
        r == texts(list@).contains(text@),
{
    let mut i: usize = 0;
    while i < list.len()
        invariant
            i <= list@.len(),
            forall|j: int| 0 <= j < i ==> (#[trigger] list@[j])@ != text@,
        decreases list.len() - i,
    {
        if str_eq(list[i].as_str(), text) {
            proof {
                assert(texts(list@)[i as int] == text@);
            }
            return true;
        }
        i = i + 1;
    }
    false
}

fn add_file(
    parts: &mut Vec<String>,
    loaded: &mut Vec<String>,
    total: usize,
    rel: &str,
    chunk: &str,
) -> (after: usize)
    requires
        total < MAX_TOTAL_CHARS,
    ensures
        ({
            let before = Book {
                parts: texts(old(parts)@),
                loaded: texts(old(loaded)@),
                total: total as nat,
            };
            let book = with_file(before, rel@, chunk@);
            &&& texts(final(parts)@) == book.parts
            &&& texts(final(loaded)@) == book.loaded
            &&& after == book.total
            &&& after <= MAX_TOTAL_CHARS + 4
        }),
{
    let room: usize = MAX_TOTAL_CHARS - total;
    let text: String = truncate_with_marker(chunk, room, "…");
    proof {
        reveal_strlit("…");
        marked_is_short(chunk@, room as nat, "…"@);
    }
    let size: usize = byte_len(text.as_str());
    let ghost old_parts = texts(parts@);
    let ghost old_loaded = texts(loaded@);
    let part: String = join4("### ", rel, "\n", text.as_str());
    let name: String = copy(rel);
    let ghost part_text = part@;
    parts.push(part);
    loaded.push(name);
    proof {
        assert(texts(parts@) =~= old_parts.push(part_text));
        assert(texts(loaded@) =~= old_loaded.push(rel@));
    }
    total + size
}

fn join_parts(parts: &Vec<String>) -> (r: String)
    requires
        parts@.len() > 0,
    ensures
        r@ == paragraphs(texts(parts@)),
{
    let mut out: String = parts[0].clone();
    let mut i: usize = 1;
    proof {
        assert(texts(parts@).take(1)[0] == out@);
    }
    while i < parts.len()
        invariant
            1 <= i <= parts@.len(),
            out@ == paragraphs(texts(parts@).take(i as int)),
        decreases parts.len() - i,
    {
        proof {
            assert(texts(parts@).take(i as int + 1).drop_last() =~= texts(parts@).take(i as int));
        }
        out = join3(out.as_str(), "\n\n", parts[i].as_str());
        i = i + 1;
    }
    proof {
        assert(texts(parts@).take(parts@.len() as int) =~= texts(parts@));
    }
    out
}

/// Puts the instructions of a project together, within their bounds, and says
/// which files they come from. `roots` are the files that are looked for first,
/// `extras` the other Markdown files of the project's own directories.
pub fn load_project_instructions(roots: &Vec<Candidate>, extras: &Vec<Candidate>) -> (r: (
    String,
    Vec<String>,
))
    ensures
        ({
            let book = gathered(roots@, extras@);
            &&& texts(r.1@) == book.loaded
            &&& r.0@ == if book.parts.len() == 0 {
                Seq::<char>::empty()
            } else {
                "Project instructions (from the working tree; follow these):\n\n"@ + paragraphs(
                    book.parts,
                )
            }
        }),
{
    let mut parts: Vec<String> = Vec::new();
    let mut loaded: Vec<String> = Vec::new();
    let mut total: usize = 0;
    let mut i: usize = 0;
    proof {
        assert(texts(parts@) =~= Seq::<Seq<char>>::empty());
        assert(texts(loaded@) =~= Seq::<Seq<char>>::empty());
    }
    while i < roots.len()
        invariant
            i <= roots@.len(),
            total <= MAX_TOTAL_CHARS + 4,
            with_roots(roots@, i as int) == (Book {
                parts: texts(parts@),
                loaded: texts(loaded@),
                total: total as nat,
            }),
        decreases roots.len() - i,
    {
        match read_capped(&roots[i].raw, MAX_FILE_CHARS) {
            Some(chunk) => {
                if total < MAX_TOTAL_CHARS {
                    total = add_file(
                        &mut parts,
                        &mut loaded,
                        total,
                        roots[i].rel.as_str(),
                        chunk.as_str(),
                    );
                }
            },
            None => {},
        }
        i = i + 1;
    }
    let ghost start = with_roots(roots@, roots@.len() as int);
    let mut k: usize = 0;
    while k < extras.len()
        invariant
            k <= extras@.len(),
            total <= MAX_TOTAL_CHARS + 4,
            with_extras(start, extras@, k as int) == (Book {
                parts: texts(parts@),
                loaded: texts(loaded@),
                total: total as nat,
            }),
        decreases extras.len() - k,
    {
        match read_capped(&extras[k].raw, MAX_FILE_CHARS / 2) {
            Some(chunk) => {
                if total + 200 <= MAX_TOTAL_CHARS && !holds_text(&loaded, extras[k].rel.as_str()) {
                    total = add_file(
                        &mut parts,
                        &mut loaded,
                        total,
                        extras[k].rel.as_str(),
                        chunk.as_str(),
                    );
                }
            },
            None => {},
        }
        k = k + 1;
    }
    if parts.len() == 0 {
        let none: String = String::new();
        proof {
            assert(texts(parts@).len() == 0);
            assert(none@ =~= Seq::<char>::empty());
        }
        return (none, loaded);
    }
    let body: String = join_parts(&parts);
    (
        join2(
            "Project instructions (from the working tree; follow these):\n\n",
            body.as_str(),
        ),
        loaded,
    )
}

/// Whether a file extension is that of Markdown.
pub fn is_markdown(extension: &str) -> (r: bool)
    ensures
        r == (lower(extension@) == "md"@),
{
    str_eq(to_lower(extension).as_str(), "md")
}

proof fn roots_are_bounded(files: Seq<Candidate>, n: int)
    ensures
        with_roots(files, n).total <= MAX_TOTAL_CHARS + 4,
    decreases n,
{
    reveal_strlit("…");
    if n > 0 {
        roots_are_bounded(files, n - 1);
        let book = with_roots(files, n - 1);
        match capped(files[n - 1].raw, MAX_FILE_CHARS as nat) {
            Some(chunk) => {
                if book.total < MAX_TOTAL_CHARS {
                    marked_is_short(chunk, (MAX_TOTAL_CHARS - book.total) as nat, "…"@);
                }
            },
            None => {},
        }
    }
}

/// Instructions stay within their bound, whatever the files hold: the texts
/// taken from files are never longer than it by more than a mark.
pub proof fn instructions_are_bounded(roots: Seq<Candidate>, extras: Seq<Candidate>, n: int)
    ensures
        with_extras(with_roots(roots, roots.len() as int), extras, n).total <= MAX_TOTAL_CHARS + 4,
    decreases n,
{
    reveal_strlit("…");
    let start = with_roots(roots, roots.len() as int);
    roots_are_bounded(roots, roots.len() as int);
    if n > 0 {
        instructions_are_bounded(roots, extras, n - 1);
        let book = with_extras(start, extras, n - 1);
        match capped(extras[n - 1].raw, (MAX_FILE_CHARS / 2) as nat) {
            Some(chunk) => {
                if book.total + 200 <= MAX_TOTAL_CHARS {
                    marked_is_short(chunk, (MAX_TOTAL_CHARS - book.total) as nat, "…"@);
                }
            },
            None => {},
        }
    }
}

/// What a command printed.
#[derive(Debug)]
pub enum CommandOutput {
    /// It could not be run.
    NotRun,
    /// It ran and reported a failure.
    Failed,
    Printed(String),
}

/// The lines of a text. A line ends with a line feed, which a carriage return
/// may precede.
pub open spec fn lines(s: Seq<char>) -> Seq<Seq<char>>
    decreases s.len(),
{
    match parted(s, "\n"@) {
        Some((a, b)) => {
            proof {
                reveal_strlit("\n");
                parted_where_contained(s, "\n"@);
                assert(s.len() == a.len() + 1 + b.len());
            }
            let line = if a.len() > 0 && a.last() == '\r' {
                a.drop_last()
            } else {
                a
            };
            seq![line] + lines(b)
        },
        None => if s.len() == 0 {
            Seq::empty()
        } else {
            seq![s]
        },
    }
}

fn split_lines(s: &str) -> (r: Vec<String>)
    ensures
        texts(r@) == lines(s@),
{
    let mut list: Vec<String> = Vec::new();
    let mut rest: String = copy(s);
    proof {
        assert(texts(list@) + lines(rest@) =~= lines(s@));
    }
    loop
        invariant
            texts(list@) + lines(rest@) == lines(s@),
        ensures
            texts(list@) == lines(s@),
        decreases rest@.len(),
    {
        let ghost before = texts(list@);
        match split_once(rest.as_str(), "\n") {
            Some((a, b)) => {
                proof {
                    reveal_strlit("\n");
                    parted_where_contained(rest@, "\n"@);
                    assert(rest@.len() == a@.len() + 1 + b@.len());
                }
                let v: Vec<char> = to_chars(a.as_str());
                let n: usize = v.len();
                let line: String = if n > 0 && v[n - 1] == '\r' {
                    proof {
                        assert(v@.subrange(0, n as int - 1) =~= a@.drop_last());
                    }
                    chars_to_string(&v, 0, n - 1)
                } else {
                    a
                };
                let ghost text = line@;
                list.push(line);
                proof {
                    assert(texts(list@) =~= before.push(text));
                    assert(texts(list@) + lines(b@) =~= before + (seq![text] + lines(b@)));
                }
                rest = b;
            },
            None => {
                if rest.as_str().is_empty() {
                    proof {
                        assert(before + lines(rest@) =~= before);
                    }
                    break;
                }
                let ghost text = rest@;
                list.push(rest);
                proof {
                    assert(texts(list@) =~= before + seq![text]);
                }
                return list;
            },
        }
    }
    list
}

/// The text after the first `n` bytes of `s`.
pub open spec fn after_bytes(s: Seq<char>, n: int) -> Seq<char>
    decreases s.len(),
{
    if n <= 0 || s.len() == 0 {
        s
    } else {
        after_bytes(s.drop_first(), n - utf8_len(seq![s[0]]))
    }
}

/// A character of `s` ends at byte `n`.
pub open spec fn cuts_at(s: Seq<char>, n: int) -> bool
    decreases s.len(),
{
    if n <= 0 || s.len() == 0 {
        n == 0
    } else {
        cuts_at(s.drop_first(), n - utf8_len(seq![s[0]]))
    }
}

/// The lines that are looked at.
pub open spec fn status_lines(text: Seq<char>) -> Seq<Seq<char>> {
    if lines(text).len() > 200 {
        lines(text).take(200)
    } else {
        lines(text)
    }
}

/// The state in the index, the state in the working tree, and the path.
pub open spec fn entry_of(line: Seq<char>) -> Option<(char, char, Seq<char>)> {
    if utf8_len(line) < 3 {
        None
    } else {
        Some(
            (
                encode_utf8(line)[0] as char,
                encode_utf8(line)[1] as char,
                trimmed(after_bytes(line, 3)),
            ),
        )
    }
}

/// A file that is not tracked.
pub open spec fn is_untracked(x: char, y: char) -> bool {
    x == '?' && y == '?'
}

/// Which part of the status a line belongs to.
#[derive(Debug, Clone, Copy, PartialEq, Eq, Structural)]
pub enum StatusPart {
    Staged,
    Unstaged,
    Untracked,
}

/// What a line adds to a part of the status.
pub open spec fn addition(line: Seq<char>, part: StatusPart) -> Option<Seq<char>> {
    match entry_of(line) {
        None => None,
        Some((x, y, path)) => match part {
            StatusPart::Untracked => if is_untracked(x, y) {
                Some(path)
            } else {
                None
            },
            StatusPart::Staged => if !is_untracked(x, y) && x != ' ' && x != '?' {
                Some(seq![x] + " "@ + path)
            } else {
                None
            },
            StatusPart::Unstaged => if !is_untracked(x, y) && y != ' ' && y != '?' {
                Some(seq![y] + " "@ + path)
            } else {
                None
            },
        },
    }
}

/// What the first `n` lines add to a part of the status.
pub open spec fn additions(all: Seq<Seq<char>>, part: StatusPart, n: int) -> Seq<Seq<char>>
    decreases n,
{
    if n <= 0 {
        Seq::empty()
    } else {
        let before = additions(all, part, n - 1);
        match addition(all[n - 1], part) {
            Some(t) => before.push(t),
            None => before,
        }
    }
}

/// The first `n` entries, one to a line.
pub open spec fn entries(list: Seq<Seq<char>>, n: int) -> Seq<char>
    decreases n,
{
    if n <= 0 {
        Seq::empty()
    } else {
        entries(list, n - 1) + ("  "@ + list[n - 1] + "\n"@)
    }
}

/// A part of the status under its title, at most 80 entries of it.
pub open spec fn section(title: Seq<char>, list: Seq<Seq<char>>) -> Seq<char> {
    if list.len() == 0 {
        Seq::empty()
    } else {
        title + entries(
            list,
            if list.len() > 80 {
                80
            } else {
                list.len() as int
            },
        )
    }
}

/// The text after `s` with every part of the status.
pub open spec fn with_sections(s: Seq<char>, text: Seq<char>) -> Seq<char> {
    let all = status_lines(text);
    let n = all.len() as int;
    s + section("Staged:\n"@, additions(all, StatusPart::Staged, n)) + section(
        "Unstaged:\n"@,
        additions(all, StatusPart::Unstaged, n),
    ) + section("Untracked:\n"@, additions(all, StatusPart::Untracked, n))
}

/// The line that names the branch.
pub open spec fn branch_line(branch: CommandOutput) -> Seq<char> {
    match branch {
        CommandOutput::NotRun => Seq::empty(),
        CommandOutput::Failed => "Branch: (unborn)\n"@,
        CommandOutput::Printed(b) => if trimmed(b@).len() == 0 {
            Seq::empty()
        } else {
            "Branch: "@ + trimmed(b@) + "\n"@
        },
    }
}

/// What is told about the working tree.
pub open spec fn status_text(
    inside: CommandOutput,
    branch: CommandOutput,
    status: CommandOutput,
) -> Seq<char> {
    if !(inside is Printed) || lower(trimmed(inside->Printed_0@)) != "true"@ {
        Seq::empty()
    } else {
        let head = "## Git status (startup)\n"@ + branch_line(branch);
        match status {
            CommandOutput::Printed(text) => if trimmed(text@).len() == 0 {
                head + "Working tree clean.\n"@
            } else {
                marked(with_sections(head, text@), 6000, "\n… (git status truncated)"@)
            },
            _ => head,
        }
    }
}

/// Every line that is looked at can be cut behind its two letters and a blank.
pub open spec fn is_porcelain(text: Seq<char>) -> bool {
    forall|i: int|
        0 <= i < status_lines(text).len() ==> utf8_len(#[trigger] status_lines(text)[i]) < 3
            || cuts_at(status_lines(text)[i], 3)
}

fn skip_bytes(line: &str, n: usize) -> (r: String)
    requires
        cuts_at(line@, n as int),
    ensures
        r@ == after_bytes(line@, n as int),
{
    let v: Vec<char> = to_chars(line);
    let m: usize = v.len();
    let mut left: usize = n;
    let mut i: usize = 0;
    proof {
        assert(v@.skip(0) =~= v@);
    }
    while left > 0 && i < m
        invariant
            i <= m,
            m == v@.len(),
            cuts_at(v@.skip(i as int), left as int),
            after_bytes(v@.skip(i as int), left as int) == after_bytes(v@, n as int),
        decreases m - i,
    {
        let one: String = chars_to_string(&v, i, i + 1);
        let width: usize = byte_len(one.as_str());
        proof {
            let rest = v@.skip(i as int);
            assert(one@ =~= seq![rest[0]]);
            assert(rest.drop_first() =~= v@.skip(i as int + 1));
            if width > left {
                cut_is_not_negative(rest.drop_first(), left - width);
            }
        }
        left = left - width;
        i = i + 1;
    }
    proof {
        assert(v@.subrange(i as int, m as int) =~= v@.skip(i as int));
    }
    chars_to_string(&v, i, m)
}

proof fn cut_is_not_negative(s: Seq<char>, n: int)
    requires
        cuts_at(s, n),
    ensures
        n >= 0,
{
}

fn read_entry(line: &str) -> (r: Option<(char, char, String)>)
    requires
        utf8_len(line@) < 3 || cuts_at(line@, 3),
    ensures
        match entry_of(line@) {
            None => r is None,
            Some((x, y, path)) => match r {
                Some((a, b, p)) => a == x && b == y && p@ == path,
                None => false,
            },
        },
{
    let bytes: &[u8] = line.as_bytes();
    if bytes.len() < 3 {
        return None;
    }
    let x: char = bytes[0] as char;
    let y: char = bytes[1] as char;
    let rest: String = skip_bytes(line, 3);
    Some((x, y, trim(rest.as_str())))
}

fn note(list: &mut Vec<String>, x: char, path: &str)
    ensures
        texts(final(list)@) == texts(old(list)@).push(seq![x] + " "@ + path@),
{
    let mut letter: String = String::new();
    letter.push(x);
    let entry: String = join3(letter.as_str(), " ", path);
    let ghost before = texts(list@);
    let ghost text = entry@;
    proof {
        assert(letter@ =~= seq![x]);
    }
    list.push(entry);
    proof {
        assert(texts(list@) =~= before.push(text));
    }
}

fn write_section(out: &str, title: &str, list: &Vec<String>) -> (r: String)
    ensures
        r@ == out@ + section(title@, texts(list@)),
{
    if list.len() == 0 {
        proof {
            assert(out@ + section(title@, texts(list@)) =~= out@);
        }
        return copy(out);
    }
    let most: usize = if list.len() > 80 {
        80
    } else {
        list.len()
    };
    let mut text: String = join2(out, title);
    let mut i: usize = 0;
    proof {
        assert(text@ + entries(texts(list@), 0) =~= text@);
    }
    while i < most
        invariant
            i <= most <= list@.len(),
            text@ == out@ + title@ + entries(texts(list@), i as int),
        decreases most - i,
    {
        proof {
            assert(out@ + title@ + entries(texts(list@), i as int) + ("  "@ + list@[i as int]@
                + "\n"@) =~= out@ + title@ + (entries(texts(list@), i as int) + ("  "@
                + list@[i as int]@ + "\n"@)));
        }
        let line: String = join3("  ", list[i].as_str(), "\n");
        text = join2(text.as_str(), line.as_str());
        i = i + 1;
    }
    proof {
        assert(out@ + title@ + entries(texts(list@), most as int) =~= out@ + (title@ + entries(
            texts(list@),
            most as int,
        )));
    }
    text
}

fn write_sections(head: &str, text: &str) -> (r: String)
    requires
        is_porcelain(text@),
    ensures
        r@ == with_sections(head@, text@),
{
    let all: Vec<String> = split_lines(text);
    let n: usize = if all.len() > 200 {
        200
    } else {
        all.len()
    };
    let ghost looked = status_lines(text@);
    proof {
        assert(looked.len() == n);
        assert(forall|j: int| 0 <= j < n ==> looked[j] == texts(all@)[j]);
    }
    let mut staged: Vec<String> = Vec::new();
    let mut unstaged: Vec<String> = Vec::new();
    let mut untracked: Vec<String> = Vec::new();
    let mut i: usize = 0;
    proof {
        assert(texts(staged@) =~= Seq::<Seq<char>>::empty());
        assert(texts(unstaged@) =~= Seq::<Seq<char>>::empty());
        assert(texts(untracked@) =~= Seq::<Seq<char>>::empty());
    }
    while i < n
        invariant
            i <= n <= all@.len(),
            looked.len() == n,
            forall|j: int| 0 <= j < n ==> looked[j] == (#[trigger] all@[j])@,
            forall|j: int|
                0 <= j < looked.len() ==> utf8_len(#[trigger] looked[j]) < 3 || cuts_at(
                    looked[j],
                    3,
                ),
            texts(staged@) == additions(looked, StatusPart::Staged, i as int),
            texts(unstaged@) == additions(looked, StatusPart::Unstaged, i as int),
            texts(untracked@) == additions(looked, StatusPart::Untracked, i as int),
        decreases n - i,
    {
        proof {
            assert(looked[i as int] == all@[i as int]@);
        }
        match read_entry(all[i].as_str()) {
            Some((x, y, path)) => {
                if x == '?' && y == '?' {
                    let ghost before = texts(untracked@);
                    let ghost p = path@;
                    untracked.push(path);
                    proof {
                        assert(texts(untracked@) =~= before.push(p));
                    }
                } else {
                    if x != ' ' && x != '?' {
                        note(&mut staged, x, path.as_str());
                    }
                    if y != ' ' && y != '?' {
                        note(&mut unstaged, y, path.as_str());
                    }
                }
            },
            None => {},
        }
        i = i + 1;
    }
    let a: String = write_section(head, "Staged:\n", &staged);
    let b: String = write_section(a.as_str(), "Unstaged:\n", &unstaged);
    write_section(b.as_str(), "Untracked:\n", &untracked)
}

/// What is told about the working tree, given what git printed: whether this is
/// one, the branch, and the short status. Large trees are cut.
pub fn git_status_context(
    inside: &CommandOutput,
    branch: &CommandOutput,
    status: &CommandOutput,
) -> (r: String)
    requires
        status matches CommandOutput::Printed(text) ==> is_porcelain(text@),
    ensures
        r@ == status_text(*inside, *branch, *status),
{
    let is_tree: bool = match inside {
        CommandOutput::Printed(text) => str_eq(
            to_lower(trim(text.as_str()).as_str()).as_str(),
            "true",
        ),
        _ => false,
    };
    if !is_tree {
        let none: String = String::new();
        proof {
            assert(none@ =~= Seq::<char>::empty());
        }
        return none;
    }
    let line: String = match branch {
        CommandOutput::NotRun => {
            let none: String = String::new();
            proof {
                assert(none@ =~= Seq::<char>::empty());
            }
            none
        },
        CommandOutput::Failed => copy("Branch: (unborn)\n"),
        CommandOutput::Printed(text) => {
            let name: String = trim(text.as_str());
            if name.as_str().is_empty() {
                name
            } else {
                join3("Branch: ", name.as_str(), "\n")
            }
        },
    };
    proof {
        assert(line@ =~= branch_line(*branch));
    }
    let head: String = join2("## Git status (startup)\n", line.as_str());
    match status {
        CommandOutput::Printed(text) => {
            if trim(text.as_str()).as_str().is_empty() {
                return join2(head.as_str(), "Working tree clean.\n");
            }
            let out: String = write_sections(head.as_str(), text.as_str());
            truncate_with_marker(out.as_str(), 6000, "\n… (git status truncated)")
        },
        _ => head,
    }
}

/// The first 12 000 characters of a text.
pub open spec fn shortened(s: Seq<char>) -> Seq<char> {
    if s.len() > 12_000 {
        s.take(12_000)
    } else {
        s
    }
}

fn shorten(s: &str) -> (r: String)
    ensures
        r@ == shortened(s@),
{
    let v: Vec<char> = to_chars(s);
    let n: usize = if v.len() > 12_000 {
        12_000
    } else {
        v.len()
    };
    proof {
        assert(v@.subrange(0, n as int) =~= shortened(s@));
    }
    chars_to_string(&v, 0, n)
}

/// What is shown of a change to a file: its difference, that of a new file, or a
/// line that says it was updated.
pub fn diff_for_path(change: Option<&str>, new_file: Option<&str>, path: &str) -> (r: String)
    ensures
        r@ == match change {
            Some(s) => if trimmed(s@).len() > 0 {
                shortened(s@)
            } else {
                match new_file {
                    Some(u) => if trimmed(u@).len() > 0 {
                        shortened(u@)
                    } else {
                        "(updated "@ + path@ + ")"@
                    },
                    None => "(updated "@ + path@ + ")"@,
                }
            },
            None => "(updated "@ + path@ + ")"@,
        },
{
    match change {
        Some(s) => {
            if !trim(s).as_str().is_empty() {
                return shorten(s);
            }
            match new_file {
                Some(u) => {
                    if !trim(u).as_str().is_empty() {
                        return shorten(u);
                    }
                },
                None => {},
            }
        },
        None => {},
    }
    join3("(updated ", path, ")")
}

/// The file holds more than white space.
pub open spec fn has_text(c: Candidate) -> bool {
    c.raw is Some && trimmed(c.raw->0@).len() > 0
}

/// The part at `k` tells a file of the list: its name stands first.
pub open spec fn tells_a_file(book: Book, k: int, files: Seq<Candidate>) -> bool {
    exists|i: int|
        {
            &&& 0 <= i < files.len()
            &&& has_text(#[trigger] files[i])
            &&& files[i].rel@ == book.loaded[k]
            &&& has_prefix(book.parts[k], "### "@ + files[i].rel@ + "\n"@)
        }
}

proof fn file_is_told(book: Book, files: Seq<Candidate>, i: int, chunk: Seq<char>)
    requires
        0 <= i < files.len(),
        has_text(files[i]),
        book.parts.len() == book.loaded.len(),
    ensures
        with_file(book, files[i].rel@, chunk).parts.len() == with_file(
            book,
            files[i].rel@,
            chunk,
        ).loaded.len(),
        tells_a_file(with_file(book, files[i].rel@, chunk), book.parts.len() as int, files),
{
    let next = with_file(book, files[i].rel@, chunk);
    let k = book.parts.len() as int;
    let head = "### "@ + files[i].rel@ + "\n"@;
    assert(next.parts[k].subrange(0, head.len() as int) =~= head);
    assert(has_text(files[i]) && has_prefix(next.parts[k], head));
}

proof fn roots_are_told(files: Seq<Candidate>, n: int)
    requires
        0 <= n <= files.len(),
    ensures
        with_roots(files, n).parts.len() == with_roots(files, n).loaded.len(),
        forall|k: int|
            0 <= k < with_roots(files, n).parts.len() ==> #[trigger] tells_a_file(
                with_roots(files, n),
                k,
                files,
            ),
    decreases n,
{
    if n > 0 {
        roots_are_told(files, n - 1);
        let p = with_roots(files, n - 1);
        let q = with_roots(files, n);
        if q != p {
            let chunk = capped(files[n - 1].raw, MAX_FILE_CHARS as nat)->0;
            file_is_told(p, files, n - 1, chunk);
            assert forall|k: int| 0 <= k < q.parts.len() implies #[trigger] tells_a_file(
                q,
                k,
                files,
            ) by {
                if k < p.parts.len() {
                    assert(tells_a_file(p, k, files));
                    assert(q.parts[k] == p.parts[k] && q.loaded[k] == p.loaded[k]);
                }
            }
        }
    }
}

proof fn extras_are_told(start: Book, files: Seq<Candidate>, n: int)
    requires
        0 <= n <= files.len(),
        start.parts.len() == start.loaded.len(),
    ensures
        ({
            let q = with_extras(start, files, n);
            &&& q.parts.len() == q.loaded.len()
            &&& q.parts.len() >= start.parts.len()
            &&& q.parts.take(start.parts.len() as int) == start.parts
            &&& q.loaded.take(start.loaded.len() as int) == start.loaded
            &&& forall|k: int|
                start.parts.len() <= k < q.parts.len() ==> #[trigger] tells_a_file(q, k, files)
            &&& forall|j: int, k: int|
                start.parts.len() <= k < q.loaded.len() && 0 <= j < k ==> #[trigger] q.loaded[j]
                    != #[trigger] q.loaded[k]
        }),
    decreases n,
{
    if n > 0 {
        extras_are_told(start, files, n - 1);
        let p = with_extras(start, files, n - 1);
        let q = with_extras(start, files, n);
        if q != p {
            let chunk = capped(files[n - 1].raw, (MAX_FILE_CHARS / 2) as nat)->0;
            file_is_told(p, files, n - 1, chunk);
            assert(q.parts.take(start.parts.len() as int) =~= p.parts.take(
                start.parts.len() as int,
            ));
            assert(q.loaded.take(start.loaded.len() as int) =~= p.loaded.take(
                start.loaded.len() as int,
            ));
            assert forall|k: int| start.parts.len() <= k < q.parts.len() implies #[trigger]
                tells_a_file(q, k, files) by {
                if k < p.parts.len() {
                    assert(tells_a_file(p, k, files));
                    assert(q.parts[k] == p.parts[k] && q.loaded[k] == p.loaded[k]);
                }
            }
            assert forall|j: int, k: int|
                start.parts.len() <= k < q.loaded.len() && 0 <= j < k implies #[trigger] q.loaded[j]
                != #[trigger] q.loaded[k] by {
                if k == p.loaded.len() {
                    assert(p.loaded.contains(p.loaded[j]));
                } else {
                    assert(q.loaded[j] == p.loaded[j] && q.loaded[k] == p.loaded[k]);
                }
            }
        }
    } else {
        assert(start.parts.take(start.parts.len() as int) =~= start.parts);
        assert(start.loaded.take(start.loaded.len() as int) =~= start.loaded);
    }
}

/// What is told comes from files that hold text, each under its name: the files
/// of the root first, then others, none of which is told twice.
pub proof fn instructions_come_from_files(roots: Seq<Candidate>, extras: Seq<Candidate>, k: int)
    requires
        0 <= k < gathered(roots, extras).parts.len(),
    ensures
        ({
            let book = gathered(roots, extras);
            let first = with_roots(roots, roots.len() as int).parts.len();
            &&& book.loaded.len() == book.parts.len()
            &&& k < first ==> tells_a_file(book, k, roots)
            &&& k >= first ==> tells_a_file(book, k, extras) && forall|j: int|
                0 <= j < k ==> #[trigger] book.loaded[j] != book.loaded[k]
        }),
{
    let start = with_roots(roots, roots.len() as int);
    let book = gathered(roots, extras);
    roots_are_told(roots, roots.len() as int);
    extras_are_told(start, extras, extras.len() as int);
    if k < start.parts.len() {
        assert(tells_a_file(start, k, roots));
        assert(book.parts.take(start.parts.len() as int)[k] == book.parts[k]);
        assert(book.loaded.take(start.loaded.len() as int)[k] == book.loaded[k]);
    }
}

/// The first file of the root that holds text, of no more than the bound, is
/// told whole.
pub proof fn first_files_are_told_whole(files: Seq<Candidate>, n: int)
    requires
        0 < n <= files.len(),
        has_text(files[n - 1]),
        utf8_len(files[n - 1].raw->0@) <= MAX_FILE_CHARS,
        forall|i: int| 0 <= i < n - 1 ==> !has_text(#[trigger] files[i]),
    ensures
        with_roots(files, n).loaded == seq![files[n - 1].rel@],
        with_roots(files, n).parts == seq![
            "### "@ + files[n - 1].rel@ + "\n"@ + files[n - 1].raw->0@,
        ],
{
    nothing_is_told_of_nothing(files, n - 1);
    let start = with_roots(files, n - 1);
    assert(with_roots(files, n) == with_file(start, files[n - 1].rel@, files[n - 1].raw->0@));
    assert(with_roots(files, n).loaded =~= seq![files[n - 1].rel@]);
    assert(with_roots(files, n).parts =~= seq![
        "### "@ + files[n - 1].rel@ + "\n"@ + files[n - 1].raw->0@,
    ]);
}

proof fn nothing_is_told_of_nothing(files: Seq<Candidate>, n: int)
    requires
        0 <= n <= files.len(),
        forall|i: int| 0 <= i < n ==> !has_text(#[trigger] files[i]),
    ensures
        with_roots(files, n) == (Book { parts: Seq::empty(), loaded: Seq::empty(), total: 0 }),
    decreases n,
{
    if n > 0 {
        nothing_is_told_of_nothing(files, n - 1);
        assert(!has_text(files[n - 1]));
    }
}

/// A changed file is told under each part of the status that its two letters
/// name: staged by the first, unstaged by the second, and untracked where both
/// are question marks.
pub proof fn status_letters_say_where(line: Seq<char>, x: char, y: char, path: Seq<char>)
    requires
        entry_of(line) == Some((x, y, path)),
    ensures
        addition(line, StatusPart::Untracked) is Some <==> x == '?' && y == '?',
        addition(line, StatusPart::Staged) is Some <==> x != ' ' && x != '?',
        addition(line, StatusPart::Unstaged) is Some <==> y != ' ' && y != '?',
        x == '?' && y == '?' ==> addition(line, StatusPart::Untracked) == Some(path),
        x != ' ' && x != '?' ==> addition(line, StatusPart::Staged) == Some(
            seq![x] + " "@ + path,
        ),
        y != ' ' && y != '?' ==> addition(line, StatusPart::Unstaged) == Some(
            seq![y] + " "@ + path,
        ),
{
}

} // verus!
