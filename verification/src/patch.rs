//! Patches: blocks that say which text of a file to replace by which other.
//!
//! A block names its file and holds the text to look for and the text to put
//! in its place:
//!
//! ```text
//! *** Update File: path
//! <<<<<<< SEARCH
//! old
//! =======
//! new
//! >>>>>>> REPLACE
//! ```

use crate::text::{
    byte_len, chars_to_string, contains_text, copy, decimal, decimal_text, first_at, is_white, join2,
    join3, join5, lines_are_apart, occurs_at, parted, parted_at_the_first, parted_nowhere_before,
    parted_where_contained, split_once, str_contains, to_chars, trim, trim_end_char, trim_start,
    trimmed, trimmed_end, trimmed_start, utf8_len, without_trailing,
};
use vstd::prelude::*;
use vstd::string::*;

verus! {

/// One replacement in one file.
#[derive(Debug)]
pub struct Hunk {
    pub path: String,
    pub old: String,
    pub new: String,
}

/// A replacement as a value of the specification.
pub struct Replacement {
    pub path: Seq<char>,
    pub old: Seq<char>,
    pub new: Seq<char>,
}

impl Hunk {
    pub open spec fn view(&self) -> Replacement {
        Replacement { path: self.path@, old: self.old@, new: self.new@ }
    }
}

/// What reading the next block of a patch comes to.
pub enum Step {
    /// There is none.
    Done,
    Refused(Seq<char>),
    /// A replacement, and the rest of the patch.
    Found(Replacement, Seq<char>),
}

/// `s` without line breaks at its start.
pub open spec fn without_breaks(s: Seq<char>) -> Seq<char>
    decreases s.len(),
{
    if s.len() > 0 && (s[0] == '\r' || s[0] == '\n') {
        without_breaks(s.drop_first())
    } else {
        s
    }
}

/// `s` without the line break at its end.
pub open spec fn unended(s: Seq<char>) -> Seq<char> {
    without_trailing(without_trailing(s, '\n'), '\r')
}

/// The path line of a block and what follows it.
pub open spec fn path_line(s: Seq<char>) -> (Seq<char>, Seq<char>) {
    match parted(s, "\n"@) {
        Some((a, b)) => (trimmed(a), b),
        None => (trimmed(s), Seq::empty()),
    }
}

/// The mark before the text to look for.
pub open spec fn search_tag(body: Seq<char>) -> Option<Seq<char>> {
    if contains_text(body, "<<<<<<< SEARCH"@) {
        Some("<<<<<<< SEARCH"@)
    } else if contains_text(body, "*** SEARCH"@) {
        Some("*** SEARCH"@)
    } else {
        None
    }
}

/// The mark after the text to put in its place.
pub open spec fn replace_tag(body: Seq<char>) -> Option<Seq<char>> {
    if contains_text(body, ">>>>>>> REPLACE"@) {
        Some(">>>>>>> REPLACE"@)
    } else if contains_text(body, "*** REPLACE"@) {
        Some("*** REPLACE"@)
    } else {
        None
    }
}

/// The mark between the two texts.
pub open spec fn middle_tag(body: Seq<char>) -> Option<Seq<char>> {
    if contains_text(body, "======="@) {
        Some("======="@)
    } else if contains_text(body, "*** REPLACE"@) {
        Some("*** REPLACE"@)
    } else {
        None
    }
}

/// What is wrong with a block.
pub open spec fn block_fault(path: Seq<char>, what: Seq<char>) -> Step {
    Step::Refused("patch for "@ + path + ": "@ + what)
}

/// The replacement that the body of a block asks for.
pub open spec fn block(path: Seq<char>, body: Seq<char>) -> Step {
    match (search_tag(body), replace_tag(body), middle_tag(body)) {
        (None, _, _) => block_fault(path, "missing SEARCH block"@),
        (Some(_), None, _) => block_fault(path, "missing REPLACE marker"@),
        (Some(_), Some(_), None) => block_fault(path, "missing separator"@),
        (Some(search), Some(replace), Some(middle)) => match parted(body, search) {
            None => Step::Refused("SEARCH"@),
            Some((_, after_search)) => match parted(without_breaks(after_search), middle) {
                None => Step::Refused("separator after SEARCH"@),
                Some((old, after_old)) => match parted(without_breaks(after_old), replace) {
                    None => Step::Refused("REPLACE end"@),
                    Some((new, rest)) => Step::Found(
                        Replacement { path, old: unended(old), new: unended(new) },
                        rest,
                    ),
                },
            },
        },
    }
}

/// What reading the next block of a patch comes to.
pub open spec fn next_block(rest: Seq<char>) -> Step {
    match parted(rest, "*** Update File:"@) {
        None => Step::Done,
        Some((_, after)) => {
            let (path, body) = path_line(trimmed_start(after));
            if path.len() == 0 {
                Step::Refused("missing path after *** Update File:"@)
            } else {
                block(path, body)
            }
        },
    }
}

fn skip_breaks(s: &str) -> (r: String)
    ensures
        r@ == without_breaks(s@),
{
    let v: Vec<char> = to_chars(s);
    let n: usize = v.len();
    let mut i: usize = 0;
    proof {
        assert(v@.skip(0) =~= v@);
    }
    while i < n && (v[i] == '\r' || v[i] == '\n')
        invariant
            i <= n,
            n == v@.len(),
            without_breaks(v@.skip(i as int)) == without_breaks(v@),
        decreases n - i,
    {
        proof {
            assert(v@.skip(i as int).drop_first() =~= v@.skip(i as int + 1));
        }
        i = i + 1;
    }
    proof {
        assert(v@.subrange(i as int, n as int) =~= v@.skip(i as int));
    }
    chars_to_string(&v, i, n)
}

fn strip_trailing_nl(s: &str) -> (r: String)
    ensures
        r@ == unended(s@),
{
    trim_end_char(trim_end_char(s, '\n').as_str(), '\r')
}

/// `r` is what this step comes to.
pub open spec fn is_step(r: Result<Option<(Hunk, String)>, String>, step: Step) -> bool {
    match step {
        Step::Done => r == Ok::<Option<(Hunk, String)>, String>(None),
        Step::Refused(m) => r is Err && r->Err_0@ == m,
        Step::Found(h, rest) => match r {
            Ok(Some((hunk, tail))) => hunk@ == h && tail@ == rest,
            _ => false,
        },
    }
}

fn block_error(path: &str, what: &str) -> (m: String)
    ensures
        m@ == "patch for "@ + path@ + ": "@ + what@,
{
    join2(join3("patch for ", path, ": ").as_str(), what)
}

fn read_block(path: String, body: &str) -> (r: Result<Option<(Hunk, String)>, String>)
    ensures
        is_step(r, block(path@, body@)),
{
    let search: &str = if str_contains(body, "<<<<<<< SEARCH") {
        "<<<<<<< SEARCH"
    } else if str_contains(body, "*** SEARCH") {
        "*** SEARCH"
    } else {
        return Err(block_error(path.as_str(), "missing SEARCH block"));
    };
    let replace: &str = if str_contains(body, ">>>>>>> REPLACE") {
        ">>>>>>> REPLACE"
    } else if str_contains(body, "*** REPLACE") {
        "*** REPLACE"
    } else {
        return Err(block_error(path.as_str(), "missing REPLACE marker"));
    };
    let middle: &str = if str_contains(body, "=======") {
        "======="
    } else if str_contains(body, "*** REPLACE") {
        "*** REPLACE"
    } else {
        return Err(block_error(path.as_str(), "missing separator"));
    };
    let after_search: String = match split_once(body, search) {
        Some((_, b)) => skip_breaks(b.as_str()),
        None => {
            return Err(copy("SEARCH"));
        },
    };
    let (old, after_old): (String, String) = match split_once(after_search.as_str(), middle) {
        Some((a, b)) => (a, skip_breaks(b.as_str())),
        None => {
            return Err(copy("separator after SEARCH"));
        },
    };
    match split_once(after_old.as_str(), replace) {
        Some((new, rest)) => Ok(
            Some(
                (
                    Hunk {
                        path,
                        old: strip_trailing_nl(old.as_str()),
                        new: strip_trailing_nl(new.as_str()),
                    },
                    rest,
                ),
            ),
        ),
        None => Err(copy("REPLACE end")),
    }
}

/// Reads the next block of a patch: its replacement and the rest of the patch.
pub fn next_hunk(rest: &str) -> (r: Result<Option<(Hunk, String)>, String>)
    ensures
        is_step(r, next_block(rest@)),
{
    let after: String = match split_once(rest, "*** Update File:") {
        Some((_, b)) => trim_start(b.as_str()),
        None => {
            return Ok(None);
        },
    };
    let (path, body): (String, String) = match split_once(after.as_str(), "\n") {
        Some((a, b)) => (trim(a.as_str()), b),
        None => {
            let none: String = String::new();
            proof {
                assert(none@ =~= Seq::<char>::empty());
            }
            (trim(after.as_str()), none)
        },
    };
    if path.as_str().is_empty() {
        return Err(copy("missing path after *** Update File:"));
    }
    read_block(path, body.as_str())
}

/// Begins to read a patch.
pub fn begin_patch(patch: &str) -> (r: Result<String, String>)
    ensures
        if trimmed(patch@).len() == 0 {
            r is Err && r->Err_0@ == "empty patch"@
        } else {
            r is Ok && r->Ok_0@ == trimmed(patch@)
        },
{
    let rest: String = trim(patch);
    if rest.as_str().is_empty() {
        return Err(copy("empty patch"));
    }
    Ok(rest)
}

/// `s` with the first `old` replaced by `new`, if there is one.
pub open spec fn replaced(s: Seq<char>, old: Seq<char>, new: Seq<char>) -> Option<Seq<char>> {
    match parted(s, old) {
        Some((a, b)) => Some(a + new + b),
        None => None,
    }
}

fn replace_first(s: &str, old: &str, new: &str) -> (r: Option<String>)
    ensures
        match replaced(s@, old@, new@) {
            Some(t) => r is Some && r->0@ == t,
            None => r is None,
        },
{
    match split_once(s, old) {
        Some((a, b)) => Some(join3(a.as_str(), new, b.as_str())),
        None => None,
    }
}

/// What replacing the text of a block comes to.
pub open spec fn applying(
    original: Seq<char>,
    hunk: Hunk,
    r: Result<String, String>,
) -> bool {
    match replaced(original, hunk.old@, hunk.new@) {
        Some(t) => r is Ok && r->Ok_0@ == t,
        None => r is Err && r->Err_0@ == "SEARCH block not found in "@ + hunk.path@ + " ("@
            + decimal(utf8_len(hunk.old@)) + " chars search)"@,
    }
}

/// Replaces the first text that a block looks for. A file that does not hold it
/// is left alone.
pub fn apply_hunk(original: &str, hunk: &Hunk) -> (r: Result<String, String>)
    ensures
        applying(
            original@,
            *hunk,
            r,
        ),
{
    match replace_first(original, hunk.old.as_str(), hunk.new.as_str()) {
        Some(t) => Ok(t),
        None => {
            let size: String = decimal_text(byte_len(hunk.old.as_str()) as u64);
            Err(
                join5(
                    "SEARCH block not found in ",
                    hunk.path.as_str(),
                    " (",
                    size.as_str(),
                    " chars search)",
                ),
            )
        },
    }
}

/// The line that reports an updated file.
pub fn update_report(path: &str, before: &str, after: &str) -> (r: String)
    ensures
        r@ == "updated "@ + path@ + " ("@ + decimal(utf8_len(before@)) + " → "@ + decimal(
            utf8_len(after@),
        ) + " bytes)"@,
{
    let from: String = decimal_text(byte_len(before) as u64);
    let to: String = decimal_text(byte_len(after) as u64);
    join3(
        join5("updated ", path, " (", from.as_str(), " → ").as_str(),
        to.as_str(),
        " bytes)",
    )
}

/// The text of the field `key` of a JSON document, `None` for a document without
/// such a text; and `None` altogether for what is no JSON document: what
/// `serde_json::from_str`, `Value::get` and `Value::as_str` yield.
pub uninterp spec fn json_text_field(text: Seq<char>, key: Seq<char>) -> Option<Option<Seq<char>>>;

/// What was read, as texts.
pub open spec fn read_text(r: Option<Option<String>>) -> Option<Option<Seq<char>>> {
    match r {
        Some(Some(s)) => Some(Some(s@)),
        Some(None) => Some(None),
        None => None,
    }
}

/// `serde_json::from_str`, `Value::get` and `Value::as_str`: the text of a field
/// of a document.
#[verifier::external_body]
fn read_text_field(text: &str, key: &str) -> (r: Option<Option<String>>)
    ensures
        read_text(r) == json_text_field(text@, key@),
{
    let value: serde_json::Value = serde_json::from_str(text).ok()?;
    Some(value.get(key).and_then(|v| v.as_str()).map(String::from))
}

/// The replacement that these fields ask for.
pub open spec fn fields_step(
    path: Option<Option<Seq<char>>>,
    old: Option<Option<Seq<char>>>,
    new: Option<Option<Seq<char>>>,
) -> Step {
    match path {
        None => Step::Refused(
            "unrecognized patch format; use *** Update File: path with <<<<<<< SEARCH / ======= / >>>>>>> REPLACE"@,
        ),
        Some(path) => match (path, flat(old), flat(new)) {
            (None, _, _) => Step::Refused("json patch needs path"@),
            (Some(_), None, _) => Step::Refused("json patch needs old_string"@),
            (Some(_), Some(_), None) => Step::Refused("json patch needs new_string"@),
            (Some(path), Some(old), Some(new)) => Step::Found(
                Replacement { path, old, new },
                Seq::empty(),
            ),
        },
    }
}

/// The text of a field, if there is one.
pub open spec fn flat(field: Option<Option<Seq<char>>>) -> Option<Seq<char>> {
    match field {
        Some(Some(s)) => Some(s),
        _ => None,
    }
}

/// The replacement that the fields of a JSON patch ask for.
pub fn hunk_from_fields(
    path: Option<Option<String>>,
    old: Option<Option<String>>,
    new: Option<Option<String>>,
) -> (r: Result<Hunk, String>)
    ensures
        match fields_step(read_text(path), read_text(old), read_text(new)) {
            Step::Found(h, _) => r is Ok && r->Ok_0@ == h,
            Step::Refused(m) => r is Err && r->Err_0@ == m,
            Step::Done => false,
        },
{
    match path {
        None => Err(
            copy(
                "unrecognized patch format; use *** Update File: path with <<<<<<< SEARCH / ======= / >>>>>>> REPLACE",
            ),
        ),
        Some(None) => Err(copy("json patch needs path")),
        Some(Some(path)) => match old {
            Some(Some(old)) => match new {
                Some(Some(new)) => Ok(Hunk { path, old, new }),
                _ => Err(copy("json patch needs new_string")),
            },
            _ => Err(copy("json patch needs old_string")),
        },
    }
}

/// What reading a JSON patch comes to.
pub open spec fn json_reading(
    patch: Seq<char>,
    r: Result<Hunk, String>,
) -> bool {
    match fields_step(
        json_text_field(patch, "path"@),
        json_text_field(patch, "old_string"@),
        json_text_field(patch, "new_string"@),
    ) {
        Step::Found(h, _) => r is Ok && r->Ok_0@ == h,
        Step::Refused(m) => r is Err && r->Err_0@ == m,
        Step::Done => false,
    }
}

/// Reads a patch that is one JSON document with a path and two texts.
pub fn json_hunk(patch: &str) -> (r: Result<Hunk, String>)
    ensures
        json_reading(
            patch@,
            r,
        ),
{
    hunk_from_fields(
        read_text_field(patch, "path"),
        read_text_field(patch, "old_string"),
        read_text_field(patch, "new_string"),
    )
}

/// What replacing the text of a JSON patch comes to.
pub open spec fn json_applying(
    original: Seq<char>,
    hunk: Hunk,
    r: Result<String, String>,
) -> bool {
    match replaced(original, hunk.old@, hunk.new@) {
        Some(t) => r is Ok && r->Ok_0@ == t,
        None => r is Err && r->Err_0@ == "old_string not found in "@ + hunk.path@,
    }
}

/// Replaces the first text that a JSON patch looks for.
pub fn apply_json_hunk(original: &str, hunk: &Hunk) -> (r: Result<String, String>)
    ensures
        json_applying(
            original@,
            *hunk,
            r,
        ),
{
    match replace_first(original, hunk.old.as_str(), hunk.new.as_str()) {
        Some(t) => Ok(t),
        None => Err(join2("old_string not found in ", hunk.path.as_str())),
    }
}

/// A replacement succeeds exactly where the file holds the text, and undoing it
/// at the same place gives the file back.
pub proof fn replacements_can_be_undone(s: Seq<char>, old: Seq<char>, new: Seq<char>)
    ensures
        replaced(s, old, new) is Some <==> contains_text(s, old),
        match (parted(s, old), replaced(s, old, new)) {
            (Some((a, b)), Some(t)) => parted(t, new) == Some((a, b)) ==> replaced(t, new, old)
                == Some(s),
            _ => true,
        },
{
    parted_where_contained(s, old);
}

/// A line break.
pub open spec fn nl() -> Seq<char> {
    seq!['\n']
}

/// The body of a block, as it is written: the two texts between their marks,
/// each on lines of its own.
pub open spec fn written_body(
    search: Seq<char>,
    old: Seq<char>,
    new: Seq<char>,
    replace: Seq<char>,
) -> Seq<char> {
    search + nl() + (old + nl() + ("======="@ + nl() + (new + nl() + (replace + nl()))))
}

/// A block of a patch, as it is written.
pub open spec fn written_block(
    path: Seq<char>,
    search: Seq<char>,
    old: Seq<char>,
    new: Seq<char>,
    replace: Seq<char>,
) -> Seq<char> {
    "*** Update File: "@ + path + nl() + written_body(search, old, new, replace)
}

/// The text neither begins nor ends with a line break.
pub open spec fn without_outer_breaks(s: Seq<char>) -> bool {
    s.len() > 0 ==> s[0] != '\n' && s[0] != '\r' && s.last() != '\n' && s.last() != '\r'
}

/// The text can be written as a path: one line with nothing blank around it.
pub open spec fn is_path_line(path: Seq<char>) -> bool {
    path.len() > 0 && !is_white(path[0]) && !is_white(path.last()) && !path.contains('\n')
}

/// The marks are a pair that a block may be written with, and no other mark of
/// the kind stands in the texts or in what follows the block.
pub open spec fn are_marks(
    search: Seq<char>,
    replace: Seq<char>,
    old: Seq<char>,
    new: Seq<char>,
    tail: Seq<char>,
) -> bool {
    ||| search == "<<<<<<< SEARCH"@ && replace == ">>>>>>> REPLACE"@
    ||| {
        &&& search == "*** SEARCH"@
        &&& replace == "*** REPLACE"@
        &&& !contains_text(old, "<<<<<<< SEARCH"@)
        &&& !contains_text(new, "<<<<<<< SEARCH"@)
        &&& !contains_text(tail, "<<<<<<< SEARCH"@)
        &&& !contains_text(old, ">>>>>>> REPLACE"@)
        &&& !contains_text(tail, ">>>>>>> REPLACE"@)
    }
}

proof fn marks_are_single_lines()
    ensures
        !"<<<<<<< SEARCH"@.contains('\n'),
        !"*** SEARCH"@.contains('\n'),
        !">>>>>>> REPLACE"@.contains('\n'),
        !"*** REPLACE"@.contains('\n'),
        !"======="@.contains('\n'),
        !"*** Update File:"@.contains('\n'),
        "<<<<<<< SEARCH"@.len() == 14,
        "*** SEARCH"@.len() == 10,
        ">>>>>>> REPLACE"@.len() == 15,
        "*** REPLACE"@.len() == 11,
        "======="@.len() == 7,
        "*** Update File:"@.len() == 16,
        "*** Update File: "@ == "*** Update File:"@ + seq![' '],
        "\n"@ == nl(),
        "======="@[0] != '\n' && "======="@[0] != '\r',
        ">>>>>>> REPLACE"@[0] != '\n' && ">>>>>>> REPLACE"@[0] != '\r',
        "*** REPLACE"@[0] != '\n' && "*** REPLACE"@[0] != '\r',
        !contains_text("*** SEARCH"@, "<<<<<<< SEARCH"@),
        !contains_text("======="@, "<<<<<<< SEARCH"@),
        !contains_text("*** REPLACE"@, "<<<<<<< SEARCH"@),
        !contains_text("*** SEARCH"@, ">>>>>>> REPLACE"@),
        !contains_text("======="@, ">>>>>>> REPLACE"@),
        !contains_text("*** REPLACE"@, ">>>>>>> REPLACE"@),
{
    reveal_strlit("<<<<<<< SEARCH");
    reveal_strlit("*** SEARCH");
    reveal_strlit(">>>>>>> REPLACE");
    reveal_strlit("*** REPLACE");
    reveal_strlit("=======");
    reveal_strlit("*** Update File:");
    reveal_strlit("*** Update File: ");
    reveal_strlit("\n");
    assert("*** Update File: "@ =~= "*** Update File:"@ + seq![' ']);
    assert("\n"@ =~= nl());
}

proof fn contained_in_a_line(a: Seq<char>, b: Seq<char>, needle: Seq<char>)
    requires
        needle.len() > 0,
        !needle.contains('\n'),
    ensures
        contains_text(a + nl() + b, needle) <==> contains_text(a, needle) || contains_text(
            b,
            needle,
        ),
{
    let s = a + nl() + b;
    let n = needle.len() as int;
    if contains_text(s, needle) {
        let i = choose|i: int| occurs_at(s, needle, i);
        lines_are_apart(a, b, needle, i);
    }
    if contains_text(a, needle) {
        let i = choose|i: int| occurs_at(a, needle, i);
        assert(s.subrange(i, i + n) =~= a.subrange(i, i + n));
        assert(occurs_at(s, needle, i));
    }
    if contains_text(b, needle) {
        let i = choose|i: int| occurs_at(b, needle, i);
        let k = i + a.len() + 1;
        assert(s.subrange(k, k + n) =~= b.subrange(i, i + n));
        assert(occurs_at(s, needle, k));
    }
}

proof fn contained_in_itself(a: Seq<char>)
    ensures
        contains_text(a, a),
{
    assert(a.subrange(0, a.len() as int) =~= a);
    assert(occurs_at(a, a, 0));
}

/// A mark at the start of the line after `a` parts the text there.
proof fn parted_at_a_line(a: Seq<char>, mark: Seq<char>, b: Seq<char>)
    requires
        mark.len() > 0,
        !mark.contains('\n'),
        !contains_text(a, mark),
    ensures
        parted(a + nl() + (mark + b), mark) == Some((a + nl(), b)),
{
    let s = a + nl() + (mark + b);
    let i = a.len() as int + 1;
    let n = mark.len() as int;
    assert(s.subrange(i, i + n) =~= mark);
    assert forall|j: int| 0 <= j < i implies !occurs_at(s, mark, j) by {
        if occurs_at(s, mark, j) {
            lines_are_apart(a, mark + b, mark, j);
        }
    }
    parted_at_the_first(s, mark, i);
    assert(s.take(i) =~= a + nl());
    assert(s.skip(i + n) =~= b);
}

proof fn parted_at_the_start(mark: Seq<char>, b: Seq<char>)
    ensures
        parted(mark + b, mark) == Some((Seq::<char>::empty(), b)),
{
    let s = mark + b;
    let n = mark.len() as int;
    assert(s.subrange(0, n) =~= mark);
    parted_at_the_first(s, mark, 0);
    assert(s.take(0) =~= Seq::<char>::empty());
    assert(s.skip(n) =~= b);
}

/// The text between two marks, each on a line of its own, comes back as it was
/// written.
proof fn framed_text_is_read(text: Seq<char>, mark: Seq<char>, b: Seq<char>)
    requires
        without_outer_breaks(text),
        mark.len() > 0,
        !mark.contains('\n'),
        mark[0] != '\n',
        mark[0] != '\r',
        !contains_text(text, mark),
    ensures
        ({
            let s = without_breaks(nl() + (text + nl() + (mark + b)));
            parted(s, mark) matches Some((a, rest)) && unended(a) == text && rest == b
        }),
{
    let inner = text + nl() + (mark + b);
    let outer = nl() + inner;
    assert(outer.drop_first() =~= inner);
    assert(without_breaks(outer) == without_breaks(inner));
    if text.len() == 0 {
        assert(inner.drop_first() =~= mark + b);
        assert(without_breaks(inner) == without_breaks(mark + b));
        assert((mark + b)[0] == mark[0]);
        assert(without_breaks(mark + b) == mark + b);
        parted_at_the_start(mark, b);
        assert(unended(Seq::<char>::empty()) =~= Seq::<char>::empty());
        assert(text =~= Seq::<char>::empty());
    } else {
        assert(inner[0] == text[0]);
        assert(without_breaks(inner) == inner);
        parted_at_a_line(text, mark, b);
        let a = text + nl();
        assert(a.drop_last() =~= text);
        assert(a.last() == '\n');
        assert(without_trailing(a, '\n') == without_trailing(text, '\n'));
        assert(without_trailing(text, '\n') == text);
        assert(without_trailing(text, '\r') == text);
    }
}

proof fn bodies_contain_their_parts(
    search: Seq<char>,
    old: Seq<char>,
    new: Seq<char>,
    replace: Seq<char>,
    tail: Seq<char>,
    needle: Seq<char>,
)
    requires
        needle.len() > 0,
        !needle.contains('\n'),
    ensures
        contains_text(written_body(search, old, new, replace) + tail, needle) <==> {
            ||| contains_text(search, needle)
            ||| contains_text(old, needle)
            ||| contains_text("======="@, needle)
            ||| contains_text(new, needle)
            ||| contains_text(replace, needle)
            ||| contains_text(tail, needle)
        },
{
    let end = replace + nl() + tail;
    let second = new + nl() + end;
    let middle = "======="@ + nl() + second;
    let first = old + nl() + middle;
    assert(written_body(search, old, new, replace) + tail =~= search + nl() + first);
    contained_in_a_line(search, first, needle);
    contained_in_a_line(old, middle, needle);
    contained_in_a_line("======="@, second, needle);
    contained_in_a_line(new, end, needle);
    contained_in_a_line(replace, tail, needle);
}

proof fn marks_are_found(
    search: Seq<char>,
    old: Seq<char>,
    new: Seq<char>,
    replace: Seq<char>,
    tail: Seq<char>,
)
    requires
        are_marks(search, replace, old, new, tail),
        replace == "*** REPLACE"@ ==> !contains_text(new, ">>>>>>> REPLACE"@),
    ensures
        search_tag(written_body(search, old, new, replace) + tail) == Some(search),
        replace_tag(written_body(search, old, new, replace) + tail) == Some(replace),
        middle_tag(written_body(search, old, new, replace) + tail) == Some("======="@),
{
    marks_are_single_lines();
    bodies_contain_their_parts(search, old, new, replace, tail, "<<<<<<< SEARCH"@);
    bodies_contain_their_parts(search, old, new, replace, tail, ">>>>>>> REPLACE"@);
    bodies_contain_their_parts(search, old, new, replace, tail, search);
    bodies_contain_their_parts(search, old, new, replace, tail, replace);
    bodies_contain_their_parts(search, old, new, replace, tail, "======="@);
    contained_in_itself(search);
    contained_in_itself(replace);
    contained_in_itself("======="@);
}

proof fn written_bodies_are_read(
    path: Seq<char>,
    search: Seq<char>,
    old: Seq<char>,
    new: Seq<char>,
    replace: Seq<char>,
    tail: Seq<char>,
)
    requires
        without_outer_breaks(old),
        without_outer_breaks(new),
        are_marks(search, replace, old, new, tail),
        !contains_text(old, "======="@),
        !contains_text(new, replace),
        replace == "*** REPLACE"@ ==> !contains_text(new, ">>>>>>> REPLACE"@),
    ensures
        block(path, written_body(search, old, new, replace) + tail) == Step::Found(
            Replacement { path, old, new },
            nl() + tail,
        ),
{
    marks_are_single_lines();
    marks_are_found(search, old, new, replace, tail);
    let second = new + nl() + (replace + (nl() + tail));
    let first = old + nl() + ("======="@ + (nl() + second));
    let body = search + (nl() + first);
    assert(written_body(search, old, new, replace) + tail =~= body);
    parted_at_the_start(search, nl() + first);
    framed_text_is_read(old, "======="@, nl() + second);
    framed_text_is_read(new, replace, nl() + tail);
}

/// Reading a block gives back what was written in it: the path, and both texts
/// to the last space. What stands before the block is passed over, and what
/// follows it is left for the next reading.
pub proof fn written_blocks_are_read(
    lead: Seq<char>,
    path: Seq<char>,
    search: Seq<char>,
    old: Seq<char>,
    new: Seq<char>,
    replace: Seq<char>,
    tail: Seq<char>,
)
    requires
        lead.len() == 0 || lead.last() == '\n',
        !contains_text(lead, "*** Update File:"@),
        is_path_line(path),
        without_outer_breaks(old),
        without_outer_breaks(new),
        are_marks(search, replace, old, new, tail),
        !contains_text(old, "======="@),
        !contains_text(new, replace),
        replace == "*** REPLACE"@ ==> !contains_text(new, ">>>>>>> REPLACE"@),
    ensures
        next_block(lead + written_block(path, search, old, new, replace) + tail) == Step::Found(
            Replacement { path, old, new },
            nl() + tail,
        ),
{
    marks_are_single_lines();
    let mark = "*** Update File:"@;
    let body = written_body(search, old, new, replace) + tail;
    let line = path + nl() + body;
    let after = seq![' '] + line;
    let whole = lead + written_block(path, search, old, new, replace) + tail;
    assert(whole =~= lead + (mark + after));
    let i = lead.len() as int;
    assert(whole.subrange(i, i + mark.len()) =~= mark);
    assert forall|j: int| 0 <= j < i implies !occurs_at(whole, mark, j) by {
        if occurs_at(whole, mark, j) {
            let above = lead.drop_last();
            assert(whole =~= above + seq!['\n'] + (mark + after));
            lines_are_apart(above, mark + after, mark, j);
            let n = mark.len() as int;
            assert(lead.subrange(j, j + n) =~= above.subrange(j, j + n));
            assert(occurs_at(lead, mark, j));
        }
    }
    parted_at_the_first(whole, mark, i);
    assert(whole.skip(i + mark.len()) =~= after);
    assert(after.drop_first() =~= line);
    assert(after[0] == ' ');
    assert(is_white(' '));
    assert(line[0] == path[0]);
    assert(trimmed_start(after) == trimmed_start(line));
    assert(trimmed_start(line) == line);
    let k = path.len() as int;
    assert(line.subrange(k, k + 1) =~= nl());
    assert forall|j: int| 0 <= j < k implies !occurs_at(line, nl(), j) by {
        if occurs_at(line, nl(), j) {
            assert(line.subrange(j, j + 1)[0] == path[j]);
            assert(nl()[0] == '\n');
            assert(path.contains(path[j]));
        }
    }
    parted_at_the_first(line, nl(), k);
    assert(line.take(k) =~= path);
    assert(line.skip(k + 1) =~= body);
    assert(trimmed_start(path) == path);
    assert(trimmed_end(path) == path);
    written_bodies_are_read(path, search, old, new, replace, tail);
}

/// A replacement happens at the first place where the text stands, changes
/// nothing before or behind it, and fails only where the text stands nowhere.
pub proof fn replacements_change_the_first_place(s: Seq<char>, old: Seq<char>, new: Seq<char>)
    ensures
        match replaced(s, old, new) {
            Some(t) => exists|i: int|
                {
                    &&& #[trigger] first_at(s, old, 0, i)
                    &&& t == s.take(i) + new + s.skip(i + old.len())
                },
            None => forall|i: int| !occurs_at(s, old, i),
        },
{
    parted_where_contained(s, old);
    match parted(s, old) {
        Some((a, b)) => {
            let i = a.len() as int;
            assert(a + old + b == s);
            assert(s.subrange(i, i + old.len()) =~= old);
            assert forall|j: int| 0 <= j < i implies !occurs_at(s, old, j) by {
                if occurs_at(s, old, j) {
                    parted_nowhere_before(s, old, j);
                }
            }
            assert(first_at(s, old, 0, i));
            assert(s.take(i) =~= a);
            assert(s.skip(i + old.len()) =~= b);
        },
        None => {
            if exists|i: int| occurs_at(s, old, i) {
                assert(contains_text(s, old));
            }
        },
    }
}

/// A JSON patch with a path and both texts asks for exactly that replacement,
/// and one that lacks any of them is refused.
pub proof fn json_patches_say_what_they_replace(
    path: Option<Option<Seq<char>>>,
    old: Option<Option<Seq<char>>>,
    new: Option<Option<Seq<char>>>,
)
    ensures
        match fields_step(path, old, new) {
            Step::Found(h, rest) => path == Some(Some(h.path)) && old == Some(Some(h.old)) && new
                == Some(Some(h.new)) && rest.len() == 0,
            Step::Refused(_) => !(path matches Some(Some(_))) || !(old matches Some(Some(_))) || !(
            new matches Some(Some(_))),
            Step::Done => false,
        },
{
}

/// What a caller gets from a written block: a replacement with that path and
/// those texts, and the rest of the patch.
pub proof fn readers_get_what_was_written(
    lead: Seq<char>,
    path: Seq<char>,
    search: Seq<char>,
    old: Seq<char>,
    new: Seq<char>,
    replace: Seq<char>,
    tail: Seq<char>,
    r: Result<Option<(Hunk, String)>, String>,
)
    requires
        lead.len() == 0 || lead.last() == '\n',
        !contains_text(lead, "*** Update File:"@),
        is_path_line(path),
        without_outer_breaks(old),
        without_outer_breaks(new),
        are_marks(search, replace, old, new, tail),
        !contains_text(old, "======="@),
        !contains_text(new, replace),
        replace == "*** REPLACE"@ ==> !contains_text(new, ">>>>>>> REPLACE"@),
        is_step(
            r,
            next_block(lead + written_block(path, search, old, new, replace) + tail),
        ),
    ensures
        r matches Ok(Some((hunk, rest))) && hunk.path@ == path && hunk.old@ == old && hunk.new@
            == new && rest@ == nl() + tail,
{
    written_blocks_are_read(lead, path, search, old, new, replace, tail);
}

/// A patch without the line that names a file holds no block.
pub proof fn patches_without_a_file_are_done(
    text: Seq<char>,
    r: Result<Option<(Hunk, String)>, String>,
)
    requires
        is_step(r, next_block(text)),
    ensures
        !contains_text(text, "*** Update File:"@) ==> r matches Ok(None),
        r matches Ok(Some((hunk, _))) ==> hunk.path@.len() > 0 && contains_text(
            text,
            "*** Update File:"@,
        ),
{
    parted_where_contained(text, "*** Update File:"@);
}

/// A file that holds the text gets the new text in its first place, and nothing
/// else of it changes; a file that does not hold it is refused.
pub proof fn hunks_replace_the_first_place(
    original: Seq<char>,
    hunk: Hunk,
    r: Result<String, String>,
)
    requires
        applying(original, hunk, r) || json_applying(original, hunk, r),
    ensures
        r is Ok <==> contains_text(original, hunk.old@),
        r is Ok ==> exists|i: int|
            {
                &&& #[trigger] first_at(original, hunk.old@, 0, i)
                &&& r->Ok_0@ == original.take(i) + hunk.new@ + original.skip(i + hunk.old@.len())
            },
{
    parted_where_contained(original, hunk.old@);
    replacements_change_the_first_place(original, hunk.old@, hunk.new@);
}

/// A JSON patch is read from the fields that name its path and its two texts.
pub proof fn json_patches_are_read_by_field(patch: Seq<char>, r: Result<Hunk, String>)
    requires
        json_reading(patch, r),
    ensures
        r is Ok ==> {
            &&& json_text_field(patch, "path"@) == Some(Some(r->Ok_0.path@))
            &&& json_text_field(patch, "old_string"@) == Some(Some(r->Ok_0.old@))
            &&& json_text_field(patch, "new_string"@) == Some(Some(r->Ok_0.new@))
        },
        r is Err ==> !(json_text_field(patch, "path"@) matches Some(Some(_))) || !(
        json_text_field(patch, "old_string"@) matches Some(Some(_))) || !(json_text_field(
            patch,
            "new_string"@,
        ) matches Some(Some(_))),
{
}

} // verus!
