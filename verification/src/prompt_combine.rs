//! Joining queued prompts into one.

use crate::text::{copy, join3, str_eq};
use vstd::prelude::*;
use vstd::string::*;

verus! {

/// What stands between the prompts that were joined.
pub const TEXT_SEPARATOR: &'static str = "\n\n";

/// What decides about one row of the queue.
#[derive(Debug, Clone, Copy)]
pub struct CombineGate<'a> {
    pub id: &'a str,
    /// A plain prompt of a user.
    pub is_plain_prompt: bool,
    /// Made by the host itself.
    pub is_synthetic: bool,
    /// The text of a skill that the client expanded.
    pub is_expanded_skill: bool,
    pub is_bash: bool,
    pub has_images: bool,
    pub text: &'a str,
}

impl<'a> CombineGate<'a> {
    /// The row may begin a joined prompt.
    pub open spec fn leads(self) -> bool {
        self.is_plain_prompt && !self.is_synthetic && !self.is_expanded_skill && !self.is_bash
            && self.text@.len() > 0
    }

    /// The row may follow in a joined prompt.
    pub open spec fn follows(self, skip: Seq<&str>) -> bool {
        self.leads() && !self.has_images && !skips(skip, self.id@)
    }
}

/// The list holds this id.
pub open spec fn skips(skip: Seq<&str>, id: Seq<char>) -> bool {
    exists|i: int| 0 <= i < skip.len() && (#[trigger] skip[i])@ == id
}

/// Whether a row may begin a joined prompt. It may have images.
pub fn can_merge_front(g: &CombineGate<'_>) -> (r: bool)
    ensures
        r == g.leads(),
{
    g.is_plain_prompt && !g.is_synthetic && !g.is_expanded_skill && !g.is_bash
        && !g.text.is_empty()
}

/// Whether a row may follow in a joined prompt.
pub fn can_merge_follower(g: &CombineGate<'_>, skip_ids: &[&str]) -> (r: bool)
    ensures
        r == g.follows(skip_ids@),
{
    if !can_merge_front(g) || g.has_images {
        return false;
    }
    let mut i: usize = 0;
    while i < skip_ids.len()
        invariant
            i <= skip_ids@.len(),
            forall|j: int| 0 <= j < i ==> (#[trigger] skip_ids@[j])@ != g.id@,
        decreases skip_ids.len() - i,
    {
        if str_eq(skip_ids[i], g.id) {
            return false;
        }
        i = i + 1;
    }
    true
}

/// `n` rows from the front can be joined, and no more.
pub open spec fn is_prefix_len(items: Seq<CombineGate<'_>>, skip: Seq<&str>, n: int) -> bool {
    if items.len() == 0 {
        n == 0
    } else if !items[0].leads() {
        n == 1
    } else {
        &&& 1 <= n <= items.len()
        &&& forall|i: int| 1 <= i < n ==> (#[trigger] items[i]).follows(skip)
        &&& n < items.len() ==> !items[n].follows(skip)
    }
}

/// How many rows from the front are joined; one means the front alone.
pub fn combine_prefix_len(items: &[CombineGate<'_>], skip_ids: &[&str]) -> (n: usize)
    ensures
        is_prefix_len(items@, skip_ids@, n as int),
{
    if items.len() == 0 {
        return 0;
    }
    if !can_merge_front(&items[0]) {
        return 1;
    }
    let mut n: usize = 1;
    while n < items.len() && can_merge_follower(&items[n], skip_ids)
        invariant
            1 <= n <= items@.len(),
            forall|i: int| 1 <= i < n ==> (#[trigger] items@[i]).follows(skip_ids@),
        decreases items.len() - n,
    {
        n = n + 1;
    }
    n
}

/// The texts that are not empty, with the separator between them.
pub open spec fn joined(texts: Seq<&str>) -> Seq<char>
    decreases texts.len(),
{
    if texts.len() == 0 {
        Seq::empty()
    } else {
        let before = joined(texts.drop_last());
        let last = texts.last()@;
        if last.len() == 0 {
            before
        } else if before.len() == 0 {
            last
        } else {
            before + TEXT_SEPARATOR@ + last
        }
    }
}

/// Joins texts, leaving empty ones out.
pub fn join_texts(texts: &[&str]) -> (r: String)
    ensures
        r@ == joined(texts@),
{
    let mut out: String = String::new();
    let mut i: usize = 0;
    proof {
        assert(texts@.take(0) =~= Seq::<&str>::empty());
    }
    while i < texts.len()
        invariant
            i <= texts@.len(),
            out@ == joined(texts@.take(i as int)),
        decreases texts.len() - i,
    {
        proof {
            assert(texts@.take(i as int + 1).drop_last() =~= texts@.take(i as int));
        }
        if !texts[i].is_empty() {
            out = if out.as_str().is_empty() {
                copy(texts[i])
            } else {
                join3(out.as_str(), TEXT_SEPARATOR, texts[i])
            };
        }
        i = i + 1;
    }
    proof {
        assert(texts@.take(texts@.len() as int) =~= texts@);
    }
    out
}

/// Whether a prompt was joined from several.
pub fn is_combined(segs: &[String]) -> (r: bool)
    ensures
        r == (segs@.len() >= 2),
{
    segs.len() >= 2
}

/// The row is a prompt that a user wrote: no command, no skill, nothing of the
/// host, and not empty.
pub open spec fn is_written(g: CombineGate<'_>) -> bool {
    &&& g.is_plain_prompt
    &&& !g.is_synthetic
    &&& !g.is_expanded_skill
    &&& !g.is_bash
    &&& g.text@ != Seq::<char>::empty()
}

/// Of the rows that go together all are written by users, and behind the first
/// none has images or is to be left out. The next row cannot follow. A row
/// that cannot lead goes alone.
pub proof fn written_rows_go_together(items: Seq<CombineGate<'_>>, skip: Seq<&str>, n: int)
    requires
        is_prefix_len(items, skip, n),
    ensures
        items.len() == 0 <==> n == 0,
        0 <= n <= items.len(),
        n >= 2 ==> forall|i: int| 0 <= i < n ==> is_written(#[trigger] items[i]),
        forall|i: int|
            1 <= i < n ==> !(#[trigger] items[i]).has_images && forall|k: int|
                0 <= k < skip.len() ==> (#[trigger] skip[k])@ != items[i].id@,
        0 < n < items.len() && is_written(items[0]) ==> !is_written(items[n]) || items[n].has_images
            || exists|k: int| 0 <= k < skip.len() && (#[trigger] skip[k])@ == items[n].id@,
        items.len() > 0 && !is_written(items[0]) ==> n == 1,
{
    assert forall|g: CombineGate<'_>| is_written(g) implies #[trigger] g.leads() by {
        if g.text@.len() == 0 {
            assert(g.text@ =~= Seq::<char>::empty());
        }
    }
    if items.len() > 0 && !is_written(items[0]) && items[0].leads() {
        assert(items[0].text@ =~= Seq::<char>::empty());
    }
    assert forall|i: int| 1 <= i < n implies is_written(#[trigger] items[i]) && !items[i].has_images
        && (forall|k: int| 0 <= k < skip.len() ==> (#[trigger] skip[k])@ != items[i].id@) by {
        assert(items[i].follows(skip));
        assert forall|k: int| 0 <= k < skip.len() implies (#[trigger] skip[k])@ != items[i].id@ by {
            assert(!skips(skip, items[i].id@));
        }
    }
}

/// What is joined in two parts is joined as one: with a blank line between the
/// parts, unless one of them is empty.
pub proof fn joining_is_associative(a: Seq<&str>, b: Seq<&str>)
    ensures
        joined(a).len() == 0 ==> joined(a + b) == joined(b),
        joined(b).len() == 0 ==> joined(a + b) == joined(a),
        joined(a).len() > 0 && joined(b).len() > 0 ==> joined(a + b) == joined(a) + "\n\n"@
            + joined(b),
    decreases b.len(),
{
    if b.len() == 0 {
        assert(a + b =~= a);
        assert(joined(b) =~= Seq::<char>::empty());
        if joined(a).len() == 0 {
            assert(joined(a) =~= Seq::<char>::empty());
        }
    } else {
        let c = b.drop_last();
        joining_is_associative(a, c);
        assert((a + b).drop_last() =~= a + c);
        assert((a + b).last() == b.last());
        let last = b.last()@;
        if last.len() > 0 && joined(a).len() > 0 && joined(c).len() > 0 {
            assert(joined(a + b) =~= joined(a) + "\n\n"@ + joined(b));
        }
    }
}

/// One text is joined to itself.
pub proof fn one_text_is_itself(t: &str)
    ensures
        joined(seq![t]) == t@,
{
    assert(seq![t].drop_last() =~= Seq::<&str>::empty());
    assert(joined(seq![t].drop_last()) =~= Seq::<char>::empty());
    if t@.len() == 0 {
        assert(t@ =~= Seq::<char>::empty());
    }
}

} // verus!
