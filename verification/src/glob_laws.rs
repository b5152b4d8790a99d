//! What file patterns select, said of characters and directories.

use crate::glob::{
    base_name, fits, has_part, has_part_at, hits, is_glob_match, is_noisy, is_plain, listed_paths,
    run_fits, selecting, slashed, text_ranks, two_stars, used_limit, used_pattern, without_leading,
};
use crate::order::{listed_before, order_of};
use crate::text::{contains_text, has_prefix, occurs_at, text_lt, text_lt_irreflexive};
use vstd::prelude::*;
use vstd::string::*;

verus! {

/// The text has neither `*` nor `?`.
pub open spec fn is_literal(s: Seq<char>) -> bool {
    forall|i: int| 0 <= i < s.len() ==> #[trigger] s[i] != '*' && s[i] != '?'
}

/// A pattern that starts with plain characters fits the paths that start with
/// them and whose rest fits its rest.
pub proof fn letters_match_themselves(letters: Seq<char>, p: Seq<char>, s: Seq<char>)
    requires
        is_literal(letters),
    ensures
        fits(letters + p, s) <==> letters.len() <= s.len() && s.take(letters.len() as int)
            == letters && fits(p, s.skip(letters.len() as int)),
    decreases letters.len(),
{
    let n = letters.len() as int;
    if n == 0 {
        assert(letters + p =~= p);
        assert(s.skip(0) =~= s);
        assert(s.take(0) =~= letters);
    } else {
        let rest = letters.skip(1);
        assert((letters + p).skip(1) =~= rest + p);
        assert((letters + p)[0] == letters[0]);
        if s.len() > 0 && s[0] == letters[0] {
            letters_match_themselves(rest, p, s.skip(1));
            if n <= s.len() {
                assert(s.skip(1).skip(n - 1) =~= s.skip(n));
                assert(s.take(n) =~= seq![s[0]] + s.skip(1).take(n - 1));
                assert(letters =~= seq![letters[0]] + rest);
                if s.take(n) == letters {
                    assert(s.skip(1).take(n - 1) =~= s.take(n).skip(1));
                }
            }
        } else if n <= s.len() {
            assert(s.take(n)[0] == s[0]);
        }
    }
}

/// A pattern without wildcards fits itself alone.
pub proof fn literal_patterns_match_themselves(p: Seq<char>, s: Seq<char>)
    requires
        is_literal(p),
    ensures
        fits(p, s) <==> s == p,
{
    letters_match_themselves(p, Seq::empty(), s);
    assert(p + Seq::<char>::empty() =~= p);
    if s.len() == p.len() {
        assert(s.take(p.len() as int) =~= s);
    }
    if s == p {
        assert(s.skip(p.len() as int).len() == 0);
    }
}

/// `?` stands for one character that is no slash.
pub proof fn marks_match_one_character(p: Seq<char>, s: Seq<char>)
    ensures
        fits(seq!['?'] + p, s) <==> s.len() > 0 && s[0] != '/' && fits(p, s.skip(1)),
{
    assert((seq!['?'] + p).skip(1) =~= p);
}

/// `*` stands for any run of characters without a slash, `**` for any run.
pub proof fn stars_match_runs(p: Seq<char>, s: Seq<char>)
    requires
        p.len() == 0 || p[0] != '*',
    ensures
        fits(seq!['*'] + p, s) <==> exists|k: int|
            0 <= k <= s.len() && !s.take(k).contains('/') && #[trigger] fits(p, s.skip(k)),
        fits(seq!['*', '*'] + p, s) <==> exists|k: int|
            0 <= k <= s.len() && #[trigger] fits(p, s.skip(k)),
{
    let one = seq!['*'] + p;
    let two = seq!['*', '*'] + p;
    assert(one.skip(1) =~= p);
    assert(two.skip(2) =~= p);
    assert(!two_stars(one));
    assert(two_stars(two));
    assert forall|k: int| 0 <= k <= s.len() implies (is_plain(s.take(k)) <==> !s.take(k).contains('/')) by {
        if s.take(k).contains('/') {
            let i = choose|i: int| 0 <= i < s.take(k).len() && s.take(k)[i] == '/';
            assert(s.take(k)[i] == '/');
        }
    }
    if fits(one, s) {
        let k = choose|k: int| #[trigger] run_fits(s, k, false) && fits(p, s.skip(k));
        assert(!s.take(k).contains('/') && fits(p, s.skip(k)));
    }
    if exists|k: int| 0 <= k <= s.len() && !s.take(k).contains('/') && #[trigger] fits(p, s.skip(k)) {
        let k = choose|k: int|
            0 <= k <= s.len() && !s.take(k).contains('/') && #[trigger] fits(p, s.skip(k));
        assert(run_fits(s, k, false) && fits(p, s.skip(k)));
    }
    if fits(two, s) {
        let k = choose|k: int| #[trigger] run_fits(s, k, true) && fits(p, s.skip(k));
        assert(fits(p, s.skip(k)));
    }
    if exists|k: int| 0 <= k <= s.len() && #[trigger] fits(p, s.skip(k)) {
        let k = choose|k: int| 0 <= k <= s.len() && #[trigger] fits(p, s.skip(k));
        assert(run_fits(s, k, true) && fits(p, s.skip(k)));
    }
}

/// A slash in front of the pattern or of the path makes no difference.
pub proof fn leading_slashes_do_not_matter(pattern: Seq<char>, path: Seq<char>)
    ensures
        is_glob_match("/"@ + pattern, path) == is_glob_match(pattern, path),
        is_glob_match(pattern, "/"@ + path) == is_glob_match(pattern, path),
{
    slash_is_dropped(pattern);
    slash_is_dropped(path);
}

proof fn slash_is_dropped(s: Seq<char>)
    ensures
        without_leading("/"@ + s, "/"@) == without_leading(s, "/"@),
{
    reveal_strlit("/");
    let t = "/"@ + s;
    assert(t.take(1) =~= "/"@);
    assert(t.skip(1) =~= s);
    assert(has_prefix(t, "/"@));
}

proof fn name_after_slash(dir: Seq<char>, name: Seq<char>)
    requires
        !name.contains('/'),
    ensures
        base_name(dir + seq!['/'] + name) == name,
    decreases name.len(),
{
    let s = dir + seq!['/'] + name;
    if name.len() == 0 {
        assert(s.last() == '/');
        assert(base_name(s) =~= name);
    } else {
        let shorter = name.drop_last();
        assert forall|i: int| 0 <= i < shorter.len() implies shorter[i] != '/' by {
            assert(shorter[i] == name[i]);
            assert(name.contains(name[i]));
        }
        assert(!shorter.contains('/'));
        name_after_slash(dir, shorter);
        assert(s.drop_last() =~= dir + seq!['/'] + shorter);
        assert(s.last() == name.last());
        assert(name.contains(name.last()));
        assert(name =~= shorter.push(name.last()));
    }
}

proof fn nothing_to_drop(s: Seq<char>)
    requires
        s.len() == 0 || s[0] != '/',
    ensures
        without_leading(s, "/"@) == s,
{
    reveal_strlit("/");
    if has_prefix(s, "/"@) {
        assert(s.take(1)[0] == "/"@[0]);
    }
}

/// `*.rs` and its like select by the end of the file's name, in whatever
/// directory the file lies.
pub proof fn endings_match_in_every_directory(ending: Seq<char>, dir: Seq<char>, name: Seq<char>)
    requires
        is_literal(ending),
        !ending.contains('/'),
        !name.contains('/'),
        dir.len() > 0,
        dir[0] != '/',
    ensures
        is_glob_match("*."@ + ending, dir + seq!['/'] + name) <==> name.len() > ending.len()
            && name.skip(name.len() - ending.len() - 1) == seq!['.'] + ending,
{
    reveal_strlit("*.");
    reveal_strlit("**/");
    reveal_strlit("**");
    let pat = "*."@ + ending;
    let tail = seq!['.'] + ending;
    let path = dir + seq!['/'] + name;
    nothing_to_drop(pat);
    nothing_to_drop(path);
    name_after_slash(dir, name);
    assert(pat =~= seq!['*'] + tail);
    assert(pat.take(2) =~= "*."@);
    assert(has_prefix(pat, "*."@));
    if has_prefix(pat, "**/"@) {
        assert(pat.take(3)[1] == "**/"@[1]);
    }
    assert(!pat.contains('/')) by {
        if pat.contains('/') {
            let i = choose|i: int| 0 <= i < pat.len() && pat[i] == '/';
            assert(ending[i - 2] == '/');
        }
    }
    assert(!contains_text(pat, "**"@)) by {
        if contains_text(pat, "**"@) {
            let i = choose|i: int| occurs_at(pat, "**"@, i);
            assert(pat.subrange(i, i + 2)[1] == "**"@[1]);
            assert(pat[i + 1] == '*');
            if i >= 1 {
                assert(ending[i - 1] == pat[i + 1]);
            }
        }
    }
    assert(is_glob_match(pat, path) == fits(pat, name));
    stars_match_runs(tail, name);
    assert(is_literal(tail));
    if fits(pat, name) {
        let k = choose|k: int|
            0 <= k <= name.len() && !name.take(k).contains('/') && #[trigger] fits(
                tail,
                name.skip(k),
            );
        literal_patterns_match_themselves(tail, name.skip(k));
        assert(k == name.len() - ending.len() - 1);
    }
    if name.len() > ending.len() && name.skip(name.len() - ending.len() - 1) == tail {
        let k = name.len() - ending.len() - 1;
        literal_patterns_match_themselves(tail, name.skip(k));
        assert(!name.take(k).contains('/')) by {
            if name.take(k).contains('/') {
                let i = choose|i: int| 0 <= i < name.take(k).len() && name.take(k)[i] == '/';
                assert(name[i] == '/');
            }
        }
        assert(fits(tail, name.skip(k)));
    }
}

proof fn hits_are_counted(
    pattern: Seq<char>,
    paths: Seq<Seq<char>>,
    limit: nat,
    n: int,
)
    requires
        0 <= n <= paths.len(),
        limit > 0,
    ensures
        hits(pattern, paths, limit, n).len() <= limit,
        forall|k: int|
            0 <= k < hits(pattern, paths, limit, n).len() ==> {
                let f = #[trigger] hits(pattern, paths, limit, n)[k];
                paths.contains(f) && !is_noisy(f) && is_glob_match(pattern, f)
            },
        hits(pattern, paths, limit, n).len() < limit ==> forall|i: int|
            0 <= i < n && !is_noisy(#[trigger] paths[i]) && is_glob_match(pattern, paths[i])
                ==> hits(pattern, paths, limit, n).contains(paths[i]),
    decreases n,
{
    if n > 0 {
        hits_are_counted(pattern, paths, limit, n - 1);
        let before = hits(pattern, paths, limit, n - 1);
        let found = hits(pattern, paths, limit, n);
        if found.len() < limit {
            assert forall|i: int|
                0 <= i < n && !is_noisy(#[trigger] paths[i]) && is_glob_match(
                    pattern,
                    paths[i],
                ) implies found.contains(paths[i]) by {
                if i < n - 1 {
                    let k = choose|k: int| 0 <= k < before.len() && before[k] == paths[i];
                    assert(found[k] == paths[i]);
                } else {
                    assert(found[found.len() - 1] == paths[i]);
                }
            }
        }
    }
}

/// The directory or file of this name is on the path.
pub open spec fn lies_under(path: Seq<char>, name: Seq<char>) -> bool {
    exists|i: int|
        {
            &&& 0 <= i
            &&& i + name.len() <= path.len()
            &&& #[trigger] path.subrange(i, i + name.len()) == name
            &&& i == 0 || path[i - 1] == '/'
            &&& i + name.len() == path.len() || path[i + name.len()] == '/'
        }
}

/// Selected files are files that were given, written with slashes, that match
/// the pattern and lie in no directory of built or fetched files. There are no
/// more than asked for, and never more than five hundred; where there is room
/// for more, none is missing. They are listed as in a dictionary.
pub proof fn selected_files_match(
    paths: Seq<String>,
    pattern: Seq<char>,
    limit: usize,
    r: Seq<String>,
)
    requires
        selecting(paths, pattern, limit, r),
    ensures
        r.len() <= 500,
        limit >= 1 ==> r.len() <= limit,
        limit == 0 ==> r.len() <= 1,
        forall|i: int|
            0 <= i < r.len() ==> {
                let f = (#[trigger] r[i])@;
                &&& exists|k: int| 0 <= k < paths.len() && slashed((#[trigger] paths[k])@) == f
                &&& is_glob_match(used_pattern(pattern), f)
                &&& !lies_under(f, "node_modules"@)
                &&& !lies_under(f, "target"@)
                &&& !lies_under(f, ".git"@)
                &&& !lies_under(f, "dist"@)
                &&& !lies_under(f, "build"@)
                &&& !lies_under(f, ".next"@)
                &&& !lies_under(f, "vendor"@)
            },
        r.len() < limit && r.len() < 500 ==> forall|k: int|
            0 <= k < paths.len() && !is_noisy(slashed((#[trigger] paths[k])@)) && is_glob_match(
                used_pattern(pattern),
                slashed(paths[k]@),
            ) ==> exists|i: int| 0 <= i < r.len() && (#[trigger] r[i])@ == slashed(paths[k]@),
        forall|i: int, j: int|
            0 <= i < j < r.len() ==> text_lt((#[trigger] r[i])@, (#[trigger] r[j])@) || r[i]@
                == r[j]@,
{
    hits_are_counted(
        used_pattern(pattern),
        listed_paths(paths),
        used_limit(limit),
        paths.len() as int,
    );
    assert forall|i: int| 0 <= i < r.len() implies ({
        let f = (#[trigger] r[i])@;
        &&& exists|k: int| 0 <= k < paths.len() && slashed((#[trigger] paths[k])@) == f
        &&& is_glob_match(used_pattern(pattern), f)
        &&& !lies_under(f, "node_modules"@)
        &&& !lies_under(f, "target"@)
        &&& !lies_under(f, ".git"@)
        &&& !lies_under(f, "dist"@)
        &&& !lies_under(f, "build"@)
        &&& !lies_under(f, ".next"@)
        &&& !lies_under(f, "vendor"@)
    }) by {
        selected_file_was_given(paths, pattern, limit, r, i);
        quiet_files_lie_elsewhere(r[i]@);
    }
    if r.len() < limit && r.len() < 500 {
        assert forall|k: int|
            0 <= k < paths.len() && !is_noisy(slashed((#[trigger] paths[k])@)) && is_glob_match(
                used_pattern(pattern),
                slashed(paths[k]@),
            ) implies exists|i: int| 0 <= i < r.len() && (#[trigger] r[i])@ == slashed(
            paths[k]@,
        ) by {
            matching_file_is_selected(paths, pattern, limit, r, k);
        }
    }
    assert forall|i: int, j: int| 0 <= i < j < r.len() implies text_lt(
        (#[trigger] r[i])@,
        (#[trigger] r[j])@,
    ) || r[i]@ == r[j]@ by {
        selected_files_are_ordered(paths, pattern, limit, r, i, j);
    }
}

proof fn selected_file_was_given(
    paths: Seq<String>,
    pattern: Seq<char>,
    limit: usize,
    r: Seq<String>,
    i: int,
)
    requires
        selecting(paths, pattern, limit, r),
        0 <= i < r.len(),
    ensures
        exists|k: int| 0 <= k < paths.len() && slashed((#[trigger] paths[k])@) == r[i]@,
        is_glob_match(used_pattern(pattern), r[i]@),
        !is_noisy(r[i]@),
{
    let used = used_pattern(pattern);
    let given = listed_paths(paths);
    let found = hits(used, given, used_limit(limit), paths.len() as int);
    let order = order_of(text_ranks(found));
    hits_are_counted(used, given, used_limit(limit), paths.len() as int);
    let f = found[order[i] as int];
    assert(r[i]@ == f);
    assert(given.contains(f));
    let k = choose|k: int| 0 <= k < given.len() && given[k] == f;
    assert(slashed(paths[k]@) == f);
}

proof fn matching_file_is_selected(
    paths: Seq<String>,
    pattern: Seq<char>,
    limit: usize,
    r: Seq<String>,
    k: int,
)
    requires
        selecting(paths, pattern, limit, r),
        r.len() < limit,
        r.len() < 500,
        0 <= k < paths.len(),
        !is_noisy(slashed(paths[k]@)),
        is_glob_match(used_pattern(pattern), slashed(paths[k]@)),
    ensures
        exists|i: int| 0 <= i < r.len() && (#[trigger] r[i])@ == slashed(paths[k]@),
{
    let used = used_pattern(pattern);
    let given = listed_paths(paths);
    let found = hits(used, given, used_limit(limit), paths.len() as int);
    let order = order_of(text_ranks(found));
    hits_are_counted(used, given, used_limit(limit), paths.len() as int);
    assert(given[k] == slashed(paths[k]@));
    assert(found.contains(given[k]));
    let q = choose|q: int| 0 <= q < found.len() && found[q] == given[k];
    assert(order.contains(q as usize));
    let i = choose|i: int| 0 <= i < order.len() && order[i] == q as usize;
    assert(r[i]@ == found[order[i] as int]);
}

proof fn selected_files_are_ordered(
    paths: Seq<String>,
    pattern: Seq<char>,
    limit: usize,
    r: Seq<String>,
    i: int,
    j: int,
)
    requires
        selecting(paths, pattern, limit, r),
        0 <= i < j < r.len(),
    ensures
        text_lt(r[i]@, r[j]@) || r[i]@ == r[j]@,
{
    let found = hits(
        used_pattern(pattern),
        listed_paths(paths),
        used_limit(limit),
        paths.len() as int,
    );
    let keys = text_ranks(found);
    let order = order_of(keys);
    assert(listed_before(keys, order[i] as int, order[j] as int));
    assert(r[i]@ == found[order[i] as int]);
    assert(r[j]@ == found[order[j] as int]);
    text_lt_irreflexive(Seq::empty());
}

proof fn quiet_files_lie_elsewhere(f: Seq<char>)
    requires
        !is_noisy(f),
    ensures
        !lies_under(f, "node_modules"@),
        !lies_under(f, "target"@),
        !lies_under(f, ".git"@),
        !lies_under(f, "dist"@),
        !lies_under(f, "build"@),
        !lies_under(f, ".next"@),
        !lies_under(f, "vendor"@),
{
    under_is_part(f, "node_modules"@);
    under_is_part(f, "target"@);
    under_is_part(f, ".git"@);
    under_is_part(f, "dist"@);
    under_is_part(f, "build"@);
    under_is_part(f, ".next"@);
    under_is_part(f, "vendor"@);
}

proof fn under_is_part(f: Seq<char>, name: Seq<char>)
    ensures
        lies_under(f, name) ==> has_part(f, name),
{
    if lies_under(f, name) {
        let i = choose|i: int|
            {
                &&& 0 <= i
                &&& i + name.len() <= f.len()
                &&& #[trigger] f.subrange(i, i + name.len()) == name
                &&& i == 0 || f[i - 1] == '/'
                &&& i + name.len() == f.len() || f[i + name.len()] == '/'
            };
        assert(has_part_at(f, name, i));
    }
}

} // verus!
