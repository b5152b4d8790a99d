//! File patterns and the choice of files that match one.
//!
//! `?` stands for one character and `*` for any run of characters, neither for
//! a slash; `**` stands for any run, slashes too.

use crate::order::{is_order, order_of, ranks, sorted_order, Rank, SortKey};
use crate::text::{
    chars_to_string, contains_text, copy, has_prefix, occurs_at, str_contains, 
    str_has_char, str_starts_with, to_chars, trim, trimmed,
};
use vstd::prelude::*;
use vstd::string::*;

verus! {

/// A run of characters without a slash.
pub open spec fn is_plain(s: Seq<char>) -> bool {
    forall|i: int| 0 <= i < s.len() ==> #[trigger] s[i] != '/'
}

/// The first `k` characters of `s` may stand for a star, or for two.
pub open spec fn run_fits(s: Seq<char>, k: int, two: bool) -> bool {
    0 <= k <= s.len() && (two || is_plain(s.take(k)))
}

/// The pattern begins with two stars.
pub open spec fn two_stars(p: Seq<char>) -> bool {
    p.len() >= 2 && p[0] == '*' && p[1] == '*'
}

/// The pattern `p` matches all of `s`.
pub open spec fn fits(p: Seq<char>, s: Seq<char>) -> bool
    decreases p.len(),
{
    if p.len() == 0 {
        s.len() == 0
    } else if p[0] == '*' {
        let rest = if two_stars(p) {
            p.skip(2)
        } else {
            p.skip(1)
        };
        exists|k: int| #[trigger] run_fits(s, k, two_stars(p)) && fits(rest, s.skip(k))
    } else {
        s.len() > 0 && (p[0] == '?' && s[0] != '/' || p[0] != '?' && p[0] == s[0]) && fits(
            p.skip(1),
            s.skip(1),
        )
    }
}

fn match_rec(pat: &Vec<char>, pi: usize, s: &Vec<char>, si: usize) -> (r: bool)
    requires
        pi <= pat@.len(),
        si <= s@.len(),
    ensures
        r == fits(pat@.skip(pi as int), s@.skip(si as int)),
    decreases pat@.len() - pi,
{
    let n: usize = pat.len();
    let m: usize = s.len();
    let ghost p = pat@.skip(pi as int);
    let ghost t = s@.skip(si as int);
    if pi == n {
        return si == m;
    }
    let c: char = pat[pi];
    proof {
        assert(p[0] == c);
    }
    if c == '*' {
        let two: bool = pi + 1 < n && pat[pi + 1] == '*';
        let next: usize = if two {
            pi + 2
        } else {
            pi + 1
        };
        let ghost rest = pat@.skip(next as int);
        proof {
            assert(two == two_stars(p));
            assert(rest =~= if two {
                p.skip(2)
            } else {
                p.skip(1)
            });
        }
        let mut i: usize = si;
        loop
            invariant
                si <= i <= m,
                m == s@.len(),
                pi < next <= pat@.len(),
                t == s@.skip(si as int),
                rest == pat@.skip(next as int),
                p == pat@.skip(pi as int),
                p.len() > 0,
                p[0] == '*',
                two == two_stars(p),
                rest == if two {
                    p.skip(2)
                } else {
                    p.skip(1)
                },
                run_fits(t, i - si, two),
                forall|k: int|
                    0 <= k < i - si ==> !(#[trigger] run_fits(t, k, two) && fits(rest, t.skip(k))),
            ensures
                !(exists|k: int| #[trigger] run_fits(t, k, two) && fits(rest, t.skip(k))),
            decreases m - i,
        {
            proof {
                assert(t.skip(i - si) =~= s@.skip(i as int));
            }
            if match_rec(pat, next, s, i) {
                proof {
                    assert(run_fits(t, i - si, two_stars(p)) && fits(rest, t.skip(i - si)));
                }
                return true;
            }
            if i >= m {
                break;
            }
            if !two && s[i] == '/' {
                proof {
                    assert forall|k: int| !(#[trigger] run_fits(t, k, two) && fits(rest, t.skip(k))) by {
                        if run_fits(t, k, two) && k > i - si {
                            assert(t.take(k)[i - si] == s@[i as int]);
                        }
                    }
                }
                break;
            }
            proof {
                let before = t.take(i - si);
                let after = t.take(i - si + 1);
                if !two {
                    assert forall|j: int| 0 <= j < after.len() implies #[trigger] after[j] != '/' by {
                        if j < before.len() {
                            assert(after[j] == before[j]);
                        } else {
                            assert(after[j] == s@[i as int]);
                        }
                    }
                }
                assert(run_fits(t, i - si + 1, two));
            }
            i = i + 1;
        }
        return false;
    }
    if si == m {
        return false;
    }
    proof {
        assert(t[0] == s@[si as int]);
        assert(p.skip(1) =~= pat@.skip(pi as int + 1));
        assert(t.skip(1) =~= s@.skip(si as int + 1));
    }
    let same: bool = if c == '?' {
        s[si] != '/'
    } else {
        s[si] == c
    };
    same && match_rec(pat, pi + 1, s, si + 1)
}

/// Whether a pattern matches all of a path.
pub fn path_matches_simple(pattern: &str, path: &str) -> (r: bool)
    ensures
        r == fits(pattern@, path@),
{
    let p: Vec<char> = to_chars(pattern);
    let s: Vec<char> = to_chars(path);
    proof {
        assert(p@.skip(0) =~= p@);
        assert(s@.skip(0) =~= s@);
    }
    match_rec(&p, 0, &s, 0)
}

/// `s` without a text at its start, however often it stands there.
pub open spec fn without_leading(s: Seq<char>, p: Seq<char>) -> Seq<char>
    decreases s.len(),
{
    if p.len() > 0 && has_prefix(s, p) {
        without_leading(s.skip(p.len() as int), p)
    } else {
        s
    }
}

fn trim_start_text(s: &str, p: &str) -> (r: String)
    ensures
        r@ == without_leading(s@, p@),
    decreases s@.len(),
{
    if !p.is_empty() && str_starts_with(s, p) {
        let v: Vec<char> = to_chars(s);
        let n: usize = v.len();
        let from: usize = to_chars(p).len();
        proof {
            assert(v@.subrange(from as int, n as int) =~= s@.skip(p@.len() as int));
        }
        let rest: String = chars_to_string(&v, from, n);
        trim_start_text(rest.as_str(), p)
    } else {
        copy(s)
    }
}

/// The name of a path: what follows its last slash.
pub open spec fn base_name(s: Seq<char>) -> Seq<char>
    decreases s.len(),
{
    if s.len() == 0 || s.last() == '/' {
        Seq::empty()
    } else {
        base_name(s.drop_last()).push(s.last())
    }
}

fn name_of(s: &str) -> (r: String)
    ensures
        r@ == base_name(s@),
{
    let v: Vec<char> = to_chars(s);
    let n: usize = v.len();
    let mut i: usize = n;
    proof {
        assert(v@.take(n as int) =~= v@);
        assert(base_name(v@.take(n as int)) + v@.skip(n as int) =~= base_name(v@));
    }
    while i > 0 && v[i - 1] != '/'
        invariant
            i <= n,
            n == v@.len(),
            base_name(v@) == base_name(v@.take(i as int)) + v@.skip(i as int),
        decreases i,
    {
        proof {
            assert(v@.take(i as int).drop_last() =~= v@.take(i as int - 1));
            assert(base_name(v@.take(i as int)) + v@.skip(i as int) =~= base_name(
                v@.take(i as int - 1),
            ) + v@.skip(i as int - 1));
        }
        i = i - 1;
    }
    proof {
        assert(base_name(v@.take(i as int)) =~= Seq::<char>::empty());
        assert(v@.subrange(i as int, n as int) =~= base_name(v@));
    }
    chars_to_string(&v, i, n)
}

/// A pattern matches a path. A pattern that begins with `**/` also matches below
/// any directory, and one such as `*.rs` matches names at any depth.
pub open spec fn is_glob_match(pattern: Seq<char>, path: Seq<char>) -> bool {
    let pat = without_leading(pattern, "/"@);
    let file = without_leading(path, "/"@);
    let name = base_name(file);
    if has_prefix(pat, "**/"@) {
        let rest = pat.skip(3);
        ||| fits(pat, file)
        ||| fits(rest, file)
        ||| fits(without_leading(rest, "*/"@), name)
        ||| fits(rest, name)
    } else if has_prefix(pat, "*."@) && !pat.contains('/') && !contains_text(pat, "**"@) {
        fits(pat, name)
    } else if has_prefix(pat, "*."@) && !pat.contains('/') {
        fits(pat, name) || fits(pat, file)
    } else {
        fits(pat, file)
    }
}

/// Whether a pattern matches a path.
pub fn glob_match(pattern: &str, path: &str) -> (r: bool)
    ensures
        r == is_glob_match(pattern@, path@),
{
    let pat: String = trim_start_text(pattern, "/");
    let file: String = trim_start_text(path, "/");
    let name: String = name_of(file.as_str());
    if str_starts_with(pat.as_str(), "**/") {
        let v: Vec<char> = to_chars(pat.as_str());
        let n: usize = v.len();
        proof {
            reveal_strlit("**/");
            assert(v@.subrange(3, n as int) =~= pat@.skip(3));
        }
        let rest: String = chars_to_string(&v, 3, n);
        let inner: String = trim_start_text(rest.as_str(), "*/");
        return path_matches_simple(pat.as_str(), file.as_str()) || path_matches_simple(
            rest.as_str(),
            file.as_str(),
        ) || path_matches_simple(inner.as_str(), name.as_str()) || path_matches_simple(
            rest.as_str(),
            name.as_str(),
        );
    }
    if str_starts_with(pat.as_str(), "*.") && !str_has_char(pat.as_str(), '/') {
        if path_matches_simple(pat.as_str(), name.as_str()) {
            return true;
        }
        return str_contains(pat.as_str(), "**") && path_matches_simple(
            pat.as_str(),
            file.as_str(),
        );
    }
    path_matches_simple(pat.as_str(), file.as_str())
}

/// A star never stands for a slash: a pattern without slashes and without two
/// stars in a row matches no path with a slash in full.
pub proof fn stars_stay_in_their_directory(p: Seq<char>, s: Seq<char>)
    requires
        fits(p, s),
        forall|i: int| 0 <= i < p.len() ==> #[trigger] p[i] != '/',
        forall|i: int| 0 <= i < p.len() - 1 ==> !(#[trigger] p[i] == '*' && p[i + 1] == '*'),
    ensures
        is_plain(s),
    decreases p.len(),
{
    if p.len() > 0 {
        if p[0] == '*' {
            if two_stars(p) {
                let first: int = 0;
                assert(p[first] == '*' && p[first + 1] == '*');
            }
            let k = choose|k: int| #[trigger] run_fits(s, k, two_stars(p)) && fits(p.skip(1), s.skip(k));
            stars_stay_in_their_directory(p.skip(1), s.skip(k));
            assert forall|i: int| 0 <= i < s.len() implies #[trigger] s[i] != '/' by {
                if i < k {
                    assert(s.take(k)[i] == s[i]);
                } else {
                    assert(s.skip(k)[i - k] == s[i]);
                }
            }
        } else {
            stars_stay_in_their_directory(p.skip(1), s.skip(1));
            assert forall|i: int| 0 <= i < s.len() implies #[trigger] s[i] != '/' by {
                if i > 0 {
                    assert(s.skip(1)[i - 1] == s[i]);
                } else {
                    assert(p[0] != '/');
                }
            }
        }
    }
}

/// A path without backslashes.
pub open spec fn slashed(s: Seq<char>) -> Seq<char> {
    Seq::new(
        s.len(),
        |i: int|
            if s[i] == '\\' {
                '/'
            } else {
                s[i]
            },
    )
}

/// A path with slashes in place of backslashes.
pub fn with_slashes(path: &str) -> (r: String)
    ensures
        r@ == slashed(path@),
{
    let v: Vec<char> = to_chars(path);
    let mut out: String = String::new();
    let mut i: usize = 0;
    proof {
        assert(out@ =~= slashed(path@).take(0));
    }
    while i < v.len()
        invariant
            v@ == path@,
            i <= v@.len(),
            out@ == slashed(path@).take(i as int),
        decreases v.len() - i,
    {
        let c: char = v[i];
        out.push(
            if c == '\\' {
                '/'
            } else {
                c
            },
        );
        i = i + 1;
        proof {
            assert(out@ =~= slashed(path@).take(i as int));
        }
    }
    proof {
        assert(slashed(path@).take(path@.len() as int) =~= slashed(path@));
    }
    out
}

/// `part` is one of the names that a path is made of.
pub open spec fn has_part_at(path: Seq<char>, part: Seq<char>, i: int) -> bool {
    &&& occurs_at(path, part, i)
    &&& i == 0 || path[i - 1] == '/'
    &&& i + part.len() == path.len() || path[i + part.len()] == '/'
}

/// `part` is one of the names that a path is made of.
pub open spec fn has_part(path: Seq<char>, part: Seq<char>) -> bool {
    exists|i: int| has_part_at(path, part, i)
}

/// A path through a directory that is never looked into.
pub open spec fn is_noisy(path: Seq<char>) -> bool {
    ||| has_part(path, "node_modules"@)
    ||| has_part(path, "target"@)
    ||| has_part(path, ".git"@)
    ||| has_part(path, "dist"@)
    ||| has_part(path, "build"@)
    ||| has_part(path, ".next"@)
    ||| has_part(path, "vendor"@)
}

fn path_has_part(path: &Vec<char>, part: &str) -> (r: bool)
    requires
        part@.len() > 0,
    ensures
        r == has_part(path@, part@),
{
    let w: Vec<char> = to_chars(part);
    let n: usize = path.len();
    let m: usize = w.len();
    let mut i: usize = 0;
    while i < n
        invariant
            i <= n,
            n == path@.len(),
            m == w@.len(),
            w@ == part@,
            forall|j: int| 0 <= j < i ==> !has_part_at(path@, part@, j),
        decreases n - i,
    {
        if m <= n - i {
            let mut k: usize = 0;
            while k < m && path[i + k] == w[k]
                invariant
                    i + m <= n,
                    n == path@.len(),
                    m == w@.len(),
                    k <= m,
                    forall|j: int| 0 <= j < k ==> path@[i + j] == w@[j],
                decreases m - k,
            {
                k = k + 1;
            }
            proof {
                if k == m {
                    assert(path@.subrange(i as int, i + m) =~= part@);
                } else {
                    assert(path@.subrange(i as int, i + m)[k as int] != part@[k as int]);
                }
            }
            if k == m && (i == 0 || path[i - 1] == '/') && (i + m == n || path[i + m] == '/') {
                proof {
                    assert(has_part_at(path@, part@, i as int));
                }
                return true;
            }
        }
        i = i + 1;
    }
    proof {
        assert forall|j: int| !has_part_at(path@, part@, j) by {
            if j >= n {
                assert(!occurs_at(path@, part@, j));
            }
        }
    }
    false
}

fn noisy(path: &str) -> (r: bool)
    ensures
        r == is_noisy(path@),
{
    let v: Vec<char> = to_chars(path);
    proof {
        reveal_strlit("node_modules");
        reveal_strlit("target");
        reveal_strlit(".git");
        reveal_strlit("dist");
        reveal_strlit("build");
        reveal_strlit(".next");
        reveal_strlit("vendor");
    }
    path_has_part(&v, "node_modules") || path_has_part(&v, "target") || path_has_part(&v, ".git")
        || path_has_part(&v, "dist") || path_has_part(&v, "build") || path_has_part(&v, ".next")
        || path_has_part(&v, "vendor")
}

/// The paths, as they are matched and listed.
pub open spec fn listed_paths(paths: Seq<String>) -> Seq<Seq<char>> {
    Seq::new(paths.len(), |i: int| slashed(paths[i]@))
}

/// A path that is listed for a pattern.
pub open spec fn is_hit(pattern: Seq<char>, path: Seq<char>) -> bool {
    !is_noisy(path) && is_glob_match(pattern, path)
}

/// The first `limit` paths among the first `n` that are listed for a pattern.
pub open spec fn hits(pattern: Seq<char>, paths: Seq<Seq<char>>, limit: nat, n: int) -> Seq<
    Seq<char>,
>
    decreases n,
{
    if n <= 0 {
        Seq::empty()
    } else {
        let before = hits(pattern, paths, limit, n - 1);
        if before.len() < limit && is_hit(pattern, paths[n - 1]) {
            before.push(paths[n - 1])
        } else {
            before
        }
    }
}

/// The pattern as it is used: without white space around it and without `./` at
/// its start.
pub open spec fn used_pattern(pattern: Seq<char>) -> Seq<char> {
    without_leading(trimmed(pattern), "./"@)
}

/// How many files are listed: at least one and at most 500.
pub open spec fn used_limit(limit: usize) -> nat {
    if limit < 1 {
        1
    } else if limit > 500 {
        500
    } else {
        limit as nat
    }
}

/// Texts as keys.
pub open spec fn text_ranks(texts: Seq<Seq<char>>) -> Seq<Rank> {
    Seq::new(
        texts.len(),
        |i: int| Rank { rank: 0, minor: 0, first: texts[i], second: Seq::empty() },
    )
}

proof fn hits_stop(
    pattern: Seq<char>,
    paths: Seq<Seq<char>>,
    limit: nat,
    n: int,
    m: int,
)
    requires
        0 <= n <= m,
        hits(pattern, paths, limit, n).len() >= limit,
    ensures
        hits(pattern, paths, limit, m) == hits(pattern, paths, limit, n),
    decreases m - n,
{
    if n < m {
        hits_stop(pattern, paths, limit, n, m - 1);
    }
}

/// What is selected of the paths.
pub open spec fn selecting(
    paths: Seq<String>,
    pattern: Seq<char>,
    limit: usize,
    r: Seq<String>,
) -> bool {
    let found = hits(
        used_pattern(pattern),
        listed_paths(paths),
        used_limit(limit),
        paths.len() as int,
    );
    let order = order_of(text_ranks(found));
    &&& r.len() == found.len()
    &&& is_order(text_ranks(found), order)
    &&& forall|i: int| 0 <= i < r.len() ==> (#[trigger] r[i])@ == found[order[i] as int]
}

/// The files that match a pattern, in order. `paths` are all files below a
/// directory, as they were found; the first that match are taken.
pub fn select_files(paths: &Vec<String>, pattern: &str, limit: usize) -> (r: Vec<String>)
    ensures
        selecting(
            paths@,
            pattern@,
            limit,
            r@,
        ),
{
    let most: usize = if limit < 1 {
        1
    } else if limit > 500 {
        500
    } else {
        limit
    };
    let pat: String = trim_start_text(trim(pattern).as_str(), "./");
    let ghost all = listed_paths(paths@);
    let mut found: Vec<String> = Vec::new();
    let mut keys: Vec<SortKey> = Vec::new();
    let mut i: usize = 0;
    let n: usize = paths.len();
    proof {
        assert(crate::json::texts(found@) =~= hits(pat@, all, most as nat, 0));
    }
    while i < n && found.len() < most
        invariant
            i <= n,
            n == paths@.len(),
            all == listed_paths(paths@),
            crate::json::texts(found@) == hits(pat@, all, most as nat, i as int),
            keys@.len() == found@.len(),
            found@.len() <= most,
            forall|j: int|
                0 <= j < keys@.len() ==> (#[trigger] keys@[j])@ == (Rank {
                    rank: 0,
                    minor: 0,
                    first: found@[j]@,
                    second: Seq::empty(),
                }),
        decreases n - i,
    {
        let path: String = with_slashes(paths[i].as_str());
        proof {
            assert(all[i as int] == path@);
        }
        if !noisy(path.as_str()) && glob_match(pat.as_str(), path.as_str()) {
            let ghost before = crate::json::texts(found@);
            let key = SortKey { rank: 0, minor: 0, first: path.clone(), second: String::new() };
            proof {
                assert(key.second@ =~= Seq::<char>::empty());
            }
            keys.push(key);
            found.push(path);
            proof {
                assert(crate::json::texts(found@) =~= before.push(path@));
            }
        }
        i = i + 1;
    }
    proof {
        assert(crate::json::texts(found@).len() == found@.len());
        if i < n {
            hits_stop(pat@, all, most as nat, i as int, n as int);
        }
        assert(ranks(keys@) =~= text_ranks(crate::json::texts(found@)));
    }
    let order: Vec<usize> = sorted_order(&keys);
    let mut out: Vec<String> = Vec::new();
    let mut k: usize = 0;
    while k < order.len()
        invariant
            k <= order@.len(),
            order@.len() == found@.len(),
            forall|j: int| 0 <= j < order@.len() ==> 0 <= #[trigger] order@[j] < found@.len(),
            out@.len() == k,
            forall|j: int| 0 <= j < k ==> (#[trigger] out@[j])@ == found@[order@[j] as int]@,
        decreases order.len() - k,
    {
        out.push(found[order[k]].clone());
        k = k + 1;
    }
    out
}

} // verus!
