//! Stable ordering of records by two numbers and two texts.

use crate::text::{
    str_eq, str_lt, text_lt, text_lt_irreflexive, text_lt_total, text_lt_transitive,
};
use vstd::prelude::*;
use vstd::string::*;

verus! {

/// What a record is ordered by: the numbers first, then the texts.
#[derive(Debug)]
pub struct SortKey {
    pub rank: i128,
    pub minor: i128,
    pub first: String,
    pub second: String,
}

/// A key as a value of the specification.
pub struct Rank {
    pub rank: int,
    pub minor: int,
    pub first: Seq<char>,
    pub second: Seq<char>,
}

impl View for SortKey {
    type V = Rank;

    open spec fn view(&self) -> Rank {
        Rank {
            rank: self.rank as int,
            minor: self.minor as int,
            first: self.first@,
            second: self.second@,
        }
    }
}

/// The keys of a list.
pub open spec fn ranks(keys: Seq<SortKey>) -> Seq<Rank> {
    Seq::new(keys.len(), |i: int| keys[i]@)
}

/// The key `a` comes before the key `b`.
pub open spec fn key_lt(a: Rank, b: Rank) -> bool {
    a.rank < b.rank || (a.rank == b.rank && (a.minor < b.minor || (a.minor == b.minor && (text_lt(
        a.first,
        b.first,
    ) || (a.first == b.first && text_lt(a.second, b.second))))))
}

fn lt(a: &SortKey, b: &SortKey) -> (r: bool)
    ensures
        r == key_lt(a@, b@),
{
    if a.rank != b.rank {
        return a.rank < b.rank;
    }
    if a.minor != b.minor {
        return a.minor < b.minor;
    }
    if !str_eq(a.first.as_str(), b.first.as_str()) {
        return str_lt(a.first.as_str(), b.first.as_str());
    }
    proof {
        text_lt_irreflexive(a.first@);
    }
    str_lt(a.second.as_str(), b.second.as_str())
}

proof fn key_lt_transitive(a: Rank, b: Rank, c: Rank)
    requires
        key_lt(a, b),
        key_lt(b, c),
    ensures
        key_lt(a, c),
{
    if a.rank == b.rank && b.rank == c.rank && a.minor == b.minor && b.minor == c.minor {
        if text_lt(a.first, b.first) && text_lt(b.first, c.first) {
            text_lt_transitive(a.first, b.first, c.first);
        }
        if text_lt(a.second, b.second) && text_lt(b.second, c.second) {
            text_lt_transitive(a.second, b.second, c.second);
        }
    }
}

proof fn key_lt_total(a: Rank, b: Rank)
    ensures
        key_lt(a, b) || a == b || key_lt(b, a),
{
    text_lt_total(a.first, b.first);
    text_lt_total(a.second, b.second);
}

/// The record at `a` is listed before the one at `b`: by their keys, and in
/// the given order where the keys are alike.
pub open spec fn listed_before(keys: Seq<Rank>, a: int, b: int) -> bool {
    key_lt(keys[a], keys[b]) || (keys[a] == keys[b] && a < b)
}

/// `order` lists all positions, each once, in the order of their keys.
pub open spec fn is_order(keys: Seq<Rank>, order: Seq<usize>) -> bool {
    &&& order.len() == keys.len()
    &&& forall|i: int| 0 <= i < order.len() ==> 0 <= #[trigger] order[i] < keys.len()
    &&& forall|i: int, j: int|
        0 <= i < j < order.len() ==> listed_before(
            keys,
            #[trigger] order[i] as int,
            #[trigger] order[j] as int,
        )
    &&& forall|k: usize| k < keys.len() ==> #[trigger] order.contains(k)
}

/// The order of these keys.
pub open spec fn order_of(keys: Seq<Rank>) -> Seq<usize> {
    choose|order: Seq<usize>| is_order(keys, order)
}

/// The positions in the order of their keys; equal keys keep their order.
pub fn sorted_order(keys: &Vec<SortKey>) -> (order: Vec<usize>)
    ensures
        order@ == order_of(ranks(keys@)),
        is_order(ranks(keys@), order@),
{
    let ghost all = ranks(keys@);
    let mut order: Vec<usize> = Vec::new();
    let mut n: usize = 0;
    while n < keys.len()
        invariant
            n <= keys@.len(),
            all == ranks(keys@),
            order@.len() == n,
            forall|i: int| 0 <= i < order@.len() ==> 0 <= #[trigger] order@[i] < n,
            forall|i: int, j: int|
                0 <= i < j < order@.len() ==> listed_before(
                    all,
                    #[trigger] order@[i] as int,
                    #[trigger] order@[j] as int,
                ),
            forall|k: usize| k < n ==> #[trigger] order@.contains(k),
        decreases keys.len() - n,
    {
        let mut p: usize = order.len();
        while p > 0 && lt(&keys[n], &keys[order[p - 1]])
            invariant
                p <= order@.len(),
                n < keys@.len(),
                all == ranks(keys@),
                order@.len() == n,
                forall|i: int| 0 <= i < order@.len() ==> 0 <= #[trigger] order@[i] < n,
                forall|i: int|
                    p <= i < order@.len() ==> key_lt(
                        all[n as int],
                        all[#[trigger] order@[i] as int],
                    ),
            decreases p,
        {
            p = p - 1;
        }
        let ghost before = order@;
        order.insert(p, n);
        proof {
            assert(order@ =~= before.insert(p as int, n));
            if p > 0 {
                key_lt_total(all[n as int], all[before[p - 1] as int]);
            }
            assert forall|i: int| 0 <= i < p implies listed_before(
                all,
                #[trigger] before[i] as int,
                n as int,
            ) by {
                if i < p - 1 {
                    let a = before[i] as int;
                    let b = before[p - 1] as int;
                    assert(listed_before(all, a, b));
                    if key_lt(all[a], all[b]) && key_lt(all[b], all[n as int]) {
                        key_lt_transitive(all[a], all[b], all[n as int]);
                    }
                }
            }
            assert forall|i: int, j: int| 0 <= i < j < order@.len() implies listed_before(
                all,
                #[trigger] order@[i] as int,
                #[trigger] order@[j] as int,
            ) by {
                if j < p {
                    assert(order@[i] == before[i] && order@[j] == before[j]);
                } else if j == p {
                    assert(order@[i] == before[i]);
                } else if i < p {
                    assert(order@[i] == before[i] && order@[j] == before[j - 1]);
                } else if i == p {
                    assert(order@[j] == before[j - 1]);
                } else {
                    assert(order@[i] == before[i - 1] && order@[j] == before[j - 1]);
                }
            }
            assert forall|k: usize| k < n + 1 implies #[trigger] order@.contains(k) by {
                if k < n {
                    assert(before.contains(k));
                    let q = choose|q: int| 0 <= q < before.len() && before[q] == k;
                    if q < p {
                        assert(order@[q] == k);
                    } else {
                        assert(order@[q + 1] == k);
                    }
                } else {
                    assert(order@[p as int] == k);
                }
            }
        }
        n = n + 1;
    }
    proof {
        assert(is_order(all, order@));
        order_is_unique(all, order@, order_of(all));
    }
    order
}

proof fn listed_once(keys: Seq<Rank>, a: int, b: int)
    requires
        listed_before(keys, a, b),
    ensures
        !listed_before(keys, b, a),
{
    text_lt_irreflexive(keys[a].first);
    text_lt_irreflexive(keys[a].second);
    if key_lt(keys[a], keys[b]) && key_lt(keys[b], keys[a]) {
        key_lt_transitive(keys[a], keys[b], keys[a]);
    }
}

/// No position is listed twice.
pub proof fn listing_is_strict(keys: Seq<Rank>, order: Seq<usize>, a: int, b: int)
    requires
        is_order(keys, order),
        0 <= a < b < order.len(),
    ensures
        order[a] != order[b],
{
    assert(listed_before(keys, order[a] as int, order[b] as int));
    listed_once(keys, order[a] as int, order[b] as int);
}

/// There is only one such order.
pub proof fn order_is_unique(keys: Seq<Rank>, a: Seq<usize>, b: Seq<usize>)
    requires
        is_order(keys, a),
        is_order(keys, b),
    ensures
        a == b,
{
    if a != b {
        assert(a.len() == b.len());
        let i = first_difference(a, b, 0);
        assert(a[i] != b[i]);
        assert(b.contains(a[i]));
        assert(a.contains(b[i]));
        let j = choose|j: int| 0 <= j < b.len() && b[j] == a[i];
        let k = choose|k: int| 0 <= k < a.len() && a[k] == b[i];
        if j < i {
            assert(a[j] == b[j]);
            assert(listed_before(keys, a[j] as int, a[i] as int));
            listed_once(keys, a[j] as int, a[i] as int);
        } else if k < i {
            assert(b[k] == a[k]);
            assert(listed_before(keys, b[k] as int, b[i] as int));
            listed_once(keys, b[k] as int, b[i] as int);
        } else {
            assert(listed_before(keys, b[i] as int, b[j] as int));
            assert(listed_before(keys, a[i] as int, a[k] as int));
            listed_once(keys, a[i] as int, b[i] as int);
        }
    }
}

proof fn first_difference(a: Seq<usize>, b: Seq<usize>, from: int) -> (i: int)
    requires
        a.len() == b.len(),
        a != b,
        0 <= from <= a.len(),
        forall|j: int| 0 <= j < from ==> a[j] == b[j],
    ensures
        0 <= i < a.len(),
        a[i] != b[i],
        forall|j: int| 0 <= j < i ==> a[j] == b[j],
    decreases a.len() - from,
{
    if from == a.len() {
        assert(a =~= b);
        from
    } else if a[from] != b[from] {
        from
    } else {
        first_difference(a, b, from + 1)
    }
}

/// How many of the first `n` listed positions come before the key.
spec fn place(keys: Seq<Rank>, order: Seq<usize>, key: Rank, n: int) -> int
    decreases n,
{
    if n <= 0 || !key_lt(key, keys[order[n - 1] as int]) {
        n
    } else {
        place(keys, order, key, n - 1)
    }
}

proof fn place_splits(keys: Seq<Rank>, order: Seq<usize>, key: Rank, n: int)
    requires
        0 <= n <= order.len(),
    ensures
        0 <= place(keys, order, key, n) <= n,
        forall|i: int|
            place(keys, order, key, n) <= i < n ==> key_lt(key, keys[#[trigger] order[i] as int]),
        place(keys, order, key, n) > 0 ==> !key_lt(
            key,
            keys[order[place(keys, order, key, n) - 1] as int],
        ),
    decreases n,
{
    if n > 0 && key_lt(key, keys[order[n - 1] as int]) {
        place_splits(keys, order, key, n - 1);
    }
}

/// Every list has an order.
pub proof fn every_list_has_an_order(keys: Seq<Rank>)
    requires
        keys.len() <= usize::MAX,
    ensures
        is_order(keys, order_of(keys)),
    decreases keys.len(),
{
    if keys.len() == 0 {
        assert(is_order(keys, Seq::<usize>::empty()));
    } else {
        let rest = keys.drop_last();
        every_list_has_an_order(rest);
        let before = order_of(rest);
        let n = (keys.len() - 1) as usize;
        let p = place(keys, before, keys.last(), before.len() as int);
        place_splits(keys, before, keys.last(), before.len() as int);
        let order = before.insert(p, n);
        assert forall|i: int, j: int| 0 <= i < j < before.len() implies listed_before(
            keys,
            #[trigger] before[i] as int,
            #[trigger] before[j] as int,
        ) by {
            assert(listed_before(rest, before[i] as int, before[j] as int));
        }
        if p > 0 {
            key_lt_total(keys[n as int], keys[before[p - 1] as int]);
        }
        assert forall|i: int| 0 <= i < p implies listed_before(
            keys,
            #[trigger] before[i] as int,
            n as int,
        ) by {
            if i < p - 1 {
                let a = before[i] as int;
                let b = before[p - 1] as int;
                assert(listed_before(keys, a, b));
                if key_lt(keys[a], keys[b]) && key_lt(keys[b], keys[n as int]) {
                    key_lt_transitive(keys[a], keys[b], keys[n as int]);
                }
            }
        }
        assert forall|i: int, j: int| 0 <= i < j < order.len() implies listed_before(
            keys,
            #[trigger] order[i] as int,
            #[trigger] order[j] as int,
        ) by {
            if j < p {
                assert(order[i] == before[i] && order[j] == before[j]);
            } else if j == p {
                assert(order[i] == before[i]);
            } else if i < p {
                assert(order[i] == before[i] && order[j] == before[j - 1]);
            } else if i == p {
                assert(order[j] == before[j - 1]);
            } else {
                assert(order[i] == before[i - 1] && order[j] == before[j - 1]);
            }
        }
        assert forall|k: usize| k < keys.len() implies #[trigger] order.contains(k) by {
            if k < n {
                assert(before.contains(k));
                let q = choose|q: int| 0 <= q < before.len() && before[q] == k;
                if q < p {
                    assert(order[q] == k);
                } else {
                    assert(order[q + 1] == k);
                }
            } else {
                assert(order[p] == k);
            }
        }
        assert forall|i: int| 0 <= i < order.len() implies 0 <= #[trigger] order[i] < keys.len() by {
            if i < p {
                assert(order[i] == before[i]);
            } else if i > p {
                assert(order[i] == before[i - 1]);
            }
        }
        assert(is_order(keys, order));
    }
}

/// The position of the first text equal to `id`, from `i` on.
pub open spec fn position_from(ids: Seq<Seq<char>>, id: Seq<char>, i: int) -> Option<int>
    decreases ids.len() - i,
{
    if i < 0 || i >= ids.len() {
        None
    } else if ids[i] == id {
        Some(i)
    } else {
        position_from(ids, id, i + 1)
    }
}

/// The position of the first text equal to `id`.
pub open spec fn position(ids: Seq<Seq<char>>, id: Seq<char>) -> Option<int> {
    position_from(ids, id, 0)
}

/// A position found is the first of its kind, and one is found if there is any.
pub proof fn position_is_first(ids: Seq<Seq<char>>, id: Seq<char>, from: int)
    requires
        0 <= from <= ids.len(),
    ensures
        match position_from(ids, id, from) {
            Some(i) => from <= i < ids.len() && ids[i] == id && forall|j: int|
                from <= j < i ==> #[trigger] ids[j] != id,
            None => forall|j: int| from <= j < ids.len() ==> #[trigger] ids[j] != id,
        },
    decreases ids.len() - from,
{
    if from < ids.len() && ids[from] != id {
        position_is_first(ids, id, from + 1);
    }
}

/// No two texts are equal.
pub open spec fn all_distinct(ids: Seq<Seq<char>>) -> bool {
    forall|i: int, j: int| 0 <= i < j < ids.len() ==> #[trigger] ids[i] != #[trigger] ids[j]
}

/// Where no two texts are equal, each is found where it stands.
pub proof fn distinct_position(ids: Seq<Seq<char>>, i: int)
    requires
        all_distinct(ids),
        0 <= i < ids.len(),
    ensures
        position(ids, ids[i]) == Some(i),
{
    position_is_first(ids, ids[i], 0);
}

} // verus!
