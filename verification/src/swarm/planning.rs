//! What a plan of admissions promises: the order of dispatch, who is left out,
//! and how the room is used.

use crate::order::{
    all_distinct, every_list_has_an_order, listed_before, listing_is_strict, order_of,
    position_is_first,
};
use crate::swarm::scheduler::{
    admissible, admission_stop, candidates, candidates_are_items, declared, dispatch_order,
    dispatch_ranks, final_sends_bar_their_item, intents_of, is_intent, is_plan, last_send_is_final,
    one_more, placed, placed_is_no_longer, plans_admit_ready_items_only, room, smaller, some_failure, AdmissionBlock,
    AdmissionPlan,
};
use crate::swarm::spec::{work_at, work_ids, worker_at, worker_ids, WorkCapability};
use crate::swarm::state::{record_ids, slots_held, WorkGraphRecord, WorkRecord};
use crate::text::{text_lt, text_lt_irreflexive};
use vstd::prelude::*;

verus! {

/// The identity is declared at `x`, and nowhere before.
pub open spec fn declared_at(g: WorkGraphRecord, id: Seq<char>, x: int) -> bool {
    &&& 0 <= x < g.spec.work@.len()
    &&& g.spec.work@[x].work_id@ == id
    &&& forall|z: int| 0 <= z < x ==> (#[trigger] g.spec.work@[z]).work_id@ != id
}

/// Some worker has this identity.
pub open spec fn has_worker(g: WorkGraphRecord, id: Seq<char>) -> bool {
    exists|w: int| 0 <= w < g.spec.workers@.len() && (#[trigger] g.spec.workers@[w]).worker_id@ == id
}

/// The declaration at `x` goes before the one at `y`: by the higher priority
/// and, between equals, by the lower identity.
pub open spec fn goes_before(g: WorkGraphRecord, x: int, y: int) -> bool {
    let a = g.spec.work@[x];
    let b = g.spec.work@[y];
    a.priority > b.priority || (a.priority == b.priority && text_lt(a.work_id@, b.work_id@))
}

proof fn declared_where_found(g: WorkGraphRecord, id: Seq<char>, x: int)
    requires
        declared_at(g, id, x),
    ensures
        work_at(g.spec.work@, id) == Some(x),
{
    let ids = work_ids(g.spec.work@);
    position_is_first(ids, id, 0);
    assert(ids[x] == id);
    let k = work_at(g.spec.work@, id)->0;
    if k < x {
        assert(ids[k] == g.spec.work@[k].work_id@);
    }
}

proof fn worker_where_found(g: WorkGraphRecord, id: Seq<char>)
    ensures
        has_worker(g, id) == (worker_at(g.spec.workers@, id) is Some),
{
    let ids = worker_ids(g.spec.workers@);
    position_is_first(ids, id, 0);
    if worker_at(g.spec.workers@, id) is Some {
        let k = worker_at(g.spec.workers@, id)->0;
        assert(g.spec.workers@[k].worker_id@ == id);
    }
    if has_worker(g, id) {
        let w = choose|w: int|
            0 <= w < g.spec.workers@.len() && (#[trigger] g.spec.workers@[w]).worker_id@ == id;
        assert(ids[w] == id);
    }
}

proof fn candidates_are_all(g: WorkGraphRecord, n: int, i: int)
    requires
        0 <= i < n <= g.work@.len(),
        admissible(g, i),
    ensures
        candidates(g, n).contains(i),
    decreases n,
{
    if i == n - 1 {
        assert(candidates(g, n).last() == i);
    } else {
        candidates_are_all(g, n - 1, i);
        let q = candidates(g, n - 1);
        let k = choose|k: int| 0 <= k < q.len() && q[k] == i;
        assert(candidates(g, n)[k] == i);
    }
}

proof fn placed_keeps_order(g: WorkGraphRecord, items: Seq<int>, j: int, k: int) -> (at: (int, int))
    requires
        0 <= j < k < placed(g, items).len(),
    ensures
        0 <= at.0 < at.1 < items.len(),
        items[at.0] == placed(g, items)[j],
        items[at.1] == placed(g, items)[k],
    decreases items.len(),
{
    let rest = items.drop_last();
    let q = placed(g, rest);
    if k < q.len() {
        let at = placed_keeps_order(g, rest, j, k);
        assert(rest[at.0] == items[at.0] && rest[at.1] == items[at.1]);
        at
    } else {
        let a = placed_from(g, rest, j);
        assert(rest[a] == items[a]);
        (a, items.len() - 1)
    }
}

proof fn placed_from(g: WorkGraphRecord, items: Seq<int>, j: int) -> (a: int)
    requires
        0 <= j < placed(g, items).len(),
    ensures
        0 <= a < items.len(),
        items[a] == placed(g, items)[j],
{
    placed_is_no_longer(g, items);
    let p = placed(g, items);
    assert(items.contains(p[j]));
    choose|a: int| 0 <= a < items.len() && items[a] == p[j]
}

proof fn placed_where_staffed(g: WorkGraphRecord, items: Seq<int>, a: int) -> (j: int)
    requires
        0 <= a < items.len(),
        worker_at(g.spec.workers@, declared(g, items[a]).worker_id@) is Some,
    ensures
        0 <= j < placed(g, items).len(),
        placed(g, items)[j] == items[a],
    decreases items.len(),
{
    let rest = items.drop_last();
    if a < rest.len() {
        assert(rest[a] == items[a]);
        let j = placed_where_staffed(g, rest, a);
        assert(placed(g, items)[j] == placed(g, rest)[j]);
        j
    } else {
        placed(g, items).len() - 1
    }
}

proof fn dispatch_is_ordered(g: WorkGraphRecord)
    ensures
        forall|a: int|
            0 <= a < dispatch_order(g).len() ==> 0 <= #[trigger] dispatch_order(g)[a]
                < g.work@.len() && admissible(g, dispatch_order(g)[a]),
        forall|a: int, b: int|
            0 <= a < b < dispatch_order(g).len() ==> {
                let x = declared(g, #[trigger] dispatch_order(g)[a]);
                let y = declared(g, #[trigger] dispatch_order(g)[b]);
                x.priority > y.priority || (x.priority == y.priority && (text_lt(
                    x.work_id@,
                    y.work_id@,
                ) || x.work_id@ == y.work_id@))
            },
        forall|i: int|
            0 <= i < g.work@.len() && #[trigger] admissible(g, i) ==> dispatch_order(g).contains(i),
        dispatch_order(g).len() == candidates(g, g.work@.len() as int).len(),
{
    let n = g.work@.len() as int;
    let c = candidates(g, n);
    let keys = dispatch_ranks(g, c);
    candidates_are_items(g, n);
    assert(g.work@.len() == g.work.len());
    every_list_has_an_order(keys);
    let order = order_of(keys);
    let d = dispatch_order(g);
    assert forall|a: int| 0 <= a < d.len() implies 0 <= #[trigger] d[a] < g.work@.len()
        && admissible(g, d[a]) by {
        assert(d[a] == c[order[a] as int]);
    }
    assert forall|a: int, b: int| 0 <= a < b < d.len() implies {
        let x = declared(g, #[trigger] d[a]);
        let y = declared(g, #[trigger] d[b]);
        x.priority > y.priority || (x.priority == y.priority && (text_lt(x.work_id@, y.work_id@)
            || x.work_id@ == y.work_id@))
    } by {
        assert(d[a] == c[order[a] as int] && d[b] == c[order[b] as int]);
        assert(keys[order[a] as int].second =~= keys[order[b] as int].second);
        assert(listed_before(keys, order[a] as int, order[b] as int));
        text_lt_irreflexive(keys[order[a] as int].second);
    }
    assert forall|i: int| 0 <= i < g.work@.len() && #[trigger] admissible(g, i) implies d.contains(
        i,
    ) by {
        candidates_are_all(g, n, i);
        let k = choose|k: int| 0 <= k < c.len() && c[k] == i;
        assert(order.contains(k as usize));
        let m = choose|m: int| 0 <= m < order.len() && order[m] == k as usize;
        assert(d[m] == i);
    }
}

/// The items of a plan, in the order of its dispatches.
spec fn plan_items(g: WorkGraphRecord, available_slots: usize) -> Seq<int> {
    let order = dispatch_order(g);
    placed(g, order.take(smaller(room(g, available_slots), order.len() as int)))
}

proof fn plans_are_made_of_items(
    p: AdmissionPlan,
    g: WorkGraphRecord,
    available_slots: usize,
    now: i128,
)
    requires
        is_plan(p, g, available_slots, now),
        p.intents@.len() > 0,
    ensures
        admission_stop(g, now) is None,
        room(g, available_slots) > 0,
        intents_of(p.intents@, g, plan_items(g, available_slots)),
{
}

/// In a plan the higher priority stands first, and between equal priorities the
/// lower identity.
pub proof fn plans_dispatch_by_priority(
    p: AdmissionPlan,
    g: WorkGraphRecord,
    available_slots: usize,
    now: i128,
    j: int,
    k: int,
    x: int,
    y: int,
)
    requires
        is_plan(p, g, available_slots, now),
        0 <= j < k < p.intents@.len(),
        declared_at(g, p.intents@[j].work_id@, x),
        declared_at(g, p.intents@[k].work_id@, y),
    ensures
        goes_before(g, x, y) || x == y,
        g.spec.work@[x].priority >= g.spec.work@[y].priority,
{
    plans_are_made_of_items(p, g, available_slots, now);
    dispatch_is_ordered(g);
    let order = dispatch_order(g);
    let first = order.take(smaller(room(g, available_slots), order.len() as int));
    let items = plan_items(g, available_slots);
    assert(is_intent(p.intents@[j], g, items[j]));
    assert(is_intent(p.intents@[k], g, items[k]));
    let (a, b) = placed_keeps_order(g, first, j, k);
    assert(first[a] == order[a] && first[b] == order[b]);
    assert(declared(g, order[a]).work_id@ == p.intents@[j].work_id@);
    found_declarations(g, order[a], x);
    found_declarations(g, order[b], y);
    if g.spec.work@[x].work_id@ == g.spec.work@[y].work_id@ {
        declared_where_found(g, g.spec.work@[x].work_id@, x);
        declared_where_found(g, g.spec.work@[x].work_id@, y);
    }
}

proof fn found_declarations(g: WorkGraphRecord, i: int, x: int)
    requires
        0 <= i < g.work@.len(),
        admissible(g, i),
        declared_at(g, declared(g, i).work_id@, x),
    ensures
        declared(g, i) == g.spec.work@[x],
        declared(g, i).work_id@ == g.work@[i].work_id@,
{
    position_is_first(work_ids(g.spec.work@), g.work@[i].work_id@, 0);
    declared_where_found(g, declared(g, i).work_id@, x);
}

/// No item that is ready, has a worker and may be sent is left out of a plan in
/// favour of one that goes after it.
pub proof fn plans_leave_out_the_last(
    p: AdmissionPlan,
    g: WorkGraphRecord,
    available_slots: usize,
    now: i128,
    j: int,
    i: int,
    x: int,
    y: int,
)
    requires
        is_plan(p, g, available_slots, now),
        0 <= j < p.intents@.len(),
        declared_at(g, p.intents@[j].work_id@, x),
        0 <= i < g.work@.len(),
        g.work@[i].state is Ready,
        declared_at(g, g.work@[i].work_id@, y),
        has_worker(g, g.spec.work@[y].worker_id@),
        !last_send_is_final(g, g.work@[i].work_id@),
        forall|k: int|
            0 <= k < p.intents@.len() ==> (#[trigger] p.intents@[k]).work_id@
                != g.work@[i].work_id@,
    ensures
        goes_before(g, x, y),
        g.spec.work@[x].priority >= g.spec.work@[y].priority,
{
    plans_are_made_of_items(p, g, available_slots, now);
    dispatch_is_ordered(g);
    final_sends_bar_their_item(g, g.work@[i].work_id@);
    declared_where_found(g, g.work@[i].work_id@, y);
    worker_where_found(g, g.spec.work@[y].worker_id@);
    assert(admissible(g, i));
    let order = dispatch_order(g);
    let n = smaller(room(g, available_slots), order.len() as int);
    let first = order.take(n);
    let items = plan_items(g, available_slots);
    assert(is_intent(p.intents@[j], g, items[j]));
    let a = placed_from(g, first, j);
    assert(order[a] == items[j]);
    assert(order.contains(i));
    let b = choose|b: int| 0 <= b < order.len() && order[b] == i;
    if b < n {
        assert(first[b] == i);
        let k = placed_where_staffed(g, first, b);
        assert(is_intent(p.intents@[k], g, items[k]));
        assert(p.intents@[k].work_id@ == g.work@[i].work_id@);
    }
    assert(a < b);
    found_declarations(g, order[a], x);
    if g.spec.work@[x].work_id@ == g.spec.work@[y].work_id@ {
        assert(p.intents@[j].work_id@ == g.work@[i].work_id@);
    }
}

/// The item holds a slot: a child runs for it or may still run.
pub open spec fn is_busy(w: WorkRecord) -> bool {
    w.state is Leased || w.state is Running || w.state is Cancelling
        || w.state is DispatchUncertain
}

/// How many items hold a slot.
pub open spec fn busy_items(g: WorkGraphRecord) -> nat {
    g.work@.filter(|w: WorkRecord| is_busy(w)).len()
}

proof fn slots_are_busy_items(work: Seq<WorkRecord>, n: int)
    requires
        0 <= n <= work.len(),
    ensures
        slots_held(work, n) == work.take(n).filter(|w: WorkRecord| is_busy(w)).len(),
    decreases n,
{
    reveal(Seq::filter);
    if n > 0 {
        slots_are_busy_items(work, n - 1);
        assert(work.take(n).drop_last() =~= work.take(n - 1));
        assert(work.take(n).last() == work[n - 1]);
    }
}

/// While admission is open, an item that could run is left out only where the
/// slots, the graph's cap or its attempts are used up to the last.
pub proof fn plans_use_the_room(
    p: AdmissionPlan,
    g: WorkGraphRecord,
    available_slots: usize,
    now: i128,
    i: int,
)
    requires
        is_plan(p, g, available_slots, now),
        g.lifecycle is Active,
        now < g.deadline_at,
        g.budget.tokens_used < g.spec.budget.max_total_tokens,
        g.spec.failure_policy is StopGraph ==> forall|k: int|
            0 <= k < g.work@.len() ==> !((#[trigger] g.work@[k]).state is Failed) && !(
            g.work@[k].state is TimedOut),
        forall|k: int|
            0 <= k < g.spec.work@.len() ==> has_worker(g, (#[trigger] g.spec.work@[k]).worker_id@),
        0 <= i < g.work@.len(),
        g.work@[i].state is Ready,
        exists|y: int| #[trigger] declared_at(g, g.work@[i].work_id@, y),
        !last_send_is_final(g, g.work@[i].work_id@),
        forall|k: int|
            0 <= k < p.intents@.len() ==> (#[trigger] p.intents@[k]).work_id@
                != g.work@[i].work_id@,
    ensures
        p.intents@.len() >= available_slots || busy_items(g) + p.intents@.len()
            >= g.spec.budget.max_in_flight || g.budget.attempts_used + p.intents@.len()
            >= g.spec.budget.max_total_attempts,
{
    let y = choose|y: int| #[trigger] declared_at(g, g.work@[i].work_id@, y);
    declared_where_found(g, g.work@[i].work_id@, y);
    final_sends_bar_their_item(g, g.work@[i].work_id@);
    assert(admissible(g, i));
    slots_are_busy_items(g.work@, g.work@.len() as int);
    assert(g.work@.take(g.work@.len() as int) =~= g.work@);
    if g.budget.attempts_used < g.spec.budget.max_total_attempts && room(g, available_slots) > 0 {
        assert(!(g.spec.failure_policy is StopGraph && some_failure(g)));
        assert(admission_stop(g, now) is None);
        dispatch_is_ordered(g);
        let order = dispatch_order(g);
        let n = smaller(room(g, available_slots), order.len() as int);
        let first = order.take(n);
        assert forall|a: int| 0 <= a < first.len() implies worker_at(
            g.spec.workers@,
            declared(g, #[trigger] first[a]).worker_id@,
        ) is Some by {
            assert(first[a] == order[a]);
            position_is_first(work_ids(g.spec.work@), g.work@[order[a]].work_id@, 0);
            worker_where_found(g, declared(g, order[a]).worker_id@);
        }
        all_are_placed(g, first);
        assert(order.contains(i));
        let b = choose|b: int| 0 <= b < order.len() && order[b] == i;
        if b < n {
            assert(is_intent(p.intents@[b], g, first[b]));
            position_is_first(work_ids(g.spec.work@), g.work@[i].work_id@, 0);
            assert(p.intents@[b].work_id@ == g.work@[i].work_id@);
        }
    }
}

proof fn all_are_placed(g: WorkGraphRecord, items: Seq<int>)
    requires
        forall|a: int|
            0 <= a < items.len() ==> worker_at(
                g.spec.workers@,
                declared(g, #[trigger] items[a]).worker_id@,
            ) is Some,
    ensures
        placed(g, items) == items,
    decreases items.len(),
{
    if items.len() > 0 {
        let rest = items.drop_last();
        assert forall|a: int| 0 <= a < rest.len() implies worker_at(
            g.spec.workers@,
            declared(g, #[trigger] rest[a]).worker_id@,
        ) is Some by {
            assert(rest[a] == items[a]);
        }
        all_are_placed(g, rest);
        assert(items[items.len() - 1] == items.last());
        assert(rest.push(items.last()) =~= items);
    } else {
        assert(placed(g, items) =~= items);
    }
}

/// A plan names no item twice.
pub proof fn plans_name_items_once(
    p: AdmissionPlan,
    g: WorkGraphRecord,
    available_slots: usize,
    now: i128,
    j: int,
    k: int,
)
    requires
        is_plan(p, g, available_slots, now),
        all_distinct(record_ids(g.work@)),
        0 <= j < k < p.intents@.len(),
    ensures
        p.intents@[j].work_id@ != p.intents@[k].work_id@,
{
    plans_are_made_of_items(p, g, available_slots, now);
    let n = g.work@.len() as int;
    let c = candidates(g, n);
    let keys = dispatch_ranks(g, c);
    candidates_are_items(g, n);
    assert(g.work@.len() == g.work.len());
    every_list_has_an_order(keys);
    dispatch_is_ordered(g);
    let order = dispatch_order(g);
    let first = order.take(smaller(room(g, available_slots), order.len() as int));
    let items = plan_items(g, available_slots);
    assert(is_intent(p.intents@[j], g, items[j]));
    assert(is_intent(p.intents@[k], g, items[k]));
    let (a, b) = placed_keeps_order(g, first, j, k);
    assert(first[a] == order[a] && first[b] == order[b]);
    let sorted = order_of(keys);
    listing_is_strict(keys, sorted, a, b);
    candidates_rise(g, n, sorted[a] as int, sorted[b] as int);
    let ids = record_ids(g.work@);
    position_is_first(work_ids(g.spec.work@), g.work@[order[a]].work_id@, 0);
    position_is_first(work_ids(g.spec.work@), g.work@[order[b]].work_id@, 0);
    assert(ids[order[a]] == g.work@[order[a]].work_id@);
    assert(ids[order[b]] == g.work@[order[b]].work_id@);
}

proof fn candidates_rise(g: WorkGraphRecord, n: int, a: int, b: int)
    requires
        0 <= n <= g.work@.len(),
        0 <= a < candidates(g, n).len(),
        0 <= b < candidates(g, n).len(),
        a != b,
    ensures
        candidates(g, n)[a] != candidates(g, n)[b],
    decreases n,
{
    if n > 0 {
        candidates_are_items(g, n - 1);
        let q = candidates(g, n - 1);
        if a < q.len() && b < q.len() {
            candidates_rise(g, n - 1, a, b);
        }
    }
}

/// The item at `i` could run if there were room: it is ready, declared, and its
/// last send does not bar it.
pub open spec fn could_run(g: WorkGraphRecord, i: int) -> bool {
    &&& g.work@[i].state is Ready
    &&& exists|y: int| #[trigger] declared_at(g, g.work@[i].work_id@, y)
    &&& !last_send_is_final(g, g.work@[i].work_id@)
}

/// How many of the first `n` items could run.
pub open spec fn runnable(g: WorkGraphRecord, n: int) -> nat
    decreases n,
{
    if n <= 0 {
        0
    } else if could_run(g, n - 1) {
        runnable(g, n - 1) + 1
    } else {
        runnable(g, n - 1)
    }
}

proof fn candidates_could_run(g: WorkGraphRecord, n: int)
    requires
        0 <= n <= g.work@.len(),
    ensures
        candidates(g, n).len() == runnable(g, n),
    decreases n,
{
    if n > 0 {
        candidates_could_run(g, n - 1);
        let id = g.work@[n - 1].work_id@;
        final_sends_bar_their_item(g, id);
        let ids = work_ids(g.spec.work@);
        position_is_first(ids, id, 0);
        if work_at(g.spec.work@, id) is Some {
            let x = work_at(g.spec.work@, id)->0;
            assert forall|z: int| 0 <= z < x implies (#[trigger] g.spec.work@[z]).work_id@ != id by {
                assert(ids[z] == g.spec.work@[z].work_id@);
            }
            assert(ids[x] == g.spec.work@[x].work_id@);
            assert(declared_at(g, id, x));
        }
        if exists|y: int| #[trigger] declared_at(g, id, y) {
            let y = choose|y: int| #[trigger] declared_at(g, id, y);
            declared_where_found(g, id, y);
        }
    }
}

/// A plan says why it is empty, and how many items could run but were not
/// admitted.
pub proof fn plans_account_for_every_item(
    p: AdmissionPlan,
    g: WorkGraphRecord,
    available_slots: usize,
    now: i128,
)
    requires
        is_plan(p, g, available_slots, now),
    ensures
        !(g.lifecycle is Active) ==> p.intents@.len() == 0 && p.blocked_by is LifecycleStopped,
        g.lifecycle is Active && now >= g.deadline_at ==> p.intents@.len() == 0
            && p.blocked_by is DeadlineExceeded,
        g.spec.failure_policy is StopGraph && (exists|i: int|
            0 <= i < g.work@.len() && ((#[trigger] g.work@[i]).state is Failed
                || g.work@[i].state is TimedOut)) ==> p.intents@.len() == 0,
        p.blocked_by is AttemptBudgetExhausted ==> g.budget.attempts_used
            >= g.spec.budget.max_total_attempts,
        p.blocked_by is TokenBudgetExhausted ==> g.budget.tokens_used
            >= g.spec.budget.max_total_tokens,
        p.blocked_by is NoSlots ==> available_slots == 0,
        p.blocked_by is GraphInFlightCap ==> busy_items(g) >= g.spec.budget.max_in_flight,
        !(p.blocked_by is Clear) ==> p.intents@.len() == 0,
        p.blocked_by is Clear || p.blocked_by is NoSlots || p.blocked_by is GraphInFlightCap
            ==> p.intents@.len() + p.ready_not_admitted == runnable(g, g.work@.len() as int),
{
    slots_are_busy_items(g.work@, g.work@.len() as int);
    assert(g.work@.take(g.work@.len() as int) =~= g.work@);
    dispatch_is_ordered(g);
    candidates_could_run(g, g.work@.len() as int);
}

proof fn placed_are_staffed(g: WorkGraphRecord, items: Seq<int>, j: int)
    requires
        0 <= j < placed(g, items).len(),
    ensures
        worker_at(g.spec.workers@, declared(g, placed(g, items)[j]).worker_id@) is Some,
    decreases items.len(),
{
    if items.len() > 0 {
        let before = placed(g, items.drop_last());
        if j < before.len() {
            placed_are_staffed(g, items.drop_last(), j);
        }
    }
}

/// An intent says of its item what was declared: the worker and its role, the
/// capabilities and where it may write. It is the item's next attempt, in the
/// graph's present epoch.
pub proof fn intents_say_what_was_declared(
    p: AdmissionPlan,
    g: WorkGraphRecord,
    available_slots: usize,
    now: i128,
    j: int,
    x: int,
)
    requires
        is_plan(p, g, available_slots, now),
        0 <= j < p.intents@.len(),
        declared_at(g, p.intents@[j].work_id@, x),
    ensures
        p.intents@[j].graph_id == g.graph_id,
        p.intents@[j].worker_id == g.spec.work@[x].worker_id,
        p.intents@[j].capabilities == g.spec.work@[x].capabilities,
        p.intents@[j].isolation == g.spec.work@[x].isolation,
        p.intents@[j].requires_computer_use == g.spec.work@[x].capabilities.has(
            WorkCapability::ComputerUse,
        ),
        p.intents@[j].epoch == g.epoch,
        exists|w: int|
            0 <= w < g.spec.workers@.len() && (#[trigger] g.spec.workers@[w]).worker_id@
                == g.spec.work@[x].worker_id@ && p.intents@[j].role == g.spec.workers@[w].role,
        exists|i: int|
            0 <= i < g.work@.len() && (#[trigger] g.work@[i]).work_id@ == p.intents@[j].work_id@
                && g.work@[i].state is Ready && (g.work@[i].attempts < u32::MAX
                ==> p.intents@[j].attempt == g.work@[i].attempts + 1),
{
    plans_admit_ready_items_only(p, g, available_slots, now, j);
    let i = choose|i: int|
        0 <= i < g.work@.len() && #[trigger] admissible(g, i) && is_intent(
            p.intents@[j],
            g,
            i,
        ) && g.work@[i].state is Ready && g.work@[i].work_id@ == p.intents@[j].work_id@
            && p.intents@[j].attempt == one_more(g.work@[i].attempts) && !last_send_is_final(
            g,
            g.work@[i].work_id@,
        );
    declared_where_found(g, g.work@[i].work_id@, x);
    assert(declared(g, i) == g.spec.work@[x]);
    worker_where_found(g, g.spec.work@[x].worker_id@);
    position_is_first(worker_ids(g.spec.workers@), g.spec.work@[x].worker_id@, 0);
    plans_are_made_of_items(p, g, available_slots, now);
    let order = dispatch_order(g);
    let first = order.take(smaller(room(g, available_slots), order.len() as int));
    placed_are_staffed(g, first, j);
    assert(is_intent(p.intents@[j], g, placed(g, first)[j]));
    let w = worker_at(g.spec.workers@, g.spec.work@[x].worker_id@)->0;
    assert(g.spec.workers@[w].worker_id@ == g.spec.work@[x].worker_id@);
}

/// A graph that is stopped, out of time, out of attempts or out of tokens gets
/// nothing, and the plan says which.
pub proof fn plans_say_what_stops_them(
    p: AdmissionPlan,
    g: WorkGraphRecord,
    available_slots: usize,
    now: i128,
)
    requires
        is_plan(p, g, available_slots, now),
        g.lifecycle is Active,
        now < g.deadline_at,
    ensures
        ({
            let failed = g.spec.failure_policy is StopGraph && exists|i: int|
                0 <= i < g.work@.len() && ((#[trigger] g.work@[i]).state is Failed
                    || g.work@[i].state is TimedOut);
            let attempts = g.budget.attempts_used >= g.spec.budget.max_total_attempts;
            let tokens = g.budget.tokens_used >= g.spec.budget.max_total_tokens;
            &&& failed ==> p.intents@.len() == 0 && p.blocked_by == AdmissionBlock::LifecycleStopped
            &&& !failed && attempts ==> p.intents@.len() == 0 && p.blocked_by
                == AdmissionBlock::AttemptBudgetExhausted
            &&& !failed && !attempts && tokens ==> p.intents@.len() == 0 && p.blocked_by
                == AdmissionBlock::TokenBudgetExhausted
            &&& !failed && !attempts && !tokens && available_slots == 0 ==> p.intents@.len() == 0
                && p.blocked_by == AdmissionBlock::NoSlots
            &&& !failed && !attempts && !tokens && available_slots > 0 && busy_items(g)
                >= g.spec.budget.max_in_flight ==> p.intents@.len() == 0 && p.blocked_by
                == AdmissionBlock::GraphInFlightCap
            &&& !failed && !attempts && !tokens && available_slots > 0 && busy_items(g)
                < g.spec.budget.max_in_flight ==> p.blocked_by == AdmissionBlock::Clear
        }),
{
    slots_are_busy_items(g.work@, g.work@.len() as int);
    assert(g.work@.take(g.work@.len() as int) =~= g.work@);
}

} // verus!
