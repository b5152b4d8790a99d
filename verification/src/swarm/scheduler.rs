//! The graph state machine.
//!
//! Nothing here owns a thread, opens a socket, reads a clock or draws random
//! numbers: callers pass the time in and persist the record. Admission is
//! bounded by the slots the host already granted, so a graph only ever narrows
//! what the host permits.

use crate::order::{every_list_has_an_order, is_order, order_of, ranks, sorted_order, Rank, SortKey};
use crate::order::position_is_first;
use crate::swarm::authority::{
    attempt_identity, derive_attempt_id, ProviderAttemptRecord, RetryClass,
};
use crate::swarm::ids::{AttemptId, GraphId, WorkId, WorkerId};
use crate::swarm::spec::{
    work_at, work_ids, worker_at, CapabilitySet, FailurePolicy, IsolationRequirement, QuorumGate,
    WorkCapability, WorkSpec, WorkerRole,
};
use crate::swarm::state::{
    record_at, record_ids, slots_held, well_formed, GraphLifecycle, ReviewVerdict,
    WorkGraphRecord, WorkOutcome, WorkRecord, WorkState,
};
use crate::text::copy;
use vstd::prelude::*;
use vstd::string::*;

verus! {

/// A dispatch the graph is willing to admit. Nothing exists until it is handed
/// back to [`issue_lease`].
#[derive(Debug)]
pub struct DispatchIntent {
    pub graph_id: GraphId,
    pub work_id: WorkId,
    pub worker_id: WorkerId,
    pub attempt_id: AttemptId,
    pub attempt: u32,
    pub role: WorkerRole,
    pub capabilities: CapabilitySet,
    pub isolation: IsolationRequirement,
    /// The caller must attach a live Computer Use grant binding.
    pub requires_computer_use: bool,
    /// The graph epoch this was planned under; a later one invalidates it.
    pub epoch: u64,
}

/// Why admission produced nothing.
#[derive(Debug, Clone, Copy, PartialEq, Eq, Structural)]
pub enum AdmissionBlock {
    /// Nothing stands in the way.
    Clear,
    NoSlots,
    GraphInFlightCap,
    AttemptBudgetExhausted,
    TokenBudgetExhausted,
    DeadlineExceeded,
    LifecycleStopped,
}

/// The result of one planning pass.
#[derive(Debug)]
pub struct AdmissionPlan {
    pub intents: Vec<DispatchIntent>,
    pub blocked_by: AdmissionBlock,
    pub ready_not_admitted: usize,
}

/// What a caller learned when it probed an uncertain lease. Only positive
/// evidence resolves uncertainty.
#[derive(Debug)]
pub enum DispatchProbe {
    /// Never started. Only this makes a resend safe.
    NotStarted,
    /// Running, with the owner's handle.
    Running { external_ref: String },
    /// Finished, with the owner's terminal report.
    Settled { outcome: WorkOutcome },
    /// Still unknown.
    Unknown,
}

/// An operator's decision on a reviewed work item.
#[derive(Debug, Clone, Copy, PartialEq, Eq, Structural)]
pub enum ReviewDecision {
    /// Keep the result.
    Keep,
    /// Discard the result; it never counts as a success.
    Discard,
}

/// The recorded state of an item.
pub open spec fn state_of(g: WorkGraphRecord, id: Seq<char>) -> Option<WorkState> {
    match record_at(g.work@, id) {
        Some(i) => Some(g.work@[i].state),
        None => None,
    }
}

/// The recorded verdict of an item.
pub open spec fn verdict_of(g: WorkGraphRecord, id: Seq<char>) -> Option<ReviewVerdict> {
    match record_at(g.work@, id) {
        Some(i) => g.work@[i].verdict,
        None => None,
    }
}

/// A dependency in this state keeps its dependents from becoming ready: it
/// ended without success, is blocked itself, or its fate is unknown.
pub open spec fn state_blocks(s: Option<WorkState>) -> bool {
    match s {
        Some(s) => (s.settled() && !(s is Succeeded)) || s is Blocked || s is DispatchUncertain,
        None => false,
    }
}

/// A dependency in this state has yet to come to an end.
pub open spec fn state_waits(s: Option<WorkState>) -> bool {
    s != Some(WorkState::Succeeded) && !state_blocks(s)
}

/// Some dependency of the item blocks it.
pub open spec fn dependency_blocks(g: WorkGraphRecord, item: WorkSpec) -> bool {
    exists|k: int|
        0 <= k < item.depends_on@.len() && state_blocks(
            state_of(g, (#[trigger] item.depends_on@[k])@),
        )
}

/// Some dependency of the item has yet to come to an end.
pub open spec fn dependency_waits(g: WorkGraphRecord, item: WorkSpec) -> bool {
    exists|k: int|
        0 <= k < item.depends_on@.len() && state_waits(
            state_of(g, (#[trigger] item.depends_on@[k])@),
        )
}

/// How many of the first `n` review items approved.
pub open spec fn approvals(g: WorkGraphRecord, gate: QuorumGate, n: int) -> nat
    decreases n,
{
    if n <= 0 {
        0
    } else {
        approvals(g, gate, n - 1) + if verdict_of(g, gate.reviewers@[n - 1]@) == Some(
            ReviewVerdict::Approve,
        ) {
            1nat
        } else {
            0nat
        }
    }
}

/// How many of the first `n` review items may still approve: they gave no verdict
/// and have not ended.
pub open spec fn undecided(g: WorkGraphRecord, gate: QuorumGate, n: int) -> nat
    decreases n,
{
    if n <= 0 {
        0
    } else {
        let id = gate.reviewers@[n - 1]@;
        undecided(g, gate, n - 1) + if verdict_of(g, id) is None && !(state_of(g, id) is Some
            && state_of(g, id)->0.settled()) {
            1nat
        } else {
            0nat
        }
    }
}

/// The quorum of the item can no longer be met.
pub open spec fn gate_lost(g: WorkGraphRecord, item: WorkSpec) -> bool {
    match item.quorum {
        None => false,
        Some(gate) => {
            let n = gate.reviewers@.len() as int;
            approvals(g, gate, n) + undecided(g, gate, n) < gate.required_approvals
        },
    }
}

/// The quorum of the item is not met yet, and may still be.
pub open spec fn gate_waits(g: WorkGraphRecord, item: WorkSpec) -> bool {
    match item.quorum {
        None => false,
        Some(gate) => approvals(g, gate, gate.reviewers@.len() as int) < gate.required_approvals
            && !gate_lost(g, item),
    }
}

/// The state that an item that is neither running nor settled has.
pub open spec fn resolved_state(g: WorkGraphRecord, item: WorkSpec) -> WorkState {
    if dependency_blocks(g, item) || gate_lost(g, item) {
        WorkState::Blocked
    } else if dependency_waits(g, item) || gate_waits(g, item) {
        WorkState::Pending
    } else {
        WorkState::Ready
    }
}

/// The record at `i` with its derived state computed anew.
pub open spec fn rederived(g: WorkGraphRecord, i: int, now: i128) -> WorkRecord {
    let w = g.work@[i];
    match work_at(g.spec.work@, w.work_id@) {
        None => w,
        Some(k) => {
            let s = resolved_state(g, g.spec.work@[k]);
            if w.state.derived() && s != w.state {
                WorkRecord { state: s, updated_at: now, ..w }
            } else {
                w
            }
        },
    }
}

/// All records with their derived states computed anew, from the states as
/// they were.
pub open spec fn rederived_work(g: WorkGraphRecord, now: i128) -> Seq<WorkRecord> {
    Seq::new(g.work@.len(), |i: int| rederived(g, i, now))
}

/// `after` is `g` with every derived state computed anew.
pub open spec fn recomputed(g: WorkGraphRecord, after: WorkGraphRecord, now: i128) -> bool {
    &&& after == (WorkGraphRecord { work: after.work, ..g })
    &&& after.work@ == rederived_work(g, now)
}

fn find_state(g: &WorkGraphRecord, id: &WorkId) -> (s: Option<WorkState>)
    ensures
        s == state_of(*g, id@),
{
    match g.work_record(id) {
        Some(w) => Some(w.state),
        None => None,
    }
}

fn find_verdict(g: &WorkGraphRecord, id: &WorkId) -> (s: Option<ReviewVerdict>)
    ensures
        s == verdict_of(*g, id@),
{
    match g.work_record(id) {
        Some(w) => w.verdict,
        None => None,
    }
}

fn resolve_state(g: &WorkGraphRecord, item: &WorkSpec) -> (s: WorkState)
    ensures
        s == resolved_state(*g, *item),
{
    let mut blocked: bool = false;
    let mut waiting: bool = false;
    let mut k: usize = 0;
    while k < item.depends_on.len()
        invariant
            k <= item.depends_on@.len(),
            blocked == exists|q: int|
                0 <= q < k && state_blocks(state_of(*g, (#[trigger] item.depends_on@[q])@)),
            waiting == exists|q: int|
                0 <= q < k && state_waits(state_of(*g, (#[trigger] item.depends_on@[q])@)),
        decreases item.depends_on.len() - k,
    {
        let ghost was_blocked = blocked;
        let ghost was_waiting = waiting;
        let s: Option<WorkState> = find_state(g, &item.depends_on[k]);
        match s {
            Some(WorkState::Succeeded) => {},
            Some(s) => {
                if s.is_settled() || s == WorkState::Blocked || s == WorkState::DispatchUncertain {
                    blocked = true;
                } else {
                    waiting = true;
                }
            },
            None => {
                waiting = true;
            },
        }
        proof {
            let d = item.depends_on@[k as int];
            assert(s == state_of(*g, d@));
            assert(blocked == (was_blocked || state_blocks(s)));
            assert(waiting == (was_waiting || state_waits(s)));
        }
        k = k + 1;
    }
    match &item.quorum {
        None => {},
        Some(gate) => {
            let mut yes: usize = 0;
            let mut open: usize = 0;
            let mut q: usize = 0;
            while q < gate.reviewers.len()
                invariant
                    q <= gate.reviewers@.len(),
                    yes + open <= q,
                    yes == approvals(*g, *gate, q as int),
                    open == undecided(*g, *gate, q as int),
                decreases gate.reviewers.len() - q,
            {
                let verdict: Option<ReviewVerdict> = find_verdict(g, &gate.reviewers[q]);
                match verdict {
                    Some(ReviewVerdict::Approve) => {
                        yes = yes + 1;
                    },
                    Some(ReviewVerdict::Reject) => {},
                    None => {
                        let ended: bool = match find_state(g, &gate.reviewers[q]) {
                            Some(s) => s.is_settled(),
                            None => false,
                        };
                        if !ended {
                            open = open + 1;
                        }
                    },
                }
                q = q + 1;
            }
            let required: u64 = gate.required_approvals as u64;
            if (yes as u64) < required {
                if ((yes + open) as u64) < required {
                    blocked = true;
                } else {
                    waiting = true;
                }
            }
        },
    }
    if blocked {
        WorkState::Blocked
    } else if waiting {
        WorkState::Pending
    } else {
        WorkState::Ready
    }
}

/// Computes every derived state anew from upstream results and quorum gates.
///
/// `Blocked` is derived, not sticky: once an upstream uncertainty is resolved
/// in favour of success, its dependents become ready again. A gate counts
/// verdicts, not successes of review items.
pub fn recompute_derived(record: &mut WorkGraphRecord, now: i128)
    requires
        well_formed(*old(record)),
    ensures
        recomputed(*old(record), *final(record), now),
        well_formed(*final(record)),
{
    let ghost g = *record;
    let n: usize = record.work.len();
    let mut next: Vec<WorkState> = Vec::new();
    let mut i: usize = 0;
    while i < n
        invariant
            i <= n,
            n == record.work@.len(),
            *record == g,
            next@.len() == i,
            forall|k: int|
                0 <= k < i ==> #[trigger] next@[k] == rederived(g, k, now).state,
        decreases n - i,
    {
        let current: WorkState = record.work[i].state;
        let mut s: WorkState = current;
        if current.is_derived() {
            match record.spec.work_item(&record.work[i].work_id) {
                Some(item) => {
                    s = resolve_state(record, item);
                },
                None => {},
            }
        }
        next.push(s);
        i = i + 1;
    }
    let mut j: usize = 0;
    while j < n
        invariant
            j <= n,
            n == record.work@.len(),
            n == g.work@.len(),
            next@.len() == n,
            *record == (WorkGraphRecord { work: record.work, ..g }),
            forall|k: int|
                0 <= k < n ==> #[trigger] next@[k] == rederived(g, k, now).state,
            forall|k: int|
                0 <= k < n ==> #[trigger] record.work@[k] == if k < j {
                    rederived(g, k, now)
                } else {
                    g.work@[k]
                },
        decreases n - j,
    {
        if next[j] != record.work[j].state {
            record.work[j].state = next[j];
            record.work[j].updated_at = now;
        }
        j = j + 1;
    }
    proof {
        assert(record.work@ =~= rederived_work(g, now));
        recomputing_keeps_shape(g, *record, now);
    }
}

proof fn recomputing_keeps_shape(g: WorkGraphRecord, after: WorkGraphRecord, now: i128)
    requires
        recomputed(g, after, now),
    ensures
        record_ids(after.work@) == record_ids(g.work@),
        well_formed(g) ==> well_formed(after),
{
    assert(record_ids(after.work@) =~= record_ids(g.work@));
}

/// Only what is neither running nor settled is recomputed, and only its state
/// changes.
pub proof fn recomputing_touches_derived_states_only(
    g: WorkGraphRecord,
    after: WorkGraphRecord,
    now: i128,
    i: int,
)
    requires
        recomputed(g, after, now),
        0 <= i < g.work@.len(),
    ensures
        !g.work@[i].state.derived() ==> after.work@[i] == g.work@[i],
        g.work@[i].state.derived() ==> after.work@[i].state.derived(),
        after.work@[i] == (WorkRecord {
            state: after.work@[i].state,
            updated_at: after.work@[i].updated_at,
            ..g.work@[i]
        }),
{
    assert(after.work@[i] == rederived(g, i, now));
}

/// A recomputed item that is ready has only dependencies that succeeded, and a
/// gate, if it has one, that is met.
pub proof fn ready_items_may_run(
    g: WorkGraphRecord,
    after: WorkGraphRecord,
    now: i128,
    i: int,
    k: int,
    d: int,
)
    requires
        recomputed(g, after, now),
        0 <= i < g.work@.len(),
        after.work@[i].state is Ready,
        work_at(g.spec.work@, g.work@[i].work_id@) == Some(k),
        0 <= d < g.spec.work@[k].depends_on@.len(),
    ensures
        state_of(g, g.spec.work@[k].depends_on@[d]@) == Some(WorkState::Succeeded),
        g.spec.work@[k].quorum matches Some(gate) ==> approvals(
            g,
            gate,
            gate.reviewers@.len() as int,
        ) >= gate.required_approvals,
{
    assert(after.work@[i] == rederived(g, i, now));
    let item = g.spec.work@[k];
    let s = state_of(g, item.depends_on@[d]@);
    assert(!state_blocks(s));
    assert(!state_waits(s));
}

/// The latest of the first `n` attempts at an item: the one with the highest
/// ordinal, the last of them where several have it.
pub open spec fn latest_attempt(
    attempts: Seq<ProviderAttemptRecord>,
    id: Seq<char>,
    n: int,
) -> Option<int>
    decreases n,
{
    if n <= 0 {
        None
    } else {
        let before = latest_attempt(attempts, id, n - 1);
        if attempts[n - 1].work_id@ == id && (before is None || attempts[before->0].ordinal
            <= attempts[n - 1].ordinal) {
            Some(n - 1)
        } else {
            before
        }
    }
}

/// The latest attempt at the item must not be repeated implicitly.
pub open spec fn retry_forbidden(g: WorkGraphRecord, id: Seq<char>) -> bool {
    match latest_attempt(g.attempts@, id, g.attempts@.len() as int) {
        Some(i) => g.attempts@[i].final_for_work(),
        None => false,
    }
}

/// Whether the latest attempt at an item forbids sending it again. A send that
/// may have been accepted is never repeated implicitly.
pub fn forbids_same_work_retry(record: &WorkGraphRecord, work_id: &WorkId) -> (r: bool)
    ensures
        r == retry_forbidden(*record, work_id@),
{
    let mut latest: Option<usize> = None;
    let mut i: usize = 0;
    while i < record.attempts.len()
        invariant
            i <= record.attempts@.len(),
            match latest {
                Some(j) => j < i && latest_attempt(record.attempts@, work_id@, i as int) == Some(
                    j as int,
                ),
                None => latest_attempt(record.attempts@, work_id@, i as int) is None,
            },
        decreases record.attempts.len() - i,
    {
        if record.attempts[i].work_id.same(work_id) {
            match latest {
                None => {
                    latest = Some(i);
                },
                Some(j) => {
                    if record.attempts[j].ordinal <= record.attempts[i].ordinal {
                        latest = Some(i);
                    }
                },
            }
        }
        i = i + 1;
    }
    match latest {
        Some(j) => record.attempts[j].forbids_same_work_retry(),
        None => false,
    }
}

/// The item at `i` may be admitted.
pub open spec fn admissible(g: WorkGraphRecord, i: int) -> bool {
    &&& g.work@[i].state is Ready
    &&& work_at(g.spec.work@, g.work@[i].work_id@) is Some
    &&& !retry_forbidden(g, g.work@[i].work_id@)
}

/// Those of the first `n` items that may be admitted.
pub open spec fn candidates(g: WorkGraphRecord, n: int) -> Seq<int>
    decreases n,
{
    if n <= 0 {
        Seq::empty()
    } else if admissible(g, n - 1) {
        candidates(g, n - 1).push(n - 1)
    } else {
        candidates(g, n - 1)
    }
}

/// The declaration of the item at `i`.
pub open spec fn declared(g: WorkGraphRecord, i: int) -> WorkSpec {
    g.spec.work@[work_at(g.spec.work@, g.work@[i].work_id@)->0]
}

/// By priority, the higher first, and then by identity.
pub open spec fn dispatch_ranks(g: WorkGraphRecord, c: Seq<int>) -> Seq<Rank> {
    Seq::new(
        c.len(),
        |j: int|
            Rank {
                rank: -(declared(g, c[j]).priority as int),
                minor: 0,
                first: declared(g, c[j]).work_id@,
                second: Seq::empty(),
            },
    )
}

/// The items that may be admitted, in the order of dispatch.
pub open spec fn dispatch_order(g: WorkGraphRecord) -> Seq<int> {
    let c = candidates(g, g.work@.len() as int);
    let order = order_of(dispatch_ranks(g, c));
    Seq::new(order.len(), |j: int| c[order[j] as int])
}

/// The smaller of two numbers.
pub open spec fn smaller(a: int, b: int) -> int {
    if a < b {
        a
    } else {
        b
    }
}

/// What is left of the graph's in-flight cap.
pub open spec fn graph_room(g: WorkGraphRecord) -> int {
    let held = slots_held(g.work@, g.work@.len() as int);
    if g.spec.budget.max_in_flight > held {
        g.spec.budget.max_in_flight - held
    } else {
        0
    }
}

/// What is left of the graph's attempts.
pub open spec fn attempt_room(g: WorkGraphRecord) -> int {
    if g.spec.budget.max_total_attempts > g.budget.attempts_used {
        g.spec.budget.max_total_attempts - g.budget.attempts_used
    } else {
        0
    }
}

/// How many items may be admitted.
pub open spec fn room(g: WorkGraphRecord, available_slots: usize) -> int {
    smaller(smaller(available_slots as int, graph_room(g)), attempt_room(g))
}

/// Some item failed or timed out.
pub open spec fn some_failure(g: WorkGraphRecord) -> bool {
    exists|i: int|
        0 <= i < g.work@.len() && ((#[trigger] g.work@[i]).state is Failed
            || g.work@[i].state is TimedOut)
}

/// What stops admission altogether.
pub open spec fn admission_stop(g: WorkGraphRecord, now: i128) -> Option<AdmissionBlock> {
    if !(g.lifecycle is Active) {
        Some(AdmissionBlock::LifecycleStopped)
    } else if now >= g.deadline_at {
        Some(AdmissionBlock::DeadlineExceeded)
    } else if g.spec.failure_policy is StopGraph && some_failure(g) {
        Some(AdmissionBlock::LifecycleStopped)
    } else if g.budget.attempts_used >= g.spec.budget.max_total_attempts {
        Some(AdmissionBlock::AttemptBudgetExhausted)
    } else if g.budget.tokens_used >= g.spec.budget.max_total_tokens {
        Some(AdmissionBlock::TokenBudgetExhausted)
    } else {
        None
    }
}

/// What leaves no room, given that there is none.
pub open spec fn room_block(g: WorkGraphRecord, available_slots: usize) -> AdmissionBlock {
    if available_slots == 0 {
        AdmissionBlock::NoSlots
    } else if graph_room(g) == 0 {
        AdmissionBlock::GraphInFlightCap
    } else {
        AdmissionBlock::AttemptBudgetExhausted
    }
}

/// One more than `n`, or `n` if there is no more.
pub open spec fn one_more(n: u32) -> u32 {
    if n == u32::MAX {
        n
    } else {
        (n + 1) as u32
    }
}

/// Those of the items whose worker is declared.
pub open spec fn placed(g: WorkGraphRecord, items: Seq<int>) -> Seq<int>
    decreases items.len(),
{
    if items.len() == 0 {
        Seq::empty()
    } else {
        let before = placed(g, items.drop_last());
        if worker_at(g.spec.workers@, declared(g, items.last()).worker_id@) is Some {
            before.push(items.last())
        } else {
            before
        }
    }
}

/// `d` is the dispatch of the item at `i`.
pub open spec fn is_intent(d: DispatchIntent, g: WorkGraphRecord, i: int) -> bool {
    let item = declared(g, i);
    &&& d.graph_id == g.graph_id
    &&& d.work_id == item.work_id
    &&& d.worker_id == item.worker_id
    &&& d.attempt == one_more(g.work@[i].attempts)
    &&& d.attempt_id@ == attempt_identity(g.graph_id@, item.work_id@, d.attempt)
    &&& d.role == g.spec.workers@[worker_at(g.spec.workers@, item.worker_id@)->0].role
    &&& d.capabilities == item.capabilities
    &&& d.isolation == item.isolation
    &&& d.requires_computer_use == item.capabilities.has(WorkCapability::ComputerUse)
    &&& d.epoch == g.epoch
}

/// The dispatches are those of the items, one for one.
pub open spec fn intents_of(
    intents: Seq<DispatchIntent>,
    g: WorkGraphRecord,
    items: Seq<int>,
) -> bool {
    &&& intents.len() == items.len()
    &&& forall|j: int|
        0 <= j < intents.len() ==> is_intent(#[trigger] intents[j], g, items[j])
}

/// The plan of a graph with so many free slots at `now`.
pub open spec fn is_plan(
    p: AdmissionPlan,
    g: WorkGraphRecord,
    available_slots: usize,
    now: i128,
) -> bool {
    match admission_stop(g, now) {
        Some(block) => p.intents@.len() == 0 && p.blocked_by == block && p.ready_not_admitted == 0,
        None => {
            let order = dispatch_order(g);
            let n = room(g, available_slots);
            if n == 0 {
                p.intents@.len() == 0 && p.blocked_by == room_block(g, available_slots)
                    && p.ready_not_admitted == order.len()
            } else {
                let items = placed(g, order.take(smaller(n, order.len() as int)));
                intents_of(p.intents@, g, items) && p.blocked_by == AdmissionBlock::Clear
                    && p.ready_not_admitted == order.len() - items.len()
            }
        },
    }
}

pub(crate) proof fn candidates_are_items(g: WorkGraphRecord, n: int)
    requires
        0 <= n <= g.work@.len(),
    ensures
        candidates(g, n).len() <= n,
        forall|j: int|
            0 <= j < candidates(g, n).len() ==> 0 <= #[trigger] candidates(g, n)[j] < n
                && admissible(g, candidates(g, n)[j]),
    decreases n,
{
    if n > 0 {
        candidates_are_items(g, n - 1);
    }
}

pub(crate) proof fn placed_is_no_longer(g: WorkGraphRecord, items: Seq<int>)
    ensures
        placed(g, items).len() <= items.len(),
        forall|j: int|
            0 <= j < placed(g, items).len() ==> items.contains(#[trigger] placed(g, items)[j]),
    decreases items.len(),
{
    if items.len() > 0 {
        placed_is_no_longer(g, items.drop_last());
        let p = placed(g, items);
        assert forall|j: int| 0 <= j < p.len() implies items.contains(#[trigger] p[j]) by {
            let q = placed(g, items.drop_last());
            if j < q.len() {
                assert(p[j] == q[j]);
                let k = choose|k: int|
                    0 <= k < items.drop_last().len() && items.drop_last()[k] == q[j];
                assert(items[k] == p[j]);
            } else {
                assert(items[items.len() - 1] == p[j]);
            }
        }
    }
}

fn fails_somewhere(g: &WorkGraphRecord) -> (r: bool)
    ensures
        r == some_failure(*g),
{
    let mut i: usize = 0;
    while i < g.work.len()
        invariant
            i <= g.work@.len(),
            forall|k: int|
                0 <= k < i ==> !((#[trigger] g.work@[k]).state is Failed) && !(
                g.work@[k].state is TimedOut),
        decreases g.work.len() - i,
    {
        if g.work[i].state == WorkState::Failed || g.work[i].state == WorkState::TimedOut {
            return true;
        }
        i = i + 1;
    }
    false
}

fn stopped(block: AdmissionBlock) -> (p: AdmissionPlan)
    ensures
        p.intents@.len() == 0,
        p.blocked_by == block,
        p.ready_not_admitted == 0,
{
    AdmissionPlan { intents: Vec::new(), blocked_by: block, ready_not_admitted: 0 }
}

fn least(a: usize, b: usize) -> (r: usize)
    ensures
        r == smaller(a as int, b as int),
{
    if a < b {
        a
    } else {
        b
    }
}

fn find_candidates(record: &WorkGraphRecord) -> (r: (Vec<usize>, Vec<SortKey>))
    ensures
        r.0@.len() == candidates(*record, record.work@.len() as int).len(),
        forall|j: int|
            0 <= j < r.0@.len() ==> #[trigger] r.0@[j] == candidates(
                *record,
                record.work@.len() as int,
            )[j],
        ranks(r.1@) == dispatch_ranks(
            *record,
            candidates(*record, record.work@.len() as int),
        ),
{
    let mut found: Vec<usize> = Vec::new();
    let mut keys: Vec<SortKey> = Vec::new();
    let mut i: usize = 0;
    while i < record.work.len()
        invariant
            i <= record.work@.len(),
            found@.len() == candidates(*record, i as int).len(),
            keys@.len() == found@.len(),
            forall|j: int|
                0 <= j < found@.len() ==> #[trigger] found@[j] == candidates(
                    *record,
                    i as int,
                )[j],
            forall|j: int|
                0 <= j < keys@.len() ==> (#[trigger] keys@[j])@ == dispatch_ranks(
                    *record,
                    candidates(*record, i as int),
                )[j],
        decreases record.work.len() - i,
    {
        let ghost before = candidates(*record, i as int);
        let item: &WorkRecord = &record.work[i];
        if item.state == WorkState::Ready {
            match record.spec.work_item(&item.work_id) {
                Some(spec) => {
                    if !forbids_same_work_retry(record, &item.work_id) {
                        found.push(i);
                        keys.push(
                            SortKey {
                                rank: -(spec.priority as i128),
                                minor: 0,
                                first: copy(spec.work_id.as_str()),
                                second: String::new(),
                            },
                        );
                        proof {
                            assert(keys@.last().second@ =~= Seq::<char>::empty());
                            assert(*spec == declared(*record, i as int));
                        }
                    }
                },
                None => {},
            }
        }
        i = i + 1;
    }
    proof {
        assert(ranks(keys@) =~= dispatch_ranks(
            *record,
            candidates(*record, record.work@.len() as int),
        ));
    }
    (found, keys)
}

/// Plans what may be admitted now. Writes nothing.
///
/// `available_slots` is what the host's capacity already granted; the graph
/// narrows it by its own cap and budgets.
pub fn plan_admissions(record: &WorkGraphRecord, available_slots: usize, now: i128) -> (p:
    AdmissionPlan)
    ensures
        is_plan(p, *record, available_slots, now),
{
    if record.lifecycle != GraphLifecycle::Active {
        return stopped(AdmissionBlock::LifecycleStopped);
    }
    if now >= record.deadline_at {
        return stopped(AdmissionBlock::DeadlineExceeded);
    }
    if record.spec.failure_policy == FailurePolicy::StopGraph && fails_somewhere(record) {
        return stopped(AdmissionBlock::LifecycleStopped);
    }
    if record.budget.attempts_used >= record.spec.budget.max_total_attempts {
        return stopped(AdmissionBlock::AttemptBudgetExhausted);
    }
    if record.budget.tokens_used >= record.spec.budget.max_total_tokens {
        return stopped(AdmissionBlock::TokenBudgetExhausted);
    }
    let held: usize = record.in_flight();
    let graph_left: usize = if record.spec.budget.max_in_flight > held {
        record.spec.budget.max_in_flight - held
    } else {
        0
    };
    let attempts_left: usize = (record.spec.budget.max_total_attempts
        - record.budget.attempts_used) as usize;
    let n: usize = least(least(available_slots, graph_left), attempts_left);

    let (found, keys) = find_candidates(record);
    let order: Vec<usize> = sorted_order(&keys);
    let ghost ready = dispatch_order(*record);
    proof {
        candidates_are_items(*record, record.work@.len() as int);
        assert(keys@.len() == ranks(keys@).len());
        assert(order@.len() == ready.len());
    }
    let total: usize = order.len();
    if n == 0 {
        let blocked_by: AdmissionBlock = if available_slots == 0 {
            AdmissionBlock::NoSlots
        } else if graph_left == 0 {
            AdmissionBlock::GraphInFlightCap
        } else {
            AdmissionBlock::AttemptBudgetExhausted
        };
        return AdmissionPlan { intents: Vec::new(), blocked_by, ready_not_admitted: total };
    }
    let mut intents: Vec<DispatchIntent> = Vec::new();
    let end: usize = least(n, total);
    let mut j: usize = 0;
    proof {
        assert(ready.take(0) =~= Seq::<int>::empty());
    }
    while j < end
        invariant
            j <= end <= total,
            total == order@.len(),
            ready == dispatch_order(*record),
            order@.len() == ready.len(),
            found@.len() == keys@.len(),
            is_order(ranks(keys@), order@),
            order@ == order_of(
                dispatch_ranks(*record, candidates(*record, record.work@.len() as int)),
            ),
            found@.len() == candidates(*record, record.work@.len() as int).len(),
            forall|q: int|
                0 <= q < found@.len() ==> #[trigger] found@[q] == candidates(
                    *record,
                    record.work@.len() as int,
                )[q],
            forall|q: int|
                0 <= q < found@.len() ==> (#[trigger] found@[q]) < record.work@.len()
                    && admissible(*record, found@[q] as int),
            intents_of(intents@, *record, placed(*record, ready.take(j as int))),
        decreases end - j,
    {
        proof {
            assert(order@[j as int] < ranks(keys@).len());
        }
        let i: usize = found[order[j]];
        let item: &WorkRecord = &record.work[i];
        proof {
            assert(admissible(*record, i as int));
            assert(ready[j as int] == i);
            assert(ready.take(j + 1).drop_last() =~= ready.take(j as int));
            assert(ready.take(j + 1).last() == i);
        }
        match record.spec.work_item(&item.work_id) {
            Some(spec) => match record.spec.worker(&spec.worker_id) {
                Some(worker) => {
                    let attempt: u32 = if item.attempts == u32::MAX {
                        item.attempts
                    } else {
                        item.attempts + 1
                    };
                    match derive_attempt_id(&record.graph_id, &spec.work_id, attempt) {
                        Ok(attempt_id) => {
                            intents.push(
                                DispatchIntent {
                                    graph_id: record.graph_id.clone(),
                                    work_id: spec.work_id.clone(),
                                    worker_id: spec.worker_id.clone(),
                                    attempt_id,
                                    attempt,
                                    role: worker.role,
                                    capabilities: spec.capabilities,
                                    isolation: spec.isolation,
                                    requires_computer_use: spec.capabilities.contains(
                                        WorkCapability::ComputerUse,
                                    ),
                                    epoch: record.epoch,
                                },
                            );
                        },
                        Err(_) => {},
                    }
                },
                None => {},
            },
            None => {},
        }
        j = j + 1;
    }
    let admitted: usize = intents.len();
    proof {
        placed_is_no_longer(*record, ready.take(end as int));
    }
    AdmissionPlan {
        intents,
        blocked_by: AdmissionBlock::Clear,
        ready_not_admitted: total - admitted,
    }
}

/// A plan stays within the slots granted, the graph's cap and its attempts, and
/// stays empty while admission is stopped.
pub proof fn plans_respect_every_budget(
    p: AdmissionPlan,
    g: WorkGraphRecord,
    available_slots: usize,
    now: i128,
)
    requires
        is_plan(p, g, available_slots, now),
    ensures
        p.intents@.len() <= available_slots,
        p.intents@.len() > 0 ==> {
            &&& g.lifecycle is Active
            &&& now < g.deadline_at
            &&& slots_held(g.work@, g.work@.len() as int) + p.intents@.len()
                <= g.spec.budget.max_in_flight
            &&& g.budget.attempts_used + p.intents@.len() <= g.spec.budget.max_total_attempts
            &&& g.budget.tokens_used < g.spec.budget.max_total_tokens
        },
{
    if admission_stop(g, now) is None && room(g, available_slots) != 0 {
        let order = dispatch_order(g);
        let n = room(g, available_slots);
        placed_is_no_longer(g, order.take(smaller(n, order.len() as int)));
    }
}

/// Only items that are ready are planned, and none whose last send may have
/// been accepted.
pub proof fn plans_admit_ready_items_only(
    p: AdmissionPlan,
    g: WorkGraphRecord,
    available_slots: usize,
    now: i128,
    j: int,
)
    requires
        is_plan(p, g, available_slots, now),
        0 <= j < p.intents@.len(),
    ensures
        exists|i: int|
            0 <= i < g.work@.len() && #[trigger] admissible(g, i) && is_intent(
                p.intents@[j],
                g,
                i,
            ) && g.work@[i].state is Ready && g.work@[i].work_id@ == p.intents@[j].work_id@
                && p.intents@[j].attempt == one_more(g.work@[i].attempts) && !last_send_is_final(
                g,
                g.work@[i].work_id@,
            ),
{
    let all = candidates(g, g.work@.len() as int);
    let order = dispatch_order(g);
    let n = room(g, available_slots);
    let first = order.take(smaller(n, order.len() as int));
    let items = placed(g, first);
    candidates_are_items(g, g.work@.len() as int);
    placed_is_no_longer(g, first);
    assert(is_intent(p.intents@[j], g, items[j]));
    assert(first.contains(items[j]));
    let k = choose|k: int| 0 <= k < first.len() && first[k] == items[j];
    let keys = dispatch_ranks(g, all);
    assert(g.work@.len() == g.work.len());
    every_list_has_an_order(keys);
    assert(order[k] == all[order_of(keys)[k] as int]);
    assert(admissible(g, items[j]));
    final_sends_bar_their_item(g, g.work@[items[j]].work_id@);
    position_is_first(work_ids(g.spec.work@), g.work@[items[j]].work_id@, 0);
}

/// The last send of the item, the one with the highest ordinal, came to an end
/// from which the item is not sent again.
pub open spec fn last_send_is_final(g: WorkGraphRecord, id: Seq<char>) -> bool {
    exists|a: int|
        {
            &&& 0 <= a < g.attempts@.len()
            &&& (#[trigger] g.attempts@[a]).work_id@ == id
            &&& g.attempts@[a].state is Finished
            &&& g.attempts@[a].retry_class != Some(RetryClass::SameWorkSafe)
            &&& forall|b: int|
                0 <= b < g.attempts@.len() && (#[trigger] g.attempts@[b]).work_id@ == id
                    ==> g.attempts@[b].ordinal < g.attempts@[a].ordinal || (
                g.attempts@[b].ordinal == g.attempts@[a].ordinal && b <= a)
        }
}

proof fn latest_is_last(attempts: Seq<ProviderAttemptRecord>, id: Seq<char>, n: int)
    requires
        0 <= n <= attempts.len(),
    ensures
        match latest_attempt(attempts, id, n) {
            Some(a) => 0 <= a < n && attempts[a].work_id@ == id && forall|b: int|
                0 <= b < n && (#[trigger] attempts[b]).work_id@ == id ==> attempts[b].ordinal
                    < attempts[a].ordinal || (attempts[b].ordinal == attempts[a].ordinal && b <= a),
            None => forall|b: int| 0 <= b < n ==> (#[trigger] attempts[b]).work_id@ != id,
        },
    decreases n,
{
    if n > 0 {
        latest_is_last(attempts, id, n - 1);
    }
}

/// An item is barred from being sent again exactly where its last send ended
/// with an outcome that does not allow a repetition.
pub proof fn final_sends_bar_their_item(g: WorkGraphRecord, id: Seq<char>)
    ensures
        retry_forbidden(g, id) == last_send_is_final(g, id),
{
    let n = g.attempts@.len() as int;
    latest_is_last(g.attempts@, id, n);
    if last_send_is_final(g, id) {
        let a = choose|a: int|
            {
                &&& 0 <= a < g.attempts@.len()
                &&& (#[trigger] g.attempts@[a]).work_id@ == id
                &&& g.attempts@[a].state is Finished
                &&& g.attempts@[a].retry_class != Some(RetryClass::SameWorkSafe)
                &&& forall|b: int|
                    0 <= b < g.attempts@.len() && (#[trigger] g.attempts@[b]).work_id@ == id
                        ==> g.attempts@[b].ordinal < g.attempts@[a].ordinal || (
                    g.attempts@[b].ordinal == g.attempts@[a].ordinal && b <= a)
            };
        let l = latest_attempt(g.attempts@, id, n)->0;
        assert(g.attempts@[l].work_id@ == id);
    }
}

/// An item that has not started is blocked if a dependency of it ended without
/// success, is blocked or is uncertain; it waits while a dependency has not
/// succeeded; and where it asks for no quorum it is ready once all of them did.
pub proof fn dependencies_decide_derived_states(
    g: WorkGraphRecord,
    after: WorkGraphRecord,
    now: i128,
    i: int,
    k: int,
)
    requires
        recomputed(g, after, now),
        0 <= i < g.work@.len(),
        g.work@[i].state is Pending || g.work@[i].state is Ready || g.work@[i].state is Blocked,
        work_at(g.spec.work@, g.work@[i].work_id@) == Some(k),
    ensures
        (exists|d: int|
            0 <= d < g.spec.work@[k].depends_on@.len() && can_never_serve(
                g,
                (#[trigger] g.spec.work@[k].depends_on@[d])@,
            )) ==> after.work@[i].state is Blocked,
        g.spec.work@[k].quorum is None ==> {
            &&& (forall|d: int|
                0 <= d < g.spec.work@[k].depends_on@.len() ==> has_succeeded(
                    g,
                    (#[trigger] g.spec.work@[k].depends_on@[d])@,
                )) <==> after.work@[i].state is Ready
            &&& after.work@[i].state is Blocked ==> exists|d: int|
                0 <= d < g.spec.work@[k].depends_on@.len() && can_never_serve(
                    g,
                    (#[trigger] g.spec.work@[k].depends_on@[d])@,
                )
        },
        after.work@[i].state is Ready || after.work@[i].state is Pending
            || after.work@[i].state is Blocked,
        after.work@[i].state is Ready ==> forall|d: int|
            0 <= d < g.spec.work@[k].depends_on@.len() ==> has_succeeded(
                g,
                (#[trigger] g.spec.work@[k].depends_on@[d])@,
            ),
{
    assert(after.work@[i] == rederived(g, i, now));
    let item = g.spec.work@[k];
    assert forall|d: int| 0 <= d < item.depends_on@.len() implies (can_never_serve(
        g,
        (#[trigger] item.depends_on@[d])@,
    ) == state_blocks(state_of(g, item.depends_on@[d]@))) && (has_succeeded(
        g,
        item.depends_on@[d]@,
    ) == (state_of(g, item.depends_on@[d]@) == Some(WorkState::Succeeded))) by {}
}

/// The item succeeded.
pub open spec fn has_succeeded(g: WorkGraphRecord, id: Seq<char>) -> bool {
    match record_at(g.work@, id) {
        Some(q) => g.work@[q].state is Succeeded,
        None => false,
    }
}

/// The item ended without success, is blocked itself, or its fate is unknown.
pub open spec fn can_never_serve(g: WorkGraphRecord, id: Seq<char>) -> bool {
    match record_at(g.work@, id) {
        Some(q) => match g.work@[q].state {
            WorkState::Failed | WorkState::Cancelled | WorkState::TimedOut | WorkState::Discarded
            | WorkState::Blocked | WorkState::DispatchUncertain => true,
            _ => false,
        },
        None => false,
    }
}

/// The review item approved.
pub open spec fn has_approved(g: WorkGraphRecord, id: Seq<char>) -> bool {
    match record_at(g.work@, id) {
        Some(q) => g.work@[q].verdict == Some(ReviewVerdict::Approve),
        None => false,
    }
}

/// The review item gave no verdict yet and has not come to an end.
pub open spec fn may_still_approve(g: WorkGraphRecord, id: Seq<char>) -> bool {
    match record_at(g.work@, id) {
        Some(q) => g.work@[q].verdict is None && match g.work@[q].state {
            WorkState::Succeeded | WorkState::Failed | WorkState::Cancelled | WorkState::TimedOut
            | WorkState::Discarded => false,
            _ => true,
        },
        None => true,
    }
}

proof fn verdicts_are_counted(g: WorkGraphRecord, gate: QuorumGate, n: int)
    requires
        0 <= n <= gate.reviewers@.len(),
    ensures
        approvals(g, gate, n) == gate.reviewers@.take(n).filter(
            |w: WorkId| has_approved(g, w@),
        ).len(),
        undecided(g, gate, n) == gate.reviewers@.take(n).filter(
            |w: WorkId| may_still_approve(g, w@),
        ).len(),
    decreases n,
{
    reveal(Seq::filter);
    if n > 0 {
        verdicts_are_counted(g, gate, n - 1);
        assert(gate.reviewers@.take(n).drop_last() =~= gate.reviewers@.take(n - 1));
        assert(gate.reviewers@.take(n).last() == gate.reviewers@[n - 1]);
    }
}

/// A quorum is met by as many approvals as it asks for. Where too few review
/// items approved or still may, the item is blocked; while the approvals are
/// too few but may still come, it does not run; and with enough of them it is
/// ready as soon as its dependencies succeeded.
pub proof fn quorums_are_met_by_approvals(
    g: WorkGraphRecord,
    after: WorkGraphRecord,
    now: i128,
    i: int,
    k: int,
    gate: QuorumGate,
)
    requires
        recomputed(g, after, now),
        0 <= i < g.work@.len(),
        g.work@[i].state is Pending || g.work@[i].state is Ready || g.work@[i].state is Blocked,
        work_at(g.spec.work@, g.work@[i].work_id@) == Some(k),
        g.spec.work@[k].quorum == Some(gate),
    ensures
        ({
            let approved = gate.reviewers@.filter(|w: WorkId| has_approved(g, w@)).len();
            let open = gate.reviewers@.filter(|w: WorkId| may_still_approve(g, w@)).len();
            &&& approved < gate.required_approvals ==> !(after.work@[i].state is Ready)
            &&& approved + open < gate.required_approvals ==> after.work@[i].state is Blocked
            &&& approved >= gate.required_approvals && (forall|d: int|
                0 <= d < g.spec.work@[k].depends_on@.len() ==> has_succeeded(
                    g,
                    (#[trigger] g.spec.work@[k].depends_on@[d])@,
                )) ==> after.work@[i].state is Ready
        }),
{
    assert(after.work@[i] == rederived(g, i, now));
    verdicts_are_counted(g, gate, gate.reviewers@.len() as int);
    assert(gate.reviewers@.take(gate.reviewers@.len() as int) =~= gate.reviewers@);
    let item = g.spec.work@[k];
    assert forall|d: int|
        0 <= d < item.depends_on@.len() implies has_succeeded(
        g,
        (#[trigger] item.depends_on@[d])@,
    ) == (state_of(g, item.depends_on@[d]@) == Some(WorkState::Succeeded)) by {}
}

} // verus!
