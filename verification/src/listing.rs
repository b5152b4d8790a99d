//! The order in which durable records are listed.
//!
//! Each function hands back positions: where several records are alike, they
//! keep the order they were read in.

use crate::agent::{AgentRecord, AgentSpec};
use crate::assignment::WorkDecision;
use crate::checkpoint::ContinuationCheckpoint;
use crate::order::{
    every_list_has_an_order, is_order, listed_before, listing_is_strict, order_of, ranks,
    sorted_order, Rank, SortKey,
};
use crate::routine::RoutineRecord;
use crate::run::RunRecord;
use crate::text::{str_eq, text_lt_irreflexive};
use crate::workload::{WorkAttempt, WorkItem};
use vstd::prelude::*;
use vstd::string::*;

verus! {

/// Numbers as keys.
pub open spec fn number_ranks(major: Seq<int>, minor: Seq<int>) -> Seq<Rank> {
    Seq::new(
        major.len(),
        |i: int|
            Rank { rank: major[i], minor: minor[i], first: Seq::empty(), second: Seq::empty() },
    )
}

/// The positions in the order of two numbers each.
pub open spec fn by_numbers(major: Seq<int>, minor: Seq<int>) -> Seq<usize> {
    order_of(number_ranks(major, minor))
}

fn key_of(major: i128, minor: i128) -> (k: SortKey)
    ensures
        k@ == (Rank {
            rank: major as int,
            minor: minor as int,
            first: Seq::empty(),
            second: Seq::empty(),
        }),
{
    let k = SortKey { rank: major, minor, first: String::new(), second: String::new() };
    proof {
        assert(k.first@ =~= Seq::<char>::empty());
        assert(k.second@ =~= Seq::<char>::empty());
    }
    k
}

/// The numbers of a list of instants, the latest first.
pub open spec fn latest(times: Seq<i128>) -> Seq<int> {
    Seq::new(times.len(), |i: int| -1 - times[i])
}

/// The numbers of a list of instants.
pub open spec fn earliest(times: Seq<i128>) -> Seq<int> {
    Seq::new(times.len(), |i: int| times[i] as int)
}

/// As many zeros.
pub open spec fn zeros(n: nat) -> Seq<int> {
    Seq::new(n, |i: int| 0)
}

/// The positions of instants, the latest first.
pub fn newest_first(times: &Vec<i128>) -> (order: Vec<usize>)
    ensures
        order@ == by_numbers(latest(times@), zeros(times@.len())),
        is_order(number_ranks(latest(times@), zeros(times@.len())), order@),
{
    let mut keys: Vec<SortKey> = Vec::new();
    let mut i: usize = 0;
    while i < times.len()
        invariant
            i <= times@.len(),
            keys@.len() == i,
            forall|j: int|
                0 <= j < i ==> (#[trigger] keys@[j])@ == number_ranks(
                    latest(times@),
                    zeros(times@.len()),
                )[j],
        decreases times.len() - i,
    {
        keys.push(key_of(-1 - times[i], 0));
        i = i + 1;
    }
    proof {
        assert(ranks(keys@) =~= number_ranks(latest(times@), zeros(times@.len())));
    }
    sorted_order(&keys)
}

/// The positions of instants, the earliest first.
pub fn oldest_first(times: &Vec<i128>) -> (order: Vec<usize>)
    ensures
        order@ == by_numbers(earliest(times@), zeros(times@.len())),
        is_order(number_ranks(earliest(times@), zeros(times@.len())), order@),
{
    let mut keys: Vec<SortKey> = Vec::new();
    let mut i: usize = 0;
    while i < times.len()
        invariant
            i <= times@.len(),
            keys@.len() == i,
            forall|j: int|
                0 <= j < i ==> (#[trigger] keys@[j])@ == number_ranks(
                    earliest(times@),
                    zeros(times@.len()),
                )[j],
        decreases times.len() - i,
    {
        keys.push(key_of(times[i], 0));
        i = i + 1;
    }
    proof {
        assert(ranks(keys@) =~= number_ranks(earliest(times@), zeros(times@.len())));
    }
    sorted_order(&keys)
}

/// Numbers as integers.
pub open spec fn counts(numbers: Seq<u64>) -> Seq<int> {
    Seq::new(numbers.len(), |i: int| numbers[i] as int)
}

/// The positions of numbers, the smallest first.
pub fn lowest_first(numbers: &Vec<u64>) -> (order: Vec<usize>)
    ensures
        order@ == by_numbers(counts(numbers@), zeros(numbers@.len())),
        is_order(number_ranks(counts(numbers@), zeros(numbers@.len())), order@),
{
    let mut keys: Vec<SortKey> = Vec::new();
    let mut i: usize = 0;
    while i < numbers.len()
        invariant
            i <= numbers@.len(),
            keys@.len() == i,
            forall|j: int|
                0 <= j < i ==> (#[trigger] keys@[j])@ == number_ranks(
                    counts(numbers@),
                    zeros(numbers@.len()),
                )[j],
        decreases numbers.len() - i,
    {
        keys.push(key_of(numbers[i] as i128, 0));
        i = i + 1;
    }
    proof {
        assert(ranks(keys@) =~= number_ranks(counts(numbers@), zeros(numbers@.len())));
    }
    sorted_order(&keys)
}

/// When the runs were created.
pub open spec fn run_times(runs: Seq<RunRecord>) -> Seq<i128> {
    Seq::new(runs.len(), |i: int| runs[i].created_at)
}

/// The order in which runs are listed.
pub open spec fn runs_listed(
    runs: Seq<RunRecord>,
    order: Seq<usize>,
) -> bool {
    order == by_numbers(latest(run_times(runs)), zeros(runs.len()))
}

/// Runs, the newest first.
pub fn list_runs(runs: &Vec<RunRecord>) -> (order: Vec<usize>)
    ensures
        runs_listed(
            runs@,
            order@,
        ),
{
    let mut times: Vec<i128> = Vec::new();
    let mut i: usize = 0;
    while i < runs.len()
        invariant
            i <= runs@.len(),
            times@.len() == i,
            forall|j: int| 0 <= j < i ==> #[trigger] times@[j] == runs@[j].created_at,
        decreases runs.len() - i,
    {
        times.push(runs[i].created_at);
        i = i + 1;
    }
    proof {
        assert(times@ =~= run_times(runs@));
    }
    newest_first(&times)
}

/// When the agents were last updated.
pub open spec fn agent_times(agents: Seq<AgentRecord>) -> Seq<i128> {
    Seq::new(agents.len(), |i: int| agents[i].updated_at)
}

/// The order in which agents are listed.
pub open spec fn agents_listed(
    agents: Seq<AgentRecord>,
    order: Seq<usize>,
) -> bool {
    order == by_numbers(latest(agent_times(agents)), zeros(agents.len()))
}

/// Agents, the last updated first.
pub fn list_agents(agents: &Vec<AgentRecord>) -> (order: Vec<usize>)
    ensures
        agents_listed(
            agents@,
            order@,
        ),
{
    let mut times: Vec<i128> = Vec::new();
    let mut i: usize = 0;
    while i < agents.len()
        invariant
            i <= agents@.len(),
            times@.len() == i,
            forall|j: int| 0 <= j < i ==> #[trigger] times@[j] == agents@[j].updated_at,
        decreases agents.len() - i,
    {
        times.push(agents[i].updated_at);
        i = i + 1;
    }
    proof {
        assert(times@ =~= agent_times(agents@));
    }
    newest_first(&times)
}

/// The revisions of specifications.
pub open spec fn spec_revisions(specs: Seq<AgentSpec>) -> Seq<u64> {
    Seq::new(specs.len(), |i: int| specs[i].revision)
}

/// The order in which specifications are listed.
pub open spec fn specs_listed(
    specs: Seq<AgentSpec>,
    order: Seq<usize>,
) -> bool {
    order == by_numbers(counts(spec_revisions(specs)), zeros(specs.len()))
}

/// Specifications of an agent, the first revision first.
pub fn list_agent_specs(specs: &Vec<AgentSpec>) -> (order: Vec<usize>)
    ensures
        specs_listed(
            specs@,
            order@,
        ),
{
    let mut numbers: Vec<u64> = Vec::new();
    let mut i: usize = 0;
    while i < specs.len()
        invariant
            i <= specs@.len(),
            numbers@.len() == i,
            forall|j: int| 0 <= j < i ==> #[trigger] numbers@[j] == specs@[j].revision,
        decreases specs.len() - i,
    {
        numbers.push(specs[i].revision);
        i = i + 1;
    }
    proof {
        assert(numbers@ =~= spec_revisions(specs@));
    }
    lowest_first(&numbers)
}

/// By priority, the highest first, and then by age.
pub open spec fn work_ranks(items: Seq<WorkItem>) -> Seq<Rank> {
    number_ranks(
        Seq::new(items.len(), |i: int| -(items[i].priority as int)),
        Seq::new(items.len(), |i: int| items[i].created_at as int),
    )
}

/// The order in which work is listed.
pub open spec fn work_listed(
    items: Seq<WorkItem>,
    order: Seq<usize>,
) -> bool {
    &&& order == order_of(work_ranks(items))
    &&& is_order(work_ranks(items), order)
}

/// Work items, the most urgent first and then the oldest.
pub fn list_work_items(items: &Vec<WorkItem>) -> (order: Vec<usize>)
    ensures
        work_listed(
            items@,
            order@,
        ),
{
    let mut keys: Vec<SortKey> = Vec::new();
    let mut i: usize = 0;
    while i < items.len()
        invariant
            i <= items@.len(),
            keys@.len() == i,
            forall|j: int| 0 <= j < i ==> (#[trigger] keys@[j])@ == work_ranks(items@)[j],
        decreases items.len() - i,
    {
        keys.push(key_of(-(items[i].priority as i128), items[i].created_at));
        i = i + 1;
    }
    proof {
        assert(ranks(keys@) =~= work_ranks(items@));
    }
    sorted_order(&keys)
}

/// Those of the first `n` attempts that are at this item, or all.
pub open spec fn attempts_at(
    attempts: Seq<WorkAttempt>,
    work_id: Option<Seq<char>>,
    n: int,
) -> Seq<int>
    decreases n,
{
    if n <= 0 {
        Seq::empty()
    } else if work_id is None || attempts[n - 1].work_id@ == work_id->0 {
        attempts_at(attempts, work_id, n - 1).push(n - 1)
    } else {
        attempts_at(attempts, work_id, n - 1)
    }
}

/// The text of an optional string slice.
pub open spec fn text_of(s: Option<&str>) -> Option<Seq<char>> {
    match s {
        Some(s) => Some(s@),
        None => None,
    }
}

/// The numbers of the attempts at these positions.
pub open spec fn attempt_numbers(attempts: Seq<WorkAttempt>, at: Seq<int>) -> Seq<u64> {
    Seq::new(at.len(), |j: int| attempts[at[j]].attempt_number as u64)
}

/// The order in which attempts are listed.
pub open spec fn attempts_listed(
    attempts: Seq<WorkAttempt>,
    work_id: Option<Seq<char>>,
    list: Seq<usize>,
) -> bool {
    let at = attempts_at(attempts, work_id, attempts.len() as int);
    let order = by_numbers(counts(attempt_numbers(attempts, at)), zeros(at.len()));
    &&& list.len() == at.len()
    &&& forall|j: int| 0 <= j < list.len() ==> #[trigger] list[j] == at[order[j] as int]
}

/// Attempts at an item, or at all items, the first attempt first.
pub fn list_work_attempts(attempts: &Vec<WorkAttempt>, work_id: Option<&str>) -> (list: Vec<usize>)
    ensures
        attempts_listed(
            attempts@,
            text_of(work_id),
            list@,
        ),
{
    let mut found: Vec<usize> = Vec::new();
    let mut numbers: Vec<u64> = Vec::new();
    let mut i: usize = 0;
    while i < attempts.len()
        invariant
            i <= attempts@.len(),
            found@.len() == attempts_at(attempts@, text_of(work_id), i as int).len(),
            numbers@.len() == found@.len(),
            forall|j: int|
                0 <= j < found@.len() ==> #[trigger] found@[j] == attempts_at(
                    attempts@,
                    text_of(work_id),
                    i as int,
                )[j],
            forall|j: int|
                0 <= j < numbers@.len() ==> #[trigger] numbers@[j] == attempt_numbers(
                    attempts@,
                    attempts_at(attempts@, text_of(work_id), i as int),
                )[j],
        decreases attempts.len() - i,
    {
        let wanted: bool = match work_id {
            Some(id) => str_eq(attempts[i].work_id.as_str(), id),
            None => true,
        };
        if wanted {
            found.push(i);
            numbers.push(attempts[i].attempt_number as u64);
        }
        i = i + 1;
    }
    let ghost at = attempts_at(attempts@, text_of(work_id), attempts@.len() as int);
    proof {
        assert(numbers@ =~= attempt_numbers(attempts@, at));
    }
    let order: Vec<usize> = lowest_first(&numbers);
    let mut list: Vec<usize> = Vec::new();
    let mut k: usize = 0;
    while k < order.len()
        invariant
            k <= order@.len(),
            order@.len() == found@.len(),
            found@.len() == at.len(),
            forall|j: int| 0 <= j < order@.len() ==> 0 <= #[trigger] order@[j] < found@.len(),
            forall|j: int| 0 <= j < found@.len() ==> #[trigger] found@[j] == at[j],
            list@.len() == k,
            forall|j: int| 0 <= j < k ==> #[trigger] list@[j] == at[order@[j] as int],
        decreases order.len() - k,
    {
        list.push(found[order[k]]);
        k = k + 1;
    }
    list
}

/// Those of the first `n` checkpoints that belong to this agent, or all.
pub open spec fn checkpoints_of(
    checkpoints: Seq<ContinuationCheckpoint>,
    agent_id: Option<Seq<char>>,
    n: int,
) -> Seq<int>
    decreases n,
{
    if n <= 0 {
        Seq::empty()
    } else if agent_id is None || checkpoints[n - 1].agent_id@ == agent_id->0 {
        checkpoints_of(checkpoints, agent_id, n - 1).push(n - 1)
    } else {
        checkpoints_of(checkpoints, agent_id, n - 1)
    }
}

/// By ordinal, the highest first, and then by time, the latest first.
pub open spec fn checkpoint_ranks(
    checkpoints: Seq<ContinuationCheckpoint>,
    at: Seq<int>,
) -> Seq<Rank> {
    number_ranks(
        Seq::new(at.len(), |j: int| -(checkpoints[at[j]].ordinal as int)),
        Seq::new(at.len(), |j: int| -1 - checkpoints[at[j]].created_at),
    )
}

/// The order in which checkpoints are listed.
pub open spec fn checkpoints_listed(
    checkpoints: Seq<ContinuationCheckpoint>,
    agent_id: Option<Seq<char>>,
    list: Seq<usize>,
) -> bool {
    let at = checkpoints_of(checkpoints, agent_id, checkpoints.len() as int);
    let order = order_of(checkpoint_ranks(checkpoints, at));
    &&& list.len() == at.len()
    &&& forall|j: int| 0 <= j < list.len() ==> #[trigger] list[j] == at[order[j] as int]
}

/// Checkpoints of an agent, or of all agents, the last first.
pub fn list_checkpoints(
    checkpoints: &Vec<ContinuationCheckpoint>,
    agent_id: Option<&str>,
) -> (list: Vec<usize>)
    ensures
        checkpoints_listed(
            checkpoints@,
            text_of(agent_id),
            list@,
        ),
{
    let mut found: Vec<usize> = Vec::new();
    let mut keys: Vec<SortKey> = Vec::new();
    let mut i: usize = 0;
    while i < checkpoints.len()
        invariant
            i <= checkpoints@.len(),
            found@.len() == checkpoints_of(checkpoints@, text_of(agent_id), i as int).len(),
            keys@.len() == found@.len(),
            forall|j: int|
                0 <= j < found@.len() ==> #[trigger] found@[j] == checkpoints_of(
                    checkpoints@,
                    text_of(agent_id),
                    i as int,
                )[j],
            forall|j: int|
                0 <= j < keys@.len() ==> (#[trigger] keys@[j])@ == checkpoint_ranks(
                    checkpoints@,
                    checkpoints_of(checkpoints@, text_of(agent_id), i as int),
                )[j],
        decreases checkpoints.len() - i,
    {
        let wanted: bool = match agent_id {
            Some(id) => str_eq(checkpoints[i].agent_id.as_str(), id),
            None => true,
        };
        if wanted {
            found.push(i);
            keys.push(
                key_of(-(checkpoints[i].ordinal as i128), -1 - checkpoints[i].created_at),
            );
        }
        i = i + 1;
    }
    let ghost at = checkpoints_of(checkpoints@, text_of(agent_id), checkpoints@.len() as int);
    proof {
        assert(ranks(keys@) =~= checkpoint_ranks(checkpoints@, at));
    }
    let order: Vec<usize> = sorted_order(&keys);
    let mut list: Vec<usize> = Vec::new();
    let mut k: usize = 0;
    while k < order.len()
        invariant
            k <= order@.len(),
            order@.len() == found@.len(),
            found@.len() == at.len(),
            forall|j: int| 0 <= j < order@.len() ==> 0 <= #[trigger] order@[j] < found@.len(),
            forall|j: int| 0 <= j < found@.len() ==> #[trigger] found@[j] == at[j],
            list@.len() == k,
            forall|j: int| 0 <= j < k ==> #[trigger] list@[j] == at[order@[j] as int],
        decreases order.len() - k,
    {
        list.push(found[order[k]]);
        k = k + 1;
    }
    list
}

/// When the routines changed last.
pub open spec fn routine_times(routines: Seq<RoutineRecord>) -> Seq<i128> {
    Seq::new(routines.len(), |i: int| routines[i].updated_at)
}

/// The order in which routines are listed.
pub open spec fn routines_listed(
    routines: Seq<RoutineRecord>,
    order: Seq<usize>,
) -> bool {
    order == by_numbers(latest(routine_times(routines)), zeros(routines.len()))
}

/// Routines, the one that changed last first.
pub fn list_routines(routines: &Vec<RoutineRecord>) -> (order: Vec<usize>)
    ensures
        routines_listed(
            routines@,
            order@,
        ),
{
    let mut times: Vec<i128> = Vec::new();
    let mut i: usize = 0;
    while i < routines.len()
        invariant
            i <= routines@.len(),
            times@.len() == i,
            forall|j: int| 0 <= j < i ==> #[trigger] times@[j] == routines@[j].updated_at,
        decreases routines.len() - i,
    {
        times.push(routines[i].updated_at);
        i = i + 1;
    }
    proof {
        assert(times@ =~= routine_times(routines@));
    }
    newest_first(&times)
}

/// When the decisions were made.
pub open spec fn decision_times(decisions: Seq<WorkDecision>) -> Seq<i128> {
    Seq::new(decisions.len(), |i: int| decisions[i].created_at)
}

/// The order in which decisions are listed.
pub open spec fn decisions_listed(
    decisions: Seq<WorkDecision>,
    order: Seq<usize>,
) -> bool {
    order == by_numbers(earliest(decision_times(decisions)), zeros(decisions.len()))
}

/// Decisions about work, the oldest first.
pub fn list_work_decisions(decisions: &Vec<WorkDecision>) -> (order: Vec<usize>)
    ensures
        decisions_listed(
            decisions@,
            order@,
        ),
{
    let mut times: Vec<i128> = Vec::new();
    let mut i: usize = 0;
    while i < decisions.len()
        invariant
            i <= decisions@.len(),
            times@.len() == i,
            forall|j: int| 0 <= j < i ==> #[trigger] times@[j] == decisions@[j].created_at,
        decreases decisions.len() - i,
    {
        times.push(decisions[i].created_at);
        i = i + 1;
    }
    proof {
        assert(times@ =~= decision_times(decisions@));
    }
    oldest_first(&times)
}

/// Every one of `n` positions is listed, and none twice.
pub open spec fn lists_each_once(n: nat, order: Seq<usize>) -> bool {
    &&& order.len() == n
    &&& forall|i: int| 0 <= i < order.len() ==> 0 <= #[trigger] order[i] < n
    &&& forall|i: int, j: int|
        0 <= i < j < order.len() ==> #[trigger] order[i] != #[trigger] order[j]
}

proof fn orders_list_each_once(keys: Seq<Rank>, order: Seq<usize>)
    requires
        is_order(keys, order),
    ensures
        lists_each_once(keys.len(), order),
{
    assert forall|i: int, j: int| 0 <= i < j < order.len() implies #[trigger] order[i]
        != #[trigger] order[j] by {
        listing_is_strict(keys, order, i, j);
    }
}

pub(crate) proof fn numbers_are_ordered(major: Seq<int>, minor: Seq<int>)
    requires
        major.len() <= usize::MAX,
        minor.len() == major.len(),
    ensures
        is_order(number_ranks(major, minor), by_numbers(major, minor)),
        lists_each_once(major.len(), by_numbers(major, minor)),
        forall|a: int, b: int|
            0 <= a < major.len() && 0 <= b < major.len() && listed_before(
                number_ranks(major, minor),
                a,
                b,
            ) ==> {
                ||| major[a] < major[b]
                ||| major[a] == major[b] && minor[a] < minor[b]
                ||| major[a] == major[b] && minor[a] == minor[b] && #[trigger] number_ranks(
                    major,
                    minor,
                )[a] == #[trigger] number_ranks(major, minor)[b] && a < b
            },
{
    let keys = number_ranks(major, minor);
    every_list_has_an_order(keys);
    orders_list_each_once(keys, by_numbers(major, minor));
    assert forall|a: int, b: int|
        0 <= a < major.len() && 0 <= b < major.len() && listed_before(keys, a, b) implies {
        ||| major[a] < major[b]
        ||| major[a] == major[b] && minor[a] < minor[b]
        ||| major[a] == major[b] && minor[a] == minor[b] && #[trigger] keys[a]
            == #[trigger] keys[b] && a < b
    } by {
        text_lt_irreflexive(Seq::<char>::empty());
    }
}

/// Runs are listed by creation, the newest first.
pub proof fn runs_are_listed_newest_first(runs: Seq<RunRecord>, order: Seq<usize>)
    requires
        runs_listed(runs, order),
        runs.len() <= usize::MAX,
    ensures
        lists_each_once(runs.len(), order),
        forall|i: int, j: int|
            0 <= i < j < order.len() ==> {
                let a = #[trigger] order[i] as int;
                let b = #[trigger] order[j] as int;
                runs[a].created_at >= runs[b].created_at && (runs[a].created_at == runs[b].created_at ==> a < b)
            },
{
    let keys = number_ranks(latest(run_times(runs)), zeros(runs.len()));
    numbers_are_ordered(latest(run_times(runs)), zeros(runs.len()));
    assert forall|i: int, j: int| 0 <= i < j < order.len() implies {
        let a = #[trigger] order[i] as int;
        let b = #[trigger] order[j] as int;
        runs[a].created_at >= runs[b].created_at && (runs[a].created_at == runs[b].created_at ==> a < b)
    } by {
        assert(listed_before(keys, order[i] as int, order[j] as int));
    }
}

/// Agents are listed by their last update, the latest first.
pub proof fn agents_are_listed_by_update(agents: Seq<AgentRecord>, order: Seq<usize>)
    requires
        agents_listed(agents, order),
        agents.len() <= usize::MAX,
    ensures
        lists_each_once(agents.len(), order),
        forall|i: int, j: int|
            0 <= i < j < order.len() ==> {
                let a = #[trigger] order[i] as int;
                let b = #[trigger] order[j] as int;
                agents[a].updated_at >= agents[b].updated_at && (agents[a].updated_at == agents[b].updated_at ==> a < b)
            },
{
    let keys = number_ranks(latest(agent_times(agents)), zeros(agents.len()));
    numbers_are_ordered(latest(agent_times(agents)), zeros(agents.len()));
    assert forall|i: int, j: int| 0 <= i < j < order.len() implies {
        let a = #[trigger] order[i] as int;
        let b = #[trigger] order[j] as int;
        agents[a].updated_at >= agents[b].updated_at && (agents[a].updated_at == agents[b].updated_at ==> a < b)
    } by {
        assert(listed_before(keys, order[i] as int, order[j] as int));
    }
}

/// Specifications are listed by revision, the first one first.
pub proof fn specs_are_listed_by_revision(specs: Seq<AgentSpec>, order: Seq<usize>)
    requires
        specs_listed(specs, order),
        specs.len() <= usize::MAX,
    ensures
        lists_each_once(specs.len(), order),
        forall|i: int, j: int|
            0 <= i < j < order.len() ==> {
                let a = #[trigger] order[i] as int;
                let b = #[trigger] order[j] as int;
                specs[a].revision <= specs[b].revision && (specs[a].revision == specs[b].revision ==> a < b)
            },
{
    let keys = number_ranks(counts(spec_revisions(specs)), zeros(specs.len()));
    numbers_are_ordered(counts(spec_revisions(specs)), zeros(specs.len()));
    assert forall|i: int, j: int| 0 <= i < j < order.len() implies {
        let a = #[trigger] order[i] as int;
        let b = #[trigger] order[j] as int;
        specs[a].revision <= specs[b].revision && (specs[a].revision == specs[b].revision ==> a < b)
    } by {
        assert(listed_before(keys, order[i] as int, order[j] as int));
    }
}

/// Routines are listed by their last update, the latest first.
pub proof fn routines_are_listed_by_update(routines: Seq<RoutineRecord>, order: Seq<usize>)
    requires
        routines_listed(routines, order),
        routines.len() <= usize::MAX,
    ensures
        lists_each_once(routines.len(), order),
        forall|i: int, j: int|
            0 <= i < j < order.len() ==> {
                let a = #[trigger] order[i] as int;
                let b = #[trigger] order[j] as int;
                routines[a].updated_at >= routines[b].updated_at && (routines[a].updated_at == routines[b].updated_at ==> a < b)
            },
{
    let keys = number_ranks(latest(routine_times(routines)), zeros(routines.len()));
    numbers_are_ordered(latest(routine_times(routines)), zeros(routines.len()));
    assert forall|i: int, j: int| 0 <= i < j < order.len() implies {
        let a = #[trigger] order[i] as int;
        let b = #[trigger] order[j] as int;
        routines[a].updated_at >= routines[b].updated_at && (routines[a].updated_at == routines[b].updated_at ==> a < b)
    } by {
        assert(listed_before(keys, order[i] as int, order[j] as int));
    }
}

/// Decisions are listed in the order in which they were taken.
pub proof fn decisions_are_listed_oldest_first(decisions: Seq<WorkDecision>, order: Seq<usize>)
    requires
        decisions_listed(decisions, order),
        decisions.len() <= usize::MAX,
    ensures
        lists_each_once(decisions.len(), order),
        forall|i: int, j: int|
            0 <= i < j < order.len() ==> {
                let a = #[trigger] order[i] as int;
                let b = #[trigger] order[j] as int;
                decisions[a].created_at <= decisions[b].created_at && (decisions[a].created_at == decisions[b].created_at ==> a < b)
            },
{
    let keys = number_ranks(earliest(decision_times(decisions)), zeros(decisions.len()));
    numbers_are_ordered(earliest(decision_times(decisions)), zeros(decisions.len()));
    assert forall|i: int, j: int| 0 <= i < j < order.len() implies {
        let a = #[trigger] order[i] as int;
        let b = #[trigger] order[j] as int;
        decisions[a].created_at <= decisions[b].created_at && (decisions[a].created_at == decisions[b].created_at ==> a < b)
    } by {
        assert(listed_before(keys, order[i] as int, order[j] as int));
    }
}

/// Work is listed by priority, the highest first; work of one priority by age,
/// the oldest first.
pub proof fn work_is_listed_by_priority(items: Seq<WorkItem>, order: Seq<usize>)
    requires
        work_listed(items, order),
        items.len() <= usize::MAX,
    ensures
        lists_each_once(items.len(), order),
        forall|i: int, j: int|
            0 <= i < j < order.len() ==> {
                let a = items[#[trigger] order[i] as int];
                let b = items[#[trigger] order[j] as int];
                a.priority > b.priority || (a.priority == b.priority && a.created_at
                    <= b.created_at)
            },
{
    let major = Seq::new(items.len(), |i: int| -(items[i].priority as int));
    let minor = Seq::new(items.len(), |i: int| items[i].created_at as int);
    numbers_are_ordered(major, minor);
    assert forall|i: int, j: int| 0 <= i < j < order.len() implies {
        let a = items[#[trigger] order[i] as int];
        let b = items[#[trigger] order[j] as int];
        a.priority > b.priority || (a.priority == b.priority && a.created_at <= b.created_at)
    } by {
        assert(listed_before(number_ranks(major, minor), order[i] as int, order[j] as int));
    }
}

proof fn chosen_attempts(attempts: Seq<WorkAttempt>, work_id: Option<Seq<char>>, n: int)
    requires
        0 <= n <= attempts.len(),
    ensures
        attempts_at(attempts, work_id, n).len() <= n,
        forall|j: int|
            0 <= j < attempts_at(attempts, work_id, n).len() ==> 0 <= #[trigger] attempts_at(
                attempts,
                work_id,
                n,
            )[j] < n && (work_id is Some ==> attempts[attempts_at(
                attempts,
                work_id,
                n,
            )[j]].work_id@ == work_id->0),
        forall|k: int|
            0 <= k < n && (work_id is None || (#[trigger] attempts[k]).work_id@ == work_id->0)
                ==> attempts_at(attempts, work_id, n).contains(k),
    decreases n,
{
    if n > 0 {
        chosen_attempts(attempts, work_id, n - 1);
        let before = attempts_at(attempts, work_id, n - 1);
        let at = attempts_at(attempts, work_id, n);
        assert forall|k: int|
            0 <= k < n && (work_id is None || (#[trigger] attempts[k]).work_id@
                == work_id->0) implies at.contains(k) by {
            if k == n - 1 {
                assert(at.last() == k);
            } else {
                assert(before.contains(k));
                let j = choose|j: int| 0 <= j < before.len() && before[j] == k;
                assert(at[j] == k);
            }
        }
    }
}

/// The attempts at an item, or all, are listed by their number, the first one
/// first; none is left out, and no other is listed.
pub proof fn attempts_are_listed_by_number(
    attempts: Seq<WorkAttempt>,
    work_id: Option<Seq<char>>,
    list: Seq<usize>,
)
    requires
        attempts_listed(attempts, work_id, list),
        attempts.len() <= usize::MAX,
    ensures
        forall|i: int|
            0 <= i < list.len() ==> (#[trigger] list[i]) < attempts.len() && (work_id is Some
                ==> attempts[list[i] as int].work_id@ == work_id->0),
        forall|k: int|
            0 <= k < attempts.len() && (work_id is None || (#[trigger] attempts[k]).work_id@
                == work_id->0) ==> list.contains(k as usize),
        forall|i: int, j: int|
            0 <= i < j < list.len() ==> attempts[#[trigger] list[i] as int].attempt_number
                <= attempts[#[trigger] list[j] as int].attempt_number,
{
    let n = attempts.len() as int;
    let at = attempts_at(attempts, work_id, n);
    chosen_attempts(attempts, work_id, n);
    let major = counts(attempt_numbers(attempts, at));
    let order = by_numbers(major, zeros(at.len()));
    numbers_are_ordered(major, zeros(at.len()));
    assert forall|i: int, j: int| 0 <= i < j < list.len() implies attempts[
        #[trigger] list[i] as int].attempt_number <= attempts[
    #[trigger] list[j] as int].attempt_number by {
        assert(list[i] == at[order[i] as int] && list[j] == at[order[j] as int]);
        assert(listed_before(
            number_ranks(major, zeros(at.len())),
            order[i] as int,
            order[j] as int,
        ));
    }
    assert forall|k: int|
        0 <= k < attempts.len() && (work_id is None || (#[trigger] attempts[k]).work_id@
            == work_id->0) implies list.contains(k as usize) by {
        assert(at.contains(k));
        let j = choose|j: int| 0 <= j < at.len() && at[j] == k;
        assert(order.contains(j as usize));
        let m = choose|m: int| 0 <= m < order.len() && order[m] == j as usize;
        assert(list[m] == at[order[m] as int]);
    }
}

proof fn chosen_checkpoints(
    checkpoints: Seq<ContinuationCheckpoint>,
    agent_id: Option<Seq<char>>,
    n: int,
)
    requires
        0 <= n <= checkpoints.len(),
    ensures
        checkpoints_of(checkpoints, agent_id, n).len() <= n,
        forall|j: int|
            0 <= j < checkpoints_of(checkpoints, agent_id, n).len() ==> 0
                <= #[trigger] checkpoints_of(checkpoints, agent_id, n)[j] < n && (agent_id is Some
                ==> checkpoints[checkpoints_of(checkpoints, agent_id, n)[j]].agent_id@
                == agent_id->0),
        forall|k: int|
            0 <= k < n && (agent_id is None || (#[trigger] checkpoints[k]).agent_id@
                == agent_id->0) ==> checkpoints_of(checkpoints, agent_id, n).contains(k),
    decreases n,
{
    if n > 0 {
        chosen_checkpoints(checkpoints, agent_id, n - 1);
        let before = checkpoints_of(checkpoints, agent_id, n - 1);
        let at = checkpoints_of(checkpoints, agent_id, n);
        assert forall|k: int|
            0 <= k < n && (agent_id is None || (#[trigger] checkpoints[k]).agent_id@
                == agent_id->0) implies at.contains(k) by {
            if k == n - 1 {
                assert(at.last() == k);
            } else {
                assert(before.contains(k));
                let j = choose|j: int| 0 <= j < before.len() && before[j] == k;
                assert(at[j] == k);
            }
        }
    }
}

/// The checkpoints of an agent, or all, are listed by ordinal, the last one
/// first, and then by time, the latest first; none is left out, and no other is
/// listed.
pub proof fn checkpoints_are_listed_last_first(
    checkpoints: Seq<ContinuationCheckpoint>,
    agent_id: Option<Seq<char>>,
    list: Seq<usize>,
)
    requires
        checkpoints_listed(checkpoints, agent_id, list),
        checkpoints.len() <= usize::MAX,
    ensures
        forall|i: int|
            0 <= i < list.len() ==> (#[trigger] list[i]) < checkpoints.len() && (agent_id is Some
                ==> checkpoints[list[i] as int].agent_id@ == agent_id->0),
        forall|k: int|
            0 <= k < checkpoints.len() && (agent_id is None || (#[trigger] checkpoints[k]).agent_id@
                == agent_id->0) ==> list.contains(k as usize),
        forall|i: int, j: int|
            0 <= i < j < list.len() ==> {
                let a = checkpoints[#[trigger] list[i] as int];
                let b = checkpoints[#[trigger] list[j] as int];
                a.ordinal > b.ordinal || (a.ordinal == b.ordinal && a.created_at >= b.created_at)
            },
{
    let n = checkpoints.len() as int;
    let at = checkpoints_of(checkpoints, agent_id, n);
    chosen_checkpoints(checkpoints, agent_id, n);
    let major = Seq::new(at.len(), |j: int| -(checkpoints[at[j]].ordinal as int));
    let minor = Seq::new(at.len(), |j: int| -1 - checkpoints[at[j]].created_at);
    let order = by_numbers(major, minor);
    numbers_are_ordered(major, minor);
    assert(checkpoint_ranks(checkpoints, at) =~= number_ranks(major, minor));
    assert forall|i: int, j: int| 0 <= i < j < list.len() implies {
        let a = checkpoints[#[trigger] list[i] as int];
        let b = checkpoints[#[trigger] list[j] as int];
        a.ordinal > b.ordinal || (a.ordinal == b.ordinal && a.created_at >= b.created_at)
    } by {
        assert(list[i] == at[order[i] as int] && list[j] == at[order[j] as int]);
        assert(listed_before(number_ranks(major, minor), order[i] as int, order[j] as int));
    }
    assert forall|k: int|
        0 <= k < checkpoints.len() && (agent_id is None || (#[trigger] checkpoints[k]).agent_id@
            == agent_id->0) implies list.contains(k as usize) by {
        assert(at.contains(k));
        let j = choose|j: int| 0 <= j < at.len() && at[j] == k;
        assert(order.contains(j as usize));
        let m = choose|m: int| 0 <= m < order.len() && order[m] == j as usize;
        assert(list[m] == at[order[m] as int]);
    }
}

} // verus!
