//! Manager plans and decisions, as far as they are stored together with work.

use crate::error::{
    conflict, conflict_fault, fault, invalid, invalid_fault, judged, refused, Fault, OrchError,
    OrchErrorCode,
};
use crate::listing::{
    by_numbers, earliest, latest, lists_each_once, newest_first, number_ranks, numbers_are_ordered,
    oldest_first, text_of, zeros,
};
use crate::message::option_text;
use crate::order::listed_before;
use crate::text::str_eq;
use crate::workload::{item_fault, WorkItem};
use vstd::prelude::*;
use vstd::string::*;

verus! {

/// A manager's plan: what ties it to its work.
#[derive(Debug)]
pub struct ManagerPlan {
    pub plan_id: String,
    pub root_work_id: String,
    pub session_id: u128,
    pub workspace: String,
    pub revision: u64,
    pub updated_at: i128,
}

/// A manager's decision.
#[derive(Debug)]
pub struct ManagerDecisionRecord {
    pub decision_id: String,
    pub plan_id: String,
    pub created_at: i128,
}

/// The work is the root of the plan.
pub open spec fn is_root(plan: ManagerPlan, root: WorkItem) -> bool {
    &&& root.is_container
    &&& root.work_id@ == plan.root_work_id@
    &&& root.session_id == plan.session_id
    &&& root.workspace@ == plan.workspace@
}

/// What a check of a plan with its root comes to.
pub open spec fn rooting(
    plan: ManagerPlan,
    root: WorkItem,
    refusal: Option<OrchError>,
    r: Result<(), OrchError>,
) -> bool {
    match refusal {
        Some(e) => r == Err::<(), OrchError>(e),
        None => judged(
            r,
            match item_fault(root) {
                Some(f) => Some(invalid_fault(f.message)),
                None => if is_root(plan, root) {
                    None
                } else {
                    Some(invalid_fault("manager root Work does not match its plan"@))
                },
            },
        ),
    }
}

/// Whether a plan and its root may be stored together. `refusal` says why the
/// plan is refused as it stands.
pub fn check_plan_with_root(plan: &ManagerPlan, root: &WorkItem, refusal: Option<OrchError>) -> (r:
    Result<(), OrchError>)
    ensures
        rooting(
            *plan,
            *root,
            refusal,
            r,
        ),
{
    match refusal {
        Some(e) => {
            return Err(e);
        },
        None => {},
    }
    match root.validate() {
        Ok(()) => {},
        Err(e) => {
            return Err(invalid(e.message.as_str()));
        },
    }
    if !root.is_container || !str_eq(root.work_id.as_str(), plan.root_work_id.as_str())
        || root.session_id != plan.session_id || !str_eq(
        root.workspace.as_str(),
        plan.workspace.as_str(),
    ) {
        return Err(invalid("manager root Work does not match its plan"));
    }
    Ok(())
}

/// Why a plan is not replaced.
pub open spec fn swap_fault(current: Option<ManagerPlan>, expected_revision: u64) -> Option<Fault> {
    match current {
        None => Some(invalid_fault("unknown plan_id"@)),
        Some(plan) => if plan.revision != expected_revision {
            Some(
                fault(
                    OrchErrorCode::StaleVersion,
                    "manager plan changed before the mutation could be committed"@,
                ),
            )
        } else {
            None
        },
    }
}

/// Whether a plan may be replaced: only by a writer that saw the stored one. So
/// two writers cannot both make work for one step.
pub fn check_plan_swap(current: Option<&ManagerPlan>, expected_revision: u64) -> (r: Result<
    (),
    OrchError,
>)
    ensures
        judged(
            r,
            swap_fault(
                match current {
                    Some(p) => Some(*p),
                    None => None,
                },
                expected_revision,
            ),
        ),
{
    match current {
        None => Err(invalid("unknown plan_id")),
        Some(plan) => {
            if plan.revision != expected_revision {
                return Err(
                    OrchError::new(
                        OrchErrorCode::StaleVersion,
                        "manager plan changed before the mutation could be committed",
                    ),
                );
            }
            Ok(())
        },
    }
}

/// Of two writers that saw the same plan, the second is refused once the first
/// has stored another revision.
pub proof fn one_planner_wins(seen: ManagerPlan, stored: ManagerPlan)
    requires
        stored.revision != seen.revision,
    ensures
        swap_fault(Some(seen), seen.revision) is None,
        swap_fault(Some(stored), seen.revision) is Some,
{
}

/// What a check of the work of a decision comes to.
pub open spec fn decision_work_checking(
    work: WorkItem,
    existing: Option<WorkItem>,
    refusal: Option<OrchError>,
    r: Result<bool, OrchError>,
) -> bool {
    match refusal {
        Some(e) => r == Err::<bool, OrchError>(e),
        None => match existing {
            None => r == Ok::<bool, OrchError>(true),
            Some(e) => if option_text(e.source_manager_plan_id) != option_text(
                work.source_manager_plan_id,
            ) || e.kind@ != work.kind@ {
                refused(
                    r,
                    conflict_fault(
                        "manager decision Work ID is already owned by another occurrence"@,
                    ),
                )
            } else {
                r == Ok::<bool, OrchError>(false)
            },
        },
    }
}

/// Whether the work of a decision is to be written: it is not when it is on
/// record for the same occurrence. `refusal` says why the decision is refused
/// as it stands.
pub fn check_decision_work(work: &WorkItem, existing: Option<&WorkItem>, refusal: Option<OrchError>) -> (r:
    Result<bool, OrchError>)
    ensures
        decision_work_checking(
            *work,
            match existing {
                Some(e) => Some(*e),
                None => None,
            },
            refusal,
            r,
        ),
{
    match refusal {
        Some(e) => {
            return Err(e);
        },
        None => {},
    }
    match existing {
        None => Ok(true),
        Some(e) => {
            let same_plan: bool = match (&e.source_manager_plan_id, &work.source_manager_plan_id) {
                (Some(a), Some(b)) => str_eq(a.as_str(), b.as_str()),
                (None, None) => true,
                _ => false,
            };
            if !same_plan || !str_eq(e.kind.as_str(), work.kind.as_str()) {
                return Err(
                    conflict("manager decision Work ID is already owned by another occurrence"),
                );
            }
            Ok(false)
        },
    }
}

/// When the plans changed last.
pub open spec fn plan_times(plans: Seq<ManagerPlan>) -> Seq<i128> {
    Seq::new(plans.len(), |i: int| plans[i].updated_at)
}

/// How plans are listed.
pub open spec fn plans_listed(
    plans: Seq<ManagerPlan>,
    order: Seq<usize>,
) -> bool {
    order == by_numbers(latest(plan_times(plans)), zeros(plans.len()))
}

/// The plans, the one that changed last first.
pub fn list_manager_plans(plans: &Vec<ManagerPlan>) -> (order: Vec<usize>)
    ensures
        plans_listed(
            plans@,
            order@,
        ),
{
    let mut times: Vec<i128> = Vec::new();
    let mut i: usize = 0;
    while i < plans.len()
        invariant
            i <= plans@.len(),
            times@.len() == i,
            forall|j: int| 0 <= j < i ==> #[trigger] times@[j] == plans@[j].updated_at,
        decreases plans.len() - i,
    {
        times.push(plans[i].updated_at);
        i = i + 1;
    }
    proof {
        assert(times@ =~= plan_times(plans@));
    }
    newest_first(&times)
}

/// The decision belongs to the plan that is asked for.
pub open spec fn is_of_plan(d: ManagerDecisionRecord, plan_id: Option<Seq<char>>) -> bool {
    plan_id is None || d.plan_id@ == plan_id->0
}

/// The positions below `n` of the decisions that are asked for.
pub open spec fn decisions_of(
    decisions: Seq<ManagerDecisionRecord>,
    plan_id: Option<Seq<char>>,
    n: int,
) -> Seq<usize>
    decreases n,
{
    if n <= 0 {
        Seq::empty()
    } else {
        let rest = decisions_of(decisions, plan_id, n - 1);
        if is_of_plan(decisions[n - 1], plan_id) {
            rest.push((n - 1) as usize)
        } else {
            rest
        }
    }
}

/// When the decisions at these positions were made.
pub open spec fn decision_times(decisions: Seq<ManagerDecisionRecord>, at: Seq<usize>) -> Seq<i128> {
    Seq::new(at.len(), |i: int| decisions[at[i] as int].created_at)
}

/// How decisions are listed.
pub open spec fn manager_decisions_listed(
    decisions: Seq<ManagerDecisionRecord>,
    plan_id: Option<Seq<char>>,
    list: Seq<usize>,
) -> bool {
    let at = decisions_of(decisions, plan_id, decisions.len() as int);
    let order = by_numbers(earliest(decision_times(decisions, at)), zeros(at.len()));
    list == Seq::new(order.len(), |i: int| at[order[i] as int])
}

/// The decisions, of one plan if one is given, the oldest first.
pub fn list_manager_decisions(
    decisions: &Vec<ManagerDecisionRecord>,
    plan_id: Option<&str>,
) -> (list: Vec<usize>)
    ensures
        manager_decisions_listed(
            decisions@,
            text_of(plan_id),
            list@,
        ),
{
    let mut at: Vec<usize> = Vec::new();
    let mut times: Vec<i128> = Vec::new();
    let mut i: usize = 0;
    while i < decisions.len()
        invariant
            i <= decisions@.len(),
            at@ == decisions_of(decisions@, text_of(plan_id), i as int),
            times@.len() == at@.len(),
            forall|j: int| 0 <= j < at@.len() ==> 0 <= #[trigger] at@[j] < i,
            forall|j: int|
                0 <= j < at@.len() ==> #[trigger] times@[j] == decisions@[at@[j] as int].created_at,
        decreases decisions.len() - i,
    {
        let listed: bool = match plan_id {
            Some(id) => str_eq(decisions[i].plan_id.as_str(), id),
            None => true,
        };
        if listed {
            at.push(i);
            times.push(decisions[i].created_at);
        }
        i = i + 1;
    }
    proof {
        assert(times@ =~= decision_times(decisions@, at@));
    }
    let order: Vec<usize> = oldest_first(&times);
    let mut list: Vec<usize> = Vec::new();
    let mut k: usize = 0;
    while k < order.len()
        invariant
            k <= order@.len(),
            forall|j: int| 0 <= j < order@.len() ==> 0 <= #[trigger] order@[j] < at@.len(),
            list@.len() == k,
            forall|j: int| 0 <= j < k ==> #[trigger] list@[j] == at@[order@[j] as int],
        decreases order.len() - k,
    {
        list.push(at[order[k]]);
        k = k + 1;
    }
    proof {
        assert(list@ =~= Seq::new(order@.len(), |i: int| at@[order@[i] as int]));
    }
    list
}

/// A plan goes with a root that is a container of work under the name, in the
/// session and in the workspace that the plan gives; and with no other.
pub proof fn plans_have_their_root(
    plan: ManagerPlan,
    root: WorkItem,
    refusal: Option<OrchError>,
    r: Result<(), OrchError>,
)
    requires
        rooting(plan, root, refusal, r),
    ensures
        r is Ok <==> {
            &&& refusal is None
            &&& item_fault(root) is None
            &&& root.is_container
            &&& root.work_id@ == plan.root_work_id@
            &&& root.session_id == plan.session_id
            &&& root.workspace@ == plan.workspace@
        },
{
}

/// A plan is changed exactly over the revision that was seen.
pub proof fn plans_change_under_their_revision(
    current: Option<ManagerPlan>,
    expected: u64,
    r: Result<(), OrchError>,
)
    requires
        judged(r, swap_fault(current, expected)),
    ensures
        r is Ok <==> current is Some && current->0.revision == expected,
{
}

/// The work of a decision is new where nothing is stored under its name, known
/// where the same plan made work of the same kind, and refused otherwise.
pub proof fn decisions_make_their_work_once(
    work: WorkItem,
    existing: Option<WorkItem>,
    refusal: Option<OrchError>,
    r: Result<bool, OrchError>,
)
    requires
        decision_work_checking(work, existing, refusal, r),
    ensures
        refusal is Some ==> r is Err,
        refusal is None && existing is None ==> r is Ok && r->Ok_0,
        refusal is None && existing is Some ==> (r is Ok <==> existing->0.kind@ == work.kind@ && (
        existing->0.source_manager_plan_id is Some == work.source_manager_plan_id is Some) && (
        work.source_manager_plan_id is Some ==> existing->0.source_manager_plan_id->0@
            == work.source_manager_plan_id->0@)),
        existing is Some && r is Ok ==> !r->Ok_0,
{
}

/// Plans are listed each once, the latest change first.
pub proof fn plans_are_listed_by_update(plans: Seq<ManagerPlan>, order: Seq<usize>)
    requires
        plans_listed(plans, order),
        plans.len() <= usize::MAX,
    ensures
        lists_each_once(plans.len(), order),
        forall|i: int, j: int|
            0 <= i < j < order.len() ==> {
                let a = #[trigger] order[i] as int;
                let b = #[trigger] order[j] as int;
                plans[a].updated_at >= plans[b].updated_at && (plans[a].updated_at
                    == plans[b].updated_at ==> a < b)
            },
{
    let keys = number_ranks(latest(plan_times(plans)), zeros(plans.len()));
    numbers_are_ordered(latest(plan_times(plans)), zeros(plans.len()));
    assert forall|i: int, j: int| 0 <= i < j < order.len() implies {
        let a = #[trigger] order[i] as int;
        let b = #[trigger] order[j] as int;
        plans[a].updated_at >= plans[b].updated_at && (plans[a].updated_at == plans[b].updated_at
            ==> a < b)
    } by {
        assert(listed_before(keys, order[i] as int, order[j] as int));
    }
}

/// The decision is one of the plan's, where a plan is named.
pub open spec fn speaks_of(d: ManagerDecisionRecord, plan_id: Option<Seq<char>>) -> bool {
    plan_id is Some ==> d.plan_id@ == plan_id->0
}

proof fn decisions_of_the_plan(
    decisions: Seq<ManagerDecisionRecord>,
    plan_id: Option<Seq<char>>,
    n: int,
)
    requires
        0 <= n <= decisions.len(),
        n <= usize::MAX,
    ensures
        decisions_of(decisions, plan_id, n).len() <= n,
        forall|k: int|
            0 <= k < decisions_of(decisions, plan_id, n).len() ==> {
                let i = (#[trigger] decisions_of(decisions, plan_id, n)[k]) as int;
                i < n && (plan_id is Some ==> decisions[i].plan_id@ == plan_id->0)
            },
        forall|i: int|
            0 <= i < n && #[trigger] speaks_of(decisions[i], plan_id)
                ==> decisions_of(decisions, plan_id, n).contains(i as usize),
    decreases n,
{
    if n > 0 {
        decisions_of_the_plan(decisions, plan_id, n - 1);
        let p = decisions_of(decisions, plan_id, n - 1);
        let q = decisions_of(decisions, plan_id, n);
        assert forall|i: int|
            0 <= i < n && #[trigger] speaks_of(decisions[i], plan_id) implies q.contains(i as usize) by {
            if i < n - 1 {
                let k = choose|k: int| 0 <= k < p.len() && p[k] == i as usize;
                assert(q[k] == i as usize);
            } else {
                assert(q[p.len() as int] == i as usize);
            }
        }
    }
}

/// The decisions of a plan, or all where none is named, are listed the oldest
/// first.
pub proof fn plan_decisions_are_listed_oldest_first(
    decisions: Seq<ManagerDecisionRecord>,
    plan_id: Option<Seq<char>>,
    list: Seq<usize>,
)
    requires
        manager_decisions_listed(decisions, plan_id, list),
        decisions.len() <= usize::MAX,
    ensures
        forall|k: int|
            0 <= k < list.len() ==> (#[trigger] list[k]) < decisions.len() && (plan_id is Some
                ==> decisions[list[k] as int].plan_id@ == plan_id->0),
        forall|i: int|
            0 <= i < decisions.len() && #[trigger] speaks_of(decisions[i], plan_id) ==> list.contains(i as usize),
        forall|j: int, k: int|
            0 <= j < k < list.len() ==> decisions[(#[trigger] list[j]) as int].created_at
                <= decisions[(#[trigger] list[k]) as int].created_at,
{
    let at = decisions_of(decisions, plan_id, decisions.len() as int);
    decisions_of_the_plan(decisions, plan_id, decisions.len() as int);
    let major = earliest(decision_times(decisions, at));
    let order = by_numbers(major, zeros(at.len()));
    numbers_are_ordered(major, zeros(at.len()));
    let keys = number_ranks(major, zeros(at.len()));
    assert forall|i: int|
        0 <= i < decisions.len() && #[trigger] speaks_of(decisions[i], plan_id) implies list.contains(i as usize) by {
        assert(at.contains(i as usize));
        let k = choose|k: int| 0 <= k < at.len() && at[k] == i as usize;
        assert(order.contains(k as usize));
        let j = choose|j: int| 0 <= j < order.len() && order[j] == k as usize;
        assert(list[j] == i as usize);
    }
    assert forall|j: int, k: int| 0 <= j < k < list.len() implies decisions[(
    #[trigger] list[j]) as int].created_at <= decisions[(#[trigger] list[k]) as int].created_at by {
        assert(listed_before(keys, order[j] as int, order[k] as int));
    }
}

} // verus!
