//! What may be changed by an ordinary save of work.
//!
//! The review gate is closed to it: nobody approves work by rewriting its
//! record. And whenever the dependencies of work, or the scope they are looked
//! up in, change, its graph has to be judged again.

use crate::checkpoint::{same_workspace, workspaces_match};
use crate::error::{fault, fault_text, refused, Fault, OrchError, OrchErrorCode};
use crate::json::texts;
use crate::text::{copy, str_eq};
use crate::workload::{item_fault, ReviewReceipt, WorkDependency, WorkItem, WorkReviewPolicy};
use vstd::prelude::*;
use vstd::string::*;

verus! {

/// Two gates that ask the same.
pub open spec fn same_gate(a: Option<WorkReviewPolicy>, b: Option<WorkReviewPolicy>) -> bool {
    match (a, b) {
        (Some(a), Some(b)) => {
            &&& texts(a.reviewers@) == texts(b.reviewers@)
            &&& a.required_approvals == b.required_approvals
            &&& a.policy_revision == b.policy_revision
        },
        (None, None) => true,
        _ => false,
    }
}

/// Two verdicts that say the same.
pub open spec fn same_receipt(a: ReviewReceipt, b: ReviewReceipt) -> bool {
    &&& a.reviewer_id@ == b.reviewer_id@
    &&& a.principal_token_id@ == b.principal_token_id@
    &&& a.principal_owner_id@ == b.principal_owner_id@
    &&& a.verdict == b.verdict
    &&& a.subject_digest@ == b.subject_digest@
    &&& a.work_revision == b.work_revision
    &&& a.policy_revision == b.policy_revision
    &&& a.recorded_at == b.recorded_at
    &&& a.revoked_at == b.revoked_at
}

/// Two lists of verdicts that say the same.
pub open spec fn same_receipts(a: Seq<ReviewReceipt>, b: Seq<ReviewReceipt>) -> bool {
    a.len() == b.len() && forall|i: int| 0 <= i < a.len() ==> same_receipt(#[trigger] a[i], b[i])
}

/// Two lists of dependencies that ask the same.
pub open spec fn same_dependencies(a: Seq<WorkDependency>, b: Seq<WorkDependency>) -> bool {
    a.len() == b.len() && forall|i: int|
        0 <= i < a.len() ==> (#[trigger] a[i]).work_id@ == b[i].work_id@ && a[i].required_state
            == b[i].required_state
}

fn gates_match(a: &Option<WorkReviewPolicy>, b: &Option<WorkReviewPolicy>) -> (r: bool)
    ensures
        r == same_gate(*a, *b),
{
    match (a, b) {
        (Some(a), Some(b)) => crate::roster::same_texts(&a.reviewers, &b.reviewers)
            && a.required_approvals == b.required_approvals && a.policy_revision
            == b.policy_revision,
        (None, None) => true,
        _ => false,
    }
}

fn receipt_matches(a: &ReviewReceipt, b: &ReviewReceipt) -> (r: bool)
    ensures
        r == same_receipt(*a, *b),
{
    str_eq(a.reviewer_id.as_str(), b.reviewer_id.as_str()) && str_eq(
        a.principal_token_id.as_str(),
        b.principal_token_id.as_str(),
    ) && str_eq(a.principal_owner_id.as_str(), b.principal_owner_id.as_str()) && a.verdict
        == b.verdict && str_eq(a.subject_digest.as_str(), b.subject_digest.as_str())
        && a.work_revision == b.work_revision && a.policy_revision == b.policy_revision
        && a.recorded_at == b.recorded_at && a.revoked_at == b.revoked_at
}

fn receipts_match(a: &Vec<ReviewReceipt>, b: &Vec<ReviewReceipt>) -> (r: bool)
    ensures
        r == same_receipts(a@, b@),
{
    if a.len() != b.len() {
        return false;
    }
    let mut i: usize = 0;
    while i < a.len()
        invariant
            i <= a@.len(),
            a@.len() == b@.len(),
            forall|j: int| 0 <= j < i ==> same_receipt(#[trigger] a@[j], b@[j]),
        decreases a.len() - i,
    {
        if !receipt_matches(&a[i], &b[i]) {
            return false;
        }
        i = i + 1;
    }
    true
}

fn dependencies_match(a: &Vec<WorkDependency>, b: &Vec<WorkDependency>) -> (r: bool)
    ensures
        r == same_dependencies(a@, b@),
{
    if a.len() != b.len() {
        return false;
    }
    let mut i: usize = 0;
    while i < a.len()
        invariant
            i <= a@.len(),
            a@.len() == b@.len(),
            forall|j: int|
                0 <= j < i ==> (#[trigger] a@[j]).work_id@ == b@[j].work_id@ && a@[j].required_state
                    == b@[j].required_state,
        decreases a.len() - i,
    {
        if !str_eq(a[i].work_id.as_str(), b[i].work_id.as_str()) || a[i].required_state
            != b[i].required_state {
            return false;
        }
        i = i + 1;
    }
    true
}

/// Why work is not saved over what is stored.
pub open spec fn save_fault(item: WorkItem, previous: Option<WorkItem>) -> Option<Seq<char>> {
    match item_fault(item) {
        Some(f) => Some(fault_text(f)),
        None => match previous {
            Some(stored) => if !same_gate(stored.review, item.review) {
                Some("the review gate cannot be changed through a generic work save"@)
            } else if !same_receipts(stored.review_receipts@, item.review_receipts@) {
                Some("review receipts cannot be changed through a generic work save"@)
            } else {
                None
            },
            None => if item.review_receipts@.len() > 0 {
                Some("a new work item cannot be created with review receipts"@)
            } else {
                None
            },
        },
    }
}

/// The graph of the work has to be judged: it has dependencies, and they or the
/// scope they are looked up in are new.
pub open spec fn graph_changes(
    item: WorkItem,
    previous: Option<WorkItem>,
    stored_path: Option<String>,
    path: Option<String>,
) -> bool {
    item.dependencies@.len() > 0 && match previous {
        None => true,
        Some(stored) => {
            ||| !same_dependencies(stored.dependencies@, item.dependencies@)
            ||| stored.session_id != item.session_id
            ||| stored.created_by@ != item.created_by@
            ||| !same_workspace(stored.workspace@, item.workspace@, stored_path, path)
        },
    }
}

/// What saving work over what is stored comes to.
pub open spec fn saving(
    item: WorkItem,
    before: Option<WorkItem>,
    stored_path: Option<String>,
    path: Option<String>,
    r: Result<bool, String>,
) -> bool {
    match save_fault(item, before) {
        Some(m) => r is Err && r->Err_0@ == m,
        None => r == Ok::<bool, String>(
            graph_changes(item, before, stored_path, path),
        ),
    }
}

/// Whether work may be saved over what is stored. The answer says whether its
/// graph has to be judged before. `stored_path` and `path` are what the two
/// workspaces resolve to on disk.
pub fn check_work_save(
    item: &WorkItem,
    previous: Option<&WorkItem>,
    stored_path: &Option<String>,
    path: &Option<String>,
) -> (r: Result<bool, String>)
    ensures
        saving(
            *item,
            match previous {
                Some(p) => Some(*p),
                None => None,
            },
            *stored_path,
            *path,
            r,
        ),
{
    match item.validate() {
        Ok(()) => {},
        Err(e) => {
            return Err(e.to_text());
        },
    }
    match previous {
        Some(stored) => {
            if !gates_match(&stored.review, &item.review) {
                return Err(
                    copy("the review gate cannot be changed through a generic work save"),
                );
            }
            if !receipts_match(&stored.review_receipts, &item.review_receipts) {
                return Err(
                    copy("review receipts cannot be changed through a generic work save"),
                );
            }
            let changed: bool = !dependencies_match(&stored.dependencies, &item.dependencies)
                || stored.session_id != item.session_id || !str_eq(
                stored.created_by.as_str(),
                item.created_by.as_str(),
            ) || !workspaces_match(
                stored.workspace.as_str(),
                item.workspace.as_str(),
                stored_path,
                path,
            );
            Ok(item.dependencies.len() > 0 && changed)
        },
        None => {
            if item.review_receipts.len() > 0 {
                return Err(copy("a new work item cannot be created with review receipts"));
            }
            Ok(item.dependencies.len() > 0)
        },
    }
}

/// No ordinary save adds, drops or changes a verdict, or changes the policy that
/// asks for them.
pub proof fn saves_keep_the_review_gate(item: WorkItem, previous: WorkItem)
    requires
        save_fault(item, Some(previous)) is None,
    ensures
        same_gate(previous.review, item.review),
        same_receipts(previous.review_receipts@, item.review_receipts@),
{
}

/// What looking through the first `n` items of the ledger found: the items in
/// scope, or why the scope is too large.
pub enum ScopeScan {
    Found(Seq<usize>),
    TooLarge(Fault),
}

/// The fault of a ledger that is too large.
pub open spec fn ledger_fault() -> Fault {
    fault(
        OrchErrorCode::CapacityExhausted,
        "the work ledger is too large to validate a dependency graph against"@,
    )
}

/// The fault of a scope that is too large.
pub open spec fn scope_size_fault() -> Fault {
    fault(
        OrchErrorCode::CapacityExhausted,
        "scope holds too many work items for dependency validation"@,
    )
}

/// What looking through the first `n` items of the ledger finds.
pub open spec fn scanned(
    items: Seq<WorkItem>,
    in_scope: Seq<bool>,
    candidate: Seq<char>,
    max_files: usize,
    max_items: usize,
    n: int,
) -> ScopeScan
    decreases n,
{
    if n <= 0 {
        ScopeScan::Found(Seq::empty())
    } else {
        match scanned(items, in_scope, candidate, max_files, max_items, n - 1) {
            ScopeScan::TooLarge(f) => ScopeScan::TooLarge(f),
            ScopeScan::Found(list) => if n > max_files {
                ScopeScan::TooLarge(ledger_fault())
            } else if items[n - 1].work_id@ == candidate || !in_scope[n - 1] {
                ScopeScan::Found(list)
            } else if list.len() + 1 >= max_items {
                ScopeScan::TooLarge(scope_size_fault())
            } else {
                ScopeScan::Found(list.push((n - 1) as usize))
            },
        }
    }
}

proof fn too_large_stays(
    items: Seq<WorkItem>,
    in_scope: Seq<bool>,
    candidate: Seq<char>,
    max_files: usize,
    max_items: usize,
    n: int,
    m: int,
)
    requires
        0 <= n <= m,
        scanned(items, in_scope, candidate, max_files, max_items, n) is TooLarge,
    ensures
        scanned(items, in_scope, candidate, max_files, max_items, m) == scanned(
            items,
            in_scope,
            candidate,
            max_files,
            max_items,
            n,
        ),
    decreases m - n,
{
    if n < m {
        too_large_stays(items, in_scope, candidate, max_files, max_items, n, m - 1);
    }
}

/// The other work in the scope of an item, within bounds on how much is looked
/// through and how much is kept. The item itself takes one place.
pub fn scoped_work_items(
    items: &Vec<WorkItem>,
    in_scope: &Vec<bool>,
    candidate_id: &str,
    max_files: usize,
    max_items: usize,
) -> (r: Result<Vec<usize>, OrchError>)
    requires
        in_scope@.len() == items@.len(),
    ensures
        match scanned(
            items@,
            in_scope@,
            candidate_id@,
            max_files,
            max_items,
            items@.len() as int,
        ) {
            ScopeScan::TooLarge(f) => refused(r, f),
            ScopeScan::Found(list) => r is Ok && r->Ok_0@ == list,
        },
{
    let mut list: Vec<usize> = Vec::new();
    let mut i: usize = 0;
    while i < items.len()
        invariant
            i <= items@.len(),
            in_scope@.len() == items@.len(),
            list@.len() <= i,
            scanned(items@, in_scope@, candidate_id@, max_files, max_items, i as int)
                == ScopeScan::Found(list@),
        decreases items.len() - i,
    {
        if i >= max_files {
            proof {
                too_large_stays(
                    items@,
                    in_scope@,
                    candidate_id@,
                    max_files,
                    max_items,
                    i + 1,
                    items@.len() as int,
                );
            }
            return Err(
                OrchError::new(
                    OrchErrorCode::CapacityExhausted,
                    "the work ledger is too large to validate a dependency graph against",
                ),
            );
        }
        if !str_eq(items[i].work_id.as_str(), candidate_id) && in_scope[i] {
            if list.len() + 1 >= max_items {
                proof {
                    too_large_stays(
                        items@,
                        in_scope@,
                        candidate_id@,
                        max_files,
                        max_items,
                        i + 1,
                        items@.len() as int,
                    );
                }
                return Err(
                    OrchError::new(
                        OrchErrorCode::CapacityExhausted,
                        "scope holds too many work items for dependency validation",
                    ),
                );
            }
            list.push(i);
        }
        i = i + 1;
    }
    Ok(list)
}

/// An ordinary save leaves whom work waits for as it is, and what they said: how
/// many spoke, who, what they said and of what. New work brings nothing said.
pub proof fn saves_leave_verdicts_alone(
    item: WorkItem,
    before: Option<WorkItem>,
    stored_path: Option<String>,
    path: Option<String>,
    r: Result<bool, String>,
    k: int,
)
    requires
        saving(item, before, stored_path, path, r),
        r is Ok,
    ensures
        before is None ==> item.review_receipts@.len() == 0,
        before matches Some(b) ==> {
            &&& (b.review is Some) == (item.review is Some)
            &&& b.review is Some ==> b.review->0.required_approvals
                == item.review->0.required_approvals && b.review->0.policy_revision
                == item.review->0.policy_revision && texts(b.review->0.reviewers@) == texts(
                item.review->0.reviewers@,
            )
            &&& b.review_receipts@.len() == item.review_receipts@.len()
            &&& 0 <= k < b.review_receipts@.len() ==> {
                let x = b.review_receipts@[k];
                let y = item.review_receipts@[k];
                &&& x.verdict == y.verdict
                &&& x.reviewer_id@ == y.reviewer_id@
                &&& x.subject_digest@ == y.subject_digest@
                &&& x.revoked_at == y.revoked_at
                &&& x.policy_revision == y.policy_revision
                &&& x.work_revision == y.work_revision
                &&& x.principal_owner_id@ == y.principal_owner_id@
                &&& x.principal_token_id@ == y.principal_token_id@
                &&& x.recorded_at == y.recorded_at
            }
        },
{
    if before is Some && 0 <= k < before->0.review_receipts@.len() {
        assert(same_receipt(before->0.review_receipts@[k], item.review_receipts@[k]));
    }
}

/// The graph of work is judged again whenever work with dependencies is new, or
/// its dependencies, session, author or place changed; and only then.
pub proof fn changed_graphs_are_judged(
    item: WorkItem,
    before: Option<WorkItem>,
    stored_path: Option<String>,
    path: Option<String>,
    r: Result<bool, String>,
    k: int,
)
    requires
        saving(item, before, stored_path, path, r),
        r is Ok,
    ensures
        item.dependencies@.len() == 0 ==> !r->Ok_0,
        item.dependencies@.len() > 0 && before is None ==> r->Ok_0,
        item.dependencies@.len() > 0 && before is Some && (before->0.dependencies@.len()
            != item.dependencies@.len() || before->0.session_id != item.session_id
            || before->0.created_by@ != item.created_by@) ==> r->Ok_0,
        before is Some && 0 <= k < item.dependencies@.len() && (before->0.dependencies@.len()
            == item.dependencies@.len()) && (before->0.dependencies@[k].work_id@
            != item.dependencies@[k].work_id@ || before->0.dependencies@[k].required_state
            != item.dependencies@[k].required_state) ==> r->Ok_0,
        before is Some && before->0.dependencies@ == item.dependencies@ && before->0.session_id
            == item.session_id && before->0.created_by@ == item.created_by@
            && before->0.workspace@ == item.workspace@ ==> !r->Ok_0,
{
}

/// What a new dependency is judged against is every other item of the scope, in
/// the order of the ledger. There are no more than were allowed, counting the
/// item itself.
pub proof fn scopes_hold_every_other_item(
    items: Seq<WorkItem>,
    in_scope: Seq<bool>,
    candidate: Seq<char>,
    max_files: usize,
    max_items: usize,
    n: int,
)
    requires
        0 <= n <= items.len(),
        n <= usize::MAX,
        in_scope.len() == items.len(),
    ensures
        n > max_files ==> scanned(items, in_scope, candidate, max_files, max_items, n) is TooLarge,
        scanned(items, in_scope, candidate, max_files, max_items, n) matches ScopeScan::Found(list)
            ==> {
            &&& list.len() <= n
            &&& list.len() > 0 ==> list.len() < max_items
            &&& forall|k: int|
                0 <= k < list.len() ==> (#[trigger] list[k]) < n && in_scope[list[k] as int]
                    && items[list[k] as int].work_id@ != candidate
            &&& forall|j: int, k: int|
                0 <= j < k < list.len() ==> (#[trigger] list[j]) < (#[trigger] list[k])
            &&& forall|i: int|
                0 <= i < n && #[trigger] in_scope[i] && items[i].work_id@ != candidate
                    ==> list.contains(i as usize)
        },
    decreases n,
{
    if n > 0 {
        scopes_hold_every_other_item(items, in_scope, candidate, max_files, max_items, n - 1);
        match (
            scanned(items, in_scope, candidate, max_files, max_items, n - 1),
            scanned(items, in_scope, candidate, max_files, max_items, n),
        ) {
            (ScopeScan::Found(p), ScopeScan::Found(q)) => {
                assert forall|i: int|
                    0 <= i < n && #[trigger] in_scope[i] && items[i].work_id@
                        != candidate implies q.contains(i as usize) by {
                    if i < n - 1 {
                        let k = choose|k: int| 0 <= k < p.len() && p[k] == i as usize;
                        assert(q[k] == i as usize);
                    } else {
                        assert(q[p.len() as int] == i as usize);
                    }
                }
            },
            _ => {},
        }
    }
}

} // verus!
