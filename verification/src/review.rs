//! Review of work: verdicts of named parties, how they are recorded and
//! revoked, and the audit entries that go with them.

use crate::agent::{copy_option, AgentRecord};
use crate::error::{
    as_fault, conflict, conflict_fault, first_fault, forbidden, forbidden_fault, refused, Fault,
    OrchError, OrchErrorCode,
};
use crate::ledger::{missing_item, require_work_revision, revision_fault, stored_item};
use crate::run::holds;
use crate::text::{
    copy, decimal, decimal_text, has_suffix, join2, str_ends_with, str_eq, str_lt, text_lt,
    text_lt_total, text_lt_transitive, to_chars, chars_to_string,
};
use crate::workload::{
    bumped, ReviewReceipt, ReviewVerdict, WorkItem, WorkReviewPolicy, WorkState,
};
use vstd::prelude::*;
use vstd::string::*;

verus! {

/// A caller whose identity was verified.
#[derive(Debug)]
pub struct VerifiedPrincipal {
    pub token_id: String,
    pub owner_id: String,
}

impl VerifiedPrincipal {
    /// Whether this caller is the owner `id`.
    pub fn is(&self, id: &str) -> (r: bool)
        ensures
            r == (self.owner_id@ == id@),
    {
        str_eq(self.owner_id.as_str(), id)
    }
}

/// The policy names this party.
pub open spec fn named_by(policy: WorkReviewPolicy, reviewer: Seq<char>) -> bool {
    exists|i: int|
        0 <= i < policy.reviewers@.len() && (#[trigger] policy.reviewers@[i])@ == reviewer
}

impl WorkReviewPolicy {
    /// Whether the policy names this party.
    pub fn names(&self, reviewer_id: &str) -> (r: bool)
        ensures
            r == named_by(*self, reviewer_id@),
    {
        let mut i: usize = 0;
        while i < self.reviewers.len()
            invariant
                i <= self.reviewers@.len(),
                forall|j: int| 0 <= j < i ==> (#[trigger] self.reviewers@[j])@ != reviewer_id@,
            decreases self.reviewers.len() - i,
        {
            if str_eq(self.reviewers[i].as_str(), reviewer_id) {
                return true;
            }
            i = i + 1;
        }
        false
    }
}

/// A standing verdict of this party on this subject under this policy.
pub open spec fn standing(
    r: ReviewReceipt,
    reviewer: Seq<char>,
    policy_revision: u64,
    subject: Seq<char>,
) -> bool {
    &&& r.reviewer_id@ == reviewer
    &&& r.policy_revision == policy_revision
    &&& r.subject_digest@ == subject
    &&& r.revoked_at is None
}

/// The last standing verdict of a party.
pub open spec fn last_standing(
    receipts: Seq<ReviewReceipt>,
    i: int,
    reviewer: Seq<char>,
    policy_revision: u64,
    subject: Seq<char>,
) -> bool {
    &&& 0 <= i < receipts.len()
    &&& standing(receipts[i], reviewer, policy_revision, subject)
    &&& forall|j: int|
        i < j < receipts.len() ==> !standing(
            #[trigger] receipts[j],
            reviewer,
            policy_revision,
            subject,
        )
}

/// No verdict of a party stands.
pub open spec fn none_standing(
    receipts: Seq<ReviewReceipt>,
    reviewer: Seq<char>,
    policy_revision: u64,
    subject: Seq<char>,
) -> bool {
    forall|j: int|
        0 <= j < receipts.len() ==> !standing(
            #[trigger] receipts[j],
            reviewer,
            policy_revision,
            subject,
        )
}

fn find_standing(
    receipts: &Vec<ReviewReceipt>,
    reviewer: &str,
    policy_revision: u64,
    subject: &str,
) -> (r: Option<usize>)
    ensures
        match r {
            Some(i) => last_standing(receipts@, i as int, reviewer@, policy_revision, subject@),
            None => none_standing(receipts@, reviewer@, policy_revision, subject@),
        },
{
    let mut n: usize = receipts.len();
    while n > 0
        invariant
            n <= receipts@.len(),
            forall|j: int|
                n <= j < receipts@.len() ==> !standing(
                    #[trigger] receipts@[j],
                    reviewer@,
                    policy_revision,
                    subject@,
                ),
        decreases n,
    {
        let x: &ReviewReceipt = &receipts[n - 1];
        if str_eq(x.reviewer_id.as_str(), reviewer) && x.policy_revision == policy_revision
            && str_eq(x.subject_digest.as_str(), subject) && x.revoked_at.is_none() {
            return Some(n - 1);
        }
        n = n - 1;
    }
    None
}

/// Why a verdict is not recorded. `policy_refusal` is why the policy itself is
/// refused, if it is; `subject` is the digest of what is under review.
pub open spec fn verdict_fault(
    item: Option<WorkItem>,
    principal: VerifiedPrincipal,
    reviewer: Seq<char>,
    policy_refusal: Option<OrchError>,
    subject: Seq<char>,
    expected: Option<u64>,
) -> Option<Fault> {
    match item {
        None => Some(missing_item()),
        Some(i) => first_fault(
            revision_fault(i, expected),
            if i.state.terminal() {
                Some(conflict_fault("terminal work items do not accept review verdicts"@))
            } else if i.review is None {
                Some(conflict_fault("work item has no review gate"@))
            } else if policy_refusal is Some {
                Some(as_fault(policy_refusal->0))
            } else if !named_by(i.review->0, reviewer) {
                Some(forbidden_fault("the review gate does not name this identity"@))
            } else if principal.owner_id@ != reviewer {
                Some(forbidden_fault("a principal may only record its own review verdict"@))
            } else if !none_standing(
                i.review_receipts@,
                reviewer,
                i.review->0.policy_revision,
                subject,
            ) {
                Some(
                    conflict_fault(
                        "this identity already has an active verdict; revoke it first"@,
                    ),
                )
            } else {
                None
            },
        ),
    }
}

/// `x` is the receipt of a verdict.
pub open spec fn is_receipt(
    x: ReviewReceipt,
    item: WorkItem,
    principal: VerifiedPrincipal,
    reviewer: Seq<char>,
    verdict: ReviewVerdict,
    subject: Seq<char>,
    now: i128,
) -> bool {
    &&& x.reviewer_id@ == reviewer
    &&& x.principal_token_id@ == principal.token_id@
    &&& x.principal_owner_id@ == principal.owner_id@
    &&& x.verdict == verdict
    &&& x.subject_digest@ == subject
    &&& x.work_revision == item.revision
    &&& x.policy_revision == item.review->0.policy_revision
    &&& x.recorded_at == now
    &&& x.revoked_at is None
}

/// The receipt of a verdict on an item under review.
pub fn verdict_receipt(
    item: &WorkItem,
    principal: &VerifiedPrincipal,
    reviewer_id: &str,
    verdict: ReviewVerdict,
    subject: &str,
    now: i128,
) -> (x: ReviewReceipt)
    requires
        item.review is Some,
    ensures
        is_receipt(x, *item, *principal, reviewer_id@, verdict, subject@, now),
{
    let policy_revision: u64 = match &item.review {
        Some(policy) => policy.policy_revision,
        None => 0,
    };
    ReviewReceipt {
        reviewer_id: copy(reviewer_id),
        principal_token_id: principal.token_id.clone(),
        principal_owner_id: principal.owner_id.clone(),
        verdict,
        subject_digest: copy(subject),
        work_revision: item.revision,
        policy_revision,
        recorded_at: now,
        revoked_at: None,
    }
}

/// `after` is `before` with one verdict recorded.
pub open spec fn verdict_recorded(
    before: WorkItem,
    after: WorkItem,
    principal: VerifiedPrincipal,
    reviewer: Seq<char>,
    verdict: ReviewVerdict,
    subject: Seq<char>,
    now: i128,
) -> bool {
    &&& after.review_receipts@.len() == before.review_receipts@.len() + 1
    &&& after.review_receipts@.drop_last() == before.review_receipts@
    &&& is_receipt(
        after.review_receipts@.last(),
        before,
        principal,
        reviewer,
        verdict,
        subject,
        now,
    )
    &&& after == bumped(WorkItem { review_receipts: after.review_receipts, ..before }, now)
}

/// What recording a verdict comes to.
pub open spec fn recording(
    item: Option<WorkItem>,
    principal: VerifiedPrincipal,
    reviewer: Seq<char>,
    verdict: ReviewVerdict,
    policy_refusal: Option<OrchError>,
    receipt_refusal: Option<OrchError>,
    subject: Seq<char>,
    expected_revision: Option<u64>,
    now: i128,
    r: Result<WorkItem, OrchError>,
) -> bool {
    match verdict_fault(
        item,
        principal,
        reviewer,
        policy_refusal,
        subject,
        expected_revision,
    ) {
        Some(f) => refused(r, f),
        None => if receipt_refusal is Some {
            refused(r, as_fault(receipt_refusal->0))
        } else {
            exists|after: WorkItem| #[trigger]
                verdict_recorded(
                    item->0,
                    after,
                    principal,
                    reviewer,
                    verdict,
                    subject,
                    now,
                ) && stored_item(r, after)
        },
    }
}

/// Records the verdict of one party on an item under review. Only a named
/// party may speak, for itself, and a standing verdict must be revoked first.
/// `receipt_refusal` is why the receipt itself is refused, if it is.
pub fn record_review_verdict(
    item: Option<WorkItem>,
    principal: &VerifiedPrincipal,
    reviewer_id: &str,
    verdict: ReviewVerdict,
    policy_refusal: Option<OrchError>,
    receipt_refusal: Option<OrchError>,
    subject: &str,
    expected_revision: Option<u64>,
    now: i128,
) -> (r: Result<WorkItem, OrchError>)
    ensures
        recording(
            item,
            *principal,
            reviewer_id@,
            verdict,
            policy_refusal,
            receipt_refusal,
            subject@,
            expected_revision,
            now,
            r,
        ),
{
    let mut i: WorkItem = match item {
        Some(i) => i,
        None => {
            return Err(conflict("work item not found"));
        },
    };
    let ghost before = i;
    require_work_revision(&i, expected_revision)?;
    if i.state.is_terminal() {
        return Err(conflict("terminal work items do not accept review verdicts"));
    }
    let policy_revision: u64 = match &i.review {
        None => {
            return Err(conflict("work item has no review gate"));
        },
        Some(policy) => {
            match policy_refusal {
                Some(e) => {
                    return Err(e);
                },
                None => {},
            }
            if !policy.names(reviewer_id) {
                return Err(forbidden("the review gate does not name this identity"));
            }
            policy.policy_revision
        },
    };
    if !principal.is(reviewer_id) {
        return Err(forbidden("a principal may only record its own review verdict"));
    }
    match find_standing(&i.review_receipts, reviewer_id, policy_revision, subject) {
        Some(_) => {
            return Err(
                conflict("this identity already has an active verdict; revoke it first"),
            );
        },
        None => {},
    }
    match receipt_refusal {
        Some(e) => {
            return Err(e);
        },
        None => {},
    }
    let receipt = verdict_receipt(&i, principal, reviewer_id, verdict, subject, now);
    i.review_receipts.push(receipt);
    i.bump(now);
    proof {
        assert(i.review_receipts@.drop_last() =~= before.review_receipts@);
        assert(verdict_recorded(
            before,
            i,
            *principal,
            reviewer_id@,
            verdict,
            subject@,
            now,
        ));
    }
    match i.validate() {
        Ok(()) => Ok(i),
        Err(e) => Err(OrchError::new(OrchErrorCode::Internal, e.to_text().as_str())),
    }
}

/// Why a verdict is not revoked.
pub open spec fn revocation_fault(
    item: Option<WorkItem>,
    principal: VerifiedPrincipal,
    reviewer: Seq<char>,
    subject: Seq<char>,
    expected: Option<u64>,
) -> Option<Fault> {
    match item {
        None => Some(missing_item()),
        Some(i) => first_fault(
            revision_fault(i, expected),
            if principal.owner_id@ != reviewer {
                Some(forbidden_fault("a principal may only revoke its own review verdict"@))
            } else if i.review is None {
                Some(conflict_fault("work item has no review gate"@))
            } else if none_standing(
                i.review_receipts@,
                reviewer,
                i.review->0.policy_revision,
                subject,
            ) {
                Some(conflict_fault("this identity has no active verdict to revoke"@))
            } else {
                None
            },
        ),
    }
}

/// `after` is `before` with the last standing verdict of a party revoked.
/// The receipt is kept.
pub open spec fn verdict_revoked(
    before: WorkItem,
    after: WorkItem,
    reviewer: Seq<char>,
    subject: Seq<char>,
    now: i128,
) -> bool {
    exists|k: int|
        {
            &&& #[trigger] last_standing(
                before.review_receipts@,
                k,
                reviewer,
                before.review->0.policy_revision,
                subject,
            )
            &&& after.review_receipts@ == before.review_receipts@.update(
                k,
                ReviewReceipt { revoked_at: Some(now), ..before.review_receipts@[k] },
            )
            &&& after == bumped(
                WorkItem { review_receipts: after.review_receipts, ..before },
                now,
            )
        }
}

/// What withdrawing a verdict comes to.
pub open spec fn revoking(
    item: Option<WorkItem>,
    principal: VerifiedPrincipal,
    reviewer: Seq<char>,
    subject: Seq<char>,
    expected_revision: Option<u64>,
    now: i128,
    r: Result<WorkItem, OrchError>,
) -> bool {
    match revocation_fault(item, principal, reviewer, subject, expected_revision) {
        Some(f) => refused(r, f),
        None => exists|after: WorkItem| #[trigger]
            verdict_revoked(item->0, after, reviewer, subject, now) && stored_item(
                r,
                after,
            ),
    }
}

/// Withdraws the standing verdict of a party; the receipt stays, marked revoked.
pub fn revoke_review_verdict(
    item: Option<WorkItem>,
    principal: &VerifiedPrincipal,
    reviewer_id: &str,
    subject: &str,
    expected_revision: Option<u64>,
    now: i128,
) -> (r: Result<WorkItem, OrchError>)
    ensures
        revoking(
            item,
            *principal,
            reviewer_id@,
            subject@,
            expected_revision,
            now,
            r,
        ),
{
    let mut i: WorkItem = match item {
        Some(i) => i,
        None => {
            return Err(conflict("work item not found"));
        },
    };
    let ghost before = i;
    require_work_revision(&i, expected_revision)?;
    if !principal.is(reviewer_id) {
        return Err(forbidden("a principal may only revoke its own review verdict"));
    }
    let policy_revision: u64 = match &i.review {
        None => {
            return Err(conflict("work item has no review gate"));
        },
        Some(policy) => policy.policy_revision,
    };
    let k: usize = match find_standing(&i.review_receipts, reviewer_id, policy_revision, subject) {
        Some(k) => k,
        None => {
            return Err(conflict("this identity has no active verdict to revoke"));
        },
    };
    i.review_receipts[k].revoked_at = Some(now);
    i.bump(now);
    proof {
        assert(last_standing(
            before.review_receipts@,
            k as int,
            reviewer_id@,
            before.review->0.policy_revision,
            subject@,
        ));
        assert(i.review_receipts@ =~= before.review_receipts@.update(
            k as int,
            ReviewReceipt { revoked_at: Some(now), ..before.review_receipts@[k as int] },
        ));
        assert(verdict_revoked(before, i, reviewer_id@, subject@, now));
    }
    match i.validate() {
        Ok(()) => Ok(i),
        Err(e) => Err(OrchError::new(OrchErrorCode::Internal, e.to_text().as_str())),
    }
}

/// A party never has two standing verdicts on one subject: recording is
/// refused while one stands, and after a revocation none does.
pub proof fn at_most_one_standing_verdict(
    before: WorkItem,
    after: WorkItem,
    principal: VerifiedPrincipal,
    reviewer: Seq<char>,
    verdict: ReviewVerdict,
    subject: Seq<char>,
    now: i128,
    i: int,
    j: int,
)
    requires
        none_standing(
            before.review_receipts@,
            reviewer,
            before.review->0.policy_revision,
            subject,
        ),
        verdict_recorded(before, after, principal, reviewer, verdict, subject, now),
        0 <= i < after.review_receipts@.len(),
        0 <= j < after.review_receipts@.len(),
        standing(
            after.review_receipts@[i],
            reviewer,
            before.review->0.policy_revision,
            subject,
        ),
        standing(
            after.review_receipts@[j],
            reviewer,
            before.review->0.policy_revision,
            subject,
        ),
    ensures
        i == j,
{
    let n = before.review_receipts@.len() as int;
    if i < n {
        assert(after.review_receipts@.drop_last()[i] == after.review_receipts@[i]);
        assert(!standing(
            before.review_receipts@[i],
            reviewer,
            before.review->0.policy_revision,
            subject,
        ));
    }
    if j < n {
        assert(after.review_receipts@.drop_last()[j] == after.review_receipts@[j]);
        assert(!standing(
            before.review_receipts@[j],
            reviewer,
            before.review->0.policy_revision,
            subject,
        ));
    }
}

/// A verdict on one subject does not stand for another.
pub proof fn verdicts_bind_their_subject(
    r: ReviewReceipt,
    reviewer: Seq<char>,
    policy_revision: u64,
    subject: Seq<char>,
    other: Seq<char>,
)
    requires
        standing(r, reviewer, policy_revision, subject),
        other != subject,
    ensures
        !standing(r, reviewer, policy_revision, other),
{
}

/// A verdict is recorded only by a party that the policy names, for itself, on work
/// that is not over, and only while it has no other verdict on this subject. It
/// says what the party said, of the revision and under the policy that stood,
/// and every earlier receipt stays as it is.
pub proof fn verdicts_are_their_own_partys(
    item: Option<WorkItem>,
    principal: VerifiedPrincipal,
    reviewer: Seq<char>,
    verdict: ReviewVerdict,
    policy_refusal: Option<OrchError>,
    receipt_refusal: Option<OrchError>,
    subject: Seq<char>,
    expected_revision: Option<u64>,
    now: i128,
    r: Result<WorkItem, OrchError>,
)
    requires
        recording(
            item,
            principal,
            reviewer,
            verdict,
            policy_refusal,
            receipt_refusal,
            subject,
            expected_revision,
            now,
            r,
        ),
    ensures
        r is Ok ==> {
            let before = item->0.review_receipts@;
            let after = r->Ok_0.review_receipts@;
            &&& item is Some
            &&& !(item->0.state is Succeeded) && !(item->0.state is Failed) && !(
            item->0.state is Cancelled)
            &&& item->0.review is Some
            &&& exists|k: int|
                0 <= k < item->0.review->0.reviewers@.len() && (
                #[trigger] item->0.review->0.reviewers@[k])@ == reviewer
            &&& principal.owner_id@ == reviewer
            &&& expected_revision is Some ==> expected_revision->0 == item->0.revision
            &&& forall|k: int|
                0 <= k < before.len() ==> !((#[trigger] before[k]).reviewer_id@ == reviewer
                    && before[k].policy_revision == item->0.review->0.policy_revision
                    && before[k].subject_digest@ == subject && before[k].revoked_at is None)
            &&& after.len() == before.len() + 1
            &&& forall|k: int| 0 <= k < before.len() ==> #[trigger] after[k] == before[k]
            &&& after.last().reviewer_id@ == reviewer
            &&& after.last().verdict == verdict
            &&& after.last().subject_digest@ == subject
            &&& after.last().work_revision == item->0.revision
            &&& after.last().policy_revision == item->0.review->0.policy_revision
            &&& after.last().principal_token_id@ == principal.token_id@
            &&& after.last().revoked_at is None
            &&& r->Ok_0.state == item->0.state
        },
        policy_refusal is Some || receipt_refusal is Some ==> r is Err,
        item is Some && principal.owner_id@ != reviewer ==> r is Err,
{
    if r is Ok {
        let before = item->0.review_receipts@;
        let after = r->Ok_0.review_receipts@;
        assert forall|k: int| 0 <= k < before.len() implies !((
        #[trigger] before[k]).reviewer_id@ == reviewer && before[k].policy_revision
            == item->0.review->0.policy_revision && before[k].subject_digest@ == subject
            && before[k].revoked_at is None) by {
            assert(!standing(
                before[k],
                reviewer,
                item->0.review->0.policy_revision,
                subject,
            ));
        }
        assert forall|k: int| 0 <= k < before.len() implies #[trigger] after[k] == before[k] by {
            assert(after.drop_last()[k] == after[k]);
        }
    }
}

/// Only the party itself withdraws its verdict, and only one that stands. The
/// receipt is marked, no receipt is dropped, and no other one changes; the party
/// has then no verdict on the subject, where it had one.
pub proof fn verdicts_are_withdrawn_by_their_party(
    item: Option<WorkItem>,
    principal: VerifiedPrincipal,
    reviewer: Seq<char>,
    subject: Seq<char>,
    expected_revision: Option<u64>,
    now: i128,
    r: Result<WorkItem, OrchError>,
)
    requires
        revoking(item, principal, reviewer, subject, expected_revision, now, r),
    ensures
        r is Ok ==> {
            let before = item->0.review_receipts@;
            let after = r->Ok_0.review_receipts@;
            &&& item is Some
            &&& principal.owner_id@ == reviewer
            &&& item->0.review is Some
            &&& expected_revision is Some ==> expected_revision->0 == item->0.revision
            &&& after.len() == before.len()
            &&& exists|k: int|
                {
                    &&& 0 <= k < before.len()
                    &&& (#[trigger] before[k]).reviewer_id@ == reviewer
                    &&& before[k].subject_digest@ == subject
                    &&& before[k].policy_revision == item->0.review->0.policy_revision
                    &&& before[k].revoked_at is None
                    &&& after[k].revoked_at == Some(now)
                    &&& after[k].verdict == before[k].verdict
                    &&& after[k].reviewer_id == before[k].reviewer_id
                    &&& forall|q: int| 0 <= q < before.len() && q != k ==> after[q] == before[q]
                    &&& forall|q: int|
                        k < q < before.len() ==> !((#[trigger] before[q]).reviewer_id@ == reviewer
                            && before[q].policy_revision == item->0.review->0.policy_revision
                            && before[q].subject_digest@ == subject && before[q].revoked_at is None)
                }
        },
        item is Some && (expected_revision is None || expected_revision->0 == item->0.revision)
            && principal.owner_id@ != reviewer ==> r is Err && r->Err_0.code is ForbiddenScope,
{
    if r is Ok {
        let before = item->0.review_receipts@;
        let after = r->Ok_0.review_receipts@;
        let policy = item->0.review->0.policy_revision;
        assert(verdict_revoked(item->0, r->Ok_0, reviewer, subject, now));
        let k = choose|k: int|
            {
                &&& #[trigger] last_standing(before, k, reviewer, policy, subject)
                &&& after == before.update(
                    k,
                    ReviewReceipt { revoked_at: Some(now), ..before[k] },
                )
            };
        assert(before[k].reviewer_id@ == reviewer);
        assert forall|q: int| k < q < before.len() implies !((
        #[trigger] before[q]).reviewer_id@ == reviewer && before[q].policy_revision == policy
            && before[q].subject_digest@ == subject && before[q].revoked_at is None) by {
            assert(!standing(before[q], reviewer, policy, subject));
        }
    }
}

/// One line of the audit log.
#[derive(Debug)]
pub struct AuditEntry {
    pub ts: i128,
    pub tool: String,
    pub request_id: Option<String>,
    pub session_id: Option<u128>,
    pub workspace: Option<String>,
    pub outcome: String,
    pub error_code: Option<String>,
    pub detail: String,
}

/// How a verdict is written.
pub open spec fn verdict_name(v: ReviewVerdict) -> Seq<char> {
    match v {
        ReviewVerdict::Approve => "Approve"@,
        ReviewVerdict::Reject => "Reject"@,
    }
}

/// What the audit log says of a verdict.
pub fn review_detail(
    item: &WorkItem,
    reviewer_id: &str,
    verdict: Option<ReviewVerdict>,
    policy_revision: u64,
    subject: &str,
) -> (s: String)
    ensures
        s@ == "work "@ + item.work_id@ + " revision "@ + decimal(item.revision as nat)
            + " identity "@ + reviewer_id@ + (match verdict {
            Some(v) => " verdict "@ + verdict_name(v),
            None => Seq::<char>::empty(),
        }) + " policy revision "@ + decimal(policy_revision as nat) + " subject "@ + subject@,
{
    let mut s: String = copy("work ");
    s.append(item.work_id.as_str());
    s.append(" revision ");
    s.append(decimal_text(item.revision).as_str());
    s.append(" identity ");
    s.append(reviewer_id);
    let mut v: String = String::new();
    match verdict {
        Some(ReviewVerdict::Approve) => {
            v.append(" verdict ");
            v.append("Approve");
            proof {
                assert(v@ =~= " verdict "@ + "Approve"@);
            }
        },
        Some(ReviewVerdict::Reject) => {
            v.append(" verdict ");
            v.append("Reject");
            proof {
                assert(v@ =~= " verdict "@ + "Reject"@);
            }
        },
        None => {},
    }
    s.append(v.as_str());
    s.append(" policy revision ");
    s.append(decimal_text(policy_revision).as_str());
    s.append(" subject ");
    s.append(subject);
    s
}

/// `e` is the audit entry of one step of a review operation.
pub open spec fn is_review_entry(
    e: AuditEntry,
    item: WorkItem,
    intent_id: Seq<char>,
    outcome: Seq<char>,
    error_code: Option<Seq<char>>,
    detail: Seq<char>,
    now: i128,
) -> bool {
    &&& e.ts == now
    &&& e.tool@ == "work_review_verdict"@
    &&& holds(e.request_id, intent_id)
    &&& e.session_id == Some(item.session_id)
    &&& e.workspace == Some(item.workspace)
    &&& e.outcome@ == outcome
    &&& match error_code {
        None => e.error_code is None,
        Some(c) => holds(e.error_code, c),
    }
    &&& e.detail@ == detail
}

/// The entry that announces a review operation before it takes effect.
pub fn review_intent_entry(
    item: &WorkItem,
    operation: &str,
    intent_id: &str,
    detail: &str,
    now: i128,
) -> (e: AuditEntry)
    ensures
        is_review_entry(
            e,
            *item,
            intent_id@,
            operation@ + "_intent"@,
            None,
            detail@,
            now,
        ),
{
    AuditEntry {
        ts: now,
        tool: copy("work_review_verdict"),
        request_id: Some(copy(intent_id)),
        session_id: Some(item.session_id),
        workspace: Some(item.workspace.clone()),
        outcome: join2(operation, "_intent"),
        error_code: None,
        detail: copy(detail),
    }
}

/// The entry that says how a review operation came out.
pub fn review_outcome_entry(
    item: &WorkItem,
    operation: &str,
    intent_id: &str,
    detail: &str,
    failure: Option<&str>,
    now: i128,
) -> (e: AuditEntry)
    ensures
        match failure {
            None => is_review_entry(
                e,
                *item,
                intent_id@,
                operation@ + "_committed"@,
                None,
                detail@,
                now,
            ),
            Some(error) => is_review_entry(
                e,
                *item,
                intent_id@,
                operation@ + "_failed"@,
                Some("internal"@),
                detail@ + ": "@ + error@,
                now,
            ),
        },
{
    match failure {
        None => AuditEntry {
            ts: now,
            tool: copy("work_review_verdict"),
            request_id: Some(copy(intent_id)),
            session_id: Some(item.session_id),
            workspace: Some(item.workspace.clone()),
            outcome: join2(operation, "_committed"),
            error_code: None,
            detail: copy(detail),
        },
        Some(error) => {
            let mut d: String = copy(detail);
            d.append(": ");
            d.append(error);
            AuditEntry {
                ts: now,
                tool: copy("work_review_verdict"),
                request_id: Some(copy(intent_id)),
                session_id: Some(item.session_id),
                workspace: Some(item.workspace.clone()),
                outcome: join2(operation, "_failed"),
                error_code: Some(copy("internal")),
                detail: d,
            }
        },
    }
}

/// The entry belongs to the review operation `id`.
pub open spec fn of_review(e: AuditEntry, id: Seq<char>) -> bool {
    e.tool@ == "work_review_verdict"@ && holds(e.request_id, id)
}

/// The entry at `i` announces a review operation that nothing after it closes.
pub open spec fn open_intent(log: Seq<AuditEntry>, i: int) -> bool {
    &&& 0 <= i < log.len()
    &&& log[i].tool@ == "work_review_verdict"@
    &&& log[i].request_id is Some
    &&& has_suffix(log[i].outcome@, "_intent"@)
    &&& forall|j: int|
        i < j < log.len() ==> !of_review(#[trigger] log[j], log[i].request_id->0@)
}

/// `e` closes the intent at `i` as unresolved.
pub open spec fn closes(e: AuditEntry, log: Seq<AuditEntry>, i: int, now: i128) -> bool {
    &&& e.ts == now
    &&& e.tool@ == "work_review_verdict"@
    &&& e.request_id == log[i].request_id
    &&& e.session_id == log[i].session_id
    &&& e.workspace == log[i].workspace
    &&& e.outcome@ == log[i].outcome@.take(log[i].outcome@.len() - 7) + "_unresolved"@
    &&& holds(e.error_code, "interrupted"@)
    &&& e.detail@ == log[i].detail@
        + ": interrupted before its outcome was recorded; the durable work record is authoritative"@
}

/// Position of the open intent that each closing entry belongs to.
pub open spec fn closing_of(
    out: Seq<AuditEntry>,
    source: Seq<int>,
    log: Seq<AuditEntry>,
    now: i128,
) -> bool {
    &&& source.len() == out.len()
    &&& forall|k: int|
        0 <= k < out.len() ==> open_intent(log, #[trigger] source[k]) && closes(
            out[k],
            log,
            source[k],
            now,
        )
    &&& forall|k: int, m: int|
        0 <= k < m < out.len() ==> text_lt(
            (#[trigger] out[k]).request_id->0@,
            (#[trigger] out[m]).request_id->0@,
        )
    &&& forall|i: int| #[trigger] open_intent(log, i) ==> source.contains(i)
}

fn is_open(log: &Vec<AuditEntry>, i: usize) -> (r: bool)
    requires
        i < log@.len(),
    ensures
        r == open_intent(log@, i as int),
{
    if !str_eq(log[i].tool.as_str(), "work_review_verdict") {
        return false;
    }
    let id: &str = match &log[i].request_id {
        None => {
            return false;
        },
        Some(id) => id.as_str(),
    };
    if !str_ends_with(log[i].outcome.as_str(), "_intent") {
        return false;
    }
    let n: usize = log.len();
    let mut j: usize = i + 1;
    while j < n
        invariant
            i < j <= log@.len(),
            n == log@.len(),
            log@[i as int].request_id is Some,
            id@ == log@[i as int].request_id->0@,
            forall|k: int| i < k < j ==> !of_review(#[trigger] log@[k], id@),
        decreases n - j,
    {
        let same: bool = match &log[j].request_id {
            Some(other) => str_eq(other.as_str(), id),
            None => false,
        };
        if same && str_eq(log[j].tool.as_str(), "work_review_verdict") {
            proof {
                assert(of_review(log@[j as int], id@));
            }
            return false;
        }
        j = j + 1;
    }
    true
}

fn closing_entry(e: &AuditEntry, now: i128) -> (c: AuditEntry)
    requires
        has_suffix(e.outcome@, "_intent"@),
    ensures
        closes(c, seq![*e], 0, now),
{
    proof {
        reveal_strlit("_intent");
    }
    let v: Vec<char> = to_chars(e.outcome.as_str());
    let operation: String = chars_to_string(&v, 0, v.len() - 7);
    proof {
        assert(v@.subrange(0, v@.len() - 7) =~= e.outcome@.take(e.outcome@.len() - 7));
    }
    AuditEntry {
        ts: now,
        tool: copy("work_review_verdict"),
        request_id: copy_option(&e.request_id),
        session_id: e.session_id,
        workspace: copy_option(&e.workspace),
        outcome: join2(operation.as_str(), "_unresolved"),
        error_code: Some(copy("interrupted")),
        detail: join2(
            e.detail.as_str(),
            ": interrupted before its outcome was recorded; the durable work record is authoritative",
        ),
    }
}

/// The entries that close review operations whose outcome never reached the
/// log, ordered by their identifiers.
pub fn unresolved_reviews(log: &Vec<AuditEntry>, now: i128) -> (out: Vec<AuditEntry>)
    ensures
        exists|source: Seq<int>| closing_of(out@, source, log@, now),
{
    let mut out: Vec<AuditEntry> = Vec::new();
    let ghost mut source: Seq<int> = Seq::empty();
    let mut i: usize = 0;
    while i < log.len()
        invariant
            i <= log@.len(),
            source.len() == out@.len(),
            forall|k: int|
                0 <= k < out@.len() ==> open_intent(log@, #[trigger] source[k]) && source[k] < i
                    && closes(out@[k], log@, source[k], now),
            forall|k: int, m: int|
                0 <= k < m < out@.len() ==> text_lt(
                    (#[trigger] out@[k]).request_id->0@,
                    (#[trigger] out@[m]).request_id->0@,
                ),
            forall|j: int| 0 <= j < i && #[trigger] open_intent(log@, j) ==> source.contains(j),
        decreases log.len() - i,
    {
        if is_open(log, i) {
            let entry: AuditEntry = closing_entry(&log[i], now);
            let ghost id = log@[i as int].request_id->0@;
            proof {
                assert forall|k: int| 0 <= k < out@.len() implies (
                #[trigger] out@[k]).request_id is Some by {
                    assert(open_intent(log@, source[k]));
                }
            }
            let mut p: usize = 0;
            while p < out.len() && lt_request(&out[p], &entry)
                invariant
                    p <= out@.len(),
                    entry.request_id is Some,
                    entry.request_id->0@ == id,
                    forall|k: int| 0 <= k < out@.len() ==> (#[trigger] out@[k]).request_id is Some,
                    forall|k: int|
                        0 <= k < p ==> text_lt((#[trigger] out@[k]).request_id->0@, id),
                decreases out.len() - p,
            {
                p = p + 1;
            }
            let ghost before = out@;
            let ghost before_source = source;
            out.insert(p, entry);
            proof {
                source = source.insert(p as int, i as int);
                assert forall|k: int| 0 <= k < before.len() implies (
                #[trigger] before[k]).request_id->0@ != id by {
                    assert(open_intent(log@, before_source[k]));
                    assert(closes(before[k], log@, before_source[k], now));
                    assert(!of_review(log@[i as int], log@[before_source[k]].request_id->0@));
                }
                if p < before.len() {
                    text_lt_total(before[p as int].request_id->0@, id);
                }
                assert forall|k: int| 0 <= k < out@.len() implies open_intent(
                    log@,
                    #[trigger] source[k],
                ) && source[k] < i + 1 && closes(out@[k], log@, source[k], now) by {
                    if k < p {
                        assert(open_intent(log@, before_source[k]));
                    } else if k > p {
                        assert(open_intent(log@, before_source[k - 1]));
                    }
                }
                assert forall|k: int, m: int| 0 <= k < m < out@.len() implies text_lt(
                    (#[trigger] out@[k]).request_id->0@,
                    (#[trigger] out@[m]).request_id->0@,
                ) by {
                    if m < p {
                        assert(out@[k] == before[k] && out@[m] == before[m]);
                    } else if m == p {
                        assert(out@[k] == before[k]);
                    } else if k < p {
                        assert(out@[k] == before[k] && out@[m] == before[m - 1]);
                        assert(text_lt(before[k].request_id->0@, before[m - 1].request_id->0@));
                    } else if k == p {
                        assert(out@[m] == before[m - 1]);
                        assert(text_lt(id, before[p as int].request_id->0@));
                        if m - 1 > p {
                            assert(text_lt(
                                before[p as int].request_id->0@,
                                before[m - 1].request_id->0@,
                            ));
                            text_lt_transitive(
                                id,
                                before[p as int].request_id->0@,
                                before[m - 1].request_id->0@,
                            );
                        }
                    } else {
                        assert(out@[k] == before[k - 1] && out@[m] == before[m - 1]);
                    }
                }
                assert forall|j: int|
                    0 <= j < i + 1 && #[trigger] open_intent(log@, j) implies source.contains(
                    j,
                ) by {
                    if j < i {
                        let q = choose|q: int|
                            0 <= q < before_source.len() && before_source[q] == j;
                        if q < p {
                            assert(source[q] == j);
                        } else {
                            assert(source[q + 1] == j);
                        }
                    } else {
                        assert(source[p as int] == j);
                    }
                }
            }
        }
        i = i + 1;
    }
    proof {
        assert(closing_of(out@, source, log@, now));
    }
    out
}

fn lt_request(a: &AuditEntry, b: &AuditEntry) -> (r: bool)
    requires
        a.request_id is Some,
        b.request_id is Some,
    ensures
        r == text_lt(a.request_id->0@, b.request_id->0@),
{
    match (&a.request_id, &b.request_id) {
        (Some(x), Some(y)) => str_lt(x.as_str(), y.as_str()),
        _ => false,
    }
}

/// Closing the open intents is idempotent: once the closing entries are on the
/// log, no intent is open.
pub proof fn closing_reviews_is_idempotent(
    log: Seq<AuditEntry>,
    out: Seq<AuditEntry>,
    source: Seq<int>,
    now: i128,
    i: int,
)
    requires
        closing_of(out, source, log, now),
    ensures
        !open_intent(log + out, i),
{
    let all = log + out;
    if open_intent(all, i) {
        if i < log.len() {
            assert(all[i] == log[i]);
            assert forall|j: int| i < j < log.len() implies !of_review(
                #[trigger] log[j],
                log[i].request_id->0@,
            ) by {
                assert(all[j] == log[j]);
            }
            assert(open_intent(log, i));
            let k = choose|k: int| 0 <= k < source.len() && source[k] == i;
            assert(open_intent(log, source[k]) && closes(out[k], log, source[k], now));
            assert(all[log.len() + k] == out[k]);
            assert(of_review(all[log.len() + k], log[i].request_id->0@));
        } else {
            let k = i - log.len();
            assert(all[i] == out[k]);
            assert(open_intent(log, source[k]) && closes(out[k], log, source[k], now));
            reveal_strlit("_intent");
            reveal_strlit("_unresolved");
            let o = out[k].outcome@;
            let head = log[source[k]].outcome@.take(log[source[k]].outcome@.len() - 7);
            assert(o == head + "_unresolved"@);
            assert(o.last() == 'd');
            assert(o.subrange(o.len() - 7, o.len() as int).last() == 't');
        }
    }
}

/// The exact authority that an assigned agent stands for.
#[derive(Debug)]
pub struct ExecutionIdentity {
    pub agent_id: String,
    pub agent_spec_revision: u64,
    pub model_selection_key: String,
}

/// The authority that work is carried out under, if it can be told: an
/// assignment that cannot be resolved never reuses an identity that was
/// approved before. `agent` is the assigned agent, if it is on record.
pub fn execution_identity(item: &WorkItem, agent: Option<&AgentRecord>) -> (r: Option<
    ExecutionIdentity,
>)
    ensures
        r is Some <==> item.assigned_agent_id is Some && agent is Some && agent->0.spec is Some,
        r is Some ==> r == Some(
            ExecutionIdentity {
                agent_id: item.assigned_agent_id->0,
                agent_spec_revision: agent->0.spec->0.revision,
                model_selection_key: agent->0.spec->0.model.selection_key,
            },
        ),
{
    match (&item.assigned_agent_id, agent) {
        (Some(agent_id), Some(agent)) => match &agent.spec {
            Some(spec) => Some(
                ExecutionIdentity {
                    agent_id: agent_id.clone(),
                    agent_spec_revision: spec.revision,
                    model_selection_key: spec.model.selection_key.clone(),
                },
            ),
            None => None,
        },
        _ => None,
    }
}

/// The state of a dependency as work in a scope sees it: other work is as good
/// as missing.
pub fn dependency_state(candidate: Option<&WorkItem>, in_scope: bool) -> (r: Option<WorkState>)
    ensures
        r == match candidate {
            Some(c) => if in_scope {
                Some(c.state)
            } else {
                None
            },
            None => None,
        },
{
    match candidate {
        Some(c) => if in_scope {
            Some(c.state)
        } else {
            None
        },
        None => None,
    }
}

/// A review operation is closed exactly where its intent is the last that the
/// log says of it. What closes it says of the same operation that it is
/// unresolved, at the time it is written.
pub proof fn unfinished_reviews_are_closed(
    log: Seq<AuditEntry>,
    out: Seq<AuditEntry>,
    source: Seq<int>,
    now: i128,
)
    requires
        closing_of(out, source, log, now),
    ensures
        forall|i: int|
            0 <= i < log.len() && (#[trigger] log[i]).tool@ == "work_review_verdict"@
                && log[i].request_id is Some && has_suffix(log[i].outcome@, "_intent"@) && (
            forall|j: int|
                i < j < log.len() && (#[trigger] log[j]).tool@ == "work_review_verdict"@
                    && log[j].request_id is Some ==> log[j].request_id->0@
                    != log[i].request_id->0@) ==> exists|k: int|
                0 <= k < out.len() && (#[trigger] out[k]).request_id is Some
                    && out[k].request_id->0@ == log[i].request_id->0@,
        forall|k: int|
            0 <= k < out.len() ==> {
                &&& (#[trigger] out[k]).tool@ == "work_review_verdict"@
                &&& out[k].ts == now
                &&& out[k].request_id is Some
                &&& has_suffix(out[k].outcome@, "_unresolved"@)
                &&& exists|i: int|
                    {
                        &&& 0 <= i < log.len()
                        &&& (#[trigger] log[i]).request_id is Some
                        &&& log[i].request_id->0@ == out[k].request_id->0@
                        &&& has_suffix(log[i].outcome@, "_intent"@)
                        &&& out[k].session_id == log[i].session_id
                    }
            },
{
    reveal_strlit("_intent");
    reveal_strlit("_unresolved");
    assert forall|i: int|
        0 <= i < log.len() && (#[trigger] log[i]).tool@ == "work_review_verdict"@
            && log[i].request_id is Some && has_suffix(log[i].outcome@, "_intent"@) && (forall|j: int|
            i < j < log.len() && (#[trigger] log[j]).tool@ == "work_review_verdict"@
                && log[j].request_id is Some ==> log[j].request_id->0@
                != log[i].request_id->0@) implies exists|k: int|
        0 <= k < out.len() && (#[trigger] out[k]).request_id is Some && out[k].request_id->0@
            == log[i].request_id->0@ by {
        assert(open_intent(log, i));
        assert(source.contains(i));
        let k = choose|k: int| 0 <= k < source.len() && source[k] == i;
        assert(closes(out[k], log, source[k], now));
    }
    assert forall|k: int| 0 <= k < out.len() implies ({
        &&& (#[trigger] out[k]).tool@ == "work_review_verdict"@
        &&& out[k].ts == now
        &&& out[k].request_id is Some
        &&& has_suffix(out[k].outcome@, "_unresolved"@)
        &&& exists|i: int|
            {
                &&& 0 <= i < log.len()
                &&& (#[trigger] log[i]).request_id is Some
                &&& log[i].request_id->0@ == out[k].request_id->0@
                &&& has_suffix(log[i].outcome@, "_intent"@)
                &&& out[k].session_id == log[i].session_id
            }
    }) by {
        let i = source[k];
        assert(open_intent(log, i));
        assert(closes(out[k], log, i, now));
        let op = log[i].outcome@.take(log[i].outcome@.len() - 7);
        assert((op + "_unresolved"@).subrange(op.len() as int, (op + "_unresolved"@).len() as int)
            =~= "_unresolved"@);
        assert(log[i].request_id is Some);
    }
}

} // verus!
