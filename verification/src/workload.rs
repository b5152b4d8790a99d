//! Durable work: items, attempts to carry them out, and the leases that
//! attempts hold. Times are nanoseconds since the Unix epoch.

use crate::agent::copy_option;
use crate::bounds::{bounds_fault, default_bounds, RunBounds};
use crate::digest::{hash_payload, text_digest};
use crate::error::{first_fault, invalid, invalid_fault, judged, Fault, OrchError};
use crate::instant::NANOS_PER_MILLI;
use crate::json::{field, field_keys, field_values, json_object_text, json_string_text, Json};
use crate::text::{
    byte_len, contains_text, copy, decimal, join2, str_contains, str_eq, str_has_char, utf8_len,
};
use crate::validate::scan;
use crate::identity::{fresh_id, is_version_four, uuid_display};
use vstd::prelude::*;
use vstd::string::*;

verus! {

pub const WORKLOAD_SCHEMA_VERSION: u32 = 1;

pub const MAX_WORK_KIND_BYTES: usize = 96;

pub const MAX_WORK_OBJECTIVE_BYTES: usize = 32768;

pub const MAX_WORK_ACTOR_BYTES: usize = 256;

pub const MAX_WORK_ARTIFACTS: usize = 256;

pub const MAX_WORK_ARTIFACT_BYTES: usize = 2048;

pub const MAX_WORK_DEPENDENCIES: usize = 128;

pub const DEFAULT_WORK_LEASE_MS: u64 = 300_000;

pub const MAX_WORK_LEASE_MS: u64 = 3_600_000;

pub const DEFAULT_WORK_MAX_ATTEMPTS: u32 = 3;

/// The last instant at which a lease of any length may begin.
pub const LAST_LEASE_START: i128 = 8_210_266_873_199_999_999_999;

/// What one pass over the recorded work changed.
#[derive(Debug, Clone, Copy, PartialEq, Eq, Structural)]
pub struct WorkloadReconciliationReport {
    pub scanned_items: usize,
    pub expired_attempts: usize,
    pub retried_items: usize,
    pub failed_items: usize,
    pub blocked_items: usize,
    pub unblocked_items: usize,
    pub deadline_failed_items: usize,
}

/// The report of a pass that changed nothing.
pub open spec fn empty_report() -> WorkloadReconciliationReport {
    WorkloadReconciliationReport {
        scanned_items: 0,
        expired_attempts: 0,
        retried_items: 0,
        failed_items: 0,
        blocked_items: 0,
        unblocked_items: 0,
        deadline_failed_items: 0,
    }
}

impl Default for WorkloadReconciliationReport {
    fn default() -> (r: WorkloadReconciliationReport)
        ensures
            r == empty_report(),
    {
        WorkloadReconciliationReport {
            scanned_items: 0,
            expired_attempts: 0,
            retried_items: 0,
            failed_items: 0,
            blocked_items: 0,
            unblocked_items: 0,
            deadline_failed_items: 0,
        }
    }
}

#[derive(Debug, Clone, Copy, PartialEq, Eq, Structural)]
pub enum WorkState {
    Queued,
    Blocked,
    Leased,
    Running,
    AwaitingInput,
    AwaitingApproval,
    Review,
    Succeeded,
    Failed,
    Cancelled,
}

impl Default for WorkState {
    fn default() -> (s: WorkState)
        ensures
            s is Queued,
    {
        WorkState::Queued
    }
}

impl WorkState {
    /// Work in this state is over.
    pub open spec fn terminal(self) -> bool {
        self is Succeeded || self is Failed || self is Cancelled
    }

    pub fn is_terminal(self) -> (r: bool)
        ensures
            r == self.terminal(),
    {
        matches!(self, WorkState::Succeeded | WorkState::Failed | WorkState::Cancelled)
    }

    /// Only queued work can be claimed.
    pub fn is_claimable(self) -> (r: bool)
        ensures
            r == self is Queued,
    {
        matches!(self, WorkState::Queued)
    }
}

#[derive(Debug, Clone, Copy, PartialEq, Eq, Structural)]
pub enum AttemptState {
    Leased,
    Running,
    AwaitingInput,
    AwaitingApproval,
    Review,
    Released,
    Expired,
    Succeeded,
    Failed,
    Cancelled,
}

impl AttemptState {
    /// An attempt in this state still holds its lease.
    pub open spec fn active(self) -> bool {
        self is Leased || self is Running || self is AwaitingInput || self is AwaitingApproval
            || self is Review
    }

    pub fn is_active(self) -> (r: bool)
        ensures
            r == self.active(),
    {
        matches!(
            self,
            AttemptState::Leased | AttemptState::Running | AttemptState::AwaitingInput
                | AttemptState::AwaitingApproval | AttemptState::Review
        )
    }
}

/// When work is tried again.
#[derive(Debug, Clone, Copy, PartialEq, Eq, Structural)]
pub struct WorkRetryPolicy {
    pub max_attempts: u32,
    pub retry_failed: bool,
    pub retry_expired: bool,
    pub backoff_ms: u64,
}

pub open spec fn default_retry() -> WorkRetryPolicy {
    WorkRetryPolicy {
        max_attempts: DEFAULT_WORK_MAX_ATTEMPTS,
        retry_failed: true,
        retry_expired: true,
        backoff_ms: 0,
    }
}

impl Default for WorkRetryPolicy {
    fn default() -> (p: WorkRetryPolicy)
        ensures
            p == default_retry(),
    {
        WorkRetryPolicy {
            max_attempts: DEFAULT_WORK_MAX_ATTEMPTS,
            retry_failed: true,
            retry_expired: true,
            backoff_ms: 0,
        }
    }
}

/// What is wrong with a retry policy.
pub open spec fn retry_fault(p: WorkRetryPolicy) -> Option<Fault> {
    if p.max_attempts == 0 {
        Some(invalid_fault("retry.max_attempts must be greater than zero"@))
    } else if p.max_attempts > 100 {
        Some(invalid_fault("retry.max_attempts exceeds the workload bound"@))
    } else if p.backoff_ms > 86_400_000 {
        Some(invalid_fault("retry.backoff_ms exceeds one day"@))
    } else {
        None
    }
}

impl WorkRetryPolicy {
    /// Refuses no attempts, over a hundred, and a backoff over a day.
    pub fn validate(&self) -> (r: Result<(), OrchError>)
        ensures
            judged(r, retry_fault(*self)),
    {
        if self.max_attempts == 0 {
            return Err(invalid("retry.max_attempts must be greater than zero"));
        }
        if self.max_attempts > 100 {
            return Err(invalid("retry.max_attempts exceeds the workload bound"));
        }
        if self.backoff_ms > 86_400_000 {
            return Err(invalid("retry.backoff_ms exceeds one day"));
        }
        Ok(())
    }
}

/// The limits that work is carried out under.
#[derive(Debug, Clone, Copy, PartialEq, Eq, Structural)]
pub struct WorkPolicy {
    pub bounds: RunBounds,
    pub retry: WorkRetryPolicy,
    pub requires_approval: bool,
    pub max_concurrent_attempts: u32,
}

pub open spec fn default_policy() -> WorkPolicy {
    WorkPolicy {
        bounds: default_bounds(),
        retry: default_retry(),
        requires_approval: false,
        max_concurrent_attempts: 1,
    }
}

impl Default for WorkPolicy {
    fn default() -> (p: WorkPolicy)
        ensures
            p == default_policy(),
    {
        WorkPolicy {
            bounds: RunBounds::default(),
            retry: WorkRetryPolicy::default(),
            requires_approval: false,
            max_concurrent_attempts: 1,
        }
    }
}

/// What is wrong with a work policy.
pub open spec fn policy_fault(p: WorkPolicy) -> Option<Fault> {
    first_fault(
        bounds_fault(p.bounds),
        first_fault(
            retry_fault(p.retry),
            if p.max_concurrent_attempts != 1 {
                Some(
                    invalid_fault(
                        "policy.max_concurrent_attempts must be exactly one in the single-owner runtime"@,
                    ),
                )
            } else {
                None
            },
        ),
    )
}

impl WorkPolicy {
    /// Refuses zero bounds, bad retries and more than one attempt at a time.
    pub fn validate(&self) -> (r: Result<(), OrchError>)
        ensures
            judged(r, policy_fault(*self)),
    {
        self.bounds.validate()?;
        self.retry.validate()?;
        if self.max_concurrent_attempts != 1 {
            return Err(
                invalid(
                    "policy.max_concurrent_attempts must be exactly one in the single-owner runtime",
                ),
            );
        }
        Ok(())
    }
}

/// What is wrong with an identifier of the workload.
pub open spec fn work_id_fault(value: Seq<char>, field: Seq<char>) -> Option<Fault> {
    if value.len() == 0 || utf8_len(value) > 256 || contains_text(value, ".."@) || value.contains(
        '/',
    ) || value.contains('\\') || value.contains('\0') {
        Some(invalid_fault(field + " is empty or invalid"@))
    } else {
        None
    }
}

fn validate_id(value: &str, field: &str) -> (r: Result<(), OrchError>)
    ensures
        judged(r, work_id_fault(value@, field@)),
{
    if value.is_empty() || byte_len(value) > 256 || str_contains(value, "..") || str_has_char(
        value,
        '/',
    ) || str_has_char(value, '\\') || str_has_char(value, '\0') {
        return Err(invalid(join2(field, " is empty or invalid").as_str()));
    }
    Ok(())
}

/// What is wrong with a text of the workload.
pub open spec fn work_text_fault(value: Seq<char>, max: int, field: Seq<char>) -> Option<Fault> {
    if value.len() == 0 || utf8_len(value) > max || value.contains('\0') {
        Some(invalid_fault(field + " is empty or exceeds its bound"@))
    } else {
        None
    }
}

fn validate_text(value: &str, max_bytes: usize, field: &str) -> (r: Result<(), OrchError>)
    ensures
        judged(r, work_text_fault(value@, max_bytes as int, field@)),
{
    if value.is_empty() || byte_len(value) > max_bytes || str_has_char(value, '\0') {
        return Err(invalid(join2(field, " is empty or exceeds its bound").as_str()));
    }
    Ok(())
}

/// Work that must be done before other work.
#[derive(Debug, Clone, PartialEq, Eq)]
pub struct WorkDependency {
    pub work_id: String,
    pub required_state: WorkState,
}

/// What is wrong with a dependency.
pub open spec fn dependency_fault(d: WorkDependency) -> Option<Fault> {
    first_fault(
        work_id_fault(d.work_id@, "dependency.work_id"@),
        if d.required_state != WorkState::Succeeded {
            Some(invalid_fault("dependency.required_state must be succeeded in this slice"@))
        } else {
            None
        },
    )
}

impl WorkDependency {
    /// Refuses bad ids and any demand but success.
    pub fn validate(&self) -> (r: Result<(), OrchError>)
        ensures
            judged(r, dependency_fault(*self)),
    {
        validate_id(self.work_id.as_str(), "dependency.work_id")?;
        if self.required_state != WorkState::Succeeded {
            return Err(invalid("dependency.required_state must be succeeded in this slice"));
        }
        Ok(())
    }
}

/// How far work has come.
#[derive(Debug)]
pub struct WorkProgress {
    pub summary: String,
    pub percent: Option<u8>,
    pub updated_at: i128,
}

impl Clone for WorkProgress {
    fn clone(&self) -> (p: WorkProgress)
        ensures
            p == *self,
    {
        WorkProgress {
            summary: self.summary.clone(),
            percent: self.percent,
            updated_at: self.updated_at,
        }
    }
}

/// Something that work produced.
#[derive(Debug)]
pub struct WorkArtifactRef {
    pub artifact_id: String,
    pub kind: String,
    pub label: String,
    pub digest: Option<String>,
    pub retained_until: Option<i128>,
}

impl Clone for WorkArtifactRef {
    fn clone(&self) -> (a: WorkArtifactRef)
        ensures
            a == *self,
    {
        WorkArtifactRef {
            artifact_id: self.artifact_id.clone(),
            kind: self.kind.clone(),
            label: self.label.clone(),
            digest: copy_option(&self.digest),
            retained_until: self.retained_until,
        }
    }
}

/// What is wrong with an artifact.
pub open spec fn artifact_fault(a: WorkArtifactRef) -> Option<Fault> {
    first_fault(
        work_id_fault(a.artifact_id@, "artifact.artifact_id"@),
        first_fault(
            work_text_fault(a.kind@, MAX_WORK_ARTIFACT_BYTES as int, "artifact.kind"@),
            first_fault(
                work_text_fault(a.label@, MAX_WORK_ARTIFACT_BYTES as int, "artifact.label"@),
                match a.digest {
                    None => None,
                    Some(d) => work_text_fault(
                        d@,
                        MAX_WORK_ARTIFACT_BYTES as int,
                        "artifact.digest"@,
                    ),
                },
            ),
        ),
    )
}

impl WorkArtifactRef {
    /// Refuses bad ids and texts over their bound.
    pub fn validate(&self) -> (r: Result<(), OrchError>)
        ensures
            judged(r, artifact_fault(*self)),
    {
        validate_id(self.artifact_id.as_str(), "artifact.artifact_id")?;
        validate_text(self.kind.as_str(), MAX_WORK_ARTIFACT_BYTES, "artifact.kind")?;
        validate_text(self.label.as_str(), MAX_WORK_ARTIFACT_BYTES, "artifact.label")?;
        match &self.digest {
            Some(d) => {
                validate_text(d.as_str(), MAX_WORK_ARTIFACT_BYTES, "artifact.digest")?;
            },
            None => {},
        }
        Ok(())
    }
}

/// How work ended.
#[derive(Debug, Clone)]
pub struct WorkResult {
    pub summary: String,
    pub evidence: Vec<String>,
    pub artifacts: Vec<WorkArtifactRef>,
    pub failure: Option<String>,
    pub cancellation_reason: Option<String>,
    pub completed_at: i128,
}

pub open spec fn evidence_check(e: Seq<String>) -> spec_fn(int) -> Option<Fault> {
    |i: int| work_text_fault(e[i]@, MAX_WORK_ARTIFACT_BYTES as int, "result.evidence"@)
}

pub open spec fn artifact_check(a: Seq<WorkArtifactRef>) -> spec_fn(int) -> Option<Fault> {
    |i: int| artifact_fault(a[i])
}

pub open spec fn optional_text_fault(s: Option<String>, max: int, field: Seq<char>) -> Option<
    Fault,
> {
    match s {
        None => None,
        Some(s) => work_text_fault(s@, max, field),
    }
}

/// What is wrong with a result.
pub open spec fn result_fault(r: WorkResult) -> Option<Fault> {
    first_fault(
        work_text_fault(r.summary@, MAX_WORK_OBJECTIVE_BYTES as int, "result.summary"@),
        first_fault(
            if r.evidence@.len() > MAX_WORK_ARTIFACTS {
                Some(invalid_fault("result.evidence exceeds the workload bound"@))
            } else {
                scan(0, r.evidence@.len() as int, evidence_check(r.evidence@))
            },
            first_fault(
                if r.artifacts@.len() > MAX_WORK_ARTIFACTS {
                    Some(invalid_fault("result.artifacts exceeds the workload bound"@))
                } else {
                    scan(0, r.artifacts@.len() as int, artifact_check(r.artifacts@))
                },
                first_fault(
                    optional_text_fault(
                        r.failure,
                        MAX_WORK_OBJECTIVE_BYTES as int,
                        "result.failure"@,
                    ),
                    optional_text_fault(
                        r.cancellation_reason,
                        MAX_WORK_OBJECTIVE_BYTES as int,
                        "result.cancellation_reason"@,
                    ),
                ),
            ),
        ),
    )
}

fn validate_optional_text(s: &Option<String>, max_bytes: usize, field: &str) -> (r: Result<
    (),
    OrchError,
>)
    ensures
        judged(r, optional_text_fault(*s, max_bytes as int, field@)),
{
    match s {
        None => Ok(()),
        Some(s) => validate_text(s.as_str(), max_bytes, field),
    }
}

impl WorkResult {
    /// Refuses texts and lists over their bounds.
    pub fn validate(&self) -> (r: Result<(), OrchError>)
        ensures
            judged(r, result_fault(*self)),
    {
        validate_text(self.summary.as_str(), MAX_WORK_OBJECTIVE_BYTES, "result.summary")?;
        if self.evidence.len() > MAX_WORK_ARTIFACTS {
            return Err(invalid("result.evidence exceeds the workload bound"));
        }
        let ghost e_check = evidence_check(self.evidence@);
        let ghost e_n = self.evidence@.len() as int;
        let mut i: usize = 0;
        while i < self.evidence.len()
            invariant
                i <= self.evidence@.len() <= MAX_WORK_ARTIFACTS,
                e_n == self.evidence@.len(),
                e_check == evidence_check(self.evidence@),
                work_text_fault(
                    self.summary@,
                    MAX_WORK_OBJECTIVE_BYTES as int,
                    "result.summary"@,
                ) is None,
                scan(0, e_n, e_check) == scan(i as int, e_n, e_check),
            decreases self.evidence.len() - i,
        {
            validate_text(self.evidence[i].as_str(), MAX_WORK_ARTIFACT_BYTES, "result.evidence")?;
            i = i + 1;
        }
        if self.artifacts.len() > MAX_WORK_ARTIFACTS {
            return Err(invalid("result.artifacts exceeds the workload bound"));
        }
        let ghost a_check = artifact_check(self.artifacts@);
        let ghost a_n = self.artifacts@.len() as int;
        let mut j: usize = 0;
        while j < self.artifacts.len()
            invariant
                j <= self.artifacts@.len() <= MAX_WORK_ARTIFACTS,
                a_n == self.artifacts@.len(),
                a_check == artifact_check(self.artifacts@),
                e_n == self.evidence@.len() <= MAX_WORK_ARTIFACTS,
                e_check == evidence_check(self.evidence@),
                scan(0, e_n, e_check) is None,
                work_text_fault(
                    self.summary@,
                    MAX_WORK_OBJECTIVE_BYTES as int,
                    "result.summary"@,
                ) is None,
                scan(0, a_n, a_check) == scan(j as int, a_n, a_check),
            decreases self.artifacts.len() - j,
        {
            self.artifacts[j].validate()?;
            j = j + 1;
        }
        validate_optional_text(&self.failure, MAX_WORK_OBJECTIVE_BYTES, "result.failure")?;
        validate_optional_text(
            &self.cancellation_reason,
            MAX_WORK_OBJECTIVE_BYTES,
            "result.cancellation_reason",
        )?;
        Ok(())
    }
}

/// Who work was given to, and whether they took it.
#[derive(Debug, Clone, Copy, PartialEq, Eq, Structural)]
pub enum AssignmentStatus {
    Unassigned,
    Offered,
    Accepted,
    Declined,
}

/// Whether a block was chosen by a person or follows from the graph.
#[derive(Debug, Clone, Copy, PartialEq, Eq, Structural)]
pub enum BlockProvenance {
    Manual,
    Derived,
}

/// An operator's release of finished work.
#[derive(Debug, Clone)]
pub struct WorkApproval {
    pub reviewer_id: String,
    pub note: Option<String>,
    pub approved_at: i128,
}

/// What a named party said of work under review.
#[derive(Debug, Clone, Copy, PartialEq, Eq, Structural)]
pub enum ReviewVerdict {
    Approve,
    Reject,
}

/// The review that work must pass before it is carried out: who speaks, and
/// how many must approve.
#[derive(Debug, Clone)]
pub struct WorkReviewPolicy {
    pub reviewers: Vec<String>,
    pub required_approvals: u32,
    pub policy_revision: u64,
}

/// A recorded verdict. A revoked one is kept.
#[derive(Debug, Clone)]
pub struct ReviewReceipt {
    pub reviewer_id: String,
    pub principal_token_id: String,
    pub principal_owner_id: String,
    pub verdict: ReviewVerdict,
    pub subject_digest: String,
    pub work_revision: u64,
    pub policy_revision: u64,
    pub recorded_at: i128,
    pub revoked_at: Option<i128>,
}

/// One durable piece of work.
#[derive(Debug, Clone)]
pub struct WorkItem {
    pub schema_version: u32,
    pub work_id: String,
    pub kind: String,
    pub objective: String,
    pub session_id: u128,
    pub workspace: String,
    pub created_by: String,
    pub assigned_agent_id: Option<String>,
    pub assignment_status: AssignmentStatus,
    pub priority: i32,
    pub deadline: Option<i128>,
    pub parent_work_id: Option<String>,
    pub dependencies: Vec<WorkDependency>,
    pub policy: WorkPolicy,
    pub state: WorkState,
    /// Work that only groups other work and is never carried out itself.
    pub is_container: bool,
    pub blocked_reason: Option<String>,
    pub block_provenance: Option<BlockProvenance>,
    pub revision: u64,
    pub attempt_count: u32,
    pub progress: Option<WorkProgress>,
    pub result: Option<WorkResult>,
    pub approval: Option<WorkApproval>,
    pub review: Option<WorkReviewPolicy>,
    pub review_receipts: Vec<ReviewReceipt>,
    pub last_decision_id: Option<String>,
    pub source_routine_id: Option<String>,
    pub source_activation_id: Option<String>,
    pub source_manager_plan_id: Option<String>,
    pub source_manager_step_id: Option<String>,
    pub created_at: i128,
    pub updated_at: i128,
}

/// The dependency at `i` is also listed before it.
pub open spec fn repeats_dependency(d: Seq<WorkDependency>, i: int) -> bool {
    exists|j: int| 0 <= j < i && (#[trigger] d[j]).work_id@ == d[i].work_id@
}

pub open spec fn item_dependency_check(item: WorkItem) -> spec_fn(int) -> Option<Fault> {
    |i: int|
        first_fault(
            dependency_fault(item.dependencies@[i]),
            if item.dependencies@[i].work_id@ == item.work_id@ {
                Some(invalid_fault("work item cannot depend on itself"@))
            } else if repeats_dependency(item.dependencies@, i) {
                Some(invalid_fault("duplicate workload dependency"@))
            } else {
                None
            },
        )
}

/// What is wrong with the dependencies of an item.
pub open spec fn item_dependencies_fault(item: WorkItem) -> Option<Fault> {
    if item.dependencies@.len() > MAX_WORK_DEPENDENCIES {
        Some(invalid_fault("dependencies exceeds the workload bound"@))
    } else {
        scan(0, item.dependencies@.len() as int, item_dependency_check(item))
    }
}

/// What is wrong with the parent of an item.
pub open spec fn parent_fault(item: WorkItem) -> Option<Fault> {
    match item.parent_work_id {
        None => None,
        Some(parent) => first_fault(
            work_id_fault(parent@, "parent_work_id"@),
            if parent@ == item.work_id@ {
                Some(invalid_fault("work item cannot be its own parent"@))
            } else {
                None
            },
        ),
    }
}

/// What is wrong with the progress of an item.
pub open spec fn progress_fault(item: WorkItem) -> Option<Fault> {
    match item.progress {
        None => None,
        Some(p) => first_fault(
            work_text_fault(p.summary@, MAX_WORK_OBJECTIVE_BYTES as int, "progress.summary"@),
            if p.percent is Some && p.percent->0 > 100 {
                Some(invalid_fault("progress.percent must be between 0 and 100"@))
            } else {
                None
            },
        ),
    }
}

/// What is wrong with the texts of an item.
pub open spec fn item_texts_fault(item: WorkItem) -> Option<Fault> {
    first_fault(
        if item.schema_version != WORKLOAD_SCHEMA_VERSION || item.revision == 0 {
            Some(invalid_fault("work item schema version or revision is invalid"@))
        } else {
            None
        },
        first_fault(
            work_id_fault(item.work_id@, "work_id"@),
            first_fault(
                work_text_fault(item.kind@, MAX_WORK_KIND_BYTES as int, "kind"@),
                first_fault(
                    work_text_fault(item.objective@, MAX_WORK_OBJECTIVE_BYTES as int, "objective"@),
                    first_fault(
                        work_text_fault(
                            item.workspace@,
                            MAX_WORK_ACTOR_BYTES * 4,
                            "workspace"@,
                        ),
                        first_fault(
                            work_text_fault(
                                item.created_by@,
                                MAX_WORK_ACTOR_BYTES as int,
                                "created_by"@,
                            ),
                            match item.assigned_agent_id {
                                None => None,
                                Some(id) => work_id_fault(id@, "assigned_agent_id"@),
                            },
                        ),
                    ),
                ),
            ),
        ),
    )
}

/// What is wrong with an item.
pub open spec fn item_fault(item: WorkItem) -> Option<Fault> {
    first_fault(
        item_texts_fault(item),
        first_fault(
            parent_fault(item),
            first_fault(
                item_dependencies_fault(item),
                first_fault(
                    policy_fault(item.policy),
                    first_fault(
                        if item.attempt_count > item.policy.retry.max_attempts {
                            Some(invalid_fault("attempt_count exceeds retry.max_attempts"@))
                        } else {
                            None
                        },
                        first_fault(
                            progress_fault(item),
                            match item.result {
                                None => None,
                                Some(r) => result_fault(r),
                            },
                        ),
                    ),
                ),
            ),
        ),
    )
}

fn dependency_seen(d: &Vec<WorkDependency>, n: usize) -> (r: bool)
    requires
        n < d@.len(),
    ensures
        r == repeats_dependency(d@, n as int),
{
    let mut j: usize = 0;
    while j < n
        invariant
            j <= n < d@.len(),
            forall|k: int| 0 <= k < j ==> (#[trigger] d@[k]).work_id@ != d@[n as int].work_id@,
        decreases n - j,
    {
        if str_eq(d[j].work_id.as_str(), d[n].work_id.as_str()) {
            return true;
        }
        j = j + 1;
    }
    false
}

/// How many of the first `n` states are successes.
pub open spec fn successes(states: Seq<WorkState>, n: int) -> nat
    decreases n,
{
    if n <= 0 {
        0
    } else {
        successes(states, n - 1) + if states[n - 1] is Succeeded {
            1nat
        } else {
            0nat
        }
    }
}

/// `item` is freshly made from these values.
pub open spec fn is_new_item(
    item: WorkItem,
    work_id: Seq<char>,
    kind: Seq<char>,
    objective: Seq<char>,
    session_id: u128,
    workspace: Seq<char>,
    created_by: Seq<char>,
    policy: WorkPolicy,
    now: i128,
) -> bool {
    &&& item.schema_version == WORKLOAD_SCHEMA_VERSION
    &&& item.work_id@ == work_id
    &&& item.kind@ == kind
    &&& item.objective@ == objective
    &&& item.session_id == session_id
    &&& item.workspace@ == workspace
    &&& item.created_by@ == created_by
    &&& item.assigned_agent_id is None
    &&& item.assignment_status is Unassigned
    &&& item.priority == 0
    &&& item.deadline is None
    &&& item.parent_work_id is None
    &&& item.dependencies@.len() == 0
    &&& item.policy == policy
    &&& item.state is Queued
    &&& !item.is_container
    &&& item.blocked_reason is None
    &&& item.block_provenance is None
    &&& item.revision == 1
    &&& item.attempt_count == 0
    &&& item.progress is None
    &&& item.result is None
    &&& item.approval is None
    &&& item.review is None
    &&& item.review_receipts@.len() == 0
    &&& item.last_decision_id is None
    &&& item.source_routine_id is None
    &&& item.source_activation_id is None
    &&& item.source_manager_plan_id is None
    &&& item.source_manager_step_id is None
    &&& item.created_at == now
    &&& item.updated_at == now
}

/// Why no item can be made from these values.
pub open spec fn new_item_fault(
    work_id: Seq<char>,
    kind: Seq<char>,
    objective: Seq<char>,
    workspace: Seq<char>,
    created_by: Seq<char>,
    policy: WorkPolicy,
) -> Option<Fault> {
    first_fault(
        work_id_fault(work_id, "work_id"@),
        first_fault(
            work_text_fault(kind, MAX_WORK_KIND_BYTES as int, "kind"@),
            first_fault(
                work_text_fault(objective, MAX_WORK_OBJECTIVE_BYTES as int, "objective"@),
                first_fault(
                    work_text_fault(workspace, MAX_WORK_ACTOR_BYTES * 4, "workspace"@),
                    first_fault(
                        work_text_fault(created_by, MAX_WORK_ACTOR_BYTES as int, "created_by"@),
                        policy_fault(policy),
                    ),
                ),
            ),
        ),
    )
}

/// The revision after one more change.
pub open spec fn next_revision(revision: u64) -> u64 {
    if revision < u64::MAX {
        (revision + 1) as u64
    } else {
        revision
    }
}

/// `item` with its revision raised at `now`.
pub open spec fn bumped(item: WorkItem, now: i128) -> WorkItem {
    WorkItem { revision: next_revision(item.revision), updated_at: now, ..item }
}

impl WorkItem {
    /// New work, queued and unassigned, under this identifier.
    pub fn with_id(
        work_id: &str,
        kind: &str,
        objective: &str,
        session_id: u128,
        workspace: &str,
        created_by: &str,
        policy: WorkPolicy,
        now: i128,
    ) -> (r: Result<WorkItem, OrchError>)
        ensures
            match new_item_fault(work_id@, kind@, objective@, workspace@, created_by@, policy) {
                Some(f) => r is Err && r->Err_0.is(f),
                None => r is Ok && item_fault(r->Ok_0) is None && is_new_item(
                    r->Ok_0,
                    work_id@,
                    kind@,
                    objective@,
                    session_id,
                    workspace@,
                    created_by@,
                    policy,
                    now,
                ),
            },
    {
        let item = WorkItem {
            schema_version: WORKLOAD_SCHEMA_VERSION,
            work_id: copy(work_id),
            kind: copy(kind),
            objective: copy(objective),
            session_id,
            workspace: copy(workspace),
            created_by: copy(created_by),
            assigned_agent_id: None,
            assignment_status: AssignmentStatus::Unassigned,
            priority: 0,
            deadline: None,
            parent_work_id: None,
            dependencies: Vec::new(),
            policy,
            state: WorkState::Queued,
            is_container: false,
            blocked_reason: None,
            block_provenance: None,
            revision: 1,
            attempt_count: 0,
            progress: None,
            result: None,
            approval: None,
            review: None,
            review_receipts: Vec::new(),
            last_decision_id: None,
            source_routine_id: None,
            source_activation_id: None,
            source_manager_plan_id: None,
            source_manager_step_id: None,
            created_at: now,
            updated_at: now,
        };
        item.validate()?;
        Ok(item)
    }

    /// New work, queued and unassigned, under a random identifier.
    pub fn new(
        kind: &str,
        objective: &str,
        session_id: u128,
        workspace: &str,
        created_by: &str,
        policy: WorkPolicy,
        now: i128,
    ) -> (r: Result<WorkItem, OrchError>)
        ensures
            exists|id: u128| #[trigger]
                is_version_four(id) && (match new_item_fault(
                    uuid_display(id),
                    kind@,
                    objective@,
                    workspace@,
                    created_by@,
                    policy,
                ) {
                    Some(f) => r is Err && r->Err_0.is(f),
                    None => r is Ok && is_new_item(
                        r->Ok_0,
                        uuid_display(id),
                        kind@,
                        objective@,
                        session_id,
                        workspace@,
                        created_by@,
                        policy,
                        now,
                    ),
                }),
    {
        let work_id: String = fresh_id();
        Self::with_id(
            work_id.as_str(),
            kind,
            objective,
            session_id,
            workspace,
            created_by,
            policy,
            now,
        )
    }

    /// Refuses items over their bounds, items that depend on themselves and
    /// items with more attempts than their policy allows.
    pub fn validate(&self) -> (r: Result<(), OrchError>)
        ensures
            judged(r, item_fault(*self)),
    {
        self.validate_texts()?;
        match &self.parent_work_id {
            Some(parent) => {
                validate_id(parent.as_str(), "parent_work_id")?;
                if str_eq(parent.as_str(), self.work_id.as_str()) {
                    return Err(invalid("work item cannot be its own parent"));
                }
            },
            None => {},
        }
        self.validate_dependencies()?;
        self.policy.validate()?;
        if self.attempt_count > self.policy.retry.max_attempts {
            return Err(invalid("attempt_count exceeds retry.max_attempts"));
        }
        match &self.progress {
            Some(p) => {
                validate_text(p.summary.as_str(), MAX_WORK_OBJECTIVE_BYTES, "progress.summary")?;
                match p.percent {
                    Some(n) => {
                        if n > 100 {
                            return Err(invalid("progress.percent must be between 0 and 100"));
                        }
                    },
                    None => {},
                }
            },
            None => {},
        }
        match &self.result {
            Some(result) => {
                result.validate()?;
            },
            None => {},
        }
        Ok(())
    }

    fn validate_texts(&self) -> (r: Result<(), OrchError>)
        ensures
            judged(r, item_texts_fault(*self)),
    {
        if self.schema_version != WORKLOAD_SCHEMA_VERSION || self.revision == 0 {
            return Err(invalid("work item schema version or revision is invalid"));
        }
        validate_id(self.work_id.as_str(), "work_id")?;
        validate_text(self.kind.as_str(), MAX_WORK_KIND_BYTES, "kind")?;
        validate_text(self.objective.as_str(), MAX_WORK_OBJECTIVE_BYTES, "objective")?;
        validate_text(self.workspace.as_str(), MAX_WORK_ACTOR_BYTES * 4, "workspace")?;
        validate_text(self.created_by.as_str(), MAX_WORK_ACTOR_BYTES, "created_by")?;
        match &self.assigned_agent_id {
            Some(id) => {
                validate_id(id.as_str(), "assigned_agent_id")?;
            },
            None => {},
        }
        Ok(())
    }

    fn validate_dependencies(&self) -> (r: Result<(), OrchError>)
        ensures
            judged(r, item_dependencies_fault(*self)),
    {
        if self.dependencies.len() > MAX_WORK_DEPENDENCIES {
            return Err(invalid("dependencies exceeds the workload bound"));
        }
        let ghost check = item_dependency_check(*self);
        let ghost n = self.dependencies@.len() as int;
        let mut i: usize = 0;
        while i < self.dependencies.len()
            invariant
                i <= self.dependencies@.len() <= MAX_WORK_DEPENDENCIES,
                n == self.dependencies@.len(),
                check == item_dependency_check(*self),
                scan(0, n, check) == scan(i as int, n, check),
            decreases self.dependencies.len() - i,
        {
            self.dependencies[i].validate()?;
            if str_eq(self.dependencies[i].work_id.as_str(), self.work_id.as_str()) {
                return Err(invalid("work item cannot depend on itself"));
            }
            if dependency_seen(&self.dependencies, i) {
                return Err(invalid("duplicate workload dependency"));
            }
            i = i + 1;
        }
        Ok(())
    }

    /// Whether as many dependencies succeeded as the item has.
    pub fn dependency_ready(&self, states: &[WorkState]) -> (r: bool)
        ensures
            r == (successes(states@, states@.len() as int) == self.dependencies@.len()),
    {
        let mut count: usize = 0;
        let mut i: usize = 0;
        while i < states.len()
            invariant
                i <= states@.len(),
                count <= i,
                count == successes(states@, i as int),
            decreases states.len() - i,
        {
            if states[i] == WorkState::Succeeded {
                count = count + 1;
            }
            i = i + 1;
        }
        count == self.dependencies.len()
    }

    /// Raises the revision.
    pub fn bump(&mut self, now: i128)
        ensures
            *final(self) == bumped(*old(self), now),
    {
        self.revision = self.revision.saturating_add(1);
        self.updated_at = now;
    }
}

/// One attempt to carry work out, under a lease.
#[derive(Debug, Clone)]
pub struct WorkAttempt {
    pub schema_version: u32,
    pub attempt_id: String,
    pub work_id: String,
    pub attempt_number: u32,
    pub claimant_id: String,
    /// Digest of the lease token; the token itself is never kept.
    pub lease_token_hash: String,
    pub acquired_at: i128,
    pub lease_expires_at: i128,
    pub last_heartbeat_at: i128,
    pub state: AttemptState,
    pub linked_run_ids: Vec<String>,
    pub progress: Option<WorkProgress>,
    pub result: Option<WorkResult>,
    pub terminal_reason: Option<String>,
    pub created_at: i128,
    pub updated_at: i128,
}

/// The digest a lease token is kept as.
pub open spec fn token_digest(token: Seq<char>) -> Seq<char> {
    text_digest(json_object_text(seq!["leaseToken"@], seq![json_string_text(token)]))
}

fn hash_token(token: &str) -> (d: String)
    ensures
        d@ == token_digest(token@),
        d@.len() == 64,
{
    let fields: Vec<(String, Json)> = vec![field("leaseToken", Json::string(token))];
    proof {
        assert(field_keys(fields@) =~= seq!["leaseToken"@]);
        assert(field_values(fields@) =~= seq![json_string_text(token@)]);
    }
    hash_payload(&Json::object(fields))
}

/// The lease token that a secret yields for one attempt.
pub open spec fn secret_token(
    secret: Seq<char>,
    work_id: Seq<char>,
    attempt_id: Seq<char>,
    attempt_number: u32,
) -> Seq<char> {
    text_digest(
        json_object_text(
            seq!["leaseSecret"@, "workId"@, "attemptId"@, "attemptNumber"@],
            seq![
                json_string_text(secret),
                json_string_text(work_id),
                json_string_text(attempt_id),
                decimal(attempt_number as nat),
            ],
        ),
    )
}

pub open spec fn run_id_check(ids: Seq<String>) -> spec_fn(int) -> Option<Fault> {
    |i: int| work_id_fault(ids[i]@, "linked_run_id"@)
}

/// What is wrong with an attempt.
pub open spec fn attempt_fault(a: WorkAttempt) -> Option<Fault> {
    first_fault(
        if a.schema_version != WORKLOAD_SCHEMA_VERSION {
            Some(invalid_fault("work attempt schema version is invalid"@))
        } else {
            None
        },
        first_fault(
            work_id_fault(a.attempt_id@, "attempt_id"@),
            first_fault(
                work_id_fault(a.work_id@, "attempt.work_id"@),
                first_fault(
                    if a.attempt_number == 0 {
                        Some(invalid_fault("attempt_number must be greater than zero"@))
                    } else {
                        None
                    },
                    first_fault(
                        work_text_fault(
                            a.claimant_id@,
                            MAX_WORK_ACTOR_BYTES as int,
                            "claimant_id"@,
                        ),
                        first_fault(
                            work_text_fault(a.lease_token_hash@, 128, "lease_token_hash"@),
                            first_fault(
                                if a.lease_expires_at < a.acquired_at {
                                    Some(invalid_fault("lease expires before it was acquired"@))
                                } else if a.linked_run_ids@.len() > 16 {
                                    Some(
                                        invalid_fault(
                                            "linked_run_ids exceeds the workload bound"@,
                                        ),
                                    )
                                } else {
                                    scan(
                                        0,
                                        a.linked_run_ids@.len() as int,
                                        run_id_check(a.linked_run_ids@),
                                    )
                                },
                                attempt_texts_fault(a),
                            ),
                        ),
                    ),
                ),
            ),
        ),
    )
}

/// What is wrong with what an attempt reports.
pub open spec fn attempt_texts_fault(a: WorkAttempt) -> Option<Fault> {
    first_fault(
        match a.progress {
            None => None,
            Some(p) => work_text_fault(
                p.summary@,
                MAX_WORK_OBJECTIVE_BYTES as int,
                "attempt.progress"@,
            ),
        },
        first_fault(
            match a.result {
                None => None,
                Some(r) => result_fault(r),
            },
            optional_text_fault(
                a.terminal_reason,
                MAX_WORK_OBJECTIVE_BYTES as int,
                "attempt.terminal_reason"@,
            ),
        ),
    )
}

/// `a` is freshly made from these values, leased until `expires`.
pub open spec fn is_new_attempt(
    a: WorkAttempt,
    attempt_id: Seq<char>,
    work_id: Seq<char>,
    attempt_number: u32,
    claimant_id: Seq<char>,
    token: Seq<char>,
    now: i128,
    expires: int,
) -> bool {
    &&& a.schema_version == WORKLOAD_SCHEMA_VERSION
    &&& a.attempt_id@ == attempt_id
    &&& a.work_id@ == work_id
    &&& a.attempt_number == attempt_number
    &&& a.claimant_id@ == claimant_id
    &&& a.lease_token_hash@ == token_digest(token)
    &&& a.acquired_at == now
    &&& a.lease_expires_at == expires
    &&& a.last_heartbeat_at == now
    &&& a.state is Leased
    &&& a.linked_run_ids@.len() == 0
    &&& a.progress is None
    &&& a.result is None
    &&& a.terminal_reason is None
    &&& a.created_at == now
    &&& a.updated_at == now
}

/// The length of a lease in nanoseconds.
pub open spec fn lease_nanos(ms: u64) -> int {
    ms * 1_000_000
}

/// An attempt holds its lease at `now`.
pub open spec fn lease_live(a: WorkAttempt, now: i128) -> bool {
    a.state.active() && now < a.lease_expires_at
}

impl WorkAttempt {
    /// An attempt under a lease of the default length.
    pub fn with_id(
        attempt_id: &str,
        work_id: &str,
        attempt_number: u32,
        claimant_id: &str,
        lease_token: &str,
        now: i128,
    ) -> (a: WorkAttempt)
        requires
            now <= LAST_LEASE_START,
        ensures
            is_new_attempt(
                a,
                attempt_id@,
                work_id@,
                attempt_number,
                claimant_id@,
                lease_token@,
                now,
                now + lease_nanos(DEFAULT_WORK_LEASE_MS),
            ),
    {
        WorkAttempt {
            schema_version: WORKLOAD_SCHEMA_VERSION,
            attempt_id: copy(attempt_id),
            work_id: copy(work_id),
            attempt_number,
            claimant_id: copy(claimant_id),
            lease_token_hash: hash_token(lease_token),
            acquired_at: now,
            lease_expires_at: now + 300_000_000_000,
            last_heartbeat_at: now,
            state: AttemptState::Leased,
            linked_run_ids: Vec::new(),
            progress: None,
            result: None,
            terminal_reason: None,
            created_at: now,
            updated_at: now,
        }
    }

    /// An attempt whose lease token follows from a secret.
    pub fn with_id_and_secret(
        attempt_id: &str,
        work_id: &str,
        attempt_number: u32,
        claimant_id: &str,
        lease_secret: &str,
        now: i128,
    ) -> (a: WorkAttempt)
        requires
            now <= LAST_LEASE_START,
        ensures
            is_new_attempt(
                a,
                attempt_id@,
                work_id@,
                attempt_number,
                claimant_id@,
                secret_token(lease_secret@, work_id@, attempt_id@, attempt_number),
                now,
                now + lease_nanos(DEFAULT_WORK_LEASE_MS),
            ),
    {
        let mut attempt: WorkAttempt = Self::with_id(
            attempt_id,
            work_id,
            attempt_number,
            claimant_id,
            "generated-at-claim",
            now,
        );
        let token: String = attempt.lease_token_for_secret(lease_secret);
        attempt.lease_token_hash = hash_token(token.as_str());
        attempt
    }

    /// An attempt under a random identifier and a lease of the default length.
    pub fn new(
        work_id: &str,
        attempt_number: u32,
        claimant_id: &str,
        lease_token: &str,
        now: i128,
    ) -> (a: WorkAttempt)
        requires
            now <= LAST_LEASE_START,
        ensures
            exists|id: u128| #[trigger]
                is_version_four(id) && is_new_attempt(
                    a,
                    uuid_display(id),
                    work_id@,
                    attempt_number,
                    claimant_id@,
                    lease_token@,
                    now,
                    now + lease_nanos(DEFAULT_WORK_LEASE_MS),
                ),
    {
        let attempt_id: String = fresh_id();
        Self::with_id(attempt_id.as_str(), work_id, attempt_number, claimant_id, lease_token, now)
    }

    /// An attempt under a random identifier whose lease token follows from a
    /// secret.
    pub fn new_with_lease_secret(
        work_id: &str,
        attempt_number: u32,
        claimant_id: &str,
        lease_secret: &str,
        now: i128,
    ) -> (a: WorkAttempt)
        requires
            now <= LAST_LEASE_START,
        ensures
            exists|id: u128| #[trigger]
                is_version_four(id) && is_new_attempt(
                    a,
                    uuid_display(id),
                    work_id@,
                    attempt_number,
                    claimant_id@,
                    secret_token(lease_secret@, work_id@, uuid_display(id), attempt_number),
                    now,
                    now + lease_nanos(DEFAULT_WORK_LEASE_MS),
                ),
    {
        let attempt_id: String = fresh_id();
        Self::with_id_and_secret(
            attempt_id.as_str(),
            work_id,
            attempt_number,
            claimant_id,
            lease_secret,
            now,
        )
    }

    /// Refuses attempts over their bounds and leases that end before they
    /// begin.
    pub fn validate(&self) -> (r: Result<(), OrchError>)
        ensures
            judged(r, attempt_fault(*self)),
    {
        if self.schema_version != WORKLOAD_SCHEMA_VERSION {
            return Err(invalid("work attempt schema version is invalid"));
        }
        validate_id(self.attempt_id.as_str(), "attempt_id")?;
        validate_id(self.work_id.as_str(), "attempt.work_id")?;
        if self.attempt_number == 0 {
            return Err(invalid("attempt_number must be greater than zero"));
        }
        validate_text(self.claimant_id.as_str(), MAX_WORK_ACTOR_BYTES, "claimant_id")?;
        validate_text(self.lease_token_hash.as_str(), 128, "lease_token_hash")?;
        if self.lease_expires_at < self.acquired_at {
            return Err(invalid("lease expires before it was acquired"));
        }
        if self.linked_run_ids.len() > 16 {
            return Err(invalid("linked_run_ids exceeds the workload bound"));
        }
        self.validate_runs()?;
        match &self.progress {
            Some(p) => {
                validate_text(p.summary.as_str(), MAX_WORK_OBJECTIVE_BYTES, "attempt.progress")?;
            },
            None => {},
        }
        match &self.result {
            Some(result) => {
                result.validate()?;
            },
            None => {},
        }
        validate_optional_text(
            &self.terminal_reason,
            MAX_WORK_OBJECTIVE_BYTES,
            "attempt.terminal_reason",
        )?;
        Ok(())
    }

    fn validate_runs(&self) -> (r: Result<(), OrchError>)
        ensures
            judged(
                r,
                scan(
                    0,
                    self.linked_run_ids@.len() as int,
                    run_id_check(self.linked_run_ids@),
                ),
            ),
    {
        let ghost check = run_id_check(self.linked_run_ids@);
        let ghost n = self.linked_run_ids@.len() as int;
        let mut i: usize = 0;
        while i < self.linked_run_ids.len()
            invariant
                i <= self.linked_run_ids@.len(),
                n == self.linked_run_ids@.len(),
                check == run_id_check(self.linked_run_ids@),
                scan(0, n, check) == scan(i as int, n, check),
            decreases self.linked_run_ids.len() - i,
        {
            validate_id(self.linked_run_ids[i].as_str(), "linked_run_id")?;
            i = i + 1;
        }
        Ok(())
    }

    /// Whether `lease_token` is the token of this attempt's lease.
    pub fn token_matches(&self, lease_token: &str) -> (r: bool)
        ensures
            r == (self.lease_token_hash@ == token_digest(lease_token@)),
    {
        let expected: String = hash_token(lease_token);
        str_eq(self.lease_token_hash.as_str(), expected.as_str())
    }

    /// The lease token that a secret yields for this attempt.
    pub fn lease_token_for_secret(&self, lease_secret: &str) -> (t: String)
        ensures
            t@ == secret_token(
                lease_secret@,
                self.work_id@,
                self.attempt_id@,
                self.attempt_number,
            ),
            t@.len() == 64,
    {
        let fields: Vec<(String, Json)> = vec![
            field("leaseSecret", Json::string(lease_secret)),
            field("workId", Json::string(self.work_id.as_str())),
            field("attemptId", Json::string(self.attempt_id.as_str())),
            field("attemptNumber", Json::number(self.attempt_number as u64)),
        ];
        proof {
            assert(field_keys(fields@) =~= seq![
                "leaseSecret"@,
                "workId"@,
                "attemptId"@,
                "attemptNumber"@,
            ]);
            assert(field_values(fields@) =~= seq![
                json_string_text(lease_secret@),
                json_string_text(self.work_id@),
                json_string_text(self.attempt_id@),
                decimal(self.attempt_number as nat),
            ]);
        }
        hash_payload(&Json::object(fields))
    }

    /// Whether the attempt holds its lease at `now`.
    pub fn lease_active_at(&self, now: i128) -> (r: bool)
        ensures
            r == lease_live(*self, now),
    {
        self.state.is_active() && now < self.lease_expires_at
    }
}

/// A fresh attempt accepts the token it was made with.
pub proof fn fresh_attempt_accepts_its_token(
    a: WorkAttempt,
    attempt_id: Seq<char>,
    work_id: Seq<char>,
    attempt_number: u32,
    claimant_id: Seq<char>,
    token: Seq<char>,
    now: i128,
    expires: int,
)
    requires
        is_new_attempt(
            a,
            attempt_id,
            work_id,
            attempt_number,
            claimant_id,
            token,
            now,
            expires,
        ),
    ensures
        a.lease_token_hash@ == token_digest(token),
        expires > now ==> lease_live(a, now),
{
}

/// What others may see of an attempt: everything but the token's digest.
#[derive(Debug, Clone)]
pub struct WorkAttemptView {
    pub schema_version: u32,
    pub attempt_id: String,
    pub work_id: String,
    pub attempt_number: u32,
    pub claimant_id: String,
    pub acquired_at: i128,
    pub lease_expires_at: i128,
    pub last_heartbeat_at: i128,
    pub state: AttemptState,
    pub linked_run_ids: Vec<String>,
    pub progress: Option<WorkProgress>,
    pub result: Option<WorkResult>,
    pub terminal_reason: Option<String>,
    pub created_at: i128,
    pub updated_at: i128,
}

/// A copy of a list of strings.
pub fn copy_strings(v: &Vec<String>) -> (r: Vec<String>)
    ensures
        r@ == v@,
{
    let mut r: Vec<String> = Vec::new();
    let mut i: usize = 0;
    while i < v.len()
        invariant
            i <= v@.len(),
            r@ =~= v@.take(i as int),
        decreases v.len() - i,
    {
        r.push(v[i].clone());
        i = i + 1;
    }
    r
}

/// Two results say the same.
pub open spec fn same_result(a: WorkResult, b: WorkResult) -> bool {
    &&& a.summary == b.summary
    &&& a.evidence@ == b.evidence@
    &&& a.artifacts@ == b.artifacts@
    &&& a.failure == b.failure
    &&& a.cancellation_reason == b.cancellation_reason
    &&& a.completed_at == b.completed_at
}

/// Two optional results say the same.
pub open spec fn same_optional_result(a: Option<WorkResult>, b: Option<WorkResult>) -> bool {
    match (a, b) {
        (Some(a), Some(b)) => same_result(a, b),
        (None, None) => true,
        _ => false,
    }
}

/// A copy of a result.
pub fn copy_result(r: &WorkResult) -> (c: WorkResult)
    ensures
        same_result(c, *r),
{
    let mut artifacts: Vec<WorkArtifactRef> = Vec::new();
    let mut i: usize = 0;
    while i < r.artifacts.len()
        invariant
            i <= r.artifacts@.len(),
            artifacts@ =~= r.artifacts@.take(i as int),
        decreases r.artifacts.len() - i,
    {
        artifacts.push(r.artifacts[i].clone());
        i = i + 1;
    }
    proof {
        assert(artifacts@ =~= r.artifacts@);
    }
    WorkResult {
        summary: r.summary.clone(),
        evidence: copy_strings(&r.evidence),
        artifacts,
        failure: copy_option(&r.failure),
        cancellation_reason: copy_option(&r.cancellation_reason),
        completed_at: r.completed_at,
    }
}

/// A copy of an optional result.
pub fn copy_optional_result(r: &Option<WorkResult>) -> (c: Option<WorkResult>)
    ensures
        same_optional_result(c, *r),
{
    match r {
        Some(r) => Some(copy_result(r)),
        None => None,
    }
}

/// `v` shows `a` to others.
pub open spec fn shows(v: WorkAttemptView, a: WorkAttempt) -> bool {
    &&& v.schema_version == a.schema_version
    &&& v.attempt_id == a.attempt_id
    &&& v.work_id == a.work_id
    &&& v.attempt_number == a.attempt_number
    &&& v.claimant_id == a.claimant_id
    &&& v.acquired_at == a.acquired_at
    &&& v.lease_expires_at == a.lease_expires_at
    &&& v.last_heartbeat_at == a.last_heartbeat_at
    &&& v.state == a.state
    &&& v.linked_run_ids@ == a.linked_run_ids@
    &&& v.progress == a.progress
    &&& same_optional_result(v.result, a.result)
    &&& v.terminal_reason == a.terminal_reason
    &&& v.created_at == a.created_at
    &&& v.updated_at == a.updated_at
}

impl WorkAttemptView {
    /// What others may see of `attempt`.
    pub fn of(attempt: &WorkAttempt) -> (v: WorkAttemptView)
        ensures
            shows(v, *attempt),
    {
        WorkAttemptView {
            schema_version: attempt.schema_version,
            attempt_id: attempt.attempt_id.clone(),
            work_id: attempt.work_id.clone(),
            attempt_number: attempt.attempt_number,
            claimant_id: attempt.claimant_id.clone(),
            acquired_at: attempt.acquired_at,
            lease_expires_at: attempt.lease_expires_at,
            last_heartbeat_at: attempt.last_heartbeat_at,
            state: attempt.state,
            linked_run_ids: copy_strings(&attempt.linked_run_ids),
            progress: match &attempt.progress {
                Some(p) => Some(p.clone()),
                None => None,
            },
            result: copy_optional_result(&attempt.result),
            terminal_reason: copy_option(&attempt.terminal_reason),
            created_at: attempt.created_at,
            updated_at: attempt.updated_at,
        }
    }
}

/// An item with its attempts, as others may see them.
#[derive(Debug, Clone)]
pub struct WorkItemSnapshot {
    pub work: WorkItem,
    pub attempts: Vec<WorkAttemptView>,
}

/// A granted lease. The token goes to the worker and nowhere else.
#[derive(Debug, Clone)]
pub struct WorkClaim {
    pub work: WorkItem,
    pub attempt: WorkAttempt,
    pub lease_token: String,
}

/// How long a lease lasts.
pub open spec fn lease_lasting(
    milliseconds: Option<u64>,
    r: Result<i128, OrchError>,
) -> bool {
    let ms = match milliseconds {
        Some(ms) => ms,
        None => DEFAULT_WORK_LEASE_MS,
    };
    if ms == 0 || ms > MAX_WORK_LEASE_MS {
        r is Err && r->Err_0.is(invalid_fault("lease_ms must be between 1 and 3600000"@))
    } else {
        r is Ok && r->Ok_0 == lease_nanos(ms) && 0 < r->Ok_0 <= 3_600_000_000_000
    }
}

/// The length of a lease in nanoseconds, from the milliseconds asked for.
pub fn lease_duration(milliseconds: Option<u64>) -> (r: Result<i128, OrchError>)
    ensures
        lease_lasting(
            milliseconds,
            r,
        ),
{
    let ms: u64 = milliseconds.unwrap_or(DEFAULT_WORK_LEASE_MS);
    if ms == 0 || ms > MAX_WORK_LEASE_MS {
        return Err(invalid("lease_ms must be between 1 and 3600000"));
    }
    Ok(ms as i128 * NANOS_PER_MILLI)
}

/// A lease lasts as many milliseconds as were asked for, at least one and at
/// most those of an hour; five minutes where nothing was asked.
pub proof fn leases_last_as_asked(milliseconds: Option<u64>, r: Result<i128, OrchError>)
    requires
        lease_lasting(milliseconds, r),
    ensures
        milliseconds matches Some(ms) ==> (r is Ok <==> 1 <= ms <= 3_600_000),
        milliseconds matches Some(ms) ==> (r is Ok ==> r->Ok_0 == ms * 1_000_000),
        milliseconds is None ==> r is Ok && r->Ok_0 == 300_000_000_000,
{
}

/// What has succeeded is counted, and nothing else.
pub proof fn successes_are_counted(states: Seq<WorkState>, n: int)
    requires
        0 <= n <= states.len(),
    ensures
        successes(states, n) == states.take(n).filter(
            |s: WorkState| s == WorkState::Succeeded,
        ).len(),
    decreases n,
{
    reveal(Seq::filter);
    if n > 0 {
        successes_are_counted(states, n - 1);
        assert(states.take(n).drop_last() =~= states.take(n - 1));
        assert(states.take(n).last() == states[n - 1]);
    } else {
        assert(states.take(n) =~= Seq::<WorkState>::empty());
    }
}

} // verus!
