//! Declarative shape of one durable work graph.
//!
//! A declaration is data that is validated once, before anything is
//! dispatched. All bounds are checked in a fixed order, so that a rejection is
//! reproducible, and cycles are found by iteration, so that no graph can
//! exhaust the stack.

use crate::bounds::{bounds_fault, RunBounds};
use crate::error::{
    first_fault, invalid, invalid_fault, judged, refused, Fault, OrchError,
};
use crate::order::{
    all_distinct, is_order, order_of, position, position_from, position_is_first, ranks, sorted_order, Rank,
    SortKey,
};
use crate::swarm::ids::{WorkId, WorkerId};
use crate::text::{
    byte_len, copy, decimal, decimal_text, join2, join3, join4, join5, str_has_char, utf8_len,
};
use crate::validate::{clean_scan, scan};
use vstd::prelude::*;
use vstd::string::*;

verus! {

pub const WORK_GRAPH_SCHEMA_VERSION: u32 = 1;

/// Most work items in one graph.
pub const MAX_WORK_ITEMS: usize = 64;

/// Most workers a graph may declare.
pub const MAX_WORKERS: usize = 32;

/// Most dependencies of one work item.
pub const MAX_DEPENDENCIES: usize = 16;

/// Most review items of one quorum gate.
pub const MAX_REVIEWERS: usize = 16;

/// Most simultaneous dispatches a graph may request.
pub const MAX_IN_FLIGHT: usize = 16;

/// Most dispatch attempts in the lifetime of a graph.
pub const MAX_TOTAL_ATTEMPTS: u32 = 256;

/// Most bytes in any free-form text of a declaration.
pub const MAX_TEXT_BYTES: usize = 4096;

/// Longest wall-clock time a graph may occupy.
pub const MAX_GRAPH_DURATION_MS: u64 = 43_200_000;

/// What a worker is for.
#[derive(Debug, Clone, Copy, PartialEq, Eq, PartialOrd, Ord, Structural)]
pub enum WorkerRole {
    /// Reads only; produces findings.
    Investigate,
    /// Produces workspace changes.
    Build,
    /// Reviews another item's result and must report a verdict.
    Review,
    /// Combines reviewed results behind a quorum gate.
    Synthesize,
}

/// Authority a work item may exercise. Neither a browser nor the raw host can
/// be expressed.
#[derive(Debug, Clone, Copy, PartialEq, Eq, PartialOrd, Ord, Structural)]
pub enum WorkCapability {
    ReadWorkspace,
    WriteWorkspace,
    ExecuteInWorktree,
    ComputerUse,
}

impl WorkCapability {
    /// Holding this capability forces a dedicated worktree.
    pub open spec fn needs_worktree(self) -> bool {
        self is WriteWorkspace || self is ExecuteInWorktree
    }

    /// Whether holding this capability forces a dedicated worktree.
    pub fn requires_worktree(self) -> (r: bool)
        ensures
            r == self.needs_worktree(),
    {
        matches!(self, WorkCapability::WriteWorkspace | WorkCapability::ExecuteInWorktree)
    }
}

/// A set of capabilities.
#[derive(Debug, Clone, Copy, PartialEq, Eq, Structural)]
pub struct CapabilitySet {
    pub read_workspace: bool,
    pub write_workspace: bool,
    pub execute_in_worktree: bool,
    pub computer_use: bool,
}

impl View for CapabilitySet {
    type V = Set<WorkCapability>;

    open spec fn view(&self) -> Set<WorkCapability> {
        Set::new(|c: WorkCapability| self.has(c))
    }
}

impl CapabilitySet {
    /// This capability is in the set.
    pub open spec fn has(self, c: WorkCapability) -> bool {
        match c {
            WorkCapability::ReadWorkspace => self.read_workspace,
            WorkCapability::WriteWorkspace => self.write_workspace,
            WorkCapability::ExecuteInWorktree => self.execute_in_worktree,
            WorkCapability::ComputerUse => self.computer_use,
        }
    }

    /// Every capability in the set is in `other`.
    pub open spec fn inside(self, other: CapabilitySet) -> bool {
        forall|c: WorkCapability| #[trigger] self.has(c) ==> other.has(c)
    }

    /// Nothing is in the set.
    pub open spec fn none(self) -> bool {
        forall|c: WorkCapability| !#[trigger] self.has(c)
    }

    /// Something in the set forces a dedicated worktree.
    pub open spec fn some_worktree(self) -> bool {
        exists|c: WorkCapability| #[trigger] self.has(c) && c.needs_worktree()
    }

    /// The empty set.
    pub fn new() -> (s: CapabilitySet)
        ensures
            s.none(),
    {
        CapabilitySet {
            read_workspace: false,
            write_workspace: false,
            execute_in_worktree: false,
            computer_use: false,
        }
    }

    /// The set with one more capability.
    pub fn with(self, c: WorkCapability) -> (s: CapabilitySet)
        ensures
            forall|d: WorkCapability| #[trigger] s.has(d) == (d == c || self.has(d)),
    {
        let mut s: CapabilitySet = self;
        match c {
            WorkCapability::ReadWorkspace => {
                s.read_workspace = true;
            },
            WorkCapability::WriteWorkspace => {
                s.write_workspace = true;
            },
            WorkCapability::ExecuteInWorktree => {
                s.execute_in_worktree = true;
            },
            WorkCapability::ComputerUse => {
                s.computer_use = true;
            },
        }
        s
    }

    pub fn contains(&self, c: WorkCapability) -> (r: bool)
        ensures
            r == self.has(c),
    {
        match c {
            WorkCapability::ReadWorkspace => self.read_workspace,
            WorkCapability::WriteWorkspace => self.write_workspace,
            WorkCapability::ExecuteInWorktree => self.execute_in_worktree,
            WorkCapability::ComputerUse => self.computer_use,
        }
    }

    pub fn is_empty(&self) -> (r: bool)
        ensures
            r == self.none(),
    {
        let r: bool = !(self.read_workspace || self.write_workspace || self.execute_in_worktree
            || self.computer_use);
        proof {
            if !r {
                assert(self.has(WorkCapability::ReadWorkspace) || self.has(
                    WorkCapability::WriteWorkspace,
                ) || self.has(WorkCapability::ExecuteInWorktree) || self.has(
                    WorkCapability::ComputerUse,
                ));
            }
        }
        r
    }

    pub fn is_subset(&self, other: &CapabilitySet) -> (r: bool)
        ensures
            r == self.inside(*other),
    {
        let r: bool = (!self.read_workspace || other.read_workspace) && (!self.write_workspace
            || other.write_workspace) && (!self.execute_in_worktree || other.execute_in_worktree)
            && (!self.computer_use || other.computer_use);
        proof {
            if self.inside(*other) {
                assert(self.has(WorkCapability::ReadWorkspace) == self.read_workspace);
                assert(other.has(WorkCapability::ReadWorkspace) == other.read_workspace);
                assert(self.has(WorkCapability::WriteWorkspace) == self.write_workspace);
                assert(other.has(WorkCapability::WriteWorkspace) == other.write_workspace);
                assert(self.has(WorkCapability::ExecuteInWorktree) == self.execute_in_worktree);
                assert(other.has(WorkCapability::ExecuteInWorktree) == other.execute_in_worktree);
                assert(self.has(WorkCapability::ComputerUse) == self.computer_use);
                assert(other.has(WorkCapability::ComputerUse) == other.computer_use);
            }
        }
        r
    }

    /// Whether something in the set forces a dedicated worktree.
    pub fn any_worktree(&self) -> (r: bool)
        ensures
            r == self.some_worktree(),
    {
        let r: bool = (self.read_workspace && WorkCapability::ReadWorkspace.requires_worktree())
            || (self.write_workspace && WorkCapability::WriteWorkspace.requires_worktree()) || (
        self.execute_in_worktree && WorkCapability::ExecuteInWorktree.requires_worktree()) || (
        self.computer_use && WorkCapability::ComputerUse.requires_worktree());
        proof {
            if r {
                assert(self.has(WorkCapability::WriteWorkspace) || self.has(
                    WorkCapability::ExecuteInWorktree,
                ));
            }
        }
        r
    }
}

/// How a work item's execution is isolated from the user's workspace.
#[derive(Debug, Clone, Copy, PartialEq, Eq, Structural)]
pub enum IsolationRequirement {
    /// Shares the session workspace; only for work that strictly reads.
    Shared,
    /// A dedicated worktree is required before dispatch.
    DedicatedWorktree,
}

impl Default for IsolationRequirement {
    fn default() -> (r: IsolationRequirement)
        ensures
            r == IsolationRequirement::Shared,
    {
        IsolationRequirement::Shared
    }
}

/// A quorum of review items that gates a synthesis item.
#[derive(Debug)]
pub struct QuorumGate {
    /// Review items whose verdicts are counted.
    pub reviewers: Vec<WorkId>,
    /// Approvals required: at least one, at most one for each review item.
    pub required_approvals: u32,
}

/// A Computer Use tier: its name, and whether it allows observation.
#[derive(Debug, PartialEq, Eq)]
pub struct ComputerUseTier {
    pub name: String,
    pub observes: bool,
}

impl ComputerUseTier {
    pub fn allows_observation(&self) -> (r: bool)
        ensures
            r == self.observes,
    {
        self.observes
    }
}

impl Clone for ComputerUseTier {
    fn clone(&self) -> (r: ComputerUseTier)
        ensures
            r == *self,
    {
        ComputerUseTier { name: self.name.clone(), observes: self.observes }
    }
}

/// One exact provider and model a worker may use, with what the pair has been
/// measured to hold.
#[derive(Debug)]
pub struct WorkerBinding {
    pub provider_id: String,
    pub profile_id: String,
    pub model_id: String,
    pub effort: String,
    /// Highest Computer Use authority qualified for this exact pair.
    pub computer_use_tier: ComputerUseTier,
}

/// A declared worker.
#[derive(Debug)]
pub struct WorkerSpec {
    pub worker_id: WorkerId,
    pub role: WorkerRole,
    pub binding: WorkerBinding,
    /// Opaque keychain reference: not a credential, and never projected.
    pub credential_ref: String,
    /// The broadest authority any item on this worker may claim.
    pub capabilities: CapabilitySet,
}

/// One node of the graph.
#[derive(Debug)]
pub struct WorkSpec {
    pub work_id: WorkId,
    pub worker_id: WorkerId,
    /// Higher runs first, then the lower `work_id`.
    pub priority: i32,
    pub depends_on: Vec<WorkId>,
    /// Exact authority this item claims, within its worker's.
    pub capabilities: CapabilitySet,
    pub isolation: IsolationRequirement,
    /// Required for a synthesis item, rejected for every other role.
    pub quorum: Option<QuorumGate>,
    /// Bounds of this item, within the graph's ceiling.
    pub bounds: RunBounds,
    /// Description of the item.
    pub objective: String,
}

/// What the whole graph may consume.
#[derive(Debug, Clone, Copy, PartialEq, Eq, Structural)]
pub struct GraphBudget {
    pub max_total_attempts: u32,
    pub max_in_flight: usize,
    pub max_wall_clock_ms: u64,
    /// Provider tokens; exhaustion stops admission and cancels nothing.
    pub max_total_tokens: u64,
}

impl Default for GraphBudget {
    fn default() -> (b: GraphBudget)
        ensures
            b == (GraphBudget {
                max_total_attempts: 64,
                max_in_flight: 4,
                max_wall_clock_ms: 3_600_000,
                max_total_tokens: 2_000_000,
            }),
    {
        GraphBudget {
            max_total_attempts: 64,
            max_in_flight: 4,
            max_wall_clock_ms: 3_600_000,
            max_total_tokens: 2_000_000,
        }
    }
}

/// What is wrong with a budget.
pub open spec fn budget_fault(b: GraphBudget) -> Option<Fault> {
    if b.max_total_attempts == 0 || b.max_total_attempts > MAX_TOTAL_ATTEMPTS {
        Some(invalid_fault("max_total_attempts must be 1..=256"@))
    } else if b.max_in_flight == 0 || b.max_in_flight > MAX_IN_FLIGHT {
        Some(invalid_fault("max_in_flight must be 1..=16"@))
    } else if b.max_wall_clock_ms == 0 || b.max_wall_clock_ms > MAX_GRAPH_DURATION_MS {
        Some(invalid_fault("max_wall_clock_ms must be 1..=43200000"@))
    } else if b.max_total_tokens == 0 {
        Some(invalid_fault("max_total_tokens must be > 0"@))
    } else {
        None
    }
}

impl GraphBudget {
    pub fn validate(&self) -> (r: Result<(), OrchError>)
        ensures
            judged(r, budget_fault(*self)),
    {
        if self.max_total_attempts == 0 || self.max_total_attempts > MAX_TOTAL_ATTEMPTS {
            return Err(invalid("max_total_attempts must be 1..=256"));
        }
        if self.max_in_flight == 0 || self.max_in_flight > MAX_IN_FLIGHT {
            return Err(invalid("max_in_flight must be 1..=16"));
        }
        if self.max_wall_clock_ms == 0 || self.max_wall_clock_ms > MAX_GRAPH_DURATION_MS {
            return Err(invalid("max_wall_clock_ms must be 1..=43200000"));
        }
        if self.max_total_tokens == 0 {
            return Err(invalid("max_total_tokens must be > 0"));
        }
        Ok(())
    }
}

/// How a failure propagates.
#[derive(Debug, Clone, Copy, PartialEq, Eq, Structural)]
pub enum FailurePolicy {
    /// Block what depends on the failure; spare independent branches.
    BlockDependents,
    /// Admit nothing new in the whole graph.
    StopGraph,
}

impl Default for FailurePolicy {
    fn default() -> (r: FailurePolicy)
        ensures
            r == FailurePolicy::BlockDependents,
    {
        FailurePolicy::BlockDependents
    }
}

/// The full declaration of one graph.
#[derive(Debug)]
pub struct WorkGraphSpec {
    pub schema_version: u32,
    /// Ceiling that every item's bounds must fit under.
    pub bounds_ceiling: RunBounds,
    pub budget: GraphBudget,
    pub workers: Vec<WorkerSpec>,
    pub work: Vec<WorkSpec>,
    /// What happens to independent branches when one item fails.
    pub failure_policy: FailurePolicy,
}

/// What is wrong with a free-form text.
pub open spec fn text_fault(value: Seq<char>, field: Seq<char>) -> Option<Fault> {
    if value.len() == 0 || utf8_len(value) > MAX_TEXT_BYTES || value.contains('\0') {
        Some(invalid_fault(field + " must be 1..=4096 bytes and free of NUL"@))
    } else {
        None
    }
}

fn validate_text(value: &str, field: &str) -> (r: Result<(), OrchError>)
    ensures
        judged(r, text_fault(value@, field@)),
{
    if value.is_empty() || byte_len(value) > MAX_TEXT_BYTES || str_has_char(value, '\0') {
        return Err(
            invalid(
                join2(field, " must be 1..=4096 bytes and free of NUL").as_str(),
            ),
        );
    }
    Ok(())
}

/// What keeps an item's bounds from fitting under a ceiling.
pub open spec fn item_bounds_fault(ceiling: RunBounds, item: RunBounds) -> Option<Fault> {
    first_fault(
        bounds_fault(item),
        if item.max_prompt_bytes > ceiling.max_prompt_bytes || item.max_rounds > ceiling.max_rounds
            || item.max_duration_ms > ceiling.max_duration_ms || (item.max_total_tokens is Some
            && ceiling.max_total_tokens is Some && item.max_total_tokens->0
            > ceiling.max_total_tokens->0) {
            Some(invalid_fault("work bounds exceed the graph ceiling"@))
        } else {
            None
        },
    )
}

/// What the bounds of an item come to under a ceiling.
pub open spec fn item_merging(
    ceiling: RunBounds,
    item: RunBounds,
    r: Result<RunBounds, OrchError>,
) -> bool {
    match item_bounds_fault(ceiling, item) {
        Some(f) => refused(r, f),
        None => r == Ok::<RunBounds, OrchError>(item),
    }
}

/// An item's bounds may only narrow the graph's ceiling. An item without a limit
/// of its own on tokens leaves that of the ceiling in force.
pub fn merge_item_bounds(ceiling: &RunBounds, item: &RunBounds) -> (r: Result<RunBounds, OrchError>)
    ensures
        item_merging(
            *ceiling,
            *item,
            r,
        ),
{
    item.validate()?;
    let more_tokens: bool = match (item.max_total_tokens, ceiling.max_total_tokens) {
        (Some(wanted), Some(most)) => wanted > most,
        _ => false,
    };
    if item.max_prompt_bytes > ceiling.max_prompt_bytes || item.max_rounds > ceiling.max_rounds
        || item.max_duration_ms > ceiling.max_duration_ms || more_tokens {
        return Err(invalid("work bounds exceed the graph ceiling"));
    }
    Ok(*item)
}

/// The identities of the workers.
pub open spec fn worker_ids(workers: Seq<WorkerSpec>) -> Seq<Seq<char>> {
    Seq::new(workers.len(), |i: int| workers[i].worker_id@)
}

/// The identities of the items.
pub open spec fn work_ids(work: Seq<WorkSpec>) -> Seq<Seq<char>> {
    Seq::new(work.len(), |i: int| work[i].work_id@)
}

/// The texts of a list of identities.
pub open spec fn id_texts(ids: Seq<WorkId>) -> Seq<Seq<char>> {
    Seq::new(ids.len(), |i: int| ids[i]@)
}

/// The text at `i` occurs before.
pub open spec fn repeats(ids: Seq<Seq<char>>, i: int) -> bool {
    exists|j: int| 0 <= j < i && #[trigger] ids[j] == ids[i]
}

/// Whether the identity at `i` occurs before.
fn id_repeats(ids: &Vec<WorkId>, i: usize) -> (r: bool)
    requires
        i < ids@.len(),
    ensures
        r == repeats(id_texts(ids@), i as int),
{
    let ghost t = id_texts(ids@);
    let mut j: usize = 0;
    while j < i
        invariant
            j <= i < ids@.len(),
            t == id_texts(ids@),
            forall|k: int| 0 <= k < j ==> #[trigger] t[k] != t[i as int],
        decreases i - j,
    {
        if ids[j].same(&ids[i]) {
            proof {
                assert(t[j as int] == t[i as int]);
            }
            return true;
        }
        j = j + 1;
    }
    false
}

/// Whether an identity is in the list.
pub fn lists_id(ids: &Vec<WorkId>, id: &WorkId) -> (r: bool)
    ensures
        r == id_texts(ids@).contains(id@),
{
    let ghost t = id_texts(ids@);
    let mut j: usize = 0;
    while j < ids.len()
        invariant
            j <= ids@.len(),
            t == id_texts(ids@),
            forall|k: int| 0 <= k < j ==> #[trigger] t[k] != id@,
        decreases ids.len() - j,
    {
        if ids[j].same(id) {
            proof {
                assert(t[j as int] == id@);
            }
            return true;
        }
        j = j + 1;
    }
    false
}

/// What is wrong with the worker at `i`.
pub open spec fn worker_fault(workers: Seq<WorkerSpec>, i: int) -> Option<Fault> {
    let w = workers[i];
    first_fault(
        w.worker_id.fault(),
        first_fault(
            if repeats(worker_ids(workers), i) {
                Some(invalid_fault("duplicate worker id "@ + w.worker_id@))
            } else {
                None
            },
            first_fault(
                text_fault(w.binding.provider_id@, "provider_id"@),
                first_fault(
                    text_fault(w.binding.profile_id@, "profile_id"@),
                    first_fault(
                        text_fault(w.binding.model_id@, "model_id"@),
                        first_fault(
                            text_fault(w.binding.effort@, "effort"@),
                            first_fault(
                                text_fault(w.credential_ref@, "credential_ref"@),
                                if w.capabilities.none() {
                                    Some(
                                        invalid_fault(
                                            "worker "@ + w.worker_id@
                                                + " declares no capabilities"@,
                                        ),
                                    )
                                } else if w.capabilities.has(WorkCapability::ComputerUse)
                                    && !w.binding.computer_use_tier.observes {
                                    Some(
                                        invalid_fault(
                                            "worker "@ + w.worker_id@
                                                + " claims Computer Use without a qualified tier"@,
                                        ),
                                    )
                                } else {
                                    None
                                },
                            ),
                        ),
                    ),
                ),
            ),
        ),
    )
}

pub open spec fn worker_check(workers: Seq<WorkerSpec>) -> spec_fn(int) -> Option<Fault> {
    |i: int| worker_fault(workers, i)
}

/// What is wrong with the workers.
pub open spec fn workers_fault(workers: Seq<WorkerSpec>) -> Option<Fault> {
    if workers.len() == 0 || workers.len() > MAX_WORKERS {
        Some(invalid_fault("a graph declares 1..=32 workers"@))
    } else {
        scan(0, workers.len() as int, worker_check(workers))
    }
}

/// What is wrong with the item at `i`, taken by itself.
pub open spec fn shape_fault(ceiling: RunBounds, work: Seq<WorkSpec>, i: int) -> Option<Fault> {
    let w = work[i];
    first_fault(
        w.work_id.fault(),
        first_fault(
            if repeats(work_ids(work), i) {
                Some(invalid_fault("duplicate work id "@ + w.work_id@))
            } else {
                None
            },
            first_fault(
                text_fault(w.objective@, "objective"@),
                first_fault(
                    if w.depends_on@.len() > MAX_DEPENDENCIES {
                        Some(
                            invalid_fault(
                                "work "@ + w.work_id@ + " declares more than 16 dependencies"@,
                            ),
                        )
                    } else if w.capabilities.none() {
                        Some(
                            invalid_fault("work "@ + w.work_id@ + " declares no capabilities"@),
                        )
                    } else {
                        None
                    },
                    item_bounds_fault(ceiling, w.bounds),
                ),
            ),
        ),
    )
}

pub open spec fn shape_check(ceiling: RunBounds, work: Seq<WorkSpec>) -> spec_fn(int) -> Option<
    Fault,
> {
    |i: int| shape_fault(ceiling, work, i)
}

/// What is wrong with the items, each taken by itself.
pub open spec fn shapes_fault(ceiling: RunBounds, work: Seq<WorkSpec>) -> Option<Fault> {
    if work.len() == 0 || work.len() > MAX_WORK_ITEMS {
        Some(invalid_fault("a graph declares 1..=64 work items"@))
    } else {
        scan(0, work.len() as int, shape_check(ceiling, work))
    }
}

/// The position of a worker.
pub open spec fn worker_at(workers: Seq<WorkerSpec>, id: Seq<char>) -> Option<int> {
    position(worker_ids(workers), id)
}

/// The position of an item.
pub open spec fn work_at(work: Seq<WorkSpec>, id: Seq<char>) -> Option<int> {
    position(work_ids(work), id)
}

/// What keeps an item from running on the worker it names.
pub open spec fn placement_fault(workers: Seq<WorkerSpec>, w: WorkSpec) -> Option<Fault> {
    match worker_at(workers, w.worker_id@) {
        None => Some(
            invalid_fault("work "@ + w.work_id@ + " names unknown worker "@ + w.worker_id@),
        ),
        Some(k) => if !w.capabilities.inside(workers[k].capabilities) {
            Some(
                invalid_fault(
                    "work "@ + w.work_id@ + " claims authority beyond worker "@ + w.worker_id@,
                ),
            )
        } else if w.capabilities.some_worktree() && w.isolation
            != IsolationRequirement::DedicatedWorktree {
            Some(
                invalid_fault(
                    "work "@ + w.work_id@
                        + " writes or executes and must require a dedicated worktree"@,
                ),
            )
        } else if w.capabilities.some_worktree() && (workers[k].role is Investigate
            || workers[k].role is Review) {
            Some(
                invalid_fault(
                    "work "@ + w.work_id@
                        + " is read-only by role and cannot claim write or execute"@,
                ),
            )
        } else {
            None
        },
    }
}

pub open spec fn placement_check(workers: Seq<WorkerSpec>, work: Seq<WorkSpec>) -> spec_fn(
    int,
) -> Option<Fault> {
    |i: int| placement_fault(workers, work[i])
}

/// What is wrong with the dependency at `k` of the item at `i`.
pub open spec fn dependency_fault(work: Seq<WorkSpec>, i: int, k: int) -> Option<Fault> {
    let w = work[i];
    let d = w.depends_on@[k];
    first_fault(
        d.fault(),
        if d@ == w.work_id@ {
            Some(invalid_fault("work "@ + w.work_id@ + " depends on itself"@))
        } else if work_at(work, d@) is None {
            Some(invalid_fault("work "@ + w.work_id@ + " depends on unknown work "@ + d@))
        } else if repeats(id_texts(w.depends_on@), k) {
            Some(
                invalid_fault("work "@ + w.work_id@ + " declares duplicate dependency "@ + d@),
            )
        } else {
            None
        },
    )
}

pub open spec fn dependency_check(work: Seq<WorkSpec>, i: int) -> spec_fn(int) -> Option<Fault> {
    |k: int| dependency_fault(work, i, k)
}

pub open spec fn dependencies_check(work: Seq<WorkSpec>) -> spec_fn(int) -> Option<Fault> {
    |i: int| scan(0, work[i].depends_on@.len() as int, dependency_check(work, i))
}

/// The role of the item with this identity, where both it and its worker are
/// declared.
pub open spec fn role_at(spec: WorkGraphSpec, id: Seq<char>) -> Option<WorkerRole> {
    match work_at(spec.work@, id) {
        None => None,
        Some(i) => match worker_at(spec.workers@, spec.work@[i].worker_id@) {
            None => None,
            Some(k) => Some(spec.workers@[k].role),
        },
    }
}

/// What is wrong with the review item at `k` of a quorum.
pub open spec fn reviewer_fault(spec: WorkGraphSpec, w: WorkSpec, gate: QuorumGate, k: int) -> Option<
    Fault,
> {
    let v = gate.reviewers@[k];
    first_fault(
        v.fault(),
        if repeats(id_texts(gate.reviewers@), k) {
            Some(invalid_fault("work "@ + w.work_id@ + " names review item "@ + v@ + " twice"@))
        } else if role_at(spec, v@) != Some(WorkerRole::Review) {
            Some(
                invalid_fault(
                    "work "@ + w.work_id@ + " names "@ + v@ + ", which is not a review item"@,
                ),
            )
        } else if !id_texts(w.depends_on@).contains(v@) {
            Some(
                invalid_fault(
                    "work "@ + w.work_id@ + " must depend on the review item "@ + v@
                        + " it gates on"@,
                ),
            )
        } else {
            None
        },
    )
}

pub open spec fn reviewer_check(
    spec: WorkGraphSpec,
    w: WorkSpec,
    gate: QuorumGate,
) -> spec_fn(int) -> Option<Fault> {
    |k: int| reviewer_fault(spec, w, gate, k)
}

/// What is wrong with a quorum gate.
pub open spec fn gate_fault(spec: WorkGraphSpec, w: WorkSpec, gate: QuorumGate) -> Option<Fault> {
    let n = gate.reviewers@.len();
    if n == 0 || n > MAX_REVIEWERS {
        Some(invalid_fault("work "@ + w.work_id@ + " names 1..=16 review items"@))
    } else if gate.required_approvals == 0 || gate.required_approvals > n {
        Some(
            invalid_fault(
                "work "@ + w.work_id@ + " requires 1..="@ + decimal(n) + " approvals"@,
            ),
        )
    } else {
        scan(0, n as int, reviewer_check(spec, w, gate))
    }
}

/// What is wrong with an item's gate, or the lack of one.
pub open spec fn quorum_fault(spec: WorkGraphSpec, w: WorkSpec) -> Option<Fault> {
    match (role_at(spec, w.work_id@), w.quorum) {
        (Some(WorkerRole::Synthesize), None) => Some(
            invalid_fault("synthesis work "@ + w.work_id@ + " must declare a quorum gate"@),
        ),
        (Some(WorkerRole::Synthesize), Some(gate)) => gate_fault(spec, w, gate),
        (_, Some(_)) => Some(
            invalid_fault(
                "work "@ + w.work_id@ + " declares a quorum gate but is not a synthesis item"@,
            ),
        ),
        (_, None) => None,
    }
}

pub open spec fn quorum_check(spec: WorkGraphSpec) -> spec_fn(int) -> Option<Fault> {
    |i: int| quorum_fault(spec, spec.work@[i])
}

/// The item at `i` can run within `n` steps: everything it depends on can run
/// within one step less.
pub open spec fn runs_within(work: Seq<WorkSpec>, n: nat, i: int) -> bool
    decreases n,
{
    n > 0 && forall|k: int|
        0 <= k < work[i].depends_on@.len() ==> match work_at(
            work,
            (#[trigger] work[i].depends_on@[k])@,
        ) {
            Some(j) => runs_within(work, (n - 1) as nat, j),
            None => false,
        }
}

/// The item at `i` can run at all: it neither lies on a cycle of dependencies
/// nor depends on one.
pub open spec fn can_run(work: Seq<WorkSpec>, i: int) -> bool {
    exists|n: nat| runs_within(work, n, i)
}

/// The identities of those of the first `n` items that can never run.
pub open spec fn stuck(work: Seq<WorkSpec>, n: int) -> Seq<Seq<char>>
    decreases n,
{
    if n <= 0 {
        Seq::empty()
    } else if can_run(work, n - 1) {
        stuck(work, n - 1)
    } else {
        stuck(work, n - 1).push(work[n - 1].work_id@)
    }
}

/// Texts as keys.
pub open spec fn text_ranks(s: Seq<Seq<char>>) -> Seq<Rank> {
    Seq::new(s.len(), |i: int| Rank { rank: 0, minor: 0, first: s[i], second: Seq::empty() })
}

/// The texts in order.
pub open spec fn in_order(s: Seq<Seq<char>>) -> Seq<Seq<char>> {
    Seq::new(order_of(text_ranks(s)).len(), |i: int| s[order_of(text_ranks(s))[i] as int])
}

/// The texts with `", "` between them.
pub open spec fn listed(s: Seq<Seq<char>>) -> Seq<char>
    decreases s.len(),
{
    if s.len() == 0 {
        Seq::empty()
    } else if s.len() == 1 {
        s[0]
    } else {
        listed(s.drop_last()) + ", "@ + s.last()
    }
}

/// The fault of a graph in which some items can never run.
pub open spec fn cycle_fault(work: Seq<WorkSpec>) -> Option<Fault> {
    let left = stuck(work, work.len() as int);
    if left.len() == 0 {
        None
    } else {
        Some(
            invalid_fault(
                "work graph contains a dependency cycle among ["@ + listed(in_order(left))
                    + "]"@,
            ),
        )
    }
}

/// What is wrong with a declaration: the first fault, in a fixed order.
pub open spec fn graph_fault(spec: WorkGraphSpec) -> Option<Fault> {
    let n = spec.work@.len() as int;
    first_fault(
        if spec.schema_version != WORK_GRAPH_SCHEMA_VERSION {
            Some(invalid_fault("work graph schema version is not supported"@))
        } else {
            None
        },
        first_fault(
            bounds_fault(spec.bounds_ceiling),
            first_fault(
                budget_fault(spec.budget),
                first_fault(
                    workers_fault(spec.workers@),
                    first_fault(
                        shapes_fault(spec.bounds_ceiling, spec.work@),
                        first_fault(
                            scan(0, n, placement_check(spec.workers@, spec.work@)),
                            first_fault(
                                scan(0, n, dependencies_check(spec.work@)),
                                first_fault(
                                    scan(0, n, quorum_check(spec)),
                                    cycle_fault(spec.work@),
                                ),
                            ),
                        ),
                    ),
                ),
            ),
        ),
    )
}

/// How many items are not marked.
spec fn unmarked(marks: Seq<bool>) -> nat
    decreases marks.len(),
{
    if marks.len() == 0 {
        0
    } else {
        unmarked(marks.drop_last()) + if marks.last() {
            0nat
        } else {
            1nat
        }
    }
}

proof fn marking_one(marks: Seq<bool>, i: int)
    requires
        0 <= i < marks.len(),
        !marks[i],
    ensures
        unmarked(marks.update(i, true)) + 1 == unmarked(marks),
    decreases marks.len(),
{
    let after = marks.update(i, true);
    if i == marks.len() - 1 {
        assert(after.drop_last() =~= marks.drop_last());
    } else {
        assert(after.drop_last() =~= marks.drop_last().update(i, true));
        marking_one(marks.drop_last(), i);
    }
}

/// Everything the item at `i` depends on is marked.
spec fn dependencies_marked(work: Seq<WorkSpec>, marks: Seq<bool>, i: int) -> bool {
    forall|k: int|
        0 <= k < work[i].depends_on@.len() ==> match work_at(
            work,
            (#[trigger] work[i].depends_on@[k])@,
        ) {
            Some(j) => marks[j],
            None => false,
        }
}

proof fn longer_runs(work: Seq<WorkSpec>, n: nat, m: nat, i: int)
    requires
        runs_within(work, n, i),
        n <= m,
    ensures
        runs_within(work, m, i),
    decreases n,
{
    assert forall|k: int| 0 <= k < work[i].depends_on@.len() implies match work_at(
        work,
        (#[trigger] work[i].depends_on@[k])@,
    ) {
        Some(j) => runs_within(work, (m - 1) as nat, j),
        None => false,
    } by {
        let d = work[i].depends_on@[k]@;
        match work_at(work, d) {
            Some(j) => {
                longer_runs(work, (n - 1) as nat, (m - 1) as nat, j);
            },
            None => {},
        }
    }
}

/// A bound within which everything that the first `k` dependencies name runs.
proof fn common_bound(work: Seq<WorkSpec>, marks: Seq<bool>, i: int, k: int) -> (n: nat)
    requires
        marks.len() == work.len(),
        forall|j: int| 0 <= j < work.len() && #[trigger] marks[j] ==> can_run(work, j),
        dependencies_marked(work, marks, i),
        0 <= k <= work[i].depends_on@.len(),
    ensures
        forall|q: int|
            0 <= q < k ==> match work_at(work, (#[trigger] work[i].depends_on@[q])@) {
                Some(j) => runs_within(work, n, j),
                None => false,
            },
    decreases k,
{
    if k == 0 {
        0
    } else {
        let m = common_bound(work, marks, i, k - 1);
        let d = work[i].depends_on@[k - 1]@;
        position_is_first(work_ids(work), d, 0);
        let j = work_at(work, d)->0;
        assert(marks[j]);
        let p = choose|p: nat| runs_within(work, p, j);
        let n = if m > p {
            m
        } else {
            p
        };
        assert forall|q: int| 0 <= q < k implies match work_at(
            work,
            (#[trigger] work[i].depends_on@[q])@,
        ) {
            Some(j) => runs_within(work, n, j),
            None => false,
        } by {
            if q < k - 1 {
                let e = work[i].depends_on@[q]@;
                match work_at(work, e) {
                    Some(x) => {
                        longer_runs(work, m, n, x);
                    },
                    None => {},
                }
            } else {
                longer_runs(work, p, n, j);
            }
        }
        n
    }
}

proof fn marked_can_run(work: Seq<WorkSpec>, marks: Seq<bool>, i: int)
    requires
        marks.len() == work.len(),
        forall|j: int| 0 <= j < work.len() && #[trigger] marks[j] ==> can_run(work, j),
        dependencies_marked(work, marks, i),
    ensures
        can_run(work, i),
{
    let n = common_bound(work, marks, i, work[i].depends_on@.len() as int);
    assert(runs_within(work, n + 1, i));
}

/// Where no unmarked item has all its dependencies marked, only marked items
/// can run.
proof fn closed_marks(work: Seq<WorkSpec>, marks: Seq<bool>, n: nat, i: int)
    requires
        marks.len() == work.len(),
        0 <= i < work.len(),
        forall|j: int|
            0 <= j < work.len() && !#[trigger] marks[j] ==> !dependencies_marked(work, marks, j),
        runs_within(work, n, i),
    ensures
        marks[i],
    decreases n,
{
    if !marks[i] {
        assert(!dependencies_marked(work, marks, i));
        let k = choose|k: int|
            0 <= k < work[i].depends_on@.len() && !(match work_at(
                work,
                (#[trigger] work[i].depends_on@[k])@,
            ) {
                Some(j) => marks[j],
                None => false,
            });
        let d = work[i].depends_on@[k]@;
        position_is_first(work_ids(work), d, 0);
        let j = work_at(work, d)->0;
        closed_marks(work, marks, (n - 1) as nat, j);
    }
}

impl WorkGraphSpec {
    /// Validates the whole declaration in a fixed order, so that a graph that
    /// breaks several rules always reports the same one.
    pub fn validate(&self) -> (r: Result<(), OrchError>)
        ensures
            judged(r, graph_fault(*self)),
    {
        if self.schema_version != WORK_GRAPH_SCHEMA_VERSION {
            return Err(invalid("work graph schema version is not supported"));
        }
        self.bounds_ceiling.validate()?;
        self.budget.validate()?;
        self.validate_workers()?;
        self.validate_work_shape()?;
        self.validate_work_against_workers()?;
        self.validate_dependencies()?;
        self.validate_quorum_gates()?;
        self.validate_acyclic()
    }

    fn worker_repeats(&self, i: usize) -> (r: bool)
        requires
            i < self.workers@.len(),
        ensures
            r == repeats(worker_ids(self.workers@), i as int),
    {
        let ghost t = worker_ids(self.workers@);
        let mut j: usize = 0;
        while j < i
            invariant
                j <= i < self.workers@.len(),
                t == worker_ids(self.workers@),
                forall|k: int| 0 <= k < j ==> #[trigger] t[k] != t[i as int],
            decreases i - j,
        {
            if self.workers[j].worker_id.same(&self.workers[i].worker_id) {
                proof {
                    assert(t[j as int] == t[i as int]);
                }
                return true;
            }
            j = j + 1;
        }
        false
    }

    fn validate_worker(&self, i: usize) -> (r: Result<(), OrchError>)
        requires
            i < self.workers@.len(),
        ensures
            judged(r, worker_fault(self.workers@, i as int)),
    {
        let worker: &WorkerSpec = &self.workers[i];
        worker.worker_id.validate()?;
        if self.worker_repeats(i) {
            return Err(
                invalid(
                    join2(
                        "duplicate worker id ",
                        worker.worker_id.as_str(),
                    ).as_str(),
                ),
            );
        }
        validate_text(worker.binding.provider_id.as_str(), "provider_id")?;
        validate_text(worker.binding.profile_id.as_str(), "profile_id")?;
        validate_text(worker.binding.model_id.as_str(), "model_id")?;
        validate_text(worker.binding.effort.as_str(), "effort")?;
        validate_text(worker.credential_ref.as_str(), "credential_ref")?;
        if worker.capabilities.is_empty() {
            return Err(
                invalid(
                    join3(
                        "worker ",
                        worker.worker_id.as_str(),
                        " declares no capabilities",
                    ).as_str(),
                ),
            );
        }
        if worker.capabilities.contains(WorkCapability::ComputerUse)
            && !worker.binding.computer_use_tier.allows_observation() {
            return Err(
                invalid(
                    join3(
                        "worker ",
                        worker.worker_id.as_str(),
                        " claims Computer Use without a qualified tier",
                    ).as_str(),
                ),
            );
        }
        Ok(())
    }

    fn validate_workers(&self) -> (r: Result<(), OrchError>)
        ensures
            judged(r, workers_fault(self.workers@)),
    {
        if self.workers.len() == 0 || self.workers.len() > MAX_WORKERS {
            return Err(invalid("a graph declares 1..=32 workers"));
        }
        let ghost check = worker_check(self.workers@);
        let n: usize = self.workers.len();
        let mut i: usize = 0;
        while i < n
            invariant
                i <= n,
                n == self.workers@.len(),
                0 < n <= MAX_WORKERS,
                check == worker_check(self.workers@),
                scan(0, n as int, check) == scan(i as int, n as int, check),
            decreases n - i,
        {
            self.validate_worker(i)?;
            i = i + 1;
        }
        Ok(())
    }

    fn work_repeats(&self, i: usize) -> (r: bool)
        requires
            i < self.work@.len(),
        ensures
            r == repeats(work_ids(self.work@), i as int),
    {
        let ghost t = work_ids(self.work@);
        let mut j: usize = 0;
        while j < i
            invariant
                j <= i < self.work@.len(),
                t == work_ids(self.work@),
                forall|k: int| 0 <= k < j ==> #[trigger] t[k] != t[i as int],
            decreases i - j,
        {
            if self.work[j].work_id.same(&self.work[i].work_id) {
                proof {
                    assert(t[j as int] == t[i as int]);
                }
                return true;
            }
            j = j + 1;
        }
        false
    }

    fn validate_shape(&self, i: usize) -> (r: Result<(), OrchError>)
        requires
            i < self.work@.len(),
        ensures
            judged(r, shape_fault(self.bounds_ceiling, self.work@, i as int)),
    {
        let item: &WorkSpec = &self.work[i];
        item.work_id.validate()?;
        if self.work_repeats(i) {
            return Err(
                invalid(
                    join2("duplicate work id ", item.work_id.as_str()).as_str(),
                ),
            );
        }
        validate_text(item.objective.as_str(), "objective")?;
        if item.depends_on.len() > MAX_DEPENDENCIES {
            return Err(
                invalid(
                    join3(
                        "work ",
                        item.work_id.as_str(),
                        " declares more than 16 dependencies",
                    ).as_str(),
                ),
            );
        }
        if item.capabilities.is_empty() {
            return Err(
                invalid(
                    join3("work ", item.work_id.as_str(), " declares no capabilities").as_str(),
                ),
            );
        }
        let _ = merge_item_bounds(&self.bounds_ceiling, &item.bounds)?;
        Ok(())
    }

    fn validate_work_shape(&self) -> (r: Result<(), OrchError>)
        ensures
            judged(r, shapes_fault(self.bounds_ceiling, self.work@)),
    {
        if self.work.len() == 0 || self.work.len() > MAX_WORK_ITEMS {
            return Err(invalid("a graph declares 1..=64 work items"));
        }
        let ghost check = shape_check(self.bounds_ceiling, self.work@);
        let n: usize = self.work.len();
        let mut i: usize = 0;
        while i < n
            invariant
                i <= n,
                n == self.work@.len(),
                0 < n <= MAX_WORK_ITEMS,
                check == shape_check(self.bounds_ceiling, self.work@),
                scan(0, n as int, check) == scan(i as int, n as int, check),
            decreases n - i,
        {
            self.validate_shape(i)?;
            i = i + 1;
        }
        Ok(())
    }

    fn validate_placement(&self, item: &WorkSpec) -> (r: Result<(), OrchError>)
        ensures
            judged(r, placement_fault(self.workers@, *item)),
    {
        let worker: &WorkerSpec = match self.worker(&item.worker_id) {
            Some(worker) => worker,
            None => {
                return Err(
                    invalid(
                        join4(
                            "work ",
                            item.work_id.as_str(),
                            " names unknown worker ",
                            item.worker_id.as_str(),
                        ).as_str(),
                    ),
                );
            },
        };
        if !item.capabilities.is_subset(&worker.capabilities) {
            return Err(
                invalid(
                    join4(
                        "work ",
                        item.work_id.as_str(),
                        " claims authority beyond worker ",
                        item.worker_id.as_str(),
                    ).as_str(),
                ),
            );
        }
        let needs_worktree: bool = item.capabilities.any_worktree();
        if needs_worktree && item.isolation != IsolationRequirement::DedicatedWorktree {
            return Err(
                invalid(
                    join3(
                        "work ",
                        item.work_id.as_str(),
                        " writes or executes and must require a dedicated worktree",
                    ).as_str(),
                ),
            );
        }
        match worker.role {
            WorkerRole::Investigate | WorkerRole::Review => {
                if needs_worktree {
                    return Err(
                        invalid(
                            join3(
                                "work ",
                                item.work_id.as_str(),
                                " is read-only by role and cannot claim write or execute",
                            ).as_str(),
                        ),
                    );
                }
            },
            WorkerRole::Build | WorkerRole::Synthesize => {},
        }
        Ok(())
    }

    fn validate_work_against_workers(&self) -> (r: Result<(), OrchError>)
        ensures
            judged(
                r,
                scan(0, self.work@.len() as int, placement_check(self.workers@, self.work@)),
            ),
    {
        let ghost check = placement_check(self.workers@, self.work@);
        let n: usize = self.work.len();
        let mut i: usize = 0;
        while i < n
            invariant
                i <= n,
                n == self.work@.len(),
                check == placement_check(self.workers@, self.work@),
                scan(0, n as int, check) == scan(i as int, n as int, check),
            decreases n - i,
        {
            self.validate_placement(&self.work[i])?;
            i = i + 1;
        }
        Ok(())
    }

    fn validate_dependency(&self, i: usize, k: usize) -> (r: Result<(), OrchError>)
        requires
            i < self.work@.len(),
            k < self.work@[i as int].depends_on@.len(),
        ensures
            judged(r, dependency_fault(self.work@, i as int, k as int)),
    {
        let item: &WorkSpec = &self.work[i];
        let dependency: &WorkId = &item.depends_on[k];
        dependency.validate()?;
        if dependency.same(&item.work_id) {
            return Err(
                invalid(join3("work ", item.work_id.as_str(), " depends on itself").as_str()),
            );
        }
        if self.find_work(dependency).is_none() {
            return Err(
                invalid(
                    join4(
                        "work ",
                        item.work_id.as_str(),
                        " depends on unknown work ",
                        dependency.as_str(),
                    ).as_str(),
                ),
            );
        }
        if id_repeats(&item.depends_on, k) {
            return Err(
                invalid(
                    join4(
                        "work ",
                        item.work_id.as_str(),
                        " declares duplicate dependency ",
                        dependency.as_str(),
                    ).as_str(),
                ),
            );
        }
        Ok(())
    }

    fn validate_item_dependencies(&self, i: usize) -> (r: Result<(), OrchError>)
        requires
            i < self.work@.len(),
        ensures
            judged(
                r,
                scan(
                    0,
                    self.work@[i as int].depends_on@.len() as int,
                    dependency_check(self.work@, i as int),
                ),
            ),
    {
        let ghost check = dependency_check(self.work@, i as int);
        let n: usize = self.work[i].depends_on.len();
        let mut k: usize = 0;
        while k < n
            invariant
                k <= n,
                i < self.work@.len(),
                n == self.work@[i as int].depends_on@.len(),
                check == dependency_check(self.work@, i as int),
                scan(0, n as int, check) == scan(k as int, n as int, check),
            decreases n - k,
        {
            self.validate_dependency(i, k)?;
            k = k + 1;
        }
        Ok(())
    }

    fn validate_dependencies(&self) -> (r: Result<(), OrchError>)
        ensures
            judged(r, scan(0, self.work@.len() as int, dependencies_check(self.work@))),
    {
        let ghost check = dependencies_check(self.work@);
        let n: usize = self.work.len();
        let mut i: usize = 0;
        while i < n
            invariant
                i <= n,
                n == self.work@.len(),
                check == dependencies_check(self.work@),
                scan(0, n as int, check) == scan(i as int, n as int, check),
            decreases n - i,
        {
            self.validate_item_dependencies(i)?;
            i = i + 1;
        }
        Ok(())
    }

    fn validate_reviewer(&self, item: &WorkSpec, gate: &QuorumGate, k: usize) -> (r: Result<
        (),
        OrchError,
    >)
        requires
            k < gate.reviewers@.len(),
        ensures
            judged(r, reviewer_fault(*self, *item, *gate, k as int)),
    {
        let reviewer: &WorkId = &gate.reviewers[k];
        reviewer.validate()?;
        if id_repeats(&gate.reviewers, k) {
            return Err(
                invalid(
                    join5(
                        "work ",
                        item.work_id.as_str(),
                        " names review item ",
                        reviewer.as_str(),
                        " twice",
                    ).as_str(),
                ),
            );
        }
        let reviews: bool = match self.role_of(reviewer) {
            Some(WorkerRole::Review) => true,
            _ => false,
        };
        if !reviews {
            return Err(
                invalid(
                    join5(
                        "work ",
                        item.work_id.as_str(),
                        " names ",
                        reviewer.as_str(),
                        ", which is not a review item",
                    ).as_str(),
                ),
            );
        }
        if !lists_id(&item.depends_on, reviewer) {
            return Err(
                invalid(
                    join5(
                        "work ",
                        item.work_id.as_str(),
                        " must depend on the review item ",
                        reviewer.as_str(),
                        " it gates on",
                    ).as_str(),
                ),
            );
        }
        Ok(())
    }

    fn validate_gate(&self, item: &WorkSpec, gate: &QuorumGate) -> (r: Result<(), OrchError>)
        ensures
            judged(r, gate_fault(*self, *item, *gate)),
    {
        let n: usize = gate.reviewers.len();
        if n == 0 || n > MAX_REVIEWERS {
            return Err(
                invalid(
                    join3("work ", item.work_id.as_str(), " names 1..=16 review items").as_str(),
                ),
            );
        }
        if gate.required_approvals == 0 || gate.required_approvals > n as u32 {
            return Err(
                invalid(
                    join5(
                        "work ",
                        item.work_id.as_str(),
                        " requires 1..=",
                        decimal_text(n as u64).as_str(),
                        " approvals",
                    ).as_str(),
                ),
            );
        }
        let ghost check = reviewer_check(*self, *item, *gate);
        let mut k: usize = 0;
        while k < n
            invariant
                k <= n,
                n == gate.reviewers@.len(),
                0 < n <= MAX_REVIEWERS,
                0 < gate.required_approvals <= n,
                check == reviewer_check(*self, *item, *gate),
                scan(0, n as int, check) == scan(k as int, n as int, check),
            decreases n - k,
        {
            self.validate_reviewer(item, gate, k)?;
            k = k + 1;
        }
        Ok(())
    }

    fn validate_quorum(&self, item: &WorkSpec) -> (r: Result<(), OrchError>)
        ensures
            judged(r, quorum_fault(*self, *item)),
    {
        match (self.role_of(&item.work_id), &item.quorum) {
            (Some(WorkerRole::Synthesize), None) => Err(
                invalid(
                    join3(
                        "synthesis work ",
                        item.work_id.as_str(),
                        " must declare a quorum gate",
                    ).as_str(),
                ),
            ),
            (Some(WorkerRole::Synthesize), Some(gate)) => self.validate_gate(item, gate),
            (_, Some(_)) => Err(
                invalid(
                    join3(
                        "work ",
                        item.work_id.as_str(),
                        " declares a quorum gate but is not a synthesis item",
                    ).as_str(),
                ),
            ),
            (_, None) => Ok(()),
        }
    }

    fn validate_quorum_gates(&self) -> (r: Result<(), OrchError>)
        ensures
            judged(r, scan(0, self.work@.len() as int, quorum_check(*self))),
    {
        let ghost check = quorum_check(*self);
        let n: usize = self.work.len();
        let mut i: usize = 0;
        while i < n
            invariant
                i <= n,
                n == self.work@.len(),
                check == quorum_check(*self),
                scan(0, n as int, check) == scan(i as int, n as int, check),
            decreases n - i,
        {
            self.validate_quorum(&self.work[i])?;
            i = i + 1;
        }
        Ok(())
    }

    fn dependencies_done(&self, marks: &Vec<bool>, i: usize) -> (r: bool)
        requires
            i < self.work@.len(),
            marks@.len() == self.work@.len(),
        ensures
            r == dependencies_marked(self.work@, marks@, i as int),
    {
        let n: usize = self.work[i].depends_on.len();
        let mut k: usize = 0;
        while k < n
            invariant
                k <= n,
                i < self.work@.len(),
                marks@.len() == self.work@.len(),
                n == self.work@[i as int].depends_on@.len(),
                forall|q: int|
                    0 <= q < k ==> match work_at(
                        self.work@,
                        (#[trigger] self.work@[i as int].depends_on@[q])@,
                    ) {
                        Some(j) => marks@[j],
                        None => false,
                    },
            decreases n - k,
        {
            let done: bool = match self.find_work(&self.work[i].depends_on[k]) {
                Some(j) => marks[j],
                None => false,
            };
            if !done {
                return false;
            }
            k = k + 1;
        }
        true
    }

    /// Peels off items whose dependencies are all peeled off. What is left lies
    /// on a cycle or depends on one.
    fn peel(&self) -> (marks: Vec<bool>)
        ensures
            marks@.len() == self.work@.len(),
            forall|i: int|
                0 <= i < self.work@.len() ==> #[trigger] marks@[i] == can_run(self.work@, i),
    {
        let n: usize = self.work.len();
        let mut marks: Vec<bool> = Vec::new();
        let mut m: usize = 0;
        while m < n
            invariant
                m <= n,
                marks@.len() == m,
                forall|i: int| 0 <= i < m ==> !#[trigger] marks@[i],
            decreases n - m,
        {
            marks.push(false);
            m = m + 1;
        }
        let mut changed: bool = true;
        while changed
            invariant
                n == self.work@.len(),
                marks@.len() == n,
                forall|j: int|
                    0 <= j < self.work@.len() && #[trigger] marks@[j] ==> can_run(self.work@, j),
                !changed ==> forall|j: int|
                    0 <= j < self.work@.len() && !#[trigger] marks@[j] ==> !dependencies_marked(
                        self.work@,
                        marks@,
                        j,
                    ),
            decreases
                    2 * unmarked(marks@) + if changed {
                        1int
                    } else {
                        0int
                    },
        {
            let ghost start = marks@;
            changed = false;
            let mut i: usize = 0;
            while i < n
                invariant
                    i <= n,
                    n == self.work@.len(),
                    marks@.len() == n,
                    forall|j: int|
                        0 <= j < self.work@.len() && #[trigger] marks@[j] ==> can_run(
                            self.work@,
                            j,
                        ),
                    changed ==> unmarked(marks@) < unmarked(start),
                    !changed ==> marks@ == start && forall|j: int|
                        0 <= j < i && !#[trigger] marks@[j] ==> !dependencies_marked(
                            self.work@,
                            marks@,
                            j,
                        ),
                decreases n - i,
            {
                if !marks[i] && self.dependencies_done(&marks, i) {
                    proof {
                        marked_can_run(self.work@, marks@, i as int);
                        marking_one(marks@, i as int);
                    }
                    marks.set(i, true);
                    changed = true;
                }
                i = i + 1;
            }
        }
        proof {
            assert forall|i: int| 0 <= i < self.work@.len() implies #[trigger] marks@[i]
                == can_run(self.work@, i) by {
                if can_run(self.work@, i) {
                    let p = choose|p: nat| runs_within(self.work@, p, i);
                    closed_marks(self.work@, marks@, p, i);
                }
            }
        }
        marks
    }

    fn validate_acyclic(&self) -> (r: Result<(), OrchError>)
        ensures
            judged(r, cycle_fault(self.work@)),
    {
        let marks: Vec<bool> = self.peel();
        let n: usize = self.work.len();
        let mut keys: Vec<SortKey> = Vec::new();
        let mut i: usize = 0;
        while i < n
            invariant
                i <= n,
                n == self.work@.len(),
                marks@.len() == n,
                forall|j: int|
                    0 <= j < self.work@.len() ==> #[trigger] marks@[j] == can_run(self.work@, j),
                ranks(keys@) == text_ranks(stuck(self.work@, i as int)),
            decreases n - i,
        {
            if !marks[i] {
                let ghost before = keys@;
                keys.push(
                    SortKey {
                        rank: 0,
                        minor: 0,
                        first: copy(self.work[i].work_id.as_str()),
                        second: String::new(),
                    },
                );
                proof {
                    let s = stuck(self.work@, i as int);
                    assert(stuck(self.work@, i + 1) == s.push(self.work@[i as int].work_id@));
                    assert(ranks(before).len() == s.len());
                    assert forall|q: int| 0 <= q < keys@.len() implies #[trigger] ranks(keys@)[q]
                        == text_ranks(stuck(self.work@, i + 1))[q] by {
                        if q < before.len() {
                            assert(ranks(before)[q] == text_ranks(s)[q]);
                        } else {
                            assert(keys@[q].second@ =~= Seq::<char>::empty());
                        }
                    }
                    assert(ranks(keys@) =~= text_ranks(stuck(self.work@, i + 1)));
                }
            }
            i = i + 1;
        }
        let ghost left = stuck(self.work@, n as int);
        proof {
            assert(ranks(keys@).len() == text_ranks(left).len());
        }
        if keys.len() == 0 {
            return Ok(());
        }
        let order: Vec<usize> = sorted_order(&keys);
        let mut list: String = String::new();
        let mut k: usize = 0;
        proof {
            assert(in_order(left).take(0) =~= Seq::<Seq<char>>::empty());
            assert(list@ =~= Seq::<char>::empty());
        }
        while k < order.len()
            invariant
                k <= order@.len(),
                ranks(keys@) == text_ranks(left),
                keys@.len() == left.len(),
                order@ == order_of(text_ranks(left)),
                is_order(ranks(keys@), order@),
                list@ == listed(in_order(left).take(k as int)),
            decreases order.len() - k,
        {
            let ghost all = in_order(left);
            proof {
                assert(all.take(k + 1).drop_last() =~= all.take(k as int));
                assert(0 <= order@[k as int] < keys@.len());
                assert(ranks(keys@)[order@[k as int] as int] == text_ranks(
                    left,
                )[order@[k as int] as int]);
                assert(all.take(k + 1).last() == keys@[order@[k as int] as int].first@);
                if k == 0 {
                    assert(listed(all.take(0)) =~= Seq::<char>::empty());
                }
            }
            if k > 0 {
                list.append(", ");
            }
            list.append(keys[order[k]].first.as_str());
            proof {
                if k == 0 {
                    assert(all.take(1)[0] == keys@[order@[0] as int].first@);
                    assert(list@ =~= all.take(1)[0]);
                }
            }
            k = k + 1;
        }
        proof {
            assert(in_order(left).take(k as int) =~= in_order(left));
        }
        Err(
            invalid(
                join3(
                    "work graph contains a dependency cycle among [",
                    list.as_str(),
                    "]",
                ).as_str(),
            ),
        )
    }

    /// The position of an item.
    pub fn find_work(&self, work_id: &WorkId) -> (r: Option<usize>)
        ensures
            match r {
                Some(i) => work_at(self.work@, work_id@) == Some(i as int),
                None => work_at(self.work@, work_id@) is None,
            },
            r is Some ==> r->0 < self.work@.len(),
    {
        let ghost ids = work_ids(self.work@);
        let mut i: usize = 0;
        while i < self.work.len()
            invariant
                i <= self.work@.len(),
                ids == work_ids(self.work@),
                position_from(ids, work_id@, 0) == position_from(ids, work_id@, i as int),
            decreases self.work.len() - i,
        {
            if self.work[i].work_id.same(work_id) {
                return Some(i);
            }
            i = i + 1;
        }
        None
    }

    /// The position of a worker.
    pub fn find_worker(&self, worker_id: &WorkerId) -> (r: Option<usize>)
        ensures
            match r {
                Some(i) => worker_at(self.workers@, worker_id@) == Some(i as int),
                None => worker_at(self.workers@, worker_id@) is None,
            },
            r is Some ==> r->0 < self.workers@.len(),
    {
        let ghost ids = worker_ids(self.workers@);
        let mut i: usize = 0;
        while i < self.workers.len()
            invariant
                i <= self.workers@.len(),
                ids == worker_ids(self.workers@),
                position_from(ids, worker_id@, 0) == position_from(ids, worker_id@, i as int),
            decreases self.workers.len() - i,
        {
            if self.workers[i].worker_id.same(worker_id) {
                return Some(i);
            }
            i = i + 1;
        }
        None
    }

    /// The item with this identity.
    pub fn work_item(&self, work_id: &WorkId) -> (r: Option<&WorkSpec>)
        ensures
            match work_at(self.work@, work_id@) {
                Some(i) => r == Some(&self.work@[i]),
                None => r is None,
            },
    {
        match self.find_work(work_id) {
            Some(i) => Some(&self.work[i]),
            None => None,
        }
    }

    /// The worker with this identity.
    pub fn worker(&self, worker_id: &WorkerId) -> (r: Option<&WorkerSpec>)
        ensures
            match worker_at(self.workers@, worker_id@) {
                Some(i) => r == Some(&self.workers@[i]),
                None => r is None,
            },
    {
        match self.find_worker(worker_id) {
            Some(i) => Some(&self.workers[i]),
            None => None,
        }
    }

    /// The role of the worker that runs this item.
    pub fn role_of(&self, work_id: &WorkId) -> (r: Option<WorkerRole>)
        ensures
            r == role_at(*self, work_id@),
    {
        match self.work_item(work_id) {
            Some(item) => match self.worker(&item.worker_id) {
                Some(worker) => Some(worker.role),
                None => None,
            },
            None => None,
        }
    }
}

proof fn clean_stuck(work: Seq<WorkSpec>, n: int, i: int)
    requires
        stuck(work, n).len() == 0,
        0 <= i < n,
    ensures
        can_run(work, i),
    decreases n,
{
    if i < n - 1 {
        clean_stuck(work, n - 1, i);
    }
}

/// In a valid graph every item can run: its dependencies lead back to items
/// that depend on nothing.
pub proof fn valid_graphs_can_run(spec: WorkGraphSpec, i: int)
    requires
        graph_fault(spec) is None,
        0 <= i < spec.work@.len(),
    ensures
        can_run(spec.work@, i),
{
    clean_stuck(spec.work@, spec.work@.len() as int, i);
}

/// Each item of the path depends on the next one.
pub open spec fn depends_along(work: Seq<WorkSpec>, path: Seq<int>) -> bool {
    &&& forall|k: int| 0 <= k < path.len() ==> 0 <= #[trigger] path[k] < work.len()
    &&& forall|k: int|
        0 <= k < path.len() - 1 ==> depends_directly(work, #[trigger] path[k], path[k + 1])
}

/// The item at `i` names the item at `j` as a dependency.
pub open spec fn depends_directly(work: Seq<WorkSpec>, i: int, j: int) -> bool {
    exists|k: int|
        0 <= k < work[i].depends_on@.len() && work_at(
            work,
            (#[trigger] work[i].depends_on@[k])@,
        ) == Some(j)
}

proof fn steps_taken(work: Seq<WorkSpec>, path: Seq<int>, n: nat, k: int)
    requires
        depends_along(work, path),
        0 <= k < path.len(),
        runs_within(work, n, path[0]),
    ensures
        k <= n,
        runs_within(work, (n - k) as nat, path[k]),
    decreases k,
{
    if k > 0 {
        steps_taken(work, path, n, k - 1);
        assert(depends_directly(work, path[k - 1], path[k - 1 + 1]));
    }
}

proof fn least_run(work: Seq<WorkSpec>, i: int, n: nat) -> (m: nat)
    requires
        runs_within(work, n, i),
    ensures
        runs_within(work, m, i),
        forall|p: nat| p < m ==> !#[trigger] runs_within(work, p, i),
    decreases n,
{
    if exists|p: nat| p < n && #[trigger] runs_within(work, p, i) {
        let p = choose|p: nat| p < n && #[trigger] runs_within(work, p, i);
        least_run(work, i, p)
    } else {
        n
    }
}

/// In a valid graph no chain of dependencies leads from an item back to it.
pub proof fn valid_graphs_have_no_cycle(spec: WorkGraphSpec, path: Seq<int>)
    requires
        graph_fault(spec) is None,
        path.len() >= 2,
        depends_along(spec.work@, path),
    ensures
        path[0] != path.last(),
{
    valid_graphs_can_run(spec, path[0]);
    let p = choose|p: nat| runs_within(spec.work@, p, path[0]);
    let m = least_run(spec.work@, path[0], p);
    steps_taken(spec.work@, path, m, path.len() - 1);
}

/// In a valid graph no item claims more than its worker holds, writes outside
/// a worktree of its own, or widens the graph's bounds.
pub proof fn valid_graphs_never_amplify(spec: WorkGraphSpec, i: int)
    requires
        graph_fault(spec) is None,
        0 <= i < spec.work@.len(),
    ensures
        worker_at(spec.workers@, spec.work@[i].worker_id@) is Some,
        spec.work@[i].capabilities.inside(
            spec.workers@[worker_at(spec.workers@, spec.work@[i].worker_id@)->0].capabilities,
        ),
        spec.work@[i].capabilities.some_worktree() ==> spec.work@[i].isolation
            == IsolationRequirement::DedicatedWorktree,
        spec.work@[i].bounds.max_rounds <= spec.bounds_ceiling.max_rounds,
        spec.work@[i].bounds.max_prompt_bytes <= spec.bounds_ceiling.max_prompt_bytes,
        spec.work@[i].bounds.max_duration_ms <= spec.bounds_ceiling.max_duration_ms,
        spec.work@[i].bounds.max_total_tokens is Some && spec.bounds_ceiling.max_total_tokens is Some
            ==> spec.work@[i].bounds.max_total_tokens->0 <= spec.bounds_ceiling.max_total_tokens->0,
{
    let n = spec.work@.len() as int;
    let placed = placement_check(spec.workers@, spec.work@);
    clean_scan(0, n, placed, i);
    assert(placed(i) is None);
    let shaped = shape_check(spec.bounds_ceiling, spec.work@);
    clean_scan(0, n, shaped, i);
    assert(shaped(i) is None);
}

/// In a valid graph no two items share an identity.
pub proof fn valid_graphs_have_distinct_work(spec: WorkGraphSpec)
    requires
        graph_fault(spec) is None,
    ensures
        all_distinct(work_ids(spec.work@)),
{
    let ids = work_ids(spec.work@);
    let shaped = shape_check(spec.bounds_ceiling, spec.work@);
    assert forall|i: int, j: int| 0 <= i < j < ids.len() implies #[trigger] ids[i]
        != #[trigger] ids[j] by {
        clean_scan(0, spec.work@.len() as int, shaped, j);
        assert(shaped(j) is None);
        assert(!repeats(ids, j));
    }
}

/// In a valid graph every gate of a synthesis item can be met, and asks only
/// review items that the gated item depends on.
pub proof fn valid_gates_ask_their_dependencies(spec: WorkGraphSpec, i: int, k: int)
    requires
        graph_fault(spec) is None,
        0 <= i < spec.work@.len(),
        spec.work@[i].quorum is Some,
        0 <= k < spec.work@[i].quorum->0.reviewers@.len(),
    ensures
        0 < spec.work@[i].quorum->0.required_approvals
            <= spec.work@[i].quorum->0.reviewers@.len(),
        role_at(spec, spec.work@[i].quorum->0.reviewers@[k]@) == Some(WorkerRole::Review),
        id_texts(spec.work@[i].depends_on@).contains(
            spec.work@[i].quorum->0.reviewers@[k]@,
        ),
{
    let gated = quorum_check(spec);
    clean_scan(0, spec.work@.len() as int, gated, i);
    assert(gated(i) is None);
    let w = spec.work@[i];
    let gate = w.quorum->0;
    let asked = reviewer_check(spec, w, gate);
    clean_scan(0, gate.reviewers@.len() as int, asked, k);
    assert(asked(k) is None);
}

/// An item's bounds are taken as they are, exactly where each is above zero and
/// no more than the graph allows.
pub proof fn item_bounds_stay_under_the_ceiling(
    ceiling: RunBounds,
    item: RunBounds,
    r: Result<RunBounds, OrchError>,
)
    requires
        item_merging(ceiling, item, r),
    ensures
        r is Ok ==> r->Ok_0 == item,
        r is Ok <==> {
            &&& 0 < item.max_prompt_bytes <= ceiling.max_prompt_bytes
            &&& 0 < item.max_rounds <= ceiling.max_rounds
            &&& 0 < item.max_duration_ms <= ceiling.max_duration_ms
            &&& item.max_total_tokens is Some ==> 0 < item.max_total_tokens->0 && (
            ceiling.max_total_tokens is Some ==> item.max_total_tokens->0
                <= ceiling.max_total_tokens->0)
        },
{
}

} // verus!
