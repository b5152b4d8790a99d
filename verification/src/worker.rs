//! Workers: what they may do, whether they are alive and what they hold.

use crate::agent::{AgentModelSpec, AgentRecord, AgentSpec};
use crate::checkpoint::{same_workspace, workspaces_match};
use crate::bounds::{default_bounds, RunBounds};
use crate::error::{forbidden, forbidden_fault, judged, Fault, OrchError};
use crate::instant::gone_by;
use crate::text::{copy, str_eq};
use crate::workload::{copy_strings, lease_live, AttemptState, WorkAttempt, WorkItem, WorkState};
use vstd::prelude::*;
use vstd::string::*;

verus! {

pub const WORKER_PRESENCE_SCHEMA_VERSION: u32 = 1;

pub const DEFAULT_WORKER_STALE_AFTER_MS: i64 = 30_000;

#[derive(Debug, Clone, Copy, PartialEq, Eq, Structural)]
pub enum WorkerHostKind {
    Desktop,
    Service,
    Unknown,
}

#[derive(Debug, Clone, Copy, PartialEq, Eq, Structural)]
pub enum WorkerLivenessState {
    Live,
    Stale,
    Unknown,
}

/// The last heartbeat of a worker.
#[derive(Debug, Clone)]
pub struct WorkerPresence {
    pub schema_version: u32,
    pub agent_id: String,
    pub credential_id: String,
    pub host_kind: WorkerHostKind,
    pub last_heartbeat_at: i128,
}

impl WorkerPresence {
    /// A heartbeat at `now`.
    pub fn new(
        agent_id: &str,
        credential_id: &str,
        host_kind: WorkerHostKind,
        now: i128,
    ) -> (p: WorkerPresence)
        ensures
            p.schema_version == WORKER_PRESENCE_SCHEMA_VERSION,
            p.agent_id@ == agent_id@,
            p.credential_id@ == credential_id@,
            p.host_kind == host_kind,
            p.last_heartbeat_at == now,
    {
        WorkerPresence {
            schema_version: WORKER_PRESENCE_SCHEMA_VERSION,
            agent_id: copy(agent_id),
            credential_id: copy(credential_id),
            host_kind,
            last_heartbeat_at: now,
        }
    }
}

/// What a worker was measured to be able to do.
#[derive(Debug, Clone)]
pub struct MeasuredCapability {
    pub qualified_at: i128,
    pub qualified_tools: Vec<String>,
    pub provider_route: String,
}

/// How much a worker has to do.
#[derive(Debug, Clone, Copy, PartialEq, Eq, Structural)]
pub struct WorkerLoad {
    pub assigned_items: usize,
    pub queued_items: usize,
    pub active_leases: usize,
}

/// A lease that a worker holds.
#[derive(Debug)]
pub struct LeaseOwnership {
    pub work_id: String,
    pub attempt_id: String,
    pub lease_expires_at: i128,
}

/// A worker as others see it.
#[derive(Debug)]
pub struct WorkerProjection {
    pub agent_id: String,
    pub display_name: String,
    pub workspace: String,
    pub host_kind: WorkerHostKind,
    pub model: Option<AgentModelSpec>,
    pub declared_tools: Vec<String>,
    pub measured: Option<MeasuredCapability>,
    pub policy_limits: RunBounds,
    pub computer_use_allowed: bool,
    pub load: WorkerLoad,
    pub liveness: WorkerLivenessState,
    pub last_heartbeat_at: Option<i128>,
    pub stale_after_ms: i64,
    pub active_leases: Vec<LeaseOwnership>,
}

/// The item is assigned to this agent.
pub open spec fn assigned_to(item: WorkItem, agent_id: Seq<char>) -> bool {
    item.assigned_agent_id is Some && item.assigned_agent_id->0@ == agent_id
}

/// How many of the first `n` items are assigned to an agent.
pub open spec fn assigned_count(items: Seq<WorkItem>, agent_id: Seq<char>, n: int) -> nat
    decreases n,
{
    if n <= 0 {
        0
    } else {
        assigned_count(items, agent_id, n - 1) + if assigned_to(items[n - 1], agent_id) {
            1nat
        } else {
            0nat
        }
    }
}

/// How many of the first `n` items are assigned to an agent and queued.
pub open spec fn queued_count(items: Seq<WorkItem>, agent_id: Seq<char>, n: int) -> nat
    decreases n,
{
    if n <= 0 {
        0
    } else {
        queued_count(items, agent_id, n - 1) + if assigned_to(items[n - 1], agent_id)
            && items[n - 1].state is Queued {
            1nat
        } else {
            0nat
        }
    }
}

/// The agent holds the lease of this attempt at `now`.
pub open spec fn owns_lease(a: WorkAttempt, agent_id: Seq<char>, now: i128) -> bool {
    a.claimant_id@ == agent_id && lease_live(a, now)
}

/// The attempts among the first `n` whose lease an agent holds.
pub open spec fn owned(attempts: Seq<WorkAttempt>, agent_id: Seq<char>, now: i128, n: int) -> Seq<
    WorkAttempt,
>
    decreases n,
{
    if n <= 0 {
        Seq::empty()
    } else if owns_lease(attempts[n - 1], agent_id, now) {
        owned(attempts, agent_id, now, n - 1).push(attempts[n - 1])
    } else {
        owned(attempts, agent_id, now, n - 1)
    }
}

/// `l` names the lease of `a`.
pub open spec fn names_lease(l: LeaseOwnership, a: WorkAttempt) -> bool {
    l.work_id == a.work_id && l.attempt_id == a.attempt_id && l.lease_expires_at
        == a.lease_expires_at
}

/// Each of `l` names the lease at the same place of `a`.
pub open spec fn names_leases(l: Seq<LeaseOwnership>, a: Seq<WorkAttempt>) -> bool {
    l.len() == a.len() && forall|i: int| 0 <= i < l.len() ==> names_lease(#[trigger] l[i], a[i])
}

/// Whether a worker is alive: unknown without a heartbeat, and stale once the
/// last one is more than thirty seconds old.
pub open spec fn liveness_of(presence: Option<WorkerPresence>, now: i128) -> WorkerLivenessState {
    match presence {
        None => WorkerLivenessState::Unknown,
        Some(p) => if now - p.last_heartbeat_at <= DEFAULT_WORKER_STALE_AFTER_MS * 1_000_000 {
            WorkerLivenessState::Live
        } else {
            WorkerLivenessState::Stale
        },
    }
}

/// What `p` says of an agent's specification.
pub open spec fn projects_spec(p: WorkerProjection, agent: AgentRecord, spec: Option<AgentSpec>) -> bool {
    match spec {
        Some(s) => {
            &&& p.display_name == s.display_name
            &&& p.workspace == s.source_workspace
            &&& p.model is Some
            &&& p.model->0.selection_key == s.model.selection_key
            &&& p.model->0.provider_id == s.model.provider_id
            &&& p.model->0.model_id == s.model.model_id
            &&& p.declared_tools@ == s.authority.allowed_tools@
            &&& p.policy_limits == s.default_run_bounds
            &&& p.computer_use_allowed == s.authority.computer_use_allowed
        },
        None => {
            &&& p.display_name == agent.agent_id
            &&& p.workspace == agent.workspace
            &&& p.model is None
            &&& p.declared_tools@.len() == 0
            &&& p.policy_limits == default_bounds()
            &&& !p.computer_use_allowed
        },
    }
}

/// The specification a projection goes by: the one given, else the one the
/// record holds.
pub open spec fn chosen_spec(agent: AgentRecord, spec: Option<AgentSpec>) -> Option<AgentSpec> {
    match spec {
        Some(s) => Some(s),
        None => agent.spec,
    }
}

fn count_items(items: &Vec<WorkItem>, agent_id: &str) -> (r: (usize, usize))
    ensures
        r.0 == assigned_count(items@, agent_id@, items@.len() as int),
        r.1 == queued_count(items@, agent_id@, items@.len() as int),
{
    let mut assigned: usize = 0;
    let mut queued: usize = 0;
    let mut i: usize = 0;
    while i < items.len()
        invariant
            i <= items@.len(),
            assigned <= i,
            queued <= i,
            assigned == assigned_count(items@, agent_id@, i as int),
            queued == queued_count(items@, agent_id@, i as int),
        decreases items.len() - i,
    {
        let ours: bool = match &items[i].assigned_agent_id {
            Some(id) => str_eq(id.as_str(), agent_id),
            None => false,
        };
        if ours {
            assigned = assigned + 1;
            if items[i].state == WorkState::Queued {
                queued = queued + 1;
            }
        }
        i = i + 1;
    }
    (assigned, queued)
}

fn collect_leases(attempts: &Vec<WorkAttempt>, agent_id: &str, now: i128) -> (l: Vec<
    LeaseOwnership,
>)
    ensures
        names_leases(l@, owned(attempts@, agent_id@, now, attempts@.len() as int)),
{
    let mut l: Vec<LeaseOwnership> = Vec::new();
    let mut i: usize = 0;
    while i < attempts.len()
        invariant
            i <= attempts@.len(),
            names_leases(l@, owned(attempts@, agent_id@, now, i as int)),
        decreases attempts.len() - i,
    {
        let a: &WorkAttempt = &attempts[i];
        if str_eq(a.claimant_id.as_str(), agent_id) && a.lease_active_at(now) {
            l.push(
                LeaseOwnership {
                    work_id: a.work_id.clone(),
                    attempt_id: a.attempt_id.clone(),
                    lease_expires_at: a.lease_expires_at,
                },
            );
        }
        i = i + 1;
    }
    l
}

fn judge_liveness(presence: Option<&WorkerPresence>, now: i128) -> (s: WorkerLivenessState)
    ensures
        s == liveness_of(
            match presence {
                Some(p) => Some(*p),
                None => None,
            },
            now,
        ),
{
    match presence {
        None => WorkerLivenessState::Unknown,
        Some(p) => {
            if gone_by(p.last_heartbeat_at, now, 30_000_000_001) {
                WorkerLivenessState::Stale
            } else {
                WorkerLivenessState::Live
            }
        },
    }
}

impl WorkerProjection {
    /// A worker as others see it. Being connected is no proof of a lease: the
    /// leases come from the attempts alone.
    pub fn project(
        agent: &AgentRecord,
        spec: Option<&AgentSpec>,
        presence: Option<&WorkerPresence>,
        items: &Vec<WorkItem>,
        attempts: &Vec<WorkAttempt>,
        now: i128,
        measured: Option<MeasuredCapability>,
    ) -> (p: WorkerProjection)
        ensures
            p.agent_id == agent.agent_id,
            projects_spec(
                p,
                *agent,
                chosen_spec(
                    *agent,
                    match spec {
                        Some(s) => Some(*s),
                        None => None,
                    },
                ),
            ),
            p.host_kind == (match presence {
                Some(x) => x.host_kind,
                None => WorkerHostKind::Unknown,
            }),
            p.measured == measured,
            p.load.assigned_items == assigned_count(
                items@,
                agent.agent_id@,
                items@.len() as int,
            ),
            p.load.queued_items == queued_count(items@, agent.agent_id@, items@.len() as int),
            p.load.active_leases == p.active_leases@.len(),
            names_leases(
                p.active_leases@,
                owned(attempts@, agent.agent_id@, now, attempts@.len() as int),
            ),
            p.liveness == liveness_of(
                match presence {
                    Some(x) => Some(*x),
                    None => None,
                },
                now,
            ),
            p.last_heartbeat_at == (match presence {
                Some(x) => Some(x.last_heartbeat_at),
                None => None,
            }),
            p.stale_after_ms == DEFAULT_WORKER_STALE_AFTER_MS,
    {
        let counts: (usize, usize) = count_items(items, agent.agent_id.as_str());
        let leases: Vec<LeaseOwnership> = collect_leases(attempts, agent.agent_id.as_str(), now);
        let load = WorkerLoad {
            assigned_items: counts.0,
            queued_items: counts.1,
            active_leases: leases.len(),
        };
        let liveness: WorkerLivenessState = judge_liveness(presence, now);
        let host_kind: WorkerHostKind = match presence {
            Some(x) => x.host_kind,
            None => WorkerHostKind::Unknown,
        };
        let last_heartbeat_at: Option<i128> = match presence {
            Some(x) => Some(x.last_heartbeat_at),
            None => None,
        };
        let chosen: Option<&AgentSpec> = match spec {
            Some(s) => Some(s),
            None => match &agent.spec {
                Some(s) => Some(s),
                None => None,
            },
        };
        match chosen {
            Some(s) => WorkerProjection {
                agent_id: agent.agent_id.clone(),
                display_name: s.display_name.clone(),
                workspace: s.source_workspace.clone(),
                host_kind,
                model: Some(
                    AgentModelSpec {
                        selection_key: s.model.selection_key.clone(),
                        provider_id: s.model.provider_id.clone(),
                        model_id: s.model.model_id.clone(),
                    },
                ),
                declared_tools: copy_strings(&s.authority.allowed_tools),
                measured,
                policy_limits: s.default_run_bounds,
                computer_use_allowed: s.authority.computer_use_allowed,
                load,
                liveness,
                last_heartbeat_at,
                stale_after_ms: DEFAULT_WORKER_STALE_AFTER_MS,
                active_leases: leases,
            },
            None => WorkerProjection {
                agent_id: agent.agent_id.clone(),
                display_name: agent.agent_id.clone(),
                workspace: agent.workspace.clone(),
                host_kind,
                model: None,
                declared_tools: Vec::new(),
                measured,
                policy_limits: RunBounds::default(),
                computer_use_allowed: false,
                load,
                liveness,
                last_heartbeat_at,
                stale_after_ms: DEFAULT_WORKER_STALE_AFTER_MS,
                active_leases: leases,
            },
        }
    }
}

/// A projection shows a lease only where an attempt of that agent holds it.
pub proof fn shown_leases_are_owned(
    attempts: Seq<WorkAttempt>,
    agent_id: Seq<char>,
    now: i128,
    n: int,
    i: int,
)
    requires
        0 <= n <= attempts.len(),
        0 <= i < owned(attempts, agent_id, now, n).len(),
    ensures
        owns_lease(owned(attempts, agent_id, now, n)[i], agent_id, now),
        attempts.contains(owned(attempts, agent_id, now, n)[i]),
    decreases n,
{
    if n > 0 {
        let before = owned(attempts, agent_id, now, n - 1);
        if i < before.len() {
            shown_leases_are_owned(attempts, agent_id, now, n - 1, i);
        } else {
            assert(attempts[n - 1] == owned(attempts, agent_id, now, n)[i]);
        }
    }
}

pub open spec fn smaller(a: int, b: int) -> int {
    if a <= b {
        a
    } else {
        b
    }
}

/// The smaller of two optional limits; none sets no limit.
pub open spec fn tighter(a: Option<u64>, b: Option<u64>) -> Option<u64> {
    match (a, b) {
        (Some(a), Some(b)) => Some(
            if a <= b {
                a
            } else {
                b
            },
        ),
        (Some(a), None) => Some(a),
        (None, b) => b,
    }
}

/// The narrowest of what manager, worker and server allow.
pub open spec fn assignment_ceiling(
    manager: Option<AgentSpec>,
    worker: AgentSpec,
    server: RunBounds,
) -> RunBounds {
    let m = match manager {
        Some(s) => s.default_run_bounds,
        None => server,
    };
    let w = worker.default_run_bounds;
    RunBounds {
        max_prompt_bytes: smaller(
            smaller(m.max_prompt_bytes as int, w.max_prompt_bytes as int),
            server.max_prompt_bytes as int,
        ) as usize,
        max_rounds: smaller(
            smaller(m.max_rounds as int, w.max_rounds as int),
            server.max_rounds as int,
        ) as u32,
        max_duration_ms: smaller(
            smaller(m.max_duration_ms as int, w.max_duration_ms as int),
            server.max_duration_ms as int,
        ) as u64,
        max_total_tokens: tighter(
            tighter(m.max_total_tokens, w.max_total_tokens),
            server.max_total_tokens,
        ),
    }
}

/// The bounds ask for more than the ceiling on some axis. Work without a token
/// limit asks for none.
pub open spec fn amplifies(work: RunBounds, ceiling: RunBounds) -> bool {
    ||| work.max_prompt_bytes > ceiling.max_prompt_bytes
    ||| work.max_rounds > ceiling.max_rounds
    ||| work.max_duration_ms > ceiling.max_duration_ms
    ||| work.max_total_tokens is Some && ceiling.max_total_tokens is Some
        && work.max_total_tokens->0 > ceiling.max_total_tokens->0
}

/// Why an assignment is refused.
pub open spec fn assignment_fault(
    manager: Option<AgentSpec>,
    worker: AgentSpec,
    work: RunBounds,
    server: RunBounds,
) -> Option<Fault> {
    if worker.authority.computer_use_allowed {
        Some(
            forbidden_fault("assignment cannot select a Computer Use worker in this slice"@),
        )
    } else if amplifies(work, assignment_ceiling(manager, worker, server)) {
        Some(
            forbidden_fault(
                "assignment would amplify bounds beyond manager, worker, or server policy"@,
            ),
        )
    } else {
        None
    }
}

fn min_limit(a: Option<u64>, b: Option<u64>) -> (r: Option<u64>)
    ensures
        r == tighter(a, b),
{
    match (a, b) {
        (Some(a), Some(b)) => {
            if a <= b {
                Some(a)
            } else {
                Some(b)
            }
        },
        (Some(a), None) => Some(a),
        (None, b) => b,
    }
}

fn narrower(a: RunBounds, b: RunBounds) -> (r: RunBounds)
    ensures
        r.max_prompt_bytes == smaller(a.max_prompt_bytes as int, b.max_prompt_bytes as int),
        r.max_rounds == smaller(a.max_rounds as int, b.max_rounds as int),
        r.max_duration_ms == smaller(a.max_duration_ms as int, b.max_duration_ms as int),
        r.max_total_tokens == tighter(a.max_total_tokens, b.max_total_tokens),
{
    RunBounds {
        max_prompt_bytes: if a.max_prompt_bytes <= b.max_prompt_bytes {
            a.max_prompt_bytes
        } else {
            b.max_prompt_bytes
        },
        max_rounds: if a.max_rounds <= b.max_rounds {
            a.max_rounds
        } else {
            b.max_rounds
        },
        max_duration_ms: if a.max_duration_ms <= b.max_duration_ms {
            a.max_duration_ms
        } else {
            b.max_duration_ms
        },
        max_total_tokens: min_limit(a.max_total_tokens, b.max_total_tokens),
    }
}

/// Refuses assignments to a worker that may use a computer, and bounds beyond
/// what manager, worker and server allow together. Without a manager the
/// server's ceiling stands in its place.
pub fn reject_privilege_amplification(
    manager: Option<&AgentSpec>,
    worker: &AgentSpec,
    work_bounds: &RunBounds,
    server_ceiling: &RunBounds,
) -> (r: Result<(), OrchError>)
    ensures
        judged(
            r,
            assignment_fault(
                match manager {
                    Some(s) => Some(*s),
                    None => None,
                },
                *worker,
                *work_bounds,
                *server_ceiling,
            ),
        ),
{
    if worker.authority.computer_use_allowed {
        return Err(forbidden("assignment cannot select a Computer Use worker in this slice"));
    }
    let manager_ceiling: RunBounds = match manager {
        Some(s) => s.default_run_bounds,
        None => *server_ceiling,
    };
    let both: RunBounds = narrower(manager_ceiling, worker.default_run_bounds);
    let ceiling: RunBounds = narrower(both, *server_ceiling);
    let over_tokens: bool = match (work_bounds.max_total_tokens, ceiling.max_total_tokens) {
        (Some(requested), Some(limit)) => requested > limit,
        _ => false,
    };
    if work_bounds.max_prompt_bytes > ceiling.max_prompt_bytes || work_bounds.max_rounds
        > ceiling.max_rounds || work_bounds.max_duration_ms > ceiling.max_duration_ms
        || over_tokens {
        return Err(
            forbidden("assignment would amplify bounds beyond manager, worker, or server policy"),
        );
    }
    Ok(())
}

/// An assignment that is not refused asks for no more than any of the three
/// parties allows.
pub proof fn assignments_never_amplify(
    manager: Option<AgentSpec>,
    worker: AgentSpec,
    work: RunBounds,
    server: RunBounds,
)
    requires
        assignment_fault(manager, worker, work, server) is None,
    ensures
        !worker.authority.computer_use_allowed,
        !amplifies(work, server),
        !amplifies(work, worker.default_run_bounds),
        manager is Some ==> !amplifies(work, manager->0.default_run_bounds),
{
}

/// The positions below `n` of the agents in a workspace. `paths` and `path` are
/// what their workspaces and this one resolve to on disk.
pub open spec fn in_workspace(
    agents: Seq<AgentRecord>,
    paths: Seq<Option<String>>,
    workspace: Seq<char>,
    path: Option<String>,
    n: int,
) -> Seq<usize>
    decreases n,
{
    if n <= 0 {
        Seq::empty()
    } else {
        let before = in_workspace(agents, paths, workspace, path, n - 1);
        if same_workspace(agents[n - 1].workspace@, workspace, paths[n - 1], path) {
            before.push((n - 1) as usize)
        } else {
            before
        }
    }
}

/// The agents that are listed as workers of a workspace.
pub fn list_workers(
    agents: &Vec<AgentRecord>,
    paths: &Vec<Option<String>>,
    workspace: &str,
    path: &Option<String>,
) -> (list: Vec<usize>)
    requires
        paths@.len() == agents@.len(),
    ensures
        list@ == in_workspace(agents@, paths@, workspace@, *path, agents@.len() as int),
{
    let mut list: Vec<usize> = Vec::new();
    let mut i: usize = 0;
    while i < agents.len()
        invariant
            i <= agents@.len(),
            paths@.len() == agents@.len(),
            list@ == in_workspace(agents@, paths@, workspace@, *path, i as int),
        decreases agents.len() - i,
    {
        if workspaces_match(agents[i].workspace.as_str(), workspace, &paths[i], path) {
            list.push(i);
        }
        i = i + 1;
    }
    list
}

/// Work is assigned exactly where it asks for no more than any of the three
/// allows (the one who assigns, the worker and the server), and the worker
/// does not use the computer.
pub proof fn every_side_bounds_an_assignment(
    manager: Option<AgentSpec>,
    worker: AgentSpec,
    work: RunBounds,
    server: RunBounds,
)
    ensures
        assignment_fault(manager, worker, work, server) is None <==> {
            &&& !worker.authority.computer_use_allowed
            &&& work.max_prompt_bytes <= server.max_prompt_bytes
            &&& work.max_rounds <= server.max_rounds
            &&& work.max_duration_ms <= server.max_duration_ms
            &&& work.max_prompt_bytes <= worker.default_run_bounds.max_prompt_bytes
            &&& work.max_rounds <= worker.default_run_bounds.max_rounds
            &&& work.max_duration_ms <= worker.default_run_bounds.max_duration_ms
            &&& manager is Some ==> {
                &&& work.max_prompt_bytes <= manager->0.default_run_bounds.max_prompt_bytes
                &&& work.max_rounds <= manager->0.default_run_bounds.max_rounds
                &&& work.max_duration_ms <= manager->0.default_run_bounds.max_duration_ms
            }
            &&& work.max_total_tokens is Some ==> {
                &&& server.max_total_tokens is Some ==> work.max_total_tokens->0
                    <= server.max_total_tokens->0
                &&& worker.default_run_bounds.max_total_tokens is Some
                    ==> work.max_total_tokens->0 <= worker.default_run_bounds.max_total_tokens->0
                &&& manager is Some && manager->0.default_run_bounds.max_total_tokens is Some
                    ==> work.max_total_tokens->0 <= manager->0.default_run_bounds.max_total_tokens->0
            }
        },
{
}

/// A worker is live for half a minute after its heartbeat, stale after that, and
/// unknown where none was heard.
pub proof fn heartbeats_keep_workers_live(presence: Option<WorkerPresence>, now: i128)
    ensures
        presence is None <==> liveness_of(presence, now) == WorkerLivenessState::Unknown,
        presence is Some ==> (liveness_of(presence, now) == WorkerLivenessState::Live <==> now
            - presence->0.last_heartbeat_at <= 30_000_000_000),
{
}

/// A worker's load counts the items assigned to it, and of these the queued.
pub proof fn loads_count_assigned_items(items: Seq<WorkItem>, agent_id: Seq<char>, n: int)
    requires
        0 <= n <= items.len(),
    ensures
        assigned_count(items, agent_id, n) == items.take(n).filter(
            |i: WorkItem| i.assigned_agent_id is Some && i.assigned_agent_id->0@ == agent_id,
        ).len(),
        queued_count(items, agent_id, n) == items.take(n).filter(
            |i: WorkItem|
                i.assigned_agent_id is Some && i.assigned_agent_id->0@ == agent_id && i.state
                    == WorkState::Queued,
        ).len(),
    decreases n,
{
    reveal(Seq::filter);
    if n > 0 {
        loads_count_assigned_items(items, agent_id, n - 1);
        assert(items.take(n).drop_last() =~= items.take(n - 1));
        assert(items.take(n).last() == items[n - 1]);
    } else {
        assert(items.take(n) =~= Seq::<WorkItem>::empty());
    }
}

/// Every lease a worker holds is shown: those it claimed, that are not closed
/// and have not run out.
pub proof fn held_leases_are_shown(
    attempts: Seq<WorkAttempt>,
    agent_id: Seq<char>,
    now: i128,
    n: int,
)
    requires
        0 <= n <= attempts.len(),
    ensures
        owned(attempts, agent_id, now, n) == attempts.take(n).filter(
            |a: WorkAttempt|
                {
                    &&& a.claimant_id@ == agent_id
                    &&& now < a.lease_expires_at
                    &&& match a.state {
                        AttemptState::Leased | AttemptState::Running | AttemptState::AwaitingInput
                        | AttemptState::AwaitingApproval | AttemptState::Review => true,
                        AttemptState::Released | AttemptState::Expired | AttemptState::Succeeded
                        | AttemptState::Failed | AttemptState::Cancelled => false,
                    }
                },
        ),
    decreases n,
{
    reveal(Seq::filter);
    if n > 0 {
        held_leases_are_shown(attempts, agent_id, now, n - 1);
        assert(attempts.take(n).drop_last() =~= attempts.take(n - 1));
        assert(attempts.take(n).last() == attempts[n - 1]);
    } else {
        assert(attempts.take(n) =~= Seq::<WorkAttempt>::empty());
    }
}

/// The workers of a workspace are all the agents there, in the order they are
/// on record. A workspace is known by its path, or by what the path resolves to.
pub proof fn workers_are_those_of_the_workspace(
    agents: Seq<AgentRecord>,
    paths: Seq<Option<String>>,
    workspace: Seq<char>,
    path: Option<String>,
    n: int,
)
    requires
        0 <= n <= agents.len(),
        n <= usize::MAX,
        paths.len() == agents.len(),
    ensures
        forall|i: int|
            0 <= i < n ==> (in_workspace(agents, paths, workspace, path, n).contains(i as usize)
                <==> ((#[trigger] agents[i]).workspace@ == workspace || paths[i] is Some
                && path is Some && paths[i]->0@ == path->0@)),
        forall|k: int|
            0 <= k < in_workspace(agents, paths, workspace, path, n).len() ==> (
            #[trigger] in_workspace(agents, paths, workspace, path, n)[k]) < n,
        forall|j: int, k: int|
            0 <= j < k < in_workspace(agents, paths, workspace, path, n).len() ==> (
            #[trigger] in_workspace(agents, paths, workspace, path, n)[j]) < (
            #[trigger] in_workspace(agents, paths, workspace, path, n)[k]),
    decreases n,
{
    if n > 0 {
        workers_are_those_of_the_workspace(agents, paths, workspace, path, n - 1);
        let p = in_workspace(agents, paths, workspace, path, n - 1);
        let q = in_workspace(agents, paths, workspace, path, n);
        assert forall|i: int| 0 <= i < n implies (q.contains(i as usize) <==> ((
        #[trigger] agents[i]).workspace@ == workspace || paths[i] is Some && path is Some
            && paths[i]->0@ == path->0@)) by {
            if i < n - 1 {
                if p.contains(i as usize) {
                    let k = choose|k: int| 0 <= k < p.len() && p[k] == i as usize;
                    assert(q[k] == i as usize);
                }
                if q.contains(i as usize) {
                    let k = choose|k: int| 0 <= k < q.len() && q[k] == i as usize;
                    assert(p[k] == i as usize);
                }
            } else if q.len() > p.len() {
                assert(q[p.len() as int] == i as usize);
            } else if q.contains(i as usize) {
                let k = choose|k: int| 0 <= k < q.len() && q[k] == i as usize;
                assert(p[k] < n - 1);
            }
        }
    }
}

} // verus!
