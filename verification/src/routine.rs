//! Routines: work that is created on a schedule or on request, at most once
//! for each occurrence.
//!
//! What the schedule says and what an agent's specification allows is decided
//! elsewhere and handed in; this module decides what one activation comes to.

use crate::agent::copy_option;
use crate::bounds::RunBounds;
use crate::error::{
    fault, fault_text, invalid, invalid_fault, refused, Fault, OrchError, OrchErrorCode,
};
use crate::instant::is_named;
use crate::json::Json;
use crate::listing::{by_numbers, latest, newest_first, number_ranks, numbers_are_ordered, zeros};
use crate::order::listed_before;
use crate::run::holds;
use crate::text::{copy, join2};
use crate::workload::{
    is_new_item, item_fault, new_item_fault, next_revision, AssignmentStatus, WorkItem, WorkPolicy,
};
use vstd::prelude::*;
use vstd::string::*;

verus! {

pub const ROUTINE_SCHEMA_VERSION: u32 = 1;

/// Whether a routine may fire.
#[derive(Debug, Clone, Copy, PartialEq, Eq, Structural)]
pub enum RoutineLifecycle {
    Enabled,
    Paused,
    Disabled,
}

/// The work that a routine creates.
#[derive(Debug)]
pub struct WorkTemplate {
    pub kind: String,
    pub objective: String,
    pub priority: i32,
    pub policy: WorkPolicy,
}

/// A durable routine: what decides about its activations.
#[derive(Debug)]
pub struct RoutineRecord {
    pub routine_id: String,
    pub revision: u64,
    pub lifecycle: RoutineLifecycle,
    /// When a routine that fires once stops being of use.
    pub expires_at: Option<i128>,
    pub agent_id: String,
    pub session_id: u128,
    pub workspace: String,
    pub work_template: WorkTemplate,
    pub max_in_flight: u32,
    /// Failures in a row after which the routine is paused.
    pub circuit_failures: u32,
    pub consecutive_failures: u32,
    pub circuit_open: bool,
    pub next_fire_at: Option<i128>,
    pub last_fire_at: Option<i128>,
    pub updated_at: i128,
}

/// Why a routine is activated.
#[derive(Debug, Clone, Copy, PartialEq, Eq, Structural)]
pub enum ActivationCause {
    Scheduled,
    External,
    /// By hand, or as a test.
    Direct,
}

/// What an activation came to.
#[derive(Debug, Clone, Copy, PartialEq, Eq, Structural)]
pub enum ActivationDisposition {
    CreatedWork,
    Deduplicated,
    Rejected,
    Backoff,
    CircuitOpen,
    SkippedExpired,
    SkippedOverlap,
    SkippedPaused,
    SkippedDisabled,
}

/// A request to activate a routine.
#[derive(Debug)]
pub struct ActivationRequest {
    pub cause: ActivationCause,
    /// How the cause is recorded.
    pub trigger_kind: String,
    pub dedupe_key: String,
    pub scheduled_at: i128,
    pub received_at: i128,
    pub created_by: String,
}

/// The limits an activation is carried out under.
#[derive(Debug)]
pub struct CapturedActivationPolicy {
    pub routine_revision: u64,
    pub agent_id: Option<String>,
    pub agent_spec_revision: Option<u64>,
    pub run_bounds: RunBounds,
    pub work_policy: WorkPolicy,
    pub sandbox_profile: String,
    pub computer_use_allowed: bool,
    pub auto_approve_tools: bool,
}

/// A durable activation.
#[derive(Debug)]
pub struct ActivationRecord {
    pub schema_version: u32,
    pub activation_id: String,
    pub routine_id: String,
    pub routine_revision: u64,
    pub trigger_kind: String,
    pub dedupe_key: String,
    pub scheduled_at: i128,
    pub received_at: i128,
    pub fired_at: i128,
    pub work_id: Option<String>,
    pub disposition: ActivationDisposition,
    pub error: Option<String>,
    pub captured_policy: CapturedActivationPolicy,
    pub payload: Option<Json>,
    pub created_by: String,
}

/// The receipt that forbids a second activation of the same occurrence. It
/// outlives the history of activations.
#[derive(Debug)]
pub struct RoutineDedupeRecord {
    pub dedupe_key: String,
    pub activation_id: String,
    pub work_id: Option<String>,
    pub disposition: Option<ActivationDisposition>,
    pub created_at: i128,
}

/// What is known when a routine is activated.
#[derive(Debug)]
pub struct ActivationFacts {
    /// The receipt of this occurrence.
    pub dedupe: Option<RoutineDedupeRecord>,
    /// The activation that the receipt names, if its history is kept.
    pub existing: Option<ActivationRecord>,
    /// The payload, or why it is refused.
    pub payload: Result<Option<Json>, OrchError>,
    /// What the routine's lifecycle makes of this cause.
    pub lifecycle_skip: Option<ActivationDisposition>,
    /// Work of this routine that is under way.
    pub in_flight: usize,
    /// Whether the owning agent is known and, if so, is bound to the routine's
    /// workspace.
    pub agent_workspace_matches: Option<bool>,
    /// The limits under the agent's specification, or why there are none.
    pub captured: Result<CapturedActivationPolicy, OrchError>,
    /// The limits without a specification, under the host's ceiling.
    pub bare: Option<CapturedActivationPolicy>,
    /// The limits without a specification, under the default ceiling.
    pub bare_default: Option<CapturedActivationPolicy>,
    /// How long to wait after the next failure, in nanoseconds.
    pub retry_delay: i128,
    /// Why the activation could not be recorded.
    pub activation_refusal: Option<OrchError>,
    /// Fresh identities.
    pub work_id: String,
    pub activation_id: String,
}

/// What is to be written for an activation, all of it or nothing.
#[derive(Debug)]
pub struct RoutineFireIntent {
    pub activation: ActivationRecord,
    pub work: Option<WorkItem>,
    pub dedupe: Option<RoutineDedupeRecord>,
}

/// What an activation comes to: the routine to be saved first, if it changed,
/// and what is to be written.
#[derive(Debug)]
pub struct ActivationOutcome {
    pub routine: Option<RoutineRecord>,
    pub intent: Result<RoutineFireIntent, OrchError>,
}

/// How an activation is judged.
pub enum Judgement {
    /// There is no such routine.
    Unknown,
    /// The occurrence was activated before.
    Replay,
    /// The payload is refused.
    BadPayload,
    /// Recorded, without work.
    Skip(ActivationDisposition, Option<Seq<char>>),
    /// Such requests are not served.
    Unsupported,
    /// A failure of the routine.
    Fail(Seq<char>),
    /// Work is created.
    Create,
}

/// Who creates a routine's work.
pub open spec fn routine_actor(routine: RoutineRecord) -> Seq<char> {
    "routine:"@ + routine.routine_id@
}

/// How an activation is judged: the first that applies.
pub open spec fn judged_as(
    routine: Option<RoutineRecord>,
    request: ActivationRequest,
    facts: ActivationFacts,
    now: i128,
) -> Judgement {
    match routine {
        None => Judgement::Unknown,
        Some(r) => if facts.dedupe is Some {
            Judgement::Replay
        } else if facts.payload is Err {
            Judgement::BadPayload
        } else if (request.cause is External || request.cause is Scheduled) && r.expires_at is Some
            && r.expires_at->0 < now {
            Judgement::Skip(
                ActivationDisposition::SkippedExpired,
                Some("activation expired before it could create work"@),
            )
        } else if request.cause is External {
            Judgement::Unsupported
        } else if facts.lifecycle_skip is Some {
            Judgement::Skip(facts.lifecycle_skip->0, None)
        } else if facts.in_flight >= r.max_in_flight {
            Judgement::Skip(
                ActivationDisposition::SkippedOverlap,
                Some("routine already has the maximum in-flight Work items"@),
            )
        } else if facts.agent_workspace_matches is None {
            Judgement::Fail("owning agent is unknown"@)
        } else if facts.agent_workspace_matches == Some(false) {
            Judgement::Fail("agent source workspace does not match the routine workspace"@)
        } else {
            match facts.captured {
                Err(e) => Judgement::Fail(e.message@),
                Ok(c) => match routine_work_fault(r, facts, c) {
                    Some(f) => Judgement::Fail(f.message),
                    None => Judgement::Create,
                },
            }
        },
    }
}

/// Why no work can be made from the routine's template.
pub open spec fn routine_work_fault(
    routine: RoutineRecord,
    facts: ActivationFacts,
    captured: CapturedActivationPolicy,
) -> Option<Fault> {
    new_item_fault(
        facts.work_id@,
        routine.work_template.kind@,
        routine.work_template.objective@,
        routine.workspace@,
        routine_actor(routine),
        captured.work_policy,
    )
}

/// The limits of an activation that has no captured ones.
pub open spec fn is_fallback(c: CapturedActivationPolicy, routine: RoutineRecord) -> bool {
    &&& c.routine_revision == routine.revision
    &&& holds(c.agent_id, routine.agent_id@)
    &&& c.agent_spec_revision is None
    &&& c.run_bounds == routine.work_template.policy.bounds
    &&& c.work_policy == routine.work_template.policy
    &&& c.sandbox_profile@ == "workspace-write"@
    &&& !c.computer_use_allowed
    &&& !c.auto_approve_tools
}

/// The captured limits, or the fallback where there are none.
pub open spec fn is_bare(
    c: CapturedActivationPolicy,
    bare: Option<CapturedActivationPolicy>,
    routine: RoutineRecord,
) -> bool {
    match bare {
        Some(b) => c == b,
        None => is_fallback(c, routine),
    }
}

/// `a` is an activation of the routine.
pub open spec fn is_activation(
    a: ActivationRecord,
    routine: RoutineRecord,
    request: ActivationRequest,
    activation_id: Seq<char>,
    disposition: ActivationDisposition,
    error: Option<Seq<char>>,
    payload: Option<Json>,
    now: i128,
) -> bool {
    &&& a.schema_version == ROUTINE_SCHEMA_VERSION
    &&& a.activation_id@ == activation_id
    &&& a.routine_id@ == routine.routine_id@
    &&& a.routine_revision == routine.revision
    &&& a.trigger_kind@ == request.trigger_kind@
    &&& a.dedupe_key@ == request.dedupe_key@
    &&& a.scheduled_at == request.scheduled_at
    &&& a.received_at == request.received_at
    &&& a.fired_at == now
    &&& a.disposition == disposition
    &&& match error {
        Some(t) => holds(a.error, t),
        None => a.error is None,
    }
    &&& a.payload == payload
    &&& a.created_by@ == request.created_by@
}

/// `d` is the receipt of an activation.
pub open spec fn is_receipt(
    d: RoutineDedupeRecord,
    request: ActivationRequest,
    activation: ActivationRecord,
    now: i128,
) -> bool {
    &&& d.dedupe_key@ == request.dedupe_key@
    &&& d.activation_id@ == activation.activation_id@
    &&& d.work_id == activation.work_id
    &&& d.disposition == Some(activation.disposition)
    &&& d.created_at == now
}

/// The answer to an occurrence that was activated before: the activation on
/// record or, where its history is gone, one that says so.
pub open spec fn is_replay(
    o: ActivationOutcome,
    routine: RoutineRecord,
    request: ActivationRequest,
    facts: ActivationFacts,
    now: i128,
) -> bool {
    &&& o.routine is None
    &&& o.intent is Ok
    &&& o.intent->Ok_0.work is None
    &&& o.intent->Ok_0.dedupe is None
    &&& match facts.existing {
        Some(a) => o.intent->Ok_0.activation == a,
        None => {
            let a = o.intent->Ok_0.activation;
            let d = facts.dedupe->0;
            &&& is_activation(
                a,
                routine,
                request,
                d.activation_id@,
                ActivationDisposition::Deduplicated,
                None,
                None,
                now,
            )
            &&& a.work_id == d.work_id
            &&& is_bare(a.captured_policy, facts.bare_default, routine)
        },
    }
}

/// An activation that is recorded without work.
pub open spec fn is_skip(
    intent: Result<RoutineFireIntent, OrchError>,
    routine: RoutineRecord,
    request: ActivationRequest,
    facts: ActivationFacts,
    disposition: ActivationDisposition,
    error: Option<Seq<char>>,
    now: i128,
) -> bool {
    match facts.activation_refusal {
        Some(e) => intent == Err::<RoutineFireIntent, OrchError>(e),
        None => match intent {
            Ok(i) => {
                &&& is_activation(
                    i.activation,
                    routine,
                    request,
                    facts.activation_id@,
                    disposition,
                    error,
                    facts.payload->Ok_0,
                    now,
                )
                &&& i.activation.work_id is None
                &&& is_bare(i.activation.captured_policy, facts.bare, routine)
                &&& i.work is None
                &&& i.dedupe is Some
                &&& is_receipt(i.dedupe->0, request, i.activation, now)
            },
            Err(_) => false,
        },
    }
}

/// One more than `n`, or `n` if there is no more.
pub open spec fn one_more_failure(n: u32) -> u32 {
    if n == u32::MAX {
        n
    } else {
        (n + 1) as u32
    }
}

/// The routine after one more failure. After too many in a row it is paused.
pub open spec fn failed_routine(r: RoutineRecord, retry_delay: i128, now: i128) -> RoutineRecord {
    let n = one_more_failure(r.consecutive_failures);
    if n >= r.circuit_failures {
        RoutineRecord {
            consecutive_failures: n,
            circuit_open: true,
            lifecycle: RoutineLifecycle::Paused,
            next_fire_at: None,
            updated_at: now,
            ..r
        }
    } else {
        RoutineRecord {
            consecutive_failures: n,
            next_fire_at: Some((now + retry_delay) as i128),
            updated_at: now,
            ..r
        }
    }
}

/// A routine that is not paused by one more failure rests until an instant that
/// can be named.
pub open spec fn rests_in_time(r: RoutineRecord, retry_delay: i128, now: i128) -> bool {
    one_more_failure(r.consecutive_failures) < r.circuit_failures ==> is_named(now + retry_delay)
}

/// How a failure is recorded.
pub open spec fn failure_disposition(r: RoutineRecord) -> ActivationDisposition {
    if r.circuit_open {
        ActivationDisposition::CircuitOpen
    } else {
        ActivationDisposition::Backoff
    }
}

/// `work` is the work that the routine creates.
pub open spec fn is_routine_work(
    work: WorkItem,
    routine: RoutineRecord,
    facts: ActivationFacts,
    policy: WorkPolicy,
    now: i128,
) -> bool {
    exists|fresh: WorkItem|
        {
            &&& #[trigger] is_new_item(
                fresh,
                facts.work_id@,
                routine.work_template.kind@,
                routine.work_template.objective@,
                routine.session_id,
                routine.workspace@,
                routine_actor(routine),
                policy,
                now,
            )
            &&& work == (WorkItem {
                priority: routine.work_template.priority,
                assigned_agent_id: work.assigned_agent_id,
                assignment_status: AssignmentStatus::Accepted,
                source_routine_id: work.source_routine_id,
                source_activation_id: work.source_activation_id,
                ..fresh
            })
            &&& holds(work.assigned_agent_id, routine.agent_id@)
            &&& holds(work.source_routine_id, routine.routine_id@)
            &&& holds(work.source_activation_id, facts.activation_id@)
        }
}

/// An item that cannot be stored is an invalid request that quotes the fault.
pub open spec fn request_fault(f: Option<Fault>) -> Option<Fault> {
    match f {
        None => None,
        Some(f) => Some(invalid_fault(fault_text(f))),
    }
}

/// An activation that creates work.
pub open spec fn is_creation(
    intent: Result<RoutineFireIntent, OrchError>,
    routine: RoutineRecord,
    request: ActivationRequest,
    facts: ActivationFacts,
    now: i128,
) -> bool {
    exists|work: WorkItem| #[trigger]
        is_routine_work(work, routine, facts, facts.captured->Ok_0.work_policy, now) && match request_fault(
            item_fault(work),
        ) {
            Some(f) => refused(intent, f),
            None => match facts.activation_refusal {
                Some(e) => intent == Err::<RoutineFireIntent, OrchError>(e),
                None => match intent {
                    Ok(i) => {
                        &&& is_activation(
                            i.activation,
                            routine,
                            request,
                            facts.activation_id@,
                            ActivationDisposition::CreatedWork,
                            None,
                            facts.payload->Ok_0,
                            now,
                        )
                        &&& i.activation.work_id == Some(work.work_id)
                        &&& i.activation.captured_policy == facts.captured->Ok_0
                        &&& i.work == Some(work)
                        &&& i.dedupe is Some
                        &&& is_receipt(i.dedupe->0, request, i.activation, now)
                    },
                    Err(_) => false,
                },
            },
        }
}

/// What an activation comes to.
pub open spec fn activated(
    o: ActivationOutcome,
    routine: Option<RoutineRecord>,
    request: ActivationRequest,
    facts: ActivationFacts,
    now: i128,
) -> bool {
    match judged_as(routine, request, facts, now) {
        Judgement::Unknown => o.routine is None && refused(
            o.intent,
            invalid_fault("unknown routine_id"@),
        ),
        Judgement::Replay => is_replay(o, routine->0, request, facts, now),
        Judgement::BadPayload => o.routine is None && o.intent == Err::<
            RoutineFireIntent,
            OrchError,
        >(facts.payload->Err_0),
        Judgement::Unsupported => o.routine is None && refused(
            o.intent,
            fault(
                OrchErrorCode::Unsupported,
                "webhook, GitHub, and message adapters are reserved for a later slice"@,
            ),
        ),
        Judgement::Skip(disposition, error) => o.routine is None && is_skip(
            o.intent,
            routine->0,
            request,
            facts,
            disposition,
            error,
            now,
        ),
        Judgement::Fail(message) => {
            let r = failed_routine(routine->0, facts.retry_delay, now);
            o.routine == Some(r) && is_skip(
                o.intent,
                r,
                request,
                facts,
                failure_disposition(r),
                Some(message),
                now,
            )
        },
        Judgement::Create => o.routine is None && is_creation(
            o.intent,
            routine->0,
            request,
            facts,
            now,
        ),
    }
}

fn fallback_policy(routine: &RoutineRecord) -> (c: CapturedActivationPolicy)
    ensures
        is_fallback(c, *routine),
{
    CapturedActivationPolicy {
        routine_revision: routine.revision,
        agent_id: Some(routine.agent_id.clone()),
        agent_spec_revision: None,
        run_bounds: routine.work_template.policy.bounds,
        work_policy: routine.work_template.policy,
        sandbox_profile: copy("workspace-write"),
        computer_use_allowed: false,
        auto_approve_tools: false,
    }
}

fn bare_policy(bare: Option<CapturedActivationPolicy>, routine: &RoutineRecord) -> (c:
    CapturedActivationPolicy)
    ensures
        is_bare(c, bare, *routine),
{
    match bare {
        Some(c) => c,
        None => fallback_policy(routine),
    }
}

fn receipt(activation: &ActivationRecord, request: &ActivationRequest, now: i128) -> (d:
    RoutineDedupeRecord)
    ensures
        is_receipt(d, *request, *activation, now),
{
    RoutineDedupeRecord {
        dedupe_key: request.dedupe_key.clone(),
        activation_id: activation.activation_id.clone(),
        work_id: copy_option(&activation.work_id),
        disposition: Some(activation.disposition),
        created_at: now,
    }
}

/// Answers an occurrence that was activated before. The receipt still forbids
/// a second piece of work where the history is gone.
fn replay_dedupe(
    routine: &RoutineRecord,
    request: &ActivationRequest,
    facts: ActivationFacts,
    now: i128,
) -> (o: ActivationOutcome)
    requires
        facts.dedupe is Some,
    ensures
        is_replay(o, *routine, *request, facts, now),
{
    let (work_id, activation_id): (Option<String>, String) = match &facts.dedupe {
        Some(d) => (copy_option(&d.work_id), d.activation_id.clone()),
        None => (None, String::new()),
    };
    let activation: ActivationRecord = match facts.existing {
        Some(a) => a,
        None => ActivationRecord {
            schema_version: ROUTINE_SCHEMA_VERSION,
            activation_id,
            routine_id: routine.routine_id.clone(),
            routine_revision: routine.revision,
            trigger_kind: request.trigger_kind.clone(),
            dedupe_key: request.dedupe_key.clone(),
            scheduled_at: request.scheduled_at,
            received_at: request.received_at,
            fired_at: now,
            work_id,
            disposition: ActivationDisposition::Deduplicated,
            error: None,
            captured_policy: bare_policy(facts.bare_default, routine),
            payload: None,
            created_by: request.created_by.clone(),
        },
    };
    ActivationOutcome {
        routine: None,
        intent: Ok(RoutineFireIntent { activation, work: None, dedupe: None }),
    }
}

/// Records an activation without work.
fn record_non_work_activation(
    routine: &RoutineRecord,
    request: &ActivationRequest,
    bare: Option<CapturedActivationPolicy>,
    payload: Option<Json>,
    activation_id: String,
    refusal: Option<OrchError>,
    disposition: ActivationDisposition,
    error: Option<&str>,
    now: i128,
) -> (r: Result<RoutineFireIntent, OrchError>)
    ensures
        match refusal {
            Some(e) => r == Err::<RoutineFireIntent, OrchError>(e),
            None => match r {
                Ok(i) => {
                    &&& is_activation(
                        i.activation,
                        *routine,
                        *request,
                        activation_id@,
                        disposition,
                        crate::listing::text_of(error),
                        payload,
                        now,
                    )
                    &&& i.activation.work_id is None
                    &&& is_bare(i.activation.captured_policy, bare, *routine)
                    &&& i.work is None
                    &&& i.dedupe is Some
                    &&& is_receipt(i.dedupe->0, *request, i.activation, now)
                },
                Err(_) => false,
            },
        },
{
    match refusal {
        Some(e) => {
            return Err(e);
        },
        None => {},
    }
    let activation = ActivationRecord {
        schema_version: ROUTINE_SCHEMA_VERSION,
        activation_id,
        routine_id: routine.routine_id.clone(),
        routine_revision: routine.revision,
        trigger_kind: request.trigger_kind.clone(),
        dedupe_key: request.dedupe_key.clone(),
        scheduled_at: request.scheduled_at,
        received_at: request.received_at,
        fired_at: now,
        work_id: None,
        disposition,
        error: match error {
            Some(t) => Some(copy(t)),
            None => None,
        },
        captured_policy: bare_policy(bare, routine),
        payload,
        created_by: request.created_by.clone(),
    };
    let dedupe: RoutineDedupeRecord = receipt(&activation, request, now);
    Ok(RoutineFireIntent { activation, work: None, dedupe: Some(dedupe) })
}

fn note_failure(routine: &mut RoutineRecord, retry_delay: i128, now: i128)
    requires
        rests_in_time(*old(routine), retry_delay, now),
    ensures
        *final(routine) == failed_routine(*old(routine), retry_delay, now),
{
    if routine.consecutive_failures < u32::MAX {
        routine.consecutive_failures = routine.consecutive_failures + 1;
    }
    if routine.consecutive_failures >= routine.circuit_failures {
        routine.circuit_open = true;
        routine.lifecycle = RoutineLifecycle::Paused;
        routine.next_fire_at = None;
    } else {
        routine.next_fire_at = Some(now + retry_delay);
    }
    routine.updated_at = now;
}

/// Records a failure of the routine.
fn fail_activation(
    routine: RoutineRecord,
    request: &ActivationRequest,
    bare: Option<CapturedActivationPolicy>,
    payload: Option<Json>,
    activation_id: String,
    refusal: Option<OrchError>,
    retry_delay: i128,
    message: &str,
    now: i128,
) -> (o: ActivationOutcome)
    requires
        rests_in_time(routine, retry_delay, now),
    ensures
        o.routine == Some(failed_routine(routine, retry_delay, now)),
        match refusal {
            Some(e) => o.intent == Err::<RoutineFireIntent, OrchError>(e),
            None => match o.intent {
                Ok(i) => {
                    let after = failed_routine(routine, retry_delay, now);
                    &&& is_activation(
                        i.activation,
                        after,
                        *request,
                        activation_id@,
                        failure_disposition(after),
                        Some(message@),
                        payload,
                        now,
                    )
                    &&& i.activation.work_id is None
                    &&& is_bare(i.activation.captured_policy, bare, after)
                    &&& i.work is None
                    &&& i.dedupe is Some
                    &&& is_receipt(i.dedupe->0, *request, i.activation, now)
                },
                Err(_) => false,
            },
        },
{
    let mut routine: RoutineRecord = routine;
    note_failure(&mut routine, retry_delay, now);
    let disposition: ActivationDisposition = if routine.circuit_open {
        ActivationDisposition::CircuitOpen
    } else {
        ActivationDisposition::Backoff
    };
    let intent: Result<RoutineFireIntent, OrchError> = record_non_work_activation(
        &routine,
        request,
        bare,
        payload,
        activation_id,
        refusal,
        disposition,
        Some(message),
        now,
    );
    ActivationOutcome { routine: Some(routine), intent }
}

/// The work of a routine, or why there is none.
fn routine_work(
    routine: &RoutineRecord,
    policy: WorkPolicy,
    work_id: &str,
    activation_id: &str,
    now: i128,
) -> (r: Result<WorkItem, OrchError>)
    ensures
        match new_item_fault(
            work_id@,
            routine.work_template.kind@,
            routine.work_template.objective@,
            routine.workspace@,
            routine_actor(*routine),
            policy,
        ) {
            Some(f) => refused(r, f),
            None => r is Ok && exists|fresh: WorkItem|
                {
                    &&& #[trigger] is_new_item(
                        fresh,
                        work_id@,
                        routine.work_template.kind@,
                        routine.work_template.objective@,
                        routine.session_id,
                        routine.workspace@,
                        routine_actor(*routine),
                        policy,
                        now,
                    )
                    &&& r->Ok_0 == (WorkItem {
                        priority: routine.work_template.priority,
                        assigned_agent_id: r->Ok_0.assigned_agent_id,
                        assignment_status: AssignmentStatus::Accepted,
                        source_routine_id: r->Ok_0.source_routine_id,
                        source_activation_id: r->Ok_0.source_activation_id,
                        ..fresh
                    })
                    &&& holds(r->Ok_0.assigned_agent_id, routine.agent_id@)
                    &&& holds(r->Ok_0.source_routine_id, routine.routine_id@)
                    &&& holds(r->Ok_0.source_activation_id, activation_id@)
                },
        },
{
    let mut work: WorkItem = WorkItem::with_id(
        work_id,
        routine.work_template.kind.as_str(),
        routine.work_template.objective.as_str(),
        routine.session_id,
        routine.workspace.as_str(),
        join2("routine:", routine.routine_id.as_str()).as_str(),
        policy,
        now,
    )?;
    let ghost fresh = work;
    work.priority = routine.work_template.priority;
    work.assigned_agent_id = Some(routine.agent_id.clone());
    work.assignment_status = AssignmentStatus::Accepted;
    work.source_routine_id = Some(routine.routine_id.clone());
    work.source_activation_id = Some(copy(activation_id));
    proof {
        assert(is_new_item(
            fresh,
            work_id@,
            routine.work_template.kind@,
            routine.work_template.objective@,
            routine.session_id,
            routine.workspace@,
            routine_actor(*routine),
            policy,
            now,
        ));
    }
    Ok(work)
}

/// Records an activation that creates work.
fn create_work(
    routine: &RoutineRecord,
    request: &ActivationRequest,
    work: WorkItem,
    captured: CapturedActivationPolicy,
    payload: Option<Json>,
    activation_id: String,
    refusal: Option<OrchError>,
    now: i128,
) -> (r: Result<RoutineFireIntent, OrchError>)
    ensures
        match request_fault(item_fault(work)) {
            Some(f) => refused(r, f),
            None => match refusal {
                Some(e) => r == Err::<RoutineFireIntent, OrchError>(e),
                None => match r {
                    Ok(i) => {
                        &&& is_activation(
                            i.activation,
                            *routine,
                            *request,
                            activation_id@,
                            ActivationDisposition::CreatedWork,
                            None,
                            payload,
                            now,
                        )
                        &&& i.activation.work_id == Some(work.work_id)
                        &&& i.activation.captured_policy == captured
                        &&& i.work == Some(work)
                        &&& i.dedupe is Some
                        &&& is_receipt(i.dedupe->0, *request, i.activation, now)
                    },
                    Err(_) => false,
                },
            },
        },
{
    match work.validate() {
        Ok(()) => {},
        Err(e) => {
            return Err(invalid(e.to_text().as_str()));
        },
    }
    match refusal {
        Some(e) => {
            return Err(e);
        },
        None => {},
    }
    let activation = ActivationRecord {
        schema_version: ROUTINE_SCHEMA_VERSION,
        activation_id,
        routine_id: routine.routine_id.clone(),
        routine_revision: routine.revision,
        trigger_kind: request.trigger_kind.clone(),
        dedupe_key: request.dedupe_key.clone(),
        scheduled_at: request.scheduled_at,
        received_at: request.received_at,
        fired_at: now,
        work_id: Some(work.work_id.clone()),
        disposition: ActivationDisposition::CreatedWork,
        error: None,
        captured_policy: captured,
        payload,
        created_by: request.created_by.clone(),
    };
    let dedupe: RoutineDedupeRecord = receipt(&activation, request, now);
    Ok(RoutineFireIntent { activation, work: Some(work), dedupe: Some(dedupe) })
}

/// Decides what one activation of a routine comes to. An occurrence creates at
/// most one piece of work, and a routine that keeps failing is paused.
pub fn activate_routine(
    routine: Option<RoutineRecord>,
    request: &ActivationRequest,
    facts: ActivationFacts,
    now: i128,
) -> (o: ActivationOutcome)
    requires
        judged_as(routine, *request, facts, now) is Fail ==> rests_in_time(
            routine->0,
            facts.retry_delay,
            now,
        ),
    ensures
        activated(o, routine, *request, facts, now),
{
    let routine: RoutineRecord = match routine {
        Some(r) => r,
        None => {
            return ActivationOutcome {
                routine: None,
                intent: Err(invalid("unknown routine_id")),
            };
        },
    };
    if facts.dedupe.is_some() {
        return replay_dedupe(&routine, request, facts, now);
    }
    let payload: Option<Json> = match facts.payload {
        Ok(p) => p,
        Err(e) => {
            return ActivationOutcome { routine: None, intent: Err(e) };
        },
    };
    let scheduled: bool = request.cause == ActivationCause::Scheduled;
    let external: bool = request.cause == ActivationCause::External;
    let expired: bool = match routine.expires_at {
        Some(t) => t < now,
        None => false,
    };
    let skip: Option<(ActivationDisposition, Option<&str>)> = if (scheduled || external)
        && expired {
        Some(
            (
                ActivationDisposition::SkippedExpired,
                Some("activation expired before it could create work"),
            ),
        )
    } else if external {
        return ActivationOutcome {
            routine: None,
            intent: Err(
                OrchError::new(
                    OrchErrorCode::Unsupported,
                    "webhook, GitHub, and message adapters are reserved for a later slice",
                ),
            ),
        };
    } else {
        match facts.lifecycle_skip {
            Some(d) => Some((d, None)),
            None => if facts.in_flight as u64 >= routine.max_in_flight as u64 {
                Some(
                    (
                        ActivationDisposition::SkippedOverlap,
                        Some("routine already has the maximum in-flight Work items"),
                    ),
                )
            } else {
                None
            },
        }
    };
    match skip {
        Some((disposition, error)) => {
            let intent: Result<RoutineFireIntent, OrchError> = record_non_work_activation(
                &routine,
                request,
                facts.bare,
                payload,
                facts.activation_id,
                facts.activation_refusal,
                disposition,
                error,
                now,
            );
            return ActivationOutcome { routine: None, intent };
        },
        None => {},
    }
    let matches: bool = match facts.agent_workspace_matches {
        None => {
            return fail_activation(
                routine,
                request,
                facts.bare,
                payload,
                facts.activation_id,
                facts.activation_refusal,
                facts.retry_delay,
                "owning agent is unknown",
                now,
            );
        },
        Some(m) => m,
    };
    if !matches {
        return fail_activation(
            routine,
            request,
            facts.bare,
            payload,
            facts.activation_id,
            facts.activation_refusal,
            facts.retry_delay,
            "agent source workspace does not match the routine workspace",
            now,
        );
    }
    let captured: CapturedActivationPolicy = match facts.captured {
        Ok(c) => c,
        Err(e) => {
            return fail_activation(
                routine,
                request,
                facts.bare,
                payload,
                facts.activation_id,
                facts.activation_refusal,
                facts.retry_delay,
                e.message.as_str(),
                now,
            );
        },
    };
    let work: WorkItem = match routine_work(
        &routine,
        captured.work_policy,
        facts.work_id.as_str(),
        facts.activation_id.as_str(),
        now,
    ) {
        Ok(work) => work,
        Err(e) => {
            return fail_activation(
                routine,
                request,
                facts.bare,
                payload,
                facts.activation_id,
                facts.activation_refusal,
                facts.retry_delay,
                e.message.as_str(),
                now,
            );
        },
    };
    proof {
        assert(is_routine_work(work, routine, facts, captured.work_policy, now));
    }
    let intent: Result<RoutineFireIntent, OrchError> = create_work(
        &routine,
        request,
        work,
        captured,
        payload,
        facts.activation_id,
        facts.activation_refusal,
        now,
    );
    ActivationOutcome { routine: None, intent }
}

/// An occurrence that has a receipt never creates work again, and every
/// activation that is written leaves a receipt.
pub proof fn occurrences_create_work_once(
    o: ActivationOutcome,
    routine: Option<RoutineRecord>,
    request: ActivationRequest,
    facts: ActivationFacts,
    now: i128,
)
    requires
        activated(o, routine, request, facts, now),
        routine is Some,
    ensures
        facts.dedupe is Some ==> o.intent is Ok && o.intent->Ok_0.work is None,
        facts.dedupe is None && o.intent is Ok ==> o.intent->Ok_0.dedupe is Some
            && o.intent->Ok_0.dedupe->0.dedupe_key@ == request.dedupe_key@,
        o.intent is Ok && o.intent->Ok_0.work is Some ==> judged_as(
            routine,
            request,
            facts,
            now,
        ) is Create,
{
}

/// The receipt of an occurrence after an activation: the one it had, or the one
/// that the activation wrote.
pub open spec fn receipt_after(
    o: ActivationOutcome,
    facts: ActivationFacts,
) -> Option<RoutineDedupeRecord> {
    match facts.dedupe {
        Some(d) => Some(d),
        None => o.intent->Ok_0.dedupe,
    }
}

/// The activation on record is the one that the receipt names.
pub open spec fn history_fits(facts: ActivationFacts) -> bool {
    facts.dedupe is Some && facts.existing is Some ==> {
        &&& facts.existing->0.activation_id@ == facts.dedupe->0.activation_id@
        &&& facts.existing->0.work_id == facts.dedupe->0.work_id
    }
}

/// An occurrence that comes again, under the receipt that an earlier activation
/// left, is answered with the same activation and the same work: the activation
/// on record, or one that says it was deduplicated where the history is gone.
/// Nothing is written, so one key creates at most one piece of work.
pub proof fn repeated_occurrences_are_answered_alike(
    first: ActivationOutcome,
    again: ActivationOutcome,
    routine: Option<RoutineRecord>,
    later: RoutineRecord,
    request: ActivationRequest,
    repeated: ActivationRequest,
    facts: ActivationFacts,
    known: ActivationFacts,
    then: i128,
    now: i128,
)
    requires
        activated(first, routine, request, facts, then),
        first.intent is Ok,
        history_fits(facts),
        activated(again, Some(later), repeated, known, now),
        known.dedupe is Some,
        known.dedupe == receipt_after(first, facts),
        history_fits(known),
    ensures
        again.intent is Ok,
        again.intent->Ok_0.activation.activation_id@
            == first.intent->Ok_0.activation.activation_id@,
        again.intent->Ok_0.activation.work_id == first.intent->Ok_0.activation.work_id,
        match known.existing {
            Some(a) => again.intent->Ok_0.activation == a,
            None => again.intent->Ok_0.activation.disposition is Deduplicated,
        },
        again.intent->Ok_0.work is None,
        again.intent->Ok_0.dedupe is None,
        again.routine is None,
{
}

/// A routine that fails as often in a row as its limit allows is paused and
/// does not fire again by itself.
pub proof fn failing_routines_are_paused(r: RoutineRecord, retry_delay: i128, now: i128)
    requires
        one_more_failure(r.consecutive_failures) >= r.circuit_failures,
    ensures
        failed_routine(r, retry_delay, now).circuit_open,
        failed_routine(r, retry_delay, now).lifecycle is Paused,
        failed_routine(r, retry_delay, now).next_fire_at is None,
{
}

/// What firing all due routines came to.
#[derive(Debug, Clone, Copy, PartialEq, Eq, Structural)]
pub struct RoutineFireReport {
    pub scanned_routines: usize,
    pub created_work: usize,
    pub deduplicated: usize,
    pub rejected: usize,
    pub skipped: usize,
}

impl Default for RoutineFireReport {
    fn default() -> (r: RoutineFireReport)
        ensures
            r == (RoutineFireReport {
                scanned_routines: 0,
                created_work: 0,
                deduplicated: 0,
                rejected: 0,
                skipped: 0,
            }),
    {
        RoutineFireReport {
            scanned_routines: 0,
            created_work: 0,
            deduplicated: 0,
            rejected: 0,
            skipped: 0,
        }
    }
}

/// What one activation of a due routine adds to the report; `None` is an error.
pub open spec fn counted_activation(
    r: RoutineFireReport,
    disposition: Option<ActivationDisposition>,
) -> RoutineFireReport {
    match disposition {
        Some(ActivationDisposition::CreatedWork) => RoutineFireReport {
            created_work: (r.created_work + 1) as usize,
            ..r
        },
        Some(ActivationDisposition::Deduplicated) => RoutineFireReport {
            deduplicated: (r.deduplicated + 1) as usize,
            ..r
        },
        None | Some(ActivationDisposition::Rejected) | Some(ActivationDisposition::Backoff) | Some(
            ActivationDisposition::CircuitOpen,
        ) => RoutineFireReport { rejected: (r.rejected + 1) as usize, ..r },
        _ => RoutineFireReport { skipped: (r.skipped + 1) as usize, ..r },
    }
}

/// Counts one activation of a due routine.
pub fn count_activation(
    report: &mut RoutineFireReport,
    disposition: Option<ActivationDisposition>,
)
    requires
        old(report).created_work < usize::MAX,
        old(report).deduplicated < usize::MAX,
        old(report).rejected < usize::MAX,
        old(report).skipped < usize::MAX,
    ensures
        *final(report) == counted_activation(*old(report), disposition),
{
    match disposition {
        Some(ActivationDisposition::CreatedWork) => {
            report.created_work = report.created_work + 1;
        },
        Some(ActivationDisposition::Deduplicated) => {
            report.deduplicated = report.deduplicated + 1;
        },
        None | Some(ActivationDisposition::Rejected) | Some(ActivationDisposition::Backoff) | Some(
            ActivationDisposition::CircuitOpen,
        ) => {
            report.rejected = report.rejected + 1;
        },
        _ => {
            report.skipped = report.skipped + 1;
        },
    }
}

/// What a pass over the routines does with one of them.
#[derive(Debug, Clone, Copy, PartialEq, Eq, Structural)]
pub enum Firing {
    /// Nothing is due.
    Idle,
    /// Its time has come, with no occurrence left to fire.
    Missed,
    /// Its occurrences could not be found.
    Rejected,
    /// Its occurrences are fired.
    Due,
}

/// What is done with a routine, given how many of its occurrences are due;
/// `None` if that could not be found.
pub open spec fn firing_of(next_fire_at: Option<i128>, due: Option<usize>, now: i128) -> Firing {
    match due {
        None => Firing::Rejected,
        Some(n) => if n > 0 {
            Firing::Due
        } else if next_fire_at is Some && next_fire_at->0 <= now {
            Firing::Missed
        } else {
            Firing::Idle
        },
    }
}

/// Decides what a pass does with one routine, and counts a routine that is
/// rejected or missed.
pub fn begin_firing(
    next_fire_at: Option<i128>,
    due: Option<usize>,
    now: i128,
    report: &mut RoutineFireReport,
) -> (f: Firing)
    requires
        old(report).rejected < usize::MAX,
        old(report).skipped < usize::MAX,
    ensures
        f == firing_of(next_fire_at, due, now),
        *final(report) == match f {
            Firing::Rejected => RoutineFireReport {
                rejected: (old(report).rejected + 1) as usize,
                ..*old(report)
            },
            Firing::Missed => RoutineFireReport {
                skipped: (old(report).skipped + 1) as usize,
                ..*old(report)
            },
            _ => *old(report),
        },
{
    match due {
        None => {
            report.rejected = report.rejected + 1;
            Firing::Rejected
        },
        Some(n) => {
            if n > 0 {
                return Firing::Due;
            }
            let passed: bool = match next_fire_at {
                Some(next) => next <= now,
                None => false,
            };
            if passed {
                report.skipped = report.skipped + 1;
                Firing::Missed
            } else {
                Firing::Idle
            }
        },
    }
}

/// The request that a due occurrence of a routine makes, with the name that its
/// cause is recorded under.
pub fn scheduled_request(
    routine_id: &str,
    trigger_kind: String,
    dedupe_key: String,
    scheduled_at: i128,
    now: i128,
) -> (r: ActivationRequest)
    ensures
        r.cause is Scheduled,
        r.trigger_kind == trigger_kind,
        r.dedupe_key == dedupe_key,
        r.scheduled_at == scheduled_at,
        r.received_at == now,
        r.created_by@ == "routine:"@ + routine_id@,
{
    ActivationRequest {
        cause: ActivationCause::Scheduled,
        trigger_kind,
        dedupe_key,
        scheduled_at,
        received_at: now,
        created_by: join2("routine:", routine_id),
    }
}

/// What becomes of a routine whose due occurrences were fired, given when it
/// fires next. A routine that may not fire on schedule, or whose circuit is
/// open, is left alone.
pub fn note_fired(routine: RoutineRecord, next_fire_at: Option<i128>, now: i128) -> (r: (
    RoutineRecord,
    bool,
))
    ensures
        r.1 == (routine.lifecycle is Enabled && !routine.circuit_open),
        r.0 == if r.1 {
            RoutineRecord { next_fire_at, last_fire_at: Some(now), updated_at: now, ..routine }
        } else {
            routine
        },
{
    if routine.lifecycle == RoutineLifecycle::Enabled && !routine.circuit_open {
        let mut routine: RoutineRecord = routine;
        routine.next_fire_at = next_fire_at;
        routine.last_fire_at = Some(now);
        routine.updated_at = now;
        (routine, true)
    } else {
        (routine, false)
    }
}

/// What becomes of a routine that was due but has no occurrence left.
pub fn note_missed(routine: RoutineRecord, next_fire_at: Option<i128>, now: i128) -> (r:
    RoutineRecord)
    ensures
        r == (RoutineRecord { next_fire_at, updated_at: now, ..routine }),
{
    let mut routine: RoutineRecord = routine;
    routine.next_fire_at = next_fire_at;
    routine.updated_at = now;
    routine
}

/// Why the lifecycle of a routine is not changed. The first fire is asked for
/// only where it is needed.
pub open spec fn lifecycle_fault(
    routine: Option<RoutineRecord>,
    expected_revision: Option<u64>,
) -> Option<Fault> {
    match routine {
        None => Some(invalid_fault("unknown routine_id"@)),
        Some(r) => if expected_revision is Some && expected_revision->0 != r.revision {
            Some(
                fault(
                    OrchErrorCode::StaleVersion,
                    "routine revision does not match expected_revision"@,
                ),
            )
        } else {
            None
        },
    }
}

/// The routine with another lifecycle. Enabling it closes its circuit.
pub open spec fn with_lifecycle(
    r: RoutineRecord,
    lifecycle: RoutineLifecycle,
    first_fire: Option<i128>,
    now: i128,
) -> RoutineRecord {
    RoutineRecord {
        lifecycle,
        circuit_open: r.circuit_open && !(lifecycle is Enabled),
        consecutive_failures: if lifecycle is Enabled {
            0
        } else {
            r.consecutive_failures
        },
        next_fire_at: if lifecycle is Disabled {
            None
        } else if lifecycle is Enabled && r.next_fire_at is None {
            first_fire
        } else {
            r.next_fire_at
        },
        revision: next_revision(r.revision),
        updated_at: now,
        ..r
    }
}

/// What changing the lifecycle of a routine comes to.
pub open spec fn relifing(
    routine: Option<RoutineRecord>,
    lifecycle: RoutineLifecycle,
    expected_revision: Option<u64>,
    first_fire: Result<Option<i128>, OrchError>,
    now: i128,
    r: Result<RoutineRecord, OrchError>,
) -> bool {
    match lifecycle_fault(routine, expected_revision) {
        Some(f) => refused(r, f),
        None => if lifecycle is Enabled && routine->0.next_fire_at is None
            && first_fire is Err {
            r == Err::<RoutineRecord, OrchError>(first_fire->Err_0)
        } else {
            r == Ok::<RoutineRecord, OrchError>(
                with_lifecycle(
                    routine->0,
                    lifecycle,
                    match first_fire {
                        Ok(t) => t,
                        Err(_) => None,
                    },
                    now,
                ),
            )
        },
    }
}

/// Changes the lifecycle of a routine. `first_fire` is when its trigger would
/// fire first, or why that cannot be told.
pub fn set_routine_lifecycle(
    routine: Option<RoutineRecord>,
    lifecycle: RoutineLifecycle,
    expected_revision: Option<u64>,
    first_fire: Result<Option<i128>, OrchError>,
    now: i128,
) -> (r: Result<RoutineRecord, OrchError>)
    ensures
        relifing(
            routine,
            lifecycle,
            expected_revision,
            first_fire,
            now,
            r,
        ),
{
    let mut routine: RoutineRecord = match routine {
        Some(r) => r,
        None => {
            return Err(invalid("unknown routine_id"));
        },
    };
    match expected_revision {
        Some(expected) => {
            if expected != routine.revision {
                return Err(
                    OrchError::new(
                        OrchErrorCode::StaleVersion,
                        "routine revision does not match expected_revision",
                    ),
                );
            }
        },
        None => {},
    }
    routine.lifecycle = lifecycle;
    if lifecycle == RoutineLifecycle::Enabled {
        routine.circuit_open = false;
        routine.consecutive_failures = 0;
        if routine.next_fire_at.is_none() {
            routine.next_fire_at = first_fire?;
        }
    }
    if lifecycle == RoutineLifecycle::Disabled {
        routine.next_fire_at = None;
    }
    if routine.revision < u64::MAX {
        routine.revision = routine.revision + 1;
    }
    routine.updated_at = now;
    Ok(routine)
}

/// When the activations fired.
pub open spec fn fire_times(activations: Seq<ActivationRecord>) -> Seq<i128> {
    Seq::new(activations.len(), |i: int| activations[i].fired_at)
}

/// The activations, the latest first.
pub open spec fn activation_order(activations: Seq<ActivationRecord>) -> Seq<usize> {
    by_numbers(latest(fire_times(activations)), zeros(activations.len()))
}

/// The order in which activations are listed.
pub open spec fn activations_listed(
    activations: Seq<ActivationRecord>,
    limit: usize,
    list: Seq<usize>,
) -> bool {
    &&& list == if limit > 0 && activations.len() > limit {
        activation_order(activations).take(limit as int)
    } else {
        activation_order(activations)
    }
    &&& activation_order(activations).len() == activations.len()
}

/// The latest activations, at most `limit` of them; a limit of zero is none.
pub fn list_activations(activations: &Vec<ActivationRecord>, limit: usize) -> (list: Vec<usize>)
    ensures
        activations_listed(
            activations@,
            limit,
            list@,
        ),
{
    let mut times: Vec<i128> = Vec::new();
    let mut i: usize = 0;
    while i < activations.len()
        invariant
            i <= activations@.len(),
            times@.len() == i,
            forall|j: int| 0 <= j < i ==> #[trigger] times@[j] == activations@[j].fired_at,
        decreases activations.len() - i,
    {
        times.push(activations[i].fired_at);
        i = i + 1;
    }
    proof {
        assert(times@ =~= fire_times(activations@));
    }
    let mut order: Vec<usize> = newest_first(&times);
    if limit > 0 && order.len() > limit {
        order.truncate(limit);
    }
    order
}

/// The activations that are beyond the history.
pub open spec fn activations_pruned(
    activations: Seq<ActivationRecord>,
    keep: usize,
    list: Seq<usize>,
) -> bool {
    list == if activations.len() <= keep {
        Seq::<usize>::empty()
    } else {
        activation_order(activations).skip(keep as int)
    }
}

/// The activations that are beyond the history that is kept. Receipts are kept
/// longer than history.
pub fn activations_to_prune(activations: &Vec<ActivationRecord>, keep: usize) -> (list: Vec<usize>)
    ensures
        activations_pruned(
            activations@,
            keep,
            list@,
        ),
{
    let order: Vec<usize> = list_activations(activations, 0);
    let mut list: Vec<usize> = Vec::new();
    if activations.len() <= keep {
        proof {
            assert(list@ =~= Seq::<usize>::empty());
        }
        return list;
    }
    let mut i: usize = keep;
    proof {
        assert(list@ =~= order@.subrange(keep as int, keep as int));
    }
    while i < order.len()
        invariant
            keep <= i <= order@.len(),
            list@ == order@.subrange(keep as int, i as int),
        decreases order.len() - i,
    {
        list.push(order[i]);
        i = i + 1;
        proof {
            assert(list@ =~= order@.subrange(keep as int, i as int));
        }
    }
    proof {
        assert(list@ =~= order@.skip(keep as int));
    }
    list
}

/// The occurrence is late: its routine expired, and nobody asked for it directly.
pub open spec fn comes_too_late(r: RoutineRecord, request: ActivationRequest, now: i128) -> bool {
    &&& request.cause is Scheduled || request.cause is External
    &&& r.expires_at is Some
    &&& r.expires_at->0 < now
}

/// Work is created only by a new occurrence that nothing stands against: it is
/// neither late nor external, its routine may fire and has room, and its agent
/// is known, bound to the routine's workspace and within its limits. The work is
/// the routine's own: its workspace, agent and priority, and its activation.
pub proof fn work_is_created_where_nothing_stands_against_it(
    o: ActivationOutcome,
    r: RoutineRecord,
    request: ActivationRequest,
    facts: ActivationFacts,
    now: i128,
)
    requires
        activated(o, Some(r), request, facts, now),
    ensures
        o.intent is Ok && o.intent->Ok_0.work is Some ==> {
            let work = o.intent->Ok_0.work->0;
            &&& facts.dedupe is None
            &&& !comes_too_late(r, request, now)
            &&& !(request.cause is External)
            &&& facts.lifecycle_skip is None
            &&& facts.in_flight < r.max_in_flight
            &&& facts.agent_workspace_matches == Some(true)
            &&& facts.captured is Ok
            &&& o.routine is None
            &&& o.intent->Ok_0.activation.disposition is CreatedWork
            &&& o.intent->Ok_0.activation.work_id == Some(work.work_id)
            &&& o.intent->Ok_0.activation.routine_id@ == r.routine_id@
            &&& work.work_id@ == facts.work_id@
            &&& work.workspace@ == r.workspace@
            &&& work.priority == r.work_template.priority
            &&& work.state is Queued
            &&& holds(work.assigned_agent_id, r.agent_id@)
            &&& holds(work.source_routine_id, r.routine_id@)
            &&& holds(work.source_activation_id, facts.activation_id@)
            &&& work.policy == facts.captured->Ok_0.work_policy
        },
        facts.dedupe is None && facts.payload is Ok && !(request.cause is External) && !comes_too_late(
            r,
            request,
            now,
        ) && facts.lifecycle_skip is None && facts.in_flight < r.max_in_flight
            && facts.agent_workspace_matches == Some(true) && facts.captured is Ok
            && routine_work_fault(r, facts, facts.captured->Ok_0) is None && o.intent is Ok
            ==> o.intent->Ok_0.work is Some,
{
}

/// An occurrence that is skipped says why, and creates no work.
pub proof fn skipped_occurrences_say_why(
    o: ActivationOutcome,
    r: RoutineRecord,
    request: ActivationRequest,
    facts: ActivationFacts,
    now: i128,
)
    requires
        activated(o, Some(r), request, facts, now),
        facts.dedupe is None,
        facts.payload is Ok,
        facts.activation_refusal is None,
    ensures
        comes_too_late(r, request, now) ==> o.intent is Ok
            && o.intent->Ok_0.activation.disposition is SkippedExpired && o.intent->Ok_0.work is None
            && o.routine is None,
        !comes_too_late(r, request, now) && request.cause is External ==> o.intent is Err
            && o.intent->Err_0.code is Unsupported && o.routine is None,
        !comes_too_late(r, request, now) && !(request.cause is External)
            && facts.lifecycle_skip is Some ==> o.intent is Ok
            && o.intent->Ok_0.activation.disposition == facts.lifecycle_skip->0
            && o.intent->Ok_0.work is None && o.routine is None,
        !comes_too_late(r, request, now) && !(request.cause is External)
            && facts.lifecycle_skip is None && facts.in_flight >= r.max_in_flight
            ==> o.intent is Ok && o.intent->Ok_0.activation.disposition is SkippedOverlap
            && o.intent->Ok_0.work is None && o.routine is None,
{
}

/// An occurrence whose agent is unknown, elsewhere or refused counts as a failure
/// of the routine. It rests for a while and tries again, until it has failed as
/// often as its limit allows; it is then paused.
pub proof fn failures_back_off_until_the_circuit_opens(
    o: ActivationOutcome,
    r: RoutineRecord,
    request: ActivationRequest,
    facts: ActivationFacts,
    now: i128,
)
    requires
        activated(o, Some(r), request, facts, now),
        facts.dedupe is None,
        facts.payload is Ok,
        !(request.cause is External),
        !comes_too_late(r, request, now),
        facts.lifecycle_skip is None,
        facts.in_flight < r.max_in_flight,
        facts.agent_workspace_matches != Some(true) || facts.captured is Err,
        r.consecutive_failures < u32::MAX,
        is_named(now + facts.retry_delay),
    ensures
        o.routine is Some,
        o.routine->0.consecutive_failures == r.consecutive_failures + 1,
        r.consecutive_failures + 1 >= r.circuit_failures ==> o.routine->0.circuit_open
            && o.routine->0.lifecycle is Paused && o.routine->0.next_fire_at is None,
        r.consecutive_failures + 1 < r.circuit_failures ==> o.routine->0.lifecycle == r.lifecycle
            && o.routine->0.circuit_open == r.circuit_open && o.routine->0.next_fire_at == Some(
            (now + facts.retry_delay) as i128,
        ),
        o.intent is Ok ==> o.intent->Ok_0.work is None && (
        o.intent->Ok_0.activation.disposition is CircuitOpen <==> o.routine->0.circuit_open) && (
        o.intent->Ok_0.activation.disposition is Backoff <==> !o.routine->0.circuit_open),
{
    match facts.agent_workspace_matches {
        Some(b) => {
            assert(b || facts.agent_workspace_matches == Some(false));
        },
        None => {},
    }
    assert(judged_as(Some(r), request, facts, now) is Fail);
}

/// Enabling a routine closes its circuit and forgets its failures, disabling it
/// leaves nothing to fire, and a change under another revision is stale. Every
/// change raises the revision.
pub proof fn lifecycles_change_under_their_revision(
    routine: Option<RoutineRecord>,
    lifecycle: RoutineLifecycle,
    expected_revision: Option<u64>,
    first_fire: Result<Option<i128>, OrchError>,
    now: i128,
    r: Result<RoutineRecord, OrchError>,
)
    requires
        relifing(routine, lifecycle, expected_revision, first_fire, now, r),
    ensures
        routine is None ==> r is Err,
        routine is Some && expected_revision is Some && expected_revision->0 != routine->0.revision
            ==> r is Err && r->Err_0.code is StaleVersion,
        routine is Some && (expected_revision is None || expected_revision->0
            == routine->0.revision) && first_fire is Ok ==> r is Ok,
        r is Ok ==> {
            &&& r->Ok_0.lifecycle == lifecycle
            &&& routine->0.revision < u64::MAX ==> r->Ok_0.revision == routine->0.revision + 1
            &&& lifecycle is Enabled ==> !r->Ok_0.circuit_open && r->Ok_0.consecutive_failures == 0
            &&& lifecycle is Enabled && routine->0.next_fire_at is Some ==> r->Ok_0.next_fire_at
                == routine->0.next_fire_at
            &&& lifecycle is Enabled && routine->0.next_fire_at is None ==> first_fire
                == Ok::<Option<i128>, OrchError>(r->Ok_0.next_fire_at)
            &&& lifecycle is Disabled ==> r->Ok_0.next_fire_at is None
            &&& !(lifecycle is Enabled) ==> r->Ok_0.circuit_open == routine->0.circuit_open
                && r->Ok_0.consecutive_failures == routine->0.consecutive_failures
            &&& lifecycle is Paused ==> r->Ok_0.next_fire_at == routine->0.next_fire_at
        },
{
}

/// A pass counts every activation once.
pub proof fn activations_count_once(
    before: RoutineFireReport,
    disposition: Option<ActivationDisposition>,
)
    requires
        before.created_work < usize::MAX,
        before.deduplicated < usize::MAX,
        before.rejected < usize::MAX,
        before.skipped < usize::MAX,
    ensures
        ({
            let after = counted_activation(before, disposition);
            let created = disposition == Some(ActivationDisposition::CreatedWork);
            let repeated = disposition == Some(ActivationDisposition::Deduplicated);
            let failed = disposition is None || disposition == Some(ActivationDisposition::Rejected)
                || disposition == Some(ActivationDisposition::Backoff) || disposition == Some(
                ActivationDisposition::CircuitOpen,
            );
            &&& after.created_work - before.created_work == if created { 1int } else { 0int }
            &&& after.deduplicated - before.deduplicated == if repeated { 1int } else { 0int }
            &&& after.rejected - before.rejected == if failed { 1int } else { 0int }
            &&& after.skipped - before.skipped == if !created && !repeated && !failed {
                1int
            } else {
                0int
            }
        }),
{
}

/// A routine fires where occurrences of it are due; one whose time has come
/// without any was missed, and one whose time has not come is idle.
pub proof fn routines_fire_when_due(next_fire_at: Option<i128>, due: Option<usize>, now: i128)
    ensures
        firing_of(next_fire_at, due, now) is Due <==> due is Some && due->0 > 0,
        firing_of(next_fire_at, due, now) is Rejected <==> due is None,
        firing_of(next_fire_at, due, now) is Missed <==> due == Some(0usize) && next_fire_at is Some
            && next_fire_at->0 <= now,
{
}

/// Activations are listed by the time they fired, the latest first, and no more
/// than the limit of them.
pub proof fn activations_are_listed_latest_first(
    activations: Seq<ActivationRecord>,
    limit: usize,
    list: Seq<usize>,
)
    requires
        activations_listed(activations, limit, list),
        activations.len() <= usize::MAX,
    ensures
        limit > 0 ==> list.len() <= limit,
        limit == 0 || activations.len() <= limit ==> list.len() == activations.len(),
        limit > 0 && activations.len() > limit ==> list.len() == limit,
        forall|i: int, j: int|
            0 <= i < j < list.len() ==> activations[#[trigger] list[i] as int].fired_at
                >= activations[#[trigger] list[j] as int].fired_at && list[i] != list[j],
        forall|i: int| 0 <= i < list.len() ==> (#[trigger] list[i]) < activations.len(),
        forall|i: int, k: usize|
            0 <= i < list.len() && k < activations.len() && !#[trigger] list.contains(k)
                ==> activations[#[trigger] list[i] as int].fired_at
                >= activations[k as int].fired_at,
{
    let major = latest(fire_times(activations));
    let keys = number_ranks(major, zeros(activations.len()));
    let order = activation_order(activations);
    numbers_are_ordered(major, zeros(activations.len()));
    assert forall|i: int, j: int| 0 <= i < j < order.len() implies activations[
        #[trigger] order[i] as int].fired_at >= activations[#[trigger] order[j] as int].fired_at by {
        assert(listed_before(keys, order[i] as int, order[j] as int));
    }
    assert forall|i: int, k: usize|
        0 <= i < list.len() && k < activations.len() && !#[trigger] list.contains(k)
            implies activations[#[trigger] list[i] as int].fired_at
            >= activations[k as int].fired_at by {
        assert(order.contains(k));
        let m = choose|m: int| 0 <= m < order.len() && order[m] == k;
        assert(list[i] == order[i]);
        if m < list.len() {
            assert(list[m] == k);
        }
    }
}

/// What is pruned is older than what is kept, and as much is kept as may be.
pub proof fn the_oldest_activations_are_pruned(
    activations: Seq<ActivationRecord>,
    keep: usize,
    list: Seq<usize>,
)
    requires
        activations_pruned(activations, keep, list),
        activations.len() <= usize::MAX,
    ensures
        activations.len() <= keep ==> list.len() == 0,
        activations.len() > keep ==> list.len() == activations.len() - keep,
        forall|i: int| 0 <= i < list.len() ==> (#[trigger] list[i]) < activations.len(),
        forall|i: int, k: usize|
            0 <= i < list.len() && k < activations.len() && !#[trigger] list.contains(k)
                ==> activations[#[trigger] list[i] as int].fired_at
                <= activations[k as int].fired_at,
{
    let major = latest(fire_times(activations));
    let keys = number_ranks(major, zeros(activations.len()));
    let order = activation_order(activations);
    numbers_are_ordered(major, zeros(activations.len()));
    if activations.len() > keep {
        assert forall|i: int, k: usize|
            0 <= i < list.len() && k < activations.len() && !#[trigger] list.contains(k)
                implies activations[#[trigger] list[i] as int].fired_at
                <= activations[k as int].fired_at by {
            assert(order.contains(k));
            let m = choose|m: int| 0 <= m < order.len() && order[m] == k;
            assert(list[i] == order[i + keep]);
            if m >= keep {
                assert(list[m - keep] == k);
            }
            assert(listed_before(keys, order[m] as int, order[i + keep] as int));
        }
    }
}

} // verus!
