//! Finite runs: their record, what a restart does to them and how a finished
//! run is merged with what was already on record.

use crate::agent::copy_option;
use crate::bounds::RunBounds;
use crate::json::Json;
use crate::text::{copy, has_prefix, str_eq, str_starts_with};
use vstd::prelude::*;
use vstd::string::*;

verus! {

#[derive(Debug, Clone, Copy, PartialEq, Eq, Structural)]
pub enum RunState {
    Queued,
    Running,
    Completed,
    Failed,
    Cancelled,
    Interrupted,
    LimitReached,
}

impl RunState {
    /// A run in this state is over.
    pub open spec fn terminal(self) -> bool {
        !(self is Queued) && !(self is Running)
    }

    pub fn is_terminal(self) -> (r: bool)
        ensures
            r == self.terminal(),
    {
        matches!(
            self,
            RunState::Completed | RunState::Failed | RunState::Cancelled | RunState::Interrupted
                | RunState::LimitReached
        )
    }
}

/// What a run was admitted for.
#[derive(Debug, Clone, Copy, PartialEq, Eq, Structural)]
pub enum RunPurpose {
    Execution,
    ManagerProposal,
}

impl Default for RunPurpose {
    fn default() -> (p: RunPurpose)
        ensures
            p is Execution,
    {
        RunPurpose::Execution
    }
}

/// Why the host ended a run.
#[derive(Debug, Clone, Copy, PartialEq, Eq, Structural)]
pub enum RunStopCause {
    Completed,
    RoundLimit,
    DurationLimit,
    TokenCeiling,
    TokenAccountingUnavailable,
    TokenAccountingOverflow,
    Stationarity,
    RecoveryExhausted,
    Cancelled,
    Interrupted,
    Failed,
}

/// How a run may touch the workspace.
#[derive(Debug, Clone, Copy, PartialEq, Eq, Structural)]
pub enum RunExecutionMode {
    Shared,
    IsolatedWorktree,
}

impl Default for RunExecutionMode {
    fn default() -> (m: RunExecutionMode)
        ensures
            m is Shared,
    {
        RunExecutionMode::Shared
    }
}

#[derive(Debug, Clone, Copy, PartialEq, Eq, Structural)]
pub enum PromotionState {
    NotApplicable,
    Preparing,
    Ready,
    Promoted,
    Conflicted,
    Discarded,
}

impl Default for PromotionState {
    fn default() -> (s: PromotionState)
        ensures
            s is NotApplicable,
    {
        PromotionState::NotApplicable
    }
}

/// The isolated worktree of a run, and how far it was promoted.
#[derive(Debug, Clone)]
pub struct RunExecution {
    pub mode: RunExecutionMode,
    pub source_workspace: String,
    pub execution_workspace: String,
    pub base_revision: String,
    pub source_fingerprint: String,
    pub final_fingerprint: Option<String>,
    pub promotion_state: PromotionState,
    pub promoted_at: Option<i128>,
}

/// Tokens and requests counted so far. Updates are cumulative.
#[derive(Debug, Clone, Copy, PartialEq, Eq, Structural)]
pub struct CompletionUsage {
    pub prompt_tokens: u64,
    pub completion_tokens: u64,
    pub total_tokens: u64,
    pub requests: u64,
}

impl Default for CompletionUsage {
    fn default() -> (u: CompletionUsage)
        ensures
            u == (CompletionUsage {
                prompt_tokens: 0,
                completion_tokens: 0,
                total_tokens: 0,
                requests: 0,
            }),
    {
        CompletionUsage { prompt_tokens: 0, completion_tokens: 0, total_tokens: 0, requests: 0 }
    }
}

/// Evidence that a completion was verified, with the usage it was drawn at.
#[derive(Debug, Clone)]
pub struct CompletionEvidence {
    pub usage: CompletionUsage,
    pub document: Json,
}

#[derive(Debug, PartialEq, Eq)]
pub struct ChangeRecord {
    pub path: String,
    pub summary: String,
}

impl Clone for ChangeRecord {
    fn clone(&self) -> (c: ChangeRecord)
        ensures
            c == *self,
    {
        ChangeRecord { path: self.path.clone(), summary: self.summary.clone() }
    }
}

#[derive(Debug, PartialEq, Eq)]
pub struct TestObservation {
    pub call_id: String,
    pub command: Option<String>,
    pub status: String,
    pub exit_code: Option<i32>,
    pub cancelled: Option<bool>,
}

impl Clone for TestObservation {
    fn clone(&self) -> (t: TestObservation)
        ensures
            t == *self,
    {
        TestObservation {
            call_id: self.call_id.clone(),
            command: copy_option(&self.command),
            status: self.status.clone(),
            exit_code: self.exit_code,
            cancelled: self.cancelled,
        }
    }
}

/// What was counted over the whole of a run.
#[derive(Debug, Clone)]
pub struct RunAggregates {
    pub changes: Vec<ChangeRecord>,
    pub tests: Vec<TestObservation>,
    pub permissions_requested: u32,
    pub permissions_granted: u32,
    pub permissions_denied: u32,
    pub usage: CompletionUsage,
    /// Every provider request of the run returned its usage.
    pub usage_complete: bool,
    /// Provider requests admitted and not yet reconciled with a response.
    pub usage_pending_requests: u32,
    pub verification: Option<CompletionEvidence>,
}

impl Default for RunAggregates {
    fn default() -> (a: RunAggregates)
        ensures
            a.changes@.len() == 0,
            a.tests@.len() == 0,
            a.permissions_requested == 0,
            a.permissions_granted == 0,
            a.permissions_denied == 0,
            a.usage == (CompletionUsage {
                prompt_tokens: 0,
                completion_tokens: 0,
                total_tokens: 0,
                requests: 0,
            }),
            a.usage_complete,
            a.usage_pending_requests == 0,
            a.verification is None,
    {
        RunAggregates {
            changes: Vec::new(),
            tests: Vec::new(),
            permissions_requested: 0,
            permissions_granted: 0,
            permissions_denied: 0,
            usage: CompletionUsage::default(),
            usage_complete: true,
            usage_pending_requests: 0,
            verification: None,
        }
    }
}

/// The latest progress of a run.
#[derive(Debug)]
pub struct RunProgress {
    pub round: u32,
    pub max_rounds: u32,
    pub last_tool: Option<String>,
    pub detail: String,
    pub updated_at: i128,
}

impl Clone for RunProgress {
    fn clone(&self) -> (p: RunProgress)
        ensures
            p == *self,
    {
        RunProgress {
            round: self.round,
            max_rounds: self.max_rounds,
            last_tool: copy_option(&self.last_tool),
            detail: self.detail.clone(),
            updated_at: self.updated_at,
        }
    }
}

/// A stored authorization to promote one reviewed run.
#[derive(Debug, Clone)]
pub struct RunApproval {
    pub approval_id: String,
    pub run_id: String,
    pub session_id: u128,
    pub workspace: String,
    pub source_fingerprint: String,
    pub final_fingerprint: String,
    pub changed_files: Vec<ChangeRecord>,
    pub issued_at: i128,
    pub expires_at: i128,
}

/// The stored record of a run. Times are nanoseconds since the Unix epoch.
#[derive(Debug, Clone)]
pub struct RunRecord {
    pub run_id: String,
    pub session_id: u128,
    pub workspace: String,
    pub request_id: String,
    pub client_id: Option<String>,
    pub state: RunState,
    pub purpose: RunPurpose,
    pub agent_id: Option<String>,
    pub retry_of: Option<String>,
    pub parent_run_id: Option<String>,
    pub agent_spec_revision: Option<u64>,
    pub checkpoint_id: Option<String>,
    pub continuation_context_id: Option<String>,
    pub continuation_context_hash: Option<String>,
    pub continuation_fidelity: Option<String>,
    pub queue_position: Option<usize>,
    pub bounds: RunBounds,
    pub prompt_preview: String,
    pub start_seq: Option<u64>,
    pub end_seq: Option<u64>,
    pub created_at: i128,
    pub updated_at: i128,
    pub terminal_result: Option<String>,
    pub final_response: Option<String>,
    pub error_code: Option<String>,
    pub stop_cause: Option<RunStopCause>,
    pub aggregates: RunAggregates,
    pub progress: Option<RunProgress>,
    pub execution: Option<RunExecution>,
    pub approval: Option<RunApproval>,
}

/// An optional text is `text`.
pub open spec fn holds(s: Option<String>, text: Seq<char>) -> bool {
    s is Some && s->0@ == text
}

/// `after` is `before` with its unresolved provider requests closed: usage is
/// incomplete from then on, and a run with a token limit is stopped for it.
pub open spec fn closed_attempts(before: RunRecord, after: RunRecord) -> bool {
    if before.aggregates.usage_pending_requests == 0 {
        after == before
    } else if before.bounds.max_total_tokens is Some {
        &&& holds(after.terminal_result, "max_total_tokens_usage_unavailable"@)
        &&& holds(after.error_code, "max_total_tokens_usage_unavailable"@)
        &&& after == (RunRecord {
            aggregates: RunAggregates {
                usage_pending_requests: 0,
                usage_complete: false,
                ..before.aggregates
            },
            terminal_result: after.terminal_result,
            error_code: after.error_code,
            stop_cause: Some(RunStopCause::TokenAccountingUnavailable),
            ..before
        })
    } else {
        after == (RunRecord {
            aggregates: RunAggregates {
                usage_pending_requests: 0,
                usage_complete: false,
                ..before.aggregates
            },
            ..before
        })
    }
}

/// `after` is `before` ended by a restart.
pub open spec fn interrupted(before: RunRecord, after: RunRecord) -> bool {
    &&& holds(after.terminal_result, "interrupted"@)
    &&& holds(after.error_code, "interrupted"@)
    &&& after == (RunRecord {
        state: RunState::Interrupted,
        queue_position: None,
        terminal_result: after.terminal_result,
        error_code: after.error_code,
        stop_cause: Some(RunStopCause::Interrupted),
        execution: match before.execution {
            Some(e) => Some(RunExecution { promotion_state: PromotionState::Conflicted, ..e }),
            None => None,
        },
        ..before
    })
}

/// What a restart makes of a run: an unfinished one is interrupted, and open
/// provider requests are closed. A changed record gets the time of the restart.
pub open spec fn restarted(before: RunRecord, after: RunRecord, now: i128) -> bool {
    let unfinished = !before.state.terminal();
    let pending = before.aggregates.usage_pending_requests != 0;
    if !unfinished && !pending {
        after == before
    } else {
        exists|stopped: RunRecord, settled: RunRecord|
            {
                &&& #[trigger] closed_attempts(stopped, settled)
                &&& if unfinished {
                    interrupted(before, stopped)
                } else {
                    stopped == before
                }
                &&& after == (RunRecord { updated_at: now, ..settled })
            }
    }
}

impl RunRecord {
    /// The lane of the run: the session it was made in.
    pub fn lane_id(&self) -> (id: u128)
        ensures
            id == self.session_id,
    {
        self.session_id
    }

    /// Closes provider requests that can no longer be reconciled with a
    /// response, and says whether there were any.
    pub fn fail_closed_unresolved_provider_attempts(&mut self) -> (r: bool)
        ensures
            r == (old(self).aggregates.usage_pending_requests != 0),
            closed_attempts(*old(self), *final(self)),
    {
        if self.aggregates.usage_pending_requests == 0 {
            return false;
        }
        self.aggregates.usage_pending_requests = 0;
        self.aggregates.usage_complete = false;
        if self.bounds.max_total_tokens.is_some() {
            self.terminal_result = Some(copy("max_total_tokens_usage_unavailable"));
            self.error_code = Some(copy("max_total_tokens_usage_unavailable"));
            self.stop_cause = Some(RunStopCause::TokenAccountingUnavailable);
        }
        true
    }

    /// Ends a run that was not over.
    fn interrupt(&mut self)
        ensures
            interrupted(*old(self), *final(self)),
    {
        self.state = RunState::Interrupted;
        self.queue_position = None;
        self.terminal_result = Some(copy("interrupted"));
        self.error_code = Some(copy("interrupted"));
        self.stop_cause = Some(RunStopCause::Interrupted);
        let held: Option<RunExecution> = self.execution.take();
        match held {
            Some(mut e) => {
                e.promotion_state = PromotionState::Conflicted;
                self.execution = Some(e);
            },
            None => {},
        }
    }

    /// What a restart makes of this run. The answer says whether the run was
    /// unfinished, and whether the record changed.
    pub fn reconcile_restart(&mut self, now: i128) -> (r: (bool, bool))
        ensures
            r.0 == !old(self).state.terminal(),
            r.1 == (r.0 || old(self).aggregates.usage_pending_requests != 0),
            restarted(*old(self), *final(self), now),
    {
        let unfinished: bool = !self.state.is_terminal();
        if unfinished {
            self.interrupt();
        }
        let ghost stopped = *self;
        let pending: bool = self.fail_closed_unresolved_provider_attempts();
        let ghost settled = *self;
        proof {
            assert(closed_attempts(stopped, settled));
        }
        if unfinished || pending {
            self.updated_at = now;
        }
        (unfinished, unfinished || pending)
    }
}

/// How many of the first `n` runs were not over.
pub open spec fn unfinished_runs(runs: Seq<RunRecord>, n: int) -> nat
    decreases n,
{
    if n <= 0 {
        0
    } else {
        unfinished_runs(runs, n - 1) + if runs[n - 1].state.terminal() {
            0nat
        } else {
            1nat
        }
    }
}

/// A restart changes this run.
pub open spec fn touched_by_restart(run: RunRecord) -> bool {
    !run.state.terminal() || run.aggregates.usage_pending_requests != 0
}

/// The places of those of the first `n` runs that a restart changes.
pub open spec fn touched_places(runs: Seq<RunRecord>, n: int) -> Seq<usize>
    decreases n,
{
    if n <= 0 {
        Seq::empty()
    } else if touched_by_restart(runs[n - 1]) {
        touched_places(runs, n - 1).push((n - 1) as usize)
    } else {
        touched_places(runs, n - 1)
    }
}

/// What a restart makes of all runs. The answer is how many were not over, and
/// the places of those that are to be stored again.
pub fn mark_unfinished_interrupted(runs: &mut Vec<RunRecord>, now: i128) -> (r: (usize, Vec<usize>))
    ensures
        final(runs)@.len() == old(runs)@.len(),
        forall|i: int|
            0 <= i < old(runs)@.len() ==> restarted(
                #[trigger] old(runs)@[i],
                final(runs)@[i],
                now,
            ),
        r.0 == unfinished_runs(old(runs)@, old(runs)@.len() as int),
        r.1@ == touched_places(old(runs)@, old(runs)@.len() as int),
{
    let ghost before = runs@;
    let mut unfinished: usize = 0;
    let mut touched: Vec<usize> = Vec::new();
    let n: usize = runs.len();
    let mut i: usize = 0;
    while i < n
        invariant
            i <= n,
            n == before.len(),
            runs@.len() == before.len(),
            unfinished <= i,
            unfinished == unfinished_runs(before, i as int),
            touched@ == touched_places(before, i as int),
            forall|j: int| 0 <= j < i ==> restarted(#[trigger] before[j], runs@[j], now),
            forall|j: int| i <= j < n ==> runs@[j] == #[trigger] before[j],
        decreases n - i,
    {
        let (was_open, changed): (bool, bool) = runs[i].reconcile_restart(now);
        if was_open {
            unfinished = unfinished + 1;
        }
        if changed {
            touched.push(i);
        }
        i = i + 1;
    }
    (unfinished, touched)
}

/// After a restart no run is unfinished and no provider request is open.
pub proof fn restart_leaves_nothing_open(before: RunRecord, after: RunRecord, now: i128)
    requires
        restarted(before, after, now),
    ensures
        after.state.terminal(),
        after.aggregates.usage_pending_requests == 0,
        after.run_id == before.run_id,
        before.state.terminal() ==> after.state == before.state,
        before.aggregates.usage_pending_requests != 0 ==> !after.aggregates.usage_complete,
{
    if !before.state.terminal() || before.aggregates.usage_pending_requests != 0 {
        let (stopped, settled) = choose|stopped: RunRecord, settled: RunRecord|
            {
                &&& #[trigger] closed_attempts(stopped, settled)
                &&& if !before.state.terminal() {
                    interrupted(before, stopped)
                } else {
                    stopped == before
                }
                &&& after == (RunRecord { updated_at: now, ..settled })
            };
        assert(closed_attempts(stopped, settled));
    }
}

/// A second restart changes nothing.
pub proof fn restart_is_idempotent(before: RunRecord, once: RunRecord, twice: RunRecord, t: i128, u: i128)
    requires
        restarted(before, once, t),
        restarted(once, twice, u),
    ensures
        twice == once,
{
    restart_leaves_nothing_open(before, once, t);
}

/// A change with this path is among the first `n` of `c`.
pub open spec fn has_path(c: Seq<ChangeRecord>, path: Seq<char>) -> bool {
    exists|i: int| 0 <= i < c.len() && (#[trigger] c[i]).path@ == path
}

/// The changes of `t`, followed by those of `c` whose path is new.
pub open spec fn merged_changes(t: Seq<ChangeRecord>, c: Seq<ChangeRecord>) -> Seq<ChangeRecord>
    decreases c.len(),
{
    if c.len() == 0 {
        t
    } else {
        let m = merged_changes(t, c.drop_last());
        if has_path(m, c.last().path@) {
            m
        } else {
            m.push(c.last())
        }
    }
}

pub open spec fn has_call(c: Seq<TestObservation>, id: Seq<char>) -> bool {
    exists|i: int| 0 <= i < c.len() && (#[trigger] c[i]).call_id@ == id
}

/// The observations of `t`, followed by those of `c` whose call is new.
pub open spec fn merged_tests(t: Seq<TestObservation>, c: Seq<TestObservation>) -> Seq<
    TestObservation,
>
    decreases c.len(),
{
    if c.len() == 0 {
        t
    } else {
        let m = merged_tests(t, c.drop_last());
        if has_call(m, c.last().call_id@) {
            m
        } else {
            m.push(c.last())
        }
    }
}

pub open spec fn larger(a: u64, b: u64) -> u64 {
    if a >= b {
        a
    } else {
        b
    }
}

/// The larger of two cumulative counts, field by field.
pub open spec fn merged_usage(a: CompletionUsage, b: CompletionUsage) -> CompletionUsage {
    CompletionUsage {
        prompt_tokens: larger(a.prompt_tokens, b.prompt_tokens),
        completion_tokens: larger(a.completion_tokens, b.completion_tokens),
        total_tokens: larger(a.total_tokens, b.total_tokens),
        requests: larger(a.requests, b.requests),
    }
}

/// The run was stopped because its tokens could not be accounted for.
pub open spec fn accounting_stop(run: RunRecord) -> bool {
    run.stop_cause == Some(RunStopCause::TokenAccountingUnavailable)
}

/// The code of a run stopped by its token limit.
pub open spec fn token_code(code: Option<String>) -> bool {
    code is Some && has_prefix(code->0@, "max_total_tokens_"@)
}

/// The later of two reports of progress, the given one where both are alike.
pub open spec fn merged_progress(
    target: Option<RunProgress>,
    current: Option<RunProgress>,
) -> Option<RunProgress> {
    if target is None || (current is Some && current->0.updated_at > target->0.updated_at) {
        current
    } else {
        target
    }
}

/// `after` is `target` with the observations of `current` taken over.
pub open spec fn merged_run(target: RunRecord, current: RunRecord, after: RunRecord) -> bool {
    let usage = merged_usage(target.aggregates.usage, current.aggregates.usage);
    &&& after.aggregates.changes@ == merged_changes(
        target.aggregates.changes@,
        current.aggregates.changes@,
    )
    &&& after.aggregates.tests@ == merged_tests(
        target.aggregates.tests@,
        current.aggregates.tests@,
    )
    &&& after == (RunRecord {
        aggregates: RunAggregates {
            changes: after.aggregates.changes,
            tests: after.aggregates.tests,
            usage,
            usage_complete: target.aggregates.usage_complete && current.aggregates.usage_complete,
            usage_pending_requests: if accounting_stop(target) {
                target.aggregates.usage_pending_requests
            } else {
                current.aggregates.usage_pending_requests
            },
            verification: match target.aggregates.verification {
                Some(v) => Some(CompletionEvidence { usage, ..v }),
                None => None,
            },
            ..target.aggregates
        },
        stop_cause: if current.stop_cause is Some && !accounting_stop(target) {
            current.stop_cause
        } else {
            target.stop_cause
        },
        error_code: if token_code(current.error_code) {
            current.error_code
        } else {
            target.error_code
        },
        progress: merged_progress(target.progress, current.progress),
        ..target
    })
}

fn contains_path(c: &Vec<ChangeRecord>, path: &str) -> (r: bool)
    ensures
        r == has_path(c@, path@),
{
    let mut i: usize = 0;
    while i < c.len()
        invariant
            i <= c@.len(),
            forall|j: int| 0 <= j < i ==> (#[trigger] c@[j]).path@ != path@,
        decreases c.len() - i,
    {
        if str_eq(c[i].path.as_str(), path) {
            return true;
        }
        i = i + 1;
    }
    false
}

fn contains_call(c: &Vec<TestObservation>, id: &str) -> (r: bool)
    ensures
        r == has_call(c@, id@),
{
    let mut i: usize = 0;
    while i < c.len()
        invariant
            i <= c@.len(),
            forall|j: int| 0 <= j < i ==> (#[trigger] c@[j]).call_id@ != id@,
        decreases c.len() - i,
    {
        if str_eq(c[i].call_id.as_str(), id) {
            return true;
        }
        i = i + 1;
    }
    false
}

fn merge_changes(target: &mut Vec<ChangeRecord>, current: &Vec<ChangeRecord>)
    ensures
        final(target)@ == merged_changes(old(target)@, current@),
{
    let ghost before = target@;
    let mut i: usize = 0;
    proof {
        assert(current@.take(0).len() == 0);
    }
    while i < current.len()
        invariant
            i <= current@.len(),
            target@ == merged_changes(before, current@.take(i as int)),
        decreases current.len() - i,
    {
        proof {
            assert(current@.take(i as int + 1).drop_last() =~= current@.take(i as int));
        }
        if !contains_path(target, current[i].path.as_str()) {
            target.push(current[i].clone());
        }
        i = i + 1;
    }
    proof {
        assert(current@.take(current@.len() as int) =~= current@);
    }
}

fn merge_tests(target: &mut Vec<TestObservation>, current: &Vec<TestObservation>)
    ensures
        final(target)@ == merged_tests(old(target)@, current@),
{
    let ghost before = target@;
    let mut i: usize = 0;
    proof {
        assert(current@.take(0).len() == 0);
    }
    while i < current.len()
        invariant
            i <= current@.len(),
            target@ == merged_tests(before, current@.take(i as int)),
        decreases current.len() - i,
    {
        proof {
            assert(current@.take(i as int + 1).drop_last() =~= current@.take(i as int));
        }
        if !contains_call(target, current[i].call_id.as_str()) {
            target.push(current[i].clone());
        }
        i = i + 1;
    }
    proof {
        assert(current@.take(current@.len() as int) =~= current@);
    }
}

fn max_u64(a: u64, b: u64) -> (r: u64)
    ensures
        r == larger(a, b),
{
    if a >= b {
        a
    } else {
        b
    }
}

fn stopped_by_accounting(cause: Option<RunStopCause>) -> (r: bool)
    ensures
        r == (cause == Some(RunStopCause::TokenAccountingUnavailable)),
{
    match cause {
        Some(RunStopCause::TokenAccountingUnavailable) => true,
        _ => false,
    }
}

/// Takes the observations of the record on file over into a finished run.
/// Counts are cumulative, so the larger ones stand; missing usage is sticky;
/// a stop that closed the accounting of the run is kept.
pub fn merge_run_observations(target: &mut RunRecord, current: &RunRecord)
    ensures
        merged_run(*old(target), *current, *final(target)),
{
    merge_changes(&mut target.aggregates.changes, &current.aggregates.changes);
    merge_tests(&mut target.aggregates.tests, &current.aggregates.tests);
    let ours: CompletionUsage = target.aggregates.usage;
    let theirs: CompletionUsage = current.aggregates.usage;
    let usage = CompletionUsage {
        prompt_tokens: max_u64(ours.prompt_tokens, theirs.prompt_tokens),
        completion_tokens: max_u64(ours.completion_tokens, theirs.completion_tokens),
        total_tokens: max_u64(ours.total_tokens, theirs.total_tokens),
        requests: max_u64(ours.requests, theirs.requests),
    };
    target.aggregates.usage = usage;
    target.aggregates.usage_complete = target.aggregates.usage_complete
        && current.aggregates.usage_complete;
    if !stopped_by_accounting(target.stop_cause) {
        target.aggregates.usage_pending_requests = current.aggregates.usage_pending_requests;
    }
    let held: Option<CompletionEvidence> = target.aggregates.verification.take();
    match held {
        Some(mut v) => {
            v.usage = usage;
            target.aggregates.verification = Some(v);
        },
        None => {},
    }
    if current.stop_cause.is_some() && !stopped_by_accounting(target.stop_cause) {
        target.stop_cause = current.stop_cause;
    }
    let by_tokens: bool = match &current.error_code {
        Some(code) => str_starts_with(code.as_str(), "max_total_tokens_"),
        None => false,
    };
    if by_tokens {
        target.error_code = copy_option(&current.error_code);
    }
    let newer: bool = match (&current.progress, &target.progress) {
        (_, None) => true,
        (Some(c), Some(t)) => c.updated_at > t.updated_at,
        (None, Some(_)) => false,
    };
    if newer {
        target.progress = match &current.progress {
            Some(p) => Some(p.clone()),
            None => None,
        };
    }
}

/// `after` is what is stored when `candidate` finishes over a record `current`
/// that could be read: a run already over keeps how it ended, unless the
/// accounting of its tokens was closed.
pub open spec fn finalized(candidate: RunRecord, current: RunRecord, after: RunRecord) -> bool {
    exists|merged: RunRecord|
        {
            &&& #[trigger] merged_run(candidate, current, merged)
            &&& if !current.state.terminal() {
                after == merged
            } else if accounting_stop(merged) {
                &&& holds(after.terminal_result, "max_total_tokens_usage_unavailable"@)
                &&& holds(after.error_code, "max_total_tokens_usage_unavailable"@)
                &&& after == (RunRecord {
                    state: current.state,
                    final_response: current.final_response,
                    terminal_result: after.terminal_result,
                    error_code: after.error_code,
                    ..merged
                })
            } else {
                after == (RunRecord {
                    state: current.state,
                    final_response: current.final_response,
                    terminal_result: current.terminal_result,
                    error_code: current.error_code,
                    ..merged
                })
            }
        }
}

/// What the end of a run comes to on record.
pub open spec fn finalizing(
    candidate: RunRecord,
    current: Option<RunRecord>,
    r: Result<RunRecord, String>,
) -> bool {
    &&& (!candidate.state.terminal() ==> r is Err && r->Err_0@
        == "finalization candidate must be terminal"@)
    &&& (candidate.state.terminal() ==> r is Ok && (match current {
        None => r->Ok_0 == candidate,
        Some(c) => finalized(candidate, c, r->Ok_0),
    }))
}

/// The record to store for a finished run. `current` is what is on file, if it
/// could be read. Only a run that is over may be finalized.
pub fn finalize_run(candidate: RunRecord, current: Option<&RunRecord>) -> (r: Result<
    RunRecord,
    String,
>)
    ensures
        finalizing(
            candidate,
            match current {
                Some(c) => Some(*c),
                None => None,
            },
            r,
        ),
{
    if !candidate.state.is_terminal() {
        return Err(copy("finalization candidate must be terminal"));
    }
    let mut run: RunRecord = candidate;
    match current {
        None => {},
        Some(c) => {
            merge_run_observations(&mut run, c);
            let ghost merged = run;
            proof {
                assert(merged_run(candidate, *c, merged));
            }
            if c.state.is_terminal() {
                run.state = c.state;
                run.final_response = copy_option(&c.final_response);
                if stopped_by_accounting(run.stop_cause) {
                    run.terminal_result = Some(copy("max_total_tokens_usage_unavailable"));
                    run.error_code = Some(copy("max_total_tokens_usage_unavailable"));
                } else {
                    run.terminal_result = copy_option(&c.terminal_result);
                    run.error_code = copy_option(&c.error_code);
                }
            }
        },
    }
    Ok(run)
}

/// Finalizing ends the run, never loses measured usage, never turns incomplete
/// usage complete, and keeps the state of a run already over.
pub proof fn finalizing_is_monotone(candidate: RunRecord, current: RunRecord, after: RunRecord)
    requires
        candidate.state.terminal(),
        finalized(candidate, current, after),
    ensures
        after.state.terminal(),
        current.state.terminal() ==> after.state == current.state,
        after.aggregates.usage.prompt_tokens >= current.aggregates.usage.prompt_tokens,
        after.aggregates.usage.completion_tokens >= current.aggregates.usage.completion_tokens,
        after.aggregates.usage.total_tokens >= current.aggregates.usage.total_tokens,
        after.aggregates.usage.requests >= current.aggregates.usage.requests,
        after.aggregates.usage.total_tokens >= candidate.aggregates.usage.total_tokens,
        !current.aggregates.usage_complete ==> !after.aggregates.usage_complete,
        !candidate.aggregates.usage_complete ==> !after.aggregates.usage_complete,
        accounting_stop(candidate) ==> accounting_stop(after),
        accounting_stop(current) ==> accounting_stop(after),
{
    let merged = choose|merged: RunRecord|
        {
            &&& #[trigger] merged_run(candidate, current, merged)
            &&& if !current.state.terminal() {
                after == merged
            } else if accounting_stop(merged) {
                &&& holds(after.terminal_result, "max_total_tokens_usage_unavailable"@)
                &&& holds(after.error_code, "max_total_tokens_usage_unavailable"@)
                &&& after == (RunRecord {
                    state: current.state,
                    final_response: current.final_response,
                    terminal_result: after.terminal_result,
                    error_code: after.error_code,
                    ..merged
                })
            } else {
                after == (RunRecord {
                    state: current.state,
                    final_response: current.final_response,
                    terminal_result: current.terminal_result,
                    error_code: current.error_code,
                    ..merged
                })
            }
        };
    assert(merged_run(candidate, current, merged));
}

} // verus!
