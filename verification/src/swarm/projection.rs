//! Secret-free projections of a work graph for operators.
//!
//! Every row is built by naming the fields it carries, never by writing out a
//! durable record as a whole: a credential reference has no field to land in,
//! and all free-form text passes the caller's redactor and a bound.

use crate::identity::{uuid_display, uuid_text};
use crate::order::{order_of, ranks, sorted_order, Rank, SortKey};
use crate::swarm::attempts::{total_tokens, usage_total};
use crate::swarm::authority::{AttemptState, ProviderAttemptRecord, RetryClass, SendCertainty};
use crate::swarm::ids::WorkId;
use crate::swarm::scheduler::{latest_attempt, AdmissionBlock};
use crate::swarm::spec::{role_at, work_at, WorkSpec, WorkerRole};
use crate::swarm::state::{
    slots_held, truncate_text, uncertain, EvidenceEntry, GraphLifecycle, LeaseRecord, LeaseState,
    ReviewVerdict, WorkGraphRecord, WorkRecord, WorkState,
};
use crate::text::{
    copy, fitted, fitted_is_longest, str_eq, str_lt, text_lt, text_lt_total, text_lt_transitive,
    utf8_len,
};
use vstd::prelude::*;
use vstd::string::*;

verus! {

/// Most bytes of free-form text in any projected field.
pub const MAX_PROJECTED_TEXT_BYTES: usize = 500;

/// How a caller redacts free-form text before it is projected.
pub trait Redactor {
    /// This redactor may be asked about a text.
    spec fn takes(&self, text: &str, max_bytes: usize) -> bool;

    /// This redactor makes `out` of a text.
    spec fn gives(&self, text: &str, max_bytes: usize, out: String) -> bool;

    fn redact(&self, text: &str, max_bytes: usize) -> (r: String)
        requires
            self.takes(text, max_bytes),
        ensures
            self.gives(text, max_bytes, r),
    ;
}

/// A redactor that only bounds text, for where no secrets are registered.
#[derive(Debug, Clone, Copy)]
pub struct BoundOnlyRedactor;

impl Redactor for BoundOnlyRedactor {
    open spec fn takes(&self, text: &str, max_bytes: usize) -> bool {
        true
    }

    open spec fn gives(&self, text: &str, max_bytes: usize, out: String) -> bool {
        out@ == fitted(text@, max_bytes as nat)
    }

    fn redact(&self, text: &str, max_bytes: usize) -> (r: String) {
        truncate_text(text, max_bytes)
    }
}

/// Any function from a text and a bound to a text is a redactor.
impl<F: Fn(&str, usize) -> String> Redactor for F {
    open spec fn takes(&self, text: &str, max_bytes: usize) -> bool {
        call_requires(*self, (text, max_bytes))
    }

    open spec fn gives(&self, text: &str, max_bytes: usize, out: String) -> bool {
        call_ensures(*self, (text, max_bytes), out)
    }

    fn redact(&self, text: &str, max_bytes: usize) -> (r: String) {
        self(text, max_bytes)
    }
}

/// A redactor that may be asked about every text that is projected.
pub open spec fn serves<R: Redactor>(redactor: R) -> bool {
    forall|text: &str| #[trigger] redactor.takes(text, MAX_PROJECTED_TEXT_BYTES)
}

/// `out` shows a text: what the redactor leaves of it, cut to the bound.
pub open spec fn shows<R: Redactor>(redactor: R, text: Seq<char>, out: Seq<char>) -> bool {
    exists|t: &str, r: String|
        t@ == text && #[trigger] redactor.gives(t, MAX_PROJECTED_TEXT_BYTES, r) && out == fitted(
            r@,
            MAX_PROJECTED_TEXT_BYTES as nat,
        )
}

/// `out` shows an optional text.
pub open spec fn shows_text<R: Redactor>(
    out: Option<String>,
    redactor: R,
    text: Option<String>,
) -> bool {
    match text {
        Some(t) => out is Some && shows(redactor, t@, out->0@),
        None => out is None,
    }
}

fn project_text<R: Redactor>(redactor: &R, text: &str) -> (r: String)
    requires
        serves(*redactor),
    ensures
        shows(*redactor, text@, r@),
{
    let left: String = redactor.redact(text, MAX_PROJECTED_TEXT_BYTES);
    truncate_text(left.as_str(), MAX_PROJECTED_TEXT_BYTES)
}

fn project_option<R: Redactor>(redactor: &R, text: &Option<String>) -> (r: Option<String>)
    requires
        serves(*redactor),
    ensures
        shows_text(r, *redactor, *text),
{
    match text {
        Some(t) => Some(project_text(redactor, t.as_str())),
        None => None,
    }
}

/// One row of graph progress.
#[derive(Debug)]
pub struct WorkProgressRow {
    pub work_id: String,
    pub worker_id: String,
    pub role: String,
    pub state: WorkState,
    pub attempts: u32,
    pub priority: i32,
    pub depends_on: Vec<String>,
    pub verdict: Option<ReviewVerdict>,
    pub summary: Option<String>,
    pub last_error: Option<String>,
    /// Secret-free provider attribution of the item's latest attempt.
    pub attribution_key: Option<String>,
    pub updated_at: i128,
}

/// One row of redacted evidence.
#[derive(Debug)]
pub struct EvidenceRow {
    pub work_id: String,
    pub label: String,
    pub detail: String,
}

/// One lease, as an operator sees it.
#[derive(Debug)]
pub struct LeaseRow {
    pub lease_id: String,
    pub work_id: String,
    pub worker_id: String,
    pub attempt: u32,
    pub epoch: u64,
    pub state: LeaseState,
    /// Whether a Computer Use grant is bound, never which one.
    pub computer_use_bound: bool,
    pub issued_at: i128,
    pub expires_at: i128,
    pub uncertain_reason: Option<String>,
}

/// Secret-free accounting for one provider.
#[derive(Debug)]
pub struct ProviderAttributionRow {
    pub attribution_key: String,
    pub attempts: u32,
    pub finished: u32,
    pub uncertain: u32,
    pub tokens: u64,
}

/// Status of the whole graph.
#[derive(Debug)]
pub struct GraphStatusProjection {
    pub graph_id: String,
    pub session_id: String,
    pub agent_id: String,
    pub revision: u64,
    pub epoch: u64,
    pub lifecycle: GraphLifecycle,
    pub work_total: usize,
    pub in_flight: usize,
    pub succeeded: usize,
    pub failed: usize,
    pub blocked: usize,
    pub discarded: usize,
    pub uncertain: usize,
    /// Some child's fate is unknown: nothing should be concluded yet.
    pub needs_operator_attention: bool,
    pub attempts_used: u32,
    pub max_total_attempts: u32,
    pub tokens_used: u64,
    pub max_total_tokens: u64,
    pub admissions_refused: u64,
    pub admission_block: Option<AdmissionBlock>,
    pub stop_reason: Option<String>,
    pub deadline_at: i128,
    pub updated_at: i128,
}

/// Everything an operator surface needs.
#[derive(Debug)]
pub struct GraphProjection {
    pub status: GraphStatusProjection,
    pub work: Vec<WorkProgressRow>,
    pub leases: Vec<LeaseRow>,
    pub attribution: Vec<ProviderAttributionRow>,
}

/// What the status counts.
#[derive(Debug, Clone, Copy, PartialEq, Eq, Structural)]
pub enum Counted {
    Succeeded,
    /// Failed or timed out.
    Failed,
    Blocked,
    Discarded,
    Uncertain,
}

impl Counted {
    /// An item in this state is counted.
    pub open spec fn includes(self, s: WorkState) -> bool {
        match self {
            Counted::Succeeded => s is Succeeded,
            Counted::Failed => s is Failed || s is TimedOut,
            Counted::Blocked => s is Blocked,
            Counted::Discarded => s is Discarded,
            Counted::Uncertain => s is DispatchUncertain,
        }
    }
}

/// How many of the first `n` items are counted.
pub open spec fn counted(work: Seq<WorkRecord>, kind: Counted, n: int) -> nat
    decreases n,
{
    if n <= 0 {
        0
    } else {
        counted(work, kind, n - 1) + if kind.includes(work[n - 1].state) {
            1nat
        } else {
            0nat
        }
    }
}

fn count_work(work: &Vec<WorkRecord>, kind: Counted) -> (n: usize)
    ensures
        n == counted(work@, kind, work@.len() as int),
{
    let mut n: usize = 0;
    let mut i: usize = 0;
    while i < work.len()
        invariant
            i <= work@.len(),
            n <= i,
            n == counted(work@, kind, i as int),
        decreases work.len() - i,
    {
        let s: WorkState = work[i].state;
        let yes: bool = match kind {
            Counted::Succeeded => s == WorkState::Succeeded,
            Counted::Failed => s == WorkState::Failed || s == WorkState::TimedOut,
            Counted::Blocked => s == WorkState::Blocked,
            Counted::Discarded => s == WorkState::Discarded,
            Counted::Uncertain => s == WorkState::DispatchUncertain,
        };
        if yes {
            n = n + 1;
        }
        i = i + 1;
    }
    n
}

/// `p` is the status of `g`.
pub open spec fn is_status<R: Redactor>(
    p: GraphStatusProjection,
    g: WorkGraphRecord,
    block: Option<AdmissionBlock>,
    redactor: R,
) -> bool {
    let n = g.work@.len() as int;
    &&& p.graph_id@ == g.graph_id@
    &&& p.session_id@ == uuid_display(g.session_id)
    &&& shows(redactor, g.agent_id@, p.agent_id@)
    &&& p.revision == g.revision
    &&& p.epoch == g.epoch
    &&& p.lifecycle == g.lifecycle
    &&& p.work_total == n
    &&& p.in_flight == slots_held(g.work@, n)
    &&& p.succeeded == counted(g.work@, Counted::Succeeded, n)
    &&& p.failed == counted(g.work@, Counted::Failed, n)
    &&& p.blocked == counted(g.work@, Counted::Blocked, n)
    &&& p.discarded == counted(g.work@, Counted::Discarded, n)
    &&& p.uncertain == counted(g.work@, Counted::Uncertain, n)
    &&& p.needs_operator_attention == uncertain(g)
    &&& p.attempts_used == g.budget.attempts_used
    &&& p.max_total_attempts == g.spec.budget.max_total_attempts
    &&& p.tokens_used == g.budget.tokens_used
    &&& p.max_total_tokens == g.spec.budget.max_total_tokens
    &&& p.admissions_refused == g.budget.admissions_refused
    &&& p.admission_block == if block == Some(AdmissionBlock::Clear) {
        None
    } else {
        block
    }
    &&& shows_text(p.stop_reason, redactor, g.stop_reason)
    &&& p.deadline_at == g.deadline_at
    &&& p.updated_at == g.updated_at
}

/// Projects the status of the whole graph.
pub fn project_status<R: Redactor>(
    record: &WorkGraphRecord,
    admission_block: Option<AdmissionBlock>,
    redactor: &R,
) -> (p: GraphStatusProjection)
    requires
        serves(*redactor),
    ensures
        is_status(p, *record, admission_block, *redactor),
{
    GraphStatusProjection {
        graph_id: copy(record.graph_id.as_str()),
        session_id: uuid_text(record.session_id),
        agent_id: project_text(redactor, record.agent_id.as_str()),
        revision: record.revision,
        epoch: record.epoch,
        lifecycle: record.lifecycle,
        work_total: record.work.len(),
        in_flight: record.in_flight(),
        succeeded: count_work(&record.work, Counted::Succeeded),
        failed: count_work(&record.work, Counted::Failed),
        blocked: count_work(&record.work, Counted::Blocked),
        discarded: count_work(&record.work, Counted::Discarded),
        uncertain: count_work(&record.work, Counted::Uncertain),
        needs_operator_attention: record.has_uncertainty(),
        attempts_used: record.budget.attempts_used,
        max_total_attempts: record.spec.budget.max_total_attempts,
        tokens_used: record.budget.tokens_used,
        max_total_tokens: record.spec.budget.max_total_tokens,
        admissions_refused: record.budget.admissions_refused,
        admission_block: match admission_block {
            Some(AdmissionBlock::Clear) => None,
            other => other,
        },
        stop_reason: project_option(redactor, &record.stop_reason),
        deadline_at: record.deadline_at,
        updated_at: record.updated_at,
    }
}

/// The name of a role.
pub open spec fn role_name(role: WorkerRole) -> Seq<char> {
    match role {
        WorkerRole::Investigate => "investigate"@,
        WorkerRole::Build => "build"@,
        WorkerRole::Review => "review"@,
        WorkerRole::Synthesize => "synthesize"@,
    }
}

fn role_text(role: WorkerRole) -> (s: String)
    ensures
        s@ == role_name(role),
{
    match role {
        WorkerRole::Investigate => copy("investigate"),
        WorkerRole::Build => copy("build"),
        WorkerRole::Review => copy("review"),
        WorkerRole::Synthesize => copy("synthesize"),
    }
}

/// The items among the first `n` whose role is known: those that are shown.
pub open spec fn projected_items(g: WorkGraphRecord, n: int) -> Seq<int>
    decreases n,
{
    if n <= 0 {
        Seq::empty()
    } else if role_at(g.spec, g.work@[n - 1].work_id@) is Some {
        projected_items(g, n - 1).push(n - 1)
    } else {
        projected_items(g, n - 1)
    }
}

/// `row` shows the item at `i`.
pub open spec fn is_progress<R: Redactor>(
    row: WorkProgressRow,
    g: WorkGraphRecord,
    i: int,
    redactor: R,
) -> bool {
    let w = g.work@[i];
    let item = g.spec.work@[work_at(g.spec.work@, w.work_id@)->0];
    &&& row.work_id@ == w.work_id@
    &&& row.worker_id@ == item.worker_id@
    &&& row.role@ == role_name(role_at(g.spec, w.work_id@)->0)
    &&& row.state == w.state
    &&& row.attempts == w.attempts
    &&& row.priority == item.priority
    &&& row.depends_on@.len() == item.depends_on@.len()
    &&& forall|k: int|
        0 <= k < item.depends_on@.len() ==> (#[trigger] row.depends_on@[k])@
            == item.depends_on@[k]@
    &&& row.verdict == w.verdict
    &&& shows_text(row.summary, redactor, w.summary)
    &&& shows_text(row.last_error, redactor, w.last_error)
    &&& match latest_attempt(g.attempts@, w.work_id@, g.attempts@.len() as int) {
        Some(k) => row.attribution_key == Some(g.attempts@[k].attribution_key),
        None => row.attribution_key is None,
    }
    &&& row.updated_at == w.updated_at
}

/// By identity.
pub open spec fn item_ranks(g: WorkGraphRecord, items: Seq<int>) -> Seq<Rank> {
    Seq::new(
        items.len(),
        |j: int| Rank { rank: 0, minor: 0, first: g.work@[items[j]].work_id@, second: Seq::empty() },
    )
}

/// The rows show the items, in the order of their identities.
pub open spec fn is_progress_list<R: Redactor>(
    rows: Seq<WorkProgressRow>,
    g: WorkGraphRecord,
    redactor: R,
) -> bool {
    let items = projected_items(g, g.work@.len() as int);
    let order = order_of(item_ranks(g, items));
    &&& rows.len() == items.len()
    &&& forall|j: int|
        0 <= j < rows.len() ==> is_progress(
            #[trigger] rows[j],
            g,
            items[order[j] as int],
            redactor,
        )
}

fn latest_key(record: &WorkGraphRecord, work_id: &WorkId) -> (r: Option<String>)
    ensures
        match latest_attempt(record.attempts@, work_id@, record.attempts@.len() as int) {
            Some(k) => r == Some(record.attempts@[k].attribution_key),
            None => r is None,
        },
{
    let mut latest: Option<usize> = None;
    let mut i: usize = 0;
    while i < record.attempts.len()
        invariant
            i <= record.attempts@.len(),
            match latest {
                Some(j) => j < i && latest_attempt(record.attempts@, work_id@, i as int) == Some(
                    j as int,
                ),
                None => latest_attempt(record.attempts@, work_id@, i as int) is None,
            },
        decreases record.attempts.len() - i,
    {
        if record.attempts[i].work_id.same(work_id) {
            match latest {
                None => {
                    latest = Some(i);
                },
                Some(j) => {
                    if record.attempts[j].ordinal <= record.attempts[i].ordinal {
                        latest = Some(i);
                    }
                },
            }
        }
        i = i + 1;
    }
    match latest {
        Some(j) => Some(record.attempts[j].attribution_key.clone()),
        None => None,
    }
}

fn id_strings(ids: &Vec<WorkId>) -> (r: Vec<String>)
    ensures
        r@.len() == ids@.len(),
        forall|k: int| 0 <= k < ids@.len() ==> (#[trigger] r@[k])@ == ids@[k]@,
{
    let mut r: Vec<String> = Vec::new();
    let mut i: usize = 0;
    while i < ids.len()
        invariant
            i <= ids@.len(),
            r@.len() == i,
            forall|k: int| 0 <= k < i ==> (#[trigger] r@[k])@ == ids@[k]@,
        decreases ids.len() - i,
    {
        r.push(copy(ids[i].as_str()));
        i = i + 1;
    }
    r
}

fn project_item<R: Redactor>(
    record: &WorkGraphRecord,
    i: usize,
    item: &WorkSpec,
    role: WorkerRole,
    redactor: &R,
) -> (row: WorkProgressRow)
    requires
        serves(*redactor),
        i < record.work@.len(),
        work_at(record.spec.work@, record.work@[i as int].work_id@) is Some,
        *item == record.spec.work@[work_at(
            record.spec.work@,
            record.work@[i as int].work_id@,
        )->0],
        role_at(record.spec, record.work@[i as int].work_id@) == Some(role),
    ensures
        is_progress(row, *record, i as int, *redactor),
{
    let w: &WorkRecord = &record.work[i];
    WorkProgressRow {
        work_id: copy(w.work_id.as_str()),
        worker_id: copy(item.worker_id.as_str()),
        role: role_text(role),
        state: w.state,
        attempts: w.attempts,
        priority: item.priority,
        depends_on: id_strings(&item.depends_on),
        verdict: w.verdict,
        summary: project_option(redactor, &w.summary),
        last_error: project_option(redactor, &w.last_error),
        attribution_key: latest_key(record, &w.work_id),
        updated_at: w.updated_at,
    }
}

fn text_key(first: &str, second: &str) -> (k: SortKey)
    ensures
        k@ == (Rank { rank: 0, minor: 0, first: first@, second: second@ }),
{
    SortKey { rank: 0, minor: 0, first: copy(first), second: copy(second) }
}

proof fn projected_items_are_items(g: WorkGraphRecord, n: int)
    requires
        0 <= n <= g.work@.len(),
    ensures
        forall|j: int|
            0 <= j < projected_items(g, n).len() ==> 0 <= #[trigger] projected_items(g, n)[j] < n
                && role_at(g.spec, g.work@[projected_items(g, n)[j]].work_id@) is Some,
    decreases n,
{
    if n > 0 {
        projected_items_are_items(g, n - 1);
    }
}

/// Projects the progress of every item, in the order of identities.
pub fn project_work<R: Redactor>(record: &WorkGraphRecord, redactor: &R) -> (rows: Vec<
    WorkProgressRow,
>)
    requires
        serves(*redactor),
    ensures
        is_progress_list(rows@, *record, *redactor),
{
    let mut found: Vec<usize> = Vec::new();
    let mut keys: Vec<SortKey> = Vec::new();
    let mut i: usize = 0;
    while i < record.work.len()
        invariant
            i <= record.work@.len(),
            found@.len() == projected_items(*record, i as int).len(),
            keys@.len() == found@.len(),
            forall|j: int|
                0 <= j < found@.len() ==> #[trigger] found@[j] == projected_items(
                    *record,
                    i as int,
                )[j],
            forall|j: int|
                0 <= j < keys@.len() ==> (#[trigger] keys@[j])@ == item_ranks(
                    *record,
                    projected_items(*record, i as int),
                )[j],
        decreases record.work.len() - i,
    {
        match record.spec.role_of(&record.work[i].work_id) {
            Some(_) => {
                found.push(i);
                keys.push(text_key(record.work[i].work_id.as_str(), ""));
                proof {
                    reveal_strlit("");
                    assert(""@ =~= Seq::<char>::empty());
                }
            },
            None => {},
        }
        i = i + 1;
    }
    let ghost items = projected_items(*record, record.work@.len() as int);
    let order: Vec<usize> = sorted_order(&keys);
    proof {
        assert(ranks(keys@) =~= item_ranks(*record, items));
        projected_items_are_items(*record, record.work@.len() as int);
    }
    let mut rows: Vec<WorkProgressRow> = Vec::new();
    let mut k: usize = 0;
    while k < order.len()
        invariant
            k <= order@.len(),
            serves(*redactor),
            order@.len() == found@.len(),
            found@.len() == items.len(),
            items == projected_items(*record, record.work@.len() as int),
            order@ == order_of(item_ranks(*record, items)),
            forall|j: int| 0 <= j < order@.len() ==> 0 <= #[trigger] order@[j] < found@.len(),
            forall|j: int| 0 <= j < found@.len() ==> #[trigger] found@[j] == items[j],
            forall|j: int|
                0 <= j < items.len() ==> 0 <= #[trigger] items[j] < record.work@.len(),
            forall|j: int|
                0 <= j < items.len() ==> role_at(
                    record.spec,
                    record.work@[#[trigger] items[j]].work_id@,
                ) is Some,
            rows@.len() == k,
            forall|j: int|
                0 <= j < k ==> is_progress(
                    #[trigger] rows@[j],
                    *record,
                    items[order@[j] as int],
                    *redactor,
                ),
        decreases order.len() - k,
    {
        let i: usize = found[order[k]];
        proof {
            assert(found@[order@[k as int] as int] == items[order@[k as int] as int]);
        }
        match (
            record.spec.work_item(&record.work[i].work_id),
            record.spec.role_of(&record.work[i].work_id),
        ) {
            (Some(item), Some(role)) => {
                rows.push(project_item(record, i, item, role, redactor));
            },
            _ => {
                proof {
                    assert(false);
                }
            },
        }
        k = k + 1;
    }
    rows
}

/// The evidence of the first `n` items, each entry with the position of its
/// item.
pub open spec fn all_evidence(work: Seq<WorkRecord>, n: int) -> Seq<(int, EvidenceEntry)>
    decreases n,
{
    if n <= 0 {
        Seq::empty()
    } else {
        all_evidence(work, n - 1) + Seq::new(
            work[n - 1].evidence@.len(),
            |k: int| (n - 1, work[n - 1].evidence@[k]),
        )
    }
}

/// By the item's identity, and then by the label shown.
pub open spec fn evidence_ranks(rows: Seq<EvidenceRow>) -> Seq<Rank> {
    Seq::new(
        rows.len(),
        |j: int|
            Rank { rank: 0, minor: 0, first: rows[j].work_id@, second: rows[j].label@ },
    )
}

/// `row` shows a piece of evidence of the item at `e.0`.
pub open spec fn is_evidence<R: Redactor>(
    row: EvidenceRow,
    g: WorkGraphRecord,
    e: (int, EvidenceEntry),
    redactor: R,
) -> bool {
    &&& row.work_id@ == g.work@[e.0].work_id@
    &&& shows(redactor, e.1.label@, row.label@)
    &&& shows(redactor, e.1.detail@, row.detail@)
}

/// The rows show all evidence, one each, in the order it was recorded.
pub open spec fn is_gathered<R: Redactor>(
    rows: Seq<EvidenceRow>,
    g: WorkGraphRecord,
    redactor: R,
) -> bool {
    let all = all_evidence(g.work@, g.work@.len() as int);
    &&& rows.len() == all.len()
    &&& forall|j: int| 0 <= j < rows.len() ==> is_evidence(#[trigger] rows[j], g, all[j], redactor)
}

/// The rows show all evidence, one each, in order.
pub open spec fn is_evidence_list<R: Redactor>(
    rows: Seq<EvidenceRow>,
    g: WorkGraphRecord,
    redactor: R,
) -> bool {
    exists|gathered: Seq<EvidenceRow>|
        {
            let order = order_of(evidence_ranks(gathered));
            &&& #[trigger] is_gathered(gathered, g, redactor)
            &&& rows.len() == gathered.len()
            &&& forall|j: int| 0 <= j < rows.len() ==> #[trigger] rows[j] == gathered[order[j] as int]
        }
}

fn row_keys(rows: &Vec<EvidenceRow>) -> (keys: Vec<SortKey>)
    ensures
        keys@.len() == rows@.len(),
        forall|j: int|
            0 <= j < rows@.len() ==> (#[trigger] keys@[j])@ == (Rank {
                rank: 0,
                minor: 0,
                first: rows@[j].work_id@,
                second: rows@[j].label@,
            }),
{
    let mut keys: Vec<SortKey> = Vec::new();
    let mut i: usize = 0;
    while i < rows.len()
        invariant
            i <= rows@.len(),
            keys@.len() == i,
            forall|j: int|
                0 <= j < i ==> (#[trigger] keys@[j])@ == (Rank {
                    rank: 0,
                    minor: 0,
                    first: rows@[j].work_id@,
                    second: rows@[j].label@,
                }),
        decreases rows.len() - i,
    {
        keys.push(text_key(rows[i].work_id.as_str(), rows[i].label.as_str()));
        i = i + 1;
    }
    keys
}

fn gather_evidence<R: Redactor>(record: &WorkGraphRecord, redactor: &R) -> (rows: Vec<EvidenceRow>)
    requires
        serves(*redactor),
    ensures
        is_gathered(rows@, *record, *redactor),
{
    let mut rows: Vec<EvidenceRow> = Vec::new();
    let mut i: usize = 0;
    while i < record.work.len()
        invariant
            i <= record.work@.len(),
            serves(*redactor),
            rows@.len() == all_evidence(record.work@, i as int).len(),
            forall|j: int|
                0 <= j < rows@.len() ==> is_evidence(
                    #[trigger] rows@[j],
                    *record,
                    all_evidence(record.work@, i as int)[j],
                    *redactor,
                ),
        decreases record.work.len() - i,
    {
        let ghost before = all_evidence(record.work@, i as int);
        let ghost after = all_evidence(record.work@, i + 1);
        let mut k: usize = 0;
        while k < record.work[i].evidence.len()
            invariant
                i < record.work@.len(),
                serves(*redactor),
                k <= record.work@[i as int].evidence@.len(),
                before == all_evidence(record.work@, i as int),
                after == all_evidence(record.work@, i + 1),
                after.len() == before.len() + record.work@[i as int].evidence@.len(),
                rows@.len() == before.len() + k,
                forall|j: int|
                    0 <= j < rows@.len() ==> is_evidence(
                        #[trigger] rows@[j],
                        *record,
                        after[j],
                        *redactor,
                    ),
            decreases record.work@[i as int].evidence@.len() - k,
        {
            let entry: &EvidenceEntry = &record.work[i].evidence[k];
            rows.push(
                EvidenceRow {
                    work_id: copy(record.work[i].work_id.as_str()),
                    label: project_text(redactor, entry.label.as_str()),
                    detail: project_text(redactor, entry.detail.as_str()),
                },
            );
            proof {
                assert(after[before.len() + k] == (
                    i as int,
                    record.work@[i as int].evidence@[k as int],
                ));
            }
            k = k + 1;
        }
        i = i + 1;
    }
    rows
}

/// Projects bounded, redacted evidence in order.
pub fn project_evidence<R: Redactor>(record: &WorkGraphRecord, redactor: &R) -> (rows: Vec<
    EvidenceRow,
>)
    requires
        serves(*redactor),
    ensures
        is_evidence_list(rows@, *record, *redactor),
{
    let gathered: Vec<EvidenceRow> = gather_evidence(record, redactor);
    let keys: Vec<SortKey> = row_keys(&gathered);
    let order: Vec<usize> = sorted_order(&keys);
    proof {
        assert(ranks(keys@) =~= evidence_ranks(gathered@));
    }
    let mut rows: Vec<EvidenceRow> = Vec::new();
    let mut k: usize = 0;
    while k < order.len()
        invariant
            k <= order@.len(),
            order@.len() == gathered@.len(),
            forall|j: int| 0 <= j < order@.len() ==> 0 <= #[trigger] order@[j] < gathered@.len(),
            rows@.len() == k,
            forall|j: int|
                0 <= j < k ==> #[trigger] rows@[j] == gathered@[order@[j] as int],
        decreases order.len() - k,
    {
        let row: &EvidenceRow = &gathered[order[k]];
        rows.push(
            EvidenceRow {
                work_id: row.work_id.clone(),
                label: row.label.clone(),
                detail: row.detail.clone(),
            },
        );
        k = k + 1;
    }
    proof {
        assert(is_gathered(gathered@, *record, *redactor));
    }
    rows
}

/// `row` shows a lease.
pub open spec fn is_lease_row<R: Redactor>(row: LeaseRow, l: LeaseRecord, redactor: R) -> bool {
    &&& row.lease_id@ == l.lease_id@
    &&& row.work_id@ == l.work_id@
    &&& row.worker_id@ == l.worker_id@
    &&& row.attempt == l.attempt
    &&& row.epoch == l.epoch
    &&& row.state == l.state
    &&& row.computer_use_bound == (l.grant is Some)
    &&& row.issued_at == l.issued_at
    &&& row.expires_at == l.expires_at
    &&& shows_text(row.uncertain_reason, redactor, l.uncertain_reason)
}

/// By identity.
pub open spec fn lease_ranks(leases: Seq<LeaseRecord>) -> Seq<Rank> {
    Seq::new(
        leases.len(),
        |i: int| Rank { rank: 0, minor: 0, first: leases[i].lease_id@, second: Seq::empty() },
    )
}

/// The rows show the leases, in the order of their identities.
pub open spec fn is_lease_list<R: Redactor>(
    rows: Seq<LeaseRow>,
    leases: Seq<LeaseRecord>,
    redactor: R,
) -> bool {
    &&& rows.len() == leases.len()
    &&& forall|j: int|
        0 <= j < rows.len() ==> is_lease_row(
            #[trigger] rows[j],
            leases[order_of(lease_ranks(leases))[j] as int],
            redactor,
        )
}

/// Projects leases without any authority material.
pub fn project_leases<R: Redactor>(record: &WorkGraphRecord, redactor: &R) -> (rows: Vec<LeaseRow>)
    requires
        serves(*redactor),
    ensures
        is_lease_list(rows@, record.leases@, *redactor),
{
    let mut keys: Vec<SortKey> = Vec::new();
    let mut i: usize = 0;
    while i < record.leases.len()
        invariant
            i <= record.leases@.len(),
            keys@.len() == i,
            forall|j: int|
                0 <= j < i ==> (#[trigger] keys@[j])@ == lease_ranks(record.leases@)[j],
        decreases record.leases.len() - i,
    {
        keys.push(text_key(record.leases[i].lease_id.as_str(), ""));
        proof {
            reveal_strlit("");
            assert(""@ =~= Seq::<char>::empty());
        }
        i = i + 1;
    }
    let order: Vec<usize> = sorted_order(&keys);
    proof {
        assert(ranks(keys@) =~= lease_ranks(record.leases@));
    }
    let mut rows: Vec<LeaseRow> = Vec::new();
    let mut k: usize = 0;
    while k < order.len()
        invariant
            k <= order@.len(),
            serves(*redactor),
            order@.len() == record.leases@.len(),
            order@ == order_of(lease_ranks(record.leases@)),
            forall|j: int|
                0 <= j < order@.len() ==> 0 <= #[trigger] order@[j] < record.leases@.len(),
            rows@.len() == k,
            forall|j: int|
                0 <= j < k ==> is_lease_row(
                    #[trigger] rows@[j],
                    record.leases@[order@[j] as int],
                    *redactor,
                ),
        decreases order.len() - k,
    {
        let lease: &LeaseRecord = &record.leases[order[k]];
        rows.push(
            LeaseRow {
                lease_id: copy(lease.lease_id.as_str()),
                work_id: copy(lease.work_id.as_str()),
                worker_id: copy(lease.worker_id.as_str()),
                attempt: lease.attempt,
                epoch: lease.epoch,
                state: lease.state,
                computer_use_bound: lease.grant.is_some(),
                issued_at: lease.issued_at,
                expires_at: lease.expires_at,
                uncertain_reason: project_option(redactor, &lease.uncertain_reason),
            },
        );
        k = k + 1;
    }
    rows
}

/// It is not known whether the attempt was accepted, or only an explicit new
/// one may follow although it was not.
pub open spec fn attempt_uncertain(a: ProviderAttemptRecord) -> bool {
    a.send_certainty == Some(SendCertainty::UncertainAccept) || (a.retry_class == Some(
        RetryClass::ExplicitNewAttemptOnly,
    ) && a.send_certainty != Some(SendCertainty::KnownAccepted))
}

fn is_uncertain(a: &ProviderAttemptRecord) -> (r: bool)
    ensures
        r == attempt_uncertain(*a),
{
    match (a.send_certainty, a.retry_class) {
        (Some(SendCertainty::UncertainAccept), _) => true,
        (Some(SendCertainty::KnownAccepted), _) => false,
        (_, Some(RetryClass::ExplicitNewAttemptOnly)) => true,
        _ => false,
    }
}

/// What the first `n` attempts under a key come to.
pub struct Totals {
    pub attempts: nat,
    pub finished: nat,
    pub uncertain: nat,
    pub tokens: nat,
}

/// What the first `n` attempts under a key come to.
pub open spec fn totals(attempts: Seq<ProviderAttemptRecord>, key: Seq<char>, n: int) -> Totals
    decreases n,
{
    if n <= 0 {
        Totals { attempts: 0, finished: 0, uncertain: 0, tokens: 0 }
    } else {
        let t = totals(attempts, key, n - 1);
        let a = attempts[n - 1];
        if a.attribution_key@ != key {
            t
        } else {
            Totals {
                attempts: t.attempts + 1,
                finished: t.finished + if a.state is Finished {
                    1nat
                } else {
                    0nat
                },
                uncertain: t.uncertain + if attempt_uncertain(a) {
                    1nat
                } else {
                    0nat
                },
                tokens: t.tokens + match a.usage {
                    Some(u) => usage_total(u) as nat,
                    None => 0nat,
                },
            }
        }
    }
}

/// The number, or the limit where it is larger.
pub open spec fn capped(n: nat, limit: nat) -> nat {
    if n > limit {
        limit
    } else {
        n
    }
}

/// `row` accounts for the attempts under its key.
pub open spec fn is_account(
    row: ProviderAttributionRow,
    attempts: Seq<ProviderAttemptRecord>,
) -> bool {
    let t = totals(attempts, row.attribution_key@, attempts.len() as int);
    &&& row.attempts == capped(t.attempts, u32::MAX as nat)
    &&& row.finished == capped(t.finished, u32::MAX as nat)
    &&& row.uncertain == capped(t.uncertain, u32::MAX as nat)
    &&& row.tokens == capped(t.tokens, u64::MAX as nat)
}

/// The key is the key of some attempt among the first `n`.
pub open spec fn key_used(attempts: Seq<ProviderAttemptRecord>, key: Seq<char>, n: int) -> bool {
    exists|k: int| 0 <= k < n && (#[trigger] attempts[k]).attribution_key@ == key
}

/// The rows account for every key in use, each once, in order.
pub open spec fn is_account_list(
    rows: Seq<ProviderAttributionRow>,
    attempts: Seq<ProviderAttemptRecord>,
) -> bool {
    &&& forall|i: int, j: int|
        0 <= i < j < rows.len() ==> text_lt(
            (#[trigger] rows[i]).attribution_key@,
            (#[trigger] rows[j]).attribution_key@,
        )
    &&& forall|i: int|
        0 <= i < rows.len() ==> is_account(#[trigger] rows[i], attempts) && key_used(
            attempts,
            rows[i].attribution_key@,
            attempts.len() as int,
        )
    &&& forall|k: int|
        0 <= k < attempts.len() ==> has_row(rows, (#[trigger] attempts[k]).attribution_key@)
}

/// Some row accounts for the key.
pub open spec fn has_row(rows: Seq<ProviderAttributionRow>, key: Seq<char>) -> bool {
    exists|i: int| 0 <= i < rows.len() && (#[trigger] rows[i]).attribution_key@ == key
}

fn account(record: &WorkGraphRecord, key: &str) -> (row: ProviderAttributionRow)
    ensures
        row.attribution_key@ == key@,
        is_account(row, record.attempts@),
{
    let mut row = ProviderAttributionRow {
        attribution_key: copy(key),
        attempts: 0,
        finished: 0,
        uncertain: 0,
        tokens: 0,
    };
    let mut i: usize = 0;
    while i < record.attempts.len()
        invariant
            i <= record.attempts@.len(),
            row.attribution_key@ == key@,
            row.attempts == capped(
                totals(record.attempts@, key@, i as int).attempts,
                u32::MAX as nat,
            ),
            row.finished == capped(
                totals(record.attempts@, key@, i as int).finished,
                u32::MAX as nat,
            ),
            row.uncertain == capped(
                totals(record.attempts@, key@, i as int).uncertain,
                u32::MAX as nat,
            ),
            row.tokens == capped(
                totals(record.attempts@, key@, i as int).tokens,
                u64::MAX as nat,
            ),
        decreases record.attempts.len() - i,
    {
        let attempt: &ProviderAttemptRecord = &record.attempts[i];
        if str_eq(attempt.attribution_key.as_str(), key) {
            row.attempts = row.attempts.saturating_add(1);
            if attempt.state == AttemptState::Finished {
                row.finished = row.finished.saturating_add(1);
            }
            if is_uncertain(attempt) {
                row.uncertain = row.uncertain.saturating_add(1);
            }
            match &attempt.usage {
                Some(usage) => {
                    row.tokens = row.tokens.saturating_add(total_tokens(usage));
                },
                None => {},
            }
        }
        i = i + 1;
    }
    row
}

/// Sorted texts without repetition.
spec fn ascending(keys: Seq<String>) -> bool {
    forall|i: int, j: int|
        0 <= i < j < keys.len() ==> text_lt((#[trigger] keys[i])@, (#[trigger] keys[j])@)
}

fn add_key(keys: &mut Vec<String>, key: &str)
    requires
        ascending(old(keys)@),
    ensures
        ascending(final(keys)@),
        forall|t: Seq<char>| #[trigger]
            listed_key(final(keys)@, t) == (listed_key(old(keys)@, t) || t == key@),
{
    let ghost before = keys@;
    let mut p: usize = 0;
    while p < keys.len() && str_lt(keys[p].as_str(), key)
        invariant
            p <= keys@.len(),
            forall|i: int| 0 <= i < p ==> text_lt((#[trigger] keys@[i])@, key@),
        decreases keys.len() - p,
    {
        p = p + 1;
    }
    if p < keys.len() && str_eq(keys[p].as_str(), key) {
        proof {
            assert(listed_key(before, key@));
        }
        return;
    }
    keys.insert(p, copy(key));
    proof {
        if p < before.len() {
            text_lt_total(before[p as int]@, key@);
        }
        assert forall|i: int, j: int| 0 <= i < j < keys@.len() implies text_lt(
            (#[trigger] keys@[i])@,
            (#[trigger] keys@[j])@,
        ) by {
            if j < p {
                assert(keys@[i] == before[i] && keys@[j] == before[j]);
            } else if j == p {
                assert(keys@[i] == before[i]);
            } else if i < p {
                assert(keys@[i] == before[i] && keys@[j] == before[j - 1]);
            } else if i == p {
                assert(keys@[j] == before[j - 1]);
                if j - 1 > p {
                    assert(text_lt(before[p as int]@, before[j - 1]@));
                    text_lt_transitive(key@, before[p as int]@, before[j - 1]@);
                }
            } else {
                assert(keys@[i] == before[i - 1] && keys@[j] == before[j - 1]);
            }
        }
        assert forall|t: Seq<char>| #[trigger]
            listed_key(keys@, t) == (listed_key(before, t) || t == key@) by {
            if listed_key(before, t) {
                let i = choose|i: int| 0 <= i < before.len() && (#[trigger] before[i])@ == t;
                if i < p {
                    assert(keys@[i]@ == t);
                } else {
                    assert(keys@[i + 1]@ == t);
                }
            }
            if t == key@ {
                assert(keys@[p as int]@ == t);
            }
            if listed_key(keys@, t) {
                let i = choose|i: int| 0 <= i < keys@.len() && (#[trigger] keys@[i])@ == t;
                if i < p {
                    assert(before[i]@ == t);
                } else if i > p {
                    assert(before[i - 1]@ == t);
                }
            }
        }
    }
}

/// The text is in the list.
spec fn listed_key(keys: Seq<String>, t: Seq<char>) -> bool {
    exists|i: int| 0 <= i < keys.len() && (#[trigger] keys[i])@ == t
}

/// Projects the accounting of a graph that uses several providers.
pub fn project_attribution(record: &WorkGraphRecord) -> (rows: Vec<ProviderAttributionRow>)
    ensures
        is_account_list(rows@, record.attempts@),
{
    let mut keys: Vec<String> = Vec::new();
    let mut i: usize = 0;
    while i < record.attempts.len()
        invariant
            i <= record.attempts@.len(),
            ascending(keys@),
            forall|t: Seq<char>| #[trigger]
                listed_key(keys@, t) == key_used(record.attempts@, t, i as int),
        decreases record.attempts.len() - i,
    {
        let ghost before = keys@;
        add_key(&mut keys, record.attempts[i].attribution_key.as_str());
        proof {
            let key = record.attempts@[i as int].attribution_key@;
            assert forall|t: Seq<char>| #[trigger]
                listed_key(keys@, t) == key_used(record.attempts@, t, i + 1) by {
                assert(listed_key(keys@, t) == (listed_key(before, t) || t == key));
                if key_used(record.attempts@, t, i as int) {
                    let k = choose|k: int|
                        0 <= k < i && (#[trigger] record.attempts@[k]).attribution_key@ == t;
                    assert(0 <= k < i + 1 && record.attempts@[k].attribution_key@ == t);
                }
                if t == key {
                    assert(record.attempts@[i as int].attribution_key@ == t);
                }
            }
        }
        i = i + 1;
    }
    let mut rows: Vec<ProviderAttributionRow> = Vec::new();
    let mut k: usize = 0;
    while k < keys.len()
        invariant
            k <= keys@.len(),
            rows@.len() == k,
            forall|j: int|
                0 <= j < k ==> (#[trigger] rows@[j]).attribution_key@ == keys@[j]@ && is_account(
                    rows@[j],
                    record.attempts@,
                ),
        decreases keys.len() - k,
    {
        rows.push(account(record, keys[k].as_str()));
        k = k + 1;
    }
    proof {
        assert forall|i: int, j: int| 0 <= i < j < rows@.len() implies text_lt(
            (#[trigger] rows@[i]).attribution_key@,
            (#[trigger] rows@[j]).attribution_key@,
        ) by {
            assert(text_lt(keys@[i]@, keys@[j]@));
        }
        assert forall|j: int| 0 <= j < rows@.len() implies is_account(
            #[trigger] rows@[j],
            record.attempts@,
        ) && key_used(
            record.attempts@,
            rows@[j].attribution_key@,
            record.attempts@.len() as int,
        ) by {
            assert(listed_key(keys@, keys@[j]@));
        }
        assert forall|k: int| 0 <= k < record.attempts@.len() implies has_row(
            rows@,
            (#[trigger] record.attempts@[k]).attribution_key@,
        ) by {
            let t = record.attempts@[k].attribution_key@;
            assert(key_used(record.attempts@, t, record.attempts@.len() as int));
            assert(listed_key(keys@, t));
            let i = choose|i: int| 0 <= i < keys@.len() && (#[trigger] keys@[i])@ == t;
            assert(rows@[i].attribution_key@ == t);
        }
    }
    rows
}

/// Projects everything an operator surface needs.
pub fn project_graph<R: Redactor>(
    record: &WorkGraphRecord,
    admission_block: Option<AdmissionBlock>,
    redactor: &R,
) -> (p: GraphProjection)
    requires
        serves(*redactor),
    ensures
        is_status(p.status, *record, admission_block, *redactor),
        is_progress_list(p.work@, *record, *redactor),
        is_lease_list(p.leases@, record.leases@, *redactor),
        is_account_list(p.attribution@, record.attempts@),
{
    GraphProjection {
        status: project_status(record, admission_block, redactor),
        work: project_work(record, redactor),
        leases: project_leases(record, redactor),
        attribution: project_attribution(record),
    }
}

/// A narrow projection for the desktop: counts, states and bounded text.
#[derive(Debug)]
pub struct DesktopGraphDto {
    pub graph_id: String,
    pub lifecycle: GraphLifecycle,
    pub work_total: usize,
    pub succeeded: usize,
    pub failed: usize,
    pub in_flight: usize,
    pub uncertain: usize,
    pub needs_operator_attention: bool,
    pub attempts_used: u32,
    pub max_total_attempts: u32,
    pub updated_at: i128,
}

/// Projects the desktop view from a status.
pub fn project_desktop(status: &GraphStatusProjection) -> (d: DesktopGraphDto)
    ensures
        d.graph_id == status.graph_id,
        d.lifecycle == status.lifecycle,
        d.work_total == status.work_total,
        d.succeeded == status.succeeded,
        d.failed == status.failed,
        d.in_flight == status.in_flight,
        d.uncertain == status.uncertain,
        d.needs_operator_attention == status.needs_operator_attention,
        d.attempts_used == status.attempts_used,
        d.max_total_attempts == status.max_total_attempts,
        d.updated_at == status.updated_at,
{
    DesktopGraphDto {
        graph_id: status.graph_id.clone(),
        lifecycle: status.lifecycle,
        work_total: status.work_total,
        succeeded: status.succeeded,
        failed: status.failed,
        in_flight: status.in_flight,
        uncertain: status.uncertain,
        needs_operator_attention: status.needs_operator_attention,
        attempts_used: status.attempts_used,
        max_total_attempts: status.max_total_attempts,
        updated_at: status.updated_at,
    }
}

/// No projected text exceeds the bound, whatever the redactor returns.
pub proof fn shown_text_is_bounded<R: Redactor>(redactor: R, text: Seq<char>, out: Seq<char>)
    requires
        shows(redactor, text, out),
    ensures
        utf8_len(out) <= MAX_PROJECTED_TEXT_BYTES,
{
    let (t, r) = choose|t: &str, r: String|
        t@ == text && #[trigger] redactor.gives(t, MAX_PROJECTED_TEXT_BYTES, r) && out == fitted(
            r@,
            MAX_PROJECTED_TEXT_BYTES as nat,
        );
    fitted_is_longest(r@, MAX_PROJECTED_TEXT_BYTES as nat);
}

} // verus!
