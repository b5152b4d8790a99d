//! Durable state for one work graph.
//!
//! Every field is written before the side effect it describes, so that a crash
//! between the two leaves evidence that something may have happened.

use crate::digest::{digests_differ, hash_payload, no_collision, text_digest};
use crate::error::{
    fault, first_fault, forbidden, forbidden_fault, invalid, invalid_fault, judged, refused, Fault,
    OrchError, OrchErrorCode,
};
use crate::instant::{is_named, later, NANOS_PER_MILLI};
use crate::json::{
    agreeing, field, field_keys, field_values, json_object_text, json_string_text, json_uuid_text,
    Json,
};
use crate::order::{all_distinct, position, position_from};
use crate::swarm::authority::{authority_fault, row_fault, ActionAuthority, ProviderAttemptRecord};
use crate::swarm::ids::{
    AttemptId, AuthorityId, GrantId, GraphId, LeaseId, WorkId, WorkerId,
};
use crate::swarm::spec::{
    graph_fault, repeats, role_at, valid_graphs_have_distinct_work, work_at, work_ids, WorkGraphSpec,
    WorkerRole,
};
use crate::text::{
    byte_len, copy, decimal, fitted, join2, join3, str_eq, str_has_char, to_chars,
    truncate_at_char_boundary, utf8_len,
};
use crate::validate::{clean_scan, scan};
use vstd::prelude::*;
use vstd::string::*;

verus! {

pub const GRAPH_STATE_SCHEMA_VERSION: u32 = 1;

/// Most evidence entries kept for one work item.
pub const MAX_EVIDENCE_ENTRIES: usize = 16;

pub const MAX_EVIDENCE_LABEL_BYTES: usize = 128;

pub const MAX_EVIDENCE_DETAIL_BYTES: usize = 2048;

pub const MAX_SUMMARY_BYTES: usize = 4096;

pub const MAX_REASON_BYTES: usize = 1024;

/// The longest prefix of a text that fits, never splitting a character.
pub fn truncate_text(value: &str, max_bytes: usize) -> (r: String)
    ensures
        r@ == fitted(value@, max_bytes as nat),
{
    truncate_at_char_boundary(value, max_bytes)
}

/// Where the whole graph stands.
#[derive(Debug, Clone, Copy, PartialEq, Eq, Structural)]
pub enum GraphLifecycle {
    Active,
    /// Admission has stopped and live children are winding down.
    Cancelling,
    Succeeded,
    Failed,
    Cancelled,
    /// Everything that is left was discarded after review.
    Discarded,
}

impl GraphLifecycle {
    pub open spec fn terminal(self) -> bool {
        self is Succeeded || self is Failed || self is Cancelled || self is Discarded
    }

    pub fn is_terminal(self) -> (r: bool)
        ensures
            r == self.terminal(),
    {
        matches!(
            self,
            GraphLifecycle::Succeeded | GraphLifecycle::Failed | GraphLifecycle::Cancelled
            | GraphLifecycle::Discarded
        )
    }
}

/// Where one node of the graph stands.
#[derive(Debug, Clone, Copy, PartialEq, Eq, Structural)]
pub enum WorkState {
    /// Dependencies are not satisfied yet.
    Pending,
    /// Dependencies are satisfied; eligible for admission.
    Ready,
    /// A lease was written but the worker has not acknowledged it.
    Leased,
    /// The worker acknowledged and is running.
    Running,
    /// A cancel was requested for a live child; awaiting confirmation.
    Cancelling,
    Succeeded,
    Failed,
    /// An upstream failure, cancellation or unresolved uncertainty keeps this
    /// item from becoming ready. Derived, not sticky.
    Blocked,
    Cancelled,
    /// The item exceeded its execution bound.
    TimedOut,
    /// A dispatch was attempted and its fate is unknown. Never dispatched again
    /// without external evidence.
    DispatchUncertain,
    /// Reviewed and discarded; never counts as a success.
    Discarded,
}

impl WorkState {
    /// The outcome will not change on its own.
    pub open spec fn settled(self) -> bool {
        self is Succeeded || self is Failed || self is Cancelled || self is TimedOut
            || self is Discarded
    }

    pub fn is_settled(self) -> (r: bool)
        ensures
            r == self.settled(),
    {
        matches!(
            self,
            WorkState::Succeeded | WorkState::Failed | WorkState::Cancelled | WorkState::TimedOut
            | WorkState::Discarded
        )
    }

    /// Recomputed from upstream results.
    pub open spec fn derived(self) -> bool {
        self is Pending || self is Ready || self is Blocked
    }

    pub fn is_derived(self) -> (r: bool)
        ensures
            r == self.derived(),
    {
        matches!(self, WorkState::Pending | WorkState::Ready | WorkState::Blocked)
    }

    /// May still hold live capacity. A child whose fate is unknown may still
    /// run, so the slot it holds is not given out again.
    pub open spec fn holds_slot(self) -> bool {
        self is Leased || self is Running || self is Cancelling || self is DispatchUncertain
    }

    pub fn occupies_slot(self) -> (r: bool)
        ensures
            r == self.holds_slot(),
    {
        matches!(
            self,
            WorkState::Leased | WorkState::Running | WorkState::Cancelling
            | WorkState::DispatchUncertain
        )
    }
}

/// The verdict of a review. A review that ran to completion and rejected has
/// done its job.
#[derive(Debug, Clone, Copy, PartialEq, Eq, Structural)]
pub enum ReviewVerdict {
    Approve,
    Reject,
}

/// How a work item finished, as reported by its owner.
#[derive(Debug, Clone, Copy, PartialEq, Eq, Structural)]
pub enum WorkResult {
    Succeeded,
    Failed,
    Cancelled,
    TimedOut,
}

/// One bounded piece of evidence.
#[derive(Debug)]
pub struct EvidenceEntry {
    pub label: String,
    pub detail: String,
}

impl Clone for EvidenceEntry {
    fn clone(&self) -> (r: EvidenceEntry)
        ensures
            r == *self,
    {
        EvidenceEntry { label: self.label.clone(), detail: self.detail.clone() }
    }
}

/// What is wrong with a piece of evidence.
pub open spec fn evidence_fault(e: EvidenceEntry) -> Option<Fault> {
    if e.label@.len() == 0 || utf8_len(e.label@) > MAX_EVIDENCE_LABEL_BYTES {
        Some(invalid_fault("evidence label is empty or exceeds its bound"@))
    } else if utf8_len(e.detail@) > MAX_EVIDENCE_DETAIL_BYTES {
        Some(invalid_fault("evidence detail exceeds its bound"@))
    } else if e.label@.contains('\0') || e.detail@.contains('\0') {
        Some(invalid_fault("evidence must not contain NUL"@))
    } else {
        None
    }
}

impl EvidenceEntry {
    pub fn new(label: &str, detail: &str) -> (e: EvidenceEntry)
        ensures
            e.label@ == label@,
            e.detail@ == detail@,
    {
        EvidenceEntry { label: copy(label), detail: copy(detail) }
    }

    pub fn validate(&self) -> (r: Result<(), OrchError>)
        ensures
            judged(r, evidence_fault(*self)),
    {
        if self.label.as_str().is_empty() || byte_len(self.label.as_str())
            > MAX_EVIDENCE_LABEL_BYTES {
            return Err(invalid("evidence label is empty or exceeds its bound"));
        }
        if byte_len(self.detail.as_str()) > MAX_EVIDENCE_DETAIL_BYTES {
            return Err(invalid("evidence detail exceeds its bound"));
        }
        if str_has_char(self.label.as_str(), '\0') || str_has_char(self.detail.as_str(), '\0') {
            return Err(invalid("evidence must not contain NUL"));
        }
        Ok(())
    }
}

pub open spec fn evidence_check(e: Seq<EvidenceEntry>) -> spec_fn(int) -> Option<Fault> {
    |i: int| evidence_fault(e[i])
}

fn validate_evidence(evidence: &Vec<EvidenceEntry>) -> (r: Result<(), OrchError>)
    ensures
        judged(r, scan(0, evidence@.len() as int, evidence_check(evidence@))),
{
    let ghost check = evidence_check(evidence@);
    let n: usize = evidence.len();
    let mut i: usize = 0;
    while i < n
        invariant
            i <= n,
            n == evidence@.len(),
            check == evidence_check(evidence@),
            scan(0, n as int, check) == scan(i as int, n as int, check),
        decreases n - i,
    {
        evidence[i].validate()?;
        i = i + 1;
    }
    Ok(())
}

/// A copy of a list of evidence.
pub fn copy_evidence(evidence: &Vec<EvidenceEntry>) -> (r: Vec<EvidenceEntry>)
    ensures
        r@ == evidence@,
{
    let mut r: Vec<EvidenceEntry> = Vec::new();
    let mut i: usize = 0;
    while i < evidence.len()
        invariant
            i <= evidence@.len(),
            r@ == evidence@.take(i as int),
        decreases evidence.len() - i,
    {
        r.push(evidence[i].clone());
        i = i + 1;
        proof {
            assert(r@ =~= evidence@.take(i as int));
        }
    }
    proof {
        assert(evidence@.take(i as int) =~= evidence@);
    }
    r
}

/// A terminal report from a worker, tied to the lease that produced it.
#[derive(Debug)]
pub struct WorkOutcome {
    pub result: WorkResult,
    /// Required for a review item, rejected for every other role.
    pub verdict: Option<ReviewVerdict>,
    pub summary: Option<String>,
    pub evidence: Vec<EvidenceEntry>,
}

/// What is wrong with a report.
pub open spec fn outcome_fault(o: WorkOutcome) -> Option<Fault> {
    first_fault(
        match o.summary {
            Some(s) => if utf8_len(s@) > MAX_SUMMARY_BYTES || s@.contains('\0') {
                Some(invalid_fault("outcome summary is invalid"@))
            } else {
                None
            },
            None => None,
        },
        if o.evidence@.len() > MAX_EVIDENCE_ENTRIES {
            Some(invalid_fault("an outcome carries at most 16 evidence entries"@))
        } else {
            scan(0, o.evidence@.len() as int, evidence_check(o.evidence@))
        },
    )
}

impl WorkOutcome {
    pub fn succeeded() -> (o: WorkOutcome)
        ensures
            o.result == WorkResult::Succeeded,
            o.verdict is None,
            o.summary is None,
            o.evidence@.len() == 0,
    {
        WorkOutcome {
            result: WorkResult::Succeeded,
            verdict: None,
            summary: None,
            evidence: Vec::new(),
        }
    }

    pub fn failed(summary: &str) -> (o: WorkOutcome)
        ensures
            o.result == WorkResult::Failed,
            o.verdict is None,
            o.summary is Some && o.summary->0@ == summary@,
            o.evidence@.len() == 0,
    {
        WorkOutcome {
            result: WorkResult::Failed,
            verdict: None,
            summary: Some(copy(summary)),
            evidence: Vec::new(),
        }
    }

    pub fn cancelled() -> (o: WorkOutcome)
        ensures
            o.result == WorkResult::Cancelled,
            o.verdict is None,
            o.summary is None,
            o.evidence@.len() == 0,
    {
        WorkOutcome {
            result: WorkResult::Cancelled,
            verdict: None,
            summary: None,
            evidence: Vec::new(),
        }
    }

    pub fn with_verdict(self, verdict: ReviewVerdict) -> (o: WorkOutcome)
        ensures
            o == (WorkOutcome { verdict: Some(verdict), ..self }),
    {
        WorkOutcome {
            result: self.result,
            verdict: Some(verdict),
            summary: self.summary,
            evidence: self.evidence,
        }
    }

    pub fn with_evidence(self, evidence: Vec<EvidenceEntry>) -> (o: WorkOutcome)
        ensures
            o == (WorkOutcome { evidence, ..self }),
    {
        WorkOutcome {
            result: self.result,
            verdict: self.verdict,
            summary: self.summary,
            evidence,
        }
    }

    pub fn validate(&self) -> (r: Result<(), OrchError>)
        ensures
            judged(r, outcome_fault(*self)),
    {
        match &self.summary {
            Some(summary) => {
                if byte_len(summary.as_str()) > MAX_SUMMARY_BYTES || str_has_char(
                    summary.as_str(),
                    '\0',
                ) {
                    return Err(invalid("outcome summary is invalid"));
                }
            },
            None => {},
        }
        if self.evidence.len() > MAX_EVIDENCE_ENTRIES {
            return Err(invalid("an outcome carries at most 16 evidence entries"));
        }
        validate_evidence(&self.evidence)
    }
}

/// Where one lease stands.
#[derive(Debug, Clone, Copy, PartialEq, Eq, Structural)]
pub enum LeaseState {
    /// Written before the spawn; whether the worker started is unknown.
    Issued,
    /// One caller won the right to perform the spawn.
    Claimed,
    /// The worker acknowledged and reported a handle.
    Acknowledged,
    /// The worker reported a terminal outcome.
    Settled,
    /// The fate is unknown and nothing will be retried.
    Uncertain,
    /// Superseded by a later epoch, or revoked.
    Revoked,
}

/// A durable claim of one owner on one work item for one attempt.
#[derive(Debug)]
pub struct LeaseRecord {
    pub lease_id: LeaseId,
    pub graph_id: GraphId,
    pub work_id: WorkId,
    pub worker_id: WorkerId,
    pub attempt_id: AttemptId,
    pub attempt: u32,
    pub authority_id: AuthorityId,
    pub session_id: u128,
    pub workspace: String,
    /// Monotonic fence: a lease minted under an older epoch is refused.
    pub epoch: u64,
    pub state: LeaseState,
    /// Handle the owner reported on acknowledgement.
    pub external_ref: Option<String>,
    /// The Computer Use grant that authorized this lease, where one was needed.
    pub grant: Option<GrantBinding>,
    pub issued_at: i128,
    /// Hard deadline of execution.
    pub expires_at: i128,
    pub acknowledged_at: Option<i128>,
    pub settled_at: Option<i128>,
    pub uncertain_reason: Option<String>,
}

impl Clone for LeaseRecord {
    fn clone(&self) -> (r: LeaseRecord)
        ensures
            r == *self,
    {
        LeaseRecord {
            lease_id: self.lease_id.clone(),
            graph_id: self.graph_id.clone(),
            work_id: self.work_id.clone(),
            worker_id: self.worker_id.clone(),
            attempt_id: self.attempt_id.clone(),
            attempt: self.attempt,
            authority_id: self.authority_id.clone(),
            session_id: self.session_id,
            workspace: self.workspace.clone(),
            epoch: self.epoch,
            state: self.state,
            external_ref: match &self.external_ref {
                Some(s) => Some(s.clone()),
                None => None,
            },
            grant: match &self.grant {
                Some(g) => Some(g.clone()),
                None => None,
            },
            issued_at: self.issued_at,
            expires_at: self.expires_at,
            acknowledged_at: self.acknowledged_at,
            settled_at: self.settled_at,
            uncertain_reason: match &self.uncertain_reason {
                Some(s) => Some(s.clone()),
                None => None,
            },
        }
    }
}

/// What is wrong with a lease.
pub open spec fn lease_fault(l: LeaseRecord) -> Option<Fault> {
    first_fault(
        l.lease_id.fault(),
        first_fault(
            l.graph_id.fault(),
            first_fault(
                l.work_id.fault(),
                first_fault(
                    l.worker_id.fault(),
                    first_fault(
                        l.attempt_id.fault(),
                        first_fault(
                            l.authority_id.fault(),
                            first_fault(lease_rest_fault(l), match l.grant {
                                Some(g) => grant_fault(g),
                                None => None,
                            }),
                        ),
                    ),
                ),
            ),
        ),
    )
}

/// What is wrong with the scope, lifetime or reason of a lease.
pub open spec fn lease_rest_fault(l: LeaseRecord) -> Option<Fault> {
    if l.workspace@.len() == 0 || utf8_len(l.workspace@) > 4096 {
        Some(invalid_fault("lease workspace is invalid"@))
    } else if l.expires_at <= l.issued_at {
        Some(invalid_fault("lease has a non-positive lifetime"@))
    } else if l.uncertain_reason is Some && utf8_len(l.uncertain_reason->0@) > MAX_REASON_BYTES {
        Some(invalid_fault("lease uncertainty reason exceeds its bound"@))
    } else {
        None
    }
}

impl LeaseRecord {
    pub fn validate(&self) -> (r: Result<(), OrchError>)
        ensures
            judged(r, lease_fault(*self)),
    {
        self.lease_id.validate()?;
        self.graph_id.validate()?;
        self.work_id.validate()?;
        self.worker_id.validate()?;
        self.attempt_id.validate()?;
        self.authority_id.validate()?;
        if self.workspace.as_str().is_empty() || byte_len(self.workspace.as_str()) > 4096 {
            return Err(invalid("lease workspace is invalid"));
        }
        if self.expires_at <= self.issued_at {
            return Err(invalid("lease has a non-positive lifetime"));
        }
        match &self.uncertain_reason {
            Some(reason) => {
                if byte_len(reason.as_str()) > MAX_REASON_BYTES {
                    return Err(invalid("lease uncertainty reason exceeds its bound"));
                }
            },
            None => {},
        }
        match &self.grant {
            Some(grant) => grant.validate(),
            None => Ok(()),
        }
    }

    /// May still describe a live child.
    pub open spec fn live(self) -> bool {
        self.state is Issued || self.state is Claimed || self.state is Acknowledged
    }

    /// Whether this lease may still describe a live child.
    pub fn is_live(&self) -> (r: bool)
        ensures
            r == self.live(),
    {
        matches!(self.state, LeaseState::Issued | LeaseState::Claimed | LeaseState::Acknowledged)
    }
}

/// An externally issued Computer Use grant, bound to exactly one lease.
#[derive(Debug)]
pub struct GrantBinding {
    pub grant_id: GrantId,
    /// The Computer Use run the grant was issued against.
    pub computer_run_id: String,
    /// Digest of the exact target the grant names.
    pub target_fingerprint: String,
    pub owner_session_id: u128,
    /// The run's control epoch when the grant was bound.
    pub control_epoch: u64,
    pub binding_hash: String,
}

impl Clone for GrantBinding {
    fn clone(&self) -> (r: GrantBinding)
        ensures
            r == *self,
    {
        GrantBinding {
            grant_id: self.grant_id.clone(),
            computer_run_id: self.computer_run_id.clone(),
            target_fingerprint: self.target_fingerprint.clone(),
            owner_session_id: self.owner_session_id,
            control_epoch: self.control_epoch,
            binding_hash: self.binding_hash.clone(),
        }
    }
}

/// A hexadecimal digit of either case.
pub open spec fn hex_char(c: char) -> bool {
    ('0' <= c && c <= '9') || ('a' <= c && c <= 'f') || ('A' <= c && c <= 'F')
}

/// A text of 64 hexadecimal digits.
pub open spec fn is_digest(s: Seq<char>) -> bool {
    utf8_len(s) == 64 && forall|i: int| 0 <= i < s.len() ==> hex_char(#[trigger] s[i])
}

fn looks_like_digest(s: &str) -> (r: bool)
    ensures
        r == is_digest(s@),
{
    if byte_len(s) != 64 {
        return false;
    }
    let v: Vec<char> = to_chars(s);
    let mut i: usize = 0;
    while i < v.len()
        invariant
            i <= v@.len(),
            v@ == s@,
            forall|j: int| 0 <= j < i ==> hex_char(#[trigger] v@[j]),
        decreases v.len() - i,
    {
        let c: char = v[i];
        if !(('0' <= c && c <= '9') || ('a' <= c && c <= 'f') || ('A' <= c && c <= 'F')) {
            proof {
                assert(!hex_char(s@[i as int]));
            }
            return false;
        }
        i = i + 1;
    }
    true
}

/// What is wrong with a grant binding.
pub open spec fn grant_fault(g: GrantBinding) -> Option<Fault> {
    first_fault(
        g.grant_id.fault(),
        if g.computer_run_id@.len() == 0 || utf8_len(g.computer_run_id@) > 256 {
            Some(invalid_fault("grant binding computer run id is invalid"@))
        } else if !is_digest(g.target_fingerprint@) {
            Some(invalid_fault("grant binding target fingerprint is invalid"@))
        } else if !is_digest(g.binding_hash@) {
            Some(invalid_fault("grant binding hash is invalid"@))
        } else {
            None
        },
    )
}

/// The names of what a grant binding is taken of.
pub open spec fn grant_keys() -> Seq<Seq<char>> {
    seq![
        "grantId"@,
        "computerRunId"@,
        "targetFingerprint"@,
        "ownerSessionId"@,
        "controlEpoch"@,
        "leaseId"@,
        "attemptId"@,
    ]
}

/// What a grant binding is taken of.
pub open spec fn grant_values(
    g: GrantBinding,
    lease_id: Seq<char>,
    attempt_id: Seq<char>,
) -> Seq<Seq<char>> {
    seq![
        json_string_text(g.grant_id@),
        json_string_text(g.computer_run_id@),
        json_string_text(g.target_fingerprint@),
        json_uuid_text(g.owner_session_id),
        decimal(g.control_epoch as nat),
        json_string_text(lease_id),
        json_string_text(attempt_id),
    ]
}

/// The document that a grant binding is taken of.
pub open spec fn grant_text(g: GrantBinding, lease_id: Seq<char>, attempt_id: Seq<char>) -> Seq<
    char,
> {
    json_object_text(grant_keys(), grant_values(g, lease_id, attempt_id))
}

/// The names in a binding's document are distinct.
proof fn grant_keys_differ()
    ensures
        grant_keys().no_duplicates(),
{
    reveal_strlit("grantId");
    reveal_strlit("computerRunId");
    reveal_strlit("targetFingerprint");
    reveal_strlit("ownerSessionId");
    reveal_strlit("controlEpoch");
    reveal_strlit("leaseId");
    reveal_strlit("attemptId");
    let k = grant_keys();
    assert(k[0].len() == 7 && k[0][0] == 'g');
    assert(k[1].len() == 13);
    assert(k[2].len() == 17);
    assert(k[3].len() == 14);
    assert(k[4].len() == 12);
    assert(k[5].len() == 7 && k[5][0] == 'l');
    assert(k[6].len() == 9);
    assert forall|i: int, j: int| 0 <= i < k.len() && 0 <= j < k.len() && i != j implies k[i]
        != k[j] by {
        assert(i == 0 || i == 1 || i == 2 || i == 3 || i == 4 || i == 5 || i == 6);
        assert(j == 0 || j == 1 || j == 2 || j == 3 || j == 4 || j == 5 || j == 6);
        assert(k[i].len() != k[j].len() || k[i][0] != k[j][0]);
    }
}

/// Two bindings name the same grant, run, target, lease and attempt.
pub open spec fn same_binding(
    g: GrantBinding,
    lease: Seq<char>,
    attempt: Seq<char>,
    h: GrantBinding,
    other_lease: Seq<char>,
    other_attempt: Seq<char>,
) -> bool {
    &&& g.grant_id@ == h.grant_id@
    &&& g.computer_run_id@ == h.computer_run_id@
    &&& g.target_fingerprint@ == h.target_fingerprint@
    &&& lease == other_lease
    &&& attempt == other_attempt
}

/// No binding of another grant, run, target, lease or attempt has the document
/// of this one.
pub open spec fn binding_is_told_apart(
    g: GrantBinding,
    lease: Seq<char>,
    attempt: Seq<char>,
) -> bool {
    forall|h: GrantBinding, l: Seq<char>, t: Seq<char>| #[trigger]
        grant_text(h, l, t) == grant_text(g, lease, attempt) ==> same_binding(
            h,
            l,
            t,
            g,
            lease,
            attempt,
        )
}

/// The binding names exactly this lease and attempt.
pub open spec fn binds(g: GrantBinding, lease_id: Seq<char>, attempt_id: Seq<char>) -> bool {
    g.binding_hash@ == text_digest(grant_text(g, lease_id, attempt_id))
}

/// `g` is a fresh binding of these values.
pub open spec fn is_new_binding(
    g: GrantBinding,
    grant_id: GrantId,
    computer_run_id: Seq<char>,
    target_fingerprint: Seq<char>,
    owner_session_id: u128,
    control_epoch: u64,
    lease_id: Seq<char>,
    attempt_id: Seq<char>,
) -> bool {
    &&& g.grant_id == grant_id
    &&& g.computer_run_id@ == computer_run_id
    &&& g.target_fingerprint@ == target_fingerprint
    &&& g.owner_session_id == owner_session_id
    &&& g.control_epoch == control_epoch
    &&& binds(g, lease_id, attempt_id)
}

impl GrantBinding {
    pub fn new(
        grant_id: GrantId,
        computer_run_id: &str,
        target_fingerprint: &str,
        owner_session_id: u128,
        control_epoch: u64,
        lease_id: &LeaseId,
        attempt_id: &AttemptId,
    ) -> (r: Result<GrantBinding, OrchError>)
        ensures
            r is Ok ==> binding_is_told_apart(r->Ok_0, lease_id@, attempt_id@),
            exists|g: GrantBinding| #[trigger]
                is_new_binding(
                    g,
                    grant_id,
                    computer_run_id@,
                    target_fingerprint@,
                    owner_session_id,
                    control_epoch,
                    lease_id@,
                    attempt_id@,
                ) && match grant_fault(g) {
                    Some(f) => refused(r, f),
                    None => r == Ok::<GrantBinding, OrchError>(g),
                },
    {
        let mut binding = GrantBinding {
            grant_id,
            computer_run_id: copy(computer_run_id),
            target_fingerprint: copy(target_fingerprint),
            owner_session_id,
            control_epoch,
            binding_hash: String::new(),
        };
        binding.binding_hash = binding.expected_hash(lease_id, attempt_id);
        proof {
            assert(is_new_binding(
                binding,
                grant_id,
                computer_run_id@,
                target_fingerprint@,
                owner_session_id,
                control_epoch,
                lease_id@,
                attempt_id@,
            ));
        }
        binding.validate()?;
        Ok(binding)
    }

    fn expected_hash(&self, lease_id: &LeaseId, attempt_id: &AttemptId) -> (d: String)
        ensures
            d@ == text_digest(grant_text(*self, lease_id@, attempt_id@)),
            binding_is_told_apart(*self, lease_id@, attempt_id@),
    {
        let fields: Vec<(String, Json)> = vec![
            field("grantId", Json::string(self.grant_id.as_str())),
            field("computerRunId", Json::string(self.computer_run_id.as_str())),
            field("targetFingerprint", Json::string(self.target_fingerprint.as_str())),
            field("ownerSessionId", Json::uuid(self.owner_session_id)),
            field("controlEpoch", Json::number(self.control_epoch)),
            field("leaseId", Json::string(lease_id.as_str())),
            field("attemptId", Json::string(attempt_id.as_str())),
        ];
        proof {
            assert(field_keys(fields@) =~= grant_keys());
            assert(field_values(fields@) =~= grant_values(*self, lease_id@, attempt_id@));
            grant_keys_differ();
        }
        let document: Json = Json::object(fields);
        proof {
            assert forall|h: GrantBinding, l: Seq<char>, t: Seq<char>| #[trigger]
                grant_text(h, l, t) == grant_text(*self, lease_id@, attempt_id@) implies same_binding(
                h,
                l,
                t,
                *self,
                lease_id@,
                attempt_id@,
            ) by {
                let x = grant_values(*self, lease_id@, attempt_id@);
                let y = grant_values(h, l, t);
                assert(agreeing(x, y));
                assert(x[0] == json_string_text(self.grant_id@));
                assert(y[0] == json_string_text(h.grant_id@));
                assert(x[1] == json_string_text(self.computer_run_id@));
                assert(y[1] == json_string_text(h.computer_run_id@));
                assert(x[2] == json_string_text(self.target_fingerprint@));
                assert(y[2] == json_string_text(h.target_fingerprint@));
                assert(x[5] == json_string_text(lease_id@));
                assert(y[5] == json_string_text(l));
                assert(x[6] == json_string_text(attempt_id@));
                assert(y[6] == json_string_text(t));
            }
        }
        hash_payload(&document)
    }

    /// Checks that the binding still names this exact lease and attempt.
    pub fn verify_binding(&self, lease_id: &LeaseId, attempt_id: &AttemptId) -> (r: Result<
        (),
        OrchError,
    >)
        ensures
            judged(r, binding_fault(*self, lease_id@, attempt_id@)),
            r is Ok ==> binding_is_told_apart(*self, lease_id@, attempt_id@),
    {
        if !str_eq(
            self.binding_hash.as_str(),
            self.expected_hash(lease_id, attempt_id).as_str(),
        ) {
            return Err(forbidden("computer use grant binding does not name this lease"));
        }
        Ok(())
    }

    pub fn validate(&self) -> (r: Result<(), OrchError>)
        ensures
            judged(r, grant_fault(*self)),
    {
        self.grant_id.validate()?;
        if self.computer_run_id.as_str().is_empty() || byte_len(self.computer_run_id.as_str())
            > 256 {
            return Err(invalid("grant binding computer run id is invalid"));
        }
        if !looks_like_digest(self.target_fingerprint.as_str()) {
            return Err(invalid("grant binding target fingerprint is invalid"));
        }
        if !looks_like_digest(self.binding_hash.as_str()) {
            return Err(invalid("grant binding hash is invalid"));
        }
        Ok(())
    }
}

/// Why a binding does not serve this lease and attempt.
pub open spec fn binding_fault(
    g: GrantBinding,
    lease_id: Seq<char>,
    attempt_id: Seq<char>,
) -> Option<Fault> {
    if binds(g, lease_id, attempt_id) {
        None
    } else {
        Some(forbidden_fault("computer use grant binding does not name this lease"@))
    }
}

/// A binding that serves a lease and attempt serves no other lease or attempt,
/// nor does it once its grant, run or target is changed and its hash is not;
/// unless the two documents happen to have one SHA-256 digest. Making and
/// verifying a binding both establish that it is told apart.
pub proof fn bindings_serve_one_lease(
    g: GrantBinding,
    lease: Seq<char>,
    attempt: Seq<char>,
    changed: GrantBinding,
    other_lease: Seq<char>,
    other_attempt: Seq<char>,
)
    requires
        binding_fault(g, lease, attempt) is None,
        binding_is_told_apart(g, lease, attempt),
        changed.binding_hash == g.binding_hash,
        !same_binding(changed, other_lease, other_attempt, g, lease, attempt),
        no_collision(
            grant_text(changed, other_lease, other_attempt),
            grant_text(g, lease, attempt),
        ),
    ensures
        binding_fault(changed, other_lease, other_attempt) is Some,
{
    digests_differ(grant_text(changed, other_lease, other_attempt), grant_text(g, lease, attempt));
}

/// A fresh binding serves the lease and attempt it was made for.
pub proof fn fresh_bindings_verify(
    g: GrantBinding,
    grant_id: GrantId,
    computer_run_id: Seq<char>,
    target_fingerprint: Seq<char>,
    owner_session_id: u128,
    control_epoch: u64,
    lease_id: Seq<char>,
    attempt_id: Seq<char>,
)
    requires
        is_new_binding(
            g,
            grant_id,
            computer_run_id,
            target_fingerprint,
            owner_session_id,
            control_epoch,
            lease_id,
            attempt_id,
        ),
    ensures
        binding_fault(g, lease_id, attempt_id) is None,
{
}

/// Durable state of one work item.
#[derive(Debug)]
pub struct WorkRecord {
    pub work_id: WorkId,
    pub state: WorkState,
    /// Dispatch attempts made so far.
    pub attempts: u32,
    pub current_lease_id: Option<LeaseId>,
    pub verdict: Option<ReviewVerdict>,
    pub summary: Option<String>,
    pub last_error: Option<String>,
    pub evidence: Vec<EvidenceEntry>,
    /// Highest send ordinal given out for this item.
    pub send_ordinal: u64,
    pub updated_at: i128,
}

/// `w` is the record of an item that nothing has happened to.
pub open spec fn is_new_record(w: WorkRecord, work_id: Seq<char>, now: i128) -> bool {
    &&& w.work_id@ == work_id
    &&& w.state is Pending
    &&& w.attempts == 0
    &&& w.current_lease_id is None
    &&& w.verdict is None
    &&& w.summary is None
    &&& w.last_error is None
    &&& w.evidence@.len() == 0
    &&& w.send_ordinal == 0
    &&& w.updated_at == now
}

impl WorkRecord {
    pub fn new(work_id: WorkId, now: i128) -> (w: WorkRecord)
        ensures
            is_new_record(w, work_id@, now),
    {
        WorkRecord {
            work_id,
            state: WorkState::Pending,
            attempts: 0,
            current_lease_id: None,
            verdict: None,
            summary: None,
            last_error: None,
            evidence: Vec::new(),
            send_ordinal: 0,
            updated_at: now,
        }
    }

    /// Takes the next send ordinal. An item that exhausts the ordinals stops
    /// rather than using one again.
    pub fn claim_send_ordinal(&mut self) -> (r: Result<u64, OrchError>)
        ensures
            if old(self).send_ordinal == u64::MAX {
                *final(self) == *old(self) && refused(r, ordinals_exhausted())
            } else {
                r is Ok && r->Ok_0 == old(self).send_ordinal + 1 && *final(self) == (WorkRecord {
                    send_ordinal: (old(self).send_ordinal + 1) as u64,
                    ..*old(self)
                })
            },
    {
        match self.send_ordinal.checked_add(1) {
            Some(next) => {
                self.send_ordinal = next;
                Ok(next)
            },
            None => Err(
                OrchError::new(
                    OrchErrorCode::CapacityExhausted,
                    "work item exhausted its provider send ordinal space",
                ),
            ),
        }
    }
}

/// No send ordinal is left.
pub open spec fn ordinals_exhausted() -> Fault {
    fault(
        OrchErrorCode::CapacityExhausted,
        "work item exhausted its provider send ordinal space"@,
    )
}

/// What the graph has consumed.
#[derive(Debug, Clone, Copy, PartialEq, Eq, Structural)]
pub struct BudgetLedger {
    pub attempts_used: u32,
    pub tokens_used: u64,
    /// Attempts refused because a budget was exhausted.
    pub admissions_refused: u64,
}

impl Default for BudgetLedger {
    fn default() -> (b: BudgetLedger)
        ensures
            b == (BudgetLedger { attempts_used: 0, tokens_used: 0, admissions_refused: 0 }),
    {
        BudgetLedger { attempts_used: 0, tokens_used: 0, admissions_refused: 0 }
    }
}

/// The complete durable record of one work graph.
#[derive(Debug)]
pub struct WorkGraphRecord {
    pub schema_version: u32,
    pub graph_id: GraphId,
    pub session_id: u128,
    /// Canonical workspace this graph is bound to.
    pub workspace: String,
    pub agent_id: String,
    /// Monotonic revision for compare-and-swap persistence.
    pub revision: u64,
    pub lifecycle: GraphLifecycle,
    pub spec: WorkGraphSpec,
    pub work: Vec<WorkRecord>,
    pub leases: Vec<LeaseRecord>,
    pub attempts: Vec<ProviderAttemptRecord>,
    pub authorities: Vec<ActionAuthority>,
    pub budget: BudgetLedger,
    /// Monotonic control fence for the whole graph.
    pub epoch: u64,
    pub stop_reason: Option<String>,
    pub created_at: i128,
    pub updated_at: i128,
    /// Hard deadline derived from the graph budget.
    pub deadline_at: i128,
}

/// The identities of the work records.
pub open spec fn record_ids(work: Seq<WorkRecord>) -> Seq<Seq<char>> {
    Seq::new(work.len(), |i: int| work[i].work_id@)
}

/// The identities of the leases.
pub open spec fn lease_ids(leases: Seq<LeaseRecord>) -> Seq<Seq<char>> {
    Seq::new(leases.len(), |i: int| leases[i].lease_id@)
}

/// The identities of the attempts.
pub open spec fn attempt_ids(attempts: Seq<ProviderAttemptRecord>) -> Seq<Seq<char>> {
    Seq::new(attempts.len(), |i: int| attempts[i].attempt_id@)
}

/// The identities of the authorities.
pub open spec fn authority_ids(authorities: Seq<ActionAuthority>) -> Seq<Seq<char>> {
    Seq::new(authorities.len(), |i: int| authorities[i].authority_id@)
}

/// The position of a work record.
pub open spec fn record_at(work: Seq<WorkRecord>, id: Seq<char>) -> Option<int> {
    position(record_ids(work), id)
}

/// The position of a lease.
pub open spec fn lease_at(leases: Seq<LeaseRecord>, id: Seq<char>) -> Option<int> {
    position(lease_ids(leases), id)
}

/// The position of an attempt.
pub open spec fn attempt_at(attempts: Seq<ProviderAttemptRecord>, id: Seq<char>) -> Option<int> {
    position(attempt_ids(attempts), id)
}

/// The position of an authority.
pub open spec fn authority_at(authorities: Seq<ActionAuthority>, id: Seq<char>) -> Option<int> {
    position(authority_ids(authorities), id)
}

/// What is wrong with the work record at `i`.
pub open spec fn record_fault(g: WorkGraphRecord, i: int) -> Option<Fault> {
    let w = g.work@[i];
    first_fault(
        w.work_id.fault(),
        first_fault(
            if work_at(g.spec.work@, w.work_id@) is None {
                Some(
                    invalid_fault("graph carries a record for undeclared work "@ + w.work_id@),
                )
            } else if repeats(record_ids(g.work@), i) {
                Some(
                    invalid_fault("graph carries duplicate records for work "@ + w.work_id@),
                )
            } else if w.evidence@.len() > MAX_EVIDENCE_ENTRIES {
                Some(invalid_fault("work record evidence exceeds its bound"@))
            } else {
                None
            },
            first_fault(
                scan(0, w.evidence@.len() as int, evidence_check(w.evidence@)),
                first_fault(
                    match w.current_lease_id {
                        Some(id) => first_fault(
                            id.fault(),
                            if lease_at(g.leases@, id@) is None {
                                Some(
                                    invalid_fault(
                                        "work "@ + w.work_id@
                                            + " names a lease that is not in the ledger"@,
                                    ),
                                )
                            } else {
                                None
                            },
                        ),
                        None => None,
                    },
                    if w.verdict is Some && role_at(g.spec, w.work_id@) != Some(
                        WorkerRole::Review,
                    ) {
                        Some(
                            invalid_fault(
                                "work "@ + w.work_id@
                                    + " carries a verdict but is not a review item"@,
                            ),
                        )
                    } else {
                        None
                    },
                ),
            ),
        ),
    )
}

pub open spec fn record_check(g: WorkGraphRecord) -> spec_fn(int) -> Option<Fault> {
    |i: int| record_fault(g, i)
}

/// What is wrong with the lease at `i`.
pub open spec fn ledger_lease_fault(g: WorkGraphRecord, i: int) -> Option<Fault> {
    let l = g.leases@[i];
    first_fault(
        lease_fault(l),
        if l.graph_id@ != g.graph_id@ {
            Some(invalid_fault("lease belongs to a different graph"@))
        } else if work_at(g.spec.work@, l.work_id@) is None {
            Some(invalid_fault("lease names undeclared work"@))
        } else if repeats(lease_ids(g.leases@), i) {
            Some(invalid_fault("duplicate lease id in the ledger"@))
        } else {
            None
        },
    )
}

pub open spec fn lease_check(g: WorkGraphRecord) -> spec_fn(int) -> Option<Fault> {
    |i: int| ledger_lease_fault(g, i)
}

/// What is wrong with the attempt at `i`.
pub open spec fn ledger_attempt_fault(g: WorkGraphRecord, i: int) -> Option<Fault> {
    let a = g.attempts@[i];
    first_fault(
        row_fault(a),
        if a.graph_id@ != g.graph_id@ {
            Some(invalid_fault("attempt belongs to a different graph"@))
        } else if work_at(g.spec.work@, a.work_id@) is None {
            Some(invalid_fault("attempt names undeclared work"@))
        } else if repeats(attempt_ids(g.attempts@), i) {
            Some(invalid_fault("duplicate attempt id in the ledger"@))
        } else {
            None
        },
    )
}

pub open spec fn attempt_check(g: WorkGraphRecord) -> spec_fn(int) -> Option<Fault> {
    |i: int| ledger_attempt_fault(g, i)
}

/// What is wrong with the authority at `i`.
pub open spec fn ledger_authority_fault(g: WorkGraphRecord, i: int) -> Option<Fault> {
    let a = g.authorities@[i];
    first_fault(
        authority_fault(a),
        if a.graph_id@ != g.graph_id@ || a.session_id != g.session_id || a.workspace@
            != g.workspace@ || a.agent_id@ != g.agent_id@ {
            Some(invalid_fault("authority is not bound to this graph"@))
        } else if repeats(authority_ids(g.authorities@), i) {
            Some(invalid_fault("duplicate authority id in the ledger"@))
        } else {
            None
        },
    )
}

pub open spec fn authority_check(g: WorkGraphRecord) -> spec_fn(int) -> Option<Fault> {
    |i: int| ledger_authority_fault(g, i)
}

/// What is wrong with the head of a graph record.
pub open spec fn head_fault(g: WorkGraphRecord) -> Option<Fault> {
    first_fault(
        if g.schema_version != GRAPH_STATE_SCHEMA_VERSION {
            Some(invalid_fault("work graph state schema version is not supported"@))
        } else {
            None
        },
        first_fault(
            g.graph_id.fault(),
            first_fault(
                if g.workspace@.len() == 0 || utf8_len(g.workspace@) > 4096 {
                    Some(invalid_fault("graph workspace is invalid"@))
                } else if g.agent_id@.len() == 0 || utf8_len(g.agent_id@) > 256 {
                    Some(invalid_fault("graph agent id is invalid"@))
                } else if g.revision == 0 {
                    Some(invalid_fault("graph revision must be >= 1"@))
                } else {
                    None
                },
                first_fault(
                    graph_fault(g.spec),
                    if g.work@.len() != g.spec.work@.len() {
                        Some(
                            invalid_fault(
                                "graph work records do not match the specification"@,
                            ),
                        )
                    } else {
                        None
                    },
                ),
            ),
        ),
    )
}

/// What is wrong with a graph record: the first fault, in a fixed order.
pub open spec fn graph_record_fault(g: WorkGraphRecord) -> Option<Fault> {
    first_fault(
        head_fault(g),
        first_fault(
            scan(0, g.work@.len() as int, record_check(g)),
            first_fault(
                scan(0, g.leases@.len() as int, lease_check(g)),
                first_fault(
                    scan(0, g.attempts@.len() as int, attempt_check(g)),
                    first_fault(
                        scan(0, g.authorities@.len() as int, authority_check(g)),
                        if g.deadline_at <= g.created_at {
                            Some(invalid_fault("graph deadline is not after its creation"@))
                        } else {
                            None
                        },
                    ),
                ),
            ),
        ),
    )
}

/// `g` is a graph that nothing has happened to.
pub open spec fn is_new_graph(
    g: WorkGraphRecord,
    graph_id: GraphId,
    session_id: u128,
    workspace: Seq<char>,
    agent_id: Seq<char>,
    spec: WorkGraphSpec,
    now: i128,
) -> bool {
    &&& g.schema_version == GRAPH_STATE_SCHEMA_VERSION
    &&& g.graph_id == graph_id
    &&& g.session_id == session_id
    &&& g.workspace@ == workspace
    &&& g.agent_id@ == agent_id
    &&& g.revision == 1
    &&& g.lifecycle is Active
    &&& g.spec == spec
    &&& g.work@.len() == spec.work@.len()
    &&& forall|i: int|
        0 <= i < g.work@.len() ==> is_new_record(
            #[trigger] g.work@[i],
            spec.work@[i].work_id@,
            now,
        )
    &&& g.leases@.len() == 0
    &&& g.attempts@.len() == 0
    &&& g.authorities@.len() == 0
    &&& g.budget == (BudgetLedger { attempts_used: 0, tokens_used: 0, admissions_refused: 0 })
    &&& g.epoch == 0
    &&& g.stop_reason is None
    &&& g.created_at == now
    &&& g.updated_at == now
    &&& g.deadline_at == deadline(spec, now)
}

/// When a graph created at `now` must be done.
pub open spec fn deadline(spec: WorkGraphSpec, now: i128) -> int {
    now + spec.budget.max_wall_clock_ms * NANOS_PER_MILLI
}

/// How many of the first `n` items may still hold live capacity.
pub open spec fn slots_held(work: Seq<WorkRecord>, n: int) -> nat
    decreases n,
{
    if n <= 0 {
        0
    } else {
        slots_held(work, n - 1) + if work[n - 1].state.holds_slot() {
            1nat
        } else {
            0nat
        }
    }
}

/// Some item's fate is unknown.
pub open spec fn uncertain(g: WorkGraphRecord) -> bool {
    exists|i: int| 0 <= i < g.work@.len() && (#[trigger] g.work@[i]).state is DispatchUncertain
}

impl WorkGraphRecord {
    pub fn new(
        graph_id: GraphId,
        session_id: u128,
        workspace: &str,
        agent_id: &str,
        spec: WorkGraphSpec,
        now: i128,
    ) -> (r: Result<WorkGraphRecord, OrchError>)
        ensures
            match graph_fault(spec) {
                Some(f) => refused(r, f),
                None => if !is_named(deadline(spec, now)) {
                    refused(r, invalid_fault("graph deadline overflows"@))
                } else {
                    exists|g: WorkGraphRecord| #[trigger]
                        is_new_graph(
                            g,
                            graph_id,
                            session_id,
                            workspace@,
                            agent_id@,
                            spec,
                            now,
                        ) && match graph_record_fault(g) {
                            Some(f) => refused(r, f),
                            None => r == Ok::<WorkGraphRecord, OrchError>(g),
                        }
                },
            },
    {
        spec.validate()?;
        let mut work: Vec<WorkRecord> = Vec::new();
        let mut i: usize = 0;
        while i < spec.work.len()
            invariant
                i <= spec.work@.len(),
                work@.len() == i,
                forall|k: int|
                    0 <= k < i ==> is_new_record(
                        #[trigger] work@[k],
                        spec.work@[k].work_id@,
                        now,
                    ),
            decreases spec.work.len() - i,
        {
            work.push(WorkRecord::new(spec.work[i].work_id.clone(), now));
            i = i + 1;
        }
        proof {
            assert(spec.budget.max_wall_clock_ms <= 43_200_000);
            assert(spec.budget.max_wall_clock_ms * NANOS_PER_MILLI <= 43_200_000 * 1_000_000);
        }
        let span: i128 = spec.budget.max_wall_clock_ms as i128 * NANOS_PER_MILLI;
        let deadline_at: i128 = match later(now, span) {
            Some(t) => t,
            None => {
                return Err(invalid("graph deadline overflows"));
            },
        };
        let record = WorkGraphRecord {
            schema_version: GRAPH_STATE_SCHEMA_VERSION,
            graph_id,
            session_id,
            workspace: copy(workspace),
            agent_id: copy(agent_id),
            revision: 1,
            lifecycle: GraphLifecycle::Active,
            spec,
            work,
            leases: Vec::new(),
            attempts: Vec::new(),
            authorities: Vec::new(),
            budget: BudgetLedger { attempts_used: 0, tokens_used: 0, admissions_refused: 0 },
            epoch: 0,
            stop_reason: None,
            created_at: now,
            updated_at: now,
            deadline_at,
        };
        proof {
            assert(is_new_graph(
                record,
                graph_id,
                session_id,
                workspace@,
                agent_id@,
                spec,
                now,
            ));
        }
        record.validate()?;
        Ok(record)
    }

    fn record_repeats(&self, i: usize) -> (r: bool)
        requires
            i < self.work@.len(),
        ensures
            r == repeats(record_ids(self.work@), i as int),
    {
        let ghost t = record_ids(self.work@);
        let mut j: usize = 0;
        while j < i
            invariant
                j <= i < self.work@.len(),
                t == record_ids(self.work@),
                forall|k: int| 0 <= k < j ==> #[trigger] t[k] != t[i as int],
            decreases i - j,
        {
            if self.work[j].work_id.same(&self.work[i].work_id) {
                proof {
                    assert(t[j as int] == t[i as int]);
                }
                return true;
            }
            j = j + 1;
        }
        false
    }

    fn lease_repeats(&self, i: usize) -> (r: bool)
        requires
            i < self.leases@.len(),
        ensures
            r == repeats(lease_ids(self.leases@), i as int),
    {
        let ghost t = lease_ids(self.leases@);
        let mut j: usize = 0;
        while j < i
            invariant
                j <= i < self.leases@.len(),
                t == lease_ids(self.leases@),
                forall|k: int| 0 <= k < j ==> #[trigger] t[k] != t[i as int],
            decreases i - j,
        {
            if self.leases[j].lease_id.same(&self.leases[i].lease_id) {
                proof {
                    assert(t[j as int] == t[i as int]);
                }
                return true;
            }
            j = j + 1;
        }
        false
    }

    fn attempt_repeats(&self, i: usize) -> (r: bool)
        requires
            i < self.attempts@.len(),
        ensures
            r == repeats(attempt_ids(self.attempts@), i as int),
    {
        let ghost t = attempt_ids(self.attempts@);
        let mut j: usize = 0;
        while j < i
            invariant
                j <= i < self.attempts@.len(),
                t == attempt_ids(self.attempts@),
                forall|k: int| 0 <= k < j ==> #[trigger] t[k] != t[i as int],
            decreases i - j,
        {
            if self.attempts[j].attempt_id.same(&self.attempts[i].attempt_id) {
                proof {
                    assert(t[j as int] == t[i as int]);
                }
                return true;
            }
            j = j + 1;
        }
        false
    }

    fn authority_repeats(&self, i: usize) -> (r: bool)
        requires
            i < self.authorities@.len(),
        ensures
            r == repeats(authority_ids(self.authorities@), i as int),
    {
        let ghost t = authority_ids(self.authorities@);
        let mut j: usize = 0;
        while j < i
            invariant
                j <= i < self.authorities@.len(),
                t == authority_ids(self.authorities@),
                forall|k: int| 0 <= k < j ==> #[trigger] t[k] != t[i as int],
            decreases i - j,
        {
            if self.authorities[j].authority_id.same(&self.authorities[i].authority_id) {
                proof {
                    assert(t[j as int] == t[i as int]);
                }
                return true;
            }
            j = j + 1;
        }
        false
    }

    fn validate_head(&self) -> (r: Result<(), OrchError>)
        ensures
            judged(r, head_fault(*self)),
    {
        if self.schema_version != GRAPH_STATE_SCHEMA_VERSION {
            return Err(invalid("work graph state schema version is not supported"));
        }
        self.graph_id.validate()?;
        if self.workspace.as_str().is_empty() || byte_len(self.workspace.as_str()) > 4096 {
            return Err(invalid("graph workspace is invalid"));
        }
        if self.agent_id.as_str().is_empty() || byte_len(self.agent_id.as_str()) > 256 {
            return Err(invalid("graph agent id is invalid"));
        }
        if self.revision == 0 {
            return Err(invalid("graph revision must be >= 1"));
        }
        self.spec.validate()?;
        if self.work.len() != self.spec.work.len() {
            return Err(invalid("graph work records do not match the specification"));
        }
        Ok(())
    }

    fn validate_record(&self, i: usize) -> (r: Result<(), OrchError>)
        requires
            i < self.work@.len(),
        ensures
            judged(r, record_fault(*self, i as int)),
    {
        let record: &WorkRecord = &self.work[i];
        record.work_id.validate()?;
        if self.spec.find_work(&record.work_id).is_none() {
            return Err(
                invalid(
                    join2(
                        "graph carries a record for undeclared work ",
                        record.work_id.as_str(),
                    ).as_str(),
                ),
            );
        }
        if self.record_repeats(i) {
            return Err(
                invalid(
                    join2(
                        "graph carries duplicate records for work ",
                        record.work_id.as_str(),
                    ).as_str(),
                ),
            );
        }
        if record.evidence.len() > MAX_EVIDENCE_ENTRIES {
            return Err(invalid("work record evidence exceeds its bound"));
        }
        validate_evidence(&record.evidence)?;
        match &record.current_lease_id {
            Some(lease_id) => {
                lease_id.validate()?;
                if self.find_lease(lease_id).is_none() {
                    return Err(
                        invalid(
                            join3(
                                "work ",
                                record.work_id.as_str(),
                                " names a lease that is not in the ledger",
                            ).as_str(),
                        ),
                    );
                }
            },
            None => {},
        }
        let reviews: bool = match self.spec.role_of(&record.work_id) {
            Some(WorkerRole::Review) => true,
            _ => false,
        };
        if record.verdict.is_some() && !reviews {
            return Err(
                invalid(
                    join3(
                        "work ",
                        record.work_id.as_str(),
                        " carries a verdict but is not a review item",
                    ).as_str(),
                ),
            );
        }
        Ok(())
    }

    fn validate_records(&self) -> (r: Result<(), OrchError>)
        ensures
            judged(r, scan(0, self.work@.len() as int, record_check(*self))),
    {
        let ghost check = record_check(*self);
        let n: usize = self.work.len();
        let mut i: usize = 0;
        while i < n
            invariant
                i <= n,
                n == self.work@.len(),
                check == record_check(*self),
                scan(0, n as int, check) == scan(i as int, n as int, check),
            decreases n - i,
        {
            self.validate_record(i)?;
            i = i + 1;
        }
        Ok(())
    }

    fn validate_leases(&self) -> (r: Result<(), OrchError>)
        ensures
            judged(r, scan(0, self.leases@.len() as int, lease_check(*self))),
    {
        let ghost check = lease_check(*self);
        let n: usize = self.leases.len();
        let mut i: usize = 0;
        while i < n
            invariant
                i <= n,
                n == self.leases@.len(),
                check == lease_check(*self),
                scan(0, n as int, check) == scan(i as int, n as int, check),
            decreases n - i,
        {
            let lease: &LeaseRecord = &self.leases[i];
            lease.validate()?;
            if !lease.graph_id.same(&self.graph_id) {
                return Err(invalid("lease belongs to a different graph"));
            }
            if self.spec.find_work(&lease.work_id).is_none() {
                return Err(invalid("lease names undeclared work"));
            }
            if self.lease_repeats(i) {
                return Err(invalid("duplicate lease id in the ledger"));
            }
            i = i + 1;
        }
        Ok(())
    }

    fn validate_attempts(&self) -> (r: Result<(), OrchError>)
        ensures
            judged(r, scan(0, self.attempts@.len() as int, attempt_check(*self))),
    {
        let ghost check = attempt_check(*self);
        let n: usize = self.attempts.len();
        let mut i: usize = 0;
        while i < n
            invariant
                i <= n,
                n == self.attempts@.len(),
                check == attempt_check(*self),
                scan(0, n as int, check) == scan(i as int, n as int, check),
            decreases n - i,
        {
            let attempt: &ProviderAttemptRecord = &self.attempts[i];
            attempt.validate()?;
            if !attempt.graph_id.same(&self.graph_id) {
                return Err(invalid("attempt belongs to a different graph"));
            }
            if self.spec.find_work(&attempt.work_id).is_none() {
                return Err(invalid("attempt names undeclared work"));
            }
            if self.attempt_repeats(i) {
                return Err(invalid("duplicate attempt id in the ledger"));
            }
            i = i + 1;
        }
        Ok(())
    }

    fn validate_authorities(&self) -> (r: Result<(), OrchError>)
        ensures
            judged(r, scan(0, self.authorities@.len() as int, authority_check(*self))),
    {
        let ghost check = authority_check(*self);
        let n: usize = self.authorities.len();
        let mut i: usize = 0;
        while i < n
            invariant
                i <= n,
                n == self.authorities@.len(),
                check == authority_check(*self),
                scan(0, n as int, check) == scan(i as int, n as int, check),
            decreases n - i,
        {
            let authority: &ActionAuthority = &self.authorities[i];
            authority.validate()?;
            if !authority.graph_id.same(&self.graph_id) || authority.session_id != self.session_id
                || !str_eq(authority.workspace.as_str(), self.workspace.as_str()) || !str_eq(
                authority.agent_id.as_str(),
                self.agent_id.as_str(),
            ) {
                return Err(invalid("authority is not bound to this graph"));
            }
            if self.authority_repeats(i) {
                return Err(invalid("duplicate authority id in the ledger"));
            }
            i = i + 1;
        }
        Ok(())
    }

    /// Checks a record before it is trusted: every identity again, and that
    /// all references between items, leases, attempts and authorities resolve.
    pub fn validate(&self) -> (r: Result<(), OrchError>)
        ensures
            judged(r, graph_record_fault(*self)),
    {
        self.validate_head()?;
        self.validate_records()?;
        self.validate_leases()?;
        self.validate_attempts()?;
        self.validate_authorities()?;
        if self.deadline_at <= self.created_at {
            return Err(invalid("graph deadline is not after its creation"));
        }
        Ok(())
    }

    /// The position of a work record.
    pub fn find_record(&self, work_id: &WorkId) -> (r: Option<usize>)
        ensures
            match r {
                Some(i) => i < self.work@.len() && record_at(self.work@, work_id@) == Some(
                    i as int,
                ),
                None => record_at(self.work@, work_id@) is None,
            },
    {
        let ghost ids = record_ids(self.work@);
        let mut i: usize = 0;
        while i < self.work.len()
            invariant
                i <= self.work@.len(),
                ids == record_ids(self.work@),
                position_from(ids, work_id@, 0) == position_from(ids, work_id@, i as int),
            decreases self.work.len() - i,
        {
            if self.work[i].work_id.same(work_id) {
                return Some(i);
            }
            i = i + 1;
        }
        None
    }

    /// The position of a lease.
    pub fn find_lease(&self, lease_id: &LeaseId) -> (r: Option<usize>)
        ensures
            match r {
                Some(i) => i < self.leases@.len() && lease_at(self.leases@, lease_id@) == Some(
                    i as int,
                ),
                None => lease_at(self.leases@, lease_id@) is None,
            },
    {
        let ghost ids = lease_ids(self.leases@);
        let mut i: usize = 0;
        while i < self.leases.len()
            invariant
                i <= self.leases@.len(),
                ids == lease_ids(self.leases@),
                position_from(ids, lease_id@, 0) == position_from(ids, lease_id@, i as int),
            decreases self.leases.len() - i,
        {
            if self.leases[i].lease_id.same(lease_id) {
                return Some(i);
            }
            i = i + 1;
        }
        None
    }

    /// The position of an attempt.
    pub fn find_attempt(&self, attempt_id: &AttemptId) -> (r: Option<usize>)
        ensures
            match r {
                Some(i) => i < self.attempts@.len() && attempt_at(self.attempts@, attempt_id@)
                    == Some(i as int),
                None => attempt_at(self.attempts@, attempt_id@) is None,
            },
    {
        let ghost ids = attempt_ids(self.attempts@);
        let mut i: usize = 0;
        while i < self.attempts.len()
            invariant
                i <= self.attempts@.len(),
                ids == attempt_ids(self.attempts@),
                position_from(ids, attempt_id@, 0) == position_from(ids, attempt_id@, i as int),
            decreases self.attempts.len() - i,
        {
            if self.attempts[i].attempt_id.same(attempt_id) {
                return Some(i);
            }
            i = i + 1;
        }
        None
    }

    /// The position of an authority.
    pub fn find_authority(&self, authority_id: &AuthorityId) -> (r: Option<usize>)
        ensures
            match r {
                Some(i) => i < self.authorities@.len() && authority_at(
                    self.authorities@,
                    authority_id@,
                ) == Some(i as int),
                None => authority_at(self.authorities@, authority_id@) is None,
            },
    {
        let ghost ids = authority_ids(self.authorities@);
        let mut i: usize = 0;
        while i < self.authorities.len()
            invariant
                i <= self.authorities@.len(),
                ids == authority_ids(self.authorities@),
                position_from(ids, authority_id@, 0) == position_from(
                    ids,
                    authority_id@,
                    i as int,
                ),
            decreases self.authorities.len() - i,
        {
            if self.authorities[i].authority_id.same(authority_id) {
                return Some(i);
            }
            i = i + 1;
        }
        None
    }

    pub fn work_record(&self, work_id: &WorkId) -> (r: Option<&WorkRecord>)
        ensures
            match record_at(self.work@, work_id@) {
                Some(i) => r == Some(&self.work@[i]),
                None => r is None,
            },
    {
        match self.find_record(work_id) {
            Some(i) => Some(&self.work[i]),
            None => None,
        }
    }

    pub fn work_record_mut(&mut self, work_id: &WorkId) -> (r: Option<&mut WorkRecord>)
        ensures
            match record_at(old(self).work@, work_id@) {
                Some(i) => match r {
                    Some(w) => {
                        &&& *w == old(self).work@[i]
                        &&& final(self).work@ == old(self).work@.update(i, *final(w))
                        &&& *final(self) == (WorkGraphRecord {
                            work: final(self).work,
                            ..*old(self)
                        })
                    },
                    None => false,
                },
                None => r is None && *final(self) == *old(self),
            },
    {
        match self.find_record(work_id) {
            Some(i) => Some(&mut self.work[i]),
            None => None,
        }
    }

    pub fn lease(&self, lease_id: &LeaseId) -> (r: Option<&LeaseRecord>)
        ensures
            match lease_at(self.leases@, lease_id@) {
                Some(i) => r == Some(&self.leases@[i]),
                None => r is None,
            },
    {
        match self.find_lease(lease_id) {
            Some(i) => Some(&self.leases[i]),
            None => None,
        }
    }

    pub fn lease_mut(&mut self, lease_id: &LeaseId) -> (r: Option<&mut LeaseRecord>)
        ensures
            match lease_at(old(self).leases@, lease_id@) {
                Some(i) => match r {
                    Some(l) => {
                        &&& *l == old(self).leases@[i]
                        &&& final(self).leases@ == old(self).leases@.update(i, *final(l))
                        &&& *final(self) == (WorkGraphRecord {
                            leases: final(self).leases,
                            ..*old(self)
                        })
                    },
                    None => false,
                },
                None => r is None && *final(self) == *old(self),
            },
    {
        match self.find_lease(lease_id) {
            Some(i) => Some(&mut self.leases[i]),
            None => None,
        }
    }

    pub fn attempt(&self, attempt_id: &AttemptId) -> (r: Option<&ProviderAttemptRecord>)
        ensures
            match attempt_at(self.attempts@, attempt_id@) {
                Some(i) => r == Some(&self.attempts@[i]),
                None => r is None,
            },
    {
        match self.find_attempt(attempt_id) {
            Some(i) => Some(&self.attempts[i]),
            None => None,
        }
    }

    pub fn attempt_mut(&mut self, attempt_id: &AttemptId) -> (r: Option<
        &mut ProviderAttemptRecord,
    >)
        ensures
            match attempt_at(old(self).attempts@, attempt_id@) {
                Some(i) => match r {
                    Some(a) => {
                        &&& *a == old(self).attempts@[i]
                        &&& final(self).attempts@ == old(self).attempts@.update(i, *final(a))
                        &&& *final(self) == (WorkGraphRecord {
                            attempts: final(self).attempts,
                            ..*old(self)
                        })
                    },
                    None => false,
                },
                None => r is None && *final(self) == *old(self),
            },
    {
        match self.find_attempt(attempt_id) {
            Some(i) => Some(&mut self.attempts[i]),
            None => None,
        }
    }

    pub fn authority(&self, authority_id: &AuthorityId) -> (r: Option<&ActionAuthority>)
        ensures
            match authority_at(self.authorities@, authority_id@) {
                Some(i) => r == Some(&self.authorities@[i]),
                None => r is None,
            },
    {
        match self.find_authority(authority_id) {
            Some(i) => Some(&self.authorities[i]),
            None => None,
        }
    }

    /// How many items may still hold live capacity.
    pub fn in_flight(&self) -> (n: usize)
        ensures
            n == slots_held(self.work@, self.work@.len() as int),
    {
        let mut n: usize = 0;
        let mut i: usize = 0;
        while i < self.work.len()
            invariant
                i <= self.work@.len(),
                n <= i,
                n == slots_held(self.work@, i as int),
            decreases self.work.len() - i,
        {
            if self.work[i].state.occupies_slot() {
                n = n + 1;
            }
            i = i + 1;
        }
        n
    }

    /// Whether some item's fate is unknown. The graph declares no terminal
    /// outcome while this holds.
    pub fn has_uncertainty(&self) -> (r: bool)
        ensures
            r == uncertain(*self),
    {
        let mut i: usize = 0;
        while i < self.work.len()
            invariant
                i <= self.work@.len(),
                forall|k: int|
                    0 <= k < i ==> !((#[trigger] self.work@[k]).state is DispatchUncertain),
            decreases self.work.len() - i,
        {
            if self.work[i].state == WorkState::DispatchUncertain {
                return true;
            }
            i = i + 1;
        }
        false
    }
}

/// No two declared items, work records, leases or attempts of the graph share
/// an identity.
pub open spec fn well_formed(g: WorkGraphRecord) -> bool {
    &&& all_distinct(work_ids(g.spec.work@))
    &&& all_distinct(record_ids(g.work@))
    &&& all_distinct(lease_ids(g.leases@))
    &&& all_distinct(attempt_ids(g.attempts@))
}

/// A valid record is well formed.
pub proof fn valid_records_are_well_formed(g: WorkGraphRecord)
    requires
        graph_record_fault(g) is None,
    ensures
        well_formed(g),
{
    valid_graphs_have_distinct_work(g.spec);
    let ids = record_ids(g.work@);
    let check = record_check(g);
    assert forall|i: int, j: int| 0 <= i < j < ids.len() implies #[trigger] ids[i]
        != #[trigger] ids[j] by {
        clean_scan(0, g.work@.len() as int, check, j);
        assert(check(j) is None);
        assert(!repeats(ids, j));
    }
    let leases = lease_ids(g.leases@);
    let held = lease_check(g);
    assert forall|i: int, j: int| 0 <= i < j < leases.len() implies #[trigger] leases[i]
        != #[trigger] leases[j] by {
        clean_scan(0, g.leases@.len() as int, held, j);
        assert(held(j) is None);
        assert(!repeats(leases, j));
    }
    let attempts = attempt_ids(g.attempts@);
    let made = attempt_check(g);
    assert forall|i: int, j: int| 0 <= i < j < attempts.len() implies #[trigger] attempts[i]
        != #[trigger] attempts[j] by {
        clean_scan(0, g.attempts@.len() as int, made, j);
        assert(made(j) is None);
        assert(!repeats(attempts, j));
    }
}

/// In a valid record every lease that an item holds is in the ledger, and every
/// lease, attempt and authority belongs to this graph.
pub proof fn valid_references_resolve(g: WorkGraphRecord, w: int, l: int, a: int, u: int)
    requires
        graph_record_fault(g) is None,
        0 <= w < g.work@.len(),
        0 <= l < g.leases@.len(),
        0 <= a < g.attempts@.len(),
        0 <= u < g.authorities@.len(),
    ensures
        g.work@[w].current_lease_id is Some ==> lease_at(
            g.leases@,
            g.work@[w].current_lease_id->0@,
        ) is Some,
        work_at(g.spec.work@, g.work@[w].work_id@) is Some,
        g.leases@[l].graph_id@ == g.graph_id@,
        work_at(g.spec.work@, g.leases@[l].work_id@) is Some,
        g.attempts@[a].graph_id@ == g.graph_id@,
        work_at(g.spec.work@, g.attempts@[a].work_id@) is Some,
        g.authorities@[u].graph_id@ == g.graph_id@,
        g.authorities@[u].session_id == g.session_id,
        g.authorities@[u].workspace@ == g.workspace@,
        g.authorities@[u].agent_id@ == g.agent_id@,
{
    let records = record_check(g);
    clean_scan(0, g.work@.len() as int, records, w);
    assert(records(w) is None);
    let leases = lease_check(g);
    clean_scan(0, g.leases@.len() as int, leases, l);
    assert(leases(l) is None);
    let attempts = attempt_check(g);
    clean_scan(0, g.attempts@.len() as int, attempts, a);
    assert(attempts(a) is None);
    let authorities = authority_check(g);
    clean_scan(0, g.authorities@.len() as int, authorities, u);
    assert(authorities(u) is None);
}

/// A new graph has done nothing: every item waits, nothing was leased, sent or
/// used, and it ends when its time is over.
pub proof fn new_graphs_have_done_nothing(
    g: WorkGraphRecord,
    graph_id: GraphId,
    session_id: u128,
    workspace: Seq<char>,
    agent_id: Seq<char>,
    spec: WorkGraphSpec,
    now: i128,
)
    requires
        is_new_graph(g, graph_id, session_id, workspace, agent_id, spec, now),
    ensures
        g.lifecycle == GraphLifecycle::Active,
        g.work@.len() == spec.work@.len(),
        forall|i: int|
            0 <= i < g.work@.len() ==> {
                let w = #[trigger] g.work@[i];
                &&& w.work_id@ == spec.work@[i].work_id@
                &&& w.state == WorkState::Pending
                &&& w.attempts == 0
                &&& w.send_ordinal == 0
                &&& w.current_lease_id is None
                &&& w.verdict is None
            },
        g.leases@.len() == 0,
        g.attempts@.len() == 0,
        g.authorities@.len() == 0,
        g.budget.attempts_used == 0,
        g.budget.tokens_used == 0,
        g.spec == spec,
        g.session_id == session_id,
        g.workspace@ == workspace,
        g.agent_id@ == agent_id,
        g.stop_reason is None,
        g.created_at == now,
{
}

} // verus!
