//! Continuation checkpoints: points an agent may be resumed from, sealed by a
//! digest of what they say.

use crate::agent::{agent_fault, historical_lanes, known_lanes, AgentRecord, SpecFacts};
use crate::agent::{has_id, optional_id_fault};
use crate::digest::{digests_differ, hash_payload, no_collision, text_digest};
use crate::error::{
    conflict, conflict_fault, fault, first_fault, invalid, invalid_fault, judged, Fault, OrchError,
    OrchErrorCode,
};
use crate::json::{
    agreeing, field, field_keys, field_values, json_instant_text, json_object_text,
    json_string_text, json_uuid_text, Json,
};
use crate::text::{decimal, str_eq};
use crate::validate::{
    bounded_fault, id_fault, validate_bounded_string, validate_id, validate_workspace,
    workspace_fault,
};
use vstd::prelude::*;
use vstd::string::*;

verus! {

pub const MAX_AGENT_CONTEXT_BYTES: usize = 16384;

/// Why a checkpoint was made.
#[derive(Debug, Clone, Copy, PartialEq, Eq, Structural)]
pub enum ContinuationReason {
    TurnCompleted,
    Interrupted,
    Cancelled,
    Failed,
    LimitReached,
}

/// The wire name of a reason.
pub open spec fn reason_name(r: ContinuationReason) -> Seq<char> {
    match r {
        ContinuationReason::TurnCompleted => "turn_completed"@,
        ContinuationReason::Interrupted => "interrupted"@,
        ContinuationReason::Cancelled => "cancelled"@,
        ContinuationReason::Failed => "failed"@,
        ContinuationReason::LimitReached => "limit_reached"@,
    }
}

impl ContinuationReason {
    /// The wire name of this reason.
    pub fn as_str(self) -> (s: &'static str)
        ensures
            s@ == reason_name(self),
    {
        match self {
            ContinuationReason::TurnCompleted => "turn_completed",
            ContinuationReason::Interrupted => "interrupted",
            ContinuationReason::Cancelled => "cancelled",
            ContinuationReason::Failed => "failed",
            ContinuationReason::LimitReached => "limit_reached",
        }
    }
}

/// A point an agent may be resumed from.
#[derive(Debug, Clone)]
pub struct ContinuationCheckpoint {
    pub checkpoint_id: String,
    pub agent_id: String,
    pub session_id: u128,
    pub run_id: String,
    /// The agent revision in force; missing on checkpoints of the first form.
    pub agent_spec_revision: Option<u64>,
    pub parent_checkpoint_id: Option<String>,
    pub ordinal: u64,
    pub workspace: String,
    pub context_summary: String,
    pub context_hash: String,
    pub event_seq: u64,
    pub reason: ContinuationReason,
    pub created_at: i128,
}

/// The JSON text of an optional string.
pub open spec fn json_option_text(s: Option<String>) -> Seq<char> {
    match s {
        Some(s) => json_string_text(s@),
        None => "null"@,
    }
}

/// The names of what the digest of a checkpoint is taken of.
pub open spec fn checkpoint_keys() -> Seq<Seq<char>> {
    seq![
        "schemaVersion"@,
        "agentId"@,
        "agentSpecRevision"@,
        "sessionId"@,
        "runId"@,
        "parentCheckpointId"@,
        "ordinal"@,
        "workspace"@,
        "contextSummary"@,
        "eventSeq"@,
        "reason"@,
        "createdAt"@,
    ]
}

/// Those for a checkpoint without a revision.
pub open spec fn early_checkpoint_keys() -> Seq<Seq<char>> {
    seq![
        "agentId"@,
        "runId"@,
        "ordinal"@,
        "contextSummary"@,
    ]
}

/// What the digest of a checkpoint with this revision is taken of.
pub open spec fn checkpoint_values(c: ContinuationCheckpoint, revision: u64) -> Seq<Seq<char>> {
    seq![
        decimal(2),
        json_string_text(c.agent_id@),
        decimal(revision as nat),
        json_uuid_text(c.session_id),
        json_string_text(c.run_id@),
        json_option_text(c.parent_checkpoint_id),
        decimal(c.ordinal as nat),
        json_string_text(c.workspace@),
        json_string_text(c.context_summary@),
        decimal(c.event_seq as nat),
        json_string_text(reason_name(c.reason)),
        json_instant_text(c.created_at as int),
    ]
}

/// That of a checkpoint without a revision.
pub open spec fn early_checkpoint_values(c: ContinuationCheckpoint) -> Seq<Seq<char>> {
    seq![
        json_string_text(c.agent_id@),
        json_string_text(c.run_id@),
        decimal(c.ordinal as nat),
        json_string_text(c.context_summary@),
    ]
}

/// The document that the digest of a checkpoint is taken of. Checkpoints
/// without a revision are sealed over fewer fields.
pub open spec fn checkpoint_material(c: ContinuationCheckpoint) -> Seq<char> {
    match c.agent_spec_revision {
        Some(revision) => json_object_text(checkpoint_keys(), checkpoint_values(c, revision)),
        None => json_object_text(early_checkpoint_keys(), early_checkpoint_values(c)),
    }
}

/// The names in a checkpoint's document are distinct.
proof fn checkpoint_keys_differ()
    ensures
        checkpoint_keys().no_duplicates(),
{
    reveal_strlit("schemaVersion");
    reveal_strlit("agentId");
    reveal_strlit("agentSpecRevision");
    reveal_strlit("sessionId");
    reveal_strlit("runId");
    reveal_strlit("parentCheckpointId");
    reveal_strlit("ordinal");
    reveal_strlit("workspace");
    reveal_strlit("contextSummary");
    reveal_strlit("eventSeq");
    reveal_strlit("reason");
    reveal_strlit("createdAt");
    let k = checkpoint_keys();
    assert(k[0].len() == 13);
    assert(k[1].len() == 7 && k[1][0] == 'a');
    assert(k[2].len() == 17);
    assert(k[3].len() == 9 && k[3][0] == 's');
    assert(k[4].len() == 5);
    assert(k[5].len() == 18);
    assert(k[6].len() == 7 && k[6][0] == 'o');
    assert(k[7].len() == 9 && k[7][0] == 'w');
    assert(k[8].len() == 14);
    assert(k[9].len() == 8);
    assert(k[10].len() == 6);
    assert(k[11].len() == 9 && k[11][0] == 'c');
    assert forall|i: int, j: int| 0 <= i < k.len() && 0 <= j < k.len() && i != j implies k[i]
        != k[j] by {
        assert(i == 0 || i == 1 || i == 2 || i == 3 || i == 4 || i == 5 || i == 6 || i == 7 ||
            i == 8 || i == 9 || i == 10 || i == 11);
        assert(j == 0 || j == 1 || j == 2 || j == 3 || j == 4 || j == 5 || j == 6 || j == 7 ||
            j == 8 || j == 9 || j == 10 || j == 11);
        assert(k[i].len() != k[j].len() || k[i][0] != k[j][0]);
    }
}

/// They are so without a revision as well.
proof fn early_checkpoint_keys_differ()
    ensures
        early_checkpoint_keys().no_duplicates(),
{
    reveal_strlit("agentId");
    reveal_strlit("runId");
    reveal_strlit("ordinal");
    reveal_strlit("contextSummary");
    let k = early_checkpoint_keys();
    assert(k[0].len() == 7 && k[0][0] == 'a');
    assert(k[1].len() == 5);
    assert(k[2].len() == 7 && k[2][0] == 'o');
    assert(k[3].len() == 14);
    assert forall|i: int, j: int| 0 <= i < k.len() && 0 <= j < k.len() && i != j implies k[i]
        != k[j] by {
        assert(i == 0 || i == 1 || i == 2 || i == 3);
        assert(j == 0 || j == 1 || j == 2 || j == 3);
        assert(k[i].len() != k[j].len() || k[i][0] != k[j][0]);
    }
}

/// Two checkpoints say the same in every text that their digest is taken of.
pub open spec fn same_checkpoint_texts(
    a: ContinuationCheckpoint,
    b: ContinuationCheckpoint,
) -> bool {
    &&& a.agent_id@ == b.agent_id@
    &&& a.run_id@ == b.run_id@
    &&& a.context_summary@ == b.context_summary@
    &&& a.agent_spec_revision is Some ==> a.workspace@ == b.workspace@
}

/// No checkpoint of the same shape with other texts has the document of this one.
pub open spec fn checkpoint_is_told_apart(c: ContinuationCheckpoint) -> bool {
    forall|other: ContinuationCheckpoint|
        other.agent_spec_revision is Some == c.agent_spec_revision is Some
            && #[trigger] checkpoint_material(other) == checkpoint_material(c)
            ==> same_checkpoint_texts(other, c)
}

/// The digest a checkpoint must carry.
pub open spec fn checkpoint_digest(c: ContinuationCheckpoint) -> Seq<char> {
    text_digest(checkpoint_material(c))
}

/// What is wrong with a checkpoint.
pub open spec fn checkpoint_fault(c: ContinuationCheckpoint) -> Option<Fault> {
    first_fault(
        id_fault(c.checkpoint_id@, "checkpoint_id"@),
        first_fault(
            id_fault(c.agent_id@, "agent_id"@),
            first_fault(
                id_fault(c.run_id@, "run_id"@),
                first_fault(
                    if c.agent_spec_revision == Some(0u64) {
                        Some(invalid_fault("checkpoint Agent specification revision is invalid"@))
                    } else {
                        None
                    },
                    first_fault(
                        optional_id_fault(c.parent_checkpoint_id, "parent_checkpoint_id"@),
                        first_fault(
                            workspace_fault(c.workspace@),
                            first_fault(
                                bounded_fault(
                                    c.context_summary@,
                                    MAX_AGENT_CONTEXT_BYTES as int,
                                    "context_summary"@,
                                ),
                                if c.context_hash@ != checkpoint_digest(c) {
                                    Some(invalid_fault("checkpoint context hash is invalid"@))
                                } else {
                                    None
                                },
                            ),
                        ),
                    ),
                ),
            ),
        ),
    )
}

/// A JSON string, or null.
pub fn json_option(s: &Option<String>) -> (j: Json)
    ensures
        j@ == json_option_text(*s),
{
    match s {
        Some(s) => Json::string(s.as_str()),
        None => Json::null(),
    }
}

impl ContinuationCheckpoint {
    /// The digest this checkpoint must carry.
    pub fn context_hash_for(&self) -> (d: String)
        ensures
            d@ == checkpoint_digest(*self),
            d@.len() == 64,
            checkpoint_is_told_apart(*self),
    {
        match self.agent_spec_revision {
            Some(revision) => {
                let fields: Vec<(String, Json)> = vec![
                    field("schemaVersion", Json::number(2)),
                    field("agentId", Json::string(self.agent_id.as_str())),
                    field("agentSpecRevision", Json::number(revision)),
                    field("sessionId", Json::uuid(self.session_id)),
                    field("runId", Json::string(self.run_id.as_str())),
                    field("parentCheckpointId", json_option(&self.parent_checkpoint_id)),
                    field("ordinal", Json::number(self.ordinal)),
                    field("workspace", Json::string(self.workspace.as_str())),
                    field("contextSummary", Json::string(self.context_summary.as_str())),
                    field("eventSeq", Json::number(self.event_seq)),
                    field("reason", Json::string(self.reason.as_str())),
                    field("createdAt", Json::instant(self.created_at)),
                ];
                proof {
                    assert(field_keys(fields@) =~= checkpoint_keys());
                    assert(field_values(fields@) =~= checkpoint_values(*self, revision));
                    checkpoint_keys_differ();
                }
                let document: Json = Json::object(fields);
                proof {
                    assert forall|other: ContinuationCheckpoint|
                        other.agent_spec_revision is Some == self.agent_spec_revision is Some
                            && #[trigger] checkpoint_material(other) == checkpoint_material(
                            *self,
                        ) implies same_checkpoint_texts(other, *self) by {
                        let x = checkpoint_values(*self, revision);
                        let y = checkpoint_values(other, other.agent_spec_revision->0);
                        assert(agreeing(x, y));
                        assert(x[1] == json_string_text(self.agent_id@));
                        assert(y[1] == json_string_text(other.agent_id@));
                        assert(x[4] == json_string_text(self.run_id@));
                        assert(y[4] == json_string_text(other.run_id@));
                        assert(x[7] == json_string_text(self.workspace@));
                        assert(y[7] == json_string_text(other.workspace@));
                        assert(x[8] == json_string_text(self.context_summary@));
                        assert(y[8] == json_string_text(other.context_summary@));
                    }
                }
                hash_payload(&document)
            },
            None => {
                let fields: Vec<(String, Json)> = vec![
                    field("agentId", Json::string(self.agent_id.as_str())),
                    field("runId", Json::string(self.run_id.as_str())),
                    field("ordinal", Json::number(self.ordinal)),
                    field("contextSummary", Json::string(self.context_summary.as_str())),
                ];
                proof {
                    assert(field_keys(fields@) =~= early_checkpoint_keys());
                    assert(field_values(fields@) =~= early_checkpoint_values(*self));
                    early_checkpoint_keys_differ();
                }
                let document: Json = Json::object(fields);
                proof {
                    assert forall|other: ContinuationCheckpoint|
                        other.agent_spec_revision is Some == self.agent_spec_revision is Some
                            && #[trigger] checkpoint_material(other) == checkpoint_material(
                            *self,
                        ) implies same_checkpoint_texts(other, *self) by {
                        let x = early_checkpoint_values(*self);
                        let y = early_checkpoint_values(other);
                        assert(agreeing(x, y));
                        assert(x[0] == json_string_text(self.agent_id@));
                        assert(y[0] == json_string_text(other.agent_id@));
                        assert(x[1] == json_string_text(self.run_id@));
                        assert(y[1] == json_string_text(other.run_id@));
                        assert(x[3] == json_string_text(self.context_summary@));
                        assert(y[3] == json_string_text(other.context_summary@));
                    }
                }
                hash_payload(&document)
            },
        }
    }

    /// Refuses checkpoints over their bounds and those whose digest is not
    /// the one of what they say.
    pub fn validate(&self) -> (r: Result<(), OrchError>)
        ensures
            judged(r, checkpoint_fault(*self)),
            r is Ok ==> checkpoint_is_told_apart(*self),
    {
        validate_id(self.checkpoint_id.as_str(), "checkpoint_id")?;
        validate_id(self.agent_id.as_str(), "agent_id")?;
        validate_id(self.run_id.as_str(), "run_id")?;
        match self.agent_spec_revision {
            Some(n) => {
                if n == 0 {
                    return Err(invalid("checkpoint Agent specification revision is invalid"));
                }
            },
            None => {},
        }
        match &self.parent_checkpoint_id {
            Some(parent) => {
                validate_id(parent.as_str(), "parent_checkpoint_id")?;
            },
            None => {},
        }
        validate_workspace(self.workspace.as_str())?;
        validate_bounded_string(
            self.context_summary.as_str(),
            MAX_AGENT_CONTEXT_BYTES,
            "context_summary",
        )?;
        let expected: String = self.context_hash_for();
        if !str_eq(self.context_hash.as_str(), expected.as_str()) {
            return Err(invalid("checkpoint context hash is invalid"));
        }
        Ok(())
    }
}

/// A checkpoint that passes stops passing when it is made to say something under
/// which the sealed document has a different digest.
pub proof fn checkpoints_are_tamper_evident(c: ContinuationCheckpoint, changed: ContinuationCheckpoint)
    requires
        checkpoint_fault(c) is None,
        changed.context_hash == c.context_hash,
        checkpoint_digest(changed) != checkpoint_digest(c),
    ensures
        checkpoint_fault(changed) is Some,
{
}

/// A checkpoint that passes is refused once its summary, agent, run or, where it
/// has a revision, workspace is changed and its hash is not; unless the old and
/// the new document happen to have one SHA-256 digest. Validating a checkpoint
/// establishes that it is told apart.
pub proof fn changed_checkpoints_are_refused(
    c: ContinuationCheckpoint,
    changed: ContinuationCheckpoint,
)
    requires
        checkpoint_fault(c) is None,
        checkpoint_is_told_apart(c),
        changed.context_hash == c.context_hash,
        changed.agent_spec_revision is Some == c.agent_spec_revision is Some,
        !same_checkpoint_texts(changed, c),
        no_collision(checkpoint_material(changed), checkpoint_material(c)),
    ensures
        checkpoint_fault(changed) is Some,
{
    digests_differ(checkpoint_material(changed), checkpoint_material(c));
}

/// Two workspace paths name the same place: they are equal, or both could be
/// resolved and resolve to the same path.
pub open spec fn same_workspace(
    left: Seq<char>,
    right: Seq<char>,
    left_resolved: Option<String>,
    right_resolved: Option<String>,
) -> bool {
    left == right || (left_resolved is Some && right_resolved is Some && left_resolved->0@
        == right_resolved->0@)
}

/// Whether two workspace paths name the same place, given what each resolves
/// to on disk.
pub fn workspaces_match(
    left: &str,
    right: &str,
    left_resolved: &Option<String>,
    right_resolved: &Option<String>,
) -> (r: bool)
    ensures
        r == same_workspace(left@, right@, *left_resolved, *right_resolved),
{
    if str_eq(left, right) {
        return true;
    }
    match (left_resolved, right_resolved) {
        (Some(l), Some(r)) => str_eq(l.as_str(), r.as_str()),
        _ => false,
    }
}

/// A request to continue an agent from a checkpoint.
#[derive(Debug, Clone)]
pub struct AgentResumePlan {
    pub agent: AgentRecord,
    pub checkpoint: ContinuationCheckpoint,
    pub parent_run_id: String,
}

/// What the workspaces of a resume plan resolve to on disk.
#[derive(Debug)]
pub struct ResumePaths {
    pub agent: Option<String>,
    pub checkpoint: Option<String>,
    pub requested: Option<String>,
}

/// The plan is for this lane and workspace, and its parts belong together.
pub open spec fn plan_fits(
    plan: AgentResumePlan,
    session_id: u128,
    workspace: Seq<char>,
    paths: ResumePaths,
) -> bool {
    &&& known_lanes(plan.agent).contains(session_id)
    &&& historical_lanes(plan.agent).contains(plan.checkpoint.session_id)
    &&& same_workspace(plan.agent.workspace@, workspace, paths.agent, paths.requested)
    &&& same_workspace(plan.checkpoint.workspace@, workspace, paths.checkpoint, paths.requested)
    &&& plan.checkpoint.agent_id@ == plan.agent.agent_id@
    &&& plan.agent.latest_checkpoint_id is Some
    &&& plan.agent.latest_checkpoint_id->0@ == plan.checkpoint.checkpoint_id@
    &&& plan.parent_run_id@ == plan.checkpoint.run_id@
}

/// Why a resume plan is refused.
pub open spec fn resume_fault(
    plan: AgentResumePlan,
    facts: SpecFacts,
    session_id: u128,
    workspace: Seq<char>,
    paths: ResumePaths,
) -> Option<Fault> {
    first_fault(
        agent_fault(plan.agent, facts),
        first_fault(
            checkpoint_fault(plan.checkpoint),
            if !plan.agent.state.resumable() {
                Some(conflict_fault("agent is active and cannot be resumed"@))
            } else if !plan_fits(plan, session_id, workspace, paths) {
                Some(
                    fault(
                        OrchErrorCode::WorkspaceMismatch,
                        "resume plan does not match the requested session workspace"@,
                    ),
                )
            } else {
                None
            },
        ),
    )
}

impl AgentResumePlan {
    /// Refuses plans for another lane or workspace, plans whose parts do not
    /// belong together, and plans for an agent at work.
    pub fn validate_for(
        &self,
        facts: &SpecFacts,
        session_id: u128,
        workspace: &str,
        paths: &ResumePaths,
    ) -> (r: Result<(), OrchError>)
        ensures
            judged(r, resume_fault(*self, *facts, session_id, workspace@, *paths)),
    {
        self.agent.validate(facts)?;
        self.checkpoint.validate()?;
        if !self.agent.state.can_resume() {
            return Err(conflict("agent is active and cannot be resumed"));
        }
        let known: Vec<u128> = self.agent.known_lane_ids();
        let historical: Vec<u128> = self.agent.historical_lane_ids();
        let latest: bool = match &self.agent.latest_checkpoint_id {
            Some(id) => str_eq(id.as_str(), self.checkpoint.checkpoint_id.as_str()),
            None => false,
        };
        if !has_id(&known, session_id) || !has_id(&historical, self.checkpoint.session_id)
            || !workspaces_match(
            self.agent.workspace.as_str(),
            workspace,
            &paths.agent,
            &paths.requested,
        ) || !workspaces_match(
            self.checkpoint.workspace.as_str(),
            workspace,
            &paths.checkpoint,
            &paths.requested,
        ) || !str_eq(self.checkpoint.agent_id.as_str(), self.agent.agent_id.as_str()) || !latest
            || !str_eq(self.parent_run_id.as_str(), self.checkpoint.run_id.as_str()) {
            return Err(
                OrchError::new(
                    OrchErrorCode::WorkspaceMismatch,
                    "resume plan does not match the requested session workspace",
                ),
            );
        }
        Ok(())
    }
}

/// An agent is resumed only where it waits, was interrupted or failed, from its
/// own latest checkpoint and the run that left it, in a lane it has now and in
/// the workspace that agent and checkpoint both name; and it is resumed
/// wherever these hold of sound records.
pub proof fn agents_resume_from_their_latest_checkpoint(
    plan: AgentResumePlan,
    facts: SpecFacts,
    session_id: u128,
    workspace: Seq<char>,
    paths: ResumePaths,
)
    ensures
        resume_fault(plan, facts, session_id, workspace, paths) is None <==> {
            &&& agent_fault(plan.agent, facts) is None
            &&& checkpoint_fault(plan.checkpoint) is None
            &&& plan.agent.state is Waiting || plan.agent.state is Interrupted
                || plan.agent.state is Failed
            &&& known_lanes(plan.agent).contains(session_id)
            &&& historical_lanes(plan.agent).contains(plan.checkpoint.session_id)
            &&& plan.agent.workspace@ == workspace || paths.agent is Some
                && paths.requested is Some && paths.agent->0@ == paths.requested->0@
            &&& plan.checkpoint.workspace@ == workspace || paths.checkpoint is Some
                && paths.requested is Some && paths.checkpoint->0@ == paths.requested->0@
            &&& plan.checkpoint.agent_id@ == plan.agent.agent_id@
            &&& plan.agent.latest_checkpoint_id is Some
            &&& plan.agent.latest_checkpoint_id->0@ == plan.checkpoint.checkpoint_id@
            &&& plan.parent_run_id@ == plan.checkpoint.run_id@
        },
{
}

} // verus!
