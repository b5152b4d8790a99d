//! Durable agents: their specification, their lanes and what a stored record
//! of one must satisfy.

use crate::bounds::{bounds_fault, default_bounds, RunBounds};
use crate::error::{as_fault, first_fault, invalid, invalid_fault, judged, Fault, OrchError};
use crate::json::Json;
use crate::text::{copy, join2, str_eq};
use crate::validate::{
    bounded_fault, id_fault, scan, validate_bounded_string, validate_id, validate_workspace,
    workspace_fault,
};
use vstd::prelude::*;
use vstd::string::*;

verus! {

pub const MAX_AGENT_MODEL_BYTES: usize = 256;

pub const MAX_AGENT_DISPLAY_NAME_BYTES: usize = 128;

pub const MAX_AGENT_ROLE_BYTES: usize = 512;

pub const MAX_AGENT_POLICY_ENTRY_BYTES: usize = 512;

pub const MAX_AGENT_OWNER_ID_BYTES: usize = 128;

pub const AGENT_SPEC_SCHEMA_VERSION: u32 = 1;

pub const DEFAULT_PERSISTENT_AGENT_MAX_TOTAL_TOKENS: u64 = 250_000;

/// The tools of an agent whose record predates the capture of tools.
pub const DEFAULT_AGENT_TOOL_IDS: [&'static str; 15] = [
    "list_dir",
    "read_file",
    "grep",
    "write_file",
    "write_files",
    "run_terminal_cmd",
    "glob_files",
    "apply_patch",
    "spawn_general_purpose",
    "spawn_explore",
    "todo_write",
    "memory_write",
    "memory_read",
    "web_fetch",
    "kill_task",
];

#[derive(Debug, Clone, Copy, PartialEq, Eq, Structural)]
pub enum AgentState {
    Active,
    Waiting,
    Interrupted,
    Failed,
    Completed,
}

impl AgentState {
    /// Whether an agent in this state may be resumed.
    pub open spec fn resumable(self) -> bool {
        self is Waiting || self is Interrupted || self is Failed
    }

    pub fn can_resume(self) -> (r: bool)
        ensures
            r == self.resumable(),
    {
        matches!(self, AgentState::Waiting | AgentState::Interrupted | AgentState::Failed)
    }

    /// Whether an agent in this state may act as a worker or message party.
    pub open spec fn acting(self) -> bool {
        !(self is Failed) && !(self is Completed)
    }

    pub fn is_active_identity(self) -> (r: bool)
        ensures
            r == self.acting(),
    {
        !matches!(self, AgentState::Failed | AgentState::Completed)
    }
}

/// What the model gateway reads from a selection key.
#[derive(Debug, Clone, PartialEq, Eq)]
pub struct ModelSelection {
    pub provider_id: String,
    pub model_id: String,
}

/// The provider and model an agent revision is bound to.
#[derive(Debug, Clone, PartialEq, Eq)]
pub struct AgentModelSpec {
    pub selection_key: String,
    pub provider_id: String,
    pub model_id: String,
}

/// The fault of a selection key that the gateway could not read.
pub open spec fn selection_fault(parsed: Result<ModelSelection, String>) -> Option<Fault> {
    match parsed {
        Ok(_) => None,
        Err(e) => Some(invalid_fault("agent model selection is invalid: "@ + e@)),
    }
}

/// What is wrong with a model route, given how its key was read.
pub open spec fn model_fault(
    m: AgentModelSpec,
    parsed: Result<ModelSelection, String>,
) -> Option<Fault> {
    first_fault(
        bounded_fault(m.selection_key@, MAX_AGENT_MODEL_BYTES as int, "model.selection_key"@),
        first_fault(
            selection_fault(parsed),
            if parsed->Ok_0.provider_id@ != m.provider_id@ || parsed->Ok_0.model_id@
                != m.model_id@ {
                Some(invalid_fault("agent model route does not match its selection key"@))
            } else {
                None
            },
        ),
    )
}

impl AgentModelSpec {
    /// The route of a selection key, given how the gateway reads it.
    pub fn from_selection_key(
        selection_key: &str,
        parsed: &Result<ModelSelection, String>,
    ) -> (r: Result<AgentModelSpec, OrchError>)
        ensures
            match parsed {
                Ok(p) => r is Ok && r->Ok_0.selection_key@ == selection_key@
                    && r->Ok_0.provider_id == p.provider_id && r->Ok_0.model_id == p.model_id,
                Err(e) => r is Err && r->Err_0.is(selection_fault(*parsed)->0),
            },
    {
        match parsed {
            Ok(p) => Ok(
                AgentModelSpec {
                    selection_key: copy(selection_key),
                    provider_id: p.provider_id.clone(),
                    model_id: p.model_id.clone(),
                },
            ),
            Err(e) => Err(
                invalid(join2("agent model selection is invalid: ", e.as_str()).as_str()),
            ),
        }
    }

    /// Refuses a route that is not the one its key is read as.
    pub fn validate(&self, parsed: &Result<ModelSelection, String>) -> (r: Result<(), OrchError>)
        ensures
            judged(r, model_fault(*self, *parsed)),
    {
        validate_bounded_string(
            self.selection_key.as_str(),
            MAX_AGENT_MODEL_BYTES,
            "model.selection_key",
        )?;
        let route: AgentModelSpec = Self::from_selection_key(self.selection_key.as_str(), parsed)?;
        if !str_eq(route.provider_id.as_str(), self.provider_id.as_str()) || !str_eq(
            route.model_id.as_str(),
            self.model_id.as_str(),
        ) {
            return Err(invalid("agent model route does not match its selection key"));
        }
        Ok(())
    }
}

/// The most an agent may be allowed to do.
#[derive(Debug, Clone, PartialEq, Eq)]
pub struct AgentAuthorityPolicy {
    pub sandbox_profile: String,
    pub bypass_permissions: bool,
    pub allowed_tools: Vec<String>,
    pub allowed_mcp_servers: Vec<String>,
    pub computer_use_allowed: bool,
    pub auto_allowed_tools: Vec<String>,
    pub allow_rules: Vec<String>,
    pub deny_rules: Vec<String>,
}

/// Checks one entry of a list of texts.
pub open spec fn entry_check(values: Seq<String>, field: Seq<char>) -> spec_fn(int) -> Option<
    Fault,
> {
    |i: int| bounded_fault(values[i]@, MAX_AGENT_POLICY_ENTRY_BYTES as int, field)
}

/// What is wrong with a list of policy entries.
pub open spec fn entries_fault(values: Seq<String>, field: Seq<char>) -> Option<Fault> {
    if values.len() > 256 {
        Some(invalid_fault(field + " exceeds its entry bound"@))
    } else {
        scan(0, values.len() as int, entry_check(values, field))
    }
}

pub open spec fn known_sandbox(profile: Seq<char>) -> bool {
    profile == "read-only"@ || profile == "workspace-write"@ || profile == "full"@
}

/// What is wrong with an authority policy.
pub open spec fn authority_fault(p: AgentAuthorityPolicy) -> Option<Fault> {
    first_fault(
        bounded_fault(
            p.sandbox_profile@,
            MAX_AGENT_POLICY_ENTRY_BYTES as int,
            "authority.sandbox_profile"@,
        ),
        first_fault(
            if !known_sandbox(p.sandbox_profile@) {
                Some(invalid_fault("authority.sandbox_profile is unknown"@))
            } else {
                None
            },
            first_fault(
                entries_fault(p.allowed_tools@, "authority.allowed_tools"@),
                first_fault(
                    entries_fault(p.allowed_mcp_servers@, "authority.allowed_mcp_servers"@),
                    first_fault(
                        entries_fault(p.auto_allowed_tools@, "authority.auto_allowed_tools"@),
                        first_fault(
                            entries_fault(p.allow_rules@, "authority.allow_rules"@),
                            entries_fault(p.deny_rules@, "authority.deny_rules"@),
                        ),
                    ),
                ),
            ),
        ),
    )
}

fn validate_entries(values: &Vec<String>, field: &str) -> (r: Result<(), OrchError>)
    ensures
        judged(r, entries_fault(values@, field@)),
{
    if values.len() > 256 {
        return Err(invalid(join2(field, " exceeds its entry bound").as_str()));
    }
    let ghost check = entry_check(values@, field@);
    let mut i: usize = 0;
    while i < values.len()
        invariant
            i <= values@.len() <= 256,
            check == entry_check(values@, field@),
            scan(0, values@.len() as int, check) == scan(i as int, values@.len() as int, check),
        decreases values.len() - i,
    {
        validate_bounded_string(values[i].as_str(), MAX_AGENT_POLICY_ENTRY_BYTES, field)?;
        i = i + 1;
    }
    Ok(())
}

/// The policy of an agent whose record predates the capture of policies.
pub open spec fn is_legacy_authority(p: AgentAuthorityPolicy) -> bool {
    &&& p.sandbox_profile@ == "workspace-write"@
    &&& !p.bypass_permissions
    &&& p.allowed_tools@.len() == DEFAULT_AGENT_TOOL_IDS@.len()
    &&& forall|i: int|
        0 <= i < p.allowed_tools@.len() ==> (#[trigger] p.allowed_tools@[i])@
            == DEFAULT_AGENT_TOOL_IDS@[i]@
    &&& p.allowed_mcp_servers@.len() == 1
    &&& p.allowed_mcp_servers@[0]@ == "*"@
    &&& !p.computer_use_allowed
    &&& p.auto_allowed_tools@.len() == 0
    &&& p.allow_rules@.len() == 0
    &&& p.deny_rules@.len() == 0
}

impl Default for AgentAuthorityPolicy {
    fn default() -> (p: AgentAuthorityPolicy)
        ensures
            is_legacy_authority(p),
    {
        let mut tools: Vec<String> = Vec::new();
        let ids: [&'static str; 15] = DEFAULT_AGENT_TOOL_IDS;
        let mut i: usize = 0;
        while i < 15
            invariant
                i <= 15,
                ids == DEFAULT_AGENT_TOOL_IDS,
                tools@.len() == i,
                forall|j: int|
                    0 <= j < i ==> (#[trigger] tools@[j])@ == DEFAULT_AGENT_TOOL_IDS@[j]@,
            decreases 15 - i,
        {
            tools.push(copy(ids[i]));
            i = i + 1;
        }
        let mut servers: Vec<String> = Vec::new();
        servers.push(copy("*"));
        AgentAuthorityPolicy {
            sandbox_profile: copy("workspace-write"),
            bypass_permissions: false,
            allowed_tools: tools,
            allowed_mcp_servers: servers,
            computer_use_allowed: false,
            auto_allowed_tools: Vec::new(),
            allow_rules: Vec::new(),
            deny_rules: Vec::new(),
        }
    }
}

impl AgentAuthorityPolicy {
    /// Refuses unknown sandboxes and lists or entries over their bounds.
    pub fn validate(&self) -> (r: Result<(), OrchError>)
        ensures
            judged(r, authority_fault(*self)),
    {
        validate_bounded_string(
            self.sandbox_profile.as_str(),
            MAX_AGENT_POLICY_ENTRY_BYTES,
            "authority.sandbox_profile",
        )?;
        let s: &str = self.sandbox_profile.as_str();
        if !(str_eq(s, "read-only") || str_eq(s, "workspace-write") || str_eq(s, "full")) {
            return Err(invalid("authority.sandbox_profile is unknown"));
        }
        validate_entries(&self.allowed_tools, "authority.allowed_tools")?;
        validate_entries(&self.allowed_mcp_servers, "authority.allowed_mcp_servers")?;
        validate_entries(&self.auto_allowed_tools, "authority.auto_allowed_tools")?;
        validate_entries(&self.allow_rules, "authority.allow_rules")?;
        validate_entries(&self.deny_rules, "authority.deny_rules")?;
        Ok(())
    }
}

/// Which memories an agent reads and writes.
#[derive(Debug, Clone, PartialEq, Eq)]
pub struct AgentMemoryPolicy {
    pub project_scope: bool,
    pub agent_private_scope: bool,
    pub team_ids: Vec<String>,
}

impl Default for AgentMemoryPolicy {
    fn default() -> (p: AgentMemoryPolicy)
        ensures
            p.project_scope,
            p.agent_private_scope,
            p.team_ids@.len() == 0,
    {
        AgentMemoryPolicy {
            project_scope: true,
            agent_private_scope: true,
            team_ids: Vec::new(),
        }
    }
}

pub open spec fn team_check(values: Seq<String>) -> spec_fn(int) -> Option<Fault> {
    |i: int| id_fault(values[i]@, "memory.team_ids"@)
}

/// What is wrong with a memory policy.
pub open spec fn memory_fault(p: AgentMemoryPolicy) -> Option<Fault> {
    if p.team_ids@.len() > 64 {
        Some(invalid_fault("memory.team_ids exceeds its entry bound"@))
    } else {
        scan(0, p.team_ids@.len() as int, team_check(p.team_ids@))
    }
}

impl AgentMemoryPolicy {
    /// Refuses too many teams and team ids that could not name a file.
    pub fn validate(&self) -> (r: Result<(), OrchError>)
        ensures
            judged(r, memory_fault(*self)),
    {
        if self.team_ids.len() > 64 {
            return Err(invalid("memory.team_ids exceeds its entry bound"));
        }
        let ghost check = team_check(self.team_ids@);
        let ghost n = self.team_ids@.len() as int;
        let mut i: usize = 0;
        while i < self.team_ids.len()
            invariant
                i <= self.team_ids@.len() <= 64,
                n == self.team_ids@.len(),
                check == team_check(self.team_ids@),
                scan(0, n, check) == scan(i as int, n, check),
            decreases self.team_ids.len() - i,
        {
            validate_id(self.team_ids[i].as_str(), "memory.team_ids")?;
            i = i + 1;
        }
        Ok(())
    }
}

/// One immutable revision of an agent's configuration.
#[derive(Debug, Clone)]
pub struct AgentSpec {
    pub schema_version: u32,
    pub revision: u64,
    pub previous_revision: Option<u64>,
    pub display_name: String,
    pub role: String,
    pub source_workspace: String,
    pub model: AgentModelSpec,
    pub default_run_bounds: RunBounds,
    pub authority: AgentAuthorityPolicy,
    pub memory: AgentMemoryPolicy,
    /// Policy of native execution, kept as the document it was written as.
    pub managed_execution: Json,
    /// Nanoseconds since the Unix epoch.
    pub created_at: i128,
    pub created_by: String,
}

/// What other parts of the bridge say of a specification: how the gateway
/// reads its selection key, and why its execution policy is refused, if it is.
#[derive(Debug)]
pub struct SpecFacts {
    pub selection: Result<ModelSelection, String>,
    pub managed: Option<OrchError>,
}

/// The fault that an execution policy is refused with.
pub open spec fn managed_fault(facts: SpecFacts) -> Option<Fault> {
    match facts.managed {
        None => None,
        Some(e) => Some(as_fault(e)),
    }
}

/// What is wrong with the revision numbers of a specification.
pub open spec fn lineage_fault(spec: AgentSpec) -> Option<Fault> {
    if spec.schema_version != AGENT_SPEC_SCHEMA_VERSION || spec.revision == 0 {
        Some(invalid_fault("agent specification version or revision is invalid"@))
    } else if spec.revision == 1 && spec.previous_revision is Some || spec.revision > 1 && !(
    spec.previous_revision is Some && 0 < spec.previous_revision->0 < spec.revision) {
        Some(invalid_fault("agent specification revision lineage is invalid"@))
    } else {
        None
    }
}

/// What is wrong with a specification.
pub open spec fn spec_fault(spec: AgentSpec, facts: SpecFacts) -> Option<Fault> {
    first_fault(
        lineage_fault(spec),
        first_fault(
            bounded_fault(
                spec.display_name@,
                MAX_AGENT_DISPLAY_NAME_BYTES as int,
                "display_name"@,
            ),
            first_fault(
                bounded_fault(spec.role@, MAX_AGENT_ROLE_BYTES as int, "role"@),
                first_fault(
                    workspace_fault(spec.source_workspace@),
                    first_fault(
                        model_fault(spec.model, facts.selection),
                        first_fault(
                            bounds_fault(spec.default_run_bounds),
                            first_fault(
                                authority_fault(spec.authority),
                                first_fault(
                                    memory_fault(spec.memory),
                                    first_fault(
                                        managed_fault(facts),
                                        bounded_fault(
                                            spec.created_by@,
                                            MAX_AGENT_POLICY_ENTRY_BYTES as int,
                                            "created_by"@,
                                        ),
                                    ),
                                ),
                            ),
                        ),
                    ),
                ),
            ),
        ),
    )
}

/// The bounds of a new agent's runs.
pub open spec fn initial_bounds() -> RunBounds {
    RunBounds {
        max_total_tokens: Some(DEFAULT_PERSISTENT_AGENT_MAX_TOTAL_TOKENS),
        ..default_bounds()
    }
}

/// `spec` is the first revision of an agent made from these values.
pub open spec fn is_initial_spec(
    spec: AgentSpec,
    agent_id: Seq<char>,
    workspace: Seq<char>,
    model: Seq<char>,
    selection: ModelSelection,
    created_at: i128,
    created_by: Seq<char>,
) -> bool {
    &&& spec.schema_version == AGENT_SPEC_SCHEMA_VERSION
    &&& spec.revision == 1
    &&& spec.previous_revision is None
    &&& spec.display_name@ == agent_id
    &&& spec.role@ == "Software development agent"@
    &&& spec.source_workspace@ == workspace
    &&& spec.model.selection_key@ == model
    &&& spec.model.provider_id == selection.provider_id
    &&& spec.model.model_id == selection.model_id
    &&& spec.default_run_bounds == initial_bounds()
    &&& spec.memory.project_scope
    &&& spec.memory.agent_private_scope
    &&& spec.memory.team_ids@.len() == 0
    &&& spec.created_at == created_at
    &&& spec.created_by@ == created_by
}

/// Why no first revision can be made from these values.
pub open spec fn initial_fault(
    agent_id: Seq<char>,
    workspace: Seq<char>,
    model: Seq<char>,
    authority: AgentAuthorityPolicy,
    facts: SpecFacts,
    created_by: Seq<char>,
) -> Option<Fault> {
    first_fault(
        selection_fault(facts.selection),
        first_fault(
            bounded_fault(agent_id, MAX_AGENT_DISPLAY_NAME_BYTES as int, "display_name"@),
            first_fault(
                workspace_fault(workspace),
                first_fault(
                    bounded_fault(model, MAX_AGENT_MODEL_BYTES as int, "model.selection_key"@),
                    first_fault(
                        authority_fault(authority),
                        first_fault(
                            managed_fault(facts),
                            bounded_fault(
                                created_by,
                                MAX_AGENT_POLICY_ENTRY_BYTES as int,
                                "created_by"@,
                            ),
                        ),
                    ),
                ),
            ),
        ),
    )
}

proof fn initial_role_is_bounded()
    ensures
        bounded_fault(
            "Software development agent"@,
            MAX_AGENT_ROLE_BYTES as int,
            "role"@,
        ) is None,
{
    reveal_strlit("Software development agent");
    let s = "Software development agent"@;
    assert(vstd::utf8::is_ascii_chars(s));
    vstd::utf8::is_ascii_chars_encode_utf8(s);
}

impl AgentSpec {
    /// The first revision of an agent. `facts` are those of the selection key
    /// `model` and the execution policy `managed_execution`.
    pub fn initial(
        agent_id: &str,
        workspace: &str,
        model: &str,
        authority: AgentAuthorityPolicy,
        managed_execution: Json,
        facts: &SpecFacts,
        created_at: i128,
        created_by: &str,
    ) -> (r: Result<AgentSpec, OrchError>)
        ensures
            match initial_fault(agent_id@, workspace@, model@, authority, *facts, created_by@) {
                Some(f) => r is Err && r->Err_0.is(f),
                None => {
                    &&& r is Ok
                    &&& is_initial_spec(
                        r->Ok_0,
                        agent_id@,
                        workspace@,
                        model@,
                        facts.selection->Ok_0,
                        created_at,
                        created_by@,
                    )
                    &&& r->Ok_0.authority == authority
                    &&& r->Ok_0.managed_execution == managed_execution
                    &&& spec_fault(r->Ok_0, *facts) is None
                },
            },
    {
        let route: AgentModelSpec = AgentModelSpec::from_selection_key(model, &facts.selection)?;
        let spec = AgentSpec {
            schema_version: AGENT_SPEC_SCHEMA_VERSION,
            revision: 1,
            previous_revision: None,
            display_name: copy(agent_id),
            role: copy("Software development agent"),
            source_workspace: copy(workspace),
            model: route,
            default_run_bounds: RunBounds {
                max_prompt_bytes: 100_000,
                max_rounds: 24,
                max_duration_ms: 900_000,
                max_total_tokens: Some(DEFAULT_PERSISTENT_AGENT_MAX_TOTAL_TOKENS),
            },
            authority,
            memory: AgentMemoryPolicy::default(),
            managed_execution,
            created_at,
            created_by: copy(created_by),
        };
        proof {
            initial_role_is_bounded();
        }
        spec.validate(facts)?;
        Ok(spec)
    }

    /// Refuses revisions that break their lineage or any of their bounds.
    pub fn validate(&self, facts: &SpecFacts) -> (r: Result<(), OrchError>)
        ensures
            judged(r, spec_fault(*self, *facts)),
    {
        if self.schema_version != AGENT_SPEC_SCHEMA_VERSION || self.revision == 0 {
            return Err(invalid("agent specification version or revision is invalid"));
        }
        let follows: bool = match self.previous_revision {
            Some(previous) => previous > 0 && previous < self.revision,
            None => false,
        };
        if (self.revision == 1 && self.previous_revision.is_some()) || (self.revision > 1
            && !follows) {
            return Err(invalid("agent specification revision lineage is invalid"));
        }
        validate_bounded_string(
            self.display_name.as_str(),
            MAX_AGENT_DISPLAY_NAME_BYTES,
            "display_name",
        )?;
        validate_bounded_string(self.role.as_str(), MAX_AGENT_ROLE_BYTES, "role")?;
        validate_workspace(self.source_workspace.as_str())?;
        self.model.validate(&facts.selection)?;
        self.default_run_bounds.validate()?;
        self.authority.validate()?;
        self.memory.validate()?;
        match &facts.managed {
            Some(e) => {
                return Err(e.clone());
            },
            None => {},
        }
        validate_bounded_string(
            self.created_by.as_str(),
            MAX_AGENT_POLICY_ENTRY_BYTES,
            "created_by",
        )?;
        Ok(())
    }
}

/// The tie between an agent and one of its lanes.
#[derive(Debug, Clone, PartialEq, Eq)]
pub struct AgentLaneAssociation {
    pub lane_id: u128,
    pub source_workspace: String,
    pub attached_at: i128,
    pub attached_by: String,
    pub detached_at: Option<i128>,
    pub detached_by: Option<String>,
}

/// What is wrong with a lane association.
pub open spec fn association_fault(a: AgentLaneAssociation) -> Option<Fault> {
    first_fault(
        workspace_fault(a.source_workspace@),
        first_fault(
            bounded_fault(
                a.attached_by@,
                MAX_AGENT_POLICY_ENTRY_BYTES as int,
                "lane_association.attached_by"@,
            ),
            if a.detached_at is Some != a.detached_by is Some {
                Some(invalid_fault("Lane detachment attribution is incomplete"@))
            } else if a.detached_at is Some && a.detached_at->0 < a.attached_at {
                Some(invalid_fault("Lane detachment predates attachment"@))
            } else if a.detached_by is Some {
                bounded_fault(
                    a.detached_by->0@,
                    MAX_AGENT_POLICY_ENTRY_BYTES as int,
                    "lane_association.detached_by"@,
                )
            } else {
                None
            },
        ),
    )
}

impl AgentLaneAssociation {
    /// Whether the lane is still attached.
    pub fn is_current(&self) -> (r: bool)
        ensures
            r == self.detached_at is None,
    {
        self.detached_at.is_none()
    }

    /// Refuses incomplete or backdated detachments and unattributed ties.
    pub fn validate(&self) -> (r: Result<(), OrchError>)
        ensures
            judged(r, association_fault(*self)),
    {
        validate_workspace(self.source_workspace.as_str())?;
        validate_bounded_string(
            self.attached_by.as_str(),
            MAX_AGENT_POLICY_ENTRY_BYTES,
            "lane_association.attached_by",
        )?;
        if self.detached_at.is_some() != self.detached_by.is_some() {
            return Err(invalid("Lane detachment attribution is incomplete"));
        }
        match self.detached_at {
            Some(t) => {
                if t < self.attached_at {
                    return Err(invalid("Lane detachment predates attachment"));
                }
            },
            None => {},
        }
        match &self.detached_by {
            Some(actor) => {
                validate_bounded_string(
                    actor.as_str(),
                    MAX_AGENT_POLICY_ENTRY_BYTES,
                    "lane_association.detached_by",
                )?;
            },
            None => {},
        }
        Ok(())
    }
}

/// What an observer may see of an agent at work.
#[derive(Debug, Clone)]
pub struct AgentRuntimeState {
    pub state: AgentState,
    pub current_run_ids: Vec<String>,
    pub last_run_id: Option<String>,
    pub last_lane_id: Option<u128>,
    pub latest_checkpoint_id: Option<String>,
    pub continuation_ordinal: u64,
    pub updated_at: i128,
}

/// The stored record of an agent.
#[derive(Debug, Clone)]
pub struct AgentRecord {
    pub agent_id: String,
    /// The account that owns the agent; `None` on records nobody claimed yet.
    pub owner_principal_id: Option<String>,
    /// The session the agent began in.
    pub session_id: u128,
    pub lane_ids: Vec<u128>,
    pub lane_associations: Vec<AgentLaneAssociation>,
    pub workspace: String,
    pub model: String,
    /// The current revision; missing only on records not migrated yet.
    pub spec: Option<AgentSpec>,
    pub state: AgentState,
    pub current_run_id: Option<String>,
    pub last_run_id: Option<String>,
    pub last_lane_id: Option<u128>,
    pub latest_checkpoint_id: Option<String>,
    pub continuation_ordinal: u64,
    pub created_at: i128,
    pub updated_at: i128,
}

/// The elements of `s`, each where it first stands.
pub open spec fn distinct(s: Seq<u128>) -> Seq<u128>
    decreases s.len(),
{
    if s.len() == 0 {
        s
    } else if s.drop_last().contains(s.last()) {
        distinct(s.drop_last())
    } else {
        distinct(s.drop_last()).push(s.last())
    }
}

/// The lanes still attached, in the order of their associations.
pub open spec fn current_lanes(a: Seq<AgentLaneAssociation>) -> Seq<u128>
    decreases a.len(),
{
    if a.len() == 0 {
        Seq::empty()
    } else if a.last().detached_at is None {
        current_lanes(a.drop_last()).push(a.last().lane_id)
    } else {
        current_lanes(a.drop_last())
    }
}

/// The lanes of all associations.
pub open spec fn association_lanes(a: Seq<AgentLaneAssociation>) -> Seq<u128> {
    Seq::new(a.len(), |i: int| a[i].lane_id)
}

/// The lanes an agent has: those attached, or on a record without
/// associations those listed, with the first session before them if missing.
pub open spec fn known_lanes(agent: AgentRecord) -> Seq<u128> {
    if agent.lane_associations@.len() > 0 {
        current_lanes(agent.lane_associations@)
    } else if agent.lane_ids@.contains(agent.session_id) {
        distinct(agent.lane_ids@)
    } else {
        seq![agent.session_id] + distinct(agent.lane_ids@)
    }
}

/// Every lane the agent was ever attached to.
pub open spec fn historical_lanes(agent: AgentRecord) -> Seq<u128> {
    if agent.lane_associations@.len() > 0 {
        distinct(association_lanes(agent.lane_associations@))
    } else {
        known_lanes(agent)
    }
}

proof fn distinct_members(s: Seq<u128>)
    ensures
        forall|x: u128| distinct(s).contains(x) <==> s.contains(x),
    decreases s.len(),
{
    if s.len() > 0 {
        let t = s.drop_last();
        distinct_members(t);
        assert(s =~= t.push(s.last()));
        assert forall|x: u128| distinct(s).contains(x) <==> s.contains(x) by {
            if s.contains(x) {
                let i = choose|i: int| 0 <= i < s.len() && s[i] == x;
                if i < t.len() {
                    assert(t[i] == x);
                    assert(t.contains(x));
                    assert(distinct(t).contains(x));
                } else {
                    assert(x == s.last());
                }
                if t.contains(s.last()) {
                } else {
                    if x == s.last() {
                        assert(distinct(s)[distinct(t).len() as int] == x);
                    } else {
                        assert(distinct(t).contains(x));
                        let j = choose|j: int| 0 <= j < distinct(t).len() && distinct(t)[j] == x;
                        assert(distinct(s)[j] == x);
                    }
                }
            }
            if distinct(s).contains(x) {
                let j = choose|j: int| 0 <= j < distinct(s).len() && distinct(s)[j] == x;
                if t.contains(s.last()) {
                    assert(t.contains(x));
                } else if j < distinct(t).len() {
                    assert(distinct(t)[j] == x);
                    assert(t.contains(x));
                }
                if t.contains(x) {
                    let k = choose|k: int| 0 <= k < t.len() && t[k] == x;
                    assert(s[k] == x);
                } else {
                    assert(s[s.len() - 1] == x);
                }
            }
        }
    }
}

/// Whether `x` is in `v`.
pub fn has_id(v: &Vec<u128>, x: u128) -> (r: bool)
    ensures
        r == v@.contains(x),
{
    let mut i: usize = 0;
    while i < v.len()
        invariant
            i <= v@.len(),
            forall|j: int| 0 <= j < i ==> v@[j] != x,
        decreases v.len() - i,
    {
        if v[i] == x {
            return true;
        }
        i = i + 1;
    }
    false
}

fn distinct_ids(v: &Vec<u128>) -> (ids: Vec<u128>)
    ensures
        ids@ == distinct(v@),
{
    let mut ids: Vec<u128> = Vec::new();
    let mut i: usize = 0;
    while i < v.len()
        invariant
            i <= v@.len(),
            ids@ == distinct(v@.take(i as int)),
        decreases v.len() - i,
    {
        proof {
            distinct_members(v@.take(i as int));
            assert(v@.take(i as int + 1).drop_last() =~= v@.take(i as int));
        }
        if !has_id(&ids, v[i]) {
            ids.push(v[i]);
        }
        i = i + 1;
    }
    proof {
        assert(v@.take(v@.len() as int) =~= v@);
    }
    ids
}

/// What a duplicate check of current lanes compares.
pub open spec fn repeats_current(a: Seq<AgentLaneAssociation>, i: int) -> bool {
    a[i].detached_at is None && exists|j: int|
        0 <= j < i && a[j].detached_at is None && #[trigger] a[j].lane_id == a[i].lane_id
}

pub open spec fn association_check(
    a: Seq<AgentLaneAssociation>,
    workspace: Seq<char>,
) -> spec_fn(int) -> Option<Fault> {
    |i: int|
        first_fault(
            association_fault(a[i]),
            if a[i].source_workspace@ != workspace {
                Some(invalid_fault("Lane association is outside the Agent source workspace"@))
            } else if repeats_current(a, i) {
                Some(invalid_fault("Agent has duplicate current Lane associations"@))
            } else {
                None
            },
        )
}

pub open spec fn optional_id_fault(id: Option<String>, field: Seq<char>) -> Option<Fault> {
    match id {
        None => None,
        Some(id) => id_fault(id@, field),
    }
}

/// What is wrong with the specification an agent record holds.
pub open spec fn held_spec_fault(agent: AgentRecord, facts: SpecFacts) -> Option<Fault> {
    match agent.spec {
        None => None,
        Some(spec) => first_fault(
            spec_fault(spec, facts),
            if spec.source_workspace@ != agent.workspace@ || spec.model.selection_key@
                != agent.model@ {
                Some(
                    invalid_fault(
                        "agent compatibility fields do not match the current specification"@,
                    ),
                )
            } else {
                None
            },
        ),
    }
}

/// What is wrong with the associations an agent record holds.
pub open spec fn associations_fault(agent: AgentRecord) -> Option<Fault> {
    if agent.lane_associations@.len() > 256 {
        Some(invalid_fault("Agent Lane associations exceed their bound"@))
    } else {
        scan(
            0,
            agent.lane_associations@.len() as int,
            association_check(agent.lane_associations@, agent.workspace@),
        )
    }
}

/// What is wrong with an agent record.
pub open spec fn agent_fault(agent: AgentRecord, facts: SpecFacts) -> Option<Fault> {
    first_fault(
        id_fault(agent.agent_id@, "agent_id"@),
        first_fault(
            match agent.owner_principal_id {
                None => None,
                Some(owner) => bounded_fault(
                    owner@,
                    MAX_AGENT_OWNER_ID_BYTES as int,
                    "owner_principal_id"@,
                ),
            },
            first_fault(
                workspace_fault(agent.workspace@),
                first_fault(
                    bounded_fault(agent.model@, MAX_AGENT_MODEL_BYTES as int, "model"@),
                    first_fault(
                        held_spec_fault(agent, facts),
                        first_fault(
                            associations_fault(agent),
                            first_fault(
                                optional_id_fault(agent.current_run_id, "current_run_id"@),
                                optional_id_fault(
                                    agent.latest_checkpoint_id,
                                    "latest_checkpoint_id"@,
                                ),
                            ),
                        ),
                    ),
                ),
            ),
        ),
    )
}

fn validate_optional_id(id: &Option<String>, field: &str) -> (r: Result<(), OrchError>)
    ensures
        judged(r, optional_id_fault(*id, field@)),
{
    match id {
        None => Ok(()),
        Some(id) => validate_id(id.as_str(), field),
    }
}

fn has_current(a: &Vec<AgentLaneAssociation>, n: usize, lane: u128) -> (r: bool)
    requires
        n <= a@.len(),
    ensures
        r == exists|j: int|
            0 <= j < n && a@[j].detached_at is None && #[trigger] a@[j].lane_id == lane,
{
    let mut j: usize = 0;
    while j < n
        invariant
            j <= n <= a@.len(),
            forall|k: int|
                0 <= k < j ==> !(a@[k].detached_at is None && #[trigger] a@[k].lane_id == lane),
        decreases n - j,
    {
        if a[j].is_current() && a[j].lane_id == lane {
            return true;
        }
        j = j + 1;
    }
    false
}

/// The associations a migration gives a record: one for each known lane.
pub open spec fn is_migrated_associations(
    a: Seq<AgentLaneAssociation>,
    lanes: Seq<u128>,
    workspace: Seq<char>,
    created_at: i128,
) -> bool {
    &&& a.len() == lanes.len()
    &&& forall|i: int|
        0 <= i < a.len() ==> {
            &&& (#[trigger] a[i]).lane_id == lanes[i]
            &&& a[i].source_workspace@ == workspace
            &&& a[i].attached_at == created_at
            &&& a[i].attached_by@ == "legacy_migration"@
            &&& a[i].detached_at is None
            &&& a[i].detached_by is None
        }
}

proof fn all_current(a: Seq<AgentLaneAssociation>)
    requires
        forall|i: int| 0 <= i < a.len() ==> (#[trigger] a[i]).detached_at is None,
    ensures
        current_lanes(a) == association_lanes(a),
    decreases a.len(),
{
    if a.len() > 0 {
        assert forall|i: int| 0 <= i < a.drop_last().len() implies (
        #[trigger] a.drop_last()[i]).detached_at is None by {
            assert(a[i].detached_at is None);
        }
        all_current(a.drop_last());
        assert(a[a.len() - 1].detached_at is None);
        assert(association_lanes(a) =~= association_lanes(a.drop_last()).push(a.last().lane_id));
    } else {
        assert(association_lanes(a) =~= current_lanes(a));
    }
}

/// Migrating a record keeps its lanes.
pub proof fn migration_keeps_lanes(before: AgentRecord, after: AgentRecord)
    requires
        before.lane_associations@.len() == 0,
        is_migrated_associations(
            after.lane_associations@,
            known_lanes(before),
            before.workspace@,
            before.created_at,
        ),
    ensures
        known_lanes(after) == known_lanes(before),
{
    distinct_members(before.lane_ids@);
    if before.lane_ids@.contains(before.session_id) {
        assert(distinct(before.lane_ids@).contains(before.session_id));
    }
    assert(known_lanes(before).len() > 0);
    all_current(after.lane_associations@);
    assert(association_lanes(after.lane_associations@) =~= known_lanes(before));
}

impl AgentRecord {
    /// Brings a record without associations or without a specification up to
    /// the current shape, and says whether anything had to change. `facts` are
    /// those of the record's model under the execution policy `managed`.
    pub fn migrate_legacy_spec(&mut self, managed: Json, facts: &SpecFacts) -> (r: Result<
        bool,
        OrchError,
    >)
        ensures
            old(self).lane_associations@.len() > 0 ==> final(self).lane_associations == old(
                self,
            ).lane_associations,
            old(self).lane_associations@.len() == 0 ==> is_migrated_associations(
                final(self).lane_associations@,
                known_lanes(*old(self)),
                old(self).workspace@,
                old(self).created_at,
            ),
            *final(self) == (AgentRecord {
                lane_associations: final(self).lane_associations,
                spec: final(self).spec,
                ..*old(self)
            }),
            match old(self).spec {
                Some(_) => {
                    &&& final(self).spec == old(self).spec
                    &&& r == Ok::<bool, OrchError>(old(self).lane_associations@.len() == 0)
                },
                None => exists|authority: AgentAuthorityPolicy| #[trigger]
                    is_legacy_authority(authority) && (match initial_fault(
                        old(self).agent_id@,
                        old(self).workspace@,
                        old(self).model@,
                        authority,
                        *facts,
                        "legacy_migration"@,
                    ) {
                        Some(f) => r is Err && r->Err_0.is(f) && final(self).spec is None,
                        None => {
                            &&& r == Ok::<bool, OrchError>(true)
                            &&& final(self).spec is Some
                            &&& final(self).spec->0.authority == authority
                            &&& final(self).spec->0.managed_execution == managed
                            &&& is_initial_spec(
                                final(self).spec->0,
                                old(self).agent_id@,
                                old(self).workspace@,
                                old(self).model@,
                                facts.selection->Ok_0,
                                old(self).created_at,
                                "legacy_migration"@,
                            )
                        },
                    }),
            },
    {
        let mut changed: bool = false;
        if self.lane_associations.len() == 0 {
            let lanes: Vec<u128> = self.known_lane_ids();
            let mut list: Vec<AgentLaneAssociation> = Vec::new();
            let mut i: usize = 0;
            while i < lanes.len()
                invariant
                    i <= lanes@.len(),
                    list@.len() == i,
                    is_migrated_associations(
                        list@,
                        lanes@.take(i as int),
                        self.workspace@,
                        self.created_at,
                    ),
                decreases lanes.len() - i,
            {
                let ghost before = list@;
                list.push(
                    AgentLaneAssociation {
                        lane_id: lanes[i],
                        source_workspace: self.workspace.clone(),
                        attached_at: self.created_at,
                        attached_by: copy("legacy_migration"),
                        detached_at: None,
                        detached_by: None,
                    },
                );
                proof {
                    assert forall|k: int| 0 <= k < list@.len() implies {
                        &&& (#[trigger] list@[k]).lane_id == lanes@.take(i as int + 1)[k]
                        &&& list@[k].source_workspace@ == self.workspace@
                        &&& list@[k].attached_at == self.created_at
                        &&& list@[k].attached_by@ == "legacy_migration"@
                        &&& list@[k].detached_at is None
                        &&& list@[k].detached_by is None
                    } by {
                        if k < before.len() {
                            assert(list@[k] == before[k]);
                            assert(before[k].lane_id == lanes@.take(i as int)[k]);
                        }
                    }
                }
                i = i + 1;
            }
            proof {
                assert(lanes@.take(lanes@.len() as int) =~= lanes@);
            }
            self.lane_associations = list;
            changed = true;
        }
        if self.spec.is_none() {
            let authority: AgentAuthorityPolicy = AgentAuthorityPolicy::default();
            let ghost used = authority;
            proof {
                assert(is_legacy_authority(used));
            }
            let spec: AgentSpec = AgentSpec::initial(
                self.agent_id.as_str(),
                self.workspace.as_str(),
                self.model.as_str(),
                authority,
                managed,
                facts,
                self.created_at,
                "legacy_migration",
            )?;
            self.spec = Some(spec);
            changed = true;
        }
        Ok(changed)
    }

    /// The current specification.
    pub fn current_spec(&self) -> (r: Result<&AgentSpec, OrchError>)
        ensures
            match self.spec {
                Some(spec) => r == Ok::<&AgentSpec, OrchError>(&spec),
                None => r is Err && r->Err_0.is(
                    invalid_fault("agent specification has not been migrated"@),
                ),
            },
    {
        match &self.spec {
            Some(spec) => Ok(spec),
            None => Err(invalid("agent specification has not been migrated")),
        }
    }

    /// What an observer may see of the agent at work.
    pub fn runtime_state(&self) -> (s: AgentRuntimeState)
        ensures
            s.state == self.state,
            match self.current_run_id {
                Some(id) => s.current_run_ids@ == seq![id],
                None => s.current_run_ids@.len() == 0,
            },
            s.last_run_id == self.last_run_id,
            s.last_lane_id == self.last_lane_id,
            s.latest_checkpoint_id == self.latest_checkpoint_id,
            s.continuation_ordinal == self.continuation_ordinal,
            s.updated_at == self.updated_at,
    {
        let mut ids: Vec<String> = Vec::new();
        match &self.current_run_id {
            Some(id) => {
                ids.push(id.clone());
            },
            None => {},
        }
        AgentRuntimeState {
            state: self.state,
            current_run_ids: ids,
            last_run_id: copy_option(&self.last_run_id),
            last_lane_id: self.last_lane_id,
            latest_checkpoint_id: copy_option(&self.latest_checkpoint_id),
            continuation_ordinal: self.continuation_ordinal,
            updated_at: self.updated_at,
        }
    }

    /// The lanes of the agent.
    pub fn known_lane_ids(&self) -> (ids: Vec<u128>)
        ensures
            ids@ == known_lanes(*self),
    {
        if self.lane_associations.len() > 0 {
            let mut ids: Vec<u128> = Vec::new();
            let mut i: usize = 0;
            while i < self.lane_associations.len()
                invariant
                    i <= self.lane_associations@.len(),
                    ids@ == current_lanes(self.lane_associations@.take(i as int)),
                decreases self.lane_associations.len() - i,
            {
                proof {
                    assert(self.lane_associations@.take(i as int + 1).drop_last()
                        =~= self.lane_associations@.take(i as int));
                }
                if self.lane_associations[i].is_current() {
                    ids.push(self.lane_associations[i].lane_id);
                }
                i = i + 1;
            }
            proof {
                assert(self.lane_associations@.take(self.lane_associations@.len() as int)
                    =~= self.lane_associations@);
            }
            return ids;
        }
        let mut ids: Vec<u128> = distinct_ids(&self.lane_ids);
        proof {
            distinct_members(self.lane_ids@);
        }
        if !has_id(&ids, self.session_id) {
            ids.insert(0, self.session_id);
            proof {
                assert(ids@ =~= seq![self.session_id] + distinct(self.lane_ids@));
            }
        }
        ids
    }

    /// Every lane the agent was ever attached to.
    pub fn historical_lane_ids(&self) -> (ids: Vec<u128>)
        ensures
            ids@ == historical_lanes(*self),
    {
        if self.lane_associations.len() == 0 {
            return self.known_lane_ids();
        }
        let mut all: Vec<u128> = Vec::new();
        let mut i: usize = 0;
        while i < self.lane_associations.len()
            invariant
                i <= self.lane_associations@.len(),
                all@ == association_lanes(self.lane_associations@).take(i as int),
            decreases self.lane_associations.len() - i,
        {
            all.push(self.lane_associations[i].lane_id);
            i = i + 1;
            proof {
                assert(association_lanes(self.lane_associations@).take(i as int)
                    =~= association_lanes(self.lane_associations@).take(i as int - 1).push(
                    self.lane_associations@[i as int - 1].lane_id,
                ));
            }
        }
        proof {
            assert(association_lanes(self.lane_associations@).take(
                self.lane_associations@.len() as int,
            ) =~= association_lanes(self.lane_associations@));
        }
        distinct_ids(&all)
    }

    /// Refuses records that break any of their bounds or do not agree with
    /// the specification they hold.
    pub fn validate(&self, facts: &SpecFacts) -> (r: Result<(), OrchError>)
        ensures
            judged(r, agent_fault(*self, *facts)),
    {
        validate_id(self.agent_id.as_str(), "agent_id")?;
        match &self.owner_principal_id {
            Some(owner) => {
                validate_bounded_string(
                    owner.as_str(),
                    MAX_AGENT_OWNER_ID_BYTES,
                    "owner_principal_id",
                )?;
            },
            None => {},
        }
        validate_workspace(self.workspace.as_str())?;
        validate_bounded_string(self.model.as_str(), MAX_AGENT_MODEL_BYTES, "model")?;
        match &self.spec {
            Some(spec) => {
                spec.validate(facts)?;
                if !str_eq(spec.source_workspace.as_str(), self.workspace.as_str()) || !str_eq(
                    spec.model.selection_key.as_str(),
                    self.model.as_str(),
                ) {
                    return Err(
                        invalid(
                            "agent compatibility fields do not match the current specification",
                        ),
                    );
                }
            },
            None => {},
        }
        self.validate_associations()?;
        validate_optional_id(&self.current_run_id, "current_run_id")?;
        validate_optional_id(&self.latest_checkpoint_id, "latest_checkpoint_id")?;
        Ok(())
    }

    fn validate_associations(&self) -> (r: Result<(), OrchError>)
        ensures
            judged(r, associations_fault(*self)),
    {
        if self.lane_associations.len() > 256 {
            return Err(invalid("Agent Lane associations exceed their bound"));
        }
        let ghost check = association_check(self.lane_associations@, self.workspace@);
        let ghost n = self.lane_associations@.len() as int;
        let mut i: usize = 0;
        while i < self.lane_associations.len()
            invariant
                i <= self.lane_associations@.len() <= 256,
                n == self.lane_associations@.len(),
                check == association_check(self.lane_associations@, self.workspace@),
                scan(0, n, check) == scan(i as int, n, check),
            decreases self.lane_associations.len() - i,
        {
            let a: &AgentLaneAssociation = &self.lane_associations[i];
            a.validate()?;
            if !str_eq(a.source_workspace.as_str(), self.workspace.as_str()) {
                return Err(invalid("Lane association is outside the Agent source workspace"));
            }
            if a.is_current() && has_current(&self.lane_associations, i, a.lane_id) {
                return Err(invalid("Agent has duplicate current Lane associations"));
            }
            i = i + 1;
        }
        Ok(())
    }
}

/// A copy of an optional text.
pub fn copy_option(s: &Option<String>) -> (r: Option<String>)
    ensures
        r == *s,
{
    match s {
        Some(s) => Some(s.clone()),
        None => None,
    }
}

proof fn current_lanes_are_attached(a: Seq<AgentLaneAssociation>, lane: u128)
    ensures
        current_lanes(a).contains(lane) <==> exists|i: int|
            0 <= i < a.len() && (#[trigger] a[i]).lane_id == lane && a[i].detached_at is None,
    decreases a.len(),
{
    if a.len() > 0 {
        let b = a.drop_last();
        current_lanes_are_attached(b, lane);
        let p = current_lanes(b);
        let q = current_lanes(a);
        if p.contains(lane) {
            let k = choose|k: int| 0 <= k < p.len() && p[k] == lane;
            assert(q[k] == lane);
            let i = choose|i: int|
                0 <= i < b.len() && (#[trigger] b[i]).lane_id == lane && b[i].detached_at is None;
            assert(a[i] == b[i]);
        }
        if q.contains(lane) && !p.contains(lane) {
            let k = choose|k: int| 0 <= k < q.len() && q[k] == lane;
            if k < p.len() {
                assert(p[k] == lane);
            }
            assert(a[a.len() - 1].lane_id == lane);
        }
        if exists|i: int|
            0 <= i < a.len() && (#[trigger] a[i]).lane_id == lane && a[i].detached_at is None {
            let i = choose|i: int|
                0 <= i < a.len() && (#[trigger] a[i]).lane_id == lane && a[i].detached_at is None;
            if i < b.len() {
                assert(b[i] == a[i]);
            } else {
                assert(q[p.len() as int] == lane);
            }
        }
    }
}

/// An agent has the lanes that are attached to it, and had those that ever
/// were. On a record that names no attachments it has the lanes listed there,
/// and the one it was made in.
pub proof fn lanes_are_those_attached(agent: AgentRecord, lane: u128)
    ensures
        agent.lane_associations@.len() > 0 ==> (known_lanes(agent).contains(lane) <==> exists|i: int|
            0 <= i < agent.lane_associations@.len() && (
            #[trigger] agent.lane_associations@[i]).lane_id == lane
                && agent.lane_associations@[i].detached_at is None),
        agent.lane_associations@.len() > 0 ==> (historical_lanes(agent).contains(lane)
            <==> exists|i: int|
            0 <= i < agent.lane_associations@.len() && (
            #[trigger] agent.lane_associations@[i]).lane_id == lane),
        agent.lane_associations@.len() == 0 ==> (known_lanes(agent).contains(lane) <==> lane
            == agent.session_id || agent.lane_ids@.contains(lane)),
        agent.lane_associations@.len() == 0 ==> historical_lanes(agent) == known_lanes(agent),
{
    let a = agent.lane_associations@;
    current_lanes_are_attached(a, lane);
    distinct_members(association_lanes(a));
    distinct_members(agent.lane_ids@);
    let l = association_lanes(a);
    if l.contains(lane) {
        let i = choose|i: int| 0 <= i < l.len() && l[i] == lane;
        assert(a[i].lane_id == lane);
    }
    if exists|i: int| 0 <= i < a.len() && (#[trigger] a[i]).lane_id == lane {
        let i = choose|i: int| 0 <= i < a.len() && (#[trigger] a[i]).lane_id == lane;
        assert(l[i] == lane);
    }
    if a.len() == 0 && !agent.lane_ids@.contains(agent.session_id) {
        let d = distinct(agent.lane_ids@);
        let k = seq![agent.session_id] + d;
        assert(k[0] == agent.session_id);
        if d.contains(lane) {
            let i = choose|i: int| 0 <= i < d.len() && d[i] == lane;
            assert(k[i + 1] == lane);
        }
        if k.contains(lane) {
            let i = choose|i: int| 0 <= i < k.len() && k[i] == lane;
            if i > 0 {
                assert(d[i - 1] == lane);
            }
        }
    }
}

/// A specification's first revision has none before it, and every later one
/// names an earlier.
pub proof fn revisions_name_an_earlier(spec: AgentSpec, facts: SpecFacts)
    requires
        spec_fault(spec, facts) is None,
    ensures
        spec.revision >= 1,
        spec.revision == 1 ==> spec.previous_revision is None,
        spec.revision > 1 ==> spec.previous_revision is Some && 1 <= spec.previous_revision->0
            < spec.revision,
        bounds_fault(spec.default_run_bounds) is None,
{
}

} // verus!
