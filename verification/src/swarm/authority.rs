//! Action-time authority for one exact dispatch attempt.
//!
//! Nothing here mints a credential. An authority is a durable statement: it
//! names the exact workspace, session, agent, provider route, revisions,
//! bounds and attempt that one action may exercise, sealed by a digest over
//! all of them.

use crate::bounds::{bounds_fault, RunBounds};
use crate::digest::{
    digests_differ, hash_payload, hex, hex_digit, no_collision, sha256_of, text_digest,
};
use crate::error::{
    conflict, conflict_fault, fault, first_fault, forbidden, forbidden_fault, invalid,
    invalid_fault, judged, refused, Fault, OrchError, OrchErrorCode,
};
use crate::json::{
    agreeing, field, field_keys, field_values, json_array_text, json_instant_text, json_object_text,
    json_string_text, json_uuid_text, views, Json,
};
use crate::run::CompletionUsage;
use crate::swarm::ids::{
    id_char, id_value_fault, AttemptId, AuthorityId, GraphId, WorkId, WorkerId,
};
use crate::swarm::spec::{CapabilitySet, ComputerUseTier, WorkCapability};
use crate::text::{
    byte_len, contains_text, copy, decimal, join2, join3, occurs_at, str_eq, str_has_char, utf8_len,
};
use vstd::prelude::*;
use vstd::string::*;
use vstd::utf8::*;

verus! {

pub const AUTHORITY_SCHEMA_VERSION: u32 = 1;

pub const PROVIDER_ROUTE_SCHEMA_VERSION: u32 = 1;

pub const PROVIDER_ATTEMPT_SCHEMA_VERSION: u32 = 1;

/// Most bytes in a value of a route.
pub const MAX_ROUTE_VALUE_BYTES: usize = 2048;

/// What is wrong with a value of a route.
pub open spec fn route_value_fault(value: Seq<char>, field: Seq<char>) -> Option<Fault> {
    if value.len() == 0 || utf8_len(value) > MAX_ROUTE_VALUE_BYTES || value.contains('\0') {
        Some(invalid_fault("provider route "@ + field + " is invalid"@))
    } else {
        None
    }
}

fn check_route_value(value: &str, field: &str) -> (r: Result<(), OrchError>)
    ensures
        judged(r, route_value_fault(value@, field@)),
{
    if value.is_empty() || byte_len(value) > MAX_ROUTE_VALUE_BYTES || str_has_char(value, '\0') {
        return Err(invalid(join3("provider route ", field, " is invalid").as_str()));
    }
    Ok(())
}

/// What a model is measured to hold: the recorded document, and the Computer
/// Use tier it names.
#[derive(Debug)]
pub struct ModelCapabilities {
    pub document: Json,
    pub computer_use_tier: ComputerUseTier,
}

/// An effort level: its name, and the recorded document.
#[derive(Debug)]
pub struct EffortLevel {
    pub name: String,
    pub document: Json,
}

/// An immutable, secret-free provider route, frozen before an attempt exists.
/// `credential_ref` is a keychain reference and `credential_fingerprint` names
/// the credential without holding it.
#[derive(Debug)]
pub struct ProviderRouteSnapshot {
    pub schema_version: u32,
    pub provider_id: String,
    pub profile_id: String,
    pub model_id: String,
    pub wire_model_id: String,
    pub kind: Json,
    pub dialect: Json,
    pub base_url: String,
    pub endpoint_fingerprint: String,
    pub credential_ref: String,
    pub credential_fingerprint: String,
    pub capabilities: ModelCapabilities,
    pub deadline_class: Json,
    pub effort: EffortLevel,
    pub snapshot_hash: String,
}

impl Clone for ProviderRouteSnapshot {
    fn clone(&self) -> (r: ProviderRouteSnapshot)
        ensures
            r == *self,
    {
        ProviderRouteSnapshot {
            schema_version: self.schema_version,
            provider_id: self.provider_id.clone(),
            profile_id: self.profile_id.clone(),
            model_id: self.model_id.clone(),
            wire_model_id: self.wire_model_id.clone(),
            kind: self.kind.clone(),
            dialect: self.dialect.clone(),
            base_url: self.base_url.clone(),
            endpoint_fingerprint: self.endpoint_fingerprint.clone(),
            credential_ref: self.credential_ref.clone(),
            credential_fingerprint: self.credential_fingerprint.clone(),
            capabilities: ModelCapabilities {
                document: self.capabilities.document.clone(),
                computer_use_tier: self.capabilities.computer_use_tier.clone(),
            },
            deadline_class: self.deadline_class.clone(),
            effort: EffortLevel {
                name: self.effort.name.clone(),
                document: self.effort.document.clone(),
            },
            snapshot_hash: self.snapshot_hash.clone(),
        }
    }
}

/// The document that the fingerprint of a route's endpoint is taken of.
pub open spec fn endpoint_text(r: ProviderRouteSnapshot) -> Seq<char> {
    json_object_text(
        seq![
            "kind"@,
            "dialect"@,
            "baseUrl"@,
        ],
        seq![
            r.kind@,
            r.dialect@,
            json_string_text(r.base_url@),
        ],
    )
}

/// The names of what the hash of a route is taken of.
pub open spec fn route_keys() -> Seq<Seq<char>> {
    seq![
        "schemaVersion"@,
        "providerId"@,
        "profileId"@,
        "modelId"@,
        "wireModelId"@,
        "kind"@,
        "dialect"@,
        "baseUrl"@,
        "endpointFingerprint"@,
        "credentialRef"@,
        "credentialFingerprint"@,
        "capabilities"@,
        "deadlineClass"@,
        "effort"@,
    ]
}

/// What the hash of a route is taken of.
pub open spec fn route_values(r: ProviderRouteSnapshot) -> Seq<Seq<char>> {
    seq![
        decimal(r.schema_version as nat),
        json_string_text(r.provider_id@),
        json_string_text(r.profile_id@),
        json_string_text(r.model_id@),
        json_string_text(r.wire_model_id@),
        r.kind@,
        r.dialect@,
        json_string_text(r.base_url@),
        json_string_text(r.endpoint_fingerprint@),
        json_string_text(r.credential_ref@),
        json_string_text(r.credential_fingerprint@),
        r.capabilities.document@,
        r.deadline_class@,
        r.effort.document@,
    ]
}

/// The document that the hash of a route is taken of.
pub open spec fn route_text(r: ProviderRouteSnapshot) -> Seq<char> {
    json_object_text(route_keys(), route_values(r))
}

/// The names in a route's document are distinct.
proof fn route_keys_differ()
    ensures
        route_keys().no_duplicates(),
{
    reveal_strlit("schemaVersion");
    reveal_strlit("providerId");
    reveal_strlit("profileId");
    reveal_strlit("modelId");
    reveal_strlit("wireModelId");
    reveal_strlit("kind");
    reveal_strlit("dialect");
    reveal_strlit("baseUrl");
    reveal_strlit("endpointFingerprint");
    reveal_strlit("credentialRef");
    reveal_strlit("credentialFingerprint");
    reveal_strlit("capabilities");
    reveal_strlit("deadlineClass");
    reveal_strlit("effort");
    let k = route_keys();
    assert(k[0].len() == 13 && k[0][0] == 's');
    assert(k[1].len() == 10);
    assert(k[2].len() == 9);
    assert(k[3].len() == 7 && k[3][0] == 'm');
    assert(k[4].len() == 11);
    assert(k[5].len() == 4);
    assert(k[6].len() == 7 && k[6][0] == 'd');
    assert(k[7].len() == 7 && k[7][0] == 'b');
    assert(k[8].len() == 19);
    assert(k[9].len() == 13 && k[9][0] == 'c');
    assert(k[10].len() == 21);
    assert(k[11].len() == 12);
    assert(k[12].len() == 13 && k[12][0] == 'd');
    assert(k[13].len() == 6);
    assert forall|i: int, j: int| 0 <= i < k.len() && 0 <= j < k.len() && i != j implies k[i]
        != k[j] by {
        assert(i == 0 || i == 1 || i == 2 || i == 3 || i == 4 || i == 5 || i == 6 || i == 7 || i
            == 8 || i == 9 || i == 10 || i == 11 || i == 12 || i == 13);
        assert(j == 0 || j == 1 || j == 2 || j == 3 || j == 4 || j == 5 || j == 6 || j == 7 || j
            == 8 || j == 9 || j == 10 || j == 11 || j == 12 || j == 13);
        assert(k[i].len() != k[j].len() || k[i][0] != k[j][0]);
    }
}

/// Two routes say the same in every text that the hash is taken of.
pub open spec fn same_route_texts(a: ProviderRouteSnapshot, b: ProviderRouteSnapshot) -> bool {
    &&& a.provider_id@ == b.provider_id@
    &&& a.profile_id@ == b.profile_id@
    &&& a.model_id@ == b.model_id@
    &&& a.wire_model_id@ == b.wire_model_id@
    &&& a.base_url@ == b.base_url@
    &&& a.endpoint_fingerprint@ == b.endpoint_fingerprint@
    &&& a.credential_ref@ == b.credential_ref@
    &&& a.credential_fingerprint@ == b.credential_fingerprint@
}

/// No route with other texts has the document of this one.
pub open spec fn route_is_told_apart(r: ProviderRouteSnapshot) -> bool {
    forall|other: ProviderRouteSnapshot| #[trigger]
        route_text(other) == route_text(r) ==> same_route_texts(other, r)
}

/// What is wrong with a route.
pub open spec fn route_fault(r: ProviderRouteSnapshot) -> Option<Fault> {
    first_fault(
        if r.schema_version != PROVIDER_ROUTE_SCHEMA_VERSION {
            Some(invalid_fault("provider route schema version is not supported"@))
        } else {
            None
        },
        first_fault(
            route_value_fault(r.provider_id@, "provider_id"@),
            first_fault(
                route_value_fault(r.profile_id@, "profile_id"@),
                first_fault(
                    route_value_fault(r.model_id@, "model_id"@),
                    first_fault(
                        route_value_fault(r.wire_model_id@, "wire_model_id"@),
                        first_fault(
                            route_value_fault(r.base_url@, "base_url"@),
                            first_fault(
                                route_value_fault(
                                    r.endpoint_fingerprint@,
                                    "endpoint_fingerprint"@,
                                ),
                                first_fault(
                                    route_value_fault(r.credential_ref@, "credential_ref"@),
                                    first_fault(
                                        route_value_fault(
                                            r.credential_fingerprint@,
                                            "credential_fingerprint"@,
                                        ),
                                        first_fault(
                                            route_value_fault(
                                                r.snapshot_hash@,
                                                "snapshot_hash"@,
                                            ),
                                            route_digest_fault(r),
                                        ),
                                    ),
                                ),
                            ),
                        ),
                    ),
                ),
            ),
        ),
    )
}

/// What is wrong with the digests of a route.
pub open spec fn route_digest_fault(r: ProviderRouteSnapshot) -> Option<Fault> {
    if r.endpoint_fingerprint@ != text_digest(endpoint_text(r)) {
        Some(invalid_fault("provider route endpoint fingerprint is inconsistent"@))
    } else if r.snapshot_hash@ != text_digest(route_text(r)) {
        Some(invalid_fault("provider route snapshot hash is inconsistent"@))
    } else {
        None
    }
}

/// `after` is `before` with its digests taken anew.
pub open spec fn route_sealed(
    before: ProviderRouteSnapshot,
    after: ProviderRouteSnapshot,
) -> bool {
    &&& after == (ProviderRouteSnapshot {
        endpoint_fingerprint: after.endpoint_fingerprint,
        snapshot_hash: after.snapshot_hash,
        ..before
    })
    &&& after.endpoint_fingerprint@ == text_digest(endpoint_text(before))
    &&& after.snapshot_hash@ == text_digest(route_text(after))
}

impl ProviderRouteSnapshot {
    fn expected_endpoint_fingerprint(&self) -> (d: String)
        ensures
            d@ == text_digest(endpoint_text(*self)),
    {
        let fields: Vec<(String, Json)> = vec![
            field("kind", self.kind.clone()),
            field("dialect", self.dialect.clone()),
            field("baseUrl", Json::string(self.base_url.as_str())),
        ];
        proof {
            assert(field_keys(fields@) =~= seq![
                "kind"@,
                "dialect"@,
                "baseUrl"@,
            ]);
            assert(field_values(fields@) =~= seq![
                self.kind@,
                self.dialect@,
                json_string_text(self.base_url@),
            ]);
        }
        hash_payload(&Json::object(fields))
    }

    fn expected_hash(&self) -> (d: String)
        ensures
            d@ == text_digest(route_text(*self)),
            route_is_told_apart(*self),
    {
        let fields: Vec<(String, Json)> = vec![
            field("schemaVersion", Json::number(self.schema_version as u64)),
            field("providerId", Json::string(self.provider_id.as_str())),
            field("profileId", Json::string(self.profile_id.as_str())),
            field("modelId", Json::string(self.model_id.as_str())),
            field("wireModelId", Json::string(self.wire_model_id.as_str())),
            field("kind", self.kind.clone()),
            field("dialect", self.dialect.clone()),
            field("baseUrl", Json::string(self.base_url.as_str())),
            field("endpointFingerprint", Json::string(self.endpoint_fingerprint.as_str())),
            field("credentialRef", Json::string(self.credential_ref.as_str())),
            field("credentialFingerprint", Json::string(self.credential_fingerprint.as_str())),
            field("capabilities", self.capabilities.document.clone()),
            field("deadlineClass", self.deadline_class.clone()),
            field("effort", self.effort.document.clone()),
        ];
        proof {
            assert(field_keys(fields@) =~= route_keys());
            assert(field_values(fields@) =~= route_values(*self));
            route_keys_differ();
        }
        let document: Json = Json::object(fields);
        proof {
            assert forall|other: ProviderRouteSnapshot| #[trigger]
                route_text(other) == route_text(*self) implies same_route_texts(other, *self) by {
                let x = route_values(*self);
                let y = route_values(other);
                assert(agreeing(x, y));
                assert(x[1] == json_string_text(self.provider_id@) && y[1] == json_string_text(
                    other.provider_id@,
                ));
                assert(x[2] == json_string_text(self.profile_id@) && y[2] == json_string_text(
                    other.profile_id@,
                ));
                assert(x[3] == json_string_text(self.model_id@) && y[3] == json_string_text(
                    other.model_id@,
                ));
                assert(x[4] == json_string_text(self.wire_model_id@) && y[4] == json_string_text(
                    other.wire_model_id@,
                ));
                assert(x[7] == json_string_text(self.base_url@) && y[7] == json_string_text(
                    other.base_url@,
                ));
                assert(x[8] == json_string_text(self.endpoint_fingerprint@) && y[8]
                    == json_string_text(other.endpoint_fingerprint@));
                assert(x[9] == json_string_text(self.credential_ref@) && y[9] == json_string_text(
                    other.credential_ref@,
                ));
                assert(x[10] == json_string_text(self.credential_fingerprint@) && y[10]
                    == json_string_text(other.credential_fingerprint@));
            }
        }
        hash_payload(&document)
    }

    /// Takes the digests anew and checks the route.
    pub fn seal(self) -> (r: Result<ProviderRouteSnapshot, OrchError>)
        ensures
            r is Ok ==> route_is_told_apart(r->Ok_0),
            exists|after: ProviderRouteSnapshot| #[trigger]
                route_sealed(self, after) && match route_fault(after) {
                    Some(f) => refused(r, f),
                    None => r == Ok::<ProviderRouteSnapshot, OrchError>(after),
                },
    {
        let mut route: ProviderRouteSnapshot = self;
        route.endpoint_fingerprint = route.expected_endpoint_fingerprint();
        route.snapshot_hash = route.expected_hash();
        proof {
            assert(route_sealed(self, route));
        }
        route.validate()?;
        Ok(route)
    }

    pub fn validate(&self) -> (r: Result<(), OrchError>)
        ensures
            judged(r, route_fault(*self)),
            r is Ok ==> route_is_told_apart(*self),
    {
        if self.schema_version != PROVIDER_ROUTE_SCHEMA_VERSION {
            return Err(invalid("provider route schema version is not supported"));
        }
        check_route_value(self.provider_id.as_str(), "provider_id")?;
        check_route_value(self.profile_id.as_str(), "profile_id")?;
        check_route_value(self.model_id.as_str(), "model_id")?;
        check_route_value(self.wire_model_id.as_str(), "wire_model_id")?;
        check_route_value(self.base_url.as_str(), "base_url")?;
        check_route_value(self.endpoint_fingerprint.as_str(), "endpoint_fingerprint")?;
        check_route_value(self.credential_ref.as_str(), "credential_ref")?;
        check_route_value(self.credential_fingerprint.as_str(), "credential_fingerprint")?;
        check_route_value(self.snapshot_hash.as_str(), "snapshot_hash")?;
        if !str_eq(
            self.endpoint_fingerprint.as_str(),
            self.expected_endpoint_fingerprint().as_str(),
        ) {
            return Err(invalid("provider route endpoint fingerprint is inconsistent"));
        }
        if !str_eq(self.snapshot_hash.as_str(), self.expected_hash().as_str()) {
            return Err(invalid("provider route snapshot hash is inconsistent"));
        }
        Ok(())
    }

    /// Stable, secret-free key for accounting.
    pub fn attribution_key(&self) -> (k: String)
        ensures
            k@ == attribution(*self),
    {
        let mut k: String = copy(self.provider_id.as_str());
        k.append("/");
        k.append(self.profile_id.as_str());
        k.append("/");
        k.append(self.model_id.as_str());
        k.append("@");
        k.append(self.effort.name.as_str());
        k
    }
}

/// The accounting key of a route.
pub open spec fn attribution(r: ProviderRouteSnapshot) -> Seq<char> {
    r.provider_id@ + "/"@ + r.profile_id@ + "/"@ + r.model_id@ + "@"@ + r.effort.name@
}

/// The revisions a decision was made under.
#[derive(Debug, Clone, Copy, PartialEq, Eq, Structural)]
pub struct PolicyRevisions {
    pub capability_revision: u64,
    pub policy_revision: u64,
}

/// The JSON text of revisions.
pub open spec fn revisions_text(r: PolicyRevisions) -> Seq<char> {
    json_object_text(
        seq!["capabilityRevision"@, "policyRevision"@],
        seq![decimal(r.capability_revision as nat), decimal(r.policy_revision as nat)],
    )
}

impl PolicyRevisions {
    fn document(&self) -> (j: Json)
        ensures
            j@ == revisions_text(*self),
    {
        let fields: Vec<(String, Json)> = vec![
            field("capabilityRevision", Json::number(self.capability_revision)),
            field("policyRevision", Json::number(self.policy_revision)),
        ];
        proof {
            assert(field_keys(fields@) =~= seq!["capabilityRevision"@, "policyRevision"@]);
            assert(field_values(fields@) =~= seq![
                decimal(self.capability_revision as nat),
                decimal(self.policy_revision as nat),
            ]);
        }
        Json::object(fields)
    }
}

/// The recorded name of a capability.
pub open spec fn capability_name(c: WorkCapability) -> Seq<char> {
    match c {
        WorkCapability::ReadWorkspace => "read_workspace"@,
        WorkCapability::WriteWorkspace => "write_workspace"@,
        WorkCapability::ExecuteInWorktree => "execute_in_worktree"@,
        WorkCapability::ComputerUse => "computer_use"@,
    }
}

/// The texts of this capability if the set has it.
pub open spec fn capability_part(s: CapabilitySet, c: WorkCapability) -> Seq<Seq<char>> {
    if s.has(c) {
        seq![json_string_text(capability_name(c))]
    } else {
        Seq::empty()
    }
}

/// The JSON text of a set of capabilities: their names, in the order of the
/// declaration.
pub open spec fn capabilities_text(s: CapabilitySet) -> Seq<char> {
    json_array_text(
        capability_part(s, WorkCapability::ReadWorkspace) + capability_part(
            s,
            WorkCapability::WriteWorkspace,
        ) + capability_part(s, WorkCapability::ExecuteInWorktree) + capability_part(
            s,
            WorkCapability::ComputerUse,
        ),
    )
}

fn capabilities_document(s: &CapabilitySet) -> (j: Json)
    ensures
        j@ == capabilities_text(*s),
{
    let mut names: Vec<Json> = Vec::new();
    if s.read_workspace {
        names.push(Json::string("read_workspace"));
    }
    let ghost a = capability_part(*s, WorkCapability::ReadWorkspace);
    proof {
        assert(views(names@) =~= a);
    }
    if s.write_workspace {
        names.push(Json::string("write_workspace"));
    }
    let ghost b = a + capability_part(*s, WorkCapability::WriteWorkspace);
    proof {
        assert(views(names@) =~= b);
    }
    if s.execute_in_worktree {
        names.push(Json::string("execute_in_worktree"));
    }
    let ghost c = b + capability_part(*s, WorkCapability::ExecuteInWorktree);
    proof {
        assert(views(names@) =~= c);
    }
    if s.computer_use {
        names.push(Json::string("computer_use"));
    }
    proof {
        assert(views(names@) =~= c + capability_part(*s, WorkCapability::ComputerUse));
    }
    Json::array(names)
}

/// The JSON text of bounds. A token threshold that is not set is left out.
pub open spec fn bounds_text(b: RunBounds) -> Seq<char> {
    match b.max_total_tokens {
        None => json_object_text(
            seq!["maxPromptBytes"@, "maxRounds"@, "maxDurationMs"@],
            seq![
                decimal(b.max_prompt_bytes as nat),
                decimal(b.max_rounds as nat),
                decimal(b.max_duration_ms as nat),
            ],
        ),
        Some(tokens) => json_object_text(
            seq!["maxPromptBytes"@, "maxRounds"@, "maxDurationMs"@, "maxTotalTokens"@],
            seq![
                decimal(b.max_prompt_bytes as nat),
                decimal(b.max_rounds as nat),
                decimal(b.max_duration_ms as nat),
                decimal(tokens as nat),
            ],
        ),
    }
}

fn bounds_document(b: &RunBounds) -> (j: Json)
    ensures
        j@ == bounds_text(*b),
{
    let mut fields: Vec<(String, Json)> = vec![
        field("maxPromptBytes", Json::number(b.max_prompt_bytes as u64)),
        field("maxRounds", Json::number(b.max_rounds as u64)),
        field("maxDurationMs", Json::number(b.max_duration_ms)),
    ];
    match b.max_total_tokens {
        None => {
            proof {
                assert(field_keys(fields@) =~= seq![
                    "maxPromptBytes"@,
                    "maxRounds"@,
                    "maxDurationMs"@,
                ]);
                assert(field_values(fields@) =~= seq![
                    decimal(b.max_prompt_bytes as nat),
                    decimal(b.max_rounds as nat),
                    decimal(b.max_duration_ms as nat),
                ]);
            }
        },
        Some(tokens) => {
            fields.push(field("maxTotalTokens", Json::number(tokens)));
            proof {
                assert(field_keys(fields@) =~= seq![
                    "maxPromptBytes"@,
                    "maxRounds"@,
                    "maxDurationMs"@,
                    "maxTotalTokens"@,
                ]);
                assert(field_values(fields@) =~= seq![
                    decimal(b.max_prompt_bytes as nat),
                    decimal(b.max_rounds as nat),
                    decimal(b.max_duration_ms as nat),
                    decimal(tokens as nat),
                ]);
            }
        },
    }
    Json::object(fields)
}

/// Everything one action may do, bound to exactly one attempt.
#[derive(Debug)]
pub struct ActionAuthority {
    pub schema_version: u32,
    pub authority_id: AuthorityId,
    pub graph_id: GraphId,
    pub work_id: WorkId,
    pub worker_id: WorkerId,
    pub attempt_id: AttemptId,
    /// Number of the attempt within its item.
    pub attempt: u32,
    pub session_id: u128,
    /// Canonical workspace this authority is valid in.
    pub workspace: String,
    pub agent_id: String,
    pub route: ProviderRouteSnapshot,
    pub revisions: PolicyRevisions,
    pub capabilities: CapabilitySet,
    pub bounds: RunBounds,
    pub issued_at: i128,
    pub expires_at: i128,
    /// Digest over every field above.
    pub binding_hash: String,
}

impl Clone for ActionAuthority {
    fn clone(&self) -> (r: ActionAuthority)
        ensures
            r == *self,
    {
        ActionAuthority {
            schema_version: self.schema_version,
            authority_id: self.authority_id.clone(),
            graph_id: self.graph_id.clone(),
            work_id: self.work_id.clone(),
            worker_id: self.worker_id.clone(),
            attempt_id: self.attempt_id.clone(),
            attempt: self.attempt,
            session_id: self.session_id,
            workspace: self.workspace.clone(),
            agent_id: self.agent_id.clone(),
            route: self.route.clone(),
            revisions: self.revisions,
            capabilities: self.capabilities,
            bounds: self.bounds,
            issued_at: self.issued_at,
            expires_at: self.expires_at,
            binding_hash: self.binding_hash.clone(),
        }
    }
}

/// What a caller claims at the moment it wants to act.
#[derive(Debug)]
pub struct AuthorityUse<'a> {
    pub graph_id: &'a GraphId,
    pub work_id: &'a WorkId,
    pub attempt_id: &'a AttemptId,
    pub attempt: u32,
    pub session_id: u128,
    pub workspace: &'a str,
    pub agent_id: &'a str,
    pub route_snapshot_hash: &'a str,
    pub revisions: PolicyRevisions,
    pub capability: WorkCapability,
}

/// The names of what the digest of an authority is taken of.
pub open spec fn authority_keys() -> Seq<Seq<char>> {
    seq![
        "schemaVersion"@,
        "authorityId"@,
        "graphId"@,
        "workId"@,
        "workerId"@,
        "attemptId"@,
        "attempt"@,
        "sessionId"@,
        "workspace"@,
        "agentId"@,
        "routeSnapshotHash"@,
        "revisions"@,
        "capabilities"@,
        "bounds"@,
        "issuedAt"@,
        "expiresAt"@,
    ]
}

/// What the digest of an authority is taken of.
pub open spec fn authority_values(r: ActionAuthority) -> Seq<Seq<char>> {
    seq![
        decimal(r.schema_version as nat),
        json_string_text(r.authority_id@),
        json_string_text(r.graph_id@),
        json_string_text(r.work_id@),
        json_string_text(r.worker_id@),
        json_string_text(r.attempt_id@),
        decimal(r.attempt as nat),
        json_uuid_text(r.session_id),
        json_string_text(r.workspace@),
        json_string_text(r.agent_id@),
        json_string_text(r.route.snapshot_hash@),
        revisions_text(r.revisions),
        capabilities_text(r.capabilities),
        bounds_text(r.bounds),
        json_instant_text(r.issued_at as int),
        json_instant_text(r.expires_at as int),
    ]
}

/// The document that the binding of an authority is taken of.
pub open spec fn authority_text(r: ActionAuthority) -> Seq<char> {
    json_object_text(authority_keys(), authority_values(r))
}

/// The names in an authority's document are distinct.
proof fn authority_keys_differ()
    ensures
        authority_keys().no_duplicates(),
{
    reveal_strlit("schemaVersion");
    reveal_strlit("authorityId");
    reveal_strlit("graphId");
    reveal_strlit("workId");
    reveal_strlit("workerId");
    reveal_strlit("attemptId");
    reveal_strlit("attempt");
    reveal_strlit("sessionId");
    reveal_strlit("workspace");
    reveal_strlit("agentId");
    reveal_strlit("routeSnapshotHash");
    reveal_strlit("revisions");
    reveal_strlit("capabilities");
    reveal_strlit("bounds");
    reveal_strlit("issuedAt");
    reveal_strlit("expiresAt");
    let k = authority_keys();
    assert(k[0].len() == 13);
    assert(k[1].len() == 11);
    assert(k[2].len() == 7 && k[2][0] == 'g');
    assert(k[3].len() == 6 && k[3][0] == 'w');
    assert(k[4].len() == 8 && k[4][0] == 'w');
    assert(k[5].len() == 9 && k[5][0] == 'a');
    assert(k[6].len() == 7 && k[6][0] == 'a' && k[6][1] == 't');
    assert(k[7].len() == 9 && k[7][0] == 's');
    assert(k[8].len() == 9 && k[8][0] == 'w');
    assert(k[9].len() == 7 && k[9][0] == 'a' && k[9][1] == 'g');
    assert(k[10].len() == 17);
    assert(k[11].len() == 9 && k[11][0] == 'r');
    assert(k[12].len() == 12);
    assert(k[13].len() == 6 && k[13][0] == 'b');
    assert(k[14].len() == 8 && k[14][0] == 'i');
    assert(k[15].len() == 9 && k[15][0] == 'e');
    assert forall|i: int, j: int| 0 <= i < k.len() && 0 <= j < k.len() && i != j implies k[i]
        != k[j] by {
        assert(i == 0 || i == 1 || i == 2 || i == 3 || i == 4 || i == 5 || i == 6 || i == 7 ||
            i == 8 || i == 9 || i == 10 || i == 11 || i == 12 || i == 13 || i == 14 || i == 15);
        assert(j == 0 || j == 1 || j == 2 || j == 3 || j == 4 || j == 5 || j == 6 || j == 7 ||
            j == 8 || j == 9 || j == 10 || j == 11 || j == 12 || j == 13 || j == 14 || j == 15);
        assert(k[i].len() != k[j].len() || k[i][0] != k[j][0] || k[i][1] != k[j][1]);
    }
}

/// Two authorities say the same in every text that the digest is taken of.
pub open spec fn same_authority_texts(a: ActionAuthority, b: ActionAuthority) -> bool {
    &&& a.authority_id@ == b.authority_id@
    &&& a.graph_id@ == b.graph_id@
    &&& a.work_id@ == b.work_id@
    &&& a.worker_id@ == b.worker_id@
    &&& a.attempt_id@ == b.attempt_id@
    &&& a.workspace@ == b.workspace@
    &&& a.agent_id@ == b.agent_id@
    &&& a.route.snapshot_hash@ == b.route.snapshot_hash@
}

/// No authority with other texts has the document of this one.
pub open spec fn authority_is_told_apart(a: ActionAuthority) -> bool {
    forall|other: ActionAuthority| #[trigger]
        authority_text(other) == authority_text(a) ==> same_authority_texts(other, a)
}

/// What is wrong with an authority.
pub open spec fn authority_fault(a: ActionAuthority) -> Option<Fault> {
    first_fault(
        if a.schema_version != AUTHORITY_SCHEMA_VERSION {
            Some(invalid_fault("authority schema version is not supported"@))
        } else {
            None
        },
        first_fault(
            a.authority_id.fault(),
            first_fault(
                a.graph_id.fault(),
                first_fault(
                    a.work_id.fault(),
                    first_fault(
                        a.worker_id.fault(),
                        first_fault(
                            a.attempt_id.fault(),
                            first_fault(
                                route_fault(a.route),
                                first_fault(bounds_fault(a.bounds), authority_rest_fault(a)),
                            ),
                        ),
                    ),
                ),
            ),
        ),
    )
}

/// What is wrong with the scope, lifetime or binding of an authority.
pub open spec fn authority_rest_fault(a: ActionAuthority) -> Option<Fault> {
    if a.workspace@.len() == 0 || utf8_len(a.workspace@) > 4096 {
        Some(invalid_fault("authority workspace is invalid"@))
    } else if a.agent_id@.len() == 0 || utf8_len(a.agent_id@) > 256 {
        Some(invalid_fault("authority agent id is invalid"@))
    } else if a.capabilities.none() {
        Some(invalid_fault("authority grants no capability"@))
    } else if a.expires_at <= a.issued_at {
        Some(invalid_fault("authority has a non-positive lifetime"@))
    } else if a.binding_hash@ != text_digest(authority_text(a)) {
        Some(invalid_fault("authority binding hash is inconsistent"@))
    } else {
        None
    }
}

/// `after` is `before` with its route sealed and its binding taken anew.
pub open spec fn authority_sealed(before: ActionAuthority, after: ActionAuthority) -> bool {
    &&& after == (ActionAuthority {
        route: after.route,
        binding_hash: after.binding_hash,
        ..before
    })
    &&& route_sealed(before.route, after.route)
    &&& after.binding_hash@ == text_digest(authority_text(after))
}

/// Why an authority does not permit a use at `now`. Every mismatch is a
/// refusal.
pub open spec fn use_fault(a: ActionAuthority, claim: AuthorityUse<'_>, now: i128) -> Option<Fault> {
    first_fault(
        authority_fault(a),
        if now < a.issued_at {
            Some(forbidden_fault("authority is not yet valid"@))
        } else if now >= a.expires_at {
            Some(forbidden_fault("authority has expired"@))
        } else if a.graph_id@ != claim.graph_id@ || a.work_id@ != claim.work_id@ || a.attempt_id@
            != claim.attempt_id@ || a.attempt != claim.attempt {
            Some(forbidden_fault("authority is bound to a different attempt"@))
        } else if a.session_id != claim.session_id {
            Some(
                fault(
                    OrchErrorCode::WorkspaceMismatch,
                    "authority is bound to a different session"@,
                ),
            )
        } else if a.workspace@ != claim.workspace@ {
            Some(
                fault(
                    OrchErrorCode::WorkspaceMismatch,
                    "authority is bound to a different workspace"@,
                ),
            )
        } else if a.agent_id@ != claim.agent_id@ {
            Some(forbidden_fault("authority is bound to a different agent"@))
        } else if a.route.snapshot_hash@ != claim.route_snapshot_hash@ {
            Some(forbidden_fault("authority is bound to a different provider route"@))
        } else if a.revisions != claim.revisions {
            Some(
                fault(
                    OrchErrorCode::StaleVersion,
                    "authority was minted under different capability or policy revisions"@,
                ),
            )
        } else if !a.capabilities.has(claim.capability) {
            Some(forbidden_fault("capability is outside this authority"@))
        } else {
            None
        },
    )
}

impl ActionAuthority {
    fn expected_hash(&self) -> (d: String)
        ensures
            d@ == text_digest(authority_text(*self)),
            authority_is_told_apart(*self),
    {
        let fields: Vec<(String, Json)> = vec![
            field("schemaVersion", Json::number(self.schema_version as u64)),
            field("authorityId", Json::string(self.authority_id.as_str())),
            field("graphId", Json::string(self.graph_id.as_str())),
            field("workId", Json::string(self.work_id.as_str())),
            field("workerId", Json::string(self.worker_id.as_str())),
            field("attemptId", Json::string(self.attempt_id.as_str())),
            field("attempt", Json::number(self.attempt as u64)),
            field("sessionId", Json::uuid(self.session_id)),
            field("workspace", Json::string(self.workspace.as_str())),
            field("agentId", Json::string(self.agent_id.as_str())),
            field("routeSnapshotHash", Json::string(self.route.snapshot_hash.as_str())),
            field("revisions", self.revisions.document()),
            field("capabilities", capabilities_document(&self.capabilities)),
            field("bounds", bounds_document(&self.bounds)),
            field("issuedAt", Json::instant(self.issued_at)),
            field("expiresAt", Json::instant(self.expires_at)),
        ];
        proof {
            assert(field_keys(fields@) =~= authority_keys());
            assert(field_values(fields@) =~= authority_values(*self));
            authority_keys_differ();
        }
        let document: Json = Json::object(fields);
        proof {
            assert forall|other: ActionAuthority| #[trigger]
                authority_text(other) == authority_text(*self) implies same_authority_texts(
                other,
                *self,
            ) by {
                let x = authority_values(*self);
                let y = authority_values(other);
                assert(agreeing(x, y));
                assert(x[1] == json_string_text(self.authority_id@));
                assert(y[1] == json_string_text(other.authority_id@));
                assert(x[2] == json_string_text(self.graph_id@));
                assert(y[2] == json_string_text(other.graph_id@));
                assert(x[3] == json_string_text(self.work_id@));
                assert(y[3] == json_string_text(other.work_id@));
                assert(x[4] == json_string_text(self.worker_id@));
                assert(y[4] == json_string_text(other.worker_id@));
                assert(x[5] == json_string_text(self.attempt_id@));
                assert(y[5] == json_string_text(other.attempt_id@));
                assert(x[8] == json_string_text(self.workspace@));
                assert(y[8] == json_string_text(other.workspace@));
                assert(x[9] == json_string_text(self.agent_id@));
                assert(y[9] == json_string_text(other.agent_id@));
                assert(x[10] == json_string_text(self.route.snapshot_hash@));
                assert(y[10] == json_string_text(other.route.snapshot_hash@));
            }
        }
        hash_payload(&document)
    }

    /// Seals the route and takes the binding digest.
    pub fn seal(self) -> (r: Result<ActionAuthority, OrchError>)
        ensures
            r is Ok ==> authority_is_told_apart(r->Ok_0),
            exists|route: ProviderRouteSnapshot| #[trigger]
                route_sealed(self.route, route) && match route_fault(route) {
                    Some(f) => refused(r, f),
                    None => exists|after: ActionAuthority| #[trigger]
                        authority_sealed(self, after) && after.route == route
                            && match authority_fault(after) {
                            Some(f) => refused(r, f),
                            None => r == Ok::<ActionAuthority, OrchError>(after),
                        },
                },
    {
        let mut authority: ActionAuthority = self;
        authority.route = authority.route.clone().seal()?;
        authority.binding_hash = authority.expected_hash();
        proof {
            assert(authority_sealed(self, authority));
        }
        authority.validate()?;
        Ok(authority)
    }

    pub fn validate(&self) -> (r: Result<(), OrchError>)
        ensures
            judged(r, authority_fault(*self)),
            r is Ok ==> authority_is_told_apart(*self),
    {
        if self.schema_version != AUTHORITY_SCHEMA_VERSION {
            return Err(invalid("authority schema version is not supported"));
        }
        self.authority_id.validate()?;
        self.graph_id.validate()?;
        self.work_id.validate()?;
        self.worker_id.validate()?;
        self.attempt_id.validate()?;
        self.route.validate()?;
        self.bounds.validate()?;
        if self.workspace.as_str().is_empty() || byte_len(self.workspace.as_str()) > 4096 {
            return Err(invalid("authority workspace is invalid"));
        }
        if self.agent_id.as_str().is_empty() || byte_len(self.agent_id.as_str()) > 256 {
            return Err(invalid("authority agent id is invalid"));
        }
        if self.capabilities.is_empty() {
            return Err(invalid("authority grants no capability"));
        }
        if self.expires_at <= self.issued_at {
            return Err(invalid("authority has a non-positive lifetime"));
        }
        if !str_eq(self.binding_hash.as_str(), self.expected_hash().as_str()) {
            return Err(invalid("authority binding hash is inconsistent"));
        }
        Ok(())
    }

    /// Checks this authority against what a caller claims at `now`.
    pub fn verify(&self, claim: &AuthorityUse<'_>, now: i128) -> (r: Result<(), OrchError>)
        ensures
            judged(r, use_fault(*self, *claim, now)),
    {
        self.validate()?;
        if now < self.issued_at {
            return Err(forbidden("authority is not yet valid"));
        }
        if now >= self.expires_at {
            return Err(forbidden("authority has expired"));
        }
        if !self.graph_id.same(claim.graph_id) || !self.work_id.same(claim.work_id)
            || !self.attempt_id.same(claim.attempt_id) || self.attempt != claim.attempt {
            return Err(forbidden("authority is bound to a different attempt"));
        }
        if self.session_id != claim.session_id {
            return Err(
                OrchError::new(
                    OrchErrorCode::WorkspaceMismatch,
                    "authority is bound to a different session",
                ),
            );
        }
        if !str_eq(self.workspace.as_str(), claim.workspace) {
            return Err(
                OrchError::new(
                    OrchErrorCode::WorkspaceMismatch,
                    "authority is bound to a different workspace",
                ),
            );
        }
        if !str_eq(self.agent_id.as_str(), claim.agent_id) {
            return Err(forbidden("authority is bound to a different agent"));
        }
        if !str_eq(self.route.snapshot_hash.as_str(), claim.route_snapshot_hash) {
            return Err(forbidden("authority is bound to a different provider route"));
        }
        if self.revisions != claim.revisions {
            return Err(
                OrchError::new(
                    OrchErrorCode::StaleVersion,
                    "authority was minted under different capability or policy revisions",
                ),
            );
        }
        if !self.capabilities.contains(claim.capability) {
            return Err(forbidden("capability is outside this authority"));
        }
        Ok(())
    }
}

/// An authority that permits a use names exactly that attempt, session,
/// workspace, agent, route, revisions and capability, and is in force.
pub proof fn uses_match_their_authority(a: ActionAuthority, claim: AuthorityUse<'_>, now: i128)
    requires
        use_fault(a, claim, now) is None,
    ensures
        authority_fault(a) is None,
        a.issued_at <= now < a.expires_at,
        a.graph_id@ == claim.graph_id@,
        a.work_id@ == claim.work_id@,
        a.attempt_id@ == claim.attempt_id@,
        a.attempt == claim.attempt,
        a.session_id == claim.session_id,
        a.workspace@ == claim.workspace@,
        a.agent_id@ == claim.agent_id@,
        a.route.snapshot_hash@ == claim.route_snapshot_hash@,
        a.revisions == claim.revisions,
        a.capabilities.has(claim.capability),
{
}

/// Changing what an authority says, without sealing it again, makes it invalid
/// wherever the digest of what it now says differs.
pub proof fn authorities_are_tamper_evident(a: ActionAuthority, changed: ActionAuthority)
    requires
        authority_fault(a) is None,
        changed.binding_hash == a.binding_hash,
        text_digest(authority_text(changed)) != text_digest(authority_text(a)),
    ensures
        authority_fault(changed) is Some,
{
}

/// A sealed authority is refused once any of its texts is changed without sealing
/// it again; unless the old and the new document happen to have one SHA-256
/// digest. Sealing and validating both establish that an authority is told apart.
pub proof fn changed_authorities_are_refused(a: ActionAuthority, changed: ActionAuthority)
    requires
        authority_fault(a) is None,
        authority_is_told_apart(a),
        changed.binding_hash == a.binding_hash,
        !same_authority_texts(changed, a),
        no_collision(authority_text(changed), authority_text(a)),
    ensures
        authority_fault(changed) is Some,
{
    digests_differ(authority_text(changed), authority_text(a));
}

/// A route that keeps its hash and says something under which the digest is
/// another is refused.
pub proof fn routes_are_tamper_evident(r: ProviderRouteSnapshot, changed: ProviderRouteSnapshot)
    requires
        route_fault(r) is None,
        changed.snapshot_hash@ == r.snapshot_hash@,
        text_digest(route_text(changed)) != text_digest(route_text(r)),
    ensures
        route_fault(changed) is Some,
        route_fault(changed)->0.code is InvalidRequest,
{
}

/// A sealed route is refused, as an invalid request, once any of its texts is
/// changed without sealing it again; unless the old and the new document happen
/// to have one SHA-256 digest. Sealing and validating both establish that a route
/// is told apart.
pub proof fn changed_routes_are_refused(r: ProviderRouteSnapshot, changed: ProviderRouteSnapshot)
    requires
        route_fault(r) is None,
        route_is_told_apart(r),
        changed.snapshot_hash@ == r.snapshot_hash@,
        !same_route_texts(changed, r),
        no_collision(route_text(changed), route_text(r)),
    ensures
        route_fault(changed) is Some,
        route_fault(changed)->0.code is InvalidRequest,
{
    digests_differ(route_text(changed), route_text(r));
}

/// Namespace of derived identities. Another one would give a replayed attempt
/// a second identity.
pub const IDENTITY_NAMESPACE: &'static str = "grokptah.swarm.v1";

/// The document that the identity of an attempt is derived from.
pub open spec fn attempt_identity_text(graph_id: Seq<char>, work_id: Seq<char>, attempt: u32) -> Seq<char> {
    json_object_text(
        seq![
            "namespace"@,
            "kind"@,
            "graphId"@,
            "workId"@,
            "attempt"@,
        ],
        seq![
            json_string_text(IDENTITY_NAMESPACE@),
            json_string_text("attempt"@),
            json_string_text(graph_id),
            json_string_text(work_id),
            decimal(attempt as nat),
        ],
    )
}

/// The identity of an attempt.
pub open spec fn attempt_identity(graph_id: Seq<char>, work_id: Seq<char>, attempt: u32) -> Seq<
    char,
> {
    "att-"@ + text_digest(attempt_identity_text(graph_id, work_id, attempt))
}

/// The document that the identity of an authority is derived from.
pub open spec fn authority_identity_text(attempt_id: Seq<char>, revisions: PolicyRevisions) -> Seq<char> {
    json_object_text(
        seq![
            "namespace"@,
            "kind"@,
            "attemptId"@,
            "capabilityRevision"@,
            "policyRevision"@,
        ],
        seq![
            json_string_text(IDENTITY_NAMESPACE@),
            json_string_text("authority"@),
            json_string_text(attempt_id),
            decimal(revisions.capability_revision as nat),
            decimal(revisions.policy_revision as nat),
        ],
    )
}

/// The identity of an authority.
pub open spec fn authority_identity(attempt_id: Seq<char>, revisions: PolicyRevisions) -> Seq<char> {
    "aut-"@ + text_digest(authority_identity_text(attempt_id, revisions))
}

proof fn digit_is_plain(n: int)
    requires
        0 <= n < 16,
    ensures
        id_char(hex_digit(n)),
        hex_digit(n) != '.',
        (hex_digit(n) as u32) < 128,
{
    assert(n == 0 || n == 1 || n == 2 || n == 3 || n == 4 || n == 5 || n == 6 || n == 7 || n == 8
        || n == 9 || n == 10 || n == 11 || n == 12 || n == 13 || n == 14 || n == 15);
}

/// A short plain prefix and a digest make an identity.
proof fn derived_ids_are_valid(kind: Seq<char>, prefix: Seq<char>, bytes: Seq<u8>)
    requires
        prefix.len() == 4,
        forall|i: int| 0 <= i < 4 ==> id_char(#[trigger] prefix[i]) && prefix[i] != '.',
        bytes.len() == 32,
    ensures
        id_value_fault(kind, prefix + hex(bytes)) is None,
{
    let s = prefix + hex(bytes);
    assert forall|i: int| 0 <= i < s.len() implies id_char(#[trigger] s[i]) && s[i] != '.' && (
    s[i] as u32) < 128 by {
        if i >= 4 {
            let k = i - 4;
            assert(s[i] == hex(bytes)[k]);
            if k % 2 == 0 {
                digit_is_plain(bytes[k / 2] as int / 16);
            } else {
                digit_is_plain(bytes[k / 2] as int % 16);
            }
        } else {
            assert(s[i] == prefix[i]);
        }
    }
    assert(is_ascii_chars(s));
    is_ascii_chars_encode_utf8(s);
    assert(utf8_len(s) == 68);
    reveal_strlit("..");
    assert(!contains_text(s, ".."@)) by {
        if contains_text(s, ".."@) {
            let i = choose|i: int| occurs_at(s, ".."@, i);
            assert(s.subrange(i, i + 2)[0] == s[i]);
        }
    }
}

/// Deterministic identity of an attempt: the same graph, item and number give
/// the same identity, so a replay proposes the one already on record.
pub fn derive_attempt_id(graph_id: &GraphId, work_id: &WorkId, attempt: u32) -> (r: Result<
    AttemptId,
    OrchError,
>)
    ensures
        r is Ok,
        r->Ok_0@ == attempt_identity(graph_id@, work_id@, attempt),
        r->Ok_0.fault() is None,
{
    let fields: Vec<(String, Json)> = vec![
        field("namespace", Json::string(IDENTITY_NAMESPACE)),
        field("kind", Json::string("attempt")),
        field("graphId", Json::string(graph_id.as_str())),
        field("workId", Json::string(work_id.as_str())),
        field("attempt", Json::number(attempt as u64)),
    ];
    proof {
        assert(field_keys(fields@) =~= seq![
            "namespace"@,
            "kind"@,
            "graphId"@,
            "workId"@,
            "attempt"@,
        ]);
        assert(field_values(fields@) =~= seq![
            json_string_text(IDENTITY_NAMESPACE@),
            json_string_text("attempt"@),
            json_string_text(graph_id@),
            json_string_text(work_id@),
            decimal(attempt as nat),
        ]);
    }
    let payload: Json = Json::object(fields);
    let digest: String = hash_payload(&payload);
    proof {
        reveal_strlit("att-");
        derived_ids_are_valid("attempt id"@, "att-"@, sha256_of(encode_utf8(payload@)));
    }
    AttemptId::parse(join2("att-", digest.as_str()).as_str())
}

/// Deterministic identity of an authority for one attempt and revision pair.
pub fn derive_authority_id(attempt_id: &AttemptId, revisions: PolicyRevisions) -> (r: Result<
    AuthorityId,
    OrchError,
>)
    ensures
        r is Ok,
        r->Ok_0@ == authority_identity(attempt_id@, revisions),
        r->Ok_0.fault() is None,
{
    let fields: Vec<(String, Json)> = vec![
        field("namespace", Json::string(IDENTITY_NAMESPACE)),
        field("kind", Json::string("authority")),
        field("attemptId", Json::string(attempt_id.as_str())),
        field("capabilityRevision", Json::number(revisions.capability_revision)),
        field("policyRevision", Json::number(revisions.policy_revision)),
    ];
    proof {
        assert(field_keys(fields@) =~= seq![
            "namespace"@,
            "kind"@,
            "attemptId"@,
            "capabilityRevision"@,
            "policyRevision"@,
        ]);
        assert(field_values(fields@) =~= seq![
            json_string_text(IDENTITY_NAMESPACE@),
            json_string_text("authority"@),
            json_string_text(attempt_id@),
            decimal(revisions.capability_revision as nat),
            decimal(revisions.policy_revision as nat),
        ]);
    }
    let payload: Json = Json::object(fields);
    let digest: String = hash_payload(&payload);
    proof {
        reveal_strlit("aut-");
        derived_ids_are_valid("authority id"@, "aut-"@, sha256_of(encode_utf8(payload@)));
    }
    AuthorityId::parse(join2("aut-", digest.as_str()).as_str())
}

/// Whether request bytes reached the provider.
#[derive(Debug, Clone, Copy, PartialEq, Eq, Structural)]
pub enum SendCertainty {
    /// No request bytes left the process.
    KnownNotSent,
    /// Accepted, with a response.
    KnownAccepted,
    /// The send may or may not have been accepted.
    UncertainAccept,
}

/// What a caller may do after an attempt finished.
#[derive(Debug, Clone, Copy, PartialEq, Eq, Structural)]
pub enum RetryClass {
    /// Safe to retry within the same item.
    SameWorkSafe,
    /// Only an explicit new attempt is permitted.
    ExplicitNewAttemptOnly,
}

impl SendCertainty {
    /// Only what certainly was not sent may be sent again.
    pub open spec fn class(self) -> RetryClass {
        if self is KnownNotSent {
            RetryClass::SameWorkSafe
        } else {
            RetryClass::ExplicitNewAttemptOnly
        }
    }

    pub fn retry_class(self) -> (r: RetryClass)
        ensures
            r == self.class(),
    {
        match self {
            SendCertainty::KnownNotSent => RetryClass::SameWorkSafe,
            SendCertainty::KnownAccepted | SendCertainty::UncertainAccept => {
                RetryClass::ExplicitNewAttemptOnly
            },
        }
    }
}

#[derive(Debug, Clone, Copy, PartialEq, Eq, Structural)]
pub enum AttemptState {
    /// The row exists and the host may enter the transport.
    Admitted,
    /// The transport returned and the outcome is recorded.
    Finished,
}

/// Durable record of one provider dispatch attempt, written before the host
/// enters the transport.
#[derive(Debug)]
pub struct ProviderAttemptRecord {
    pub schema_version: u32,
    pub attempt_id: AttemptId,
    pub graph_id: GraphId,
    pub work_id: WorkId,
    pub attempt: u32,
    pub authority_id: AuthorityId,
    pub route_snapshot_hash: String,
    /// Secret-free key for accounting.
    pub attribution_key: String,
    /// Position among the sends of its item.
    pub ordinal: u64,
    pub state: AttemptState,
    pub send_certainty: Option<SendCertainty>,
    pub retry_class: Option<RetryClass>,
    pub http_status: Option<u16>,
    pub usage: Option<CompletionUsage>,
    pub created_at: i128,
    pub updated_at: i128,
    pub finished_at: Option<i128>,
}

impl Clone for ProviderAttemptRecord {
    fn clone(&self) -> (r: ProviderAttemptRecord)
        ensures
            r == *self,
    {
        ProviderAttemptRecord {
            schema_version: self.schema_version,
            attempt_id: self.attempt_id.clone(),
            graph_id: self.graph_id.clone(),
            work_id: self.work_id.clone(),
            attempt: self.attempt,
            authority_id: self.authority_id.clone(),
            route_snapshot_hash: self.route_snapshot_hash.clone(),
            attribution_key: self.attribution_key.clone(),
            ordinal: self.ordinal,
            state: self.state,
            send_certainty: self.send_certainty,
            retry_class: self.retry_class,
            http_status: self.http_status,
            usage: self.usage,
            created_at: self.created_at,
            updated_at: self.updated_at,
            finished_at: self.finished_at,
        }
    }
}

/// What is wrong with an attempt row.
pub open spec fn row_fault(a: ProviderAttemptRecord) -> Option<Fault> {
    first_fault(
        if a.schema_version != PROVIDER_ATTEMPT_SCHEMA_VERSION {
            Some(invalid_fault("provider attempt schema version is not supported"@))
        } else {
            None
        },
        first_fault(
            a.attempt_id.fault(),
            first_fault(
                a.graph_id.fault(),
                first_fault(
                    a.work_id.fault(),
                    first_fault(
                        a.authority_id.fault(),
                        first_fault(
                            route_value_fault(a.route_snapshot_hash@, "route_snapshot_hash"@),
                            first_fault(
                                route_value_fault(a.attribution_key@, "attribution_key"@),
                                row_outcome_fault(a),
                            ),
                        ),
                    ),
                ),
            ),
        ),
    )
}

/// What is wrong with the outcome of an attempt row.
pub open spec fn row_outcome_fault(a: ProviderAttemptRecord) -> Option<Fault> {
    if a.state is Finished && a.send_certainty is None {
        Some(invalid_fault("a finished attempt must record its send certainty"@))
    } else if a.retry_class != (match a.send_certainty {
        Some(c) => Some(c.class()),
        None => None,
    }) {
        Some(invalid_fault("attempt retry class disagrees with its certainty"@))
    } else {
        None
    }
}

/// `a` is the row admitted under an authority.
pub open spec fn is_admitted_row(
    a: ProviderAttemptRecord,
    authority: ActionAuthority,
    ordinal: u64,
    now: i128,
) -> bool {
    &&& a.schema_version == PROVIDER_ATTEMPT_SCHEMA_VERSION
    &&& a.attempt_id == authority.attempt_id
    &&& a.graph_id == authority.graph_id
    &&& a.work_id == authority.work_id
    &&& a.attempt == authority.attempt
    &&& a.authority_id == authority.authority_id
    &&& a.route_snapshot_hash == authority.route.snapshot_hash
    &&& a.attribution_key@ == attribution(authority.route)
    &&& a.ordinal == ordinal
    &&& a.state is Admitted
    &&& a.send_certainty is None
    &&& a.retry_class is None
    &&& a.http_status is None
    &&& a.usage is None
    &&& a.created_at == now
    &&& a.updated_at == now
    &&& a.finished_at is None
}

/// The later of two instants.
pub open spec fn later(a: i128, b: i128) -> i128 {
    if a < b {
        b
    } else {
        a
    }
}

/// Why an outcome is not recorded.
pub open spec fn finish_fault(
    a: ProviderAttemptRecord,
    certainty: SendCertainty,
    http_status: Option<u16>,
    usage: Option<CompletionUsage>,
) -> Option<Fault> {
    if a.state is Finished {
        if a.send_certainty == Some(certainty) && a.http_status == http_status && a.usage == usage {
            None
        } else {
            Some(conflict_fault("attempt completion conflicts with durable state"@))
        }
    } else if certainty != SendCertainty::KnownAccepted && usage is Some {
        Some(invalid_fault("provider usage requires a known accepted response"@))
    } else if certainty == SendCertainty::KnownNotSent && http_status is Some {
        Some(invalid_fault("a known-not-sent attempt cannot carry an HTTP status"@))
    } else {
        None
    }
}

/// The row with an outcome recorded. A row that is finished stays as it is.
pub open spec fn finished_row(
    a: ProviderAttemptRecord,
    certainty: SendCertainty,
    http_status: Option<u16>,
    usage: Option<CompletionUsage>,
    now: i128,
) -> ProviderAttemptRecord {
    if a.state is Finished {
        a
    } else {
        ProviderAttemptRecord {
            state: AttemptState::Finished,
            send_certainty: Some(certainty),
            retry_class: Some(certainty.class()),
            http_status,
            usage,
            updated_at: later(a.updated_at, now),
            finished_at: Some(later(a.updated_at, now)),
            ..a
        }
    }
}

/// What holds of a row and the answer after an outcome was reported.
pub open spec fn finishing(
    before: ProviderAttemptRecord,
    after: ProviderAttemptRecord,
    r: Result<(), OrchError>,
    certainty: SendCertainty,
    http_status: Option<u16>,
    usage: Option<CompletionUsage>,
    now: i128,
) -> bool {
    match finish_fault(before, certainty, http_status, usage) {
        Some(f) => after == before && refused(r, f),
        None => after == finished_row(before, certainty, http_status, usage, now) && if before.state is Finished {
            r is Ok
        } else {
            judged(r, row_fault(after))
        },
    }
}

fn same_certainty(a: Option<SendCertainty>, b: SendCertainty) -> (r: bool)
    ensures
        r == (a == Some(b)),
{
    match a {
        Some(a) => a == b,
        None => false,
    }
}

fn same_status(a: Option<u16>, b: Option<u16>) -> (r: bool)
    ensures
        r == (a == b),
{
    match (a, b) {
        (Some(a), Some(b)) => a == b,
        (None, None) => true,
        _ => false,
    }
}

fn same_usage(a: Option<CompletionUsage>, b: Option<CompletionUsage>) -> (r: bool)
    ensures
        r == (a == b),
{
    match (a, b) {
        (Some(a), Some(b)) => a == b,
        (None, None) => true,
        _ => false,
    }
}

impl ProviderAttemptRecord {
    /// The row of an attempt that is about to enter the transport.
    pub fn admitted(authority: &ActionAuthority, ordinal: u64, now: i128) -> (r: Result<
        ProviderAttemptRecord,
        OrchError,
    >)
        ensures
            match authority_fault(*authority) {
                Some(f) => refused(r, f),
                None => exists|row: ProviderAttemptRecord| #[trigger]
                    is_admitted_row(row, *authority, ordinal, now) && match row_fault(row) {
                        Some(f) => refused(r, f),
                        None => r == Ok::<ProviderAttemptRecord, OrchError>(row),
                    },
            },
    {
        authority.validate()?;
        let record = ProviderAttemptRecord {
            schema_version: PROVIDER_ATTEMPT_SCHEMA_VERSION,
            attempt_id: authority.attempt_id.clone(),
            graph_id: authority.graph_id.clone(),
            work_id: authority.work_id.clone(),
            attempt: authority.attempt,
            authority_id: authority.authority_id.clone(),
            route_snapshot_hash: authority.route.snapshot_hash.clone(),
            attribution_key: authority.route.attribution_key(),
            ordinal,
            state: AttemptState::Admitted,
            send_certainty: None,
            retry_class: None,
            http_status: None,
            usage: None,
            created_at: now,
            updated_at: now,
            finished_at: None,
        };
        proof {
            assert(is_admitted_row(record, *authority, ordinal, now));
        }
        record.validate()?;
        Ok(record)
    }

    /// Records the outcome of the transport. The same outcome again changes
    /// nothing; another one is a conflict.
    pub fn finish(
        &mut self,
        certainty: SendCertainty,
        http_status: Option<u16>,
        usage: Option<CompletionUsage>,
        now: i128,
    ) -> (r: Result<(), OrchError>)
        ensures
            finishing(*old(self), *final(self), r, certainty, http_status, usage, now),
    {
        if self.state == AttemptState::Finished {
            if same_certainty(self.send_certainty, certainty) && same_status(
                self.http_status,
                http_status,
            ) && same_usage(self.usage, usage) {
                return Ok(());
            }
            return Err(conflict("attempt completion conflicts with durable state"));
        }
        if certainty != SendCertainty::KnownAccepted && usage.is_some() {
            return Err(invalid("provider usage requires a known accepted response"));
        }
        if certainty == SendCertainty::KnownNotSent && http_status.is_some() {
            return Err(invalid("a known-not-sent attempt cannot carry an HTTP status"));
        }
        self.state = AttemptState::Finished;
        self.send_certainty = Some(certainty);
        self.retry_class = Some(certainty.retry_class());
        self.http_status = http_status;
        self.usage = usage;
        if self.updated_at < now {
            self.updated_at = now;
        }
        self.finished_at = Some(self.updated_at);
        self.validate()
    }

    /// After a restart, an attempt without an outcome may have been accepted.
    pub fn recover_uncertain(&mut self, now: i128) -> (r: Result<bool, OrchError>)
        ensures
            if old(self).state is Finished {
                *final(self) == *old(self) && r == Ok::<bool, OrchError>(false)
            } else {
                *final(self) == finished_row(
                    *old(self),
                    SendCertainty::UncertainAccept,
                    None,
                    None,
                    now,
                ) && match row_fault(*final(self)) {
                    Some(f) => refused(r, f),
                    None => r == Ok::<bool, OrchError>(true),
                }
            },
    {
        if self.state == AttemptState::Finished {
            return Ok(false);
        }
        self.finish(SendCertainty::UncertainAccept, None, None, now)?;
        Ok(true)
    }

    pub fn validate(&self) -> (r: Result<(), OrchError>)
        ensures
            judged(r, row_fault(*self)),
    {
        if self.schema_version != PROVIDER_ATTEMPT_SCHEMA_VERSION {
            return Err(invalid("provider attempt schema version is not supported"));
        }
        self.attempt_id.validate()?;
        self.graph_id.validate()?;
        self.work_id.validate()?;
        self.authority_id.validate()?;
        check_route_value(self.route_snapshot_hash.as_str(), "route_snapshot_hash")?;
        check_route_value(self.attribution_key.as_str(), "attribution_key")?;
        if self.state == AttemptState::Finished && self.send_certainty.is_none() {
            return Err(invalid("a finished attempt must record its send certainty"));
        }
        let agrees: bool = match (self.send_certainty, self.retry_class) {
            (Some(c), Some(class)) => c.retry_class() == class,
            (None, None) => true,
            _ => false,
        };
        if !agrees {
            return Err(invalid("attempt retry class disagrees with its certainty"));
        }
        Ok(())
    }

    /// This attempt must not be repeated within the same item.
    pub open spec fn final_for_work(self) -> bool {
        self.state is Finished && self.retry_class != Some(RetryClass::SameWorkSafe)
    }

    /// Whether this attempt must not be repeated within the same item.
    pub fn forbids_same_work_retry(&self) -> (r: bool)
        ensures
            r == self.final_for_work(),
    {
        let safe: bool = match self.retry_class {
            Some(RetryClass::SameWorkSafe) => true,
            _ => false,
        };
        !safe && self.state == AttemptState::Finished
    }
}

/// Recording the same outcome twice is recording it once.
pub proof fn finishing_is_idempotent(
    before: ProviderAttemptRecord,
    once: ProviderAttemptRecord,
    twice: ProviderAttemptRecord,
    r: Result<(), OrchError>,
    s: Result<(), OrchError>,
    certainty: SendCertainty,
    http_status: Option<u16>,
    usage: Option<CompletionUsage>,
    t: i128,
    u: i128,
)
    requires
        finish_fault(before, certainty, http_status, usage) is None,
        finishing(before, once, r, certainty, http_status, usage, t),
        finishing(once, twice, s, certainty, http_status, usage, u),
    ensures
        twice == once,
        s is Ok,
{
}

/// An attempt whose fate a restart left open is never sent again implicitly.
pub proof fn recovered_attempts_are_final(
    before: ProviderAttemptRecord,
    now: i128,
)
    requires
        before.state is Admitted,
    ensures
        finished_row(
            before,
            SendCertainty::UncertainAccept,
            None,
            None,
            now,
        ).final_for_work(),
{
}

/// Highest Computer Use authority this route is measured to hold.
pub fn route_computer_use_tier(route: &ProviderRouteSnapshot) -> (t: ComputerUseTier)
    ensures
        t == route.capabilities.computer_use_tier,
{
    route.capabilities.computer_use_tier.clone()
}

} // verus!
