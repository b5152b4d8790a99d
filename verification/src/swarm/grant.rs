//! The one path on which a Computer Use grant becomes permission to act.
//!
//! Grants are issued elsewhere; nothing here mints, extends or revalidates one.
//! Consumption is durable and has one winner: the claim key holds the control
//! epoch of the Computer Use run, so a pause, takeover, stop or recovery makes
//! every binding captured before it unusable.

use crate::digest::{hash_payload, text_digest};
use crate::error::{
    conflict, conflict_fault, fault, first_fault, forbidden, forbidden_fault, judged, refused,
    Fault, OrchError, OrchErrorCode,
};
use crate::json::{field, field_keys, field_values, json_object_text, Json};
use crate::swarm::ids::{id_value_fault, AttemptId, GrantId, LeaseId};
use crate::swarm::control::next_epoch;
use crate::swarm::state::{
    binding_fault, grant_fault, is_new_binding, GrantBinding, LeaseRecord,
};
use crate::swarm::store::{grant_key, grant_key_text, ClaimOutcome};
use crate::text::{join2, join3, str_eq};
use crate::workload::copy_strings;
use vstd::prelude::*;
use vstd::string::*;

verus! {

/// A Computer Use grant as its ledger shows it.
#[derive(Debug)]
pub struct ActionGrant {
    pub grant_id: String,
    pub run_id: String,
    /// The exact target the grant names.
    pub target: Json,
    /// Classes of action the grant covers.
    pub action_classes: Vec<String>,
    pub issued_at: i128,
    pub expires_at: i128,
    pub revoked_at: Option<i128>,
    pub uses_remaining: Option<u32>,
    /// What the ledger that issued it finds wrong with the grant.
    pub defect: Option<String>,
}

/// A Computer Use run.
#[derive(Debug)]
pub struct ComputerRun {
    pub run_id: String,
    pub target: Json,
    pub owner_session_id: u128,
    /// Moved by every pause, takeover, stop and recovery.
    pub control_epoch: u64,
}

/// The fingerprint of the target of a run.
pub open spec fn fingerprint(run: ComputerRun) -> Seq<char> {
    text_digest(json_object_text(seq!["target"@], seq![run.target@]))
}

/// Stable, secret-free digest of the exact target a grant names.
pub fn target_fingerprint(run: &ComputerRun) -> (d: String)
    ensures
        d@ == fingerprint(*run),
{
    let fields: Vec<(String, Json)> = vec![field("target", run.target.clone())];
    proof {
        assert(field_keys(fields@) =~= seq!["target"@]);
        assert(field_values(fields@) =~= seq![run.target@]);
    }
    hash_payload(&Json::object(fields))
}

/// Why the ledger that issued a grant would not stand by it.
pub open spec fn defect_fault(grant: ActionGrant) -> Option<Fault> {
    match grant.defect {
        Some(d) => Some(forbidden_fault("computer use grant is invalid: "@ + d@)),
        None => None,
    }
}

fn check_defect(grant: &ActionGrant) -> (r: Result<(), OrchError>)
    ensures
        judged(r, defect_fault(*grant)),
{
    match &grant.defect {
        Some(d) => Err(forbidden(join2("computer use grant is invalid: ", d.as_str()).as_str())),
        None => Ok(()),
    }
}

/// Why a grant is not bound.
pub open spec fn bind_fault(grant: ActionGrant, run: ComputerRun) -> Option<Fault> {
    first_fault(
        defect_fault(grant),
        if grant.run_id@ != run.run_id@ {
            Some(forbidden_fault("grant does not belong to the named computer run"@))
        } else if grant.target@ != run.target@ {
            Some(forbidden_fault("grant target does not match the computer run"@))
        } else {
            id_value_fault("grant id"@, grant.grant_id@)
        },
    )
}

/// `g` binds a grant of a run to a lease and attempt.
pub open spec fn is_grant_binding(
    g: GrantBinding,
    grant: ActionGrant,
    run: ComputerRun,
    lease_id: Seq<char>,
    attempt_id: Seq<char>,
) -> bool {
    &&& g.grant_id@ == grant.grant_id@
    &&& is_new_binding(
        g,
        g.grant_id,
        run.run_id@,
        fingerprint(run),
        run.owner_session_id,
        run.control_epoch,
        lease_id,
        attempt_id,
    )
}

/// What the binding of a grant comes to.
pub open spec fn grant_binding(
    grant: ActionGrant,
    run: ComputerRun,
    lease_id: Seq<char>,
    attempt_id: Seq<char>,
    r: Result<GrantBinding, OrchError>,
) -> bool {
    match bind_fault(grant, run) {
        Some(f) => refused(r, f),
        None => exists|g: GrantBinding| #[trigger]
            is_grant_binding(g, grant, run, lease_id, attempt_id) && match grant_fault(g) {
                Some(f) => refused(r, f),
                None => r == Ok::<GrantBinding, OrchError>(g),
            },
    }
}

/// Binds an externally issued grant to exactly one lease and attempt. Nothing
/// is consumed.
pub fn bind_grant(
    grant: &ActionGrant,
    run: &ComputerRun,
    lease_id: &LeaseId,
    attempt_id: &AttemptId,
) -> (r: Result<GrantBinding, OrchError>)
    ensures
        grant_binding(
            *grant,
            *run,
            lease_id@,
            attempt_id@,
            r,
        ),
{
    check_defect(grant)?;
    if !str_eq(grant.run_id.as_str(), run.run_id.as_str()) {
        return Err(forbidden("grant does not belong to the named computer run"));
    }
    if !str_eq(grant.target.text.as_str(), run.target.text.as_str()) {
        return Err(forbidden("grant target does not match the computer run"));
    }
    let grant_id: GrantId = GrantId::parse(grant.grant_id.as_str())?;
    let r: Result<GrantBinding, OrchError> = GrantBinding::new(
        grant_id,
        run.run_id.as_str(),
        target_fingerprint(run).as_str(),
        run.owner_session_id,
        run.control_epoch,
        lease_id,
        attempt_id,
    );
    proof {
        let g = choose|g: GrantBinding| #[trigger]
            is_new_binding(
                g,
                grant_id,
                run.run_id@,
                fingerprint(*run),
                run.owner_session_id,
                run.control_epoch,
                lease_id@,
                attempt_id@,
            ) && match grant_fault(g) {
                Some(f) => refused(r, f),
                None => r == Ok::<GrantBinding, OrchError>(g),
            };
        assert(is_grant_binding(g, *grant, *run, lease_id@, attempt_id@));
    }
    r
}

/// A grant that was consumed.
#[derive(Debug)]
pub struct GrantConsumption {
    pub grant_id: GrantId,
    pub lease_id: LeaseId,
    pub attempt_id: AttemptId,
    pub control_epoch: u64,
    pub action_classes: Vec<String>,
    pub consumed_at: i128,
}

/// The class is among the classes.
pub open spec fn covers(classes: Seq<String>, class: Seq<char>) -> bool {
    exists|i: int| 0 <= i < classes.len() && (#[trigger] classes[i])@ == class
}

fn covers_class(classes: &Vec<String>, class: &str) -> (r: bool)
    ensures
        r == covers(classes@, class@),
{
    let mut i: usize = 0;
    while i < classes.len()
        invariant
            i <= classes@.len(),
            forall|j: int| 0 <= j < i ==> (#[trigger] classes@[j])@ != class@,
        decreases classes.len() - i,
    {
        if str_eq(classes[i].as_str(), class) {
            return true;
        }
        i = i + 1;
    }
    false
}

/// Why a lease's binding and the grant and run presented do not agree.
pub open spec fn agreement_fault(
    lease: LeaseRecord,
    grant: ActionGrant,
    run: ComputerRun,
    owner_session_id: u128,
) -> Option<Fault> {
    match lease.grant {
        None => Some(forbidden_fault("lease carries no computer use grant binding"@)),
        Some(b) => first_fault(
            binding_fault(b, lease.lease_id@, lease.attempt_id@),
            if b.grant_id@ != grant.grant_id@ {
                Some(forbidden_fault("presented grant is not the bound grant"@))
            } else if b.computer_run_id@ != run.run_id@ || grant.run_id@ != run.run_id@ {
                Some(forbidden_fault("grant and run identities disagree"@))
            } else if b.target_fingerprint@ != fingerprint(run) {
                Some(forbidden_fault("computer run target changed since the binding"@))
            } else if b.owner_session_id != run.owner_session_id || b.owner_session_id
                != owner_session_id {
                Some(
                    fault(
                        OrchErrorCode::WorkspaceMismatch,
                        "computer run owner session does not match the binding"@,
                    ),
                )
            } else if b.control_epoch != run.control_epoch {
                Some(
                    fault(
                        OrchErrorCode::StaleVersion,
                        "computer run control epoch moved; this binding was superseded"@,
                    ),
                )
            } else {
                None
            },
        ),
    }
}

/// Why a grant does not permit an action now.
pub open spec fn action_fault(
    lease: LeaseRecord,
    grant: ActionGrant,
    run: ComputerRun,
    action_class: Seq<char>,
    owner_session_id: u128,
    now: i128,
) -> Option<Fault> {
    first_fault(
        agreement_fault(lease, grant, run, owner_session_id),
        first_fault(
            defect_fault(grant),
            if grant.revoked_at is Some {
                Some(forbidden_fault("computer use grant was revoked"@))
            } else if now < grant.issued_at || now >= grant.expires_at {
                Some(forbidden_fault("computer use grant is not currently valid"@))
            } else if grant.uses_remaining == Some(0u32) {
                Some(forbidden_fault("computer use grant has no remaining uses"@))
            } else if !covers(grant.action_classes@, action_class) {
                Some(forbidden_fault("action class is outside the grant"@))
            } else if !lease.live() {
                Some(conflict_fault("lease is not live"@))
            } else if now >= lease.expires_at {
                Some(conflict_fault("lease execution bound has expired"@))
            } else {
                None
            },
        ),
    )
}

fn check_agreement(
    lease: &LeaseRecord,
    grant: &ActionGrant,
    run: &ComputerRun,
    owner_session_id: u128,
) -> (r: Result<(), OrchError>)
    ensures
        judged(r, agreement_fault(*lease, *grant, *run, owner_session_id)),
{
    let binding: &GrantBinding = match &lease.grant {
        Some(binding) => binding,
        None => {
            return Err(forbidden("lease carries no computer use grant binding"));
        },
    };
    binding.verify_binding(&lease.lease_id, &lease.attempt_id)?;
    if !str_eq(binding.grant_id.as_str(), grant.grant_id.as_str()) {
        return Err(forbidden("presented grant is not the bound grant"));
    }
    if !str_eq(binding.computer_run_id.as_str(), run.run_id.as_str()) || !str_eq(
        grant.run_id.as_str(),
        run.run_id.as_str(),
    ) {
        return Err(forbidden("grant and run identities disagree"));
    }
    if !str_eq(binding.target_fingerprint.as_str(), target_fingerprint(run).as_str()) {
        return Err(forbidden("computer run target changed since the binding"));
    }
    if binding.owner_session_id != run.owner_session_id || binding.owner_session_id
        != owner_session_id {
        return Err(
            OrchError::new(
                OrchErrorCode::WorkspaceMismatch,
                "computer run owner session does not match the binding",
            ),
        );
    }
    if binding.control_epoch != run.control_epoch {
        return Err(
            OrchError::new(
                OrchErrorCode::StaleVersion,
                "computer run control epoch moved; this binding was superseded",
            ),
        );
    }
    Ok(())
}

fn check_action(
    lease: &LeaseRecord,
    grant: &ActionGrant,
    run: &ComputerRun,
    action_class: &str,
    owner_session_id: u128,
    now: i128,
) -> (r: Result<(), OrchError>)
    ensures
        judged(r, action_fault(*lease, *grant, *run, action_class@, owner_session_id, now)),
{
    check_agreement(lease, grant, run, owner_session_id)?;
    check_defect(grant)?;
    if grant.revoked_at.is_some() {
        return Err(forbidden("computer use grant was revoked"));
    }
    if now < grant.issued_at || now >= grant.expires_at {
        return Err(forbidden("computer use grant is not currently valid"));
    }
    match grant.uses_remaining {
        Some(n) => {
            if n == 0 {
                return Err(forbidden("computer use grant has no remaining uses"));
            }
        },
        None => {},
    }
    if !covers_class(&grant.action_classes, action_class) {
        return Err(forbidden("action class is outside the grant"));
    }
    if !lease.is_live() {
        return Err(conflict("lease is not live"));
    }
    if now >= lease.expires_at {
        return Err(conflict("lease execution bound has expired"));
    }
    Ok(())
}

/// What must be claimed before an action may be taken.
#[derive(Debug)]
pub struct GrantClaim {
    pub key: String,
    pub holder: String,
}

/// Who a claim is held by.
pub open spec fn holder_text(lease_id: Seq<char>, attempt_id: Seq<char>) -> Seq<char> {
    lease_id + ":"@ + attempt_id
}

fn consumption_holder(lease_id: &LeaseId, attempt_id: &AttemptId) -> (h: String)
    ensures
        h@ == holder_text(lease_id@, attempt_id@),
{
    join3(lease_id.as_str(), ":", attempt_id.as_str())
}

/// What a claim for an action comes to.
pub open spec fn action_claiming(
    lease: LeaseRecord,
    grant: ActionGrant,
    run: ComputerRun,
    action_class: Seq<char>,
    owner_session_id: u128,
    now: i128,
    r: Result<GrantClaim, OrchError>,
) -> bool {
    match action_fault(lease, grant, run, action_class, owner_session_id, now) {
        Some(f) => refused(r, f),
        None => {
            &&& r is Ok
            &&& lease.grant is Some
            &&& r->Ok_0.key@ == grant_key_text(
                lease.grant->0.grant_id@,
                lease.grant->0.control_epoch,
            )
            &&& r->Ok_0.holder@ == holder_text(lease.lease_id@, lease.attempt_id@)
        },
    }
}

/// Checks that a bound grant permits an action now, and says what must be
/// claimed for it. Every check is a refusal, in a fixed order.
pub fn claim_for_action(
    lease: &LeaseRecord,
    grant: &ActionGrant,
    run: &ComputerRun,
    action_class: &str,
    owner_session_id: u128,
    now: i128,
) -> (r: Result<GrantClaim, OrchError>)
    ensures
        action_claiming(
            *lease,
            *grant,
            *run,
            action_class@,
            owner_session_id,
            now,
            r,
        ),
{
    check_action(lease, grant, run, action_class, owner_session_id, now)?;
    match &lease.grant {
        Some(binding) => Ok(
            GrantClaim {
                key: grant_key(&binding.grant_id, binding.control_epoch),
                holder: consumption_holder(&lease.lease_id, &lease.attempt_id),
            },
        ),
        None => Err(forbidden("lease carries no computer use grant binding")),
    }
}

/// The claim does not serve this lease: somebody else holds it.
pub open spec fn claim_lost(
    claimed: ClaimOutcome,
    existing: Option<Seq<char>>,
    lease: LeaseRecord,
) -> bool {
    claimed is AlreadyHeld && existing != Some(holder_text(lease.lease_id@, lease.attempt_id@))
}

/// `c` is the consumption of a lease's grant.
pub open spec fn is_consumption(
    c: GrantConsumption,
    lease: LeaseRecord,
    grant: ActionGrant,
    now: i128,
) -> bool {
    &&& lease.grant is Some
    &&& c.grant_id == lease.grant->0.grant_id
    &&& c.lease_id == lease.lease_id
    &&& c.attempt_id == lease.attempt_id
    &&& c.control_epoch == lease.grant->0.control_epoch
    &&& c.action_classes@ == grant.action_classes@
    &&& c.consumed_at == now
}

/// The holder on record, as a text.
pub open spec fn holder_on_record(existing: Option<&str>) -> Option<Seq<char>> {
    match existing {
        Some(h) => Some(h@),
        None => None,
    }
}

/// What the use of a grant comes to.
pub open spec fn grant_consuming(
    lease: LeaseRecord,
    grant: ActionGrant,
    run: ComputerRun,
    action_class: Seq<char>,
    owner_session_id: u128,
    claimed: ClaimOutcome,
    existing: Option<Seq<char>>,
    now: i128,
    r: Result<GrantConsumption, OrchError>,
) -> bool {
    match action_fault(lease, grant, run, action_class, owner_session_id, now) {
        Some(f) => refused(r, f),
        None => if claim_lost(claimed, existing, lease) {
            refused(
                r,
                conflict_fault("computer use grant was already consumed by another holder"@),
            )
        } else {
            r is Ok && is_consumption(r->Ok_0, lease, grant, now)
        },
    }
}

/// Consumes a bound grant for one action, given how the durable claim came out
/// and, where somebody holds it, who. A caller that loses the claim never acts;
/// one that holds it already may replay its own consumption.
pub fn consume_grant_for_action(
    lease: &LeaseRecord,
    grant: &ActionGrant,
    run: &ComputerRun,
    action_class: &str,
    owner_session_id: u128,
    claimed: ClaimOutcome,
    existing: Option<&str>,
    now: i128,
) -> (r: Result<GrantConsumption, OrchError>)
    ensures
        grant_consuming(
            *lease,
            *grant,
            *run,
            action_class@,
            owner_session_id,
            claimed,
            holder_on_record(existing),
            now,
            r,
        ),
{
    check_action(lease, grant, run, action_class, owner_session_id, now)?;
    match claimed {
        ClaimOutcome::Won => {},
        ClaimOutcome::AlreadyHeld => {
            let holder: String = consumption_holder(&lease.lease_id, &lease.attempt_id);
            let own: bool = match existing {
                Some(h) => str_eq(h, holder.as_str()),
                None => false,
            };
            if !own {
                return Err(
                    conflict("computer use grant was already consumed by another holder"),
                );
            }
        },
    }
    match &lease.grant {
        Some(binding) => Ok(
            GrantConsumption {
                grant_id: binding.grant_id.clone(),
                lease_id: lease.lease_id.clone(),
                attempt_id: lease.attempt_id.clone(),
                control_epoch: binding.control_epoch,
                action_classes: copy_strings(&grant.action_classes),
                consumed_at: now,
            },
        ),
        None => Err(forbidden("lease carries no computer use grant binding")),
    }
}

/// Revokes every binding of a run: the control epoch that must be presented
/// from now on.
pub fn revoke_bound_grants(run: &ComputerRun) -> (epoch: u64)
    ensures
        epoch == next_epoch(run.control_epoch),
{
    run.control_epoch.saturating_add(1)
}

/// Once a run's control epoch has moved, no binding captured before permits an
/// action.
pub proof fn revoked_bindings_never_act(
    lease: LeaseRecord,
    grant: ActionGrant,
    before: ComputerRun,
    after: ComputerRun,
    action_class: Seq<char>,
    owner_session_id: u128,
    now: i128,
)
    requires
        lease.grant is Some,
        lease.grant->0.control_epoch == before.control_epoch,
        before.control_epoch < u64::MAX,
        after.control_epoch == next_epoch(before.control_epoch),
    ensures
        action_fault(lease, grant, after, action_class, owner_session_id, now) is Some,
{
}

} // verus!
