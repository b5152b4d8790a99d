//! One request to a provider and the record of its attempt.
//!
//! Whether an attempt is bound and whether its key may go on the wire are two
//! questions. The first decides whether the host may quietly send again; the
//! second only whether the provider would recognise a duplicate.

use vstd::prelude::*;
use vstd::string::*;

verus! {

/// The header a provider names a request in.
pub const PROVIDER_REQUEST_ID_HEADER: &'static str = "x-request-id";

/// A request that is bound to a durable attempt.
#[derive(Debug)]
pub struct PhysicalSendBinding {
    pub attempt_id: String,
    /// The key on the attempt's record.
    pub idempotency_key: String,
    /// Whether the dialect that the attempt was recorded under defines the key
    /// on the wire.
    pub wire_key_permitted: bool,
}

impl PhysicalSendBinding {
    /// Binds an attempt to the request that is about to be made.
    pub fn new(attempt_id: String, idempotency_key: String, permits_idempotency_key: bool) -> (b:
        PhysicalSendBinding)
        ensures
            b == (PhysicalSendBinding {
                attempt_id,
                idempotency_key,
                wire_key_permitted: permits_idempotency_key,
            }),
    {
        PhysicalSendBinding {
            attempt_id,
            idempotency_key,
            wire_key_permitted: permits_idempotency_key,
        }
    }
}

/// Whether an attempt is bound. A bound attempt is never quietly sent again.
pub fn is_bound(binding: Option<&PhysicalSendBinding>) -> (r: bool)
    ensures
        r == binding is Some,
{
    binding.is_some()
}

/// The key to put on the wire: only where the dialect defines one.
pub fn wire_idempotency_key(binding: Option<&PhysicalSendBinding>) -> (key: Option<String>)
    ensures
        match binding {
            Some(b) => if b.wire_key_permitted {
                key == Some(b.idempotency_key)
            } else {
                key is None
            },
            None => key is None,
        },
{
    match binding {
        Some(b) => if b.wire_key_permitted {
            Some(b.idempotency_key.clone())
        } else {
            None
        },
        None => None,
    }
}

/// What a provider sent back.
#[derive(Debug)]
pub struct Receipts {
    /// The provider's own name for the request.
    pub request: Option<String>,
    pub provider_replied: bool,
}

/// An event on the wire.
#[derive(Debug)]
pub enum SendEvent {
    /// The request is about to leave.
    Sending,
    /// A response arrived, with the provider's name for the request if it gave
    /// one that can be kept.
    Sent(Option<String>),
    /// The body of the response began to arrive.
    Responding,
    /// The request left and no reply came.
    Uncertain,
}

/// The receipts that an event justifies.
pub open spec fn justified(before: Receipts, event: SendEvent) -> Receipts {
    match event {
        SendEvent::Sent(id) => Receipts {
            request: if before.request is None {
                id
            } else {
                before.request
            },
            provider_replied: true,
        },
        SendEvent::Responding => Receipts { provider_replied: true, ..before },
        SendEvent::Sending | SendEvent::Uncertain => before,
    }
}

/// What an event does to the receipts of an attempt.
pub open spec fn advancing(
    receipts: Receipts,
    event: SendEvent,
    there_already: bool,
    permitted: bool,
    r: (Receipts, bool),
) -> bool {
    &&& r.1 == (!there_already && permitted)
    &&& r.0 == if r.1 {
        justified(receipts, event)
    } else {
        receipts
    }
}

/// What an event does to an attempt. `there_already` says that the attempt is in
/// the event's state, and `permitted` that it may move there. The second part
/// of the answer says whether it moves. Receipts are kept only together with
/// the move that justifies them.
pub fn advance(receipts: Receipts, event: SendEvent, there_already: bool, permitted: bool) -> (r: (
    Receipts,
    bool,
))
    ensures
        advancing(
            receipts,
            event,
            there_already,
            permitted,
            r,
        ),
{
    if there_already || !permitted {
        return (receipts, false);
    }
    let mut receipts: Receipts = receipts;
    match event {
        SendEvent::Sent(id) => {
            if receipts.request.is_none() {
                receipts.request = id;
            }
            receipts.provider_replied = true;
        },
        SendEvent::Responding => {
            receipts.provider_replied = true;
        },
        SendEvent::Sending | SendEvent::Uncertain => {},
    }
    (receipts, true)
}

/// The name a provider gave a request is never replaced, and no event but a
/// response counts as a reply.
pub proof fn receipts_are_evidence(before: Receipts, event: SendEvent)
    ensures
        before.request is Some ==> justified(before, event).request == before.request,
        !before.provider_replied && justified(before, event).provider_replied ==> event is Sent
            || event is Responding,
        justified(before, event).request is Some && before.request is None ==> event is Sent,
{
}

/// An attempt moves once, and only where it may. With the move a response
/// leaves the name the provider gave, unless there is one, and the reply;
/// without it nothing changes.
pub proof fn responses_leave_receipts(
    receipts: Receipts,
    event: SendEvent,
    there_already: bool,
    permitted: bool,
    r: (Receipts, bool),
)
    requires
        advancing(receipts, event, there_already, permitted, r),
    ensures
        r.1 <==> permitted && !there_already,
        !r.1 ==> r.0 == receipts,
        r.1 ==> (r.0.provider_replied <==> receipts.provider_replied || event is Sent
            || event is Responding),
        receipts.request is Some ==> r.0.request == receipts.request,
        r.1 && receipts.request is None ==> r.0.request == match event {
            SendEvent::Sent(id) => id,
            _ => None,
        },
{
}

} // verus!
