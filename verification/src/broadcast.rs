//! The broadcast engine: a message and the connections that are to get it.
//! The engine decides who gets what; putting the message on a connection's
//! queue is left to the caller, which owns the queues.

use crate::outbound::{ServerMessage, ServerMessageView};
use crate::registry::{Audience, Registry};
use vstd::prelude::*;

verus! {

/// A message with the live connections that are to get it.
#[derive(Clone, Debug, PartialEq, Eq)]
pub struct Dispatch {
    /// The recipients, each once, in no particular order.
    pub recipients: Vec<usize>,
    pub message: ServerMessage,
}

/// A fan-out as a mathematical value: the message and the set of connections
/// that it reaches.
pub struct Broadcast {
    pub audience: Set<usize>,
    pub message: ServerMessageView,
}

impl Dispatch {
    /// Whether the dispatch delivers `broadcast`: the same message, to each
    /// connection of the audience once and to no other.
    pub open spec fn carries(self, broadcast: Broadcast) -> bool {
        &&& self.recipients@.no_duplicates()
        &&& self.recipients@.to_set() == broadcast.audience
        &&& self.message@ == broadcast.message
    }
}

/// Whether the dispatches deliver the broadcasts, one for one and in order.
pub open spec fn carry(dispatches: Seq<Dispatch>, broadcasts: Seq<Broadcast>) -> bool {
    &&& dispatches.len() == broadcasts.len()
    &&& forall|i: int|
        0 <= i < dispatches.len() ==> (#[trigger] dispatches[i]).carries(broadcasts[i])
}

/// A message for one connection only.
pub fn send_to(id: usize, message: ServerMessage) -> (dispatch: Dispatch)
    ensures
        dispatch.carries(Broadcast { audience: set![id], message: message@ }),
{
    let mut recipients: Vec<usize> = Vec::new();
    recipients.push(id);
    assert(recipients@.to_set() =~= set![id]) by {
        assert(recipients@[0] == id);
    }
    Dispatch { recipients, message }
}

/// A message for the connections that the filter lets through.
pub fn broadcast(registry: &Registry, audience: Audience, message: ServerMessage) -> (dispatch:
    Dispatch)
    ensures
        dispatch.carries(Broadcast { audience: registry@.reached(audience), message: message@ }),
{
    Dispatch { recipients: registry.recipients(audience), message }
}

/// A message for every live connection.
pub fn broadcast_to_all(registry: &Registry, message: ServerMessage) -> (dispatch: Dispatch)
    ensures
        dispatch.carries(
            Broadcast { audience: registry@.reached(Audience::Everyone), message: message@ },
        ),
{
    broadcast(registry, Audience::Everyone, message)
}

/// A message for the live connections that hold the admin capability.
pub fn broadcast_to_admins(registry: &Registry, message: ServerMessage) -> (dispatch: Dispatch)
    ensures
        dispatch.carries(
            Broadcast { audience: registry@.reached(Audience::Admins), message: message@ },
        ),
{
    broadcast(registry, Audience::Admins, message)
}

} // verus!
