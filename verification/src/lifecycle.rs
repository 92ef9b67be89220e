//! Paths come and go: what the server does when the engine reports an event on
//! a path, and when it offers the peer fresh connection ids.

use vstd::prelude::*;
use crate::addr::{PathIdentity, SocketAddress};
use crate::connection_id::{generate_cid_and_reset_token, EntropyError, MAX_CONN_ID_LEN};

verus! {

/// The use that a peer asks for a path.
#[derive(Clone, Copy, Debug, PartialEq, Eq)]
pub enum PathStatus {
    Standby,
    Available,
}

/// What the engine reports of a path.
#[derive(Debug, PartialEq, Eq)]
pub enum PathEvent {
    /// Packets arrived on a path that was not known: local and peer address.
    New(SocketAddress, SocketAddress),
    /// The path was validated.
    Validated(SocketAddress, SocketAddress),
    /// The path failed validation.
    FailedValidation(SocketAddress, SocketAddress),
    /// The path was closed, with an error code and a reason.
    Closed(SocketAddress, SocketAddress, u64, Vec<u8>),
    /// The peer used a connection id, given by its sequence number, that it had
    /// used on the first path, on the second path.
    ReusedSourceConnectionId(u64, PathIdentity, PathIdentity),
    /// The peer moved the connection to this path.
    PeerMigrated(SocketAddress, SocketAddress),
    /// The peer asks for a status of the path.
    PeerPathStatus(PathIdentity, PathStatus),
}

/// What the server asks of the engine in answer to a path event.
#[derive(Clone, Copy, Debug, PartialEq, Eq)]
pub enum PathAction {
    /// Probe the path, so that it gets validated.
    Probe { local: SocketAddress, peer: SocketAddress },
    /// Mark the path as active for sending.
    Activate { local: SocketAddress, peer: SocketAddress },
    /// Set the status of the path; `priority` says whether the update goes out
    /// before other data.
    SetStatus { local: SocketAddress, peer: SocketAddress, status: PathStatus, priority: bool },
    /// Nothing; the event is only logged.
    Log,
}

/// The answer to a path event: a new path is probed at once, a validated path
/// is marked active, a status that the peer asks for is set without priority,
/// and every other event is only logged.
pub open spec fn reaction(event: PathEvent) -> PathAction {
    match event {
        PathEvent::New(local, peer) => PathAction::Probe { local, peer },
        PathEvent::Validated(local, peer) => PathAction::Activate { local, peer },
        PathEvent::PeerPathStatus(path, status) => PathAction::SetStatus {
            local: path.0,
            peer: path.1,
            status,
            priority: false,
        },
        PathEvent::FailedValidation(_, _) => PathAction::Log,
        PathEvent::Closed(_, _, _, _) => PathAction::Log,
        PathEvent::ReusedSourceConnectionId(_, _, _) => PathAction::Log,
        PathEvent::PeerMigrated(_, _) => PathAction::Log,
    }
}

/// The answer to one path event.
pub fn react(event: &PathEvent) -> (action: PathAction)
    ensures
        action == reaction(*event),
{
    match event {
        PathEvent::New(local, peer) => PathAction::Probe { local: *local, peer: *peer },
        PathEvent::Validated(local, peer) => PathAction::Activate { local: *local, peer: *peer },
        PathEvent::PeerPathStatus(path, status) => PathAction::SetStatus {
            local: path.0,
            peer: path.1,
            status: *status,
            priority: false,
        },
        PathEvent::FailedValidation(_, _) => PathAction::Log,
        PathEvent::Closed(_, _, _, _) => PathAction::Log,
        PathEvent::ReusedSourceConnectionId(_, _, _) => PathAction::Log,
        PathEvent::PeerMigrated(_, _) => PathAction::Log,
    }
}

/// The answers to the path events of one wake cycle, in the order of the
/// events.
pub fn handle_path_events(events: &[PathEvent]) -> (actions: Vec<PathAction>)
    ensures
        actions@.len() == events@.len(),
        forall|i: int| 0 <= i < events@.len() ==> actions@[i] == reaction(#[trigger] events@[i]),
{
    let mut actions: Vec<PathAction> = Vec::new();
    let mut i: usize = 0;
    while i < events.len()
        invariant
            i <= events@.len(),
            actions@.len() == i,
            forall|j: int| 0 <= j < i ==> actions@[j] == reaction(#[trigger] events@[j]),
        decreases events@.len() - i,
    {
        let action = react(&events[i]);
        actions.push(action);
        i += 1;
    }
    actions
}

/// Only a new path, a validated path and a status that the peer asks for make
/// the server act on the engine.
pub proof fn lemma_quiet_events(event: PathEvent)
    ensures
        reaction(event) is Log <==> (event is FailedValidation || event is Closed
            || event is ReusedSourceConnectionId || event is PeerMigrated),
        reaction(event) matches PathAction::SetStatus { priority, .. } ==> !priority,
{
}

/// Whether another connection id is offered to the peer: as long as the engine
/// has room for one and has not turned one down.
pub fn wants_connection_id(spare: usize, rejected: bool) -> (r: bool)
    ensures
        r == (spare > 0 && !rejected),
{
    spare > 0 && !rejected
}

/// A connection id that is offered to the peer, as it is registered with the
/// engine.
#[derive(Debug, PartialEq, Eq)]
pub struct Registration {
    /// The connection id.
    pub scid: Vec<u8>,
    /// The stateless-reset token that goes with it.
    pub reset_token: u128,
    /// Whether the engine may retire an older id to make room for this one.
    pub retire_if_needed: bool,
}

/// The registration of a fresh connection id: the id and its reset token as
/// they were drawn, and no older id is retired for it.
pub fn registration(scid: Vec<u8>, reset_token: u128) -> (r: Registration)
    ensures
        r.scid@ == scid@,
        r.reset_token == reset_token,
        !r.retire_if_needed,
{
    Registration { scid, reset_token, retire_if_needed: false }
}

/// The next registration of the top-up that follows the path events: none
/// once the engine has no room left or has turned a registration down, and
/// else a fresh random connection id of `MAX_CONN_ID_LEN` bytes with a random
/// reset token, for which no older id is retired.
pub fn next_registration(spare: usize, rejected: bool, rng: &ring::rand::SystemRandom) -> (r: Result<
    Option<Registration>,
    EntropyError,
>)
    ensures
        !(spare > 0 && !rejected) ==> r matches Ok(None),
        r matches Ok(None) ==> !(spare > 0 && !rejected),
        r matches Ok(Some(offer)) ==> offer.scid@.len() == MAX_CONN_ID_LEN
            && !offer.retire_if_needed,
{
    if !wants_connection_id(spare, rejected) {
        return Ok(None);
    }
    match generate_cid_and_reset_token(rng) {
        Ok((scid, reset_token)) => Ok(Some(registration(scid, reset_token))),
        Err(e) => Err(e),
    }
}

} // verus!
