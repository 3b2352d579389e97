//! The life of one node websocket: the id and version handshake, then the
//! relay of dispatched commands and of the node's replies.
//!
//! The task that owns the socket performs each action and reports what
//! happened as the next event; this module decides what follows.
use vstd::prelude::*;
use crate::fleet::{accepted_node_id, NodeVersion};

verus! {

/// Where the socket task stands.
#[derive(Debug, Clone, Copy, PartialEq, Eq, Structural)]
pub enum SocketPhase {
    /// GetId was sent; the id reply is awaited.
    AwaitingId,
    /// GetVersion was sent to node `id`.
    AwaitingVersion { id: u64 },
    /// Node `id` is registered; commands and frames are relayed.
    Relaying { id: u64 },
    /// A command was sent to node `id`; its reply frame is awaited.
    AwaitingReply { id: u64 },
    /// The task is over.
    Done,
}

/// A frame read from the node, as far as the decisions need it.
#[derive(Debug, Clone)]
pub enum Frame {
    /// A binary frame; `decoded` tells whether it decoded as a response.
    Binary { decoded: bool },
    Ping(Vec<u8>),
    Close,
    /// Text or pong frames.
    Other,
    /// The read failed.
    Error,
    /// The stream ended.
    End,
}

/// What the socket task observed.
#[derive(Debug, Clone)]
pub enum SocketEvent {
    /// The last send failed.
    SendFailed,
    /// The GetId reply: the id when the reply was a binary Ok response carrying one.
    IdReply(Option<u64>),
    /// The GetVersion reply: the version when the reply carried one.
    VersionReply(Option<NodeVersion>),
    /// The dispatcher handed over a command.
    CommandReady,
    /// The dispatcher's command channel closed.
    CommandsClosed,
    /// A frame read while relaying: the reply to a sent command when one is
    /// awaited, an unsolicited frame otherwise.
    Received(Frame),
}

/// What the socket task does next.
#[derive(Debug, Clone)]
pub enum SocketAction {
    SendGetVersion,
    /// Register the connection of node `id`.
    Register { id: u64, version: Option<NodeVersion> },
    /// Send the command just handed over.
    SendCommand,
    /// Answer a ping with the same payload.
    SendPong(Vec<u8>),
    /// Hand the decoded response to the dispatcher.
    Forward,
    /// Remove the connection of node `id` and end.
    Unregister { id: u64 },
    /// End without a registration.
    Stop,
    /// Keep going.
    Nothing,
}

/// The relay's reaction to an unsolicited frame.
pub open spec fn relay_frame(id: u64, f: Frame) -> (SocketPhase, SocketAction) {
    match f {
        Frame::Close | Frame::End => (SocketPhase::Done, SocketAction::Unregister { id }),
        Frame::Ping(p) => (SocketPhase::Relaying { id }, SocketAction::SendPong(p)),
        Frame::Binary { decoded } => (
            SocketPhase::Relaying { id },
            if decoded {
                SocketAction::Forward
            } else {
                SocketAction::Nothing
            },
        ),
        Frame::Other | Frame::Error => (SocketPhase::Relaying { id }, SocketAction::Nothing),
    }
}

/// The reaction to the frame read after a sent command: only a binary frame
/// is a reply; a failed read or the end of the stream ends the relay.
pub open spec fn reply_frame(id: u64, f: Frame) -> (SocketPhase, SocketAction) {
    match f {
        Frame::Error | Frame::End => (SocketPhase::Done, SocketAction::Unregister { id }),
        Frame::Binary { decoded } => (
            SocketPhase::Relaying { id },
            if decoded {
                SocketAction::Forward
            } else {
                SocketAction::Nothing
            },
        ),
        _ => (SocketPhase::Relaying { id }, SocketAction::Nothing),
    }
}

/// The transition table of the socket task.
pub open spec fn socket_next(phase: SocketPhase, ev: SocketEvent) -> (SocketPhase, SocketAction) {
    match phase {
        SocketPhase::AwaitingId => match ev {
            SocketEvent::IdReply(Some(id)) => if id != 0 {
                (SocketPhase::AwaitingVersion { id }, SocketAction::SendGetVersion)
            } else {
                (SocketPhase::Done, SocketAction::Stop)
            },
            _ => (SocketPhase::Done, SocketAction::Stop),
        },
        SocketPhase::AwaitingVersion { id } => match ev {
            SocketEvent::VersionReply(v) => (
                SocketPhase::Relaying { id },
                SocketAction::Register { id, version: v },
            ),
            _ => (SocketPhase::Relaying { id }, SocketAction::Register { id, version: None }),
        },
        SocketPhase::Relaying { id } => match ev {
            SocketEvent::CommandReady => (SocketPhase::AwaitingReply { id }, SocketAction::SendCommand),
            SocketEvent::CommandsClosed | SocketEvent::SendFailed => (
                SocketPhase::Done,
                SocketAction::Unregister { id },
            ),
            SocketEvent::Received(f) => relay_frame(id, f),
            _ => (SocketPhase::Relaying { id }, SocketAction::Nothing),
        },
        SocketPhase::AwaitingReply { id } => match ev {
            SocketEvent::Received(f) => reply_frame(id, f),
            SocketEvent::SendFailed => (SocketPhase::Done, SocketAction::Unregister { id }),
            _ => (SocketPhase::AwaitingReply { id }, SocketAction::Nothing),
        },
        SocketPhase::Done => (SocketPhase::Done, SocketAction::Nothing),
    }
}

fn relay_step(id: u64, f: Frame) -> (r: (SocketPhase, SocketAction))
    ensures
        r == relay_frame(id, f),
{
    match f {
        Frame::Close | Frame::End => (SocketPhase::Done, SocketAction::Unregister { id }),
        Frame::Ping(p) => (SocketPhase::Relaying { id }, SocketAction::SendPong(p)),
        Frame::Binary { decoded } => (
            SocketPhase::Relaying { id },
            if decoded {
                SocketAction::Forward
            } else {
                SocketAction::Nothing
            },
        ),
        Frame::Other | Frame::Error => (SocketPhase::Relaying { id }, SocketAction::Nothing),
    }
}

fn reply_step(id: u64, f: Frame) -> (r: (SocketPhase, SocketAction))
    ensures
        r == reply_frame(id, f),
{
    match f {
        Frame::Error | Frame::End => (SocketPhase::Done, SocketAction::Unregister { id }),
        Frame::Binary { decoded } => (
            SocketPhase::Relaying { id },
            if decoded {
                SocketAction::Forward
            } else {
                SocketAction::Nothing
            },
        ),
        _ => (SocketPhase::Relaying { id }, SocketAction::Nothing),
    }
}

/// The next phase and action of the socket task after `ev`.
pub fn socket_step(phase: SocketPhase, ev: SocketEvent) -> (r: (SocketPhase, SocketAction))
    ensures
        r == socket_next(phase, ev),
{
    match phase {
        SocketPhase::AwaitingId => match ev {
            SocketEvent::IdReply(reply) => match accepted_node_id(reply) {
                Some(id) => (SocketPhase::AwaitingVersion { id }, SocketAction::SendGetVersion),
                None => (SocketPhase::Done, SocketAction::Stop),
            },
            _ => (SocketPhase::Done, SocketAction::Stop),
        },
        SocketPhase::AwaitingVersion { id } => match ev {
            SocketEvent::VersionReply(v) => (
                SocketPhase::Relaying { id },
                SocketAction::Register { id, version: v },
            ),
            _ => (SocketPhase::Relaying { id }, SocketAction::Register { id, version: None }),
        },
        SocketPhase::Relaying { id } => match ev {
            SocketEvent::CommandReady => (SocketPhase::AwaitingReply { id }, SocketAction::SendCommand),
            SocketEvent::CommandsClosed | SocketEvent::SendFailed => (
                SocketPhase::Done,
                SocketAction::Unregister { id },
            ),
            SocketEvent::Received(f) => relay_step(id, f),
            _ => (SocketPhase::Relaying { id }, SocketAction::Nothing),
        },
        SocketPhase::AwaitingReply { id } => match ev {
            SocketEvent::Received(f) => reply_step(id, f),
            SocketEvent::SendFailed => (SocketPhase::Done, SocketAction::Unregister { id }),
            _ => (SocketPhase::AwaitingReply { id }, SocketAction::Nothing),
        },
        SocketPhase::Done => (SocketPhase::Done, SocketAction::Nothing),
    }
}

/// The node a phase has registered, if any.
pub open spec fn registered_id(phase: SocketPhase) -> Option<u64> {
    match phase {
        SocketPhase::Relaying { id } => Some(id),
        SocketPhase::AwaitingReply { id } => Some(id),
        _ => None,
    }
}

/// A socket task that has registered a node unregisters that same node on
/// every step that ends it, and a finished task does nothing more.
pub proof fn lemma_registered_node_is_unregistered(phase: SocketPhase, ev: SocketEvent)
    ensures
        registered_id(phase) matches Some(id) ==> (socket_next(phase, ev).0 == SocketPhase::Done
            ==> socket_next(phase, ev).1 == (SocketAction::Unregister { id })),
        phase == SocketPhase::Done ==> socket_next(phase, ev).0 == SocketPhase::Done,
{
}

/// Every node id a phase names is one a node announced, never zero.
pub open spec fn phase_ok(phase: SocketPhase) -> bool {
    match phase {
        SocketPhase::AwaitingVersion { id } => id != 0,
        SocketPhase::Relaying { id } => id != 0,
        SocketPhase::AwaitingReply { id } => id != 0,
        _ => true,
    }
}

/// The phase a socket task starts in, once GetId has been sent.
pub fn initial_phase() -> (p: SocketPhase)
    ensures
        p == SocketPhase::AwaitingId,
        phase_ok(p),
{
    SocketPhase::AwaitingId
}

/// Steps never introduce the id zero, and a registration is of the node whose
/// version was being asked, under the id it announced.
pub proof fn lemma_step_keeps_announced_id(phase: SocketPhase, ev: SocketEvent)
    requires
        phase_ok(phase),
    ensures
        phase_ok(socket_next(phase, ev).0),
        socket_next(phase, ev).1 matches SocketAction::Register { id, version } ==> id != 0
            && phase == (SocketPhase::AwaitingVersion { id }),
{
}

} // verus!
