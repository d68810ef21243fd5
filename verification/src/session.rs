//! The per-connection session: handshake, receive loop, teardown.
//!
//! A session is a small state machine. The caller owns the stream: it hands
//! each thing the stream yields to the session as an [`Inbound`] event and
//! carries out the deliveries that the session returns.

use vstd::prelude::*;
use crate::broadcast::broadcast;
use crate::identity::{successor, IdAllocator, UserId};
use crate::message::{inbox, reported, ClientMessage, Delivery, RemoteState, ServerMessage, ServerMessageView};
use crate::registry::Registry;
use crate::store::StateStore;

verus! {

/// Where a session stands in its life.
#[derive(Debug, Clone, Copy, PartialEq, Eq, Structural)]
pub enum Phase {
    /// Registered; the welcome has not been handed to the queue yet.
    Handshaking,
    /// Receiving frames.
    Active,
    /// The stream is gone; the shared containers still hold the identity.
    Terminating,
    /// Torn down. Nothing happens to a closed session any more.
    Closed,
}

/// One thing that the inbound side of a connection yields.
#[derive(Debug, Clone, Copy, PartialEq, Eq, Structural)]
pub enum Inbound {
    /// A binary frame whose payload decodes to a client message.
    Message(ClientMessage),
    /// A binary frame whose payload does not decode to any client message.
    Malformed,
    /// A frame that is not binary.
    NotBinary,
    /// A close frame.
    Close,
    /// The stream failed.
    Error,
    /// The stream ended.
    End,
}

/// The client message that an event carries, if it carries one.
pub open spec fn parsed(event: Inbound) -> Option<ClientMessage> {
    match event {
        Inbound::Message(message) => Some(message),
        _ => None,
    }
}

/// Whether an event means that the stream is gone.
pub open spec fn ends_stream(event: Inbound) -> bool {
    event is Close || event is Error || event is End
}

/// The phase that follows `phase` once the welcome was handed to the queue
/// (`delivered`) or the queue refused it.
pub open spec fn phase_after_welcome(phase: Phase, delivered: bool) -> Phase {
    if phase is Handshaking {
        if delivered {
            Phase::Active
        } else {
            Phase::Terminating
        }
    } else {
        phase
    }
}

/// The phase that follows `phase` on `event`.
pub open spec fn phase_after(phase: Phase, event: Inbound) -> Phase {
    if phase is Active && ends_stream(event) {
        Phase::Terminating
    } else {
        phase
    }
}

/// The store after the session of `id`, in `phase`, has received `event`.
pub open spec fn states_after(
    states: Map<UserId, RemoteState>,
    id: UserId,
    phase: Phase,
    event: Inbound,
) -> Map<UserId, RemoteState> {
    match parsed(event) {
        Some(ClientMessage::State(state)) if phase is Active => states.insert(
            id,
            reported(id, state),
        ),
        _ => states,
    }
}

/// What the teardown of `leaver` sends to `recipient`: one goodbye to each
/// identity that was connected at that moment, and none to the leaver itself.
pub open spec fn teardown_inbox(
    connected: Set<UserId>,
    leaver: UserId,
    recipient: UserId,
) -> Seq<ServerMessageView> {
    if connected.contains(recipient) && recipient != leaver {
        seq![ServerMessageView::GoodBye(leaver)]
    } else {
        Seq::empty()
    }
}

/// Picks the client message out of what the stream yielded. Anything but a
/// binary frame with a well-formed payload yields nothing.
pub fn parse_user_message(event: Inbound) -> (message: Option<ClientMessage>)
    ensures
        message == parsed(event),
{
    match event {
        Inbound::Message(message) => Some(message),
        _ => None,
    }
}

/// Applies a message from `id`: its state replaces what `id` reported before.
pub fn handle_user_message(id: UserId, message: ClientMessage, states: &mut StateStore)
    ensures
        final(states)@ == old(states)@.insert(id, reported(id, message->State_0)),
{
    match message {
        ClientMessage::State(state) => {
            states.insert(RemoteState { id, pos: state.pos, rot: state.rot });
        },
    }
}

/// The protocol driver of one connection.
pub struct Session {
    id: UserId,
    phase: Phase,
}

impl Session {
    /// The identity that the handshake gave this connection.
    pub closed spec fn spec_id(&self) -> UserId {
        self.id
    }

    pub closed spec fn spec_phase(&self) -> Phase {
        self.phase
    }

    #[verifier::when_used_as_spec(spec_id)]
    pub fn id(&self) -> (id: UserId)
        ensures
            id == self.id(),
    {
        self.id
    }

    #[verifier::when_used_as_spec(spec_phase)]
    pub fn phase(&self) -> (phase: Phase)
        ensures
            phase == self.phase(),
    {
        self.phase
    }

    /// Whether the session is receiving frames.
    pub fn is_active(&self) -> (active: bool)
        ensures
            active == (self.phase() is Active),
    {
        match self.phase {
            Phase::Active => true,
            _ => false,
        }
    }

    /// Begins a session: takes a fresh identity, registers `handle` under it,
    /// and returns the session together with the welcome that is owed to the
    /// new connection. The outcome of that delivery goes to [`Self::welcomed`].
    pub fn handshake<H>(allocator: &mut IdAllocator, users: &mut Registry<H>, handle: H) -> (opened:
        (Session, Delivery))
        ensures
            opened.0.id() == UserId(old(allocator)@),
            opened.0.phase() == Phase::Handshaking,
            final(allocator)@ == successor(old(allocator)@),
            final(users)@ == old(users)@.insert(opened.0.id(), handle),
            opened.1.to == opened.0.id(),
            opened.1.message@ == ServerMessageView::Welcome(opened.0.id()),
    {
        let id = UserId::create_new_user_id(allocator);
        users.insert(id, handle);
        (
            Session { id, phase: Phase::Handshaking },
            Delivery { to: id, message: ServerMessage::Welcome(id) },
        )
    }

    /// Ends the handshake. A welcome that the queue took makes the session
    /// active; one that it refused means the connection is dead, and the
    /// session goes straight to teardown. There is no retry.
    pub fn welcomed(&mut self, delivered: bool)
        ensures
            final(self).id() == old(self).id(),
            final(self).phase() == phase_after_welcome(old(self).phase(), delivered),
    {
        match self.phase {
            Phase::Handshaking => {
                self.phase = if delivered {
                    Phase::Active
                } else {
                    Phase::Terminating
                };
            },
            _ => {},
        }
    }

    /// Takes one event from the stream. An active session files a reported
    /// state, ignores what it cannot read, and turns to teardown when the
    /// stream is gone; a session in any other phase ignores the event.
    pub fn receive(&mut self, event: Inbound, states: &mut StateStore)
        ensures
            final(self).id() == old(self).id(),
            final(self).phase() == phase_after(old(self).phase(), event),
            final(states)@ == states_after(old(states)@, old(self).id(), old(self).phase(), event),
            parsed(event) is None && !ends_stream(event) ==> final(self).phase() == old(
                self,
            ).phase() && final(states)@ == old(states)@,
    {
        match self.phase {
            Phase::Active => {
                match event {
                    Inbound::Close | Inbound::Error | Inbound::End => {
                        self.phase = Phase::Terminating;
                    },
                    _ => {
                        if let Some(message) = parse_user_message(event) {
                            handle_user_message(self.id, message, states);
                        }
                    },
                }
            },
            _ => {},
        }
    }

    /// Tears a terminating session down: its identity leaves the registry and
    /// the store, everybody who remains registered is owed one goodbye, and
    /// the session is closed. In any other phase nothing happens and nothing
    /// is owed.
    pub fn terminate<H>(&mut self, users: &mut Registry<H>, states: &mut StateStore) -> (plan: Vec<
        Delivery,
    >)
        ensures
            final(self).id() == old(self).id(),
            old(self).phase() is Terminating ==> {
                &&& final(self).phase() == Phase::Closed
                &&& final(users)@ == old(users)@.remove(old(self).id())
                &&& final(states)@ == old(states)@.remove(old(self).id())
                &&& forall|recipient: UserId| #[trigger]
                    inbox(plan@, recipient) == teardown_inbox(
                        old(users)@.dom(),
                        old(self).id(),
                        recipient,
                    )
            },
            !(old(self).phase() is Terminating) ==> {
                &&& final(self).phase() == old(self).phase()
                &&& final(users)@ == old(users)@
                &&& final(states)@ == old(states)@
                &&& plan@.len() == 0
            },
    {
        match self.phase {
            Phase::Terminating => {
                users.remove(self.id);
                states.remove(self.id);
                self.phase = Phase::Closed;
                broadcast(&ServerMessage::GoodBye(self.id), users)
            },
            _ => Vec::new(),
        }
    }
}

} // verus!
