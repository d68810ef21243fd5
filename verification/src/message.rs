//! Protocol values exchanged with peers, and deliveries of them.
//!
//! Positions and angles are single-precision numbers that the server never
//! computes with; they are carried as their IEEE 754 bit patterns.

use vstd::prelude::*;
use crate::identity::UserId;

verus! {

/// A point in the plane; each coordinate is the bit pattern of a
/// single-precision number.
#[derive(Debug, Clone, Copy, PartialEq, Eq, Structural)]
pub struct Vec2 {
    pub x: u32,
    pub y: u32,
}

/// The last state that an identity reported.
#[derive(Debug, Clone, Copy, PartialEq, Eq, Structural)]
pub struct RemoteState {
    pub id: UserId,
    pub pos: Vec2,
    /// Orientation: the bit pattern of a single-precision angle.
    pub rot: u32,
}

/// State as a peer reports it; the session adds the identity.
#[derive(Debug, Clone, Copy, PartialEq, Eq, Structural)]
pub struct ClientState {
    pub pos: Vec2,
    /// Orientation: the bit pattern of a single-precision angle.
    pub rot: u32,
}

/// Message sent from a peer to the server.
#[derive(Debug, Clone, Copy, PartialEq, Eq, Structural)]
pub enum ClientMessage {
    State(ClientState),
}

/// Message sent from the server to a peer.
#[derive(Debug, PartialEq, Eq)]
pub enum ServerMessage {
    /// Tells a peer its own identity, once, right after it was registered.
    Welcome(UserId),
    /// Tells the remaining peers that an identity has left.
    GoodBye(UserId),
    /// The latest known state of every identity other than the recipient.
    Update(Vec<RemoteState>),
}

/// What a [`ServerMessage`] says, with the list of an update as a sequence.
pub enum ServerMessageView {
    Welcome(UserId),
    GoodBye(UserId),
    Update(Seq<RemoteState>),
}

impl View for ServerMessage {
    type V = ServerMessageView;

    open spec fn view(&self) -> ServerMessageView {
        match *self {
            ServerMessage::Welcome(id) => ServerMessageView::Welcome(id),
            ServerMessage::GoodBye(id) => ServerMessageView::GoodBye(id),
            ServerMessage::Update(states) => ServerMessageView::Update(states@),
        }
    }
}

impl Clone for ServerMessage {
    fn clone(&self) -> (copy: Self)
        ensures
            copy@ == self@,
    {
        match self {
            ServerMessage::Welcome(id) => ServerMessage::Welcome(*id),
            ServerMessage::GoodBye(id) => ServerMessage::GoodBye(*id),
            ServerMessage::Update(states) => {
                let mut copied: Vec<RemoteState> = Vec::new();
                for i in 0..states.len()
                    invariant
                        copied@ == states@.take(i as int),
                {
                    copied.push(states[i]);
                    assert(states@.take(i + 1) == states@.take(i as int).push(states@[i as int]));
                }
                assert(states@.take(states@.len() as int) == states@);
                ServerMessage::Update(copied)
            },
        }
    }
}

/// The state that `id` holds after reporting `state`.
pub open spec fn reported(id: UserId, state: ClientState) -> RemoteState {
    RemoteState { id, pos: state.pos, rot: state.rot }
}

/// A message together with the identity whose outbound queue it goes to.
#[derive(Debug, PartialEq, Eq)]
pub struct Delivery {
    pub to: UserId,
    pub message: ServerMessage,
}

/// The messages that `plan` addresses to `recipient`, in the order in which
/// they are enqueued.
pub open spec fn inbox(plan: Seq<Delivery>, recipient: UserId) -> Seq<ServerMessageView> {
    plan.filter(|delivery: Delivery| delivery.to == recipient).map_values(
        |delivery: Delivery| delivery.message@,
    )
}

/// Appending a delivery extends the inbox of its addressee by its message and
/// leaves every other inbox as it was.
pub proof fn lemma_inbox_push(plan: Seq<Delivery>, delivery: Delivery, recipient: UserId)
    ensures
        inbox(plan.push(delivery), recipient) == if delivery.to == recipient {
            inbox(plan, recipient).push(delivery.message@)
        } else {
            inbox(plan, recipient)
        },
{
    let addressed = |d: Delivery| d.to == recipient;
    let said = |d: Delivery| d.message@;
    plan.lemma_filter_push(delivery, addressed);
    if delivery.to == recipient {
        assert(plan.filter(addressed).push(delivery).map_values(said) == plan.filter(
            addressed,
        ).map_values(said).push(delivery.message@));
    }
}

} // verus!
