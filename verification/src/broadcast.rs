//! Fan-out rules: which message goes to which connection.
//!
//! Nothing here sends anything. Each function returns a plan, a list of
//! deliveries, that the caller carries out; a delivery that fails concerns
//! its recipient alone.

use vstd::prelude::*;
use crate::identity::UserId;
use crate::message::{inbox, lemma_inbox_push, Delivery, RemoteState, ServerMessage, ServerMessageView};
use crate::registry::{enumerates, Registry};
use crate::store::lists;

verus! {

/// The states of `snapshot` that belong to somebody other than `recipient`,
/// in the order of `snapshot`.
pub open spec fn others(snapshot: Seq<RemoteState>, recipient: UserId) -> Seq<RemoteState> {
    snapshot.filter(|state: RemoteState| state.id != recipient)
}

/// What one tick sends to `recipient`: nothing while no state is on file or
/// the recipient is not connected, else one update with everybody else's
/// state, which may be an empty list.
pub open spec fn tick_inbox(
    connected: Set<UserId>,
    snapshot: Seq<RemoteState>,
    recipient: UserId,
) -> Seq<ServerMessageView> {
    if snapshot.len() > 0 && connected.contains(recipient) {
        seq![ServerMessageView::Update(others(snapshot, recipient))]
    } else {
        Seq::empty()
    }
}

/// What a broadcast of `message` sends to `recipient`: the message, once, if
/// the recipient is connected.
pub open spec fn broadcast_inbox(
    connected: Set<UserId>,
    message: ServerMessageView,
    recipient: UserId,
) -> Seq<ServerMessageView> {
    if connected.contains(recipient) {
        seq![message]
    } else {
        Seq::empty()
    }
}

/// Whether a delivery keeps its recipient out of what it says: an update
/// holds no state of the identity it goes to. Other messages hold no states.
pub open spec fn excludes_recipient(delivery: Delivery) -> bool {
    delivery.message@ matches ServerMessageView::Update(states) ==> forall|i: int|
        0 <= i < states.len() ==> (#[trigger] states[i]).id != delivery.to
}

/// A tick at which the store is empty sends nothing to anybody.
pub proof fn lemma_empty_store_is_quiet(
    connected: Set<UserId>,
    states: Map<UserId, RemoteState>,
    snapshot: Seq<RemoteState>,
    recipient: UserId,
)
    requires
        lists(snapshot, states),
        states == Map::<UserId, RemoteState>::empty(),
    ensures
        snapshot.len() == 0,
        tick_inbox(connected, snapshot, recipient) == Seq::<ServerMessageView>::empty(),
{
    if snapshot.len() > 0 {
        assert(states.contains_key(snapshot[0].id));
    }
}

/// An update never tells its recipient about itself.
pub proof fn lemma_others_excludes_recipient(snapshot: Seq<RemoteState>, recipient: UserId)
    ensures
        forall|i: int|
            0 <= i < others(snapshot, recipient).len() ==> (#[trigger] others(
                snapshot,
                recipient,
            )[i]).id != recipient,
{
    let foreign = |state: RemoteState| state.id != recipient;
    assert forall|i: int| 0 <= i < snapshot.filter(foreign).len() implies (
    #[trigger] snapshot.filter(foreign)[i]).id != recipient by {
        snapshot.lemma_filter_pred(foreign, i);
    }
}

/// An update tells its recipient about every state of the snapshot that is
/// somebody else's.
pub proof fn lemma_others_keeps_the_rest(
    snapshot: Seq<RemoteState>,
    recipient: UserId,
    state: RemoteState,
)
    requires
        snapshot.contains(state),
        state.id != recipient,
    ensures
        others(snapshot, recipient).contains(state),
{
    let foreign = |state: RemoteState| state.id != recipient;
    let i = choose|i: int| 0 <= i < snapshot.len() && snapshot[i] == state;
    snapshot.lemma_filter_contains(foreign, i);
}

/// The update for `recipient`: every state of `snapshot` but its own.
pub fn update_for(snapshot: &Vec<RemoteState>, recipient: UserId) -> (message: ServerMessage)
    ensures
        message@ == ServerMessageView::Update(others(snapshot@, recipient)),
        excludes_recipient(Delivery { to: recipient, message }),
{
    proof {
        lemma_others_excludes_recipient(snapshot@, recipient);
    }
    let ghost foreign = |state: RemoteState| state.id != recipient;
    let mut states: Vec<RemoteState> = Vec::new();
    proof {
        reveal(Seq::filter);
    }
    for i in 0..snapshot.len()
        invariant
            foreign == |state: RemoteState| state.id != recipient,
            states@ == snapshot@.take(i as int).filter(foreign),
    {
        proof {
            snapshot@.take(i as int).lemma_filter_push(snapshot@[i as int], foreign);
            assert(snapshot@.take(i + 1) == snapshot@.take(i as int).push(snapshot@[i as int]));
        }
        if snapshot[i].id != recipient {
            states.push(snapshot[i]);
        }
    }
    assert(snapshot@.take(snapshot@.len() as int) == snapshot@);
    ServerMessage::Update(states)
}

/// One turn of the update loop: given a snapshot of the state store, one
/// update for every registered identity, or nothing at all if the snapshot is
/// empty.
pub fn update_round<H>(users: &Registry<H>, snapshot: &Vec<RemoteState>) -> (plan: Vec<Delivery>)
    ensures
        snapshot@.len() == 0 ==> plan@.len() == 0,
        forall|recipient: UserId| #[trigger]
            inbox(plan@, recipient) == tick_inbox(users@.dom(), snapshot@, recipient),
        forall|i: int| 0 <= i < plan@.len() ==> excludes_recipient(#[trigger] plan@[i]),
{
    let mut plan: Vec<Delivery> = Vec::new();
    proof {
        reveal(Seq::filter);
    }
    if snapshot.len() == 0 {
        return plan;
    }
    let ids = users.ids();
    for i in 0..ids.len()
        invariant
            snapshot@.len() > 0,
            enumerates(ids@, users@.dom()),
            forall|k: int| 0 <= k < plan@.len() ==> excludes_recipient(#[trigger] plan@[k]),
            forall|recipient: UserId| #[trigger]
                inbox(plan@, recipient) == if ids@.take(i as int).contains(recipient) {
                    tick_inbox(users@.dom(), snapshot@, recipient)
                } else {
                    Seq::empty()
                },
    {
        let to = ids[i];
        let delivery = Delivery { to, message: update_for(snapshot, to) };
        proof {
            lemma_take_next(ids@, i as int);
            assert(ids@.contains(to));
            assert forall|recipient: UserId| #[trigger]
                inbox(plan@.push(delivery), recipient) == if ids@.take(i + 1).contains(
                    recipient,
                ) {
                    tick_inbox(users@.dom(), snapshot@, recipient)
                } else {
                    Seq::empty()
                } by {
                lemma_inbox_push(plan@, delivery, recipient);
            }
        }
        plan.push(delivery);
    }
    proof {
        assert(ids@.take(ids@.len() as int) == ids@);
    }
    plan
}

/// One delivery of `message` to every registered identity.
pub fn broadcast<H>(message: &ServerMessage, users: &Registry<H>) -> (plan: Vec<Delivery>)
    ensures
        forall|recipient: UserId| #[trigger]
            inbox(plan@, recipient) == broadcast_inbox(users@.dom(), message@, recipient),
{
    let mut plan: Vec<Delivery> = Vec::new();
    proof {
        reveal(Seq::filter);
    }
    let ids = users.ids();
    for i in 0..ids.len()
        invariant
            enumerates(ids@, users@.dom()),
            forall|recipient: UserId| #[trigger]
                inbox(plan@, recipient) == if ids@.take(i as int).contains(recipient) {
                    broadcast_inbox(users@.dom(), message@, recipient)
                } else {
                    Seq::empty()
                },
    {
        let to = ids[i];
        let delivery = Delivery { to, message: message.clone() };
        proof {
            lemma_take_next(ids@, i as int);
            assert(ids@.contains(to));
            assert forall|recipient: UserId| #[trigger]
                inbox(plan@.push(delivery), recipient) == if ids@.take(i + 1).contains(
                    recipient,
                ) {
                    broadcast_inbox(users@.dom(), message@, recipient)
                } else {
                    Seq::empty()
                } by {
                lemma_inbox_push(plan@, delivery, recipient);
            }
        }
        plan.push(delivery);
    }
    proof {
        assert(ids@.take(ids@.len() as int) == ids@);
    }
    plan
}

/// In a list without repetitions, the first `i + 1` entries are the first `i`
/// and one that is not among them.
proof fn lemma_take_next(ids: Seq<UserId>, i: int)
    requires
        0 <= i < ids.len(),
        ids.no_duplicates(),
    ensures
        !ids.take(i).contains(ids[i]),
        forall|id: UserId|
            ids.take(i + 1).contains(id) <==> ids.take(i).contains(id) || id == ids[i],
{
    assert(ids.take(i + 1) == ids.take(i).push(ids[i]));
    assert forall|id: UserId|
        ids.take(i + 1).contains(id) <==> ids.take(i).contains(id) || id == ids[i] by {
        if ids.take(i).contains(id) {
            let j = choose|j: int| 0 <= j < i && ids.take(i)[j] == id;
            assert(ids.take(i + 1)[j] == id);
        }
        if id == ids[i] {
            assert(ids.take(i + 1)[i] == id);
        }
    }
}

} // verus!
