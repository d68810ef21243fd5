//! The core as a whole: a model of the shared state, of the steps that
//! change it, and what holds after any sequence of steps.
//!
//! Each step is stated with the same functions as the contract of the
//! operation it stands for, so what is proved here of the model holds of any
//! caller that changes the allocator, the registry and the store through
//! sessions only.

use vstd::prelude::*;
use crate::identity::{successor, UserId};
use crate::message::RemoteState;
use crate::session::{phase_after, phase_after_welcome, states_after, Inbound, Phase};

verus! {

/// The shared state of the core, and what has happened to it so far.
pub struct Core {
    /// The number that the allocator hands out next.
    pub counter: usize,
    /// The identities in the connection registry.
    pub connected: Set<UserId>,
    /// The contents of the state store.
    pub states: Map<UserId, RemoteState>,
    /// The phase of the session of each identity.
    pub phases: Map<UserId, Phase>,
    /// Every identity allocated so far, in the order of allocation.
    pub issued: Seq<UserId>,
    /// Every identity that was ever entered in the connection registry.
    pub registered: Set<UserId>,
}

/// One thing that happens to the core.
pub enum Step {
    /// A connection is accepted and its session begins the handshake
    /// ([`Session::handshake`](crate::session::Session::handshake)).
    Connect,
    /// The session of `id` learns what became of its welcome
    /// ([`Session::welcomed`](crate::session::Session::welcomed)).
    Welcomed { id: UserId, delivered: bool },
    /// The session of `id` takes an event from its stream
    /// ([`Session::receive`](crate::session::Session::receive)).
    Receive { id: UserId, event: Inbound },
    /// The session of `id` is torn down
    /// ([`Session::terminate`](crate::session::Session::terminate)).
    Terminate { id: UserId },
    /// The update loop takes its turn; it reads, and changes nothing
    /// ([`update_round`](crate::broadcast::update_round)).
    Tick,
}

impl Core {
    /// The core before anything has happened.
    pub open spec fn initial() -> Core {
        Core {
            counter: 1,
            connected: Set::empty(),
            states: Map::empty(),
            phases: Map::empty(),
            issued: Seq::empty(),
            registered: Set::empty(),
        }
    }

    /// The core after `step`. A step that names an identity without a session
    /// changes nothing.
    pub open spec fn next(self, step: Step) -> Core {
        match step {
            Step::Connect => {
                let id = UserId(self.counter);
                Core {
                    counter: successor(self.counter),
                    connected: self.connected.insert(id),
                    phases: self.phases.insert(id, Phase::Handshaking),
                    issued: self.issued.push(id),
                    registered: self.registered.insert(id),
                    ..self
                }
            },
            Step::Welcomed { id, delivered } => if self.phases.contains_key(id) {
                Core {
                    phases: self.phases.insert(
                        id,
                        phase_after_welcome(self.phases[id], delivered),
                    ),
                    ..self
                }
            } else {
                self
            },
            Step::Receive { id, event } => if self.phases.contains_key(id) {
                Core {
                    phases: self.phases.insert(id, phase_after(self.phases[id], event)),
                    states: states_after(self.states, id, self.phases[id], event),
                    ..self
                }
            } else {
                self
            },
            Step::Terminate { id } => if self.phases.contains_key(id)
                && self.phases[id] is Terminating {
                Core {
                    connected: self.connected.remove(id),
                    states: self.states.remove(id),
                    phases: self.phases.insert(id, Phase::Closed),
                    ..self
                }
            } else {
                self
            },
            Step::Tick => self,
        }
    }

    /// The core after `steps`, taken in order from the initial core.
    pub open spec fn run(steps: Seq<Step>) -> Core
        decreases steps.len(),
    {
        if steps.len() == 0 {
            Core::initial()
        } else {
            Core::run(steps.drop_last()).next(steps.last())
        }
    }

    /// What ties the registry, the store and the sessions together.
    pub open spec fn consistent(self) -> bool {
        &&& forall|id: UserId| #[trigger]
            self.states.contains_key(id) ==> self.phases.contains_key(id) && !(self.phases[id]
                is Closed) && self.states[id].id == id
        &&& forall|id: UserId| #[trigger]
            self.phases.contains_key(id) ==> (self.connected.contains(id) <==> !(self.phases[id]
                is Closed))
        &&& forall|id: UserId| #[trigger]
            self.connected.contains(id) ==> self.phases.contains_key(id)
        &&& forall|id: UserId| #[trigger]
            self.phases.contains_key(id) <==> self.registered.contains(id)
        &&& forall|id: UserId| #[trigger] self.registered.contains(id) <==> self.issued.contains(id)
    }

    /// Whether the identities issued are 1, 2, 3 and so on, and the counter
    /// stands right behind the last of them.
    pub open spec fn counted(self) -> bool {
        &&& forall|i: int| 0 <= i < self.issued.len() ==> (#[trigger] self.issued[i])@ == 1 + i
        &&& self.counter == if self.issued.len() == usize::MAX {
            0
        } else {
            1 + self.issued.len()
        }
    }
}

/// Every step keeps the core consistent.
pub proof fn lemma_step_keeps_consistency(core: Core, step: Step)
    requires
        core.consistent(),
    ensures
        core.next(step).consistent(),
{
    let after = core.next(step);
    match step {
        Step::Connect => {
            let id = UserId(core.counter);
            assert forall|other: UserId| #[trigger]
                after.registered.contains(other) <==> after.issued.contains(other) by {
                if core.issued.contains(other) {
                    let i = choose|i: int| 0 <= i < core.issued.len() && core.issued[i] == other;
                    assert(after.issued[i] == other);
                }
                if other == id {
                    assert(after.issued[core.issued.len() as int] == id);
                }
            }
        },
        Step::Welcomed { id, delivered } => {},
        Step::Receive { id, event } => {},
        Step::Terminate { id } => {},
        Step::Tick => {},
    }
}

/// Registry and store agree at any point: after any sequence of steps, every
/// identity in the state store is in the connection registry at that moment,
/// and every identity in the registry was entered there by a handshake that
/// allocated it.
pub proof fn lemma_store_within_registry(steps: Seq<Step>)
    ensures
        Core::run(steps).consistent(),
        forall|id: UserId| #[trigger]
            Core::run(steps).states.contains_key(id) ==> Core::run(steps).connected.contains(id),
        forall|id: UserId| #[trigger]
            Core::run(steps).connected.contains(id) ==> Core::run(steps).registered.contains(id),
        forall|id: UserId| #[trigger]
            Core::run(steps).states.contains_key(id) ==> Core::run(steps).registered.contains(id),
    decreases steps.len(),
{
    if steps.len() > 0 {
        lemma_store_within_registry(steps.drop_last());
        lemma_step_keeps_consistency(Core::run(steps.drop_last()), steps.last());
    }
}

/// While no more identities have been allocated than the counter has values
/// above zero, the counter has not started over: the identities issued are
/// 1, 2, 3 and so on.
pub proof fn lemma_run_counts(steps: Seq<Step>)
    requires
        Core::run(steps).issued.len() <= usize::MAX,
    ensures
        Core::run(steps).counted(),
    decreases steps.len(),
{
    if steps.len() > 0 {
        lemma_run_counts(steps.drop_last());
    }
}

/// Identities are unique: after any sequence of steps, the identities
/// allocated are strictly increasing in the order of allocation, and so
/// pairwise distinct, unless more of them were allocated than the counter has
/// values above zero.
pub proof fn lemma_issued_identities_unique(steps: Seq<Step>)
    requires
        Core::run(steps).issued.len() <= usize::MAX,
    ensures
        forall|i: int, j: int|
            0 <= i < j < Core::run(steps).issued.len() ==> (#[trigger] Core::run(
                steps,
            ).issued[i])@ < (#[trigger] Core::run(steps).issued[j])@,
        Core::run(steps).issued.no_duplicates(),
{
    lemma_run_counts(steps);
}

} // verus!
