use vstd::prelude::*;

use crate::dedup::{accept_spec, DedupStore};
use crate::event::EventWithId;
use crate::filter::{filter_event_at, filtered_at, FilterPolicy};

verus! {

/// Filters the events a source parsed this cycle at time `now`, then lets
/// through the delivery filter those whose id was never delivered, recording their ids.
pub fn filter_events_to_be_posted(
    store: &mut DedupStore,
    events: Vec<EventWithId>,
    now: i64,
    policy: FilterPolicy,
) -> (r: Vec<EventWithId>)
    requires
        old(store).wf(),
    ensures
        final(store).wf(),
        (r@, final(store)@) == accept_spec(old(store)@, filtered_at(events@, now as int, policy)),
{
    let filtered = filter_event_at(events, now, policy);
    store.accept(filtered)
}

/// What the scheduler does next in the delivery part of a source's cycle.
#[derive(Debug)]
pub enum DeliveryAction {
    /// Hand this event to the sink and report whether it took it.
    Deliver(EventWithId),
    /// Every event was delivered: persist the source's dedup store.
    Persist,
    /// The sink refused an event: end the cycle without persisting.
    Abandon,
}

/// The model of a delivery run: the events still to deliver, whether a
/// delivery is awaiting its outcome, and whether one failed.
pub struct DeliveryState {
    pub pending: Seq<EventWithId>,
    pub awaiting: bool,
    pub failed: bool,
}

pub open spec fn delivery_start(events: Seq<EventWithId>) -> DeliveryState {
    DeliveryState { pending: events, awaiting: false, failed: false }
}

/// The action taken from state `s` (where no delivery is awaited), and the
/// state after it.
pub open spec fn delivery_step(s: DeliveryState) -> (DeliveryAction, DeliveryState) {
    if s.failed {
        (DeliveryAction::Abandon, s)
    } else if s.pending.len() > 0 {
        (
            DeliveryAction::Deliver(s.pending[0]),
            DeliveryState { pending: s.pending.drop_first(), awaiting: true, ..s },
        )
    } else {
        (DeliveryAction::Persist, s)
    }
}

pub open spec fn delivery_outcome(s: DeliveryState, delivered: bool) -> DeliveryState {
    DeliveryState { awaiting: false, failed: !delivered, ..s }
}

/// Hands the surviving events of a cycle to the sink one at a time, and
/// allows persisting the dedup store only once all of them were delivered.
pub struct DeliveryCycle {
    pending: Vec<EventWithId>,
    awaiting: bool,
    failed: bool,
}

impl View for DeliveryCycle {
    type V = DeliveryState;

    closed spec fn view(&self) -> DeliveryState {
        DeliveryState { pending: self.pending@, awaiting: self.awaiting, failed: self.failed }
    }
}

impl DeliveryCycle {
    pub fn new(events: Vec<EventWithId>) -> (r: DeliveryCycle)
        ensures
            r@ == delivery_start(events@),
    {
        DeliveryCycle { pending: events, awaiting: false, failed: false }
    }

    pub fn next_action(&mut self) -> (r: DeliveryAction)
        requires
            !old(self)@.awaiting,
        ensures
            (r, final(self)@) == delivery_step(old(self)@),
    {
        if self.failed {
            DeliveryAction::Abandon
        } else if self.pending.len() > 0 {
            let e = self.pending.remove(0);
            self.awaiting = true;
            DeliveryAction::Deliver(e)
        } else {
            DeliveryAction::Persist
        }
    }

    /// Takes whether the sink accepted the event last handed out.
    pub fn record(&mut self, delivered: bool)
        requires
            old(self)@.awaiting,
        ensures
            final(self)@ == delivery_outcome(old(self)@, delivered),
    {
        self.awaiting = false;
        self.failed = !delivered;
    }
}

/// The state after each of the first `outcomes.len()` events was handed out
/// and answered with the matching outcome, stopping at the first refusal.
pub open spec fn delivery_run(s: DeliveryState, outcomes: Seq<bool>) -> DeliveryState
    decreases outcomes.len(),
{
    if outcomes.len() == 0 {
        s
    } else {
        let before = delivery_run(s, outcomes.drop_last());
        if before.failed {
            before
        } else {
            delivery_outcome(delivery_step(before).1, outcomes.last())
        }
    }
}

/// A cycle persists its dedup store exactly when the sink accepted every
/// event: after the sink answers the events in turn, the next action is
/// `Persist` if every answer was a success, and `Abandon` as soon as one was
/// a refusal.
pub proof fn lemma_persist_only_after_full_delivery(events: Seq<EventWithId>, outcomes: Seq<bool>)
    requires
        outcomes.len() == events.len(),
    ensures
        (forall|i: int| 0 <= i < outcomes.len() ==> outcomes[i]) ==> delivery_step(
            delivery_run(delivery_start(events), outcomes),
        ).0 == DeliveryAction::Persist,
        (exists|i: int| 0 <= i < outcomes.len() && !outcomes[i]) ==> delivery_step(
            delivery_run(delivery_start(events), outcomes),
        ).0 == DeliveryAction::Abandon,
{
    lemma_delivery_run(events, outcomes);
}

proof fn lemma_delivery_run(events: Seq<EventWithId>, outcomes: Seq<bool>)
    requires
        outcomes.len() <= events.len(),
    ensures
        ({
            let s = delivery_run(delivery_start(events), outcomes);
            &&& !s.awaiting
            &&& s.failed <==> exists|i: int| 0 <= i < outcomes.len() && !outcomes[i]
            &&& !s.failed ==> s.pending == events.skip(outcomes.len() as int)
        }),
    decreases outcomes.len(),
{
    if outcomes.len() > 0 {
        let rest = outcomes.drop_last();
        lemma_delivery_run(events, rest);
        let before = delivery_run(delivery_start(events), rest);
        if before.failed {
            let i = choose|i: int| 0 <= i < rest.len() && !rest[i];
            assert(!outcomes[i]);
        } else {
            assert(events.skip(rest.len() as int).drop_first() =~= events.skip(
                outcomes.len() as int,
            ));
            if exists|i: int| 0 <= i < outcomes.len() && !outcomes[i] {
                let i = choose|i: int| 0 <= i < outcomes.len() && !outcomes[i];
                if i < rest.len() {
                    assert(!rest[i]);
                }
            }
        }
    }
}

} // verus!
