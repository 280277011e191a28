//! The bridge that hands engine events to a caller's callback. The engine
//! delivers from threads it owns; whoever drives the bridge takes exclusive
//! access to it (and through it to the callback) for exactly one delivery, and
//! gives it back when the callback returns, whether it succeeded or failed.

use vstd::prelude::*;

verus! {

/// A failure raised by a callback.
#[derive(Debug)]
pub struct CallbackError {
    pub message: String,
}

/// A callback supplied by the caller for events of type `E`.
pub trait Callback<E> {
    /// The events this callback has been called with, oldest first.
    spec fn received(&self) -> Seq<E>;

    /// Handles one event; every call is recorded, whether it succeeds or fails.
    fn call(&mut self, event: E) -> (r: Result<(), CallbackError>)
        ensures
            final(self).received() == old(self).received().push(event),
    ;
}

/// What became of one event.
#[derive(Debug)]
pub enum Delivery {
    /// The callback ran and returned normally.
    Handled,
    /// The callback ran and failed; the failure is handed back to be
    /// reported and goes no further.
    Failed(CallbackError),
    /// The bridge was closed: the callback did not run.
    Dropped,
}

/// A callback behind the bridge, with the state of its subscription.
pub struct Bridge<C> {
    callback: C,
    open: bool,
}

/// How one delivery of `event` relates the bridge before and after: an open
/// bridge hands the event to its callback, exactly once, and stays open
/// whatever the callback does; a closed bridge drops the event and leaves its
/// callback untouched.
pub open spec fn delivery_step<E, C: Callback<E>>(
    before: Bridge<C>,
    after: Bridge<C>,
    event: E,
    d: Delivery,
) -> bool {
    &&& after.is_open_spec() == before.is_open_spec()
    &&& (before.is_open_spec() <==> !(d is Dropped))
    &&& before.is_open_spec() ==> after.callback_spec().received()
        == before.callback_spec().received().push(event)
    &&& !before.is_open_spec() ==> after.callback_spec() == before.callback_spec()
}

impl<C> Bridge<C> {
    pub closed spec fn is_open_spec(&self) -> bool {
        self.open
    }

    pub closed spec fn callback_spec(&self) -> C {
        self.callback
    }

    /// An open bridge around `callback`.
    pub fn new(callback: C) -> (r: Bridge<C>)
        ensures
            r.is_open_spec(),
            r.callback_spec() == callback,
    {
        Bridge { callback, open: true }
    }

    pub fn is_open(&self) -> (r: bool)
        ensures
            r == self.is_open_spec(),
    {
        self.open
    }

    /// Hands one event to the callback. A failing callback is contained
    /// here: its error is returned for reporting and the bridge stays open,
    /// so the next event is delivered as well.
    pub fn deliver<E>(&mut self, event: E) -> (r: Delivery)
        where
            C: Callback<E>,
        ensures
            delivery_step(*old(self), *final(self), event, r),
    {
        if !self.open {
            return Delivery::Dropped;
        }
        match self.callback.call(event) {
            Ok(()) => Delivery::Handled,
            Err(e) => Delivery::Failed(e),
        }
    }

    /// Stops delivery: later events are dropped without running the callback.
    pub fn close(&mut self)
        ensures
            !final(self).is_open_spec(),
            final(self).callback_spec() == old(self).callback_spec(),
    {
        self.open = false;
    }
}

/// A delivery whose callback failed leaves the bridge delivering: the next
/// event on the same bridge reaches the callback too, after the first, each
/// of them once.
pub proof fn lemma_failure_does_not_stop_delivery<E, C: Callback<E>>(
    b0: Bridge<C>,
    b1: Bridge<C>,
    b2: Bridge<C>,
    first: E,
    second: E,
    d1: Delivery,
    d2: Delivery,
)
    requires
        delivery_step(b0, b1, first, d1),
        d1 is Failed,
        delivery_step(b1, b2, second, d2),
    ensures
        !(d2 is Dropped),
        b2.is_open_spec(),
        b2.callback_spec().received() == b0.callback_spec().received().push(first).push(second),
{
}

/// On an open bridge, every event of a run of deliveries reaches the callback
/// once and in order, whatever each call returned.
pub proof fn lemma_deliveries_in_order<E, C: Callback<E>>(
    states: Seq<Bridge<C>>,
    events: Seq<E>,
    outcomes: Seq<Delivery>,
)
    requires
        states.len() == events.len() + 1,
        outcomes.len() == events.len(),
        states[0].is_open_spec(),
        forall|i: int|
            0 <= i < events.len() ==> delivery_step(
                #[trigger] states[i],
                states[i + 1],
                events[i],
                outcomes[i],
            ),
    ensures
        states.last().is_open_spec(),
        states.last().callback_spec().received() == states[0].callback_spec().received() + events,
    decreases events.len(),
{
    if events.len() > 0 {
        let n = events.len() - 1;
        lemma_deliveries_in_order(states.drop_last(), events.drop_last(), outcomes.drop_last());
        assert(delivery_step(states[n], states[n + 1], events[n], outcomes[n]));
        assert(states.drop_last().last() == states[n]);
        assert(states[0].callback_spec().received() + events =~= (states[0].callback_spec().received()
            + events.drop_last()).push(events[n]));
    } else {
        assert(states[0].callback_spec().received() + events =~= states[0].callback_spec().received());
    }
}

} // verus!
