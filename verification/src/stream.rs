//! One listener's live event feed: a subscription to the bus, driven one
//! step at a time by whoever waits for messages and for shutdown.

use vstd::prelude::*;
use crate::bus::{BusView, Delivery, DeliveryView, MessageBus};
use crate::message::MessageView;
use crate::codec::{event_payload, event_payload_of};

verus! {

/// Where a feed stands.
#[derive(Debug, Clone, Copy, PartialEq, Eq)]
pub enum StreamState {
    /// Subscribed and delivering.
    Active,
    /// Ended; its subscription is released.
    Terminated,
}

/// What the driver of a feed does next.
pub enum StreamActionView {
    /// Send one event with this payload, then step again.
    Emit(Seq<char>),
    /// Nothing is pending: wait for a publish, a close or shutdown, then step again.
    Wait,
    /// End the stream, without reporting an error to the listener.
    Stop,
}

/// Executable form of [`StreamActionView`].
#[derive(Debug, PartialEq, Eq)]
pub enum StreamAction {
    Emit(String),
    Wait,
    Stop,
}

impl View for StreamAction {
    type V = StreamActionView;

    open spec fn view(&self) -> StreamActionView {
        match self {
            StreamAction::Emit(payload) => StreamActionView::Emit(payload@),
            StreamAction::Wait => StreamActionView::Wait,
            StreamAction::Stop => StreamActionView::Stop,
        }
    }
}

/// The mathematical value of a [`StreamHandler`].
pub struct StreamView {
    pub subscription: int,
    pub state: StreamState,
}

/// The action of one step: shutdown wins over anything pending; otherwise
/// the bus decides.
pub open spec fn step_action(stream: StreamView, bus: BusView, shutdown: bool) -> StreamActionView {
    if stream.state == StreamState::Terminated || shutdown {
        StreamActionView::Stop
    } else {
        match bus.delivery(stream.subscription) {
            DeliveryView::Message(m) => StreamActionView::Emit(event_payload_of(m)),
            DeliveryView::Empty => StreamActionView::Wait,
            DeliveryView::Closed => StreamActionView::Stop,
        }
    }
}

/// The bus after one step of a feed: a feed that stops releases its
/// subscription; one that emits has taken the message out of its backlog.
pub open spec fn step_bus(stream: StreamView, bus: BusView, shutdown: bool) -> BusView {
    if stream.state == StreamState::Terminated {
        bus
    } else if shutdown {
        bus.unsubscribe(stream.subscription)
    } else {
        bus.after_delivery(stream.subscription)
    }
}

/// The state of a feed after a step with the given action.
pub open spec fn step_state(action: StreamActionView) -> StreamState {
    if action is Stop {
        StreamState::Terminated
    } else {
        StreamState::Active
    }
}

/// The feed of one listener.
pub struct StreamHandler {
    subscription: usize,
    state: StreamState,
}

impl View for StreamHandler {
    type V = StreamView;

    closed spec fn view(&self) -> StreamView {
        StreamView { subscription: self.subscription as int, state: self.state }
    }
}

/// Opens a feed: subscribes to the bus at its current tail.
pub fn events(bus: &mut MessageBus) -> (stream: StreamHandler)
    ensures
        stream@.subscription == old(bus)@.next_handle(),
        stream@.state == StreamState::Active,
        final(bus)@ == old(bus)@.subscribe(),
        final(bus)@.is_subscribed(stream@.subscription),
        final(bus)@.backlog(stream@.subscription) == Seq::<MessageView>::empty(),
        final(bus)@.wf(),
{
    let subscription = bus.subscribe();
    StreamHandler { subscription, state: StreamState::Active }
}

impl StreamHandler {
    /// The handle of the feed's subscription.
    pub fn subscription(&self) -> (id: usize)
        ensures
            id == self@.subscription,
    {
        self.subscription
    }

    /// Where the feed stands.
    pub fn state(&self) -> (state: StreamState)
        ensures
            state == self@.state,
    {
        self.state
    }

    /// One step of the feed. `shutdown` says that shutdown or cancellation
    /// was requested: the feed then stops at once, whatever is pending.
    /// Otherwise the next pending message is turned into an event; with
    /// nothing pending the feed waits, or stops if the bus is closed. A
    /// feed that stops is terminated for good and holds no subscription.
    pub fn step(&mut self, bus: &mut MessageBus, shutdown: bool) -> (action: StreamAction)
        ensures
            action@ == step_action(old(self)@, old(bus)@, shutdown),
            final(bus)@ == step_bus(old(self)@, old(bus)@, shutdown),
            final(self)@.subscription == old(self)@.subscription,
            final(self)@.state == step_state(action@),
            shutdown ==> action@ is Stop && final(self)@.state == StreamState::Terminated,
            final(self)@.state == StreamState::Terminated && old(self)@.state == StreamState::Active
                ==> !final(bus)@.is_subscribed(old(self)@.subscription),
            old(self)@.state == StreamState::Active ==> final(bus)@.wf(),
    {
        match self.state {
            StreamState::Terminated => {
                return StreamAction::Stop;
            },
            StreamState::Active => {},
        }
        if shutdown {
            bus.unsubscribe(self.subscription);
            self.state = StreamState::Terminated;
            return StreamAction::Stop;
        }
        match bus.next(self.subscription) {
            Delivery::Message(m) => StreamAction::Emit(event_payload(&m)),
            Delivery::Empty => StreamAction::Wait,
            Delivery::Closed => {
                self.state = StreamState::Terminated;
                StreamAction::Stop
            },
        }
    }
}

/// Live delivery: a feed opened on an open bus before `m` was published
/// emits the event of `m` in its next step and stays active.
pub proof fn lemma_feed_emits_published(bus: BusView, m: MessageView)
    requires
        bus.wf(),
        !bus.closed,
    ensures
        ({
            let stream = StreamView {
                subscription: bus.next_handle() as int,
                state: StreamState::Active,
            };
            let action = step_action(stream, bus.subscribe().publish(m), false);
            &&& action == StreamActionView::Emit(event_payload_of(m))
            &&& step_state(action) == StreamState::Active
        }),
{
    crate::bus::lemma_live_delivery(bus, m);
}

/// Shutdown termination: whatever a feed has pending, a step that sees
/// shutdown stops it and releases its subscription.
pub proof fn lemma_shutdown_terminates(stream: StreamView, bus: BusView)
    requires
        bus.wf(),
        stream.state == StreamState::Active,
    ensures
        step_action(stream, bus, true) == StreamActionView::Stop,
        step_state(step_action(stream, bus, true)) == StreamState::Terminated,
        !step_bus(stream, bus, true).is_subscribed(stream.subscription),
        step_bus(stream, bus, true).wf(),
{
}

/// A feed does not restart: once terminated, every step stops and leaves
/// the bus alone.
pub proof fn lemma_terminated_stays_stopped(stream: StreamView, bus: BusView, shutdown: bool)
    requires
        stream.state == StreamState::Terminated,
    ensures
        step_action(stream, bus, shutdown) == StreamActionView::Stop,
        step_state(step_action(stream, bus, shutdown)) == StreamState::Terminated,
        step_bus(stream, bus, shutdown) == bus,
{
}

} // verus!
