//! The in-process publish/subscribe bus: every published message goes into
//! the bounded backlog of every subscription that is active at that moment.

use vstd::prelude::*;
use std::collections::VecDeque;
use crate::message::{views_of, Message, MessageView};

verus! {

/// What a subscription is handed when it asks for its next message.
pub enum DeliveryView {
    /// The oldest message still pending for this subscription.
    Message(MessageView),
    /// Nothing is pending and the bus is open: the listener waits.
    Empty,
    /// Terminal: the bus is closed and nothing is pending, or there is no such subscription.
    Closed,
}

/// Executable form of [`DeliveryView`].
#[derive(Debug, PartialEq, Eq)]
pub enum Delivery {
    Message(Message),
    Empty,
    Closed,
}

impl View for Delivery {
    type V = DeliveryView;

    open spec fn view(&self) -> DeliveryView {
        match self {
            Delivery::Message(m) => DeliveryView::Message(m@),
            Delivery::Empty => DeliveryView::Empty,
            Delivery::Closed => DeliveryView::Closed,
        }
    }
}

/// The last `capacity` entries of `backlog` followed by `m`: where the
/// backlog is full, its oldest entries make room.
pub open spec fn bounded_push(backlog: Seq<MessageView>, m: MessageView, capacity: nat) -> Seq<
    MessageView,
> {
    let all = backlog.push(m);
    if all.len() <= capacity {
        all
    } else {
        all.subrange(all.len() - capacity, all.len() as int)
    }
}

/// The last `n` entries of `s`, or all of `s` where it has no more than `n`.
pub open spec fn newest(s: Seq<MessageView>, n: nat) -> Seq<MessageView> {
    if s.len() <= n {
        s
    } else {
        s.subrange(s.len() - n, s.len() as int)
    }
}

/// The smallest index of a free slot, or the number of slots where none is free.
pub open spec fn first_free(slots: Seq<Option<Seq<MessageView>>>) -> nat
    decreases slots.len(),
{
    if slots.len() == 0 || slots[0] is None {
        0
    } else {
        1 + first_free(slots.drop_first())
    }
}

/// The number of occupied slots.
pub open spec fn count_active(slots: Seq<Option<Seq<MessageView>>>) -> nat
    decreases slots.len(),
{
    if slots.len() == 0 {
        0
    } else {
        count_active(slots.drop_last()) + if slots.last() is Some {
            1nat
        } else {
            0nat
        }
    }
}

/// The mathematical value of a [`MessageBus`]. Slot `i` holds the backlog
/// of the subscription with handle `i`, oldest message first, or `None`
/// where no subscription has that handle.
pub struct BusView {
    pub capacity: nat,
    pub closed: bool,
    pub slots: Seq<Option<Seq<MessageView>>>,
}

impl BusView {
    /// A bus has room for at least one message, and no backlog is over capacity.
    pub open spec fn wf(self) -> bool {
        &&& self.capacity >= 1
        &&& forall|i: int|
            0 <= i < self.slots.len() && (#[trigger] self.slots[i]) is Some
                ==> self.slots[i]->Some_0.len() <= self.capacity
    }

    /// An open bus without subscriptions.
    pub open spec fn empty(capacity: nat) -> BusView {
        BusView { capacity, closed: false, slots: Seq::empty() }
    }

    /// Whether `id` is the handle of an active subscription.
    pub open spec fn is_subscribed(self, id: int) -> bool {
        0 <= id < self.slots.len() && self.slots[id] is Some
    }

    /// The messages pending for subscription `id`, oldest first.
    pub open spec fn backlog(self, id: int) -> Seq<MessageView> {
        self.slots[id]->Some_0
    }

    /// The number of active subscriptions.
    pub open spec fn active(self) -> nat {
        count_active(self.slots)
    }

    /// The handle the next subscription gets.
    pub open spec fn next_handle(self) -> nat {
        first_free(self.slots)
    }

    /// The bus after one more listener has subscribed: it takes the first
    /// free slot and starts with nothing pending.
    pub open spec fn subscribe(self) -> BusView {
        let id = self.next_handle();
        let fresh = Some(Seq::<MessageView>::empty());
        BusView {
            slots: if id < self.slots.len() {
                self.slots.update(id as int, fresh)
            } else {
                self.slots.push(fresh)
            },
            ..self
        }
    }

    /// The bus after `m` was published: on an open bus every active
    /// subscription gets it at the end of its backlog; a closed bus takes nothing.
    pub open spec fn publish(self, m: MessageView) -> BusView {
        if self.closed {
            self
        } else {
            BusView {
                slots: Seq::new(
                    self.slots.len(),
                    |i: int|
                        match self.slots[i] {
                            Some(backlog) => Some(bounded_push(backlog, m, self.capacity)),
                            None => None,
                        },
                ),
                ..self
            }
        }
    }

    /// The bus after the messages of `batch` were published one after another.
    pub open spec fn publish_all(self, batch: Seq<MessageView>) -> BusView
        decreases batch.len(),
    {
        if batch.len() == 0 {
            self
        } else {
            self.publish(batch[0]).publish_all(batch.drop_first())
        }
    }

    /// How many subscriptions a publish reaches.
    pub open spec fn reached(self) -> nat {
        if self.closed {
            0
        } else {
            self.active()
        }
    }

    /// What subscription `id` is handed next.
    pub open spec fn delivery(self, id: int) -> DeliveryView {
        if !self.is_subscribed(id) {
            DeliveryView::Closed
        } else if self.backlog(id).len() > 0 {
            DeliveryView::Message(self.backlog(id)[0])
        } else if self.closed {
            DeliveryView::Closed
        } else {
            DeliveryView::Empty
        }
    }

    /// The bus after subscription `id` was handed `self.delivery(id)`: a
    /// delivered message leaves the backlog; a subscription that is told
    /// `Closed` is released; waiting changes nothing.
    pub open spec fn after_delivery(self, id: int) -> BusView {
        if !self.is_subscribed(id) {
            self
        } else if self.backlog(id).len() > 0 {
            BusView { slots: self.slots.update(id, Some(self.backlog(id).drop_first())), ..self }
        } else if self.closed {
            BusView { slots: self.slots.update(id, None), ..self }
        } else {
            self
        }
    }

    /// The bus after subscription `id` was released.
    pub open spec fn unsubscribe(self, id: int) -> BusView {
        if 0 <= id < self.slots.len() {
            BusView { slots: self.slots.update(id, None), ..self }
        } else {
            self
        }
    }

    /// The bus after it was closed.
    pub open spec fn close(self) -> BusView {
        BusView { closed: true, ..self }
    }
}

/// The value of one slot.
spec fn slot_view(slot: Option<VecDeque<Message>>) -> Option<Seq<MessageView>> {
    match slot {
        Some(queue) => Some(views_of(queue@)),
        None => None,
    }
}

/// The values of the slots.
spec fn slots_view(slots: Seq<Option<VecDeque<Message>>>) -> Seq<Option<Seq<MessageView>>> {
    slots.map_values(|slot: Option<VecDeque<Message>>| slot_view(slot))
}

/// The publish/subscribe bus. A subscription is named by the handle that
/// `subscribe` returns; the handle of a released subscription is given out again.
pub struct MessageBus {
    capacity: usize,
    closed: bool,
    slots: Vec<Option<VecDeque<Message>>>,
}

impl View for MessageBus {
    type V = BusView;

    closed spec fn view(&self) -> BusView {
        BusView {
            capacity: self.capacity as nat,
            closed: self.closed,
            slots: slots_view(self.slots@),
        }
    }
}

impl MessageBus {
    #[verifier::type_invariant]
    spec fn inv(self) -> bool {
        self@.wf()
    }

    /// Moves the slots out, to be changed and put back by assignment.
    fn take_slots(&mut self) -> (taken: Vec<Option<VecDeque<Message>>>)
        ensures
            slots_view(taken@) == old(self)@.slots,
            taken@.len() == old(self)@.slots.len(),
            forall|j: int|
                0 <= j < taken@.len() ==> slot_view(#[trigger] taken@[j]) == old(self)@.slots[j],
            final(self)@.capacity == old(self)@.capacity,
            final(self)@.closed == old(self)@.closed,
    {
        let mut taken: Vec<Option<VecDeque<Message>>> = Vec::new();
        assert(slots_view(taken@) =~= Seq::empty());
        proof {
            use_type_invariant(&*self);
        }
        core::mem::swap(&mut self.slots, &mut taken);
        taken
    }

    /// An open bus without subscriptions whose backlogs hold up to `capacity` messages.
    pub fn new(capacity: usize) -> (bus: MessageBus)
        requires
            capacity >= 1,
        ensures
            bus@ == BusView::empty(capacity as nat),
            bus@.wf(),
    {
        let bus = MessageBus { capacity, closed: false, slots: Vec::new() };
        assert(bus@.slots =~= Seq::empty());
        bus
    }

    /// The bound on every backlog.
    pub fn capacity(&self) -> (capacity: usize)
        ensures
            capacity == self@.capacity,
    {
        self.capacity
    }

    /// Whether the bus was closed.
    pub fn is_closed(&self) -> (closed: bool)
        ensures
            closed == self@.closed,
    {
        self.closed
    }

    /// Closes the bus: nothing more is taken, and a subscription that has
    /// nothing pending is told so the next time it asks.
    pub fn close(&mut self)
        ensures
            final(self)@ == old(self)@.close(),
            final(self)@.wf(),
    {
        proof {
            use_type_invariant(&*self);
        }
        self.closed = true;
    }

    /// The number of active subscriptions.
    pub fn active(&self) -> (n: usize)
        ensures
            n == self@.active(),
            self@.wf(),
    {
        proof {
            use_type_invariant(self);
        }
        let ghost slots = self@.slots;
        let mut n: usize = 0;
        let mut i: usize = 0;
        assert(slots.take(0) =~= Seq::empty());
        while i < self.slots.len()
            invariant
                i <= self.slots.len(),
                slots == self@.slots,
                slots.len() == self.slots.len(),
                n == count_active(slots.take(i as int)),
                n <= i,
            decreases self.slots.len() - i,
        {
            proof {
                assert(slots.take(i + 1).drop_last() =~= slots.take(i as int));
                assert(slots.take(i + 1).last() == slot_view(self.slots@[i as int]));
            }
            if self.slots[i].is_some() {
                n += 1;
            }
            i += 1;
        }
        assert(slots.take(i as int) =~= slots);
        n
    }

    /// Registers a listener at the current tail: it gets a handle and starts
    /// with nothing pending, whatever was published before.
    pub fn subscribe(&mut self) -> (id: usize)
        ensures
            id == old(self)@.next_handle(),
            final(self)@ == old(self)@.subscribe(),
            final(self)@.is_subscribed(id as int),
            final(self)@.backlog(id as int) == Seq::<MessageView>::empty(),
            final(self)@.wf(),
    {
        proof {
            use_type_invariant(&*self);
        }
        let ghost slots = self@.slots;
        let mut i: usize = 0;
        assert(slots.skip(0) =~= slots);
        while i < self.slots.len() && self.slots[i].is_some()
            invariant
                i <= self.slots.len(),
                slots == self@.slots,
                slots.len() == self.slots.len(),
                first_free(slots) == i + first_free(slots.skip(i as int)),
            decreases self.slots.len() - i,
        {
            proof {
                assert(slots.skip(i as int)[0] == slot_view(self.slots@[i as int]));
                assert(slots.skip(i as int).drop_first() =~= slots.skip(i + 1));
            }
            i += 1;
        }
        proof {
            if i < self.slots.len() {
                assert(slots.skip(i as int)[0] == slot_view(self.slots@[i as int]));
            }
        }
        let fresh: VecDeque<Message> = VecDeque::new();
        assert(views_of(fresh@) =~= Seq::<MessageView>::empty());
        let mut taken = self.take_slots();
        if i < taken.len() {
            taken.set(i, Some(fresh));
        } else {
            taken.push(Some(fresh));
        }
        let ghost after = old(self)@.subscribe();
        assert(slots_view(taken@) =~= after.slots);
        assert(after.wf());
        self.slots = taken;
        i
    }

    /// Releases a subscription: its handle is free again and what was
    /// pending for it is dropped. Other subscriptions are untouched.
    pub fn unsubscribe(&mut self, id: usize)
        ensures
            final(self)@ == old(self)@.unsubscribe(id as int),
            !final(self)@.is_subscribed(id as int),
            final(self)@.wf(),
    {
        proof {
            use_type_invariant(&*self);
        }
        if id < self.slots.len() {
            let mut taken = self.take_slots();
            taken.set(id, None);
            let ghost after = old(self)@.unsubscribe(id as int);
            assert(slots_view(taken@) =~= after.slots);
            assert(after.wf());
            self.slots = taken;
        }
    }

    /// Publishes `m` to every active subscription and says how many there
    /// were. Never waits: a full backlog drops its oldest message.
    pub fn publish(&mut self, m: &Message) -> (reached: usize)
        ensures
            final(self)@ == old(self)@.publish(m@),
            reached == old(self)@.reached(),
            final(self)@.wf(),
    {
        proof {
            use_type_invariant(&*self);
        }
        if self.closed {
            return 0;
        }
        let ghost before = self@;
        let capacity = self.capacity;
        let mut taken = self.take_slots();
        let mut reached: usize = 0;
        let mut i: usize = 0;
        assert(before.slots.take(0) =~= Seq::empty());
        while i < taken.len()
            invariant
                i <= taken.len(),
                taken.len() == before.slots.len(),
                capacity == before.capacity,
                before.wf(),
                !before.closed,
                reached == count_active(before.slots.take(i as int)),
                reached <= i,
                forall|j: int| 0 <= j < i ==> slot_view(#[trigger] taken@[j]) == before.publish(m@).slots[j],
                forall|j: int| i <= j < taken.len() ==> slot_view(#[trigger] taken@[j]) == before.slots[j],
            decreases taken.len() - i,
        {
            proof {
                assert(before.slots.take(i + 1).drop_last() =~= before.slots.take(i as int));
                assert(before.slots.take(i + 1).last() == slot_view(taken@[i as int]));
            }
            assert(slot_view(taken@[i as int]) == before.slots[i as int]);
            match &mut taken[i] {
                Some(queue) => {
                    let ghost pending = views_of(queue@);
                    if queue.len() >= capacity {
                        let _ = queue.pop_front();
                    }
                    queue.push_back(m.clone());
                    assert(views_of(queue@) =~= bounded_push(pending, m@, capacity as nat));
                    reached += 1;
                },
                None => {},
            }
            i += 1;
        }
        assert(before.slots.take(i as int) =~= before.slots);
        let ghost after = before.publish(m@);
        assert(slots_view(taken@) =~= after.slots);
        assert(after.wf());
        self.slots = taken;
        reached
    }

    /// Hands subscription `id` its next message without waiting: the oldest
    /// one pending, also where older ones were dropped and after the bus was
    /// closed; `Empty` where it has to wait; `Closed`, which ends the
    /// subscription, once a closed bus has nothing left for it.
    pub fn next(&mut self, id: usize) -> (delivery: Delivery)
        ensures
            delivery@ == old(self)@.delivery(id as int),
            final(self)@ == old(self)@.after_delivery(id as int),
            final(self)@.wf(),
    {
        proof {
            use_type_invariant(&*self);
        }
        let ghost before = self@;
        if id >= self.slots.len() {
            return Delivery::Closed;
        }
        let closed = self.closed;
        let mut taken = self.take_slots();
        assert(slot_view(taken@[id as int]) == before.slots[id as int]);
        let delivery = match &mut taken[id] {
            Some(queue) => {
                let ghost pending = views_of(queue@);
                match queue.pop_front() {
                    Some(m) => {
                        assert(views_of(queue@) =~= pending.drop_first());
                        Delivery::Message(m)
                    },
                    None => if closed {
                        Delivery::Closed
                    } else {
                        Delivery::Empty
                    },
                }
            },
            None => Delivery::Closed,
        };
        if let Delivery::Closed = delivery {
            taken.set(id, None);
        }
        let ghost after = before.after_delivery(id as int);
        assert(slots_view(taken@) =~= after.slots);
        assert(after.wf());
        self.slots = taken;
        delivery
    }
}

/// Publishing keeps a bus well formed and leaves its capacity, whether it is
/// closed, and who is subscribed as they were.
pub proof fn lemma_publish_keeps_subscriptions(bus: BusView, m: MessageView)
    requires
        bus.wf(),
    ensures
        bus.publish(m).wf(),
        bus.publish(m).closed == bus.closed,
        bus.publish(m).capacity == bus.capacity,
        forall|id: int| bus.publish(m).is_subscribed(id) == bus.is_subscribed(id),
{
}

/// What a subscription holds after a run of publishes on an open bus: the
/// newest `capacity` of what it held before followed by the run. Messages
/// are never reordered; only the oldest ones are dropped.
pub proof fn lemma_backlog_after_publishes(bus: BusView, id: int, batch: Seq<MessageView>)
    requires
        bus.wf(),
        !bus.closed,
        bus.is_subscribed(id),
    ensures
        bus.publish_all(batch).wf(),
        !bus.publish_all(batch).closed,
        bus.publish_all(batch).capacity == bus.capacity,
        bus.publish_all(batch).is_subscribed(id),
        bus.publish_all(batch).backlog(id) == newest(bus.backlog(id) + batch, bus.capacity),
    decreases batch.len(),
{
    let held = bus.backlog(id);
    if batch.len() == 0 {
        assert(held + batch =~= held);
    } else {
        let first = batch[0];
        let rest = batch.drop_first();
        let next = bus.publish(first);
        lemma_publish_keeps_subscriptions(bus, first);
        assert(next.is_subscribed(id));
        lemma_backlog_after_publishes(next, id, rest);
        let kept = bounded_push(held, first, bus.capacity);
        assert(next.backlog(id) == kept);
        assert(held.push(first) + rest =~= held + batch);
        assert(newest(kept + rest, bus.capacity) =~= newest(held + batch, bus.capacity));
    }
}

/// Live delivery: a listener that subscribed before `m` was published on
/// an open bus is handed `m` next, and stays subscribed.
pub proof fn lemma_live_delivery(bus: BusView, m: MessageView)
    requires
        bus.wf(),
        !bus.closed,
    ensures
        ({
            let id = bus.next_handle() as int;
            let after = bus.subscribe().publish(m);
            &&& after.is_subscribed(id)
            &&& after.delivery(id) == DeliveryView::Message(m)
        }),
{
    lemma_subscribe(bus);
}

/// A listener that subscribed before a run of no more than `capacity`
/// publishes holds exactly that run, in order.
pub proof fn lemma_delivery_in_order(bus: BusView, batch: Seq<MessageView>)
    requires
        bus.wf(),
        !bus.closed,
        batch.len() <= bus.capacity,
    ensures
        ({
            let id = bus.next_handle() as int;
            let after = bus.subscribe().publish_all(batch);
            &&& after.is_subscribed(id)
            &&& after.backlog(id) == batch
        }),
{
    lemma_subscribe(bus);
    let id = bus.next_handle() as int;
    lemma_backlog_after_publishes(bus.subscribe(), id, batch);
    assert(Seq::<MessageView>::empty() + batch =~= batch);
}

/// Lag resilience: where more than `capacity` messages were published
/// before a listener read any, the listener is still subscribed and is
/// handed a message next, not an error: the oldest of the newest
/// `capacity`, which is later than the first one published.
pub proof fn lemma_lag_resilience(bus: BusView, batch: Seq<MessageView>)
    requires
        bus.wf(),
        !bus.closed,
        batch.len() > bus.capacity,
    ensures
        ({
            let id = bus.next_handle() as int;
            let after = bus.subscribe().publish_all(batch);
            let skipped = batch.len() - bus.capacity;
            &&& skipped > 0
            &&& after.is_subscribed(id)
            &&& after.backlog(id) == batch.subrange(skipped, batch.len() as int)
            &&& after.delivery(id) == DeliveryView::Message(batch[skipped])
            &&& after.after_delivery(id).is_subscribed(id)
        }),
{
    lemma_subscribe(bus);
    let id = bus.next_handle() as int;
    lemma_backlog_after_publishes(bus.subscribe(), id, batch);
    assert(Seq::<MessageView>::empty() + batch =~= batch);
}

/// Closure: on a closed bus a subscription with nothing pending is told
/// `Closed` and is released by that; one with messages pending still gets them first.
pub proof fn lemma_close_resolves(bus: BusView, id: int)
    requires
        bus.wf(),
        bus.is_subscribed(id),
    ensures
        bus.backlog(id).len() == 0 ==> bus.close().delivery(id) == DeliveryView::Closed
            && !bus.close().after_delivery(id).is_subscribed(id),
        bus.backlog(id).len() > 0 ==> bus.close().delivery(id) == DeliveryView::Message(
            bus.backlog(id)[0],
        ),
{
}

/// Listeners do not disturb each other: what one subscription is handed,
/// and its release, leave every other subscription as it was.
pub proof fn lemma_listeners_are_independent(bus: BusView, id: int, other: int)
    requires
        bus.wf(),
        other != id,
    ensures
        bus.after_delivery(id).is_subscribed(other) == bus.is_subscribed(other),
        bus.unsubscribe(id).is_subscribed(other) == bus.is_subscribed(other),
        bus.is_subscribed(other) ==> bus.after_delivery(id).backlog(other) == bus.backlog(other)
            && bus.unsubscribe(id).backlog(other) == bus.backlog(other),
        bus.after_delivery(id).wf(),
        bus.unsubscribe(id).wf(),
{
}

/// Subscribing takes the first free handle, starts with nothing pending,
/// and leaves every other subscription as it was.
pub proof fn lemma_subscribe(bus: BusView)
    requires
        bus.wf(),
    ensures
        ({
            let id = bus.next_handle() as int;
            let after = bus.subscribe();
            &&& 0 <= id <= bus.slots.len()
            &&& !bus.is_subscribed(id)
            &&& after.wf()
            &&& after.closed == bus.closed
            &&& after.capacity == bus.capacity
            &&& after.is_subscribed(id)
            &&& after.backlog(id) == Seq::<MessageView>::empty()
            &&& forall|other: int|
                other != id ==> after.is_subscribed(other) == bus.is_subscribed(other) && (
                bus.is_subscribed(other) ==> after.backlog(other) == bus.backlog(other))
        }),
{
    lemma_first_free(bus.slots);
}

/// The first free index is within bounds, free where it is a slot, and
/// every slot before it is taken.
pub proof fn lemma_first_free(slots: Seq<Option<Seq<MessageView>>>)
    ensures
        first_free(slots) <= slots.len(),
        first_free(slots) < slots.len() ==> slots[first_free(slots) as int] is None,
        forall|j: int| 0 <= j < first_free(slots) ==> (#[trigger] slots[j]) is Some,
    decreases slots.len(),
{
    if slots.len() == 0 || slots[0] is None {
    } else {
        let rest = slots.drop_first();
        lemma_first_free(rest);
        assert forall|j: int| 0 <= j < first_free(slots) implies (#[trigger] slots[j]) is Some by {
            if j > 0 {
                assert(slots[j] == rest[j - 1]);
            }
        }
    }
}

} // verus!
