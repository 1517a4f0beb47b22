use std::collections::VecDeque;
use vstd::prelude::*;

use crate::history::views;
use crate::message::{Chat, ChatView};

verus! {

/// One subscriber as the contracts see it: its handle, the messages
/// published to it and not yet received, oldest first, and how many were
/// dropped since it last received.
pub struct SubscriberView {
    pub id: u64,
    pub pending: Seq<ChatView>,
    pub lagged: u64,
}

/// One more dropped message on a lag counter that stops at its maximum.
pub open spec fn count_drop(lagged: u64) -> u64 {
    if lagged < u64::MAX {
        (lagged + 1) as u64
    } else {
        lagged
    }
}

/// A subscriber after `m` is published to it: a full queue drops its oldest
/// message and counts the drop.
pub open spec fn deliver(s: SubscriberView, m: ChatView, capacity: nat) -> SubscriberView {
    if s.pending.len() < capacity {
        SubscriberView { id: s.id, pending: s.pending.push(m), lagged: s.lagged }
    } else {
        SubscriberView { id: s.id, pending: s.pending.push(m).drop_first(), lagged: count_drop(s.lagged) }
    }
}

/// All subscribers after `m` is published.
pub open spec fn publish_to_all(subs: Seq<SubscriberView>, m: ChatView, capacity: nat) -> Seq<SubscriberView> {
    subs.map_values(|s: SubscriberView| deliver(s, m, capacity))
}

/// A published message reaches every subscriber of the moment: each keeps
/// its handle and has the message last in its queue.
pub proof fn lemma_publish_reaches_all(subs: Seq<SubscriberView>, m: ChatView, capacity: nat)
    requires
        capacity > 0,
    ensures
        publish_to_all(subs, m, capacity).len() == subs.len(),
        forall|i: int| 0 <= i < subs.len() ==> (#[trigger] publish_to_all(subs, m, capacity)[i]).id == subs[i].id
            && publish_to_all(subs, m, capacity)[i].pending.last() == m,
{
}

/// Messages are queued for each subscriber in the order they were
/// published: a subscriber with room for two receives both after what it
/// already had, in order, and loses nothing.
pub proof fn lemma_publish_order(subs: Seq<SubscriberView>, m1: ChatView, m2: ChatView, capacity: nat)
    ensures
        forall|i: int| 0 <= i < subs.len() && subs[i].pending.len() + 2 <= capacity ==> (
            #[trigger] publish_to_all(publish_to_all(subs, m1, capacity), m2, capacity)[i]).pending
            == subs[i].pending + seq![m1, m2]
            && publish_to_all(publish_to_all(subs, m1, capacity), m2, capacity)[i].lagged == subs[i].lagged,
{
    assert forall|i: int| 0 <= i < subs.len() && subs[i].pending.len() + 2 <= capacity implies (
        #[trigger] publish_to_all(publish_to_all(subs, m1, capacity), m2, capacity)[i]).pending
        == subs[i].pending + seq![m1, m2] by {
        assert(subs[i].pending.push(m1).push(m2) =~= subs[i].pending + seq![m1, m2]);
    }
}

/// Lagging is each subscriber's own: a full queue drops its oldest message
/// and counts it, while every other subscriber just gains the message.
pub proof fn lemma_lag_per_subscriber(subs: Seq<SubscriberView>, m: ChatView, capacity: nat)
    requires
        capacity > 0,
        forall|i: int| 0 <= i < subs.len() ==> (#[trigger] subs[i]).pending.len() <= capacity,
    ensures
        forall|i: int| 0 <= i < subs.len() ==> {
            let after = #[trigger] publish_to_all(subs, m, capacity)[i];
            if subs[i].pending.len() == capacity {
                after.pending == subs[i].pending.drop_first().push(m) && after.lagged == count_drop(subs[i].lagged)
            } else {
                after.pending == subs[i].pending.push(m) && after.lagged == subs[i].lagged
            }
        },
{
    assert forall|i: int| 0 <= i < subs.len() && subs[i].pending.len() == capacity implies
        (#[trigger] publish_to_all(subs, m, capacity)[i]).pending == subs[i].pending.drop_first().push(m) by {
        assert(subs[i].pending.push(m).drop_first() =~= subs[i].pending.drop_first().push(m));
    }
}

/// What a subscriber gets when it asks for its next message.
pub enum Delivery {
    /// The oldest message still queued for it.
    Message(Chat),
    /// This many messages were dropped because it fell behind; the counter is reset.
    Lagged(u64),
    /// Nothing is queued.
    Empty,
    /// No subscriber has this handle.
    Unknown,
}

/// A subscriber after it asks for its next message.
pub open spec fn receive(s: SubscriberView) -> SubscriberView {
    if s.lagged > 0 {
        SubscriberView { id: s.id, pending: s.pending, lagged: 0 }
    } else if s.pending.len() > 0 {
        SubscriberView { id: s.id, pending: s.pending.drop_first(), lagged: 0 }
    } else {
        s
    }
}

/// What the subscriber is handed when it asks for its next message.
pub open spec fn received(s: SubscriberView, d: Delivery) -> bool {
    if s.lagged > 0 {
        d == Delivery::Lagged(s.lagged)
    } else if s.pending.len() > 0 {
        d matches Delivery::Message(c) && c@ == s.pending[0]
    } else {
        d == Delivery::Empty
    }
}

struct Subscriber {
    id: u64,
    pending: VecDeque<Chat>,
    lagged: u64,
}

impl Subscriber {
    spec fn view(&self) -> SubscriberView {
        SubscriberView { id: self.id, pending: views(self.pending@), lagged: self.lagged }
    }

    fn deliver(&mut self, m: Chat, capacity: usize)
        requires
            capacity > 0,
            old(self).pending@.len() <= capacity,
        ensures
            final(self).view() == deliver(old(self).view(), m@, capacity as nat),
            final(self).pending@.len() <= capacity,
    {
        let ghost before = self.pending@;
        let ghost mv = m@;
        if self.pending.len() >= capacity {
            self.pending.pop_front();
            self.lagged = if self.lagged < u64::MAX {
                self.lagged + 1
            } else {
                self.lagged
            };
            self.pending.push_back(m);
            assert(self.pending@ =~= before.push(m).drop_first());
            assert(views(self.pending@) =~= views(before).push(mv).drop_first());
        } else {
            self.pending.push_back(m);
            assert(views(self.pending@) =~= views(before).push(mv));
        }
    }
}

/// The single fan-out point: every published message goes to every current
/// subscriber's own bounded queue. A full queue drops its oldest message
/// instead of holding up the publisher.
pub struct Hub {
    capacity: usize,
    next_id: u64,
    subscribers: Vec<Subscriber>,
}

impl Hub {
    /// The current subscribers, in the order they subscribed.
    pub closed spec fn subscribers(&self) -> Seq<SubscriberView> {
        self.subscribers@.map_values(|s: Subscriber| s.view())
    }

    /// How many messages each subscriber's queue holds at most.
    pub closed spec fn capacity(&self) -> nat {
        self.capacity as nat
    }

    /// Capacity positive, queues within it, handles distinct and below the
    /// next one to be handed out.
    pub closed spec fn well_formed(&self) -> bool {
        &&& self.capacity > 0
        &&& forall|i: int| 0 <= i < self.subscribers@.len() ==> (
            #[trigger] self.subscribers@[i]).pending@.len() <= self.capacity
        &&& forall|i: int| 0 <= i < self.subscribers@.len() ==> (
            #[trigger] self.subscribers@[i]).id < self.next_id
        &&& forall|i: int, j: int|
            0 <= i < j < self.subscribers@.len() ==> (#[trigger] self.subscribers@[i]).id != (
            #[trigger] self.subscribers@[j]).id
    }

    /// Whether a handle is left to hand out.
    pub closed spec fn can_subscribe(&self) -> bool {
        self.next_id < u64::MAX
    }

    /// Whether `id` is the handle of a current subscriber.
    pub open spec fn has(&self, id: u64) -> bool {
        exists|i: int| 0 <= i < self.subscribers().len() && (#[trigger] self.subscribers()[i]).id == id
    }

    /// A hub without subscribers whose queues hold `capacity` messages each.
    pub fn new(capacity: usize) -> (r: Hub)
        requires
            capacity > 0,
        ensures
            r.well_formed(),
            r.capacity() == capacity,
            r.subscribers() == Seq::<SubscriberView>::empty(),
            r.can_subscribe(),
    {
        let r = Hub { capacity, next_id: 0, subscribers: Vec::new() };
        assert(r.subscribers() =~= Seq::<SubscriberView>::empty());
        r
    }

    proof fn lemma_views(&self)
        ensures
            self.subscribers().len() == self.subscribers@.len(),
            forall|i: int| 0 <= i < self.subscribers@.len() ==> #[trigger] self.subscribers()[i] == self.subscribers@[i].view(),
    {
    }

    fn position(&self, id: u64) -> (r: Option<usize>)
        requires
            self.well_formed(),
        ensures
            match r {
                Some(i) => i < self.subscribers().len() && self.subscribers()[i as int].id == id,
                None => !self.has(id),
            },
    {
        proof {
            self.lemma_views();
        }
        let mut i: usize = 0;
        while i < self.subscribers.len()
            invariant
                0 <= i <= self.subscribers@.len(),
                self.subscribers().len() == self.subscribers@.len(),
                forall|k: int| 0 <= k < self.subscribers@.len() ==> #[trigger] self.subscribers()[k] == self.subscribers@[k].view(),
                forall|k: int| 0 <= k < i ==> (#[trigger] self.subscribers()[k]).id != id,
            decreases self.subscribers@.len() - i,
        {
            if self.subscribers[i].id == id {
                return Some(i);
            }
            i += 1;
        }
        None
    }

    /// Adds a subscriber with an empty queue and returns its handle, which no
    /// current subscriber has. `None`, with nothing changed, once every
    /// handle has been handed out.
    pub fn subscribe(&mut self) -> (r: Option<u64>)
        requires
            old(self).well_formed(),
        ensures
            final(self).well_formed(),
            final(self).capacity() == old(self).capacity(),
            r is Some <==> old(self).can_subscribe(),
            match r {
                Some(id) => !old(self).has(id) && final(self).subscribers() == old(self).subscribers().push(
                    SubscriberView { id, pending: Seq::empty(), lagged: 0 },
                ),
                None => final(self).subscribers() == old(self).subscribers(),
            },
    {
        if self.next_id == u64::MAX {
            return None;
        }
        let id = self.next_id;
        proof {
            self.lemma_views();
        }
        let ghost before = self.subscribers@;
        self.subscribers.push(Subscriber { id, pending: VecDeque::new(), lagged: 0 });
        self.next_id = id + 1;
        proof {
            let sv = SubscriberView { id, pending: Seq::empty(), lagged: 0 };
            assert(views(Seq::<Chat>::empty()) =~= Seq::<ChatView>::empty());
            assert(self.subscribers() =~= old(self).subscribers().push(sv));
            assert forall|i: int| 0 <= i < old(self).subscribers().len() implies (#[trigger] old(
                self,
            ).subscribers()[i]).id != id by {
                assert(old(self).subscribers()[i] == before[i].view());
            }
        }
        Some(id)
    }

    /// Removes the subscriber with handle `id` and its queue; `false`, with
    /// nothing changed, if there is none.
    pub fn unsubscribe(&mut self, id: u64) -> (r: bool)
        requires
            old(self).well_formed(),
        ensures
            final(self).well_formed(),
            final(self).capacity() == old(self).capacity(),
            final(self).can_subscribe() == old(self).can_subscribe(),
            r == old(self).has(id),
            r ==> exists|i: int|
                0 <= i < old(self).subscribers().len() && (#[trigger] old(self).subscribers()[i]).id == id
                    && final(self).subscribers() == old(self).subscribers().remove(i),
            !r ==> final(self).subscribers() == old(self).subscribers(),
            !final(self).has(id),
    {
        match self.position(id) {
            None => false,
            Some(i) => {
                proof {
                    self.lemma_views();
                }
                let ghost before = self.subscribers@;
                self.subscribers.remove(i);
                proof {
                    assert(self.subscribers@ =~= before.remove(i as int));
                    assert(self.subscribers() =~= old(self).subscribers().remove(i as int));
                    if self.has(id) {
                        let j = choose|j: int| 0 <= j < self.subscribers().len() && (#[trigger] self.subscribers()[j]).id == id;
                        if j < i {
                            assert(before[j].id == before[i as int].id);
                        } else {
                            assert(before[j + 1].id == before[i as int].id);
                        }
                    }
                }
                true
            },
        }
    }

    /// Delivers `m` to every current subscriber's queue, dropping the oldest
    /// queued message of each full one, and returns how many subscribers
    /// there are. Never waits on a subscriber.
    pub fn publish(&mut self, m: Chat) -> (r: usize)
        requires
            old(self).well_formed(),
        ensures
            final(self).well_formed(),
            final(self).capacity() == old(self).capacity(),
            final(self).can_subscribe() == old(self).can_subscribe(),
            final(self).subscribers() == publish_to_all(old(self).subscribers(), m@, old(self).capacity()),
            r == old(self).subscribers().len(),
    {
        let n = self.subscribers.len();
        let mut i: usize = 0;
        let ghost before = self.subscribers@;
        while i < n
            invariant
                self.capacity == old(self).capacity,
                self.capacity > 0,
                self.next_id == old(self).next_id,
                n == before.len(),
                before == old(self).subscribers@,
                self.subscribers@.len() == n,
                0 <= i <= n,
                forall|k: int| 0 <= k < n ==> (#[trigger] self.subscribers@[k]).pending@.len() <= self.capacity,
                forall|k: int| 0 <= k < n ==> (#[trigger] self.subscribers@[k]).id == before[k].id,
                forall|k: int| 0 <= k < i ==> (#[trigger] self.subscribers@[k]).view() == deliver(before[k].view(), m@, self.capacity as nat),
                forall|k: int| i <= k < n ==> (#[trigger] self.subscribers@[k]) == before[k],
            decreases n - i,
        {
            let c = m.clone();
            self.subscribers[i].deliver(c, self.capacity);
            i += 1;
        }
        proof {
            assert(self.subscribers() =~= publish_to_all(old(self).subscribers(), m@, self.capacity as nat));
        }
        n
    }

    /// Hands the subscriber `id` what is next for it: the count of dropped
    /// messages if it lagged (and resets it), else its oldest queued message
    /// (and removes it), else `Empty`. `Unknown`, with nothing changed, if no
    /// subscriber has that handle.
    pub fn recv(&mut self, id: u64) -> (r: Delivery)
        requires
            old(self).well_formed(),
        ensures
            final(self).well_formed(),
            final(self).capacity() == old(self).capacity(),
            final(self).can_subscribe() == old(self).can_subscribe(),
            !old(self).has(id) ==> r == Delivery::Unknown && final(self).subscribers() == old(self).subscribers(),
            forall|i: int| 0 <= i < old(self).subscribers().len() && (#[trigger] old(self).subscribers()[i]).id == id
                ==> received(old(self).subscribers()[i], r)
                && final(self).subscribers() == old(self).subscribers().update(i, receive(old(self).subscribers()[i])),
    {
        match self.position(id) {
            None => Delivery::Unknown,
            Some(i) => {
                proof {
                    self.lemma_views();
                }
                let ghost before = self.subscribers@;
                let lagged = self.subscribers[i].lagged;
                let r = if lagged > 0 {
                    self.subscribers[i].lagged = 0;
                    Delivery::Lagged(lagged)
                } else {
                    match self.subscribers[i].pending.pop_front() {
                        Some(c) => Delivery::Message(c),
                        None => Delivery::Empty,
                    }
                };
                proof {
                    let s = before[i as int];
                    assert(self.subscribers@[i as int].view() == receive(s.view())) by {
                        if lagged == 0 && s.pending@.len() > 0 {
                            assert(views(self.subscribers@[i as int].pending@) =~= views(s.pending@).drop_first());
                        }
                    }
                    assert(self.subscribers() =~= old(self).subscribers().update(i as int, receive(old(self).subscribers()[i as int])));
                    assert forall|j: int| 0 <= j < old(self).subscribers().len() && (#[trigger] old(self).subscribers()[j]).id == id implies j == i by {
                        assert(before[j].id == before[i as int].id);
                    }
                }
                r
            },
        }
    }

    /// How many subscribers there are.
    pub fn subscriber_count(&self) -> (r: usize)
        ensures
            r == self.subscribers().len(),
    {
        self.subscribers.len()
    }

    /// How many messages each subscriber's queue holds at most.
    pub fn queue_capacity(&self) -> (r: usize)
        ensures
            r == self.capacity(),
    {
        self.capacity
    }
}

} // verus!
