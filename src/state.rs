use vstd::prelude::*;

use crate::history::{keep_last, views, HistoryRing};
use crate::hub::{publish_to_all, received, receive, Delivery, Hub, SubscriberView};
use crate::message::{admitted, Chat, ChatView, ValidationError};

verus! {

/// All subscribers after each of `ms` is published in turn.
pub open spec fn publish_each(subs: Seq<SubscriberView>, ms: Seq<ChatView>, capacity: nat) -> Seq<SubscriberView>
    decreases ms.len(),
{
    if ms.len() == 0 {
        subs
    } else {
        publish_to_all(publish_each(subs, ms.drop_last(), capacity), ms.last(), capacity)
    }
}

/// No gap between replay and live delivery: a subscriber that joined with an
/// empty queue, and then saw no more messages published than its queue
/// holds, has queued exactly those messages, in order, and lost none. With
/// the history replayed at join, it has seen every message accepted since.
pub proof fn lemma_no_gap(subs: Seq<SubscriberView>, i: int, ms: Seq<ChatView>, capacity: nat)
    requires
        0 <= i < subs.len(),
        subs[i].pending.len() == 0,
        subs[i].lagged == 0,
        ms.len() <= capacity,
    ensures
        publish_each(subs, ms, capacity).len() == subs.len(),
        publish_each(subs, ms, capacity)[i] == (SubscriberView { id: subs[i].id, pending: ms, lagged: 0 }),
    decreases ms.len(),
{
    if ms.len() > 0 {
        lemma_no_gap(subs, i, ms.drop_last(), capacity);
        assert(ms.drop_last().push(ms.last()) =~= ms);
    } else {
        assert(subs[i].pending =~= ms);
    }
}

/// The shared state of the chat: the history of recent messages and the hub
/// that fans new ones out to every connected session.
pub struct AppState {
    history: HistoryRing,
    hub: Hub,
}

impl AppState {
    /// The retained history, oldest first.
    pub closed spec fn history(&self) -> Seq<ChatView> {
        self.history.messages()
    }

    /// The most messages the history retains.
    pub closed spec fn history_limit(&self) -> nat {
        self.history.capacity()
    }

    /// The subscribed sessions' queues.
    pub closed spec fn subscribers(&self) -> Seq<SubscriberView> {
        self.hub.subscribers()
    }

    /// How many messages each session's queue holds at most.
    pub closed spec fn channel_capacity(&self) -> nat {
        self.hub.capacity()
    }

    pub closed spec fn well_formed(&self) -> bool {
        self.history.well_formed() && self.hub.well_formed() && self.history.messages().len() <= self.history.capacity()
    }

    /// Whether a session can still join.
    pub closed spec fn can_join(&self) -> bool {
        self.hub.can_subscribe()
    }

    /// Whether `id` is the handle of a subscribed session.
    pub open spec fn has(&self, id: u64) -> bool {
        exists|i: int| 0 <= i < self.subscribers().len() && (#[trigger] self.subscribers()[i]).id == id
    }

    /// An empty state: a history of at most `history_limit` messages and
    /// session queues of `channel_capacity` messages each.
    pub fn new(history_limit: usize, channel_capacity: usize) -> (r: AppState)
        requires
            channel_capacity > 0,
        ensures
            r.well_formed(),
            r.history() == Seq::<ChatView>::empty(),
            r.subscribers() == Seq::<SubscriberView>::empty(),
            r.history_limit() == history_limit,
            r.channel_capacity() == channel_capacity,
            r.can_join(),
    {
        AppState { history: HistoryRing::new(history_limit), hub: Hub::new(channel_capacity) }
    }

    /// Appends stored messages to the history, oldest first, keeping the
    /// last `history_limit`; nothing is published.
    pub fn load_history(&mut self, messages: Vec<Chat>)
        requires
            old(self).well_formed(),
        ensures
            final(self).well_formed(),
            final(self).history() == keep_last(old(self).history() + views(messages@), old(self).history_limit()),
            final(self).subscribers() == old(self).subscribers(),
            final(self).history_limit() == old(self).history_limit(),
            final(self).channel_capacity() == old(self).channel_capacity(),
            final(self).can_join() == old(self).can_join(),
    {
        self.history.seed(messages);
    }

    /// Records an accepted message in the history and publishes it to every
    /// subscribed session; returns how many sessions it was queued for.
    pub fn add_message(&mut self, chat: Chat) -> (r: usize)
        requires
            old(self).well_formed(),
        ensures
            final(self).well_formed(),
            final(self).history() == keep_last(old(self).history().push(chat@), old(self).history_limit()),
            final(self).subscribers() == publish_to_all(old(self).subscribers(), chat@, old(self).channel_capacity()),
            final(self).history_limit() == old(self).history_limit(),
            final(self).channel_capacity() == old(self).channel_capacity(),
            final(self).can_join() == old(self).can_join(),
            r == old(self).subscribers().len(),
    {
        let copy = chat.clone();
        self.history.append(copy);
        self.hub.publish(chat)
    }

    /// Validates the wire message `raw`, stamped with `now`, and on success
    /// adds it as `add_message` does. A rejected message changes nothing: it
    /// is neither stored nor published.
    pub fn submit(&mut self, raw: &str, now: i64) -> (r: Result<usize, ValidationError>)
        requires
            old(self).well_formed(),
        ensures
            final(self).well_formed(),
            final(self).history_limit() == old(self).history_limit(),
            final(self).channel_capacity() == old(self).channel_capacity(),
            final(self).can_join() == old(self).can_join(),
            match admitted(raw@, now) {
                Ok(c) => r == Ok::<usize, ValidationError>(old(self).subscribers().len() as usize)
                    && final(self).history() == keep_last(old(self).history().push(c), old(self).history_limit())
                    && final(self).subscribers() == publish_to_all(old(self).subscribers(), c, old(self).channel_capacity()),
                Err(e) => r == Err::<usize, ValidationError>(e) && final(self).history() == old(self).history()
                    && final(self).subscribers() == old(self).subscribers(),
            },
    {
        match Chat::accept(raw, now) {
            Ok(c) => Ok(self.add_message(c)),
            Err(e) => Err(e),
        }
    }

    /// Subscribes a new session and, in the same step, takes the history it
    /// is to replay: the snapshot is the whole history, oldest first, and the
    /// session's queue starts empty, so every later message reaches it live.
    /// `None`, with nothing changed, once every handle has been handed out.
    pub fn join(&mut self) -> (r: Option<(u64, Vec<Chat>)>)
        requires
            old(self).well_formed(),
        ensures
            final(self).well_formed(),
            final(self).history() == old(self).history(),
            final(self).history_limit() == old(self).history_limit(),
            final(self).channel_capacity() == old(self).channel_capacity(),
            r is Some <==> old(self).can_join(),
            match r {
                Some((id, replay)) => !old(self).has(id) && views(replay@) == old(self).history()
                    && final(self).subscribers() == old(self).subscribers().push(
                    SubscriberView { id, pending: Seq::empty(), lagged: 0 },
                ),
                None => final(self).subscribers() == old(self).subscribers(),
            },
    {
        match self.hub.subscribe() {
            Some(id) => Some((id, self.history.snapshot())),
            None => None,
        }
    }

    /// Ends the subscription `id` and drops its queue; `false`, with nothing
    /// changed, if there is none.
    pub fn leave(&mut self, id: u64) -> (r: bool)
        requires
            old(self).well_formed(),
        ensures
            final(self).well_formed(),
            final(self).history() == old(self).history(),
            final(self).history_limit() == old(self).history_limit(),
            final(self).channel_capacity() == old(self).channel_capacity(),
            final(self).can_join() == old(self).can_join(),
            r == old(self).has(id),
            r ==> exists|i: int|
                0 <= i < old(self).subscribers().len() && (#[trigger] old(self).subscribers()[i]).id == id
                    && final(self).subscribers() == old(self).subscribers().remove(i),
            !r ==> final(self).subscribers() == old(self).subscribers(),
            !final(self).has(id),
    {
        let r = self.hub.unsubscribe(id);
        proof {
            if old(self).hub.has(id) {
                let i = choose|i: int| 0 <= i < old(self).hub.subscribers().len() && (#[trigger] old(self).hub.subscribers()[i]).id == id;
                assert(old(self).subscribers()[i].id == id);
            }
            if old(self).has(id) {
                let i = choose|i: int| 0 <= i < old(self).subscribers().len() && (#[trigger] old(self).subscribers()[i]).id == id;
                assert(old(self).hub.subscribers()[i].id == id);
            }
            if r {
                let i = choose|i: int| 0 <= i < old(self).hub.subscribers().len() && (#[trigger] old(self).hub.subscribers()[i]).id == id
                    && self.hub.subscribers() == old(self).hub.subscribers().remove(i);
                assert(old(self).subscribers()[i].id == id);
            }
        }
        r
    }

    /// The next thing for session `id`, as `Hub::recv` gives it.
    pub fn recv(&mut self, id: u64) -> (r: Delivery)
        requires
            old(self).well_formed(),
        ensures
            final(self).well_formed(),
            final(self).history() == old(self).history(),
            final(self).history_limit() == old(self).history_limit(),
            final(self).channel_capacity() == old(self).channel_capacity(),
            final(self).can_join() == old(self).can_join(),
            !old(self).has(id) ==> r == Delivery::Unknown && final(self).subscribers() == old(self).subscribers(),
            forall|i: int| 0 <= i < old(self).subscribers().len() && (#[trigger] old(self).subscribers()[i]).id == id
                ==> received(old(self).subscribers()[i], r)
                && final(self).subscribers() == old(self).subscribers().update(i, receive(old(self).subscribers()[i])),
    {
        self.hub.recv(id)
    }

    /// A point-in-time copy of the history, oldest first. Every message in
    /// it is trimmed, non-empty and within its bounds.
    pub fn get_history(&self) -> (r: Vec<Chat>)
        ensures
            views(r@) == self.history(),
            forall|i: int| 0 <= i < r@.len() ==> (#[trigger] r@[i])@.well_formed(),
    {
        let r = self.history.snapshot();
        let n = r.len();
        let mut i: usize = 0;
        while i < n
            invariant
                n == r@.len(),
                0 <= i <= n,
                forall|k: int| 0 <= k < i ==> (#[trigger] r@[k])@.well_formed(),
            decreases n - i,
        {
            let c = &r[i];
            proof {
                use_type_invariant(c);
            }
            i += 1;
        }
        r
    }

    /// How many sessions are subscribed.
    pub fn subscriber_count(&self) -> (r: usize)
        ensures
            r == self.subscribers().len(),
    {
        self.hub.subscriber_count()
    }
}

} // verus!
