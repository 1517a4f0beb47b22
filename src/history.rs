use std::collections::VecDeque;
use vstd::prelude::*;

use crate::message::{Chat, ChatView};

verus! {

/// The last `n` elements of `s`, or all of it when it is shorter.
pub open spec fn keep_last(s: Seq<ChatView>, n: nat) -> Seq<ChatView> {
    if s.len() <= n {
        s
    } else {
        s.subrange(s.len() - n, s.len() as int)
    }
}

/// The contents of a history after appending each of `ms` in turn to `h`.
pub open spec fn appended(h: Seq<ChatView>, ms: Seq<ChatView>, n: nat) -> Seq<ChatView>
    decreases ms.len(),
{
    if ms.len() == 0 {
        h
    } else {
        keep_last(appended(h, ms.drop_last(), n).push(ms.last()), n)
    }
}

pub open spec fn views(s: Seq<Chat>) -> Seq<ChatView> {
    s.map_values(|c: Chat| c@)
}

/// Trimming to the last `n` before an append loses nothing that trimming
/// after it would keep.
pub proof fn lemma_keep_last_push(s: Seq<ChatView>, m: ChatView, n: nat)
    ensures
        keep_last(keep_last(s, n).push(m), n) == keep_last(s.push(m), n),
        keep_last(s, n).len() <= n,
{
    if s.len() > n {
        assert(keep_last(keep_last(s, n).push(m), n) =~= keep_last(s.push(m), n));
    }
}

/// First in, first out: appending messages one by one to a history of at
/// most `n` messages leaves exactly the last `n` of everything inserted, so
/// the earliest inserted are the ones evicted, and never more than `n` stay.
pub proof fn lemma_history_fifo(h: Seq<ChatView>, ms: Seq<ChatView>, n: nat)
    requires
        h.len() <= n,
    ensures
        appended(h, ms, n) == keep_last(h + ms, n),
        appended(h, ms, n).len() <= n,
    decreases ms.len(),
{
    if ms.len() > 0 {
        lemma_history_fifo(h, ms.drop_last(), n);
        lemma_keep_last_push(h + ms.drop_last(), ms.last(), n);
        assert((h + ms.drop_last()).push(ms.last()) =~= h + ms);
    }
}

/// A bounded, ordered store of the most recent messages, oldest first.
pub struct HistoryRing {
    limit: usize,
    items: VecDeque<Chat>,
}

impl HistoryRing {
    /// The retained messages, oldest first.
    pub closed spec fn messages(&self) -> Seq<ChatView> {
        views(self.items@)
    }

    /// The most messages it retains.
    pub closed spec fn capacity(&self) -> nat {
        self.limit as nat
    }

    pub closed spec fn well_formed(&self) -> bool {
        self.items@.len() <= self.limit
    }

    /// An empty history that retains at most `limit` messages.
    pub fn new(limit: usize) -> (r: HistoryRing)
        ensures
            r.well_formed(),
            r.messages() == Seq::<ChatView>::empty(),
            r.capacity() == limit,
    {
        let r = HistoryRing { limit, items: VecDeque::new() };
        assert(r.messages() =~= Seq::<ChatView>::empty());
        r
    }

    /// Inserts `m` at the tail, evicting the oldest message first when the
    /// history is full.
    pub fn append(&mut self, m: Chat)
        requires
            old(self).well_formed(),
        ensures
            final(self).well_formed(),
            final(self).capacity() == old(self).capacity(),
            final(self).messages() == keep_last(old(self).messages().push(m@), old(self).capacity()),
    {
        if self.limit == 0 {
            assert(keep_last(old(self).messages().push(m@), 0) =~= Seq::<ChatView>::empty());
            assert(self.messages() =~= Seq::<ChatView>::empty());
            return;
        }
        let ghost before = self.items@;
        if self.items.len() >= self.limit {
            self.items.pop_front();
        }
        self.items.push_back(m);
        proof {
            if before.len() >= self.limit {
                assert(self.items@ =~= before.drop_first().push(m));
            } else {
                assert(self.items@ =~= before.push(m));
            }
            assert(self.messages() =~= keep_last(views(before).push(m@), self.limit as nat));
        }
    }

    /// Appends each of `messages` in order, as loading stored history does.
    pub fn seed(&mut self, messages: Vec<Chat>)
        requires
            old(self).well_formed(),
        ensures
            final(self).well_formed(),
            final(self).capacity() == old(self).capacity(),
            final(self).messages() == keep_last(
                old(self).messages() + views(messages@),
                old(self).capacity(),
            ),
    {
        let ghost start = self.messages();
        let n = messages.len();
        let mut i: usize = 0;
        let mut rest = messages;
        proof {
            assert(start + views(rest@).subrange(0, 0) =~= start);
        }
        while i < n
            invariant
                self.well_formed(),
                self.capacity() == old(self).capacity(),
                start == old(self).messages(),
                start.len() <= self.capacity(),
                0 <= i <= n,
                n == messages@.len(),
                rest@ == messages@,
                self.messages() == keep_last(
                    start + views(messages@).subrange(0, i as int),
                    self.capacity(),
                ),
            decreases n - i,
        {
            let m = rest[i].clone();
            let ghost prefix = start + views(messages@).subrange(0, i as int);
            self.append(m);
            proof {
                lemma_keep_last_push(prefix, messages@[i as int]@, self.capacity());
                assert(prefix.push(messages@[i as int]@) =~= start + views(messages@).subrange(
                    0,
                    i + 1,
                ));
            }
            i += 1;
        }
        proof {
            assert(views(messages@).subrange(0, n as int) =~= views(messages@));
        }
    }

    /// A point-in-time copy of the retained messages, oldest first.
    pub fn snapshot(&self) -> (r: Vec<Chat>)
        ensures
            views(r@) == self.messages(),
    {
        let mut r: Vec<Chat> = Vec::new();
        let n = self.items.len();
        let mut i: usize = 0;
        while i < n
            invariant
                0 <= i <= n,
                n == self.items@.len(),
                views(r@) == views(self.items@).subrange(0, i as int),
            decreases n - i,
        {
            let c = self.items[i].clone();
            let ghost r0 = r@;
            let ghost cv = c@;
            assert(cv == self.items@[i as int]@);
            r.push(c);
            proof {
                assert(views(r@) =~= views(r0).push(cv));
                assert(views(r@) =~= views(self.items@).subrange(0, i + 1));
            }
            i += 1;
        }
        proof {
            assert(views(self.items@).subrange(0, n as int) =~= views(self.items@));
        }
        r
    }

    /// How many messages are retained.
    pub fn len(&self) -> (r: usize)
        ensures
            r == self.messages().len(),
    {
        self.items.len()
    }

    /// The most messages it retains.
    pub fn limit(&self) -> (r: usize)
        ensures
            r == self.capacity(),
    {
        self.limit
    }
}

} // verus!
