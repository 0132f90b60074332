//! The work queue: a bounded first-in-first-out buffer of ledger entries
//! between the producers that fill it and the workers that empty it.
//!
//! The queue itself never waits. Where a caller would have to wait (to
//! put into a full queue, to take from an empty one that is still open)
//! it is told so, and may come back once the state has changed.

use crate::ledger::Ledger;
use std::collections::VecDeque;
use vstd::prelude::*;

verus! {

/// The state of a work queue: the waiting entries, oldest first, the
/// bound on their number, and whether the producers are done.
pub struct QueueModel {
    pub items: Seq<Ledger>,
    pub capacity: nat,
    pub closed: bool,
}

impl QueueModel {
    /// The entries never outnumber the capacity.
    pub open spec fn wf(self) -> bool {
        self.items.len() <= self.capacity
    }

    /// Whether there is no room for another entry.
    pub open spec fn full(self) -> bool {
        self.items.len() >= self.capacity
    }

    /// Whether the queue takes another entry: it is open and has room.
    pub open spec fn accepts(self) -> bool {
        !self.closed && !self.full()
    }

    /// The state after an attempt to put `entry`: the entry stands at
    /// the tail where the queue accepts it, and nothing has changed
    /// where it does not.
    pub open spec fn put(self, entry: Ledger) -> QueueModel {
        if self.accepts() {
            QueueModel { items: self.items.push(entry), ..self }
        } else {
            self
        }
    }

    /// The state after an attempt to take an entry: the head is gone
    /// where there was one.
    pub open spec fn take(self) -> QueueModel {
        if self.items.len() > 0 {
            QueueModel { items: self.items.drop_first(), ..self }
        } else {
            self
        }
    }

    /// The state after the producers have declared themselves done.
    pub open spec fn close(self) -> QueueModel {
        QueueModel { closed: true, ..self }
    }

    /// The state after `event`.
    pub open spec fn step(self, event: QueueEvent) -> QueueModel {
        match event {
            QueueEvent::Put(entry) => self.put(entry),
            QueueEvent::Take => self.take(),
            QueueEvent::Close => self.close(),
        }
    }

    /// The state after `events`, one after another.
    pub open spec fn after(self, events: Seq<QueueEvent>) -> QueueModel
        decreases events.len(),
    {
        if events.len() == 0 {
            self
        } else {
            self.after(events.drop_last()).step(events.last())
        }
    }

    /// The entries that the queue accepts in the course of `events`, in
    /// the order in which they were put.
    pub open spec fn stored(self, events: Seq<QueueEvent>) -> Seq<Ledger>
        decreases events.len(),
    {
        if events.len() == 0 {
            Seq::empty()
        } else {
            let before = self.after(events.drop_last());
            let earlier = self.stored(events.drop_last());
            match events.last() {
                QueueEvent::Put(entry) => if before.accepts() {
                    earlier.push(entry)
                } else {
                    earlier
                },
                _ => earlier,
            }
        }
    }

    /// The entries that leave the queue in the course of `events`, in
    /// the order in which they were taken.
    pub open spec fn taken(self, events: Seq<QueueEvent>) -> Seq<Ledger>
        decreases events.len(),
    {
        if events.len() == 0 {
            Seq::empty()
        } else {
            let before = self.after(events.drop_last());
            let earlier = self.taken(events.drop_last());
            match events.last() {
                QueueEvent::Take => if before.items.len() > 0 {
                    earlier.push(before.items[0])
                } else {
                    earlier
                },
                _ => earlier,
            }
        }
    }
}

/// What can happen to a queue.
pub enum QueueEvent {
    /// A producer tries to put an entry.
    Put(Ledger),
    /// A worker tries to take an entry.
    Take,
    /// The producers declare themselves done.
    Close,
}

/// First in, first out: whatever happens to a queue, the entries taken
/// from it, followed by those still waiting, are the entries that
/// waited at first, followed by those stored since, in that order. The
/// queue never holds more than its capacity, and once closed it stays
/// closed and stores nothing.
pub proof fn lemma_first_in_first_out(q: QueueModel, events: Seq<QueueEvent>)
    requires
        q.wf(),
    ensures
        q.after(events).wf(),
        q.after(events).capacity == q.capacity,
        q.taken(events) + q.after(events).items == q.items + q.stored(events),
        q.closed ==> q.after(events).closed && q.stored(events).len() == 0,
    decreases events.len(),
{
    if events.len() == 0 {
        assert(q.taken(events) + q.items =~= q.items + q.stored(events));
    } else {
        let earlier = events.drop_last();
        lemma_first_in_first_out(q, earlier);
        let before = q.after(earlier);
        let whole = q.taken(earlier) + before.items;
        assert(whole == q.items + q.stored(earlier));
        match events.last() {
            QueueEvent::Put(entry) => {
                if before.accepts() {
                    assert(q.taken(events) + q.after(events).items =~= whole.push(entry));
                    assert(q.items + q.stored(events) =~= whole.push(entry));
                }
            },
            QueueEvent::Take => {
                if before.items.len() > 0 {
                    assert(q.taken(events) + q.after(events).items =~= whole);
                }
            },
            QueueEvent::Close => {},
        }
    }
}

/// A bounded queue of ledger entries.
pub struct WorkQueue {
    items: VecDeque<Ledger>,
    capacity: usize,
    closed: bool,
}

/// How an attempt to put an entry ended. An entry that was not stored
/// comes back to the caller.
#[derive(Clone, Copy, Debug, PartialEq, Eq)]
pub enum Put {
    /// The entry stands at the tail of the queue.
    Stored,
    /// The queue is full: wait for a worker to take an entry.
    Full(Ledger),
    /// The queue is closed and takes no more entries.
    Closed(Ledger),
}

/// How an attempt to take an entry ended.
#[derive(Clone, Copy, Debug, PartialEq, Eq)]
pub enum Take {
    /// The entry that stood at the head of the queue.
    Entry(Ledger),
    /// The queue is empty but open: wait for a producer.
    Empty,
    /// The queue is empty and closed: there is no more work.
    Finished,
}

impl View for WorkQueue {
    type V = QueueModel;

    closed spec fn view(&self) -> QueueModel {
        QueueModel { items: self.items@, capacity: self.capacity as nat, closed: self.closed }
    }
}

impl WorkQueue {
    /// The queue is in order: it holds no more than its capacity.
    pub open spec fn wf(&self) -> bool {
        self@.wf()
    }

    /// An empty, open queue that holds up to `capacity` entries.
    pub fn new(capacity: usize) -> (queue: WorkQueue)
        ensures
            queue.wf(),
            queue@ == (QueueModel { items: Seq::empty(), capacity: capacity as nat, closed: false }),
    {
        WorkQueue { items: VecDeque::new(), capacity, closed: false }
    }

    /// The number of waiting entries.
    pub fn len(&self) -> (n: usize)
        ensures
            n == self@.items.len(),
    {
        self.items.len()
    }

    /// The bound on the number of waiting entries.
    pub fn capacity(&self) -> (n: usize)
        ensures
            n == self@.capacity,
    {
        self.capacity
    }

    /// Whether no entry waits.
    pub fn is_empty(&self) -> (b: bool)
        ensures
            b == (self@.items.len() == 0),
    {
        self.items.len() == 0
    }

    /// Whether there is no room for another entry.
    pub fn is_full(&self) -> (b: bool)
        ensures
            b == self@.full(),
    {
        self.items.len() >= self.capacity
    }

    /// Whether the producers have declared themselves done.
    pub fn is_closed(&self) -> (b: bool)
        ensures
            b == self@.closed,
    {
        self.closed
    }

    /// Appends `entry` at the tail where the queue is open and has
    /// room; otherwise hands it back and leaves the queue as it was.
    pub fn try_put(&mut self, entry: Ledger) -> (r: Put)
        requires
            old(self).wf(),
        ensures
            final(self).wf(),
            r == if old(self)@.closed {
                Put::Closed(entry)
            } else if old(self)@.full() {
                Put::Full(entry)
            } else {
                Put::Stored
            },
            final(self)@ == old(self)@.put(entry),
    {
        if self.closed {
            Put::Closed(entry)
        } else if self.items.len() >= self.capacity {
            Put::Full(entry)
        } else {
            self.items.push_back(entry);
            Put::Stored
        }
    }

    /// Removes the entry at the head where there is one. An empty
    /// queue answers `Empty` while it is open and `Finished` once it is
    /// closed.
    pub fn try_get(&mut self) -> (r: Take)
        requires
            old(self).wf(),
        ensures
            final(self).wf(),
            r == if old(self)@.items.len() > 0 {
                Take::Entry(old(self)@.items[0])
            } else if old(self)@.closed {
                Take::Finished
            } else {
                Take::Empty
            },
            final(self)@ == old(self)@.take(),
    {
        match self.items.pop_front() {
            Some(entry) => Take::Entry(entry),
            None => if self.closed {
                Take::Finished
            } else {
                Take::Empty
            },
        }
    }

    /// Declares the producers done: the queue takes no more entries,
    /// and the workers leave once it is empty. The waiting entries stay.
    pub fn close(&mut self)
        requires
            old(self).wf(),
        ensures
            final(self).wf(),
            final(self)@ == old(self)@.close(),
    {
        self.closed = true;
    }
}

} // verus!
