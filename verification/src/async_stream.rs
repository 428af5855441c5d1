//! Event streams: the subscribers of a stream, and the event queues that
//! carry stream events from worker threads to the JS thread.
//!
//! `AsyncStream` keeps the subscribers of a stream under distinct ids, in
//! subscription order; a `Subscription` removes its subscriber when it is
//! unsubscribed. `EventQueue` is a first-in, first-out queue owned by one
//! thread; `ThreadSafeEventQueue` shares one queue between threads behind a
//! lock.

use crate::handles::{Function, Root};
use std::marker::PhantomData;
use vstd::prelude::*;
use vstd::rwlock::RwLock;
use vstd::rwlock::RwLockPredicate;

verus! {

/// The entries of `s` whose id is not `id`, in order.
pub open spec fn without_id<C>(s: Seq<(u64, C)>, id: u64) -> Seq<(u64, C)>
    decreases s.len(),
{
    if s.len() == 0 {
        Seq::empty()
    } else if s.last().0 == id {
        without_id(s.drop_last(), id)
    } else {
        without_id(s.drop_last(), id).push(s.last())
    }
}

/// The subscribers of a stream: (id, callback) pairs in subscription order,
/// and the id the next subscription receives.
pub struct Subscribers<C> {
    entries: Vec<(u64, C)>,
    next_id: u64,
}

impl<C> Subscribers<C> {
    pub closed spec fn spec_entries(&self) -> Seq<(u64, C)> {
        self.entries@
    }

    pub closed spec fn spec_next_id(&self) -> u64 {
        self.next_id
    }

    /// The ids are distinct and all below the next one, which is at least 1.
    pub open spec fn wf(&self) -> bool {
        &&& self.spec_next_id() >= 1
        &&& forall|i: int, j: int|
            0 <= i < j < self.spec_entries().len() ==> self.spec_entries()[i].0 != self.spec_entries()[j].0
        &&& forall|i: int| 0 <= i < self.spec_entries().len() ==> #[trigger] self.spec_entries()[i].0 < self.spec_next_id()
    }

    /// No subscriber; the first id is 1.
    pub fn new() -> (r: Self)
        ensures
            r.wf(),
            r.spec_entries() == Seq::<(u64, C)>::empty(),
            r.spec_next_id() == 1,
    {
        Subscribers { entries: Vec::new(), next_id: 1 }
    }

    /// Adds a subscriber under the next id, and returns the id; `None`, with
    /// nothing changed, once the ids are exhausted.
    pub fn subscribe(&mut self, callback: C) -> (r: Option<u64>)
        requires
            old(self).wf(),
        ensures
            final(self).wf(),
            old(self).spec_next_id() < u64::MAX ==> r == Some(old(self).spec_next_id())
                && final(self).spec_entries() == old(self).spec_entries().push((old(self).spec_next_id(), callback))
                && final(self).spec_next_id() == old(self).spec_next_id() + 1,
            old(self).spec_next_id() == u64::MAX ==> r is None && final(self).spec_entries()
                == old(self).spec_entries() && final(self).spec_next_id() == old(self).spec_next_id(),
    {
        if self.next_id == u64::MAX {
            return None;
        }
        let id = self.next_id;
        let ghost old_e = self.entries@;
        assert(old_e == old(self).spec_entries());
        self.entries.push((id, callback));
        self.next_id = id + 1;
        assert forall|i: int, j: int| 0 <= i < j < self.entries@.len() implies self.entries@[i].0
            != self.entries@[j].0 by {
            assert(old(self).spec_entries()[i].0 < id);
            if j < old_e.len() {
                assert(old(self).spec_entries()[i].0 != old(self).spec_entries()[j].0);
            }
        }
        assert forall|i: int| 0 <= i < self.entries@.len() implies #[trigger] self.entries@[i].0 < self.next_id by {
            if i < old_e.len() {
                assert(old(self).spec_entries()[i].0 < id);
            }
        }
        Some(id)
    }

    /// Removes the subscriber with id `id`, if there is one; the others keep
    /// their order.
    pub fn remove(&mut self, id: u64)
        requires
            old(self).wf(),
        ensures
            final(self).wf(),
            final(self).spec_entries() == without_id(old(self).spec_entries(), id),
            final(self).spec_next_id() == old(self).spec_next_id(),
    {
        let mut rest: Vec<(u64, C)> = Vec::new();
        std::mem::swap(&mut rest, &mut self.entries);
        let ghost all = rest@;
        assert(all == old(self).spec_entries());
        assert forall|i: int, j: int| 0 <= i < j < all.len() implies all[i].0 != all[j].0 by {
            assert(old(self).spec_entries()[i].0 != old(self).spec_entries()[j].0);
        }
        assert forall|i: int| 0 <= i < all.len() implies #[trigger] all[i].0 < self.next_id by {
            assert(old(self).spec_entries()[i].0 < old(self).spec_next_id());
        }
        let ghost mut k: int = 0;
        assert(all.take(0) =~= Seq::<(u64, C)>::empty());
        while rest.len() > 0
            invariant
                0 <= k <= all.len(),
                rest@ == all.skip(k),
                self.entries@ == without_id(all.take(k), id),
                self.next_id == old(self).spec_next_id(),
                self.next_id >= 1,
                forall|i: int, j: int| 0 <= i < j < all.len() ==> all[i].0 != all[j].0,
                forall|i: int| 0 <= i < all.len() ==> #[trigger] all[i].0 < self.next_id,
                forall|i: int| 0 <= i < self.entries@.len() ==> all.take(k).contains(#[trigger] self.entries@[i]),
            decreases rest@.len(),
        {
            let ghost before = rest@;
            let e = rest.remove(0);
            proof {
                assert(all.skip(k)[0] == e);
                assert(all.take(k + 1).drop_last() =~= all.take(k));
                assert(all.take(k + 1).last() == e);
                assert(rest@ =~= all.skip(k + 1));
            }
            if e.0 != id {
                self.entries.push(e);
            }
            proof {
                assert forall|i: int| 0 <= i < self.entries@.len() implies all.take(k + 1).contains(
                    #[trigger] self.entries@[i],
                ) by {
                    if i < self.entries@.len() - 1 || e.0 == id {
                        let w = choose|w: int| 0 <= w < all.take(k).len() && all.take(k)[w] == self.entries@[i];
                        assert(all.take(k + 1)[w] == self.entries@[i]);
                    } else {
                        assert(all.take(k + 1)[k] == e);
                    }
                }
                k = k + 1;
            }
        }
        proof {
            assert(all.take(k) =~= all);
            assert forall|i: int, j: int| 0 <= i < j < self.entries@.len() implies self.entries@[i].0
                != self.entries@[j].0 by {
                lemma_without_id_sub(all, id);
            }
            assert forall|i: int| 0 <= i < self.entries@.len() implies #[trigger] self.entries@[i].0 < self.next_id by {
                let w = choose|w: int| 0 <= w < all.len() && all[w] == self.entries@[i];
                assert(all[w].0 < self.next_id);
            }
        }
    }

    /// Removes every subscriber; the ids given later stay fresh.
    pub fn clear(&mut self)
        requires
            old(self).wf(),
        ensures
            final(self).wf(),
            final(self).spec_entries() == Seq::<(u64, C)>::empty(),
            final(self).spec_next_id() == old(self).spec_next_id(),
    {
        self.entries = Vec::new();
    }

    /// The number of subscribers.
    pub fn count(&self) -> (r: usize)
        ensures
            r == self.spec_entries().len(),
    {
        self.entries.len()
    }

    /// The ids of the subscribers, in subscription order.
    pub fn ids(&self) -> (r: Vec<u64>)
        ensures
            r@ == self.spec_entries().map_values(|e: (u64, C)| e.0),
    {
        let mut out: Vec<u64> = Vec::new();
        for k in 0..self.entries.len()
            invariant
                out@ == self.spec_entries().take(k as int).map_values(|e: (u64, C)| e.0),
        {
            out.push(self.entries[k].0);
            assert(self.spec_entries().take(k + 1).map_values(|e: (u64, C)| e.0) =~= self.spec_entries().take(
                k as int,
            ).map_values(|e: (u64, C)| e.0).push(self.entries@[k as int].0));
        }
        assert(self.spec_entries().take(self.entries@.len() as int) =~= self.spec_entries());
        out
    }
}

/// The entries that remain after removing an id keep their ids distinct:
/// they are an ordered selection of the entries.
proof fn lemma_without_id_sub<C>(s: Seq<(u64, C)>, id: u64)
    requires
        forall|i: int, j: int| 0 <= i < j < s.len() ==> s[i].0 != s[j].0,
    ensures
        forall|i: int, j: int| 0 <= i < j < without_id(s, id).len() ==> without_id(s, id)[i].0 != without_id(
            s,
            id,
        )[j].0,
        forall|i: int| 0 <= i < without_id(s, id).len() ==> s.contains(#[trigger] without_id(s, id)[i]),
        forall|i: int| 0 <= i < without_id(s, id).len() ==> (#[trigger] without_id(s, id)[i]).0 != id,
    decreases s.len(),
{
    if s.len() > 0 {
        let rest = s.drop_last();
        lemma_without_id_sub(rest, id);
        let w = without_id(rest, id);
        assert forall|i: int| 0 <= i < w.len() implies s.contains(#[trigger] w[i]) by {
            let k = choose|k: int| 0 <= k < rest.len() && rest[k] == w[i];
            assert(s[k] == w[i]);
        }
        assert forall|i: int| 0 <= i < w.len() implies w[i].0 != s.last().0 by {
            let k = choose|k: int| 0 <= k < rest.len() && rest[k] == w[i];
            assert(s[k] == w[i]);
        }
        assert(s.contains(s.last())) by {
            assert(s[s.len() - 1] == s.last());
        }
    }
}

proof fn lemma_without_absent<C>(s: Seq<(u64, C)>, id: u64)
    requires
        forall|i: int| 0 <= i < s.len() ==> (#[trigger] s[i]).0 != id,
    ensures
        without_id(s, id) == s,
    decreases s.len(),
{
    if s.len() > 0 {
        lemma_without_absent(s.drop_last(), id);
        assert(s.drop_last().push(s.last()) =~= s);
    }
}

/// Unsubscribing a fresh subscription undoes it: subscribing and then
/// removing the id received leaves the subscribers as they were.
pub proof fn law_subscribe_then_remove<C>(entries: Seq<(u64, C)>, next_id: u64, callback: C)
    requires
        forall|i: int| 0 <= i < entries.len() ==> #[trigger] entries[i].0 < next_id,
    ensures
        without_id(entries.push((next_id, callback)), next_id) == entries,
{
    let s = entries.push((next_id, callback));
    assert(s.drop_last() =~= entries);
    lemma_without_absent(entries, next_id);
}

/// Removing an id removes exactly the subscriber that has it: every other
/// subscriber stays, and none has that id afterwards.
pub proof fn law_remove_only_that_subscriber<C>(entries: Seq<(u64, C)>, id: u64, i: int)
    requires
        forall|a: int, b: int| 0 <= a < b < entries.len() ==> entries[a].0 != entries[b].0,
        0 <= i < entries.len(),
        entries[i].0 != id,
    ensures
        without_id(entries, id).contains(entries[i]),
        forall|k: int| 0 <= k < without_id(entries, id).len() ==> (#[trigger] without_id(entries, id)[k]).0 != id,
    decreases entries.len(),
{
    lemma_without_id_sub(entries, id);
    if i < entries.len() - 1 {
        assert(entries.drop_last()[i] == entries[i]);
        law_remove_only_that_subscriber(entries.drop_last(), id, i);
        let w = without_id(entries.drop_last(), id);
        let k = choose|k: int| 0 <= k < w.len() && w[k] == entries[i];
        if entries.last().0 == id {
        } else {
            assert(w.push(entries.last())[k] == entries[i]);
        }
    } else {
        let w = without_id(entries.drop_last(), id);
        assert(w.push(entries.last())[w.len() as int] == entries[i]);
    }
}

/// The handle of one subscription: unsubscribing it removes its subscriber.
pub struct Subscription {
    id: u64,
}

impl Subscription {
    pub closed spec fn spec_id(&self) -> u64 {
        self.id
    }

    /// The subscription's id.
    pub fn id(&self) -> (r: u64)
        ensures
            r == self.spec_id(),
    {
        self.id
    }

    /// Removes the subscriber from the stream.
    pub fn unsubscribe<T: Send + 'static>(self, stream: &mut AsyncStream<T>)
        requires
            old(stream).wf(),
        ensures
            final(stream).wf(),
            final(stream).spec_subscribers().spec_entries() == without_id(
                old(stream).spec_subscribers().spec_entries(),
                self.spec_id(),
            ),
            final(stream).spec_subscribers().spec_next_id() == old(stream).spec_subscribers().spec_next_id(),
    {
        stream.remove(self.id);
    }
}

/// An event stream: the JS callbacks subscribed to it, in subscription order.
pub struct AsyncStream<T: Send + 'static> {
    subscribers: Subscribers<Root<Function>>,
    _marker: PhantomData<T>,
}

impl<T: Send + 'static> AsyncStream<T> {
    pub closed spec fn spec_subscribers(&self) -> Subscribers<Root<Function>> {
        self.subscribers
    }

    pub open spec fn wf(&self) -> bool {
        self.spec_subscribers().wf()
    }

    /// A stream without subscribers.
    pub fn new() -> (r: Self)
        ensures
            r.wf(),
            r.spec_subscribers().spec_entries().len() == 0,
            r.spec_subscribers().spec_next_id() == 1,
    {
        AsyncStream { subscribers: Subscribers::new(), _marker: PhantomData }
    }

    /// The number of subscribers.
    pub fn subscriber_count(&self) -> (r: usize)
        ensures
            r == self.spec_subscribers().spec_entries().len(),
    {
        self.subscribers.count()
    }

    /// Subscribes a JS callback; `None` once the ids are exhausted.
    pub fn subscribe(&mut self, callback: Root<Function>) -> (r: Option<Subscription>)
        requires
            old(self).wf(),
        ensures
            final(self).wf(),
            old(self).spec_subscribers().spec_next_id() < u64::MAX ==> (r matches Some(sub) && sub.spec_id()
                == old(self).spec_subscribers().spec_next_id()) && final(self).spec_subscribers().spec_entries()
                == old(self).spec_subscribers().spec_entries().push(
                (old(self).spec_subscribers().spec_next_id(), callback),
            ),
            old(self).spec_subscribers().spec_next_id() == u64::MAX ==> r is None,
    {
        match self.subscribers.subscribe(callback) {
            Some(id) => Some(Subscription { id }),
            None => None,
        }
    }

    /// Removes the subscriber with id `id`, if there is one.
    fn remove(&mut self, id: u64)
        requires
            old(self).wf(),
        ensures
            final(self).wf(),
            final(self).spec_subscribers().spec_entries() == without_id(
                old(self).spec_subscribers().spec_entries(),
                id,
            ),
            final(self).spec_subscribers().spec_next_id() == old(self).spec_subscribers().spec_next_id(),
    {
        self.subscribers.remove(id);
    }

    /// Removes every subscriber.
    pub fn clear(&mut self)
        requires
            old(self).wf(),
        ensures
            final(self).wf(),
            final(self).spec_subscribers().spec_entries().len() == 0,
            final(self).spec_subscribers().spec_next_id() == old(self).spec_subscribers().spec_next_id(),
    {
        self.subscribers.clear();
    }

    /// The ids of the subscribers, in subscription order.
    pub fn subscriber_ids(&self) -> (r: Vec<u64>)
        ensures
            r@ == self.spec_subscribers().spec_entries().map_values(|e: (u64, Root<Function>)| e.0),
    {
        self.subscribers.ids()
    }
}

/// An event for a stream, handed from a worker thread to the JS thread.
#[derive(Debug, Clone)]
pub struct EventCompletion<T: Send + 'static> {
    /// The stream the event belongs to.
    pub stream_id: u64,
    /// The event's value.
    pub value: T,
}

/// A first-in, first-out queue of stream events.
pub struct EventQueue<T: Send + 'static> {
    queue: Vec<EventCompletion<T>>,
}

impl<T: Send + 'static> View for EventQueue<T> {
    type V = Seq<EventCompletion<T>>;

    closed spec fn view(&self) -> Seq<EventCompletion<T>> {
        self.queue@
    }
}

impl<T: Send + 'static> EventQueue<T> {
    /// An empty queue.
    pub fn new() -> (q: Self)
        ensures
            q@ == Seq::<EventCompletion<T>>::empty(),
    {
        EventQueue { queue: Vec::new() }
    }

    /// Appends an event at the back.
    pub fn push(&mut self, event: EventCompletion<T>)
        ensures
            final(self)@ == old(self)@.push(event),
    {
        self.queue.push(event);
    }

    /// Removes and returns the event at the front, if any.
    pub fn pop(&mut self) -> (r: Option<EventCompletion<T>>)
        ensures
            old(self)@.len() == 0 ==> r is None && final(self)@ == old(self)@,
            old(self)@.len() > 0 ==> r == Some(old(self)@[0]) && final(self)@ == old(self)@.drop_first(),
    {
        if self.queue.len() == 0 {
            None
        } else {
            let e = self.queue.remove(0);
            assert(self.queue@ =~= old(self)@.drop_first());
            Some(e)
        }
    }

    /// Whether the queue holds no event.
    pub fn is_empty(&self) -> (r: bool)
        ensures
            r == (self@.len() == 0),
    {
        self.queue.len() == 0
    }

    /// The number of queued events.
    pub fn len(&self) -> (r: usize)
        ensures
            r == self@.len(),
    {
        self.queue.len()
    }

    /// Removes every event.
    pub fn clear(&mut self)
        ensures
            final(self)@ == Seq::<EventCompletion<T>>::empty(),
    {
        self.queue.clear();
    }

    /// Removes and returns every event, front first.
    pub fn drain(&mut self) -> (r: Vec<EventCompletion<T>>)
        ensures
            r@ == old(self)@,
            final(self)@ == Seq::<EventCompletion<T>>::empty(),
    {
        let mut out: Vec<EventCompletion<T>> = Vec::new();
        std::mem::swap(&mut out, &mut self.queue);
        out
    }
}

/// Events leave a queue in the order they entered it: pushing an event and
/// then popping gives the front event (the pushed one if the queue was
/// empty), and pushing commutes with popping the front.
pub proof fn law_queue_fifo<T: Send + 'static>(q: Seq<EventCompletion<T>>, e: EventCompletion<T>)
    ensures
        q.push(e)[0] == (if q.len() == 0 {
            e
        } else {
            q[0]
        }),
        q.push(e).drop_first() == (if q.len() == 0 {
            Seq::<EventCompletion<T>>::empty()
        } else {
            q.drop_first().push(e)
        }),
{
    if q.len() == 0 {
        assert(q.push(e).drop_first() =~= Seq::<EventCompletion<T>>::empty());
    } else {
        assert(q.push(e).drop_first() =~= q.drop_first().push(e));
    }
}

/// The lock predicate of a shared event queue: any queue is admissible.
pub struct AnyQueue;

impl<T: Send + 'static> RwLockPredicate<EventQueue<T>> for AnyQueue {
    open spec fn inv(self, v: EventQueue<T>) -> bool {
        true
    }
}

/// An event queue shared between threads: workers push, the JS thread
/// drains. Since other threads may push or drain between two calls, each
/// result is stated of the queue as the call found it.
pub struct ThreadSafeEventQueue<T: Send + 'static> {
    inner: RwLock<EventQueue<T>, AnyQueue>,
}

impl<T: Send + 'static> ThreadSafeEventQueue<T> {
    /// A shared, empty queue.
    pub fn new() -> (q: Self) {
        ThreadSafeEventQueue { inner: RwLock::new(EventQueue::new(), Ghost(AnyQueue)) }
    }

    /// Appends an event at the back (from any thread).
    pub fn push(&self, event: EventCompletion<T>) {
        let (mut q, h) = self.inner.acquire_write();
        q.push(event);
        h.release_write(q);
    }

    /// Removes and returns every queued event, front first.
    pub fn drain(&self) -> (r: Vec<EventCompletion<T>>)
        ensures
            exists|q: EventQueue<T>| r@ == #[trigger] q@,
    {
        let (mut q, h) = self.inner.acquire_write();
        let ghost before = q;
        let r = q.drain();
        h.release_write(q);
        assert(r@ == before@);
        r
    }

    /// Whether the queue holds no event.
    pub fn is_empty(&self) -> (r: bool)
        ensures
            exists|q: EventQueue<T>| r == (#[trigger] q@.len() == 0),
    {
        let h = self.inner.acquire_read();
        let q = h.borrow();
        let r = q.is_empty();
        assert(r == (q@.len() == 0));
        h.release_read();
        r
    }

    /// The number of queued events.
    pub fn len(&self) -> (r: usize)
        ensures
            exists|q: EventQueue<T>| r == #[trigger] q@.len(),
    {
        let h = self.inner.acquire_read();
        let q = h.borrow();
        let r = q.len();
        assert(r == q@.len());
        h.release_read();
        r
    }

    /// Removes every queued event.
    pub fn clear(&self) {
        let (mut q, h) = self.inner.acquire_write();
        q.clear();
        h.release_write(q);
    }
}

} // verus!
