//! A bounded bus that hands every published event to every subscriber, in
//! the order of publication, and never makes the publisher wait: a
//! subscriber that falls behind more than the capacity loses the oldest
//! events and is told how many.

use std::collections::VecDeque;
use vstd::prelude::*;

verus! {

/// The capacity that the application's bus of inbound events has.
pub const DEFAULT_CAPACITY: usize = 100;

/// Of `published` events, numbered from zero, a bus of `capacity` still
/// holds those from this number on.
pub open spec fn oldest_retained(published: nat, capacity: nat) -> nat {
    if published > capacity {
        (published - capacity) as nat
    } else {
        0
    }
}

/// The place of one subscriber in the stream of events.
#[derive(Debug)]
pub struct Subscriber {
    next: u64,
}

impl Subscriber {
    /// The number of the event that the subscriber receives next.
    pub closed spec fn position(&self) -> nat {
        self.next as nat
    }

    /// The number of the event that the subscriber receives next.
    pub fn next_event(&self) -> (next: u64)
        ensures
            next == self.position(),
    {
        self.next
    }
}

/// What a subscriber finds when it asks for its next event.
#[derive(Debug)]
pub enum Received<'a, T> {
    /// The next event in the order of publication.
    Event(&'a T),
    /// The subscriber fell behind: so many events were dropped before it
    /// could read them. It goes on with the oldest event still held.
    Lagged(u64),
    /// Nothing has been published that the subscriber has not received.
    Empty,
}

/// The bus.
pub struct EventBus<T> {
    capacity: usize,
    buffer: VecDeque<T>,
    published: u64,
    log: Ghost<Seq<T>>,
}

impl<T> EventBus<T> {
    #[verifier::type_invariant]
    spec fn well_formed(self) -> bool {
        &&& self.capacity > 0
        &&& self.log@.len() == self.published
        &&& self.buffer@.len() <= self.capacity
        &&& self.buffer@.len() <= self.log@.len()
        &&& self.log@.len() - self.buffer@.len() == oldest_retained(self.log@.len(), self.capacity as nat)
        &&& self.buffer@ == self.log@.skip(self.log@.len() - self.buffer@.len())
    }

    /// All events published so far, in their order.
    pub closed spec fn history(&self) -> Seq<T> {
        self.log@
    }

    /// How many events the bus holds at most.
    pub closed spec fn capacity(&self) -> nat {
        self.capacity as nat
    }

    /// The number of the oldest event that the bus still holds.
    pub open spec fn oldest(&self) -> nat {
        oldest_retained(self.history().len(), self.capacity())
    }

    /// A bus that holds up to `capacity` events.
    pub fn new(capacity: usize) -> (bus: Self)
        requires
            capacity > 0,
        ensures
            bus.capacity() == capacity,
            bus.history() == Seq::<T>::empty(),
    {
        let buffer: VecDeque<T> = VecDeque::new();
        let log: Ghost<Seq<T>> = Ghost(Seq::empty());
        assert(buffer@ =~= log@.skip(0));
        EventBus { capacity, buffer, published: 0, log }
    }

    /// How many events have been published so far.
    pub fn published(&self) -> (count: u64)
        ensures
            count == self.history().len(),
    {
        proof {
            use_type_invariant(self);
        }
        self.published
    }

    /// Publishes `event` to all subscribers. The publisher never waits: where
    /// the bus is full the oldest event makes room.
    pub fn publish(&mut self, event: T)
        requires
            old(self).history().len() < u64::MAX,
        ensures
            final(self).history() == old(self).history().push(event),
            final(self).capacity() == old(self).capacity(),
    {
        proof {
            use_type_invariant(&*self);
        }
        let mut taken = Self::new(1);
        std::mem::swap(self, &mut taken);
        proof {
            use_type_invariant(&taken);
        }
        let EventBus { capacity, buffer, published, log } = taken;
        let mut buffer = buffer;
        if buffer.len() == capacity {
            buffer.pop_front();
        }
        buffer.push_back(event);
        let ghost history = log@.push(event);
        proof {
            assert(buffer@ =~= history.skip(history.len() - buffer@.len()));
        }
        *self = EventBus { capacity, buffer, published: published + 1, log: Ghost(history) };
    }

    /// A new subscriber: it receives every event published from now on.
    pub fn subscribe(&self) -> (subscriber: Subscriber)
        ensures
            subscriber.position() == self.history().len(),
    {
        proof {
            use_type_invariant(self);
        }
        Subscriber { next: self.published }
    }

    /// The subscriber's next event, if there is one. Events come one by one
    /// in the order of publication. A subscriber whose next event is no
    /// longer held is told how many it lost and goes on with the oldest one
    /// that is held.
    pub fn receive<'a>(&'a self, subscriber: &mut Subscriber) -> (received: Received<'a, T>)
        ensures
            match received {
                Received::Event(event) => {
                    &&& self.oldest() <= old(subscriber).position() < self.history().len()
                    &&& *event == self.history()[old(subscriber).position() as int]
                    &&& final(subscriber).position() == old(subscriber).position() + 1
                },
                Received::Lagged(lost) => {
                    &&& old(subscriber).position() < self.oldest()
                    &&& lost == self.oldest() - old(subscriber).position()
                    &&& final(subscriber).position() == self.oldest()
                },
                Received::Empty => {
                    &&& old(subscriber).position() >= self.history().len()
                    &&& final(subscriber).position() == old(subscriber).position()
                },
            },
    {
        proof {
            use_type_invariant(self);
        }
        let held = self.buffer.len() as u64;
        let oldest = self.published - held;
        if subscriber.next >= self.published {
            Received::Empty
        } else if subscriber.next < oldest {
            let lost = oldest - subscriber.next;
            subscriber.next = oldest;
            Received::Lagged(lost)
        } else {
            let at = (subscriber.next - oldest) as usize;
            subscriber.next = subscriber.next + 1;
            Received::Event(&self.buffer[at])
        }
    }

    /// All events that the subscriber has not received yet, in the order of
    /// publication, and before them the number of events that it lost. The
    /// subscriber has caught up afterwards.
    pub fn receive_all<'a>(&'a self, subscriber: &mut Subscriber) -> (batch: (u64, Vec<&'a T>))
        ensures
            batch.0 == lost_at(old(subscriber).position(), self.oldest()),
            old(subscriber).position() <= self.history().len() ==> {
                &&& final(subscriber).position() == self.history().len()
                &&& batch.1.len() == self.history().len() - resumes_at(
                    old(subscriber).position(),
                    self.oldest(),
                )
            },
            old(subscriber).position() > self.history().len() ==> {
                &&& final(subscriber).position() == old(subscriber).position()
                &&& batch.1.len() == 0
            },
            forall|i: int|
                0 <= i < batch.1.len() ==> *(#[trigger] batch.1[i]) == self.history()[resumes_at(
                    old(subscriber).position(),
                    self.oldest(),
                ) + i],
    {
        let ghost first = subscriber.position();
        let ghost start = resumes_at(first, self.oldest());
        let mut lost: u64 = 0;
        let mut events: Vec<&'a T> = Vec::new();
        loop
            invariant
                first <= self.history().len() ==> {
                    &&& subscriber.position() <= self.history().len()
                    &&& (subscriber.position() == first && lost == 0 && events.len() == 0) || (
                    subscriber.position() == start + events.len() && lost == lost_at(first, self.oldest()))
                },
                first > self.history().len() ==> subscriber.position() == first && lost == 0 && events.len()
                    == 0,
                start == resumes_at(first, self.oldest()),
                forall|i: int| 0 <= i < events.len() ==> *(#[trigger] events[i]) == self.history()[start + i],
            ensures
                lost == lost_at(first, self.oldest()),
                first <= self.history().len() ==> subscriber.position() == self.history().len() && events.len()
                    == self.history().len() - start,
                first > self.history().len() ==> subscriber.position() == first && events.len() == 0,
                forall|i: int| 0 <= i < events.len() ==> *(#[trigger] events[i]) == self.history()[start + i],
            decreases self.history().len() - subscriber.position(),
        {
            match self.receive(subscriber) {
                Received::Event(event) => {
                    events.push(event);
                },
                Received::Lagged(count) => {
                    lost = count;
                },
                Received::Empty => {
                    break ;
                },
            }
        }
        (lost, events)
    }
}

/// How many events a subscriber at `position` has lost when the oldest
/// event still held has the number `oldest`.
pub open spec fn lost_at(position: nat, oldest: nat) -> nat {
    if position < oldest {
        (oldest - position) as nat
    } else {
        0
    }
}

/// The number of the event with which a subscriber at `position` goes on
/// when the oldest event still held has the number `oldest`.
pub open spec fn resumes_at(position: nat, oldest: nat) -> nat {
    if position < oldest {
        oldest
    } else {
        position
    }
}

/// A subscriber that was up to date and then did not read while `later`
/// events were published loses those beyond the capacity and no other: none
/// where `later` is within the capacity. It goes on with the oldest event
/// that is still held, so what it reads stays in the order of publication.
pub proof fn lemma_loss_is_the_overrun(position: nat, later: nat, capacity: nat)
    requires
        capacity > 0,
    ensures
        lost_at(position, oldest_retained(position + later, capacity)) == (if later > capacity {
            later - capacity
        } else {
            0
        }),
        resumes_at(position, oldest_retained(position + later, capacity)) == position + lost_at(
            position,
            oldest_retained(position + later, capacity),
        ),
        resumes_at(position, oldest_retained(position + later, capacity)) <= position + later,
{
}

} // verus!
