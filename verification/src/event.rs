//! The slots of the ring: each holds the last event published to it.
use vstd::prelude::*;

verus! {

/// An event: its payload and the tag of the payload's type.
pub struct Event<T> {
    pub type_id: u64,
    pub data: T,
}

/// The value that `x - 1` takes in 64-bit wrapping arithmetic.
pub open spec fn wrapping_pred(x: u64) -> u64 {
    if x == 0 { u64::MAX } else { (x - 1) as u64 }
}

/// How many of the queued waiters `overwrite` alerts: as many as are counted
/// waiting, and no more than are queued.
pub open spec fn alert_count(waiting: u64, queued: nat) -> nat {
    if waiting >= queued {
        queued
    } else {
        waiting as nat
    }
}

/// A slot of the ring buffer.
pub struct EventEnvelope<T> {
    sequence: u64,
    event: Option<Event<T>>,
    num_waiting: u64,
    subscribers: Vec<u64>,
    read_count: u64,
}

impl<T> EventEnvelope<T> {
    /// The sequence number of the event the slot holds (0 before the first).
    pub closed spec fn seq(&self) -> u64 {
        self.sequence
    }

    /// The event the slot holds.
    pub closed spec fn event(&self) -> Option<Event<T>> {
        self.event
    }

    /// The number of subscribers waiting for the slot to be written.
    pub closed spec fn waiting(&self) -> u64 {
        self.num_waiting
    }

    /// The ids of the waiters to alert when the slot is written, oldest first.
    pub closed spec fn alerters(&self) -> Seq<u64> {
        self.subscribers@
    }

    /// How many times the event the slot holds has been read with
    /// [`EventEnvelope::read_counted`].
    pub closed spec fn reads(&self) -> u64 {
        self.read_count
    }

    /// An empty slot.
    pub fn new() -> (e: Self)
        ensures
            e.seq() == 0,
            e.event() is None,
            e.waiting() == 0,
            e.alerters() == Seq::<u64>::empty(),
            e.reads() == 0,
    {
        EventEnvelope { sequence: 0, event: None, num_waiting: 0, subscribers: Vec::new(), read_count: 0 }
    }

    /// How many times the event the slot holds has been read with
    /// [`EventEnvelope::read_counted`].
    pub fn read_count(&self) -> (n: u64)
        ensures
            n == self.reads(),
    {
        self.read_count
    }

    /// Queues the waiter `alerter` to be alerted when the slot is next written.
    pub fn add_subscriber(&mut self, alerter: u64)
        ensures
            final(self).alerters() == old(self).alerters().push(alerter),
            final(self).seq() == old(self).seq(),
            final(self).event() == old(self).event(),
            final(self).waiting() == old(self).waiting(),
            final(self).reads() == old(self).reads(),
    {
        self.subscribers.push(alerter);
    }

    /// The sequence number of the event the slot holds.
    pub fn sequence(&self) -> (s: u64)
        ensures
            s == self.seq(),
    {
        self.sequence
    }

    /// The number of subscribers waiting for the slot to be written.
    pub fn num_waiting(&self) -> (n: u64)
        ensures
            n == self.waiting(),
    {
        self.num_waiting
    }

    /// Counts one more subscriber waiting for the slot (wrapping at `u64::MAX`).
    pub fn start_waiting(&mut self)
        ensures
            final(self).waiting() == crate::sequence::wrapping_succ(old(self).waiting()),
            final(self).seq() == old(self).seq(),
            final(self).event() == old(self).event(),
            final(self).alerters() == old(self).alerters(),
            final(self).reads() == old(self).reads(),
    {
        self.num_waiting = self.num_waiting.wrapping_add(1);
    }

    /// Counts one subscriber less waiting for the slot (wrapping at zero).
    pub fn stop_waiting(&mut self)
        ensures
            final(self).waiting() == wrapping_pred(old(self).waiting()),
            final(self).seq() == old(self).seq(),
            final(self).event() == old(self).event(),
            final(self).alerters() == old(self).alerters(),
            final(self).reads() == old(self).reads(),
    {
        self.num_waiting = self.num_waiting.wrapping_sub(1);
    }

    /// The payload of the event the slot holds, when there is one and its type
    /// tag is `type_id`.
    pub fn read(&self, type_id: u64) -> (r: Option<&T>)
        ensures
            r is Some <==> (self.event() is Some && self.event().unwrap().type_id == type_id),
            r matches Some(d) ==> *d == self.event().unwrap().data,
    {
        match &self.event {
            Some(e) => {
                if e.type_id == type_id {
                    Some(&e.data)
                } else {
                    None
                }
            },
            None => None,
        }
    }

    /// The payload of the event the slot holds, as [`EventEnvelope::read`]
    /// gives it; a read that finds the payload is counted (wrapping at
    /// `u64::MAX`).
    pub fn read_counted(&mut self, type_id: u64) -> (r: Option<&T>)
        ensures
            r is Some <==> (old(self).event() is Some && old(self).event().unwrap().type_id == type_id),
            r matches Some(d) ==> *d == old(self).event().unwrap().data,
            final(self).reads() == (if r is Some {
                crate::sequence::wrapping_succ(old(self).reads())
            } else {
                old(self).reads()
            }),
            final(self).seq() == old(self).seq(),
            final(self).event() == old(self).event(),
            final(self).waiting() == old(self).waiting(),
            final(self).alerters() == old(self).alerters(),
    {
        let found = match &self.event {
            Some(e) => e.type_id == type_id,
            None => false,
        };
        if found {
            self.read_count = self.read_count.wrapping_add(1);
        }
        self.read(type_id)
    }

    /// Replaces the event the slot holds with `data`, published at `sequence`,
    /// and starts its read count afresh. When subscribers are counted waiting,
    /// takes from the front of the queue as many waiters as are counted, or all
    /// that are queued when fewer, and returns their ids, oldest first: the
    /// caller alerts each and waits until no subscriber is counted waiting.
    pub fn overwrite(&mut self, sequence: u64, type_id: u64, data: T) -> (to_alert: Vec<u64>)
        ensures
            final(self).seq() == sequence,
            final(self).event() == Some(Event { type_id, data }),
            final(self).waiting() == old(self).waiting(),
            final(self).reads() == 0,
            to_alert@ == old(self).alerters().take(
                alert_count(old(self).waiting(), old(self).alerters().len()) as int,
            ),
            final(self).alerters() == old(self).alerters().skip(
                alert_count(old(self).waiting(), old(self).alerters().len()) as int,
            ),
    {
        self.event = Some(Event { type_id, data });
        self.sequence = sequence;
        self.read_count = 0;
        let queued = self.subscribers.len();
        let count: usize = if self.num_waiting >= queued as u64 {
            queued
        } else {
            self.num_waiting as usize
        };
        let ghost pre = self.subscribers@;
        let ghost stored = self.event;
        let mut to_alert: Vec<u64> = Vec::new();
        let mut i: usize = 0;
        while i < count
            invariant
                self.event == stored,
                self.sequence == sequence,
                self.read_count == 0,
                self.num_waiting == old(self).num_waiting,
                count <= pre.len(),
                i <= count,
                to_alert@ == pre.take(i as int),
                self.subscribers@ == pre.skip(i as int),
            decreases count - i,
        {
            let id = self.subscribers.remove(0);
            to_alert.push(id);
            i = i + 1;
            assert(to_alert@ =~= pre.take(i as int));
            assert(self.subscribers@ =~= pre.skip(i as int));
        }
        to_alert
    }
}

} // verus!
