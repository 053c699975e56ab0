//! Publishers that buffer events and flush them to the ring in one go.
use vstd::prelude::*;
use crate::event::Event;
use crate::ring_buffer::{PublishOutcome, RingBuffer};
use crate::sequencer::claim_is_safe;
use crate::wait_strategy::WaitStrategy;

verus! {

/// The error of a buffered publisher that could not hand its events to the ring.
#[derive(Debug, Clone, Copy, PartialEq, Eq, Structural)]
pub struct PublishError;

impl PublishError {
    /// The text that describes the error.
    pub fn message(&self) -> (s: &'static str)
        ensures
            s@ == "async-publisher could not get an overwriteable envelope from the ring"@,
    {
        "async-publisher could not get an overwriteable envelope from the ring"
    }
}

/// What a flush came to.
pub enum FlushOutcome {
    /// Every buffered event was published.
    Flushed,
    /// The ring is full of unread events: the flush is to be tried again once a
    /// subscriber has read.
    Pending,
    /// An event was published and the publisher pauses for the duration before
    /// it flushes the rest.
    Paused(std::time::Duration),
}

/// A publisher that buffers up to `buffer_size` events of one type and
/// publishes them when flushed.
pub struct AsyncPublisher<T> {
    type_id: u64,
    buffer_size: usize,
    events: Vec<T>,
}

/// The events that the first `n` buffered events of `pre` become when they are
/// published, in the order they were buffered.
pub open spec fn flushed_events<T>(type_id: u64, pre: Seq<T>, n: int) -> Seq<Event<T>> {
    Seq::new(n as nat, |i: int| Event { type_id, data: pre[i] })
}

impl<T> AsyncPublisher<T> {
    /// The type tag of the events the publisher publishes.
    pub closed spec fn tag(&self) -> u64 {
        self.type_id
    }

    /// How many events the publisher buffers before it must be flushed.
    pub closed spec fn capacity(&self) -> usize {
        self.buffer_size
    }

    /// The buffered events, oldest first.
    pub closed spec fn buffered(&self) -> Seq<T> {
        self.events@
    }

    /// A publisher of events of type `type_id` that buffers up to `buffer`
    /// events, and at least one.
    pub fn new(type_id: u64, buffer: usize) -> (p: Self)
        ensures
            p.tag() == type_id,
            p.capacity() == (if buffer == 0 { 1 } else { buffer }),
            p.buffered() == Seq::<T>::empty(),
    {
        let buffer = if buffer == 0 { buffer + 1 } else { buffer };
        AsyncPublisher { type_id, buffer_size: buffer, events: Vec::new() }
    }

    /// The number of buffered events.
    pub fn buffered_len(&self) -> (n: usize)
        ensures
            n == self.buffered().len(),
    {
        self.events.len()
    }

    /// Whether the publisher takes another event before it is flushed.
    pub fn poll_ready(&self) -> (ready: bool)
        ensures
            ready == (self.buffered().len() < self.capacity()),
    {
        self.events.len() < self.buffer_size
    }

    /// Buffers `event`.
    pub fn start_send(&mut self, event: T) -> (r: Result<(), PublishError>)
        ensures
            r is Ok,
            final(self).buffered() == old(self).buffered().push(event),
            final(self).tag() == old(self).tag(),
            final(self).capacity() == old(self).capacity(),
    {
        self.events.push(event);
        Ok(())
    }

    /// Publishes the buffered events to `ring`, oldest first, until none is
    /// left, the ring is full of unread events, or a publication asks the
    /// publisher to pause.
    pub fn poll_flush(&mut self, ring: &mut RingBuffer<T>) -> (r: FlushOutcome)
        requires
            old(ring).wf(),
            old(ring).cursor() + old(self).buffered().len() + 1 < u64::MAX,
        ensures
            final(ring).wf(),
            final(self).capacity() == old(self).capacity(),
            flush_outcome(*old(self), *final(self), *old(ring), *final(ring), r),
    {
        let ghost pre_ring = *ring;
        let ghost pre = self.events@;
        let mut outcome = FlushOutcome::Flushed;
        let mut done = false;
        while !done && self.events.len() > 0
            invariant
                ring.wf(),
                self.type_id == old(self).type_id,
                self.buffer_size == old(self).buffer_size,
                pre == old(self).events@,
                pre_ring == *old(ring),
                self.events@.len() <= pre.len(),
                self.events@ == pre.skip(pre.len() - self.events@.len()),
                ring.cursor() + self.events@.len() + 1 < u64::MAX,
                ring.cursor() == pre_ring.cursor() + (pre.len() - self.events@.len()),
                ring.log() == pre_ring.log() + flushed_events(
                    self.type_id,
                    pre,
                    pre.len() - self.events@.len(),
                ),
                ring.capacity() == pre_ring.capacity(),
                ring.strategy() == pre_ring.strategy(),
                ring.subscribers() == pre_ring.subscribers(),
                !done ==> outcome is Flushed,
                !done ==> (pre_ring.strategy() is WaitForDuration && pre.len() - self.events@.len() > 0
                    ==> ring.cursor() < ring.capacity()),
                done ==> (outcome is Pending ==> self.events@.len() > 0 && ring.strategy() is AllSubscribers
                    && !claim_is_safe(
                    ring.cursor() + 1,
                    ring.capacity() as int,
                    ring.subscribers(),
                )),
                done ==> (outcome matches FlushOutcome::Paused(d) ==> {
                    &&& pre_ring.strategy() == WaitStrategy::WaitForDuration(d)
                    &&& pre.len() - self.events@.len() > 0
                    &&& ring.cursor() >= ring.capacity()
                    &&& (pre.len() - self.events@.len() > 1 ==> ring.cursor() - 1 < ring.capacity())
                }),
                done ==> !(outcome is Flushed),
            decreases self.events@.len(), if done { 0int } else { 1int },
        {
            let ghost n = pre.len() - self.events@.len();
            let event = self.events.remove(0);
            assert(event == pre[n]);
            match ring.publish(self.type_id, event) {
                PublishOutcome::Full(event) => {
                    self.events.insert(0, event);
                    assert(self.events@ =~= pre.skip(n));
                    outcome = FlushOutcome::Pending;
                    done = true;
                },
                PublishOutcome::Published(_) => {
                    assert(self.events@ =~= pre.skip(n + 1));
                    assert(flushed_events(self.type_id, pre, n + 1) =~= flushed_events(
                        self.type_id,
                        pre,
                        n,
                    ).push(Event { type_id: self.type_id, data: event }));
                },
                PublishOutcome::PublishedThenWait(_, wait) => {
                    assert(self.events@ =~= pre.skip(n + 1));
                    assert(flushed_events(self.type_id, pre, n + 1) =~= flushed_events(
                        self.type_id,
                        pre,
                        n,
                    ).push(Event { type_id: self.type_id, data: event }));
                    outcome = FlushOutcome::Paused(wait);
                    done = true;
                },
            }
        }
        outcome
    }

    /// Takes no more events and flushes the buffered ones.
    pub fn poll_close(&mut self, ring: &mut RingBuffer<T>) -> (r: FlushOutcome)
        requires
            old(ring).wf(),
            old(ring).cursor() + old(self).buffered().len() + 1 < u64::MAX,
        ensures
            final(ring).wf(),
            final(self).capacity() == 0,
            flush_outcome(*old(self), *final(self), *old(ring), *final(ring), r),
    {
        self.buffer_size = 0;
        self.poll_flush(ring)
    }
}

/// What a flush does: the buffered events are published oldest first, and the
/// ones not published stay buffered in order. It stops short only when the ring
/// is full of unread events under `AllSubscribers`, or, under `WaitForDuration`,
/// right after the first publication whose sequence number reaches the ring's
/// capacity, which asks the publisher to pause.
pub open spec fn flush_outcome<T>(
    pre: AsyncPublisher<T>,
    post: AsyncPublisher<T>,
    pre_ring: RingBuffer<T>,
    post_ring: RingBuffer<T>,
    r: FlushOutcome,
) -> bool {
    let n = pre.buffered().len() - post.buffered().len();
    &&& post.tag() == pre.tag()
    &&& post.buffered().len() <= pre.buffered().len()
    &&& post.buffered() == pre.buffered().skip(n)
    &&& post_ring.cursor() == pre_ring.cursor() + n
    &&& post_ring.log() == pre_ring.log() + flushed_events(pre.tag(), pre.buffered(), n)
    &&& post_ring.capacity() == pre_ring.capacity()
    &&& post_ring.strategy() == pre_ring.strategy()
    &&& post_ring.subscribers() == pre_ring.subscribers()
    &&& (r is Flushed ==> post.buffered().len() == 0 && (pre_ring.strategy() is WaitForDuration && n
        > 0 ==> post_ring.cursor() < post_ring.capacity()))
    &&& (r is Pending ==> post.buffered().len() > 0 && post_ring.strategy() is AllSubscribers
        && !claim_is_safe(
        post_ring.cursor() + 1,
        post_ring.capacity() as int,
        post_ring.subscribers(),
    ))
    &&& (r matches FlushOutcome::Paused(d) ==> {
        &&& pre_ring.strategy() == WaitStrategy::WaitForDuration(d)
        &&& n > 0
        &&& post_ring.cursor() >= post_ring.capacity()
        &&& (n > 1 ==> post_ring.cursor() - 1 < post_ring.capacity())
    })
}

} // verus!
