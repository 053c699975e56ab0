//! The ring buffer: a fixed number of slots that published events overwrite in
//! turn, and the subscribers that read them in order.
use vstd::prelude::*;
use vstd::arithmetic::power2::{lemma2_to64, lemma_pow2_pos, lemma_pow2_unfold, pow2};
use vstd::bits::{lemma_u64_low_bits_mask_is_mod, lemma_u64_pow2_no_overflow};
use crate::event::{Event, EventEnvelope};
use crate::sequence::Sequence;
use crate::sequencer::{claim_is_safe, Claim, Sequencer};
use crate::wait_strategy::WaitStrategy;

verus! {

/// `n` is a power of two.
pub open spec fn is_power_of_two(n: u64) -> bool {
    exists|k: nat| k < 64 && n == pow2(k)
}

/// Tells whether `n` is a power of two.
pub fn power_of_two(n: u64) -> (r: bool)
    ensures
        r == is_power_of_two(n),
{
    let mut k: u64 = 0;
    let mut p: u64 = 1;
    proof {
        lemma2_to64();
    }
    while k < 64
        invariant
            k <= 64,
            k < 64 ==> p == pow2(k as nat),
            forall|j: nat| j < k ==> n != pow2(j),
        decreases 64 - k,
    {
        if n == p {
            return true;
        }
        if k < 63 {
            proof {
                lemma_pow2_unfold((k + 1) as nat);
                lemma_u64_pow2_no_overflow((k + 1) as nat);
            }
            p = p * 2;
        }
        k = k + 1;
    }
    false
}

/// Masking with one less than a power of two keeps the remainder.
pub proof fn lemma_mask_is_mod(x: u64, m: u64)
    requires
        is_power_of_two(m),
    ensures
        m > 0,
        x & ((m - 1) as u64) == x % m,
{
    let k = choose|k: nat| k < 64 && m == pow2(k);
    lemma_pow2_pos(k);
    lemma_u64_low_bits_mask_is_mod(x, k);
}

/// Two numbers less than `m` apart, and not equal, leave different remainders.
pub proof fn lemma_mod_distinct(a: int, b: int, m: int)
    requires
        0 < m,
        0 <= a < b,
        b - a < m,
    ensures
        a % m != b % m,
{
    vstd::arithmetic::div_mod::lemma_fundamental_div_mod(a, m);
    vstd::arithmetic::div_mod::lemma_fundamental_div_mod(b, m);
    if a % m == b % m {
        let qa = a / m;
        let qb = b / m;
        assert(b - a == (qb - qa) * m) by (nonlinear_arith)
            requires
                a == m * qa + a % m,
                b == m * qb + b % m,
                a % m == b % m,
        ;
        assert(false) by (nonlinear_arith)
            requires
                b - a == (qb - qa) * m,
                0 < b - a < m,
                0 < m,
        ;
    }
}

/// Where a subscriber whose next read is `s` resumes when the last published
/// sequence is `c` and the ring holds `m` events: at `s` itself while that event
/// is still in the ring, and otherwise at the event now in `s`'s slot.
pub open spec fn resume_point(s: int, c: int, m: int) -> int {
    if s + m > c {
        s
    } else {
        s + ((c - s) / m) * m
    }
}

/// The resume point of a lagging subscriber lies in the ring's window and in
/// the subscriber's slot.
pub proof fn lemma_resume_point(s: int, c: int, m: int)
    requires
        0 < m,
        0 <= s <= c,
    ensures
        s <= resume_point(s, c, m) <= c,
        c < resume_point(s, c, m) + m,
        resume_point(s, c, m) % m == s % m,
{
    if s + m <= c {
        let q = (c - s) / m;
        vstd::arithmetic::div_mod::lemma_fundamental_div_mod(c - s, m);
        assert(c - s == m * q + (c - s) % m);
        assert(0 <= (c - s) % m < m) by {
            vstd::arithmetic::div_mod::lemma_mod_pos_bound(c - s, m);
        }
        assert(q >= 1) by (nonlinear_arith)
            requires
                c - s == m * q + (c - s) % m,
                (c - s) % m < m,
                c - s >= m,
                m > 0,
        ;
        assert(q * m == m * q) by (nonlinear_arith);
        assert(q * m >= 0) by (nonlinear_arith)
            requires
                q >= 1,
                m > 0,
        ;
        assert((s + q * m) % m == s % m) by {
            vstd::arithmetic::div_mod::lemma_mod_multiples_vanish(q, s, m);
            assert(m * q + s == s + q * m);
        }
    }
}

/// Why a ring buffer could not be made.
#[derive(PartialEq, Eq, Structural, Debug)]
pub enum RingBufferError {
    /// The capacity was not a power of two greater than one.
    NotPowerOfTwo,
}

/// What a publication came to.
pub enum PublishOutcome<T> {
    /// The event was published under this sequence number.
    Published(u64),
    /// The event was published under this sequence number; the publisher pauses
    /// for the duration before it goes on.
    PublishedThenWait(u64, std::time::Duration),
    /// Publishing now would overwrite an event that a subscriber has not read;
    /// the event is handed back to be published again later.
    Full(T),
}

/// A subscriber's handle: the index of its read position in the ring and the
/// type tag of the events it receives.
pub struct Subscriber {
    index: usize,
    type_id: u64,
}

impl Subscriber {
    /// The index of the subscriber's read position among the ring's subscribers.
    pub closed spec fn id(&self) -> int {
        self.index as int
    }

    /// The type tag of the events the subscriber receives.
    pub closed spec fn tag(&self) -> u64 {
        self.type_id
    }

    /// The type tag of the events the subscriber receives.
    pub fn type_id(&self) -> (t: u64)
        ensures
            t == self.tag(),
    {
        self.type_id
    }

    /// The subscriber's read position: the sequence number of the next event it
    /// will look at.
    pub fn sequence<T>(&self, ring: &RingBuffer<T>) -> (s: u64)
        requires
            ring.wf(),
            ring.valid_subscriber(self),
        ensures
            s == ring.subscribers()[self.id()],
    {
        ring.subscriber_sequence(self)
    }

    /// The sequence number of the last event the subscriber looked at: one
    /// before its read position. A new subscriber's is the cursor at the time it
    /// subscribed (0 on a ring that has published nothing).
    pub fn last_read<T>(&self, ring: &RingBuffer<T>) -> (s: u64)
        requires
            ring.wf(),
            ring.valid_subscriber(self),
        ensures
            s == ring.subscribers()[self.id()] - 1,
    {
        proof {
            ring.lemma_wf();
        }
        ring.subscriber_sequence(self) - 1
    }

    /// Reads the next event of the subscriber's type; see [`RingBuffer::recv`].
    pub fn recv<T>(&self, ring: &mut RingBuffer<T>) -> (r: Option<u64>)
        requires
            old(ring).wf(),
            old(ring).valid_subscriber(self),
        ensures
            final(ring).wf(),
            recv_outcome(*old(ring), *final(ring), self.id(), self.tag(), r),
    {
        ring.recv(self)
    }
}

/// A ring buffer of `capacity` slots.
pub struct RingBuffer<T> {
    capacity: u64,
    buffer: Vec<EventEnvelope<T>>,
    sequencer: Sequencer,
    log: Ghost<Seq<Event<T>>>,
}

/// The type tag of the event published under sequence number `k`.
pub open spec fn tag_of<T>(log: Seq<Event<T>>, k: int) -> u64 {
    log[k - 1].type_id
}

/// What reading the next event of type `tag` does to the ring, for the
/// subscriber at index `id`: it resumes at `resume_point` of its read position,
/// passes over the events of other types, and returns the sequence number of the
/// first event of its type, or `None` once it has looked at every published event.
pub open spec fn recv_outcome<T>(
    pre: RingBuffer<T>,
    post: RingBuffer<T>,
    id: int,
    tag: u64,
    r: Option<u64>,
) -> bool {
    let start = pre.subscribers()[id];
    let c = pre.cursor();
    let from = resume_point(start as int, c as int, pre.capacity() as int);
    &&& post.log() == pre.log()
    &&& post.cursor() == c
    &&& post.capacity() == pre.capacity()
    &&& post.strategy() == pre.strategy()
    &&& post.subscribers().len() == pre.subscribers().len()
    &&& forall|i: int|
        0 <= i < pre.subscribers().len() && i != id ==> post.subscribers()[i]
            == pre.subscribers()[i]
    &&& match r {
        Some(k) => {
            &&& from <= k <= c
            &&& pre.log()[k - 1].type_id == tag
            &&& post.subscribers()[id] == k + 1
            &&& forall|j: int| from <= j < k ==> #[trigger] tag_of(pre.log(), j) != tag
        },
        None => {
            &&& post.subscribers()[id] == c + 1
            &&& forall|j: int| from <= j <= c ==> #[trigger] tag_of(pre.log(), j) != tag
        },
    }
}

impl<T> RingBuffer<T> {
    /// The number of slots.
    pub closed spec fn capacity(&self) -> u64 {
        self.capacity
    }

    /// The sequence number of the last published event.
    pub closed spec fn cursor(&self) -> u64 {
        self.sequencer.cursor()
    }

    /// Every event published so far: the one published under sequence number
    /// `k` is at `k - 1`.
    pub closed spec fn log(&self) -> Seq<Event<T>> {
        self.log@
    }

    /// The read positions of the subscribers, by index.
    pub closed spec fn subscribers(&self) -> Seq<u64> {
        self.sequencer.gating()
    }

    /// The policy publishers follow when the ring is full.
    pub closed spec fn strategy(&self) -> WaitStrategy {
        self.sequencer.strategy()
    }

    /// The envelope in slot `i`.
    pub closed spec fn slot(&self, i: int) -> EventEnvelope<T> {
        self.buffer@[i]
    }

    /// The event published under `k` is still in the ring.
    pub open spec fn in_window(&self, k: int) -> bool {
        1 <= k <= self.cursor() && self.cursor() < k + self.capacity()
    }

    /// `sub` is a handle of this ring's subscribers.
    pub open spec fn valid_subscriber(&self, sub: &Subscriber) -> bool {
        0 <= sub.id() < self.subscribers().len()
    }

    /// Slot `i` is empty or holds the event published under a sequence number
    /// that is in the window and maps to `i`.
    closed spec fn slot_ok(&self, i: int) -> bool {
        let e = self.buffer@[i];
        ||| e.seq() == 0 && e.event() is None
        ||| self.in_window(e.seq() as int) && e.seq() % self.capacity == i && e.event() == Some(
            self.log@[e.seq() - 1],
        )
    }

    /// The capacity is a power of two above one, each slot is empty or holds an
    /// event of the window, each event of the window is in its slot, and every
    /// subscriber's read position is at least one.
    pub closed spec fn wf(&self) -> bool {
        &&& self.capacity > 1
        &&& is_power_of_two(self.capacity)
        &&& self.buffer@.len() == self.capacity
        &&& self.sequencer.wf()
        &&& self.sequencer.capacity() == self.capacity
        &&& self.sequencer.cursor() < u64::MAX
        &&& self.log@.len() == self.sequencer.cursor()
        &&& forall|i: int| 0 <= i < self.buffer@.len() ==> #[trigger] self.slot_ok(i)
        &&& forall|k: int|
            #![trigger self.in_window(k)]
            self.in_window(k) ==> self.buffer@[k % (self.capacity as int)].seq() == k
        &&& forall|i: int|
            0 <= i < self.sequencer.gating().len() ==> #[trigger] self.sequencer.gating()[i] >= 1
    }

    /// What well-formedness says in terms of the public views.
    pub proof fn lemma_wf(&self)
        requires
            self.wf(),
        ensures
            self.capacity() > 1,
            is_power_of_two(self.capacity()),
            self.log().len() == self.cursor(),
            self.cursor() < u64::MAX,
            forall|i: int|
                0 <= i < self.subscribers().len() ==> 1 <= #[trigger] self.subscribers()[i]
                    <= self.cursor() + 1,
            self.strategy() is AllSubscribers ==> claim_is_safe(
                self.cursor() as int,
                self.capacity() as int,
                self.subscribers(),
            ),
    {
        self.sequencer.lemma_wf();
    }

    /// A ring of `capacity` empty slots whose publishers wait for every
    /// subscriber; the capacity must be a power of two greater than one.
    pub fn new(capacity: u64) -> (r: Result<Self, RingBufferError>)
        requires
            capacity <= usize::MAX,
        ensures
            r is Ok <==> (capacity > 1 && is_power_of_two(capacity)),
            r matches Ok(ring) ==> {
                &&& ring.wf()
                &&& ring.capacity() == capacity
                &&& ring.cursor() == 0
                &&& ring.log() == Seq::<Event<T>>::empty()
                &&& ring.subscribers() == Seq::<u64>::empty()
                &&& ring.strategy() == WaitStrategy::AllSubscribers
            },
            r matches Err(e) ==> e == RingBufferError::NotPowerOfTwo,
    {
        Self::with_strategy(capacity, WaitStrategy::AllSubscribers)
    }

    /// A ring of `capacity` empty slots whose publishers follow `wait_strategy`;
    /// the capacity must be a power of two greater than one.
    pub fn with_strategy(capacity: u64, wait_strategy: WaitStrategy) -> (r: Result<Self, RingBufferError>)
        requires
            capacity <= usize::MAX,
        ensures
            r is Ok <==> (capacity > 1 && is_power_of_two(capacity)),
            r matches Ok(ring) ==> {
                &&& ring.wf()
                &&& ring.capacity() == capacity
                &&& ring.cursor() == 0
                &&& ring.log() == Seq::<Event<T>>::empty()
                &&& ring.subscribers() == Seq::<u64>::empty()
                &&& ring.strategy() == wait_strategy
            },
            r matches Err(e) ==> e == RingBufferError::NotPowerOfTwo,
    {
        if capacity > 1 && power_of_two(capacity) {
            let sequencer = Sequencer::new(capacity, wait_strategy);
            let ucapacity = capacity as usize;
            let mut buffer: Vec<EventEnvelope<T>> = Vec::new();
            let mut i: usize = 0;
            while i < ucapacity
                invariant
                    i <= ucapacity,
                    buffer@.len() == i,
                    forall|j: int|
                        0 <= j < i ==> (#[trigger] buffer@[j]).seq() == 0 && buffer@[j].event() is None,
                decreases ucapacity - i,
            {
                buffer.push(EventEnvelope::new());
                i = i + 1;
            }
            let ring = RingBuffer { capacity, buffer, sequencer, log: Ghost(Seq::empty()) };
            assert forall|i: int| 0 <= i < ring.buffer@.len() implies #[trigger] ring.slot_ok(i) by {
            }
            Ok(ring)
        } else {
            Err(RingBufferError::NotPowerOfTwo)
        }
    }

    /// The slot of the event published under `sequence`.
    pub fn idx_from_sequence(&self, sequence: u64) -> (i: usize)
        requires
            self.wf(),
        ensures
            i == sequence % self.capacity(),
            i < self.capacity(),
    {
        let slots = self.buffer.len();
        assert(slots == self.capacity);
        proof {
            lemma_mask_is_mod(sequence, self.capacity);
        }
        (sequence & (self.capacity - 1)) as usize
    }

    /// The sequencer that hands out the ring's sequence numbers.
    pub fn sequencer(&self) -> (s: &Sequencer)
        requires
            self.wf(),
        ensures
            s.cursor() == self.cursor(),
            s.gating() == self.subscribers(),
            s.capacity() == self.capacity(),
            s.strategy() == self.strategy(),
    {
        &self.sequencer
    }

    /// The slot of the event published under `sequence`.
    pub fn get_envelope(&self, sequence: u64) -> (r: Option<&EventEnvelope<T>>)
        requires
            self.wf(),
        ensures
            r is Some,
            *r.unwrap() == self.slot((sequence % self.capacity()) as int),
            r.unwrap().seq() == sequence ==> (sequence == 0 && r.unwrap().event() is None) || (
            self.in_window(sequence as int) && r.unwrap().event() == Some(self.log()[sequence - 1])),
            self.in_window(sequence as int) ==> r.unwrap().seq() == sequence,
    {
        let idx = self.idx_from_sequence(sequence);
        proof {
            assert(self.slot_ok(idx as int));
        }
        Some(&self.buffer[idx])
    }

    /// The payload of the event published under `sequence`, while it is still in
    /// the ring and its type tag is `type_id`.
    pub fn get(&self, sequence: u64, type_id: u64) -> (r: Option<&T>)
        requires
            self.wf(),
        ensures
            r is Some <==> (self.in_window(sequence as int) && self.log()[sequence - 1].type_id
                == type_id),
            r matches Some(d) ==> *d == self.log()[sequence - 1].data,
    {
        let idx = self.idx_from_sequence(sequence);
        let envelope = &self.buffer[idx];
        proof {
            assert(self.slot_ok(idx as int));
            if self.in_window(sequence as int) {
                assert(self.buffer@[(sequence as int) % (self.capacity as int)].seq() == sequence);
            }
        }
        if envelope.sequence() == sequence {
            envelope.read(type_id)
        } else {
            None
        }
    }

    /// Registers a subscriber to events of type `type_id`: it receives only the
    /// events published after this call. Its read position is the cursor plus
    /// one; the last event it counts as looked at is the cursor.
    pub fn subscribe(&mut self, type_id: u64) -> (sub: Subscriber)
        requires
            old(self).wf(),
            old(self).cursor() < u64::MAX,
        ensures
            final(self).wf(),
            final(self).subscribers() == old(self).subscribers().push((old(self).cursor() + 1) as u64),
            sub.id() == old(self).subscribers().len(),
            final(self).subscribers()[sub.id()] - 1 == old(self).cursor(),
            sub.tag() == type_id,
            final(self).valid_subscriber(&sub),
            final(self).log() == old(self).log(),
            final(self).cursor() == old(self).cursor(),
            final(self).capacity() == old(self).capacity(),
            final(self).strategy() == old(self).strategy(),
    {
        let index = self.sequencer.num_gating_sequences();
        let sequence = Sequence::with_value(self.sequencer.get() + 1);
        proof {
            self.sequencer.lemma_wf();
        }
        self.sequencer.register_gating_sequence(sequence);
        proof {
            assert forall|i: int| 0 <= i < self.buffer@.len() implies #[trigger] self.slot_ok(i) by {
                assert(old(self).slot_ok(i));
            }
            assert forall|k: int| #![trigger self.in_window(k)] self.in_window(k) implies self.buffer@[k
                % (self.capacity as int)].seq() == k by {
                assert(old(self).in_window(k));
            }
            assert forall|i: int| 0 <= i < self.sequencer.gating().len() implies #[trigger] self.sequencer.gating()[i] >= 1 by {
                if i < old(self).sequencer.gating().len() {
                    assert(old(self).sequencer.gating()[i] >= 1);
                }
            }
        }
        Subscriber { index, type_id }
    }

    /// Publishes `message` as an event of type `type_id` under the next sequence
    /// number, overwriting the oldest event in the ring; under `AllSubscribers`
    /// the message is handed back instead while that event is still unread.
    pub fn publish(&mut self, type_id: u64, message: T) -> (r: PublishOutcome<T>)
        requires
            old(self).wf(),
            old(self).cursor() + 1 < u64::MAX,
        ensures
            final(self).wf(),
            final(self).capacity() == old(self).capacity(),
            final(self).strategy() == old(self).strategy(),
            final(self).subscribers() == old(self).subscribers(),
            r is Full <==> (old(self).strategy() is AllSubscribers && !claim_is_safe(
                old(self).cursor() + 1,
                old(self).capacity() as int,
                old(self).subscribers(),
            )),
            r matches PublishOutcome::Full(m) ==> m == message && final(self).log() == old(
                self,
            ).log() && final(self).cursor() == old(self).cursor(),
            !(r is Full) ==> final(self).cursor() == old(self).cursor() + 1 && final(self).log()
                == old(self).log().push(Event { type_id, data: message }),
            r matches PublishOutcome::Published(s) ==> s == old(self).cursor() + 1,
            r matches PublishOutcome::PublishedThenWait(s, d) ==> s == old(self).cursor() + 1
                && old(self).strategy() == WaitStrategy::WaitForDuration(d),
            r is PublishedThenWait <==> (old(self).strategy() is WaitForDuration && old(self).cursor()
                + 1 >= old(self).capacity()),
    {
        let ghost pre = *self;
        proof {
            self.sequencer.lemma_wf();
        }
        match self.sequencer.next() {
            Claim::Wait => {
                proof {
                    self.lemma_subscribers_advanced(pre);
                }
                PublishOutcome::Full(message)
            },
            Claim::Claimed(sequence) => {
                self.write(sequence, type_id, message, Ghost(pre));
                PublishOutcome::Published(sequence)
            },
            Claim::ClaimedThenWait(sequence, wait) => {
                self.write(sequence, type_id, message, Ghost(pre));
                PublishOutcome::PublishedThenWait(sequence, wait)
            },
        }
    }

    /// Writes the event just claimed under `sequence` into its slot.
    fn write(&mut self, sequence: u64, type_id: u64, data: T, Ghost(pre): Ghost<RingBuffer<T>>)
        requires
            pre.wf(),
            old(self).sequencer.wf(),
            sequence == pre.cursor() + 1,
            sequence < u64::MAX,
            old(self).sequencer.cursor() == sequence,
            old(self).sequencer.capacity() == pre.capacity,
            old(self).sequencer.gating() == pre.sequencer.gating(),
            old(self).sequencer.strategy() == pre.sequencer.strategy(),
            old(self).capacity == pre.capacity,
            old(self).buffer@ == pre.buffer@,
            old(self).log@ == pre.log@,
        ensures
            final(self).wf(),
            final(self).capacity() == pre.capacity(),
            final(self).strategy() == pre.strategy(),
            final(self).subscribers() == pre.subscribers(),
            final(self).cursor() == sequence,
            final(self).log() == pre.log().push(Event { type_id, data }),
    {
        let ghost event = Event { type_id, data };
        let idx = self.idx_from_sequence_raw(sequence);
        let _waiting = self.buffer[idx].overwrite(sequence, type_id, data);
        proof {
            self.log@ = self.log@.push(event);
            let c = pre.cursor() as int;
            let m = self.capacity as int;
            let j = idx as int;
            assert forall|i: int| 0 <= i < self.buffer@.len() implies #[trigger] self.slot_ok(i) by {
                if i != j {
                    assert(pre.slot_ok(i));
                    let k = self.buffer@[i].seq() as int;
                    if k != 0 {
                        if k + m == c + 1 {
                            vstd::arithmetic::div_mod::lemma_mod_add_multiples_vanish(k, m);
                        }
                        assert(self.log@[k - 1] == pre.log@[k - 1]);
                    }
                }
            }
            assert forall|k: int| #![trigger self.in_window(k)] self.in_window(k) implies self.buffer@[k
                % m].seq() == k by {
                if k != c + 1 {
                    assert(pre.in_window(k));
                    lemma_mod_distinct(k, c + 1, m);
                }
            }
            assert forall|i: int| 0 <= i < self.sequencer.gating().len() implies #[trigger] self.sequencer.gating()[i] >= 1 by {
                assert(pre.sequencer.gating()[i] >= 1);
            }
        }
    }

    /// The slot of `sequence`, from the capacity alone.
    fn idx_from_sequence_raw(&self, sequence: u64) -> (i: usize)
        requires
            is_power_of_two(self.capacity),
            self.buffer@.len() == self.capacity,
        ensures
            i == sequence % self.capacity,
            i < self.buffer@.len(),
    {
        let slots = self.buffer.len();
        assert(slots == self.capacity);
        proof {
            lemma_mask_is_mod(sequence, self.capacity);
        }
        (sequence & (self.capacity - 1)) as usize
    }

    /// Reads, for `sub`, the next published event of its type.
    ///
    /// A subscriber that fell a whole ring behind (possible only when publishers
    /// do not wait for subscribers) resumes at the event now in its slot. Events
    /// of other types are passed over. Returns the sequence number of the event
    /// read, whose payload [`RingBuffer::get`] gives, or `None` when no unread
    /// event of the subscriber's type has been published.
    pub fn recv(&mut self, sub: &Subscriber) -> (r: Option<u64>)
        requires
            old(self).wf(),
            old(self).valid_subscriber(sub),
        ensures
            final(self).wf(),
            recv_outcome(*old(self), *final(self), sub.id(), sub.tag(), r),
    {
        let ghost pre = *self;
        proof {
            self.sequencer.lemma_wf();
        }
        let index = sub.index;
        let type_id = sub.type_id;
        let start = self.sequencer.gating_sequence(index);
        let cursor = self.sequencer.get();
        let ghost from = resume_point(start as int, cursor as int, self.capacity as int);
        let mut s = start;
        if s <= cursor {
            proof {
                lemma_resume_point(start as int, cursor as int, self.capacity as int);
                assert(self.in_window(from));
                vstd::arithmetic::div_mod::lemma_mod_pos_bound(start as int, self.capacity as int);
            }
            let idx = self.idx_from_sequence(s);
            let e = self.buffer[idx].sequence();
            if e > s {
                s = e;
            }
        }
        assert(s == from);
        let mut found = false;
        while !found && s <= cursor
            invariant
                *self == pre,
                pre.wf(),
                cursor == pre.cursor(),
                cursor < u64::MAX,
                index < pre.subscribers().len(),
                start == pre.subscribers()[index as int],
                index == sub.index,
                type_id == sub.type_id,
                from == resume_point(start as int, cursor as int, pre.capacity() as int),
                start <= from <= s <= cursor + 1,
                start >= 1,
                cursor < from + pre.capacity() || from == cursor + 1,
                forall|j: int| from <= j < s ==> #[trigger] tag_of(pre.log(), j) != type_id,
                found ==> s <= cursor && tag_of(pre.log(), s as int) == type_id,
            decreases cursor + 1 - s, if found { 0int } else { 1int },
        {
            let idx = self.idx_from_sequence(s);
            proof {
                assert(self.in_window(s as int));
                assert(self.slot_ok(idx as int));
                assert(self.buffer@[(s as int) % (self.capacity as int)].seq() == s);
                assert(self.buffer@[idx as int].seq() == s);
                assert(self.buffer@[idx as int].event() == Some(self.log@[s - 1]));
            }
            if self.buffer[idx].read(type_id).is_some() {
                found = true;
            } else {
                s = s + 1;
            }
        }
        if found {
            self.sequencer.advance_gating_sequence(index, s + 1);
            proof {
                self.lemma_subscribers_advanced(pre);
            }
            Some(s)
        } else {
            self.sequencer.advance_gating_sequence(index, s);
            proof {
                self.lemma_subscribers_advanced(pre);
            }
            None
        }
    }

    /// Advancing a subscriber's read position keeps the ring well formed.
    proof fn lemma_subscribers_advanced(&self, pre: RingBuffer<T>)
        requires
            pre.wf(),
            self.sequencer.wf(),
            self.capacity == pre.capacity,
            self.buffer@ == pre.buffer@,
            self.log@ == pre.log@,
            self.sequencer.cursor() == pre.sequencer.cursor(),
            self.sequencer.capacity() == pre.sequencer.capacity(),
            self.sequencer.gating().len() == pre.sequencer.gating().len(),
            forall|i: int|
                0 <= i < pre.sequencer.gating().len() ==> pre.sequencer.gating()[i]
                    <= #[trigger] self.sequencer.gating()[i],
        ensures
            self.wf(),
    {
        assert forall|i: int| 0 <= i < self.buffer@.len() implies #[trigger] self.slot_ok(i) by {
            assert(pre.slot_ok(i));
        }
        assert forall|k: int| #![trigger self.in_window(k)] self.in_window(k) implies self.buffer@[k
            % (self.capacity as int)].seq() == k by {
            assert(pre.in_window(k));
        }
        assert forall|i: int| 0 <= i < self.sequencer.gating().len() implies #[trigger] self.sequencer.gating()[i] >= 1 by {
            assert(pre.sequencer.gating()[i] >= 1);
        }
    }

    /// The number of registered subscribers.
    pub fn num_subscribers(&self) -> (n: usize)
        ensures
            n == self.subscribers().len(),
    {
        self.sequencer.num_gating_sequences()
    }

    /// The read position of `sub`.
    pub fn subscriber_sequence(&self, sub: &Subscriber) -> (s: u64)
        requires
            self.wf(),
            self.valid_subscriber(sub),
        ensures
            s == self.subscribers()[sub.id()],
    {
        self.sequencer.gating_sequence(sub.index)
    }
}

impl<T> Default for RingBuffer<T> {
    /// A ring of 256 slots whose publishers wait for every subscriber.
    fn default() -> (r: Self)
        ensures
            r.wf(),
            r.capacity() == 256,
            r.cursor() == 0,
            r.subscribers() == Seq::<u64>::empty(),
            r.strategy() == WaitStrategy::AllSubscribers,
    {
        proof {
            lemma2_to64();
            assert(256u64 == pow2(8));
        }
        match Self::new(256) {
            Ok(ring) => ring,
            Err(_) => vstd::pervasive::unreached(),
        }
    }
}

} // verus!
