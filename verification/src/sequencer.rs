//! The sequencer hands out sequence numbers to publishers without letting them
//! overrun subscribers that have not read the events they would overwrite.
use vstd::prelude::*;
use crate::sequence::{min_of, Sequence, SequenceGroup};
use crate::wait_strategy::WaitStrategy;

verus! {

/// What one attempt to claim sequence numbers came to.
pub enum Claim {
    /// The numbers up to and including this one were claimed.
    Claimed(u64),
    /// The numbers up to and including this one were claimed; the publisher
    /// pauses for the duration before it goes on.
    ClaimedThenWait(u64, std::time::Duration),
    /// Claiming now would overwrite an event that a subscriber has not read:
    /// the publisher backs off and tries again.
    Wait,
}

/// Why a claim was refused outright.
#[derive(PartialEq, Eq, Structural, Debug)]
pub enum SequencerError {
    /// The count of numbers asked for was zero or more than the ring holds.
    InvalidCount,
}

/// Claiming the numbers up to `next` overwrites no event that a subscriber whose
/// next read is at one of `gating` has not read yet.
pub open spec fn claim_is_safe(next: int, capacity: int, gating: Seq<u64>) -> bool {
    forall|i: int| 0 <= i < gating.len() ==> next < gating[i] + capacity
}

/// Hands out sequence numbers to publishers.
pub struct Sequencer {
    cursor: Sequence,
    gating_sequence: Sequence,
    gating_sequences: SequenceGroup,
    ring_capacity: u64,
    wait_strategy: WaitStrategy,
}

impl Sequencer {
    /// The last sequence number handed out.
    pub closed spec fn cursor(&self) -> u64 {
        self.cursor@
    }

    /// The next read positions of the registered subscribers.
    pub closed spec fn gating(&self) -> Seq<u64> {
        self.gating_sequences@
    }

    /// The cached lower bound of the subscribers' read positions.
    pub closed spec fn gating_cache(&self) -> u64 {
        self.gating_sequence@
    }

    /// The number of events the ring holds.
    pub closed spec fn capacity(&self) -> u64 {
        self.ring_capacity
    }

    /// The policy followed when a claim would overrun a subscriber.
    pub closed spec fn strategy(&self) -> WaitStrategy {
        self.wait_strategy
    }

    /// The cached lower bound of the subscribers' positions stays below each of
    /// them and below the next number to hand out; under `AllSubscribers` no
    /// subscriber lags a whole ring behind.
    pub closed spec fn wf(&self) -> bool {
        &&& self.gating_sequence@ <= self.cursor@ + 1
        &&& forall|i: int|
            0 <= i < self.gating_sequences@.len() ==> self.gating_sequence@
                <= #[trigger] self.gating_sequences@[i] <= self.cursor@ + 1
        &&& (self.wait_strategy is AllSubscribers ==> claim_is_safe(
            self.cursor@ as int,
            self.ring_capacity as int,
            self.gating_sequences@,
        ))
        &&& (!(self.wait_strategy is AllSubscribers) ==> self.gating_sequence@ == 0)
    }

    /// What well-formedness says of the subscribers' read positions.
    pub proof fn lemma_wf(&self)
        requires
            self.wf(),
        ensures
            self.gating_cache() <= self.cursor() + 1,
            forall|i: int|
                0 <= i < self.gating().len() ==> self.gating_cache() <= #[trigger] self.gating()[i]
                    <= self.cursor() + 1,
            self.strategy() is AllSubscribers ==> claim_is_safe(
                self.cursor() as int,
                self.capacity() as int,
                self.gating(),
            ),
            !(self.strategy() is AllSubscribers) ==> self.gating_cache() == 0,
    {
    }

    /// A sequencer for a ring of `ring_capacity` events that has handed out nothing.
    pub fn new(ring_capacity: u64, wait_strategy: WaitStrategy) -> (s: Self)
        ensures
            s.wf(),
            s.cursor() == 0,
            s.gating() == Seq::<u64>::empty(),
            s.capacity() == ring_capacity,
            s.strategy() == wait_strategy,
    {
        Sequencer {
            cursor: Sequence::with_value(0),
            gating_sequence: Sequence::with_value(0),
            gating_sequences: SequenceGroup::new(),
            ring_capacity,
            wait_strategy,
        }
    }

    /// The last sequence number handed out.
    pub fn get(&self) -> (c: u64)
        ensures
            c == self.cursor(),
    {
        self.cursor.get()
    }

    /// The number of registered subscribers.
    pub fn num_gating_sequences(&self) -> (n: usize)
        ensures
            n == self.gating().len(),
    {
        self.gating_sequences.len()
    }

    /// The next read position of the subscriber registered at `index`.
    pub fn gating_sequence(&self, index: usize) -> (v: u64)
        requires
            index < self.gating().len(),
        ensures
            v == self.gating()[index as int],
    {
        self.gating_sequences.get(index)
    }

    /// Registers the read position of a new subscriber; its index is the number
    /// of subscribers registered before. The position lies between the cached
    /// lower bound and the next number to hand out, and under `AllSubscribers`
    /// within a ring of the last number handed out.
    pub fn register_gating_sequence(&mut self, sequence: Sequence)
        requires
            old(self).wf(),
            old(self).gating_cache() <= sequence@ <= old(self).cursor() + 1,
            old(self).strategy() is AllSubscribers ==> old(self).cursor() < sequence@ + old(
                self,
            ).capacity(),
        ensures
            final(self).wf(),
            final(self).gating() == old(self).gating().push(sequence@),
            final(self).cursor() == old(self).cursor(),
            final(self).capacity() == old(self).capacity(),
            final(self).strategy() == old(self).strategy(),
    {
        self.gating_sequences.add(sequence);
    }

    /// Moves the read position of the subscriber at `index` forward to `value`.
    pub fn advance_gating_sequence(&mut self, index: usize, value: u64)
        requires
            old(self).wf(),
            index < old(self).gating().len(),
            old(self).gating()[index as int] <= value <= old(self).cursor() + 1,
        ensures
            final(self).wf(),
            final(self).gating() == old(self).gating().update(index as int, value),
            final(self).cursor() == old(self).cursor(),
            final(self).capacity() == old(self).capacity(),
            final(self).strategy() == old(self).strategy(),
    {
        self.gating_sequences.set(index, value);
    }

    /// Claims the next sequence number; see [`Sequencer::next_from`].
    pub fn next(&mut self) -> (c: Claim)
        requires
            old(self).wf(),
            old(self).capacity() >= 1,
            old(self).cursor() < u64::MAX,
        ensures
            final(self).wf(),
            claim_outcome(*old(self), *final(self), 1, c),
            old(self).strategy() is WaitForDuration ==> (c is ClaimedThenWait <==> old(self).cursor()
                + 1 >= old(self).capacity()),
            old(self).strategy() is NoWait ==> c is Claimed,
    {
        match self.next_from(1) {
            Ok(c) => c,
            Err(_) => Claim::Wait,
        }
    }

    /// One attempt to claim the next `n` sequence numbers.
    ///
    /// Under `AllSubscribers` the claim waits while it would overwrite an event
    /// that a subscriber has not read; the other strategies claim at once.
    pub fn next_from(&mut self, n: u64) -> (r: Result<Claim, SequencerError>)
        requires
            old(self).wf(),
            1 <= n <= old(self).capacity() ==> old(self).cursor() + n <= u64::MAX,
        ensures
            final(self).wf(),
            r is Err <==> (n < 1 || n > old(self).capacity()),
            r is Err ==> final(self).cursor() == old(self).cursor() && final(self).gating()
                == old(self).gating(),
            r matches Ok(c) ==> claim_outcome(*old(self), *final(self), n, c),
            r matches Ok(c) ==> (old(self).strategy() is WaitForDuration ==> (c is ClaimedThenWait
                <==> old(self).cursor() + n >= old(self).capacity()) && !(c is Wait)),
            r matches Ok(c) ==> (old(self).strategy() is NoWait ==> c is Claimed),
    {
        proof {
            self.lemma_wf();
        }
        if n < 1 || n > self.ring_capacity {
            return Err(SequencerError::InvalidCount);
        }
        let current = self.cursor.get();
        let next = current + n;
        let cached = self.gating_sequence.get();
        if next - cached >= self.ring_capacity || cached > current {
            proof {
                lemma_min_of_bounds(self.gating_sequences@, (current + 1) as u64);
            }
            let gating = self.gating_sequences.minimum_sequence(current + 1);
            match self.wait_strategy {
                WaitStrategy::AllSubscribers => {
                    if next - gating >= self.ring_capacity {
                        proof {
                            lemma_min_of_witness(self.gating_sequences@, (current + 1) as u64);
                        }
                        return Ok(Claim::Wait);
                    }
                },
                WaitStrategy::NoWait => {
                    let _previous = self.cursor.set(next);
                    return Ok(Claim::Claimed(next));
                },
                WaitStrategy::WaitForDuration(wait) => {
                    let _previous = self.cursor.set(next);
                    return Ok(Claim::ClaimedThenWait(next, wait));
                },
            }
            self.gating_sequence.set(gating);
        }
        let _previous = self.cursor.set(next);
        Ok(Claim::Claimed(next))
    }
}

/// Whether a claim of the numbers up to `next` must look at the subscribers'
/// positions, because the cached bound does not show it safe.
pub open spec fn needs_gating_check(pre: Sequencer, next: int) -> bool {
    next >= pre.gating_cache() + pre.capacity() || pre.gating_cache() > pre.cursor()
}

/// What one attempt to claim `n` numbers does to a sequencer: `Wait` only under
/// `AllSubscribers` and exactly when the claim would overrun a subscriber;
/// otherwise the cursor moves on by `n`, and under `WaitForDuration` the
/// publisher pauses whenever the cached bound did not show the claim safe.
pub open spec fn claim_outcome(pre: Sequencer, post: Sequencer, n: u64, c: Claim) -> bool {
    let next = pre.cursor() + n;
    let slow = needs_gating_check(pre, next);
    &&& post.gating() == pre.gating()
    &&& post.capacity() == pre.capacity()
    &&& post.strategy() == pre.strategy()
    &&& (c is Wait <==> (pre.strategy() is AllSubscribers && !claim_is_safe(
        next,
        pre.capacity() as int,
        pre.gating(),
    )))
    &&& (c is Wait ==> post.cursor() == pre.cursor())
    &&& (c matches Claim::Claimed(s) ==> s == next && post.cursor() == next && !(
    pre.strategy() is WaitForDuration && slow))
    &&& (c matches Claim::ClaimedThenWait(s, d) ==> s == next && post.cursor() == next && slow
        && pre.strategy() == WaitStrategy::WaitForDuration(d))
    &&& post.gating_cache() == (if slow && pre.strategy() is AllSubscribers && !(c is Wait) {
        min_of(pre.gating(), (pre.cursor() + 1) as u64)
    } else {
        pre.gating_cache()
    })
}

/// `min_of` lies below its start and each element.
pub proof fn lemma_min_of_bounds(values: Seq<u64>, start: u64)
    ensures
        min_of(values, start) <= start,
        forall|i: int| 0 <= i < values.len() ==> min_of(values, start) <= #[trigger] values[i],
    decreases values.len(),
{
    if values.len() > 0 {
        lemma_min_of_bounds(values.drop_last(), start);
        assert forall|i: int| 0 <= i < values.len() implies min_of(values, start)
            <= #[trigger] values[i] by {
            if i < values.len() - 1 {
                assert(values[i] == values.drop_last()[i]);
            }
        }
    }
}

/// `min_of` is its start or one of the elements.
pub proof fn lemma_min_of_witness(values: Seq<u64>, start: u64)
    ensures
        min_of(values, start) == start || exists|i: int|
            0 <= i < values.len() && min_of(values, start) == #[trigger] values[i],
    decreases values.len(),
{
    if values.len() > 0 {
        lemma_min_of_witness(values.drop_last(), start);
        let rest = min_of(values.drop_last(), start);
        if values.last() >= rest && rest != start {
            let i = choose|i: int|
                0 <= i < values.drop_last().len() && rest == #[trigger] values.drop_last()[i];
            assert(values[i] == values.drop_last()[i]);
        }
        assert(values[values.len() - 1] == values.last());
    }
}

} // verus!
