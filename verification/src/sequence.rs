//! Sequence numbers: the cursors that publishers and subscribers advance.
use vstd::prelude::*;

verus! {

/// The value that `x + 1` takes in 64-bit wrapping arithmetic.
pub open spec fn wrapping_succ(x: u64) -> u64 {
    if x == u64::MAX { 0 } else { (x + 1) as u64 }
}

/// A sequence number that a publisher or a subscriber advances.
#[derive(PartialEq, Eq, Structural, PartialOrd, Ord, Hash, Debug)]
pub struct Sequence {
    value: u64,
}

impl View for Sequence {
    type V = u64;

    closed spec fn view(&self) -> u64 {
        self.value
    }
}

impl Sequence {
    /// A sequence that starts at `initial_value`.
    pub fn with_value(initial_value: u64) -> (s: Self)
        ensures
            s@ == initial_value,
    {
        Sequence { value: initial_value }
    }

    /// The current value.
    pub fn get(&self) -> (v: u64)
        ensures
            v == self@,
    {
        self.value
    }

    /// Replaces the value and returns the one it held before.
    pub fn set(&mut self, new_value: u64) -> (previous: u64)
        ensures
            previous == old(self)@,
            final(self)@ == new_value,
    {
        let previous = self.value;
        self.value = new_value;
        previous
    }

    /// Stores `new_value` when the value is `expected`; tells whether it did.
    pub fn compare_exchange(&mut self, expected: u64, new_value: u64) -> (swapped: bool)
        ensures
            swapped == (old(self)@ == expected),
            final(self)@ == (if swapped { new_value } else { old(self)@ }),
    {
        if self.value == expected {
            self.value = new_value;
            true
        } else {
            false
        }
    }

    /// Stores `new_value` when the value is `expected`; tells whether the value was `expected`.
    pub fn compare_and_swap(&mut self, expected: u64, new_value: u64) -> (swapped: bool)
        ensures
            swapped == (old(self)@ == expected),
            final(self)@ == (if swapped { new_value } else { old(self)@ }),
    {
        self.compare_exchange(expected, new_value)
    }

    /// Adds one, wrapping at `u64::MAX`, and returns the value held before.
    pub fn increment(&mut self) -> (previous: u64)
        ensures
            previous == old(self)@,
            final(self)@ == wrapping_succ(old(self)@),
    {
        let previous = self.value;
        self.value = previous.wrapping_add(1);
        previous
    }

    /// The smaller of the value and `other`.
    pub fn minimum(&self, other: u64) -> (m: u64)
        ensures
            m == (if self@ < other { self@ } else { other }),
    {
        let value = self.get();
        if value < other {
            value
        } else {
            other
        }
    }

    /// The largest of `maximum` and the values of `sequences`.
    pub fn get_maximum_sequence(sequences: &[Sequence], maximum: u64) -> (m: u64)
        ensures
            m == max_of(sequences@.map_values(|s: Sequence| s@), maximum),
    {
        let mut m = maximum;
        let mut i: usize = 0;
        while i < sequences.len()
            invariant
                i <= sequences@.len(),
                m == max_of(sequences@.map_values(|s: Sequence| s@).take(i as int), maximum),
            decreases sequences@.len() - i,
        {
            let ghost vals = sequences@.map_values(|s: Sequence| s@);
            assert(vals.take(i + 1).drop_last() =~= vals.take(i as int));
            let value = sequences[i].get();
            if value > m {
                m = value;
            }
            i = i + 1;
        }
        assert(sequences@.map_values(|s: Sequence| s@).take(sequences@.len() as int)
            =~= sequences@.map_values(|s: Sequence| s@));
        m
    }
}

/// A group of gating sequences: the read positions of the subscribers that a
/// publisher must not overrun.
pub struct SequenceGroup {
    sequences: Vec<Sequence>,
}

impl View for SequenceGroup {
    type V = Seq<u64>;

    closed spec fn view(&self) -> Seq<u64> {
        self.sequences@.map_values(|s: Sequence| s@)
    }
}

impl SequenceGroup {
    /// An empty group.
    pub fn new() -> (g: Self)
        ensures
            g@ == Seq::<u64>::empty(),
    {
        SequenceGroup { sequences: Vec::new() }
    }

    /// The number of sequences in the group.
    pub fn len(&self) -> (n: usize)
        ensures
            n == self@.len(),
    {
        self.sequences.len()
    }

    /// Adds a sequence at the end of the group.
    pub fn add(&mut self, sequence: Sequence)
        ensures
            final(self)@ == old(self)@.push(sequence@),
    {
        self.sequences.push(sequence);
        assert(self@ =~= old(self)@.push(sequence@));
    }

    /// The value of the sequence at `index`.
    pub fn get(&self, index: usize) -> (v: u64)
        requires
            index < self@.len(),
        ensures
            v == self@[index as int],
    {
        self.sequences[index].get()
    }

    /// Sets the sequence at `index` to `value`.
    pub fn set(&mut self, index: usize, value: u64)
        requires
            index < old(self)@.len(),
        ensures
            final(self)@ == old(self)@.update(index as int, value),
    {
        let mut s = Sequence::with_value(value);
        std::mem::swap(&mut s, &mut self.sequences[index]);
        assert(self@ =~= old(self)@.update(index as int, value));
    }

    /// The values of the group, or `None` when nothing was ever added to it.
    pub fn to_vec(&self) -> (r: Option<Vec<u64>>)
        ensures
            r is None <==> self@.len() == 0,
            r matches Some(v) ==> v@ == self@,
    {
        if self.sequences.len() == 0 {
            return None;
        }
        let mut out: Vec<u64> = Vec::new();
        let mut i: usize = 0;
        while i < self.sequences.len()
            invariant
                i <= self@.len(),
                self@.len() == self.sequences@.len(),
                out@ == self@.take(i as int),
            decreases self@.len() - i,
        {
            out.push(self.sequences[i].get());
            i = i + 1;
            assert(out@ =~= self@.take(i as int));
        }
        assert(self@.take(self@.len() as int) =~= self@);
        Some(out)
    }

    /// The smallest of `minimum` and the values of the group, or `None` when the
    /// group is empty.
    pub fn get_minimum_sequence(&self, minimum: u64) -> (r: Option<u64>)
        ensures
            r is None <==> self@.len() == 0,
            r matches Some(m) ==> m == min_of(self@, minimum),
    {
        if self.sequences.len() == 0 {
            return None;
        }
        Some(self.minimum_sequence(minimum))
    }

    /// The smallest of `minimum` and the values of the group.
    pub fn minimum_sequence(&self, minimum: u64) -> (m: u64)
        ensures
            m == min_of(self@, minimum),
    {
        let mut m = minimum;
        let mut i: usize = 0;
        while i < self.sequences.len()
            invariant
                i <= self@.len(),
                self@.len() == self.sequences@.len(),
                m == min_of(self@.take(i as int), minimum),
            decreases self@.len() - i,
        {
            assert(self@.take(i + 1).drop_last() =~= self@.take(i as int));
            let value = self.sequences[i].get();
            if value < m {
                m = value;
            }
            i = i + 1;
        }
        assert(self@.take(self@.len() as int) =~= self@);
        m
    }
}

/// The largest of `start` and the elements of `values`.
pub open spec fn max_of(values: Seq<u64>, start: u64) -> u64
    decreases values.len(),
{
    if values.len() == 0 {
        start
    } else {
        let rest = max_of(values.drop_last(), start);
        if values.last() > rest { values.last() } else { rest }
    }
}

/// The smallest of `start` and the elements of `values`.
pub open spec fn min_of(values: Seq<u64>, start: u64) -> u64
    decreases values.len(),
{
    if values.len() == 0 {
        start
    } else {
        let rest = min_of(values.drop_last(), start);
        if values.last() < rest { values.last() } else { rest }
    }
}

} // verus!
