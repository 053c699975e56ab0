use eventador::{Claim, Sequence, SequenceGroup, Sequencer, SequencerError, WaitStrategy};

#[test]
fn sequence_get_set_and_swap() {
    let mut s = Sequence::with_value(5);
    assert_eq!(5, s.get());
    assert_eq!(5, s.set(9));
    assert_eq!(9, s.get());
    assert!(s.compare_exchange(9, 11));
    assert_eq!(11, s.get());
    assert!(!s.compare_exchange(9, 12));
    assert_eq!(11, s.get());
    assert!(s.compare_and_swap(11, 1));
    assert!(!s.compare_and_swap(11, 2));
    assert_eq!(1, s.get());
}

#[test]
fn sequence_increment_wraps() {
    let mut s = Sequence::with_value(41);
    assert_eq!(41, s.increment());
    assert_eq!(42, s.get());
    let mut top = Sequence::with_value(u64::MAX);
    assert_eq!(u64::MAX, top.increment());
    assert_eq!(0, top.get());
}

#[test]
fn sequence_minimum_and_maximum() {
    let s = Sequence::with_value(7);
    assert_eq!(3, s.minimum(3));
    assert_eq!(7, s.minimum(8));
    let seqs = [Sequence::with_value(3), Sequence::with_value(9), Sequence::with_value(4)];
    assert_eq!(9, Sequence::get_maximum_sequence(&seqs, 5));
    assert_eq!(10, Sequence::get_maximum_sequence(&seqs, 10));
    assert_eq!(5, Sequence::get_maximum_sequence(&[], 5));
}

#[test]
fn sequence_compares_by_value() {
    assert_eq!(Sequence::with_value(2), Sequence::with_value(2));
    assert!(Sequence::with_value(2) < Sequence::with_value(3));
    assert!(Sequence::with_value(4) > Sequence::with_value(3));
}

#[test]
fn init_is_none() {
    let sg = SequenceGroup::new();
    assert!(sg.to_vec().is_none())
}

#[test]
fn updates_atomically() {
    let mut sg = SequenceGroup::new();

    let s1 = Sequence::with_value(1);
    sg.add(s1);
}

#[test]
fn sequence_group_minimum() {
    let mut sg = SequenceGroup::new();
    assert_eq!(None, sg.get_minimum_sequence(10));
    sg.add(Sequence::with_value(7));
    sg.add(Sequence::with_value(4));
    assert_eq!(Some(4), sg.get_minimum_sequence(10));
    assert_eq!(Some(2), sg.get_minimum_sequence(2));
    assert_eq!(Some(vec![7, 4]), sg.to_vec());
    sg.set(1, 12);
    assert_eq!(7, sg.minimum_sequence(20));
    assert_eq!(12, sg.get(1));
    assert_eq!(2, sg.len());
}

#[test]
fn sequencer_refuses_bad_counts() {
    let mut seq = Sequencer::new(4, WaitStrategy::AllSubscribers);
    assert!(matches!(seq.next_from(0), Err(SequencerError::InvalidCount)));
    assert!(matches!(seq.next_from(5), Err(SequencerError::InvalidCount)));
    assert_eq!(0, seq.get());
    assert!(matches!(seq.next_from(4), Ok(Claim::Claimed(4))));
    assert!(matches!(seq.next(), Claim::Claimed(5)));
}

#[test]
fn sequencer_waits_for_slow_subscriber() {
    let mut seq = Sequencer::new(2, WaitStrategy::AllSubscribers);
    seq.register_gating_sequence(Sequence::with_value(1));
    assert_eq!(1, seq.num_gating_sequences());
    assert!(matches!(seq.next(), Claim::Claimed(1)));
    assert!(matches!(seq.next(), Claim::Claimed(2)));
    assert!(matches!(seq.next(), Claim::Wait));
    assert_eq!(2, seq.get());
    seq.advance_gating_sequence(0, 2);
    assert_eq!(2, seq.gating_sequence(0));
    assert!(matches!(seq.next(), Claim::Claimed(3)));
}

#[test]
fn sequencer_no_wait_never_waits() {
    let mut seq = Sequencer::new(2, WaitStrategy::NoWait);
    seq.register_gating_sequence(Sequence::with_value(1));
    for expected in 1..10u64 {
        match seq.next() {
            Claim::Claimed(s) => assert_eq!(expected, s),
            _ => panic!("no-wait claims at once"),
        }
    }
}

#[test]
fn sequencer_registers_a_position_behind_the_cursor() {
    let mut seq = Sequencer::new(4, WaitStrategy::AllSubscribers);
    assert!(matches!(seq.next_from(2), Ok(Claim::Claimed(2))));
    seq.register_gating_sequence(Sequence::with_value(1));
    assert_eq!(1, seq.gating_sequence(0));
    assert!(matches!(seq.next_from(2), Ok(Claim::Claimed(4))));
    assert!(matches!(seq.next(), Claim::Wait));
    seq.advance_gating_sequence(0, 2);
    assert!(matches!(seq.next(), Claim::Claimed(5)));
}
