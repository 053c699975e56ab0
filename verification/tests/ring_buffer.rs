use eventador::{PublishOutcome, RingBuffer, RingBufferError, StitchMessage, WaitStrategy};
use std::time::Duration;

fn usize_tag() -> u64 {
    StitchMessage::hash_type::<usize>()
}

#[test]
fn ring_buffer_error_if_not_power_of_two() {
    assert!(RingBuffer::<usize>::new(3).is_err());
}

#[test]
fn ring_buffer_success_if_power_of_two() {
    assert!(RingBuffer::<usize>::new(16).is_ok());
}

#[test]
fn ring_rejects_capacities_of_zero_and_one() {
    assert!(matches!(RingBuffer::<usize>::new(0), Err(RingBufferError::NotPowerOfTwo)));
    assert!(matches!(RingBuffer::<usize>::new(1), Err(RingBufferError::NotPowerOfTwo)));
    assert!(RingBuffer::<usize>::new(2).is_ok());
    assert!(RingBuffer::<usize>::new(12).is_err());
}

#[test]
fn ring_index_is_sequence_modulo_capacity() {
    let ring = RingBuffer::<usize>::new(16).unwrap();
    assert_eq!(1, ring.idx_from_sequence(17));
    assert_eq!(0, ring.idx_from_sequence(32));
    assert_eq!(15, ring.idx_from_sequence(15));
}

#[test]
fn lib_publish_and_subscribe() {
    let tag = usize_tag();
    let mut ring = RingBuffer::<usize>::new(2).unwrap();
    let subscriber = ring.subscribe(tag);
    assert_eq!(1, subscriber.sequence(&ring));

    let mut i: usize = 1234;
    assert!(matches!(ring.publish(tag, i), PublishOutcome::Published(1)));
    let seq = subscriber.recv(&mut ring).unwrap();
    assert_eq!(Some(&i), ring.get(seq, tag));

    i += 1111;
    assert!(matches!(ring.publish(tag, i), PublishOutcome::Published(2)));
    let seq = subscriber.recv(&mut ring).unwrap();
    assert_eq!(2, seq);
    assert_eq!(Some(&2345), ring.get(seq, tag));
    assert_eq!(3, subscriber.sequence(&ring));
    assert_eq!(None, subscriber.recv(&mut ring));
}

#[derive(Debug, Eq, PartialEq)]
enum TestEnum {
    SampleA,
}

#[test]
fn lib_enum_specific_subscription() {
    let enum_tag = StitchMessage::hash_type::<TestEnum>();
    let mut ring = RingBuffer::<TestEnum>::new(4).unwrap();

    let subscriber = ring.subscribe(enum_tag);
    assert_eq!(1, subscriber.sequence(&ring));

    assert!(matches!(ring.publish(enum_tag, TestEnum::SampleA), PublishOutcome::Published(1)));

    let seq = subscriber.recv(&mut ring).unwrap();
    assert_eq!(Some(&TestEnum::SampleA), ring.get(seq, enum_tag));
}

#[test]
fn eventador_enum_specific_subscription() {
    let enum_tag = StitchMessage::hash_type::<TestEnum>();
    let res = RingBuffer::<TestEnum>::new(4);
    assert!(res.is_ok());
    let mut ring = res.unwrap();

    let subscriber = ring.subscribe(enum_tag);
    assert_eq!(1, subscriber.sequence(&ring));

    assert!(matches!(ring.publish(enum_tag, TestEnum::SampleA), PublishOutcome::Published(1)));

    let seq = subscriber.recv(&mut ring).unwrap();
    assert_eq!(Some(&TestEnum::SampleA), ring.get(seq, enum_tag));
}

#[test]
fn eventador_publish_and_subscribe() {
    let tag = usize_tag();
    let res = RingBuffer::<usize>::new(4);
    assert!(res.is_ok());
    let mut ring = res.unwrap();

    let subscriber = ring.subscribe(tag);
    assert_eq!(1, subscriber.sequence(&ring));

    let mut i: usize = 1234;
    assert!(matches!(ring.publish(tag, i), PublishOutcome::Published(1)));
    let seq = subscriber.recv(&mut ring).unwrap();
    assert_eq!(Some(&i), ring.get(seq, tag));

    i += 1;
    assert!(matches!(ring.publish(tag, i), PublishOutcome::Published(2)));
    let seq = subscriber.recv(&mut ring).unwrap();
    assert_eq!(Some(&1235), ring.get(seq, tag));
}

#[test]
fn ring_skips_events_of_other_types() {
    let enum_tag = StitchMessage::hash_type::<TestEnum>();
    let mut ring = RingBuffer::<TestEnum>::new(4).unwrap();
    let subscriber = ring.subscribe(enum_tag);
    assert_eq!(1, subscriber.sequence(&ring));

    assert!(matches!(ring.publish(enum_tag + 1, TestEnum::SampleA), PublishOutcome::Published(1)));
    assert!(matches!(ring.publish(enum_tag, TestEnum::SampleA), PublishOutcome::Published(2)));
    let seq = subscriber.recv(&mut ring).unwrap();
    assert_eq!(2, seq);
    assert_eq!(Some(&TestEnum::SampleA), ring.get(seq, enum_tag));
    assert_eq!(None, ring.get(1, enum_tag));
    assert_eq!(3, subscriber.sequence(&ring));
}

#[test]
fn ring_subscriber_misses_earlier_events() {
    let tag = usize_tag();
    let mut ring = RingBuffer::<usize>::new(4).unwrap();
    assert!(matches!(ring.publish(tag, 7), PublishOutcome::Published(1)));
    let subscriber = ring.subscribe(tag);
    assert_eq!(2, subscriber.sequence(&ring));
    assert_eq!(None, subscriber.recv(&mut ring));
    assert!(matches!(ring.publish(tag, 8), PublishOutcome::Published(2)));
    let seq = subscriber.recv(&mut ring).unwrap();
    assert_eq!(Some(&8), ring.get(seq, tag));
}

#[test]
fn test_wait_for_all_subscribers() {
    let tag = usize_tag();
    let mut ring = RingBuffer::<usize>::new(2).unwrap();
    let subscriber = ring.subscribe(tag);
    assert!(matches!(ring.publish(tag, 0), PublishOutcome::Published(1)));
    assert!(matches!(ring.publish(tag, 1), PublishOutcome::Published(2)));
    match ring.publish(tag, 2) {
        PublishOutcome::Full(m) => assert_eq!(2, m),
        _ => panic!("the ring should be full of unread events"),
    }
    let seq = subscriber.recv(&mut ring).unwrap();
    assert_eq!(Some(&0), ring.get(seq, tag));
    assert!(matches!(ring.publish(tag, 2), PublishOutcome::Published(3)));
}

#[test]
fn test_no_wait() {
    let tag = usize_tag();
    let mut ring = RingBuffer::<usize>::with_strategy(2, WaitStrategy::NoWait).unwrap();
    let subscriber = ring.subscribe(tag);
    for i in 0..3 {
        let i: usize = i;
        assert!(matches!(ring.publish(tag, i), PublishOutcome::Published(_)));
    }
    let seq = subscriber.recv(&mut ring).unwrap();
    assert_eq!(3, seq);
    assert_eq!(Some(&2), ring.get(seq, tag));
    assert_eq!(None, ring.get(1, tag));
}

#[test]
fn test_wait_for_duration() {
    let tag = usize_tag();
    let pause = Duration::from_secs(1);
    let mut ring =
        RingBuffer::<usize>::with_strategy(2, WaitStrategy::WaitForDuration(pause)).unwrap();
    let subscriber1 = ring.subscribe(tag);
    let subscriber2 = ring.subscribe(tag);
    assert!(matches!(ring.publish(tag, 0), PublishOutcome::Published(1)));
    let seq = subscriber1.recv(&mut ring).unwrap();
    assert_eq!(Some(&0), ring.get(seq, tag));
    match ring.publish(tag, 1) {
        PublishOutcome::PublishedThenWait(2, d) => assert_eq!(pause, d),
        _ => panic!("the publisher should pause"),
    }
    assert!(matches!(ring.publish(tag, 2), PublishOutcome::PublishedThenWait(3, _)));
    let seq = subscriber2.recv(&mut ring).unwrap();
    assert_eq!(Some(&2), ring.get(seq, tag));
}

#[test]
fn ring_default_has_256_slots() {
    let tag = usize_tag();
    let mut ring = RingBuffer::<usize>::default();
    let subscriber = ring.subscribe(tag);
    for i in 0..256 {
        let i: usize = i;
        assert!(matches!(ring.publish(tag, i), PublishOutcome::Published(_)));
    }
    assert!(matches!(ring.publish(tag, 256), PublishOutcome::Full(256)));
    assert_eq!(Some(1), subscriber.recv(&mut ring));
    assert_eq!(256, ring.idx_from_sequence(256) + 256);
}

#[test]
fn ring_envelope_holds_latest_event() {
    let tag = usize_tag();
    let mut ring = RingBuffer::<usize>::with_strategy(2, WaitStrategy::NoWait).unwrap();
    assert!(matches!(ring.publish(tag, 5), PublishOutcome::Published(1)));
    assert!(matches!(ring.publish(tag, 6), PublishOutcome::Published(2)));
    assert!(matches!(ring.publish(tag, 7), PublishOutcome::Published(3)));
    let envelope = ring.get_envelope(1).unwrap();
    assert_eq!(3, envelope.sequence());
    assert_eq!(Some(&7), envelope.read(tag));
    assert_eq!(3, ring.sequencer().get());
    assert_eq!(0, ring.num_subscribers());
}

#[test]
fn ring_envelope_slot_is_sequence_modulo_capacity() {
    let ring = RingBuffer::<usize>::new(4).unwrap();
    let a = ring.get_envelope(3).unwrap();
    let b = ring.get_envelope(7).unwrap();
    let c = ring.get_envelope(4).unwrap();
    assert!(std::ptr::eq(a, b));
    assert!(!std::ptr::eq(a, c));
    assert!(std::ptr::eq(c, ring.get_envelope(0).unwrap()));
}

#[test]
fn ring_pauses_from_the_capacity_on_under_wait_for_duration() {
    let tag = usize_tag();
    let pause = Duration::from_millis(1);
    let mut ring =
        RingBuffer::<usize>::with_strategy(4, WaitStrategy::WaitForDuration(pause)).unwrap();
    for i in 1..4u64 {
        assert!(matches!(ring.publish(tag, i as usize), PublishOutcome::Published(s) if s == i));
    }
    for i in 4..7u64 {
        assert!(matches!(ring.publish(tag, i as usize), PublishOutcome::PublishedThenWait(s, _) if s == i));
    }
}

#[test]
fn ring_buffer_publish_and_subscribe() {
    let tag = usize_tag();
    let rb_res = RingBuffer::<usize>::new(4);
    assert!(rb_res.is_ok());
    let mut rb = rb_res.unwrap();

    let sub = rb.subscribe(tag);
    assert_eq!(0, sub.last_read(&rb));

    let mut i: usize = 1234;
    assert!(matches!(rb.publish(tag, i), PublishOutcome::Published(1)));
    let seq = sub.recv(&mut rb).unwrap();
    assert_eq!(Some(&i), rb.get(seq, tag));
    assert_eq!(1, sub.last_read(&rb));

    i += 1;
    assert!(matches!(rb.publish(tag, i), PublishOutcome::Published(2)));
    let seq = sub.recv(&mut rb).unwrap();
    assert_eq!(Some(&i), rb.get(seq, tag));
}
