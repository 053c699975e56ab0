use eventador::{AsyncPublisher, FlushOutcome, PublishError, RingBuffer, WaitStrategy};

#[test]
fn publisher_buffers_at_least_one_event() {
    let mut publisher = AsyncPublisher::<usize>::new(1, 0);
    assert!(publisher.poll_ready());
    assert!(publisher.start_send(5).is_ok());
    assert!(!publisher.poll_ready());
}

#[test]
fn publisher_flushes_in_send_order() {
    let mut ring = RingBuffer::<usize>::new(4).unwrap();
    let subscriber = ring.subscribe(1);
    let mut publisher = AsyncPublisher::<usize>::new(1, 3);
    for i in 10..13 {
        let i: usize = i;
        assert!(publisher.poll_ready());
        assert!(publisher.start_send(i).is_ok());
    }
    assert!(!publisher.poll_ready());
    assert!(matches!(publisher.poll_flush(&mut ring), FlushOutcome::Flushed));
    assert!(publisher.poll_ready());
    let mut seen = Vec::new();
    while let Some(seq) = subscriber.recv(&mut ring) {
        seen.push(*ring.get(seq, 1).unwrap());
    }
    assert_eq!(vec![10, 11, 12], seen);
}

#[test]
fn publisher_flush_pends_on_full_ring() {
    let mut ring = RingBuffer::<usize>::new(2).unwrap();
    let subscriber = ring.subscribe(1);
    let mut publisher = AsyncPublisher::<usize>::new(1, 3);
    for i in 0..3 {
        let i: usize = i;
        assert!(publisher.start_send(i).is_ok());
    }
    assert!(matches!(publisher.poll_flush(&mut ring), FlushOutcome::Pending));
    assert_eq!(1, publisher.buffered_len());
    assert_eq!(Some(1), subscriber.recv(&mut ring));
    assert_eq!(Some(&0), ring.get(1, 1));
    assert!(matches!(publisher.poll_flush(&mut ring), FlushOutcome::Flushed));
    assert_eq!(Some(2), subscriber.recv(&mut ring));
    assert_eq!(Some(3), subscriber.recv(&mut ring));
    assert_eq!(Some(&1), ring.get(2, 1));
    assert_eq!(Some(&2), ring.get(3, 1));
}

#[test]
fn publisher_flush_pauses_under_wait_for_duration() {
    let pause = std::time::Duration::from_millis(5);
    let mut ring =
        RingBuffer::<usize>::with_strategy(2, WaitStrategy::WaitForDuration(pause)).unwrap();
    let mut publisher = AsyncPublisher::<usize>::new(1, 2);
    assert!(publisher.start_send(1).is_ok());
    assert!(publisher.start_send(2).is_ok());
    match publisher.poll_flush(&mut ring) {
        FlushOutcome::Paused(d) => assert_eq!(pause, d),
        _ => panic!("the flush should pause"),
    }
    assert_eq!(0, publisher.buffered_len());
    assert_eq!(Some(&1), ring.get(1, 1));
    assert_eq!(Some(&2), ring.get(2, 1));
    assert!(matches!(publisher.poll_flush(&mut ring), FlushOutcome::Flushed));
    assert!(publisher.start_send(3).is_ok());
    assert!(matches!(publisher.poll_flush(&mut ring), FlushOutcome::Paused(_)));
}

#[test]
fn publisher_close_takes_no_more_events() {
    let mut ring = RingBuffer::<usize>::new(2).unwrap();
    let mut publisher = AsyncPublisher::<usize>::new(1, 4);
    assert!(publisher.start_send(1).is_ok());
    assert!(matches!(publisher.poll_close(&mut ring), FlushOutcome::Flushed));
    assert!(!publisher.poll_ready());
}

#[test]
fn publish_error_message() {
    assert_eq!(
        "async-publisher could not get an overwriteable envelope from the ring",
        PublishError.message()
    );
}
