use eventador::{
    accept_step, channel_factory, hand_off_step, hand_off_step_with, poll_action, sync_channel_factory, AcceptAction,
    AcceptEvent, HandOffPolicy, PollAction, Readiness, ReadyOutcome,
};

#[test]
fn readiness_is_set_once() {
    let mut r = Readiness::new();
    assert!(!r.is_ready());
    assert!(!r.write_ready());
    assert_eq!(ReadyOutcome::Notified, r.ready());
    assert!(r.is_ready());
    assert!(r.write_ready());
    assert_eq!(ReadyOutcome::AlreadyReady, r.ready());
}

#[test]
fn accept_loop_decisions() {
    assert_eq!(AcceptAction::Serve, accept_step(AcceptEvent::Connection { peer_known: true }));
    assert_eq!(
        AcceptAction::Stop { failed: true },
        accept_step(AcceptEvent::Connection { peer_known: false })
    );
    assert_eq!(AcceptAction::Continue, accept_step(AcceptEvent::Failed));
    assert_eq!(AcceptAction::Stop { failed: false }, accept_step(AcceptEvent::Closed));
    assert_eq!(AcceptAction::Continue, hand_off_step(true, true));
    assert_eq!(AcceptAction::Continue, hand_off_step(false, false));
    assert_eq!(AcceptAction::Stop { failed: true }, hand_off_step(true, false));
}

#[test]
fn poll_tokens_select_tasks() {
    assert_eq!(PollAction::Read, poll_action(0));
    assert_eq!(PollAction::Write, poll_action(1));
    assert_eq!(PollAction::Unhandled, poll_action(7));
}

#[test]
fn channel_factory_honours_bound() {
    let (s, r) = channel_factory::<u8>(Some(2));
    assert_eq!(Some(2), s.capacity());
    assert_eq!(Some(2), r.capacity());
    let (s, _r) = channel_factory::<u8>(None);
    assert_eq!(None, s.capacity());
    let (s, r) = sync_channel_factory::<u8>(Some(1));
    assert_eq!(Some(1), s.capacity());
    s.send(3).unwrap();
    assert_eq!(3, r.recv().unwrap());
    let (s, _r) = sync_channel_factory::<u8>(None);
    assert_eq!(None, s.capacity());
}

#[test]
fn agent_keeps_accepting_after_an_untaken_client() {
    assert_eq!(AcceptAction::Continue, hand_off_step_with(HandOffPolicy::KeepAccepting, true, false));
    assert_eq!(AcceptAction::Continue, hand_off_step_with(HandOffPolicy::KeepAccepting, false, false));
    assert_eq!(
        AcceptAction::Stop { failed: true },
        hand_off_step_with(HandOffPolicy::StopWhenUntaken, true, false)
    );
    assert_eq!(AcceptAction::Continue, hand_off_step_with(HandOffPolicy::StopWhenUntaken, true, true));
}
