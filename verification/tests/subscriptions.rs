use hinata::message::{
    dispose_decision, OutMessage, Subscription, UnSubscribePolicy, REPLY_QUEUE_CAPACITY,
};
use tokio::sync::mpsc::error::TryRecvError;
use tokio::sync::mpsc::Receiver;

fn response(bytes: &[u8]) -> OutMessage {
    OutMessage::Response(bytes.to_vec())
}

fn take_response(receiver: &mut Receiver<OutMessage>) -> Vec<u8> {
    match receiver.try_recv() {
        Ok(OutMessage::Response(bytes)) => bytes,
        other => panic!("a response was expected, not {:?}", other),
    }
}

#[test]
fn count_one_disposes_at_the_first_delivery() {
    let policy = UnSubscribePolicy::Count(1);
    assert!(policy.need_dispose(&response(&[1, 2, 3]), 1));
    assert!(policy.need_dispose(&response(&[]), 1));
    // Before the first delivery the counter is zero, and nothing is disposed.
    assert!(!policy.need_dispose(&response(&[1, 2, 3]), 0));
}

#[test]
fn count_n_disposes_from_the_nth_delivery_on() {
    let policy = UnSubscribePolicy::Count(3);
    assert!(!policy.need_dispose(&response(&[9]), 1));
    assert!(!policy.need_dispose(&response(&[9]), 2));
    assert!(policy.need_dispose(&response(&[9]), 3));
    assert!(policy.need_dispose(&response(&[9]), 4));
    assert!(policy.need_dispose(&response(&[9]), usize::MAX));
}

#[test]
fn never_disposes_on_no_payload() {
    let policy = UnSubscribePolicy::Never;
    assert!(!policy.need_dispose(&response(&[]), 1));
    assert!(!policy.need_dispose(&response(&[0; 63]), usize::MAX));
}

#[test]
fn not_on_stays_alive_while_the_byte_matches() {
    let policy = UnSubscribePolicy::SpecificNotOn(4, 0);
    assert!(!policy.need_dispose(&response(&[0xE2, 0, 0, 0xFF, 0, 0xFF, 0]), 1));
    assert!(!policy.need_dispose(&response(&[7, 7, 7, 7, 0]), 5));
    assert!(policy.need_dispose(&response(&[0xE2, 0, 0, 0xFF, 3, 0xFD]), 2));
    assert!(policy.need_dispose(&response(&[0, 0, 0, 0, 1]), 1));
    // A payload of four bytes or fewer has no byte at offset 4.
    assert!(policy.need_dispose(&response(&[0, 0, 0, 0]), 1));
    assert!(policy.need_dispose(&response(&[]), 1));
}

#[test]
fn is_on_disposes_when_the_byte_matches() {
    let policy = UnSubscribePolicy::SpecificIsOn(4, 0);
    assert!(policy.need_dispose(&response(&[9, 9, 9, 9, 0]), 1));
    assert!(!policy.need_dispose(&response(&[9, 9, 9, 9, 1]), 1));
    assert!(!policy.need_dispose(&response(&[9, 9, 9, 9, 0xFF, 0]), 7));
    assert!(policy.need_dispose(&response(&[9, 9, 9, 9]), 1));
    assert!(policy.need_dispose(&response(&[]), 1));
    let other = UnSubscribePolicy::SpecificIsOn(0, 0xAB);
    assert!(other.need_dispose(&response(&[0xAB]), 1));
    assert!(!other.need_dispose(&response(&[0xAC]), 1));
}

#[test]
fn a_disconnect_always_disposes() {
    for policy in [
        UnSubscribePolicy::Count(100),
        UnSubscribePolicy::Never,
        UnSubscribePolicy::SpecificIsOn(0, 1),
        UnSubscribePolicy::SpecificNotOn(0, 1),
    ] {
        assert!(policy.need_dispose(&OutMessage::DeviceDisconnect, 1));
    }
}

#[test]
fn the_decision_follows_policy_and_channel() {
    assert!(!dispose_decision(false, true));
    assert!(dispose_decision(true, true));
    assert!(dispose_decision(false, false));
    assert!(dispose_decision(true, false));
}

#[test]
fn a_fresh_subscription_has_no_deliveries() {
    let (subscription, mut receiver) = Subscription::new(UnSubscribePolicy::Count(2));
    assert_eq!(subscription.count(), 0);
    assert_eq!(subscription.policy(), UnSubscribePolicy::Count(2));
    assert!(matches!(receiver.try_recv(), Err(TryRecvError::Empty)));
}

#[test]
fn send_counts_and_delivers_in_order() {
    let (mut subscription, mut receiver) = Subscription::new(UnSubscribePolicy::Count(3));
    assert!(!subscription.send(response(&[1])));
    assert_eq!(subscription.count(), 1);
    assert!(!subscription.send(response(&[2, 2])));
    assert_eq!(subscription.count(), 2);
    assert!(subscription.send(response(&[3, 3, 3])));
    assert_eq!(subscription.count(), 3);
    assert_eq!(take_response(&mut receiver), vec![1]);
    assert_eq!(take_response(&mut receiver), vec![2, 2]);
    assert_eq!(take_response(&mut receiver), vec![3, 3, 3]);
    assert!(matches!(receiver.try_recv(), Err(TryRecvError::Empty)));
}

#[test]
fn a_closed_channel_disposes() {
    let (mut subscription, receiver) = Subscription::new(UnSubscribePolicy::Never);
    drop(receiver);
    assert!(subscription.send(response(&[1])));
    assert_eq!(subscription.count(), 1);
}

#[test]
fn a_full_channel_disposes_and_does_not_block() {
    let (mut subscription, mut receiver) = Subscription::new(UnSubscribePolicy::Never);
    for i in 0..REPLY_QUEUE_CAPACITY {
        assert!(!subscription.send(response(&[i as u8])));
    }
    assert!(subscription.send(response(&[0xFF])));
    assert_eq!(subscription.count(), REPLY_QUEUE_CAPACITY + 1);
    for i in 0..REPLY_QUEUE_CAPACITY {
        assert_eq!(take_response(&mut receiver), vec![i as u8]);
    }
    assert!(matches!(receiver.try_recv(), Err(TryRecvError::Empty)));
}

#[test]
fn send_no_check_delivers_without_counting() {
    let (mut subscription, mut receiver) = Subscription::new(UnSubscribePolicy::Count(1));
    subscription.send_no_check(OutMessage::DeviceDisconnect);
    assert_eq!(subscription.count(), 0);
    assert!(matches!(receiver.try_recv(), Ok(OutMessage::DeviceDisconnect)));
    drop(receiver);
    subscription.send_no_check(OutMessage::DeviceDisconnect);
}
