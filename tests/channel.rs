use crabbar::broadcast::Broadcast;

#[test]
fn late_subscriber_sees_only_later_items() {
    let mut ch: Broadcast<u32> = Broadcast::new(4);
    let early = ch.subscribe();
    assert_eq!(ch.try_publish(1), Ok(()));
    assert_eq!(ch.try_publish(2), Ok(()));
    let late = ch.subscribe();
    assert_eq!(ch.try_publish(3), Ok(()));
    assert_eq!(ch.try_recv(early), Some(1));
    assert_eq!(ch.try_recv(early), Some(2));
    assert_eq!(ch.try_recv(early), Some(3));
    assert_eq!(ch.try_recv(early), None);
    assert_eq!(ch.try_recv(late), Some(3));
    assert_eq!(ch.try_recv(late), None);
}

#[test]
fn full_channel_refuses_until_drained() {
    let mut ch: Broadcast<String> = Broadcast::new(2);
    let a = ch.subscribe();
    assert_eq!(ch.try_publish("x".to_string()), Ok(()));
    assert_eq!(ch.try_publish("y".to_string()), Ok(()));
    assert!(ch.is_full());
    assert_eq!(ch.try_publish("z".to_string()), Err("z".to_string()));
    assert_eq!(ch.try_recv(a), Some("x".to_string()));
    assert!(!ch.is_full());
    assert_eq!(ch.try_publish("z".to_string()), Ok(()));
    assert_eq!(ch.try_recv(a), Some("y".to_string()));
    assert_eq!(ch.try_recv(a), Some("z".to_string()));
}

#[test]
fn slow_subscriber_holds_back_everyone() {
    let mut ch: Broadcast<u8> = Broadcast::new(1);
    let fast = ch.subscribe();
    let slow = ch.subscribe();
    assert_eq!(ch.try_publish(1), Ok(()));
    assert_eq!(ch.try_recv(fast), Some(1));
    assert_eq!(ch.try_publish(2), Err(2));
    assert_eq!(ch.try_recv(slow), Some(1));
    assert_eq!(ch.try_publish(2), Ok(()));
    assert_eq!(ch.try_recv(fast), Some(2));
    assert_eq!(ch.try_recv(slow), Some(2));
}

#[test]
fn dropping_a_subscription_releases_the_publisher() {
    let mut ch: Broadcast<u8> = Broadcast::new(1);
    let a = ch.subscribe();
    let b = ch.subscribe();
    assert_eq!(ch.try_publish(1), Ok(()));
    assert_eq!(ch.try_recv(a), Some(1));
    assert_eq!(ch.try_publish(2), Err(2));
    ch.unsubscribe(b);
    assert_eq!(ch.try_recv(b), None);
    assert_eq!(ch.try_publish(2), Ok(()));
    assert_eq!(ch.try_recv(a), Some(2));
    assert_eq!(ch.try_recv(b), None);
    assert_eq!(ch.slots(), 2);
}

#[test]
fn publishing_without_subscribers_succeeds() {
    let mut ch: Broadcast<u8> = Broadcast::new(1);
    assert_eq!(ch.try_publish(1), Ok(()));
    assert_eq!(ch.try_publish(2), Ok(()));
    let a = ch.subscribe();
    assert_eq!(ch.try_recv(a), None);
}
