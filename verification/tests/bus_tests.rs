use dota::bus::BusError;
use dota::bus::EventBus;
use dota::bus::RecvOutcome;

#[test]
fn test_publish_with_no_consumers_is_observable() {
    let mut bus = EventBus::new(8);
    let r = bus.publish(&b"payload".to_vec());
    assert_eq!(r, Err(BusError::NoConsumers));
}

#[test]
fn test_each_subscriber_sees_publish_order() {
    let mut bus = EventBus::new(8);
    let a = bus.subscribe();
    let b = bus.subscribe();
    assert_eq!(bus.subscriber_count(), 2);

    bus.publish(&b"one".to_vec()).expect("publish failed");
    bus.publish(&b"two".to_vec()).expect("publish failed");

    for k in [a, b] {
        match bus.recv(k) {
            RecvOutcome::Ready(p) => assert_eq!(p, b"one".to_vec()),
            other => panic!("expected the first payload, got {:?}", other),
        }
        match bus.recv(k) {
            RecvOutcome::Ready(p) => assert_eq!(p, b"two".to_vec()),
            other => panic!("expected the second payload, got {:?}", other),
        }
        assert!(matches!(bus.recv(k), RecvOutcome::Empty));
    }
}

#[test]
fn test_slow_subscriber_fails_on_overflow() {
    let mut bus = EventBus::new(1);
    let k = bus.subscribe();

    bus.publish(&b"one".to_vec()).expect("publish failed");
    // The backlog (bound 1) is full: this publish fails the subscriber.
    bus.publish(&b"two".to_vec()).expect("publish failed");
    assert!(matches!(bus.recv(k), RecvOutcome::Lagged));

    // The failed subscriber was the only one, so the next publish reports
    // that no consumer is left.
    let r = bus.publish(&b"three".to_vec());
    assert_eq!(r, Err(BusError::NoConsumers));
}

#[test]
fn test_overflow_spares_other_subscribers() {
    let mut bus = EventBus::new(1);
    let slow = bus.subscribe();
    let fast = bus.subscribe();

    bus.publish(&b"one".to_vec()).expect("publish failed");
    match bus.recv(fast) {
        RecvOutcome::Ready(p) => assert_eq!(p, b"one".to_vec()),
        other => panic!("expected a payload, got {:?}", other),
    }

    // `slow` still holds "one"; its backlog overflows, `fast` receives.
    bus.publish(&b"two".to_vec()).expect("publish failed");
    assert!(matches!(bus.recv(slow), RecvOutcome::Lagged));
    match bus.recv(fast) {
        RecvOutcome::Ready(p) => assert_eq!(p, b"two".to_vec()),
        other => panic!("expected a payload, got {:?}", other),
    }
}

#[test]
fn test_close_drains_then_reports_closed() {
    let mut bus = EventBus::new(8);
    let k = bus.subscribe();
    bus.publish(&b"last".to_vec()).expect("publish failed");

    bus.close();

    // The pending payload is still delivered; after that the subscriber sees
    // a final "closed" instead of waiting forever.
    match bus.recv(k) {
        RecvOutcome::Ready(p) => assert_eq!(p, b"last".to_vec()),
        other => panic!("expected the pending payload, got {:?}", other),
    }
    assert!(matches!(bus.recv(k), RecvOutcome::Closed));
    assert!(matches!(bus.recv(k), RecvOutcome::Closed));
}
