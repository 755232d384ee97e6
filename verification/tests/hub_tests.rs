use eazy_controller::hub::BroadcastHub;

#[test]
fn publish_without_subscribers_is_dropped() {
    let mut hub = BroadcastHub::new();
    hub.publish("nobody hears this");
    let id = hub.subscribe();
    assert!(hub.pop_next(id).is_none());
}

#[test]
fn late_subscriber_gets_later_messages_only() {
    let mut hub = BroadcastHub::new();
    let early = hub.subscribe();
    hub.publish("m1");
    let late = hub.subscribe();
    hub.publish("m2");
    // the late subscriber sees m2 and never m1
    assert_eq!(hub.pop_next(late).as_deref(), Some("m2"));
    assert!(hub.pop_next(late).is_none());
    // the early subscriber sees both, in publish order
    assert_eq!(hub.pop_next(early).as_deref(), Some("m1"));
    assert_eq!(hub.pop_next(early).as_deref(), Some("m2"));
    assert!(hub.pop_next(early).is_none());
}

#[test]
fn slow_subscriber_does_not_hold_up_a_healthy_one() {
    let mut hub = BroadcastHub::new();
    let slow = hub.subscribe();
    let healthy = hub.subscribe();
    for i in 0..100u32 {
        hub.publish(&format!("msg-{}", i));
    }
    // the slow subscriber never drains; the healthy one receives every
    // message, in publish order, all the same
    for i in 0..100u32 {
        assert_eq!(hub.pop_next(healthy), Some(format!("msg-{}", i)));
    }
    assert!(hub.pop_next(healthy).is_none());
    // the slow one's backlog is intact and untouched
    assert_eq!(hub.pop_next(slow).as_deref(), Some("msg-0"));
}

#[test]
fn unsubscribe_removes_only_that_subscriber() {
    let mut hub = BroadcastHub::new();
    let a = hub.subscribe();
    let b = hub.subscribe();
    hub.publish("one");
    hub.unsubscribe(a);
    hub.publish("two");
    assert!(hub.pop_next(a).is_none());
    assert_eq!(hub.pop_next(b).as_deref(), Some("one"));
    assert_eq!(hub.pop_next(b).as_deref(), Some("two"));
}

#[test]
fn handles_are_not_reused() {
    let mut hub = BroadcastHub::new();
    let a = hub.subscribe();
    hub.unsubscribe(a);
    let b = hub.subscribe();
    assert_ne!(a, b);
}
