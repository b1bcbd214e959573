use adwapach::event::EventManager;

#[test]
fn subscriber_receives_messages_in_order() {
    let mut bus: EventManager<u32> = EventManager::new();
    let sub = bus.subscribe();
    bus.notify(1);
    bus.notify(2);
    bus.notify(3);
    assert_eq!(bus.take_messages(&sub), vec![1, 2, 3]);
    assert_eq!(bus.take_messages(&sub), Vec::<u32>::new());
}

#[test]
fn notify_reaches_subscribers_in_registration_order() {
    let mut bus: EventManager<u32> = EventManager::new();
    let first = bus.subscribe();
    let second = bus.subscribe();
    bus.notify(7);
    assert_eq!(bus.take_messages(&first), vec![7]);
    assert_eq!(bus.take_messages(&second), vec![7]);
    assert_eq!(bus.subscriber_count(), 2);
}

#[test]
fn dropped_subscription_gets_nothing_and_is_compacted() {
    // A message sent after the handle was given up is not delivered to
    // that subscriber and is not an error; the next notify pass compacts
    // the retired entry away.
    let mut bus: EventManager<u32> = EventManager::new();
    let keep = bus.subscribe();
    let give_up = bus.subscribe();
    bus.unsubscribe(give_up);
    assert_eq!(bus.subscriber_count(), 2);
    bus.notify(42);
    assert_eq!(bus.subscriber_count(), 1);
    assert_eq!(bus.take_messages(&keep), vec![42]);
}

#[test]
fn notify_without_subscribers_is_a_noop() {
    let mut bus: EventManager<u32> = EventManager::new();
    bus.notify(9);
    assert_eq!(bus.subscriber_count(), 0);
    let late = bus.subscribe();
    assert_eq!(bus.take_messages(&late), Vec::<u32>::new());
}

#[test]
fn messages_do_not_cross_buses() {
    let mut bus_a: EventManager<u32> = EventManager::new();
    let mut bus_b: EventManager<u32> = EventManager::new();
    let sub_a = bus_a.subscribe();
    let _sub_b = bus_b.subscribe();
    bus_b.notify(5);
    assert_eq!(bus_a.take_messages(&sub_a), Vec::<u32>::new());
}
