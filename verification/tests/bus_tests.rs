use chat_relay::bus::{Delivery, MessageBus};
use chat_relay::message::Message;
use chat_relay::{rocket, BACKLOG_CAPACITY};

fn numbered(i: usize) -> Message {
    Message { room: "lobby".to_string(), username: "alice".to_string(), message: format!("{}", i) }
}

#[test]
fn new_bus_is_open_and_empty() {
    let bus = MessageBus::new(8);
    assert_eq!(bus.capacity(), 8);
    assert!(!bus.is_closed());
    assert_eq!(bus.active(), 0);
}

#[test]
fn launch_gives_room_for_1024_pending_messages() {
    assert_eq!(BACKLOG_CAPACITY, 1024);
    let mut bus = rocket();
    assert_eq!(bus.capacity(), 1024);
    assert!(!bus.is_closed());
    assert_eq!(bus.active(), 0);
    let id = bus.subscribe();
    for i in 0..1024 {
        bus.publish(&numbered(i));
    }
    assert_eq!(bus.next(id), Delivery::Message(numbered(0)));
}

#[test]
fn launch_bus_lags_after_1025_messages() {
    let mut bus = rocket();
    let id = bus.subscribe();
    for i in 0..1026 {
        bus.publish(&numbered(i));
    }
    assert_eq!(bus.next(id), Delivery::Message(numbered(2)));
}

#[test]
fn publish_without_subscribers_reaches_nobody() {
    let mut bus = MessageBus::new(4);
    assert_eq!(bus.publish(&numbered(1)), 0);
    let id = bus.subscribe();
    assert_eq!(bus.next(id), Delivery::Empty);
}

#[test]
fn subscriber_gets_what_is_published_after_it_subscribed() {
    let mut bus = MessageBus::new(4);
    bus.publish(&numbered(0));
    let id = bus.subscribe();
    assert_eq!(bus.publish(&numbered(1)), 1);
    assert_eq!(bus.next(id), Delivery::Message(numbered(1)));
    assert_eq!(bus.next(id), Delivery::Empty);
}

#[test]
fn messages_arrive_in_publish_order() {
    let mut bus = MessageBus::new(4);
    let id = bus.subscribe();
    for i in 0..4 {
        bus.publish(&numbered(i));
    }
    for i in 0..4 {
        assert_eq!(bus.next(id), Delivery::Message(numbered(i)));
    }
    assert_eq!(bus.next(id), Delivery::Empty);
}

#[test]
fn lagging_subscriber_skips_to_the_oldest_kept_message() {
    let mut bus = MessageBus::new(3);
    let id = bus.subscribe();
    for i in 0..5 {
        bus.publish(&numbered(i));
    }
    assert_eq!(bus.next(id), Delivery::Message(numbered(2)));
    assert_eq!(bus.next(id), Delivery::Message(numbered(3)));
    assert_eq!(bus.next(id), Delivery::Message(numbered(4)));
    assert_eq!(bus.next(id), Delivery::Empty);
    bus.publish(&numbered(5));
    assert_eq!(bus.next(id), Delivery::Message(numbered(5)));
}

#[test]
fn capacity_one_keeps_the_newest() {
    let mut bus = MessageBus::new(1);
    let id = bus.subscribe();
    bus.publish(&numbered(0));
    bus.publish(&numbered(1));
    assert_eq!(bus.next(id), Delivery::Message(numbered(1)));
    assert_eq!(bus.next(id), Delivery::Empty);
}

#[test]
fn slow_subscriber_does_not_hold_back_a_fast_one() {
    let mut bus = MessageBus::new(2);
    let slow = bus.subscribe();
    let fast = bus.subscribe();
    assert_eq!(bus.active(), 2);
    for i in 0..4 {
        assert_eq!(bus.publish(&numbered(i)), 2);
        assert_eq!(bus.next(fast), Delivery::Message(numbered(i)));
    }
    assert_eq!(bus.next(slow), Delivery::Message(numbered(2)));
    assert_eq!(bus.next(slow), Delivery::Message(numbered(3)));
    assert_eq!(bus.next(slow), Delivery::Empty);
}

#[test]
fn closed_bus_hands_out_what_is_pending_and_then_closes() {
    let mut bus = MessageBus::new(4);
    let id = bus.subscribe();
    bus.publish(&numbered(0));
    bus.close();
    assert!(bus.is_closed());
    assert_eq!(bus.next(id), Delivery::Message(numbered(0)));
    assert_eq!(bus.next(id), Delivery::Closed);
    assert_eq!(bus.active(), 0);
    assert_eq!(bus.next(id), Delivery::Closed);
}

#[test]
fn waiting_subscriber_is_told_when_the_bus_closes() {
    let mut bus = MessageBus::new(4);
    let id = bus.subscribe();
    assert_eq!(bus.next(id), Delivery::Empty);
    bus.close();
    assert_eq!(bus.next(id), Delivery::Closed);
}

#[test]
fn closed_bus_takes_nothing() {
    let mut bus = MessageBus::new(4);
    let id = bus.subscribe();
    bus.close();
    assert_eq!(bus.publish(&numbered(0)), 0);
    assert_eq!(bus.next(id), Delivery::Closed);
}

#[test]
fn unknown_handle_is_closed() {
    let mut bus = MessageBus::new(4);
    assert_eq!(bus.next(0), Delivery::Closed);
    assert_eq!(bus.next(17), Delivery::Closed);
    bus.unsubscribe(17);
    assert_eq!(bus.active(), 0);
}

#[test]
fn unsubscribe_releases_the_handle_and_drops_what_was_pending() {
    let mut bus = MessageBus::new(4);
    let a = bus.subscribe();
    let b = bus.subscribe();
    let c = bus.subscribe();
    assert_eq!((a, b, c), (0, 1, 2));
    bus.publish(&numbered(0));
    bus.unsubscribe(b);
    assert_eq!(bus.active(), 2);
    assert_eq!(bus.next(b), Delivery::Closed);
    assert_eq!(bus.publish(&numbered(1)), 2);
    let again = bus.subscribe();
    assert_eq!(again, 1);
    assert_eq!(bus.next(again), Delivery::Empty);
    assert_eq!(bus.next(a), Delivery::Message(numbered(0)));
    assert_eq!(bus.next(c), Delivery::Message(numbered(0)));
    assert_eq!(bus.subscribe(), 3);
}
