use chat_relay::bus::{Delivery, MessageBus};
use chat_relay::message::Message;
use chat_relay::stream::{events, StreamAction, StreamState};

fn msg(room: &str, username: &str, message: &str) -> Message {
    Message { room: room.to_string(), username: username.to_string(), message: message.to_string() }
}

#[test]
fn feed_starts_active_with_a_subscription() {
    let mut bus = MessageBus::new(4);
    let stream = events(&mut bus);
    assert_eq!(stream.state(), StreamState::Active);
    assert_eq!(stream.subscription(), 0);
    assert_eq!(bus.active(), 1);
}

#[test]
fn feed_emits_each_message_as_json() {
    let mut bus = MessageBus::new(4);
    let mut stream = events(&mut bus);
    bus.publish(&msg("lobby", "alice", "hi"));
    bus.publish(&msg("lobby", "bob", "yo"));
    assert_eq!(
        stream.step(&mut bus, false),
        StreamAction::Emit("{\"room\":\"lobby\",\"username\":\"alice\",\"message\":\"hi\"}".to_string())
    );
    assert_eq!(
        stream.step(&mut bus, false),
        StreamAction::Emit("{\"room\":\"lobby\",\"username\":\"bob\",\"message\":\"yo\"}".to_string())
    );
    assert_eq!(stream.step(&mut bus, false), StreamAction::Wait);
    assert_eq!(stream.state(), StreamState::Active);
}

#[test]
fn feed_gets_nothing_from_before_it_started() {
    let mut bus = MessageBus::new(4);
    bus.publish(&msg("lobby", "alice", "early"));
    let mut stream = events(&mut bus);
    assert_eq!(stream.step(&mut bus, false), StreamAction::Wait);
}

#[test]
fn shutdown_stops_the_feed_and_releases_the_subscription() {
    let mut bus = MessageBus::new(4);
    let mut stream = events(&mut bus);
    assert_eq!(stream.step(&mut bus, true), StreamAction::Stop);
    assert_eq!(stream.state(), StreamState::Terminated);
    assert_eq!(bus.active(), 0);
    assert_eq!(bus.next(stream.subscription()), Delivery::Closed);
}

#[test]
fn shutdown_wins_over_a_pending_message() {
    let mut bus = MessageBus::new(4);
    let mut stream = events(&mut bus);
    bus.publish(&msg("lobby", "alice", "hi"));
    assert_eq!(stream.step(&mut bus, true), StreamAction::Stop);
    assert_eq!(stream.state(), StreamState::Terminated);
}

#[test]
fn closed_bus_stops_the_feed_after_what_is_pending() {
    let mut bus = MessageBus::new(4);
    let mut stream = events(&mut bus);
    bus.publish(&msg("lobby", "alice", "last"));
    bus.close();
    assert_eq!(
        stream.step(&mut bus, false),
        StreamAction::Emit("{\"room\":\"lobby\",\"username\":\"alice\",\"message\":\"last\"}".to_string())
    );
    assert_eq!(stream.step(&mut bus, false), StreamAction::Stop);
    assert_eq!(stream.state(), StreamState::Terminated);
    assert_eq!(bus.active(), 0);
}

#[test]
fn terminated_feed_stays_stopped_and_leaves_the_bus_alone() {
    let mut bus = MessageBus::new(4);
    let mut stream = events(&mut bus);
    assert_eq!(stream.step(&mut bus, true), StreamAction::Stop);
    let mut other = events(&mut bus);
    assert_eq!(other.subscription(), stream.subscription());
    bus.publish(&msg("lobby", "alice", "hi"));
    assert_eq!(stream.step(&mut bus, false), StreamAction::Stop);
    assert_eq!(stream.step(&mut bus, true), StreamAction::Stop);
    assert_eq!(bus.active(), 1);
    assert_eq!(
        other.step(&mut bus, false),
        StreamAction::Emit("{\"room\":\"lobby\",\"username\":\"alice\",\"message\":\"hi\"}".to_string())
    );
}

#[test]
fn lagging_feed_goes_on_with_a_later_message() {
    let mut bus = MessageBus::new(2);
    let mut stream = events(&mut bus);
    for i in 0..5 {
        bus.publish(&msg("lobby", "alice", &format!("{}", i)));
    }
    assert_eq!(
        stream.step(&mut bus, false),
        StreamAction::Emit("{\"room\":\"lobby\",\"username\":\"alice\",\"message\":\"3\"}".to_string())
    );
    assert_eq!(stream.state(), StreamState::Active);
}
