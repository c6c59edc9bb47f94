use chat_relay::bus::{Delivery, MessageBus};
use chat_relay::ingest::post;
use chat_relay::message::{Message, ValidationError};
use chat_relay::store::{read_messages, write_messages};
use chat_relay::stream::{events, StreamAction};

fn msg(room: &str, username: &str, message: &str) -> Message {
    Message { room: room.to_string(), username: username.to_string(), message: message.to_string() }
}

#[test]
fn post_appends_to_the_log_and_reaches_a_connected_client() {
    let mut bus = MessageBus::new(1024);
    let mut client = events(&mut bus);
    let before = vec![msg("lobby", "bob", "first")];
    let persisted = Some(write_messages(&before).expect("encodes"));
    let posted = post("lobby".into(), "alice".into(), "hi".into(), &persisted, &mut bus)
        .expect("accepted");
    assert_eq!(posted.message, msg("lobby", "alice", "hi"));
    assert_eq!(posted.reached, 1);
    let log = read_messages(&Some(posted.rewritten.expect("encodes")));
    assert_eq!(log.len(), before.len() + 1);
    assert_eq!(log[0], before[0]);
    assert_eq!(log[1], msg("lobby", "alice", "hi"));
    assert_eq!(
        client.step(&mut bus, false),
        StreamAction::Emit("{\"room\":\"lobby\",\"username\":\"alice\",\"message\":\"hi\"}".to_string())
    );
}

#[test]
fn post_on_missing_storage_writes_a_log_of_one() {
    let mut bus = MessageBus::new(4);
    let posted = post("lobby".into(), "alice".into(), "hi".into(), &None, &mut bus).expect("accepted");
    assert_eq!(posted.reached, 0);
    assert_eq!(
        posted.rewritten,
        Ok(b"[\n  {\n    \"room\": \"lobby\",\n    \"username\": \"alice\",\n    \"message\": \"hi\"\n  }\n]".to_vec())
    );
}

#[test]
fn post_on_corrupt_storage_starts_the_log_over() {
    let mut bus = MessageBus::new(4);
    let persisted = Some(b"[{\"room\": \"cut off".to_vec());
    let posted = post("lobby".into(), "alice".into(), "hi".into(), &persisted, &mut bus).expect("accepted");
    assert_eq!(read_messages(&Some(posted.rewritten.expect("encodes"))), vec![msg("lobby", "alice", "hi")]);
}

#[test]
fn post_with_a_long_room_has_no_effect() {
    let mut bus = MessageBus::new(4);
    let id = bus.subscribe();
    let room: String = std::iter::repeat('r').take(31).collect();
    let outcome = post(room, "alice".into(), "hi".into(), &None, &mut bus);
    assert_eq!(outcome.err(), Some(ValidationError::RoomTooLong));
    assert_eq!(bus.next(id), Delivery::Empty);
}

#[test]
fn post_with_a_long_username_has_no_effect() {
    let mut bus = MessageBus::new(4);
    let id = bus.subscribe();
    let username: String = std::iter::repeat('u').take(21).collect();
    let outcome = post("lobby".into(), username, "hi".into(), &None, &mut bus);
    assert_eq!(outcome.err(), Some(ValidationError::UsernameTooLong));
    assert_eq!(bus.next(id), Delivery::Empty);
}

#[test]
fn post_at_the_limits_is_accepted() {
    let mut bus = MessageBus::new(4);
    let room: String = std::iter::repeat('r').take(30).collect();
    let username: String = std::iter::repeat('u').take(20).collect();
    let posted = post(room.clone(), username.clone(), String::new(), &None, &mut bus).expect("accepted");
    assert_eq!(posted.message, Message { room, username, message: String::new() });
}

#[test]
fn posts_one_after_another_build_the_log_in_order() {
    let mut bus = MessageBus::new(4);
    let mut persisted: Option<Vec<u8>> = None;
    let mut expected = Vec::new();
    for i in 0..10 {
        let text = format!("message {}", i);
        let posted = post("lobby".into(), "alice".into(), text.clone(), &persisted, &mut bus).expect("accepted");
        persisted = Some(posted.rewritten.expect("encodes"));
        expected.push(msg("lobby", "alice", &text));
    }
    assert_eq!(read_messages(&persisted), expected);
}

#[test]
fn post_publishes_to_every_listener() {
    let mut bus = MessageBus::new(4);
    let a = bus.subscribe();
    let b = bus.subscribe();
    let posted = post("lobby".into(), "alice".into(), "hi".into(), &None, &mut bus).expect("accepted");
    assert_eq!(posted.reached, 2);
    assert_eq!(bus.next(a), Delivery::Message(msg("lobby", "alice", "hi")));
    assert_eq!(bus.next(b), Delivery::Message(msg("lobby", "alice", "hi")));
}
