//! The JSON form of messages: one compact object per live event, and a
//! pretty-printed array of such objects for the persisted log.
//!
//! Reading and writing JSON text is left to `serde_json`; this module owns
//! the shape of the data: which keys a message has, and which parsed
//! objects count as messages.

use vstd::prelude::*;
use vstd::string::*;
use crate::message::{views_of, Message, MessageView};

verus! {

/// `serde_json::Error`, declared so that the calls below can hand it back.
/// Nothing is known of what it holds.
#[verifier::external_type_specification]
#[verifier::external_body]
pub struct ExJsonError(serde_json::Error);

/// What `serde_json::from_slice` makes of `bytes` when asked for a `Vec` of
/// `serde_json::Map`s: each map as its entries in the map's own order, an
/// entry's value kept where it is a string; `None` where `from_slice`
/// reports an error, as it does for bytes that are no JSON array of objects.
pub uninterp spec fn json_objects(bytes: Seq<u8>) -> Option<
    Seq<Seq<(Seq<char>, Option<Seq<char>>)>>,
>;

/// The bytes `serde_json::to_vec_pretty` writes for an array of objects with
/// the given string fields; `None` where it reports an error.
pub uninterp spec fn json_pretty(objects: Seq<Seq<(Seq<char>, Seq<char>)>>) -> Option<Seq<u8>>;

/// The text `serde_json::to_string` writes for one object with the given
/// string fields; `None` where it reports an error.
pub uninterp spec fn json_compact(fields: Seq<(Seq<char>, Seq<char>)>) -> Option<Seq<char>>;

/// Calls `serde_json::from_slice` for a `Vec` of `serde_json::Map`s and hands
/// each map out as a list of key and value, the value through
/// `Value::as_str`. Trusted: the result is the one `json_objects` names, and
/// an error comes exactly where that is `None`.
#[verifier::external_body]
fn parse_objects(bytes: &[u8]) -> (parsed: Result<
    Vec<Vec<(String, Option<String>)>>,
    serde_json::Error,
>)
    ensures
        match parsed {
            Ok(objects) => json_objects(bytes@) == Some(objects.deep_view()),
            Err(_) => json_objects(bytes@) is None,
        },
{
    let maps = serde_json::from_slice::<Vec<serde_json::Map<String, serde_json::Value>>>(bytes)?;
    Ok(
        maps.into_iter().map(
            |m| m.into_iter().map(|(k, v)| (k, v.as_str().map(String::from))).collect(),
        ).collect(),
    )
}

/// Calls `serde_json::to_vec_pretty` on an array of `Value::Object`s built
/// from the given fields. Trusted: the bytes are the ones `json_pretty`
/// names, and an error comes exactly where that is `None`.
#[verifier::external_body]
fn render_pretty(objects: &Vec<Vec<(String, String)>>) -> (out: Result<Vec<u8>, serde_json::Error>)
    ensures
        match out {
            Ok(bytes) => json_pretty(objects.deep_view()) == Some(bytes@),
            Err(_) => json_pretty(objects.deep_view()) is None,
        },
{
    let values: Vec<serde_json::Value> = objects.iter().map(
        |fields|
            serde_json::Value::Object(
                fields.iter().map(
                    |(k, v)| (k.clone(), serde_json::Value::String(v.clone())),
                ).collect(),
            ),
    ).collect();
    serde_json::to_vec_pretty(&values)
}

/// Calls `serde_json::to_string` on a `Value::Object` built from the given
/// fields. Trusted: the text is the one `json_compact` names, and an error
/// comes exactly where that is `None`.
#[verifier::external_body]
fn render_compact(fields: &Vec<(String, String)>) -> (out: Result<String, serde_json::Error>)
    ensures
        match out {
            Ok(text) => json_compact(fields.deep_view()) == Some(text@),
            Err(_) => json_compact(fields.deep_view()) is None,
        },
{
    let object: serde_json::Map<String, serde_json::Value> = fields.iter().map(
        |(k, v)| (k.clone(), serde_json::Value::String(v.clone())),
    ).collect();
    serde_json::to_string(&serde_json::Value::Object(object))
}

/// Key of the room field.
pub open spec fn room_key() -> Seq<char> {
    "room"@
}

/// Key of the user name field.
pub open spec fn username_key() -> Seq<char> {
    "username"@
}

/// Key of the message text field.
pub open spec fn message_key() -> Seq<char> {
    "message"@
}

/// The fields a message is written with, in the order they are written.
pub open spec fn fields_of(m: MessageView) -> Seq<(Seq<char>, Seq<char>)> {
    seq![(room_key(), m.room), (username_key(), m.username), (message_key(), m.message)]
}

/// The objects a log is written with: one per message, in log order.
pub open spec fn objects_of(log: Seq<MessageView>) -> Seq<Seq<(Seq<char>, Seq<char>)>> {
    Seq::new(log.len(), |i: int| fields_of(log[i]))
}

/// The string stored under `key` in a parsed object: that of the first field
/// with this key, if it holds a string.
pub open spec fn text_under(fields: Seq<(Seq<char>, Option<Seq<char>>)>, key: Seq<char>) -> Option<
    Seq<char>,
>
    decreases fields.len(),
{
    if fields.len() == 0 {
        None
    } else if fields[0].0 == key {
        fields[0].1
    } else {
        text_under(fields.drop_first(), key)
    }
}

/// The message a parsed object stands for: it needs a string under each of
/// the three keys; other fields are ignored.
pub open spec fn message_of_fields(fields: Seq<(Seq<char>, Option<Seq<char>>)>) -> Option<
    MessageView,
> {
    match (
        text_under(fields, room_key()),
        text_under(fields, username_key()),
        text_under(fields, message_key()),
    ) {
        (Some(room), Some(username), Some(message)) => Some(
            MessageView { room, username, message },
        ),
        _ => None,
    }
}

/// The log a parsed array stands for: every object must be a message.
pub open spec fn log_of_objects(objects: Seq<Seq<(Seq<char>, Option<Seq<char>>)>>) -> Option<
    Seq<MessageView>,
> {
    if forall|i: int| 0 <= i < objects.len() ==> (#[trigger] message_of_fields(objects[i])) is Some {
        Some(Seq::new(objects.len(), |i: int| message_of_fields(objects[i])->Some_0))
    } else {
        None
    }
}

/// The log held by persisted bytes, where they hold one.
pub open spec fn log_of_bytes(bytes: Seq<u8>) -> Option<Seq<MessageView>> {
    match json_objects(bytes) {
        Some(objects) => log_of_objects(objects),
        None => None,
    }
}

/// The payload of the live event for a message: its compact JSON object, or
/// the empty text where the encoder reports an error.
pub open spec fn event_payload_of(m: MessageView) -> Seq<char> {
    match json_compact(fields_of(m)) {
        Some(text) => text,
        None => Seq::empty(),
    }
}

/// Looks a key up in a parsed object.
pub fn find_text(fields: &Vec<(String, Option<String>)>, key: &String) -> (found: Option<String>)
    ensures
        found.deep_view() == text_under(fields.deep_view(), key@),
{
    let ghost all = fields.deep_view();
    let mut i: usize = 0;
    assert(all.skip(0) =~= all);
    while i < fields.len()
        invariant
            i <= fields.len(),
            all == fields.deep_view(),
            text_under(all, key@) == text_under(all.skip(i as int), key@),
        decreases fields.len() - i,
    {
        let field = &fields[i];
        proof {
            assert(all.skip(i as int)[0] == all[i as int]);
            assert(all[i as int] == fields@[i as int].deep_view());
            assert(all.skip(i as int).drop_first() =~= all.skip(i + 1));
        }
        if field.0 == *key {
            return match &field.1 {
                Some(text) => Some(text.clone()),
                None => None,
            };
        }
        i += 1;
    }
    None
}

/// Reads a parsed object as a message, if it is one.
pub fn message_from_fields(fields: &Vec<(String, Option<String>)>) -> (made: Option<Message>)
    ensures
        match made {
            Some(m) => message_of_fields(fields.deep_view()) == Some(m@),
            None => message_of_fields(fields.deep_view()) is None,
        },
{
    let room = find_text(fields, &String::from_str("room"));
    let username = find_text(fields, &String::from_str("username"));
    let message = find_text(fields, &String::from_str("message"));
    match (room, username, message) {
        (Some(room), Some(username), Some(message)) => Some(Message { room, username, message }),
        _ => None,
    }
}

/// Reads a parsed array as a log: `None` as soon as one object is no message.
pub fn messages_from_objects(objects: &Vec<Vec<(String, Option<String>)>>) -> (log: Option<
    Vec<Message>,
>)
    ensures
        match log {
            Some(messages) => log_of_objects(objects.deep_view()) == Some(views_of(messages@)),
            None => log_of_objects(objects.deep_view()) is None,
        },
{
    let ghost all = objects.deep_view();
    let mut messages: Vec<Message> = Vec::new();
    let mut i: usize = 0;
    while i < objects.len()
        invariant
            i <= objects.len(),
            all == objects.deep_view(),
            messages@.len() == i,
            forall|j: int| 0 <= j < i ==> (#[trigger] message_of_fields(all[j])) == Some(messages@[j]@),
        decreases objects.len() - i,
    {
        assert(all[i as int] == objects@[i as int].deep_view());
        match message_from_fields(&objects[i]) {
            Some(m) => {
                messages.push(m);
            },
            None => {
                assert(message_of_fields(all[i as int]) is None);
                return None;
            },
        }
        i += 1;
    }
    assert(log_of_objects(all)->Some_0 =~= views_of(messages@));
    Some(messages)
}

/// The fields a message is written with.
pub fn fields_from_message(m: &Message) -> (fields: Vec<(String, String)>)
    ensures
        fields.deep_view() == fields_of(m@),
{
    let mut fields: Vec<(String, String)> = Vec::new();
    fields.push((String::from_str("room"), m.room.clone()));
    fields.push((String::from_str("username"), m.username.clone()));
    fields.push((String::from_str("message"), m.message.clone()));
    assert(fields.deep_view() =~= fields_of(m@));
    fields
}

/// The objects a log is written with.
pub fn objects_from_messages(messages: &[Message]) -> (objects: Vec<Vec<(String, String)>>)
    ensures
        objects.deep_view() == objects_of(views_of(messages@)),
{
    let mut objects: Vec<Vec<(String, String)>> = Vec::new();
    let mut i: usize = 0;
    while i < messages.len()
        invariant
            i <= messages.len(),
            objects@.len() == i,
            forall|j: int| 0 <= j < i ==> (#[trigger] objects@[j]).deep_view() == fields_of(messages@[j]@),
        decreases messages.len() - i,
    {
        objects.push(fields_from_message(&messages[i]));
        i += 1;
    }
    assert(objects.deep_view() =~= objects_of(views_of(messages@)));
    objects
}

/// Parses persisted bytes as a log.
pub fn decode_log(bytes: &[u8]) -> (log: Option<Vec<Message>>)
    ensures
        match log {
            Some(messages) => log_of_bytes(bytes@) == Some(views_of(messages@)),
            None => log_of_bytes(bytes@) is None,
        },
{
    match parse_objects(bytes) {
        Ok(objects) => messages_from_objects(&objects),
        Err(_) => None,
    }
}

/// Writes a log as a pretty-printed JSON array, one object per message;
/// `None` where the encoder reports an error.
pub fn encode_log(messages: &[Message]) -> (out: Option<Vec<u8>>)
    ensures
        match out {
            Some(bytes) => json_pretty(objects_of(views_of(messages@))) == Some(bytes@),
            None => json_pretty(objects_of(views_of(messages@))) is None,
        },
{
    let objects = objects_from_messages(messages);
    match render_pretty(&objects) {
        Ok(bytes) => Some(bytes),
        Err(_) => None,
    }
}

/// The payload of the live event that carries `m`.
pub fn event_payload(m: &Message) -> (payload: String)
    ensures
        payload@ == event_payload_of(m@),
{
    let fields = fields_from_message(m);
    match render_compact(&fields) {
        Ok(text) => text,
        Err(_) => String::new(),
    }
}

} // verus!
