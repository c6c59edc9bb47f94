//! The single entry point that turns a submission into a durable,
//! broadcast message.

use vstd::prelude::*;
use crate::bus::MessageBus;
use crate::message::{validation_of, Message, MessageView, ValidationError};
use crate::store::{persisted_form, persisted_view, stored_log, MessageStore, StoreError};

verus! {

/// What became of an accepted submission.
pub struct Posted {
    /// The accepted message.
    pub message: Message,
    /// The bytes to rewrite storage with: the stored log with the message at
    /// its end. An error here keeps nothing from being broadcast.
    pub rewritten: Result<Vec<u8>, StoreError>,
    /// The number of subscriptions the message was published to.
    pub reached: usize,
}

/// Takes one submission. Fields over the length limits are turned away
/// before anything else happens: the bus is left as it was. An accepted
/// message is appended to the log that storage holds and published on the
/// bus, once each, whether or not the log could be made ready for writing.
pub fn post(
    room: String,
    username: String,
    message: String,
    persisted: &Option<Vec<u8>>,
    bus: &mut MessageBus,
) -> (outcome: Result<Posted, ValidationError>)
    ensures
        ({
            let m = MessageView { room: room@, username: username@, message: message@ };
            match validation_of(m) {
                Err(e) => {
                    &&& outcome matches Err(reported)
                    &&& reported == e
                    &&& final(bus)@ == old(bus)@
                },
                Ok(()) => {
                    &&& outcome matches Ok(posted)
                    &&& posted.message@ == m
                    &&& match posted.rewritten {
                        Ok(bytes) => persisted_form(
                            stored_log(persisted_view(*persisted)).push(m),
                        ) == Ok::<Seq<u8>, StoreError>(bytes@),
                        Err(e) => persisted_form(stored_log(persisted_view(*persisted)).push(m))
                            == Err::<Seq<u8>, StoreError>(e),
                    }
                    &&& final(bus)@ == old(bus)@.publish(m)
                    &&& posted.reached == old(bus)@.reached()
                    &&& final(bus)@.wf()
                },
            }
        }),
{
    let accepted = match Message::new(room, username, message) {
        Ok(accepted) => accepted,
        Err(e) => {
            return Err(e);
        },
    };
    let mut store = MessageStore::open(persisted);
    store.append(accepted.clone());
    let rewritten = store.persist();
    let reached = bus.publish(&accepted);
    Ok(Posted { message: accepted, rewritten, reached })
}

} // verus!
