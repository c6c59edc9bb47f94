//! A minimal real-time message relay: accepted chat messages are recorded in
//! an append-only log and fanned out to every subscribed listener.
//!
//! - [`message`]: the message and its length limits.
//! - [`codec`]: the JSON form of messages, read and written by `serde_json`.
//! - [`store`]: the append-only log and its persisted form.
//! - [`bus`]: the publish/subscribe bus with one bounded backlog per listener.
//! - [`stream`]: one listener's live feed, as a step function.
//! - [`ingest`]: the entry point for submissions.
//!
//! Nothing here waits, locks or touches a file: callers hand in the bytes
//! that storage holds and get back the bytes to write, and they hold the bus
//! exclusively for the length of a call.

use vstd::prelude::*;

pub mod bus;
pub mod codec;
pub mod ingest;
pub mod message;
pub mod store;
pub mod stream;

verus! {

/// The number of messages that may be pending for one listener.
pub const BACKLOG_CAPACITY: usize = 1024;

/// The relay as it is launched: an open bus without listeners, with room
/// for 1024 pending messages per listener.
pub fn rocket() -> (bus: bus::MessageBus)
    ensures
        bus@ == bus::BusView::empty(BACKLOG_CAPACITY as nat),
        bus@.wf(),
{
    bus::MessageBus::new(BACKLOG_CAPACITY)
}

} // verus!
