//! The durable message log: an ordered, append-only record of every
//! accepted message, persisted as one JSON document that is rewritten in
//! full on each append.

use vstd::prelude::*;
use crate::codec::{decode_log, encode_log, json_pretty, log_of_bytes, objects_of};
use crate::message::{views_of, Message, MessageView};

verus! {

/// Why a log could not be made ready for writing.
#[derive(Debug, Clone, Copy, PartialEq, Eq)]
pub enum StoreError {
    /// The encoder reported an error.
    Encoding,
}

/// What is on stable storage, as a value: the bytes of the log file, or
/// `None` where there is no file.
pub open spec fn persisted_view(persisted: Option<Vec<u8>>) -> Option<Seq<u8>> {
    match persisted {
        Some(bytes) => Some(bytes@),
        None => None,
    }
}

/// The log that storage holds. A missing file and bytes that are no log
/// both stand for the empty log.
pub open spec fn stored_log(persisted: Option<Seq<u8>>) -> Seq<MessageView> {
    match persisted {
        Some(bytes) => match log_of_bytes(bytes) {
            Some(log) => log,
            None => Seq::empty(),
        },
        None => Seq::empty(),
    }
}

/// The bytes a log is persisted as, or the error that keeps it from being written.
pub open spec fn persisted_form(log: Seq<MessageView>) -> Result<Seq<u8>, StoreError> {
    match json_pretty(objects_of(log)) {
        Some(bytes) => Ok(bytes),
        None => Err(StoreError::Encoding),
    }
}

/// The log after the messages of `batch` were appended one after another.
pub open spec fn appended_all(log: Seq<MessageView>, batch: Seq<MessageView>) -> Seq<MessageView>
    decreases batch.len(),
{
    if batch.len() == 0 {
        log
    } else {
        appended_all(log.push(batch[0]), batch.drop_first())
    }
}

/// Reads the log out of what storage holds; never fails.
pub fn read_messages(persisted: &Option<Vec<u8>>) -> (log: Vec<Message>)
    ensures
        views_of(log@) == stored_log(persisted_view(*persisted)),
{
    let decoded = match persisted {
        Some(bytes) => decode_log(bytes.as_slice()),
        None => None,
    };
    match decoded {
        Some(log) => log,
        None => {
            let log: Vec<Message> = Vec::new();
            assert(views_of(log@) =~= Seq::<MessageView>::empty());
            log
        },
    }
}

/// Makes the bytes that the log is written as.
pub fn write_messages(messages: &[Message]) -> (out: Result<Vec<u8>, StoreError>)
    ensures
        match out {
            Ok(bytes) => persisted_form(views_of(messages@)) == Ok::<Seq<u8>, StoreError>(bytes@),
            Err(e) => persisted_form(views_of(messages@)) == Err::<Seq<u8>, StoreError>(e),
        },
{
    match encode_log(messages) {
        Some(bytes) => Ok(bytes),
        None => Err(StoreError::Encoding),
    }
}

/// The message log in memory. Only `append` changes it, and only at its end.
pub struct MessageStore {
    log: Vec<Message>,
}

impl View for MessageStore {
    type V = Seq<MessageView>;

    closed spec fn view(&self) -> Seq<MessageView> {
        views_of(self.log@)
    }
}

impl MessageStore {
    /// The empty log.
    pub fn new() -> (store: MessageStore)
        ensures
            store@ == Seq::<MessageView>::empty(),
    {
        let store = MessageStore { log: Vec::new() };
        assert(store@ =~= Seq::<MessageView>::empty());
        store
    }

    /// The log that storage holds.
    pub fn open(persisted: &Option<Vec<u8>>) -> (store: MessageStore)
        ensures
            store@ == stored_log(persisted_view(*persisted)),
    {
        MessageStore { log: read_messages(persisted) }
    }

    /// The number of messages in the log.
    pub fn len(&self) -> (n: usize)
        ensures
            n == self@.len(),
    {
        self.log.len()
    }

    /// A copy of the log, in acceptance order.
    pub fn read(&self) -> (log: Vec<Message>)
        ensures
            views_of(log@) == self@,
    {
        let mut log: Vec<Message> = Vec::new();
        let mut i: usize = 0;
        while i < self.log.len()
            invariant
                i <= self.log.len(),
                log@.len() == i,
                forall|j: int| 0 <= j < i ==> (#[trigger] log@[j])@ == self.log@[j]@,
            decreases self.log.len() - i,
        {
            log.push(self.log[i].clone());
            i += 1;
        }
        assert(views_of(log@) =~= self@);
        log
    }

    /// Appends one message at the end of the log.
    pub fn append(&mut self, m: Message)
        ensures
            final(self)@ == old(self)@.push(m@),
    {
        self.log.push(m);
        assert(self@ =~= old(self)@.push(m@));
    }

    /// The bytes to rewrite storage with.
    pub fn persist(&self) -> (out: Result<Vec<u8>, StoreError>)
        ensures
            match out {
                Ok(bytes) => persisted_form(self@) == Ok::<Seq<u8>, StoreError>(bytes@),
                Err(e) => persisted_form(self@) == Err::<Seq<u8>, StoreError>(e),
            },
    {
        write_messages(self.log.as_slice())
    }
}

/// Appending messages one after another extends the log by exactly these
/// messages, in that order; what was in the log before stays in front.
pub proof fn lemma_appends_in_order(log: Seq<MessageView>, batch: Seq<MessageView>)
    ensures
        appended_all(log, batch) == log + batch,
    decreases batch.len(),
{
    if batch.len() == 0 {
        assert(log + batch =~= log);
    } else {
        lemma_appends_in_order(log.push(batch[0]), batch.drop_first());
        assert(log.push(batch[0]) + batch.drop_first() =~= log + batch);
    }
}

/// Reading back a log made by appending `batch` to the empty log yields
/// exactly `batch`.
pub proof fn lemma_round_trip(batch: Seq<MessageView>)
    ensures
        appended_all(Seq::empty(), batch) == batch,
{
    lemma_appends_in_order(Seq::empty(), batch);
    assert(Seq::<MessageView>::empty() + batch =~= batch);
}

/// Appends that take turns lose nothing: whatever order `order` the
/// submissions `submitted` were appended in, the log grows by their number
/// and holds each of them as often as it was submitted, beside what it held before.
pub proof fn lemma_no_lost_appends(
    log: Seq<MessageView>,
    submitted: Seq<MessageView>,
    order: Seq<MessageView>,
)
    requires
        order.to_multiset() == submitted.to_multiset(),
    ensures
        appended_all(log, order).len() == log.len() + submitted.len(),
        appended_all(log, order).to_multiset() == log.to_multiset().add(submitted.to_multiset()),
{
    lemma_appends_in_order(log, order);
    vstd::seq_lib::lemma_multiset_commutative(log, order);
    order.to_multiset_ensures();
    submitted.to_multiset_ensures();
}

} // verus!
