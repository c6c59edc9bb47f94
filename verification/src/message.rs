//! The chat message and the length limits an accepted message obeys.

use vstd::prelude::*;
use vstd::string::*;

verus! {

/// Largest number of characters a room name may have.
pub const ROOM_MAX_CHARS: usize = 30;

/// Largest number of characters a user name may have.
pub const USERNAME_MAX_CHARS: usize = 20;

/// The mathematical value of a [`Message`]: its three texts as character sequences.
pub struct MessageView {
    pub room: Seq<char>,
    pub username: Seq<char>,
    pub message: Seq<char>,
}

impl MessageView {
    /// The length limits: at most 30 characters of room, at most 20 of user name.
    pub open spec fn within_limits(self) -> bool {
        &&& self.room.len() <= ROOM_MAX_CHARS
        &&& self.username.len() <= USERNAME_MAX_CHARS
    }
}

/// A chat message. Messages carry no identity beyond their order of arrival.
#[derive(Debug, PartialEq, Eq)]
pub struct Message {
    pub room: String,
    pub username: String,
    pub message: String,
}

impl View for Message {
    type V = MessageView;

    open spec fn view(&self) -> MessageView {
        MessageView { room: self.room@, username: self.username@, message: self.message@ }
    }
}

/// The values of a run of messages, in the same order.
pub open spec fn views_of(messages: Seq<Message>) -> Seq<MessageView> {
    messages.map_values(|m: Message| m@)
}

impl Clone for Message {
    fn clone(&self) -> (copy: Self)
        ensures
            copy == *self,
    {
        Message {
            room: self.room.clone(),
            username: self.username.clone(),
            message: self.message.clone(),
        }
    }
}

/// Why a submission was turned away.
#[derive(Debug, Clone, Copy, PartialEq, Eq)]
pub enum ValidationError {
    /// The room name has more than 30 characters.
    RoomTooLong,
    /// The user name has more than 20 characters.
    UsernameTooLong,
}

/// What `validate` answers for a message value: the room is looked at first.
pub open spec fn validation_of(m: MessageView) -> Result<(), ValidationError> {
    if m.room.len() > ROOM_MAX_CHARS {
        Err(ValidationError::RoomTooLong)
    } else if m.username.len() > USERNAME_MAX_CHARS {
        Err(ValidationError::UsernameTooLong)
    } else {
        Ok(())
    }
}

impl Message {
    /// Checks the length limits, counting characters.
    pub fn validate(&self) -> (verdict: Result<(), ValidationError>)
        ensures
            verdict == validation_of(self@),
            verdict is Ok <==> self@.within_limits(),
    {
        if self.room.as_str().unicode_len() > ROOM_MAX_CHARS {
            Err(ValidationError::RoomTooLong)
        } else if self.username.as_str().unicode_len() > USERNAME_MAX_CHARS {
            Err(ValidationError::UsernameTooLong)
        } else {
            Ok(())
        }
    }

    /// Builds a message from submitted fields, or says which limit they break.
    pub fn new(room: String, username: String, message: String) -> (made: Result<
        Message,
        ValidationError,
    >)
        ensures
            match validation_of(MessageView { room: room@, username: username@, message: message@ }) {
                Ok(()) => made is Ok && made->Ok_0.room == room && made->Ok_0.username == username
                    && made->Ok_0.message == message,
                Err(e) => made == Err::<Message, ValidationError>(e),
            },
    {
        let candidate = Message { room, username, message };
        match candidate.validate() {
            Ok(()) => Ok(candidate),
            Err(e) => Err(e),
        }
    }
}

} // verus!
