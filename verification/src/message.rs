//! The inbound events of the push-messaging client, as plain values.

use vstd::prelude::*;

verus! {

/// A message of a one-to-one conversation, with its payload still opaque.
#[derive(Debug, Clone)]
pub struct UserMessage {
    pub id: u64,
    pub other: String,
    pub sent_by_other: bool,
    pub message: Vec<u8>,
}

/// A message of a group channel, with its payload still opaque.
#[derive(Debug, Clone)]
pub struct GroupMessage {
    pub id: u64,
    pub group_id: u64,
    pub channel_id: u32,
    pub epoch: u32,
    pub by: String,
    pub message: Vec<u8>,
}

/// What a group is called and what it says of itself.
#[derive(Debug, Clone)]
pub struct GroupInfo {
    pub id: u64,
    pub name: String,
    pub description: String,
}

/// What the push-messaging client hands to its callback.
#[derive(Debug, Clone)]
pub enum InboundEvent {
    UserMessage(UserMessage),
    GroupMessage(GroupMessage),
}

impl UserMessage {
    /// A copy with the same fields.
    pub fn duplicate(&self) -> (copy: Self)
        ensures
            copy.id == self.id,
            copy.other@ == self.other@,
            copy.sent_by_other == self.sent_by_other,
            copy.message@ == self.message@,
    {
        UserMessage {
            id: self.id,
            other: self.other.clone(),
            sent_by_other: self.sent_by_other,
            message: self.message.clone(),
        }
    }
}

impl InboundEvent {
    /// The opaque payload of the event.
    pub open spec fn payload_bytes(self) -> Seq<u8> {
        match self {
            InboundEvent::UserMessage(message) => message.message@,
            InboundEvent::GroupMessage(message) => message.message@,
        }
    }

    /// The opaque payload of the event.
    pub fn payload(&self) -> (payload: &Vec<u8>)
        ensures
            payload@ == self.payload_bytes(),
    {
        match self {
            InboundEvent::UserMessage(message) => &message.message,
            InboundEvent::GroupMessage(message) => &message.message,
        }
    }

    /// The message that the notification bundler works on: that of a
    /// one-to-one conversation. Group messages are not bundled.
    pub fn bundled_message(&self) -> (message: Option<&UserMessage>)
        ensures
            message == match *self {
                InboundEvent::UserMessage(m) => Some(&m),
                InboundEvent::GroupMessage(_) => None,
            },
    {
        match self {
            InboundEvent::UserMessage(m) => Some(m),
            InboundEvent::GroupMessage(_) => None,
        }
    }
}

} // verus!
