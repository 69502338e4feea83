//! The values that cross to the user interface: payloads are carried as
//! base64 text, and every failure as a sentence that names the operation.

use crate::message::{GroupInfo, GroupMessage, InboundEvent, UserMessage};
use crate::text::{decimal, decimal_string, failure_message, failure_text};
use base64::engine::general_purpose;
use base64::DecodeError;
use base64::Engine;
use vstd::prelude::*;
use vstd::string::*;

verus! {

/// The standard base64 text, with padding, of `bytes`.
pub uninterp spec fn base64_standard(bytes: Seq<u8>) -> Seq<char>;

/// The bytes that `text` stands for in standard base64 with padding, where
/// it stands for any.
pub uninterp spec fn base64_standard_decoded(text: Seq<char>) -> Option<Seq<u8>>;

/// Whether the base64 text of `bytes` has a length that the machine can hold.
pub open spec fn encodable(bytes: Seq<u8>) -> bool {
    4 * ((bytes.len() + 2) / 3) <= usize::MAX
}

/// `base64::DecodeError`: why a text is not base64. It is carried through
/// as it is; only its words are read.
#[verifier::external_type_specification]
#[verifier::external_body]
pub struct ExDecodeError(DecodeError);

/// `Engine::encode` on `general_purpose::STANDARD`: the base64 text of the
/// bytes. It is left out where the length of that text overflows, on which
/// the engine panics.
#[verifier::external_body]
fn encode_standard(bytes: &Vec<u8>) -> (text: String)
    requires
        encodable(bytes@),
    ensures
        text@ == base64_standard(bytes@),
{
    general_purpose::STANDARD.encode(bytes)
}

/// `Engine::decode` on `general_purpose::STANDARD`: the bytes that the text
/// stands for, or the engine's error where it stands for none.
#[verifier::external_body]
fn decode_standard(text: &str) -> (bytes: Result<Vec<u8>, DecodeError>)
    ensures
        bytes is Ok <==> base64_standard_decoded(text@) is Some,
        bytes matches Ok(b) ==> base64_standard_decoded(text@) == Some(b@),
{
    general_purpose::STANDARD.decode(text)
}

/// `DecodeError`'s `Display`: the engine's words for its error.
#[verifier::external_body]
fn decode_error_text(error: &DecodeError) -> (text: String) {
    error.to_string()
}

/// Whether the payload can be carried as base64 text.
pub fn can_encode(bytes: &Vec<u8>) -> (fits: bool)
    ensures
        fits == encodable(bytes@),
{
    bytes.len() <= usize::MAX / 4 * 3
}

/// The payload that `text_b64` carries. Text that is not base64 is refused
/// with a message that says so and gives the decoder's reason.
pub fn decode_payload(text_b64: &str) -> (payload: Result<Vec<u8>, String>)
    ensures
        match payload {
            Ok(bytes) => base64_standard_decoded(text_b64@) == Some(bytes@),
            Err(message) => {
                &&& base64_standard_decoded(text_b64@) is None
                &&& exists|reason: Seq<char>| message@ == failure_text(Operation::DecodeBase64.prefix(), reason)
            },
        },
{
    match decode_standard(text_b64) {
        Ok(bytes) => Ok(bytes),
        Err(error) => {
            let reason = decode_error_text(&error);
            Err(Operation::DecodeBase64.failure(reason.as_str()))
        },
    }
}

/// A message of a one-to-one conversation, as the user interface gets it.
#[derive(Debug, Clone)]
pub struct BUserMessage {
    pub id: u64,
    pub other: String,
    pub sent_by_other: bool,
    pub text_b64: String,
}

/// A message of a group channel, as the user interface gets it.
#[derive(Debug, Clone)]
pub struct BGroupMessage {
    pub sender: String,
    pub group_id: u64,
    pub text_b64: String,
    pub id: u64,
    pub channel_id: u32,
    pub epoch: u32,
}

/// A group, as the user interface gets it.
#[derive(Debug, Clone)]
pub struct BGroupInfo {
    pub name: String,
    pub group_id: u64,
    pub description: String,
}

/// A role of a group as it is to be: added, changed or deleted.
#[derive(Debug, Clone)]
pub struct UpdateRoleProposal {
    pub name: String,
    pub role_id: u32,
    pub permissions: u32,
    pub delete: bool,
}

/// A member of a group and the role that the member is to have.
#[derive(Debug, Clone)]
pub struct UpdateUserProposal {
    pub username: String,
    pub role_id: u32,
}

/// A conversation and its settings.
#[derive(Debug, Clone)]
pub struct Conversation {
    pub other: String,
    pub settings: u64,
}

/// Where the file-serving component listens, and the token that opens it.
#[derive(Debug, Clone)]
pub struct FileServerResponse {
    pub url: String,
    pub token: String,
}

/// The id that a sent message was given.
#[derive(Debug, Clone, Copy)]
pub struct MessageIdResponse {
    pub message_id: u64,
}

/// A group's extension, in base64.
#[derive(Debug, Clone)]
pub struct GroupExtensionResponse {
    pub result_b64: String,
}

/// A group together with its extension, in base64.
#[derive(Debug, Clone)]
pub struct GroupInfoAndExtension {
    pub name: String,
    pub group_id: u64,
    pub description: String,
    pub extension_b64: String,
}

/// The last messages of a conversation.
#[derive(Debug, Clone)]
pub struct LastMessagesResponse {
    pub result: Vec<BUserMessage>,
}

/// Messages of groups.
#[derive(Debug, Clone)]
pub struct LastGroupMessagesResponse {
    pub result: Vec<BGroupMessage>,
}

/// The last message of a conversation and how many of its messages are
/// unread.
#[derive(Debug, Clone)]
pub struct ConversationWithCount {
    pub message: BUserMessage,
    pub count: u32,
}

/// The last message of every conversation.
#[derive(Debug, Clone)]
pub struct AllConversationsResponse {
    pub result: Vec<ConversationWithCount>,
}

/// All groups.
#[derive(Debug, Clone)]
pub struct GroupInfosResponse {
    pub result: Vec<BGroupInfo>,
}

/// All conversations.
#[derive(Debug, Clone)]
pub struct ConversationsResponse {
    pub result: Vec<Conversation>,
}

/// Whether `sent` is `message` with its payload as the text `text_b64`.
pub open spec fn carries_user_message(sent: BUserMessage, message: UserMessage, text_b64: Seq<char>) -> bool {
    &&& sent.id == message.id
    &&& sent.other@ == message.other@
    &&& sent.sent_by_other == message.sent_by_other
    &&& sent.text_b64@ == text_b64
}

/// Whether `sent` is `message` with its payload as the text `text_b64`.
pub open spec fn carries_group_message(sent: BGroupMessage, message: GroupMessage, text_b64: Seq<char>) -> bool {
    &&& sent.sender@ == message.by@
    &&& sent.group_id == message.group_id
    &&& sent.text_b64@ == text_b64
    &&& sent.id == message.id
    &&& sent.channel_id == message.channel_id
    &&& sent.epoch == message.epoch
}

/// Whether `sent` says of the group what `info` says.
pub open spec fn carries_group_info(sent: BGroupInfo, info: GroupInfo) -> bool {
    &&& sent.name@ == info.name@
    &&& sent.group_id == info.id
    &&& sent.description@ == info.description@
}

impl BUserMessage {
    /// `message` with its payload given as text.
    pub fn with_text(message: &UserMessage, text_b64: String) -> (sent: Self)
        ensures
            carries_user_message(sent, *message, text_b64@),
    {
        BUserMessage {
            id: message.id,
            other: message.other.clone(),
            sent_by_other: message.sent_by_other,
            text_b64,
        }
    }
}

impl BGroupMessage {
    /// `message` with its payload given as text.
    pub fn with_text(message: &GroupMessage, text_b64: String) -> (sent: Self)
        ensures
            carries_group_message(sent, *message, text_b64@),
    {
        BGroupMessage {
            sender: message.by.clone(),
            group_id: message.group_id,
            text_b64,
            id: message.id,
            channel_id: message.channel_id,
            epoch: message.epoch,
        }
    }
}

/// The message as the user interface gets it, its payload in base64.
pub fn user_message_to_b_user_message(msg: &UserMessage) -> (sent: BUserMessage)
    requires
        encodable(msg.message@),
    ensures
        carries_user_message(sent, *msg, base64_standard(msg.message@)),
{
    BUserMessage::with_text(msg, encode_standard(&msg.message))
}

/// The group message as the user interface gets it, its payload in base64.
pub fn group_message_to_b_group_message(msg: &GroupMessage) -> (sent: BGroupMessage)
    requires
        encodable(msg.message@),
    ensures
        carries_group_message(sent, *msg, base64_standard(msg.message@)),
{
    BGroupMessage::with_text(msg, encode_standard(&msg.message))
}

/// The group as the user interface gets it.
pub fn group_info_to_b_group_info(info: &GroupInfo) -> (sent: BGroupInfo)
    ensures
        carries_group_info(sent, *info),
{
    BGroupInfo { name: info.name.clone(), group_id: info.id, description: info.description.clone() }
}

/// The last message of a conversation and how many of its messages are unread.
#[derive(Debug, Clone)]
pub struct LastMessage {
    pub message: UserMessage,
    pub count: u32,
}

/// What the user interface is told of an inbound event.
#[derive(Debug, Clone)]
pub enum UiEvent {
    OnUserMessage(BUserMessage),
    OnGroupMessage(BGroupMessage),
}

impl UiEvent {
    /// The name under which the user interface listens for the event.
    pub open spec fn name_of(self) -> Seq<char> {
        match self {
            UiEvent::OnUserMessage(_) => "onUserMessage"@,
            UiEvent::OnGroupMessage(_) => "onGroupMessage"@,
        }
    }

    /// The name under which the user interface listens for the event.
    pub fn name(&self) -> (name: &'static str)
        ensures
            name@ == self.name_of(),
    {
        match self {
            UiEvent::OnUserMessage(_) => "onUserMessage",
            UiEvent::OnGroupMessage(_) => "onGroupMessage",
        }
    }

    /// What the user interface is told of `event`: every inbound event is
    /// passed on, with its payload in base64.
    pub fn of_event(event: &InboundEvent) -> (told: Self)
        requires
            encodable(event.payload_bytes()),
        ensures
            match *event {
                InboundEvent::UserMessage(message) => told matches UiEvent::OnUserMessage(sent)
                    && carries_user_message(sent, message, base64_standard(message.message@)),
                InboundEvent::GroupMessage(message) => told matches UiEvent::OnGroupMessage(sent)
                    && carries_group_message(sent, message, base64_standard(message.message@)),
            },
    {
        match event {
            InboundEvent::UserMessage(message) => UiEvent::OnUserMessage(user_message_to_b_user_message(message)),
            InboundEvent::GroupMessage(message) => UiEvent::OnGroupMessage(
                group_message_to_b_group_message(message),
            ),
        }
    }
}

/// The answer to a request for the last messages of a conversation.
pub fn last_messages_response(messages: &Vec<UserMessage>) -> (response: LastMessagesResponse)
    requires
        forall|i: int| 0 <= i < messages.len() ==> encodable((#[trigger] messages[i]).message@),
    ensures
        response.result.len() == messages.len(),
        forall|i: int|
            0 <= i < messages.len() ==> carries_user_message(
                #[trigger] response.result[i],
                messages[i],
                base64_standard(messages[i].message@),
            ),
{
    let mut result: Vec<BUserMessage> = Vec::new();
    let mut i: usize = 0;
    while i < messages.len()
        invariant
            i <= messages.len(),
            result.len() == i,
            forall|j: int| 0 <= j < messages.len() ==> encodable((#[trigger] messages[j]).message@),
            forall|j: int|
                0 <= j < i ==> carries_user_message(
                    #[trigger] result[j],
                    messages[j],
                    base64_standard(messages[j].message@),
                ),
        decreases messages.len() - i,
    {
        result.push(user_message_to_b_user_message(&messages[i]));
        i = i + 1;
    }
    LastMessagesResponse { result }
}

/// The answer to a request for the last message of every conversation.
pub fn all_conversations_response(conversations: &Vec<LastMessage>) -> (response: AllConversationsResponse)
    requires
        forall|i: int| 0 <= i < conversations.len() ==> encodable((#[trigger] conversations[i]).message.message@),
    ensures
        response.result.len() == conversations.len(),
        forall|i: int|
            0 <= i < conversations.len() ==> {
                &&& carries_user_message(
                    (#[trigger] response.result[i]).message,
                    conversations[i].message,
                    base64_standard(conversations[i].message.message@),
                )
                &&& response.result[i].count == conversations[i].count
            },
{
    let mut result: Vec<ConversationWithCount> = Vec::new();
    let mut i: usize = 0;
    while i < conversations.len()
        invariant
            i <= conversations.len(),
            result.len() == i,
            forall|j: int|
                0 <= j < conversations.len() ==> encodable((#[trigger] conversations[j]).message.message@),
            forall|j: int|
                0 <= j < i ==> {
                    &&& carries_user_message(
                        (#[trigger] result[j]).message,
                        conversations[j].message,
                        base64_standard(conversations[j].message.message@),
                    )
                    &&& result[j].count == conversations[j].count
                },
        decreases conversations.len() - i,
    {
        let conversation = &conversations[i];
        result.push(
            ConversationWithCount {
                message: user_message_to_b_user_message(&conversation.message),
                count: conversation.count,
            },
        );
        i = i + 1;
    }
    AllConversationsResponse { result }
}

/// The answer to a request for group messages.
pub fn last_group_messages_response(messages: &Vec<GroupMessage>) -> (response: LastGroupMessagesResponse)
    requires
        forall|i: int| 0 <= i < messages.len() ==> encodable((#[trigger] messages[i]).message@),
    ensures
        response.result.len() == messages.len(),
        forall|i: int|
            0 <= i < messages.len() ==> carries_group_message(
                #[trigger] response.result[i],
                messages[i],
                base64_standard(messages[i].message@),
            ),
{
    let mut result: Vec<BGroupMessage> = Vec::new();
    let mut i: usize = 0;
    while i < messages.len()
        invariant
            i <= messages.len(),
            result.len() == i,
            forall|j: int| 0 <= j < messages.len() ==> encodable((#[trigger] messages[j]).message@),
            forall|j: int|
                0 <= j < i ==> carries_group_message(
                    #[trigger] result[j],
                    messages[j],
                    base64_standard(messages[j].message@),
                ),
        decreases messages.len() - i,
    {
        result.push(group_message_to_b_group_message(&messages[i]));
        i = i + 1;
    }
    LastGroupMessagesResponse { result }
}

/// The answer to a request for all groups.
pub fn group_infos_response(groups: &Vec<GroupInfo>) -> (response: GroupInfosResponse)
    ensures
        response.result.len() == groups.len(),
        forall|i: int| 0 <= i < groups.len() ==> carries_group_info(#[trigger] response.result[i], groups[i]),
{
    let mut result: Vec<BGroupInfo> = Vec::new();
    let mut i: usize = 0;
    while i < groups.len()
        invariant
            i <= groups.len(),
            result.len() == i,
            forall|j: int| 0 <= j < i ==> carries_group_info(#[trigger] result[j], groups[j]),
        decreases groups.len() - i,
    {
        result.push(group_info_to_b_group_info(&groups[i]));
        i = i + 1;
    }
    GroupInfosResponse { result }
}

/// The answer to a request for a group's extension.
pub fn group_extension_response(extension: &Vec<u8>) -> (response: GroupExtensionResponse)
    requires
        encodable(extension@),
    ensures
        response.result_b64@ == base64_standard(extension@),
{
    GroupExtensionResponse { result_b64: encode_standard(extension) }
}

/// The answer to a request for a group and its extension.
pub fn group_info_and_extension(info: &GroupInfo, extension: &Vec<u8>) -> (response: GroupInfoAndExtension)
    requires
        encodable(extension@),
    ensures
        response.name@ == info.name@,
        response.group_id == info.id,
        response.description@ == info.description@,
        response.extension_b64@ == base64_standard(extension@),
{
    GroupInfoAndExtension {
        name: info.name.clone(),
        group_id: info.id,
        description: info.description.clone(),
        extension_b64: encode_standard(extension),
    }
}

/// Where the file-serving component listens, and the token that opens it.
pub fn file_server_response(port: u16, token: String) -> (response: FileServerResponse)
    ensures
        response.url@ == "http://localhost:"@ + decimal(port as nat),
        response.token@ == token@,
{
    let mut url = String::from_str("http://localhost:");
    let number = decimal_string(port as usize);
    url.append(number.as_str());
    FileServerResponse { url, token }
}

/// The operations that the surrounding application asks for, each of which
/// can fail.
#[derive(Debug, Clone, Copy, PartialEq, Eq, Structural)]
pub enum Operation {
    DecodeBase64,
    EncryptAndSend,
    GetMessages,
    GetConversations,
    SaveTokens,
    MarkAsRead,
    ShowNotification,
    ShowCallNotification,
    GetGroupMessages,
    EncryptAndSendGroupMessage,
    GetGroupExtension,
    CreateGroup,
    GetGroupInfos,
    GetGroupInfo,
    UpdateGroupChannel,
    UpdateGroupRoles,
    UpdateGroupRolesInChannel,
    UpdateGroupUsers,
    AddGroupMember,
    KickGroupMember,
}

impl Operation {
    /// What the user is told has failed.
    pub open spec fn prefix(self) -> Seq<char> {
        match self {
            Operation::DecodeBase64 => "Failed to decode base64"@,
            Operation::EncryptAndSend => "Failed to encrypt and send"@,
            Operation::GetMessages => "Failed to get messages"@,
            Operation::GetConversations => "Failed to get conversations"@,
            Operation::SaveTokens => "Failed to save tokens"@,
            Operation::MarkAsRead => "Failed to mark as read"@,
            Operation::ShowNotification => "Failed to show notification"@,
            Operation::ShowCallNotification => "Failed to show call notification"@,
            Operation::GetGroupMessages => "Failed to get group messages"@,
            Operation::EncryptAndSendGroupMessage => "Failed to encrypt and send group message"@,
            Operation::GetGroupExtension => "Failed to get group extension"@,
            Operation::CreateGroup => "Failed to create group"@,
            Operation::GetGroupInfos => "Failed to get group infos"@,
            Operation::GetGroupInfo => "Failed to get group info"@,
            Operation::UpdateGroupChannel => "Failed to update group channel"@,
            Operation::UpdateGroupRoles => "Failed to update group roles"@,
            Operation::UpdateGroupRolesInChannel => "Failed to update group roles in channel"@,
            Operation::UpdateGroupUsers => "Failed to update group users"@,
            Operation::AddGroupMember => "Failed to add group member"@,
            Operation::KickGroupMember => "Failed to kick group member"@,
        }
    }

    /// What the user is told has failed.
    pub fn failure_prefix(self) -> (prefix: &'static str)
        ensures
            prefix@ == self.prefix(),
    {
        match self {
            Operation::DecodeBase64 => "Failed to decode base64",
            Operation::EncryptAndSend => "Failed to encrypt and send",
            Operation::GetMessages => "Failed to get messages",
            Operation::GetConversations => "Failed to get conversations",
            Operation::SaveTokens => "Failed to save tokens",
            Operation::MarkAsRead => "Failed to mark as read",
            Operation::ShowNotification => "Failed to show notification",
            Operation::ShowCallNotification => "Failed to show call notification",
            Operation::GetGroupMessages => "Failed to get group messages",
            Operation::EncryptAndSendGroupMessage => "Failed to encrypt and send group message",
            Operation::GetGroupExtension => "Failed to get group extension",
            Operation::CreateGroup => "Failed to create group",
            Operation::GetGroupInfos => "Failed to get group infos",
            Operation::GetGroupInfo => "Failed to get group info",
            Operation::UpdateGroupChannel => "Failed to update group channel",
            Operation::UpdateGroupRoles => "Failed to update group roles",
            Operation::UpdateGroupRolesInChannel => "Failed to update group roles in channel",
            Operation::UpdateGroupUsers => "Failed to update group users",
            Operation::AddGroupMember => "Failed to add group member",
            Operation::KickGroupMember => "Failed to kick group member",
        }
    }

    /// The sentence that tells the user that the operation failed, and why.
    pub fn failure(self, detail: &str) -> (message: String)
        ensures
            message@ == failure_text(self.prefix(), detail@),
    {
        failure_message(self.failure_prefix(), detail)
    }
}

} // verus!
