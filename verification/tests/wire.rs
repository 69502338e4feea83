use base64::engine::general_purpose;
use base64::Engine;
use lupyd::message::{GroupInfo, GroupMessage, InboundEvent, UserMessage};
use lupyd::wire::{
    all_conversations_response, can_encode, decode_payload, file_server_response,
    group_extension_response, group_info_and_extension, group_info_to_b_group_info,
    group_infos_response, group_message_to_b_group_message, last_group_messages_response,
    last_messages_response, user_message_to_b_user_message, BUserMessage, LastMessage, Operation,
    UiEvent,
};

fn user_message(id: u64, other: &str, sent_by_other: bool, message: &[u8]) -> UserMessage {
    UserMessage {
        id,
        other: other.to_string(),
        sent_by_other,
        message: message.to_vec(),
    }
}

fn group_message(id: u64, message: &[u8]) -> GroupMessage {
    GroupMessage {
        id,
        group_id: 77,
        channel_id: 3,
        epoch: 12,
        by: "carol".to_string(),
        message: message.to_vec(),
    }
}

fn encoded(payload: &[u8]) -> String {
    group_extension_response(&payload.to_vec()).result_b64
}

#[test]
fn payloads_are_carried_as_standard_base64() {
    assert_eq!(encoded(b"hello"), "aGVsbG8=");
    assert_eq!(encoded(b""), "");
    assert_eq!(encoded(&[0xfb, 0xff]), "+/8=");
    assert_eq!(encoded(b"hello world~"), "aGVsbG8gd29ybGR+");
}

#[test]
fn base64_text_gives_its_payload_back() {
    assert_eq!(decode_payload("aGVsbG8="), Ok(b"hello".to_vec()));
    assert_eq!(decode_payload(""), Ok(Vec::new()));
    assert_eq!(decode_payload("+/8="), Ok(vec![0xfb, 0xff]));
    let payload: Vec<u8> = (0..=255).collect();
    assert_eq!(decode_payload(&encoded(&payload)), Ok(payload));
}

#[test]
fn text_that_is_not_base64_is_refused_with_the_reason() {
    for bad in ["!!!!", "aGVsbG8", "a", "aGVsbG8=="] {
        let reason = general_purpose::STANDARD.decode(bad).unwrap_err().to_string();
        assert_eq!(
            decode_payload(bad),
            Err(format!("Failed to decode base64: {}", reason))
        );
    }
    assert_eq!(
        decode_payload("!!!!"),
        Err("Failed to decode base64: Invalid symbol 33, offset 0.".to_string())
    );
}

#[test]
fn every_payload_in_memory_can_be_encoded() {
    assert!(can_encode(&Vec::new()));
    assert!(can_encode(&vec![0u8; 1000]));
}

#[test]
fn a_user_message_keeps_its_fields() {
    let sent = user_message_to_b_user_message(&user_message(42, "alice", true, b"hello"));
    assert_eq!(sent.id, 42);
    assert_eq!(sent.other, "alice");
    assert!(sent.sent_by_other);
    assert_eq!(sent.text_b64, "aGVsbG8=");
    let own = BUserMessage::with_text(&user_message(1, "bob", false, b"x"), "eA==".to_string());
    assert_eq!(own.id, 1);
    assert_eq!(own.other, "bob");
    assert!(!own.sent_by_other);
    assert_eq!(own.text_b64, "eA==");
}

#[test]
fn a_group_message_keeps_its_fields() {
    let sent = group_message_to_b_group_message(&group_message(9, b"hello"));
    assert_eq!(sent.sender, "carol");
    assert_eq!(sent.group_id, 77);
    assert_eq!(sent.text_b64, "aGVsbG8=");
    assert_eq!(sent.id, 9);
    assert_eq!(sent.channel_id, 3);
    assert_eq!(sent.epoch, 12);
}

#[test]
fn a_group_keeps_its_name_and_description() {
    let info = GroupInfo { id: 5, name: "team".to_string(), description: "the team".to_string() };
    let sent = group_info_to_b_group_info(&info);
    assert_eq!(sent.name, "team");
    assert_eq!(sent.group_id, 5);
    assert_eq!(sent.description, "the team");
}

#[test]
fn every_inbound_event_is_passed_on_to_the_user_interface() {
    let user = InboundEvent::UserMessage(user_message(1, "alice", true, b"hello"));
    match UiEvent::of_event(&user) {
        told @ UiEvent::OnUserMessage(_) => {
            assert_eq!(told.name(), "onUserMessage");
            if let UiEvent::OnUserMessage(sent) = told {
                assert_eq!(sent.text_b64, "aGVsbG8=");
                assert_eq!(sent.other, "alice");
            }
        }
        _ => panic!("a user message is told as one"),
    }
    let group = InboundEvent::GroupMessage(group_message(2, b"hello"));
    match UiEvent::of_event(&group) {
        told @ UiEvent::OnGroupMessage(_) => {
            assert_eq!(told.name(), "onGroupMessage");
            if let UiEvent::OnGroupMessage(sent) = told {
                assert_eq!(sent.sender, "carol");
                assert_eq!(sent.id, 2);
            }
        }
        _ => panic!("a group message is told as one"),
    }
}

#[test]
fn only_user_messages_are_bundled() {
    let user = InboundEvent::UserMessage(user_message(1, "alice", true, b"hello"));
    assert_eq!(user.bundled_message().map(|m| m.id), Some(1));
    assert_eq!(user.payload(), &b"hello".to_vec());
    let group = InboundEvent::GroupMessage(group_message(2, b"group hello"));
    assert!(group.bundled_message().is_none());
    assert_eq!(group.payload(), &b"group hello".to_vec());
}

#[test]
fn answers_list_what_they_were_given_in_order() {
    let messages = vec![
        user_message(1, "alice", true, b"a"),
        user_message(2, "alice", false, b"b"),
    ];
    let last = last_messages_response(&messages);
    assert_eq!(last.result.len(), 2);
    assert_eq!(last.result[0].id, 1);
    assert_eq!(last.result[0].text_b64, "YQ==");
    assert_eq!(last.result[1].id, 2);
    assert_eq!(last.result[1].text_b64, "Yg==");
    assert!(last_messages_response(&Vec::new()).result.is_empty());

    let groups = last_group_messages_response(&vec![group_message(3, b"a"), group_message(4, b"b")]);
    assert_eq!(groups.result.len(), 2);
    assert_eq!(groups.result[0].id, 3);
    assert_eq!(groups.result[1].text_b64, "Yg==");

    let conversations = all_conversations_response(&vec![
        LastMessage { message: user_message(1, "alice", true, b"a"), count: 4 },
        LastMessage { message: user_message(9, "bob", true, b"b"), count: 0 },
    ]);
    assert_eq!(conversations.result.len(), 2);
    assert_eq!(conversations.result[0].count, 4);
    assert_eq!(conversations.result[0].message.other, "alice");
    assert_eq!(conversations.result[1].count, 0);
    assert_eq!(conversations.result[1].message.text_b64, "Yg==");

    let infos = group_infos_response(&vec![
        GroupInfo { id: 1, name: "one".to_string(), description: "first".to_string() },
        GroupInfo { id: 2, name: "two".to_string(), description: "second".to_string() },
    ]);
    assert_eq!(infos.result.len(), 2);
    assert_eq!(infos.result[1].name, "two");
    assert_eq!(infos.result[1].group_id, 2);
}

#[test]
fn a_group_extension_is_carried_as_base64() {
    assert_eq!(group_extension_response(&b"hello".to_vec()).result_b64, "aGVsbG8=");
    let info = GroupInfo { id: 5, name: "team".to_string(), description: "the team".to_string() };
    let both = group_info_and_extension(&info, &b"hello".to_vec());
    assert_eq!(both.name, "team");
    assert_eq!(both.group_id, 5);
    assert_eq!(both.description, "the team");
    assert_eq!(both.extension_b64, "aGVsbG8=");
}

#[test]
fn the_file_server_is_reached_on_localhost() {
    let response = file_server_response(8080, "secret".to_string());
    assert_eq!(response.url, "http://localhost:8080");
    assert_eq!(response.token, "secret");
    assert_eq!(file_server_response(0, String::new()).url, "http://localhost:0");
    assert_eq!(file_server_response(65535, String::new()).url, "http://localhost:65535");
}

#[test]
fn failures_name_the_operation() {
    let expected = [
        (Operation::DecodeBase64, "Failed to decode base64: why"),
        (Operation::EncryptAndSend, "Failed to encrypt and send: why"),
        (Operation::GetMessages, "Failed to get messages: why"),
        (Operation::GetConversations, "Failed to get conversations: why"),
        (Operation::SaveTokens, "Failed to save tokens: why"),
        (Operation::MarkAsRead, "Failed to mark as read: why"),
        (Operation::ShowNotification, "Failed to show notification: why"),
        (Operation::ShowCallNotification, "Failed to show call notification: why"),
        (Operation::GetGroupMessages, "Failed to get group messages: why"),
        (
            Operation::EncryptAndSendGroupMessage,
            "Failed to encrypt and send group message: why",
        ),
        (Operation::GetGroupExtension, "Failed to get group extension: why"),
        (Operation::CreateGroup, "Failed to create group: why"),
        (Operation::GetGroupInfos, "Failed to get group infos: why"),
        (Operation::GetGroupInfo, "Failed to get group info: why"),
        (Operation::UpdateGroupChannel, "Failed to update group channel: why"),
        (Operation::UpdateGroupRoles, "Failed to update group roles: why"),
        (
            Operation::UpdateGroupRolesInChannel,
            "Failed to update group roles in channel: why",
        ),
        (Operation::UpdateGroupUsers, "Failed to update group users: why"),
        (Operation::AddGroupMember, "Failed to add group member: why"),
        (Operation::KickGroupMember, "Failed to kick group member: why"),
    ];
    for (operation, message) in expected {
        assert_eq!(operation.failure("why"), message);
        assert!(message.starts_with(operation.failure_prefix()));
    }
}
