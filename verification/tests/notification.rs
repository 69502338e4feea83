use lupyd::message::UserMessage;
use lupyd::notification::{
    call_notification, grouping_key, message_notification, new_messages_notification,
    notification_body, render_body, table_id, table_row, DecodedMessage, DesktopNotification,
    MessageBody,
    NotificationAction, NotificationData, NotificationHandler, Platform, UserBundledNotification,
    BUNDLE_LIMIT,
};
use lupyd::store::{MessageNotification, NotificationStore};
use std::collections::hash_map::DefaultHasher;
use std::hash::{Hash, Hasher};

fn decoded(other: &str, msg_id: i64, sent_by_me: bool, body: MessageBody) -> DecodedMessage {
    DecodedMessage {
        record: MessageNotification::new(msg_id, other.to_string(), vec![0x01, 0x02], sent_by_me),
        body,
    }
}

fn plain(text: &str) -> MessageBody {
    MessageBody::PlainText(text.as_bytes().to_vec())
}

fn line(msg_id: i64, text: &str, sent_by_me: bool) -> NotificationData {
    NotificationData {
        msg_id,
        other: "alice".to_string(),
        text: text.to_string(),
        sent_by_me,
    }
}

fn user_message(id: u64, other: &str, sent_by_other: bool, message: &[u8]) -> UserMessage {
    UserMessage {
        id,
        other: other.to_string(),
        sent_by_other,
        message: message.to_vec(),
    }
}

fn texts(bundle: &UserBundledNotification) -> Vec<String> {
    bundle.messages().iter().map(|m| m.text.clone()).collect()
}

#[test]
fn plain_text_is_shown_as_it_was_written() {
    assert_eq!(render_body(&plain("hello")), Some("hello".to_string()));
    assert_eq!(render_body(&plain("")), Some(String::new()));
    assert_eq!(render_body(&plain("grüße, 世界")), Some("grüße, 世界".to_string()));
}

#[test]
fn plain_text_that_is_not_utf8_is_not_shown() {
    assert_eq!(render_body(&MessageBody::PlainText(vec![0xff, 0xfe])), None);
    assert_eq!(render_body(&MessageBody::PlainText(vec![b'a', 0xc3])), None);
}

#[test]
fn a_call_is_shown_by_its_phrase() {
    assert_eq!(render_body(&MessageBody::CallMessage), Some("call message".to_string()));
}

#[test]
fn a_rich_payload_is_shown_by_its_text() {
    let body = MessageBody::MessagePayload { text: "look at this".to_string() };
    assert_eq!(render_body(&body), Some("look at this".to_string()));
}

#[test]
fn an_unrecognized_payload_is_not_shown() {
    assert_eq!(render_body(&MessageBody::Unrecognized), None);
}

#[test]
fn one_undecodable_row_is_left_out_and_the_others_stay() {
    let rows = vec![
        decoded("alice", 1, false, plain("one")),
        decoded("alice", 2, true, MessageBody::Unrecognized),
        decoded("alice", 3, false, MessageBody::CallMessage),
        decoded("alice", 4, true, MessageBody::MessagePayload { text: "four".to_string() }),
    ];
    let bundle = UserBundledNotification::bundle("alice", &rows);
    assert_eq!(bundle.other(), "alice");
    let ids: Vec<i64> = bundle.messages().iter().map(|m| m.msg_id).collect();
    assert_eq!(ids, vec![1, 3, 4]);
    assert_eq!(texts(&bundle), vec!["one", "call message", "four"]);
    let mine: Vec<bool> = bundle.messages().iter().map(|m| m.sent_by_me).collect();
    assert_eq!(mine, vec![false, false, true]);
    assert!(bundle.messages().iter().all(|m| m.other == "alice"));
}

#[test]
fn text_that_is_not_utf8_is_left_out_of_the_bundle() {
    let rows = vec![
        decoded("alice", 1, false, MessageBody::PlainText(vec![0xc0, 0x80])),
        decoded("alice", 2, false, plain("two")),
    ];
    let bundle = UserBundledNotification::bundle("alice", &rows);
    assert_eq!(texts(&bundle), vec!["two"]);
}

#[test]
fn a_bundle_of_nothing_is_empty() {
    let bundle = UserBundledNotification::bundle("alice", &Vec::new());
    assert!(bundle.messages().is_empty());
    assert_eq!(bundle.other(), "alice");
    let only_unknown = vec![decoded("alice", 1, false, MessageBody::Unrecognized)];
    assert!(UserBundledNotification::bundle("alice", &only_unknown).messages().is_empty());
}

#[test]
fn a_bundle_keeps_the_last_six_lines() {
    let rows: Vec<DecodedMessage> = (1..=9)
        .map(|id| decoded("alice", id, false, plain(&format!("m{}", id))))
        .collect();
    let bundle = UserBundledNotification::bundle("alice", &rows);
    assert_eq!(BUNDLE_LIMIT, 6);
    assert_eq!(texts(&bundle), vec!["m4", "m5", "m6", "m7", "m8", "m9"]);
    let six: Vec<DecodedMessage> = (1..=6)
        .map(|id| decoded("alice", id, false, plain(&format!("m{}", id))))
        .collect();
    assert_eq!(UserBundledNotification::bundle("alice", &six).messages().len(), 6);
}

#[test]
fn a_bundle_never_mixes_conversations() {
    let rows = vec![
        decoded("alice", 1, false, plain("from alice")),
        decoded("bob", 2, false, plain("from bob")),
        decoded("alice", 3, false, plain("alice again")),
    ];
    let bundle = UserBundledNotification::bundle("alice", &rows);
    assert_eq!(texts(&bundle), vec!["from alice", "alice again"]);
    assert!(bundle.messages().iter().all(|m| m.other == "alice"));
    assert_eq!(texts(&UserBundledNotification::bundle("bob", &rows)), vec!["from bob"]);
    assert!(UserBundledNotification::bundle("carol", &rows).messages().is_empty());
}

#[test]
fn the_body_of_one_line_has_no_count() {
    assert_eq!(notification_body(&vec![line(1, "hello", false)]), "hello");
    assert_eq!(notification_body(&vec![line(1, "hello", true)]), "Me: hello");
    assert_eq!(notification_body(&Vec::new()), "");
}

#[test]
fn the_body_of_several_lines_ends_with_their_count() {
    let lines = vec![line(1, "hi", false), line(2, "hello", true), line(3, "bye", false)];
    assert_eq!(notification_body(&lines), "hi\nMe: hello\nbye\n\n3 messages");
    let two = vec![line(1, "a", true), line(2, "b", true)];
    assert_eq!(notification_body(&two), "Me: a\nMe: b\n\n2 messages");
    let twelve: Vec<NotificationData> = (0..12).map(|n| line(n, "x", false)).collect();
    assert!(notification_body(&twelve).ends_with("x\nx\n\n12 messages"));
}

#[test]
fn the_grouping_key_is_the_hash_of_the_conversation_cut_to_32_bits() {
    for name in ["alice", "bob", "", "grüße", "a much longer conversation name"] {
        let mut hasher = DefaultHasher::new();
        name.hash(&mut hasher);
        assert_eq!(grouping_key(name), hasher.finish() as i32);
    }
}

#[test]
fn the_grouping_key_is_stable() {
    assert_eq!(grouping_key("alice"), grouping_key("alice"));
    assert_ne!(grouping_key("alice"), grouping_key("bob"));
}

#[test]
fn the_desktop_notification_has_title_body_and_key() {
    let rows = vec![
        decoded("alice", 1, false, plain("hi")),
        decoded("alice", 2, true, plain("hello")),
    ];
    let bundle = UserBundledNotification::bundle("alice", &rows);
    let shown = DesktopNotification::of_bundle(&bundle);
    assert_eq!(shown.title, "alice");
    assert_eq!(shown.body, "hi\nMe: hello\n\n2 messages");
    assert_eq!(shown.id, grouping_key("alice"));
}

#[test]
fn a_received_message_enters_the_history() {
    let handler = NotificationHandler::new(Platform::Desktop);
    let mut store = NotificationStore::new();
    let entered =
        handler.add_message_to_history(&mut store, &user_message(5, "alice", true, b"payload"));
    assert_eq!(entered.msg_id, 5);
    assert_eq!(entered.text, b"payload".to_vec());
    handler.add_message_to_history(&mut store, &user_message(6, "alice", false, b"reply"));
    let rows = store.get_from_user("alice", 10);
    assert_eq!(rows.len(), 2);
    assert_eq!(rows[0].msg_id, 5);
    assert_eq!(rows[0].text, b"payload".to_vec());
    assert!(!rows[0].sent_by_me);
    assert_eq!(rows[1].msg_id, 6);
    assert!(rows[1].sent_by_me);
}

#[test]
fn a_message_delivered_twice_is_one_row() {
    let handler = NotificationHandler::new(Platform::Desktop);
    let mut store = NotificationStore::new();
    handler.add_message_to_history(&mut store, &user_message(5, "alice", true, b"first"));
    handler.add_message_to_history(&mut store, &user_message(5, "alice", true, b"second"));
    assert_eq!(store.len(), 1);
    assert_eq!(store.get_from_user("alice", 10)[0].text, b"second".to_vec());
}

#[test]
fn an_id_beyond_the_signed_range_wraps() {
    let handler = NotificationHandler::new(Platform::Desktop);
    let mut store = NotificationStore::new();
    handler.add_message_to_history(&mut store, &user_message(u64::MAX, "alice", true, b"x"));
    assert_eq!(store.get_from_user("alice", 10)[0].msg_id, -1);
}

#[test]
fn the_rows_to_bundle_are_the_newest_six() {
    let handler = NotificationHandler::new(Platform::Desktop);
    let mut store = NotificationStore::new();
    for id in 1..=8u64 {
        handler.add_message_to_history(&mut store, &user_message(id, "alice", true, b"x"));
    }
    handler.add_message_to_history(&mut store, &user_message(1, "bob", true, b"y"));
    let (entered, rows) =
        handler.rows_to_bundle(&mut store, &user_message(9, "alice", true, b"new"));
    assert_eq!(entered.msg_id, 9);
    assert_eq!(entered.text, b"new".to_vec());
    let ids: Vec<i64> = rows.iter().map(|r| r.msg_id).collect();
    assert_eq!(ids, vec![4, 5, 6, 7, 8, 9]);
    assert_eq!(rows[5].text, b"new".to_vec());
    assert_eq!(store.len(), 10);
    let (late, rows) = handler.rows_to_bundle(&mut store, &user_message(2, "alice", false, b"late"));
    assert_eq!(late.msg_id, 2);
    assert!(late.sent_by_me);
    let ids: Vec<i64> = rows.iter().map(|r| r.msg_id).collect();
    assert_eq!(ids, vec![4, 5, 6, 7, 8, 9]);
    assert_eq!(store.len(), 10);
}

#[test]
fn the_desktop_shows_the_bundle() {
    let handler = NotificationHandler::new(Platform::Desktop);
    let rows = vec![
        decoded("alice", 1, false, plain("hi")),
        decoded("alice", 2, false, MessageBody::Unrecognized),
        decoded("alice", 3, true, plain("yo")),
    ];
    match handler.show_user_bundled_notification("alice", &rows) {
        NotificationAction::ShowDesktop(shown) => {
            assert_eq!(shown.title, "alice");
            assert_eq!(shown.body, "hi\nMe: yo\n\n2 messages");
            assert_eq!(shown.id, grouping_key("alice"));
        }
        _ => panic!("the desktop shows its notifications itself"),
    }
}

#[test]
fn android_hands_the_bundle_to_its_plugin() {
    let handler = NotificationHandler::new(Platform::Android);
    let rows = vec![decoded("alice", 1, false, plain("hi"))];
    match handler.show_user_bundled_notification("alice", &rows) {
        NotificationAction::RunMobilePlugin { command, bundle } => {
            assert_eq!(command, "showUserBundledNotification");
            assert_eq!(bundle.other(), "alice");
            assert_eq!(texts(&bundle), vec!["hi"]);
        }
        _ => panic!("android shows notifications through its plugin"),
    }
}

#[test]
fn ios_shows_nothing() {
    let handler = NotificationHandler::new(Platform::Ios);
    let rows = vec![decoded("alice", 1, false, plain("hi"))];
    assert!(matches!(
        handler.show_user_bundled_notification("alice", &rows),
        NotificationAction::Nothing
    ));
}

#[test]
fn clearing_empties_the_history() {
    let handler = NotificationHandler::new(Platform::Desktop);
    let mut store = NotificationStore::new();
    handler.add_message_to_history(&mut store, &user_message(1, "alice", true, b"x"));
    handler.add_message_to_history(&mut store, &user_message(2, "bob", true, b"y"));
    handler.clear_all(&mut store);
    assert_eq!(store.len(), 0);
}

#[test]
fn reading_up_to_a_message_removes_the_rows_up_to_it() {
    let handler = NotificationHandler::new(Platform::Desktop);
    let mut store = NotificationStore::new();
    for id in 1..=4u64 {
        handler.add_message_to_history(&mut store, &user_message(id, "alice", true, b"x"));
        handler.add_message_to_history(&mut store, &user_message(id, "bob", true, b"y"));
    }
    assert_eq!(handler.mark_as_read_until(&mut store, "alice", 2), 2);
    let ids: Vec<i64> = store.get_from_user("alice", 10).iter().map(|r| r.msg_id).collect();
    assert_eq!(ids, vec![3, 4]);
    assert_eq!(store.get_from_user("bob", 10).len(), 4);
}

#[test]
fn only_android_asks_for_the_permission_to_post() {
    assert_eq!(
        NotificationHandler::new(Platform::Android).request_all_permissions(),
        vec!["POST_NOTIFICATIONS".to_string()]
    );
    assert!(NotificationHandler::new(Platform::Desktop).request_all_permissions().is_empty());
    assert!(NotificationHandler::new(Platform::Ios).request_all_permissions().is_empty());
}

#[test]
fn plain_notifications_say_who_and_what() {
    let message = message_notification("alice");
    assert_eq!(message.title, "Message from alice");
    assert_eq!(message.body, "New message received");
    let call = call_notification("bob");
    assert_eq!(call.title, "Incoming Call");
    assert_eq!(call.body, "bob is calling...");
}

#[test]
fn new_messages_are_counted_in_words() {
    assert_eq!(new_messages_notification("alice", 1).body, "1 new message");
    assert_eq!(new_messages_notification("alice", 0).body, "0 new messages");
    assert_eq!(new_messages_notification("alice", 6).body, "6 new messages");
    assert_eq!(new_messages_notification("alice", 6).title, "Message from alice");
}

#[test]
fn ids_are_kept_in_signed_64_bits() {
    assert_eq!(table_id(0), 0);
    assert_eq!(table_id(42), 42);
    assert_eq!(table_id(i64::MAX as u64), i64::MAX);
    assert_eq!(table_id(i64::MAX as u64 + 1), i64::MIN);
    assert_eq!(table_id(u64::MAX), -1);
}

#[test]
fn the_row_of_a_message_turns_its_direction_round() {
    let received = table_row(&user_message(7, "alice", true, b"in"));
    assert_eq!(received.msg_id, 7);
    assert_eq!(received.other, "alice");
    assert_eq!(received.text, b"in".to_vec());
    assert!(!received.sent_by_me);
    let sent = table_row(&user_message(8, "alice", false, b"out"));
    assert!(sent.sent_by_me);
}

#[test]
fn a_copy_of_a_message_has_its_fields() {
    let copy = user_message(7, "alice", true, b"in").duplicate();
    assert_eq!(copy.id, 7);
    assert_eq!(copy.other, "alice");
    assert!(copy.sent_by_other);
    assert_eq!(copy.message, b"in".to_vec());
}
