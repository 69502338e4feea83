//! The notification bundler: from the recent rows of one conversation to the
//! single grouped notification that the platform shows for it.

use crate::message::UserMessage;
use crate::store::{
    is_recent, read_until, records, MessageNotification, NotificationRecord, NotificationStore,
};
use crate::text::{decimal, decimal_string};
use std::collections::hash_map::DefaultHasher;
use std::hash::Hasher;
use std::string::FromUtf8Error;
use vstd::prelude::*;
use vstd::std_specs::hash::DefaultHasherAdditionalSpecFns;
use vstd::string::*;
use vstd::utf8::{decode_utf8, encode_utf8, valid_utf8};

verus! {

/// How many messages one grouped notification holds at most.
pub const BUNDLE_LIMIT: usize = 6;

/// The surface on which notifications are shown.
#[derive(Debug, Clone, Copy, PartialEq, Eq, Structural)]
pub enum Platform {
    Desktop,
    Android,
    Ios,
}

/// What a stored payload turned out to hold, once the protocol layer has
/// decoded it.
#[derive(Debug, Clone)]
pub enum MessageBody {
    /// Plain text, as the bytes that were sent.
    PlainText(Vec<u8>),
    /// The marker of a call.
    CallMessage,
    /// A rich payload; only its text is shown.
    MessagePayload { text: String },
    /// Any other variant, or bytes that did not decode.
    Unrecognized,
}

/// A stored row together with its decoded payload.
#[derive(Debug, Clone)]
pub struct DecodedMessage {
    pub record: MessageNotification,
    pub body: MessageBody,
}

/// One line of a grouped notification.
#[derive(Debug, Clone)]
pub struct NotificationData {
    pub msg_id: i64,
    pub other: String,
    pub text: String,
    pub sent_by_me: bool,
}

/// The mathematical value of a [`NotificationData`].
pub struct NotificationEntry {
    pub msg_id: int,
    pub other: Seq<char>,
    pub text: Seq<char>,
    pub sent_by_me: bool,
}

impl View for NotificationData {
    type V = NotificationEntry;

    open spec fn view(&self) -> NotificationEntry {
        NotificationEntry {
            msg_id: self.msg_id as int,
            other: self.other@,
            text: self.text@,
            sent_by_me: self.sent_by_me,
        }
    }
}

/// The values of a sequence of lines.
pub open spec fn lines_of(messages: Seq<NotificationData>) -> Seq<NotificationEntry> {
    messages.map_values(|m: NotificationData| m@)
}

/// The text shown for a payload, where it has one: plain text must be
/// UTF-8, a call is shown by a fixed phrase, a rich payload by its text.
pub open spec fn display_text(body: MessageBody) -> Option<Seq<char>> {
    match body {
        MessageBody::PlainText(bytes) => if valid_utf8(bytes@) {
            Some(decode_utf8(bytes@))
        } else {
            None
        },
        MessageBody::CallMessage => Some("call message"@),
        MessageBody::MessagePayload { text } => Some(text@),
        MessageBody::Unrecognized => None,
    }
}

/// The line that a decoded row gives in the notification of `conversation`:
/// none where the row belongs elsewhere or has nothing to show.
pub open spec fn entry_of(conversation: Seq<char>, message: DecodedMessage) -> Option<NotificationEntry> {
    if message.record.other@ == conversation {
        match display_text(message.body) {
            Some(text) => Some(
                NotificationEntry {
                    msg_id: message.record.msg_id as int,
                    other: conversation,
                    text,
                    sent_by_me: message.record.sent_by_me,
                },
            ),
            None => None,
        }
    } else {
        None
    }
}

/// The lines of all rows that give one, in the order of the rows.
pub open spec fn entries(conversation: Seq<char>, decoded: Seq<DecodedMessage>) -> Seq<NotificationEntry>
    decreases decoded.len(),
{
    if decoded.len() == 0 {
        Seq::empty()
    } else {
        let earlier = entries(conversation, decoded.drop_last());
        match entry_of(conversation, decoded.last()) {
            Some(entry) => earlier.push(entry),
            None => earlier,
        }
    }
}

/// The last `limit` of `all`, or all of them where there are fewer.
pub open spec fn newest(all: Seq<NotificationEntry>, limit: int) -> Seq<NotificationEntry> {
    if all.len() > limit {
        all.skip(all.len() - limit)
    } else {
        all
    }
}

/// The lines of the grouped notification of `conversation`.
pub open spec fn bundled(conversation: Seq<char>, decoded: Seq<DecodedMessage>) -> Seq<NotificationEntry> {
    newest(entries(conversation, decoded), BUNDLE_LIMIT as int)
}

/// `std::string::FromUtf8Error`: bytes that are not UTF-8. Nothing of it is
/// read.
#[verifier::external_type_specification]
#[verifier::external_body]
pub struct ExFromUtf8Error(FromUtf8Error);

/// `String::from_utf8`: the text that the bytes encode, where they are
/// UTF-8, and an error where they are not.
#[verifier::external_body]
fn text_from_utf8(bytes: Vec<u8>) -> (text: Result<String, FromUtf8Error>)
    ensures
        text is Ok <==> valid_utf8(bytes@),
        text matches Ok(t) ==> t@ == decode_utf8(bytes@),
{
    String::from_utf8(bytes)
}

/// The text to show for a decoded payload, if it has one.
pub fn render_body(body: &MessageBody) -> (text: Option<String>)
    ensures
        match (text, display_text(*body)) {
            (Some(t), Some(shown)) => t@ == shown,
            (None, None) => true,
            _ => false,
        },
{
    match body {
        MessageBody::PlainText(bytes) => match text_from_utf8(bytes.clone()) {
            Ok(text) => Some(text),
            Err(_) => None,
        },
        MessageBody::CallMessage => Some(String::from_str("call message")),
        MessageBody::MessagePayload { text } => Some(text.clone()),
        MessageBody::Unrecognized => None,
    }
}

/// The grouped notification of one conversation: at most [`BUNDLE_LIMIT`]
/// lines, all of them of that conversation.
#[derive(Debug)]
pub struct UserBundledNotification {
    other: String,
    messages: Vec<NotificationData>,
}

impl UserBundledNotification {
    #[verifier::type_invariant]
    spec fn well_formed(self) -> bool {
        &&& self.messages.len() <= BUNDLE_LIMIT
        &&& forall|i: int| 0 <= i < self.messages.len() ==> (#[trigger] self.messages[i]).other@ == self.other@
    }

    /// The conversation that the notification is about.
    pub closed spec fn conversation(self) -> Seq<char> {
        self.other@
    }

    /// The lines of the notification, oldest first.
    pub closed spec fn lines(self) -> Seq<NotificationEntry> {
        lines_of(self.messages@)
    }

    /// Groups the decoded rows of `other`'s conversation: every row that has
    /// something to show gives a line, in the order of the rows; a row that
    /// has not is left out, and so is a row of another conversation. Of more
    /// than [`BUNDLE_LIMIT`] lines the last ones stay.
    pub fn bundle(other: &str, decoded: &Vec<DecodedMessage>) -> (bundle: Self)
        ensures
            bundle.conversation() == other@,
            bundle.lines() == bundled(other@, decoded@),
            bundle.lines().len() <= BUNDLE_LIMIT,
            forall|i: int| 0 <= i < bundle.lines().len() ==> (#[trigger] bundle.lines()[i]).other == other@,
    {
        let other = other.to_owned();
        let mut all: Vec<NotificationData> = Vec::new();
        let mut i: usize = 0;
        while i < decoded.len()
            invariant
                i <= decoded.len(),
                lines_of(all@) == entries(other@, decoded@.take(i as int)),
                forall|j: int| 0 <= j < all.len() ==> (#[trigger] all[j]).other@ == other@,
            decreases decoded.len() - i,
        {
            proof {
                assert(decoded@.take(i + 1).drop_last() =~= decoded@.take(i as int));
            }
            let message = &decoded[i];
            if message.record.other == other {
                if let Some(text) = render_body(&message.body) {
                    let line = NotificationData {
                        msg_id: message.record.msg_id,
                        other: other.clone(),
                        text,
                        sent_by_me: message.record.sent_by_me,
                    };
                    proof {
                        assert(lines_of(all@.push(line)) =~= lines_of(all@).push(line@));
                    }
                    all.push(line);
                }
            }
            i = i + 1;
        }
        proof {
            assert(decoded@.take(decoded.len() as int) =~= decoded@);
        }
        let messages = if all.len() > BUNDLE_LIMIT {
            let ghost whole = all@;
            let kept = all.split_off(all.len() - BUNDLE_LIMIT);
            proof {
                assert(lines_of(kept@) =~= lines_of(whole).skip(whole.len() - BUNDLE_LIMIT));
            }
            kept
        } else {
            all
        };
        let bundle = UserBundledNotification { other, messages };
        proof {
            assert forall|i: int| 0 <= i < bundle.lines().len() implies (#[trigger] bundle.lines()[i]).other
                == bundle.other@ by {
                assert(bundle.messages[i].other@ == bundle.other@);
            }
        }
        bundle
    }

    /// The conversation that the notification is about.
    pub fn other(&self) -> (other: &String)
        ensures
            other@ == self.conversation(),
    {
        &self.other
    }

    /// The lines of the notification, oldest first.
    pub fn messages(&self) -> (messages: &Vec<NotificationData>)
        ensures
            lines_of(messages@) == self.lines(),
            messages.len() <= BUNDLE_LIMIT,
    {
        proof {
            use_type_invariant(self);
        }
        &self.messages
    }
}

/// One line of the body: the text, marked where the user sent it.
pub open spec fn line_text(entry: NotificationEntry) -> Seq<char> {
    if entry.sent_by_me {
        "Me: "@ + entry.text
    } else {
        entry.text
    }
}

/// The lines of the body, one under the other.
pub open spec fn lines_text(lines: Seq<NotificationEntry>) -> Seq<char>
    decreases lines.len(),
{
    if lines.len() == 0 {
        Seq::empty()
    } else if lines.len() == 1 {
        line_text(lines[0])
    } else {
        lines_text(lines.drop_last()) + "\n"@ + line_text(lines.last())
    }
}

/// The body of the desktop notification: the lines, and under more than one
/// line a blank line and their count.
pub open spec fn body_text(lines: Seq<NotificationEntry>) -> Seq<char> {
    if lines.len() > 1 {
        lines_text(lines) + "\n\n"@ + decimal(lines.len()) + " messages"@
    } else {
        lines_text(lines)
    }
}

/// The low 32 bits of a hash, read as a signed number.
pub open spec fn low_bits(hash: u64) -> i32 {
    #[verifier::truncate]
    (hash as i32)
}

/// The number under which the platform groups the notifications of
/// `conversation`: the standard hasher's value for that text, cut to 32 bits.
pub open spec fn grouping_key_of(conversation: Seq<char>) -> i32 {
    low_bits(DefaultHasher::spec_finish(seq![encode_utf8(conversation), seq![0xffu8]]))
}

/// The grouping key of a conversation. The same conversation always has the
/// same key.
pub fn grouping_key(conversation: &str) -> (key: i32)
    ensures
        key == grouping_key_of(conversation@),
{
    let mut end: Vec<u8> = Vec::new();
    end.push(0xffu8);
    assert(end@ =~= seq![0xffu8]);
    let mut hasher = DefaultHasher::new();
    hasher.write(conversation.as_bytes());
    hasher.write(end.as_slice());
    assert(hasher@ =~= seq![encode_utf8(conversation@), seq![0xffu8]]);
    let hash: u64 = hasher.finish();
    #[verifier::truncate]
    (hash as i32)
}

/// What the desktop surface is asked to show.
#[derive(Debug, Clone)]
pub struct DesktopNotification {
    pub id: i32,
    pub title: String,
    pub body: String,
}

/// Writes the body of the desktop notification for `messages`.
pub fn notification_body(messages: &Vec<NotificationData>) -> (body: String)
    ensures
        body@ == body_text(lines_of(messages@)),
{
    let ghost lines = lines_of(messages@);
    let count = messages.len();
    let mut body = String::new();
    let mut i: usize = 0;
    while i < count
        invariant
            i <= count,
            count == messages.len(),
            lines == lines_of(messages@),
            body@ == lines_text(lines.take(i as int)),
        decreases count - i,
    {
        proof {
            assert(lines.take(i + 1).drop_last() =~= lines.take(i as int));
            assert(lines.take(i + 1).last() == lines[i as int]);
        }
        let ghost earlier = body@;
        if i > 0 {
            body.append("\n");
        }
        if messages[i].sent_by_me {
            body.append("Me: ");
        }
        body.append(messages[i].text.as_str());
        proof {
            let line = line_text(lines[i as int]);
            if i == 0 {
                assert(earlier =~= Seq::<char>::empty());
                assert(body@ =~= line);
            } else {
                assert(body@ =~= earlier + "\n"@ + line);
            }
        }
        i = i + 1;
    }
    proof {
        assert(lines.take(count as int) =~= lines);
    }
    if count > 1 {
        let ghost shown = body@;
        body.append("\n\n");
        let number = decimal_string(count);
        body.append(number.as_str());
        body.append(" messages");
        assert(body@ =~= shown + "\n\n"@ + decimal(count as nat) + " messages"@);
    }
    body
}

impl DesktopNotification {
    /// The desktop notification of a bundle: the conversation as title, the
    /// lines as body, and the conversation's grouping key.
    pub fn of_bundle(bundle: &UserBundledNotification) -> (shown: Self)
        ensures
            shown.id == grouping_key_of(bundle.conversation()),
            shown.title@ == bundle.conversation(),
            shown.body@ == body_text(bundle.lines()),
    {
        DesktopNotification {
            id: grouping_key(bundle.other().as_str()),
            title: bundle.other().clone(),
            body: notification_body(bundle.messages()),
        }
    }
}

/// A message id as the table keeps it: in signed 64 bits, so that an id
/// beyond their range wraps.
pub open spec fn stored_id(id: u64) -> i64 {
    #[verifier::truncate]
    (id as i64)
}

/// The row under which a received message enters the history.
pub open spec fn history_row(message: UserMessage) -> NotificationRecord {
    NotificationRecord {
        msg_id: stored_id(message.id) as int,
        other: message.other@,
        text: message.message@,
        sent_by_me: !message.sent_by_other,
    }
}

/// A message id as the table keeps it.
pub fn table_id(id: u64) -> (stored: i64)
    ensures
        stored == stored_id(id),
{
    #[verifier::truncate]
    (id as i64)
}

/// The row under which a received message enters the history.
pub fn table_row(msg: &UserMessage) -> (row: MessageNotification)
    ensures
        row@ == history_row(*msg),
{
    MessageNotification {
        msg_id: table_id(msg.id),
        other: msg.other.clone(),
        text: msg.message.clone(),
        sent_by_me: !msg.sent_by_other,
    }
}

/// What the platform is to do for a grouped notification.
#[derive(Debug)]
pub enum NotificationAction {
    /// Show it on the desktop surface.
    ShowDesktop(DesktopNotification),
    /// Hand the bundle to the mobile plugin under `command`.
    RunMobilePlugin { command: String, bundle: UserBundledNotification },
    /// The platform has no surface for it.
    Nothing,
}

/// Keeps the notification history and turns it into grouped notifications
/// for one platform.
#[derive(Debug)]
pub struct NotificationHandler {
    platform: Platform,
}

impl NotificationHandler {
    /// The platform that the handler was made for.
    pub closed spec fn platform(&self) -> Platform {
        self.platform
    }

    /// A handler for `platform`.
    pub fn new(platform: Platform) -> (handler: Self)
        ensures
            handler.platform() == platform,
    {
        NotificationHandler { platform }
    }

    /// Enters a received message into the history, over any row with its
    /// key, and gives the row that was entered.
    pub fn add_message_to_history(&self, store: &mut NotificationStore, msg: &UserMessage) -> (row:
        MessageNotification)
        ensures
            row@ == history_row(*msg),
            final(store)@ == old(store)@.insert(history_row(*msg).key(), history_row(*msg)),
    {
        let row = table_row(msg);
        store.put(&row);
        row
    }

    /// Enters a received message into the history and gives the row that
    /// was entered and the rows that its conversation's notification is
    /// made of: the newest [`BUNDLE_LIMIT`], oldest first.
    pub fn rows_to_bundle(&self, store: &mut NotificationStore, msg: &UserMessage) -> (entered: (
        MessageNotification,
        Vec<MessageNotification>,
    ))
        ensures
            entered.0@ == history_row(*msg),
            final(store)@ == old(store)@.insert(history_row(*msg).key(), history_row(*msg)),
            is_recent(final(store)@, msg.other@, BUNDLE_LIMIT as int, records(entered.1@)),
    {
        let row = self.add_message_to_history(store, msg);
        let rows = store.get_from_user(msg.other.as_str(), BUNDLE_LIMIT as i32);
        (row, rows)
    }

    /// Groups the decoded rows of `other`'s conversation and says how this
    /// platform shows them. A row that has nothing to show is left out; the
    /// others are shown.
    pub fn show_user_bundled_notification(&self, other: &str, decoded: &Vec<DecodedMessage>) -> (action:
        NotificationAction)
        ensures
            match self.platform() {
                Platform::Desktop => {
                    &&& action matches NotificationAction::ShowDesktop(shown)
                    &&& shown.id == grouping_key_of(other@)
                    &&& shown.title@ == other@
                    &&& shown.body@ == body_text(bundled(other@, decoded@))
                },
                Platform::Android => {
                    &&& action matches NotificationAction::RunMobilePlugin { command, bundle }
                    &&& command@ == "showUserBundledNotification"@
                    &&& bundle.conversation() == other@
                    &&& bundle.lines() == bundled(other@, decoded@)
                },
                Platform::Ios => action is Nothing,
            },
    {
        let bundle = UserBundledNotification::bundle(other, decoded);
        match self.platform {
            Platform::Desktop => NotificationAction::ShowDesktop(DesktopNotification::of_bundle(&bundle)),
            Platform::Android => NotificationAction::RunMobilePlugin {
                command: String::from_str("showUserBundledNotification"),
                bundle,
            },
            Platform::Ios => NotificationAction::Nothing,
        }
    }

    /// The user has read `username`'s conversation up to the message `ts`:
    /// the rows up to it leave the history, and no other row. The answer is
    /// the id up to which the rows left.
    pub fn mark_as_read_until(&self, store: &mut NotificationStore, username: &str, ts: u64) -> (until: i64)
        ensures
            until == stored_id(ts),
            final(store)@ == old(store)@.remove_keys(read_until(username@, stored_id(ts) as int)),
    {
        let until = table_id(ts);
        store.delete_until_of_sender(username, until);
        until
    }

    /// Clears the history of every conversation.
    pub fn clear_all(&self, store: &mut NotificationStore)
        ensures
            final(store)@ == Map::<(Seq<char>, int), NotificationRecord>::empty(),
    {
        store.delete_all();
    }

    /// The permissions that the mobile plugin is to ask the user for: the
    /// one to post notifications on Android, none elsewhere.
    pub fn request_all_permissions(&self) -> (permissions: Vec<String>)
        ensures
            self.platform() == Platform::Android ==> permissions.len() == 1 && permissions[0]@
                == "POST_NOTIFICATIONS"@,
            self.platform() != Platform::Android ==> permissions.len() == 0,
    {
        let mut permissions: Vec<String> = Vec::new();
        match self.platform {
            Platform::Android => {
                permissions.push(String::from_str("POST_NOTIFICATIONS"));
            },
            _ => {},
        }
        permissions
    }
}

/// The lines of two runs of rows, one after the other, are the lines of the
/// first followed by the lines of the second.
pub proof fn lemma_entries_of_both(conversation: Seq<char>, first: Seq<DecodedMessage>, second: Seq<DecodedMessage>)
    ensures
        entries(conversation, first + second) == entries(conversation, first) + entries(conversation, second),
    decreases second.len(),
{
    if second.len() == 0 {
        assert(first + second =~= first);
        assert(entries(conversation, first) + entries(conversation, second) =~= entries(conversation, first));
    } else {
        lemma_entries_of_both(conversation, first, second.drop_last());
        assert((first + second).drop_last() =~= first + second.drop_last());
        assert((first + second).last() == second.last());
        match entry_of(conversation, second.last()) {
            Some(entry) => {
                assert((entries(conversation, first) + entries(conversation, second.drop_last())).push(entry)
                    =~= entries(conversation, first) + entries(conversation, second.drop_last()).push(entry));
            },
            None => {},
        }
    }
}

/// A row that has nothing to show, be it undecodable or of another
/// conversation, is left out and changes nothing else: the lines are those
/// of the rows without it.
pub proof fn lemma_undecodable_is_left_out(conversation: Seq<char>, decoded: Seq<DecodedMessage>, at: int)
    requires
        0 <= at < decoded.len(),
        entry_of(conversation, decoded[at]) is None,
    ensures
        entries(conversation, decoded) == entries(conversation, decoded.remove(at)),
        bundled(conversation, decoded) == bundled(conversation, decoded.remove(at)),
{
    let before = decoded.take(at);
    let one = seq![decoded[at]];
    let after = decoded.skip(at + 1);
    assert(decoded =~= before + one + after);
    assert(decoded.remove(at) =~= before + after);
    lemma_entries_of_both(conversation, before + one, after);
    lemma_entries_of_both(conversation, before, one);
    lemma_entries_of_both(conversation, before, after);
    assert(one.drop_last() =~= Seq::<DecodedMessage>::empty());
    assert(one.last() == decoded[at]);
    assert(entries(conversation, one.drop_last()) =~= Seq::<NotificationEntry>::empty());
    assert(entries(conversation, one) =~= Seq::<NotificationEntry>::empty());
    assert(entries(conversation, before) + entries(conversation, one) =~= entries(conversation, before));
}

/// Where every row has something to show, every row gives its line, in the
/// order of the rows.
pub proof fn lemma_decodable_are_all_shown(conversation: Seq<char>, decoded: Seq<DecodedMessage>)
    requires
        forall|i: int| 0 <= i < decoded.len() ==> entry_of(conversation, #[trigger] decoded[i]) is Some,
    ensures
        entries(conversation, decoded).len() == decoded.len(),
        forall|i: int|
            0 <= i < decoded.len() ==> Some(#[trigger] entries(conversation, decoded)[i]) == entry_of(
                conversation,
                decoded[i],
            ),
    decreases decoded.len(),
{
    if decoded.len() > 0 {
        let earlier = decoded.drop_last();
        assert forall|i: int| 0 <= i < earlier.len() implies entry_of(conversation, #[trigger] earlier[i])
            is Some by {
            assert(earlier[i] == decoded[i]);
        }
        lemma_decodable_are_all_shown(conversation, earlier);
        assert(entry_of(conversation, decoded[decoded.len() - 1]) is Some);
        assert forall|i: int| 0 <= i < decoded.len() implies Some(
            #[trigger] entries(conversation, decoded)[i],
        ) == entry_of(conversation, decoded[i]) by {
            if i < earlier.len() {
                assert(earlier[i] == decoded[i]);
                assert(entries(conversation, decoded)[i] == entries(conversation, earlier)[i]);
            }
        }
    }
}

/// A notification that belongs to no group: a title and a body.
#[derive(Debug, Clone)]
pub struct PlainNotification {
    pub title: String,
    pub body: String,
}

/// The body that counts the new messages of a conversation.
pub open spec fn count_text(count: nat) -> Seq<char> {
    if count == 1 {
        decimal(count) + " new message"@
    } else {
        decimal(count) + " new messages"@
    }
}

/// The notification of a message from `other`.
pub fn message_notification(other: &str) -> (shown: PlainNotification)
    ensures
        shown.title@ == "Message from "@ + other@,
        shown.body@ == "New message received"@,
{
    let mut title = String::from_str("Message from ");
    title.append(other);
    PlainNotification { title, body: String::from_str("New message received") }
}

/// The notification that counts the new messages from `other`.
pub fn new_messages_notification(other: &str, count: usize) -> (shown: PlainNotification)
    ensures
        shown.title@ == "Message from "@ + other@,
        shown.body@ == count_text(count as nat),
{
    let mut title = String::from_str("Message from ");
    title.append(other);
    let mut body = decimal_string(count);
    if count == 1 {
        body.append(" new message");
    } else {
        body.append(" new messages");
    }
    PlainNotification { title, body }
}

/// The notification of a call from `caller`.
pub fn call_notification(caller: &str) -> (shown: PlainNotification)
    ensures
        shown.title@ == "Incoming Call"@,
        shown.body@ == caller@ + " is calling..."@,
{
    let mut body = String::from_str(caller);
    body.append(" is calling...");
    PlainNotification { title: String::from_str("Incoming Call"), body }
}

} // verus!
