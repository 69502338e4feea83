//! The notification history: one row per (conversation, message id), used only
//! to rebuild the grouped notification of a conversation.
//!
//! The table is kept in memory. Its value is a map from keys to rows, and
//! every operation says what it does to that map. Writing the changes through
//! to disk is left to the application.

use vstd::prelude::*;

verus! {

/// One stored message of a conversation, as it is kept for notifications.
#[derive(Debug, Clone)]
pub struct MessageNotification {
    pub msg_id: i64,
    pub other: String,
    pub text: Vec<u8>,
    pub sent_by_me: bool,
}

/// The mathematical value of a [`MessageNotification`].
pub struct NotificationRecord {
    pub msg_id: int,
    pub other: Seq<char>,
    pub text: Seq<u8>,
    pub sent_by_me: bool,
}

impl NotificationRecord {
    /// The primary key of the row: conversation, then message id.
    pub open spec fn key(self) -> (Seq<char>, int) {
        (self.other, self.msg_id)
    }
}

impl View for MessageNotification {
    type V = NotificationRecord;

    open spec fn view(&self) -> NotificationRecord {
        NotificationRecord {
            msg_id: self.msg_id as int,
            other: self.other@,
            text: self.text@,
            sent_by_me: self.sent_by_me,
        }
    }
}

impl MessageNotification {
    /// A row with these fields.
    pub fn new(msg_id: i64, other: String, text: Vec<u8>, sent_by_me: bool) -> (n: Self)
        ensures
            n.msg_id == msg_id,
            n.other == other,
            n.text == text,
            n.sent_by_me == sent_by_me,
    {
        MessageNotification { msg_id, other, text, sent_by_me }
    }

    /// A copy with the same value.
    pub fn duplicate(&self) -> (n: Self)
        ensures
            n@ == self@,
    {
        MessageNotification {
            msg_id: self.msg_id,
            other: self.other.clone(),
            text: self.text.clone(),
            sent_by_me: self.sent_by_me,
        }
    }
}

/// The rows of `rows` as a table: each key that occurs, with the row that holds it.
spec fn table_of(rows: Seq<MessageNotification>) -> Map<(Seq<char>, int), NotificationRecord> {
    Map::new(
        |k: (Seq<char>, int)| exists|i: int| 0 <= i < rows.len() && #[trigger] rows[i]@.key() == k,
        |k: (Seq<char>, int)| rows[choose|i: int| 0 <= i < rows.len() && #[trigger] rows[i]@.key() == k]@,
    )
}

/// Within one conversation the rows stand in strictly ascending order of
/// message id. No key occurs twice then.
spec fn ascending_per_conversation(rows: Seq<MessageNotification>) -> bool {
    forall|i: int, j: int|
        0 <= i < j < rows.len() && #[trigger] rows[i].other@ == #[trigger] rows[j].other@
            ==> rows[i].msg_id < rows[j].msg_id
}

/// What `get_from_user` answers for `user` and `limit` on `table`: the rows
/// of that conversation with the greatest message ids, at most `limit` of
/// them, oldest first.
pub open spec fn is_recent(
    table: Map<(Seq<char>, int), NotificationRecord>,
    user: Seq<char>,
    limit: int,
    rows: Seq<NotificationRecord>,
) -> bool {
    &&& rows.len() <= limit || rows.len() == 0
    &&& forall|i: int|
        0 <= i < rows.len() ==> {
            &&& (#[trigger] rows[i]).other == user
            &&& table.contains_key(rows[i].key())
            &&& table[rows[i].key()] == rows[i]
        }
    &&& forall|i: int, j: int| 0 <= i < j < rows.len() ==> rows[i].msg_id < rows[j].msg_id
    &&& forall|id: int| #[trigger]
        table.contains_key((user, id)) ==> {
            ||| exists|i: int| 0 <= i < rows.len() && (#[trigger] rows[i]).msg_id == id
            ||| (rows.len() >= limit && (rows.len() > 0 ==> id < rows[0].msg_id))
        }
}

/// The values of a sequence of rows.
pub open spec fn records(rows: Seq<MessageNotification>) -> Seq<NotificationRecord> {
    rows.map_values(|row: MessageNotification| row@)
}

/// The keys that a sweep of `sender`'s conversation up to `message_id` removes.
pub open spec fn read_until(sender: Seq<char>, message_id: int) -> Set<(Seq<char>, int)> {
    Set::new(|k: (Seq<char>, int)| k.0 == sender && k.1 <= message_id)
}

/// The table behind the grouped notifications. Its view is the map from
/// each key to the row that is held under it.
pub struct NotificationStore {
    rows: Vec<MessageNotification>,
}

impl View for NotificationStore {
    type V = Map<(Seq<char>, int), NotificationRecord>;

    closed spec fn view(&self) -> Map<(Seq<char>, int), NotificationRecord> {
        table_of(self.rows@)
    }
}

impl NotificationStore {
    #[verifier::type_invariant]
    spec fn well_formed(self) -> bool {
        ascending_per_conversation(self.rows@)
    }

    /// Every row is held under its own key.
    pub proof fn lemma_rows_have_their_keys(self)
        ensures
            forall|k: (Seq<char>, int)| self@.contains_key(k) ==> (#[trigger] self@[k]).key() == k,
    {
    }

    /// An empty table.
    pub fn new() -> (store: Self)
        ensures
            store@ == Map::<(Seq<char>, int), NotificationRecord>::empty(),
    {
        let store = NotificationStore { rows: Vec::new() };
        assert(store@ =~= Map::<(Seq<char>, int), NotificationRecord>::empty());
        store
    }

    /// Inserts the row, or replaces the row that has its key: the last write wins.
    pub fn put(&mut self, notification: &MessageNotification)
        ensures
            final(self)@ == old(self)@.insert(notification@.key(), notification@),
    {
        proof {
            use_type_invariant(&*self);
        }
        let mut rows: Vec<MessageNotification> = Vec::new();
        std::mem::swap(&mut rows, &mut self.rows);
        let ghost before = rows@;
        let at = position(&rows, &notification.other, notification.msg_id);
        let row = notification.duplicate();
        if at < rows.len() && rows[at].msg_id == notification.msg_id {
            rows.set(at, row);
            proof {
                lemma_replaced(before, at as int, row);
            }
        } else {
            rows.insert(at, row);
            proof {
                lemma_inserted(before, at as int, row);
            }
        }
        self.rows = rows;
    }

    /// The rows of `user`'s conversation with the greatest ids, at most
    /// `limit` of them, oldest first. A `limit` of zero or less gives no row.
    pub fn get_from_user(&self, user: &str, limit: i32) -> (found: Vec<MessageNotification>)
        ensures
            is_recent(self@, user@, limit as int, records(found@)),
            limit >= 0 ==> found.len() <= limit,
            limit <= 0 ==> found.len() == 0,
            forall|i: int| 0 <= i < found.len() ==> (#[trigger] found[i]).other@ == user@,
    {
        proof {
            use_type_invariant(self);
        }
        let user = user.to_owned();
        let mut newest_first: Vec<MessageNotification> = Vec::new();
        let ghost mut places: Seq<int> = Seq::empty();
        let mut i: usize = self.rows.len();
        while i > 0 && limit > 0 && newest_first.len() < limit as usize
            invariant
                ascending_per_conversation(self.rows@),
                i <= self.rows.len(),
                places.len() == newest_first.len(),
                newest_first.len() <= limit || newest_first.len() == 0,
                forall|a: int|
                    0 <= a < places.len() ==> {
                        &&& i <= #[trigger] places[a] < self.rows.len()
                        &&& newest_first[a]@ == self.rows[places[a]]@
                        &&& self.rows[places[a]].other@ == user@
                    },
                forall|a: int, b: int| 0 <= a < b < places.len() ==> places[a] > places[b],
                forall|at: int|
                    i <= at < self.rows.len() && (#[trigger] self.rows[at]).other@ == user@
                        ==> exists|a: int| 0 <= a < places.len() && places[a] == at,
            decreases i,
        {
            i = i - 1;
            if self.rows[i].other == user {
                newest_first.push(self.rows[i].duplicate());
                proof {
                    let earlier = places;
                    places = places.push(i as int);
                    assert forall|at: int|
                        i <= at < self.rows.len() && (#[trigger] self.rows[at]).other@ == user@
                    implies exists|a: int| 0 <= a < places.len() && places[a] == at by {
                        if at == i {
                            assert(places[places.len() - 1] == at);
                        } else {
                            let a = choose|a: int| 0 <= a < earlier.len() && earlier[a] == at;
                            assert(places[a] == at);
                        }
                    }
                }
            }
        }
        let ghost stopped = i as int;
        let ghost taken = newest_first@;
        let mut found: Vec<MessageNotification> = Vec::new();
        while newest_first.len() > 0
            invariant
                newest_first.len() + found.len() == taken.len(),
                forall|a: int| 0 <= a < newest_first.len() ==> newest_first[a] == taken[a],
                forall|b: int| 0 <= b < found.len() ==> #[trigger] found[b] == taken[taken.len() - 1 - b],
            decreases newest_first.len(),
        {
            let row = newest_first.pop().unwrap();
            found.push(row);
        }
        proof {
            let out = records(found@);
            let n = out.len() as int;
            assert forall|b: int| 0 <= b < n implies #[trigger] out[b] == self.rows[places[n - 1 - b]]@ by {
                assert(found[b] == taken[n - 1 - b]);
            }
            assert forall|b: int| 0 <= b < n implies {
                &&& (#[trigger] out[b]).other == user@
                &&& self@.contains_key(out[b].key())
                &&& self@[out[b].key()] == out[b]
            } by {
                lemma_row_in_table(self.rows@, places[n - 1 - b]);
            }
            assert forall|a: int, b: int| 0 <= a < b < n implies out[a].msg_id < out[b].msg_id by {
                let pa = places[n - 1 - a];
                let pb = places[n - 1 - b];
                assert(pa < pb);
                assert(self.rows[pa].other@ == self.rows[pb].other@);
            }
            assert forall|id: int| #[trigger] self@.contains_key((user@, id)) implies {
                ||| exists|b: int| 0 <= b < n && (#[trigger] out[b]).msg_id == id
                ||| (n >= limit && (n > 0 ==> id < out[0].msg_id))
            } by {
                let at = choose|at: int|
                    0 <= at < self.rows.len() && #[trigger] self.rows[at]@.key() == (user@, id);
                if stopped <= at {
                    assert(self.rows[at].other@ == user@);
                    let a = choose|a: int| 0 <= a < places.len() && places[a] == at;
                    assert(out[n - 1 - a].msg_id == id);
                } else if n > 0 {
                    let last = places[n - 1];
                    assert(out[0] == self.rows[last]@);
                    assert(self.rows[at].other@ == self.rows[last].other@);
                }
            }
            assert forall|b: int| 0 <= b < found.len() implies (#[trigger] found[b]).other@ == user@ by {
                assert(out[b].other == user@);
            }
        }
        found
    }

    /// How many rows the table holds.
    pub fn len(&self) -> (count: usize)
        ensures
            self@.dom().finite(),
            count == self@.dom().len(),
    {
        proof {
            use_type_invariant(self);
            lemma_table_size(self.rows@);
        }
        self.rows.len()
    }

    /// Removes the rows of `sender`'s conversation whose id is at most
    /// `message_id`, and no other row.
    pub fn delete_until_of_sender(&mut self, sender: &str, message_id: i64)
        ensures
            final(self)@ == old(self)@.remove_keys(read_until(sender@, message_id as int)),
    {
        proof {
            use_type_invariant(&*self);
        }
        let sender = sender.to_owned();
        let mut rows: Vec<MessageNotification> = Vec::new();
        std::mem::swap(&mut rows, &mut self.rows);
        let ghost before = table_of(rows@);
        let ghost read = read_until(sender@, message_id as int);
        let mut i: usize = 0;
        while i < rows.len()
            invariant
                ascending_per_conversation(rows@),
                i <= rows.len(),
                read == read_until(sender@, message_id as int),
                forall|j: int| 0 <= j < i ==> !read.contains(#[trigger] rows[j]@.key()),
                table_of(rows@).submap_of(before),
                before.remove_keys(read).submap_of(table_of(rows@)),
            decreases rows.len() - i,
        {
            if rows[i].other == sender && rows[i].msg_id <= message_id {
                proof {
                    lemma_removed(rows@, i as int);
                }
                rows.remove(i);
            } else {
                i = i + 1;
            }
        }
        proof {
            let after = table_of(rows@);
            assert forall|x: (Seq<char>, int)| after.contains_key(x) implies !read.contains(x) by {
                let j = choose|j: int| 0 <= j < rows.len() && #[trigger] rows[j]@.key() == x;
                assert(!read.contains(rows[j]@.key()));
            }
            assert(after =~= before.remove_keys(read));
        }
        self.rows = rows;
    }

    /// Clears the whole table.
    pub fn delete_all(&mut self)
        ensures
            final(self)@ == Map::<(Seq<char>, int), NotificationRecord>::empty(),
    {
        self.rows = Vec::new();
        assert(self@ =~= Map::<(Seq<char>, int), NotificationRecord>::empty());
    }
}

/// The place of the key (`other`, `msg_id`) among `rows`: the first row of that
/// conversation whose id is not smaller, or the end.
fn position(rows: &Vec<MessageNotification>, other: &String, msg_id: i64) -> (at: usize)
    ensures
        at <= rows.len(),
        forall|j: int| 0 <= j < at && (#[trigger] rows[j]).other@ == other@ ==> rows[j].msg_id < msg_id,
        at < rows.len() ==> rows[at as int].other@ == other@ && rows[at as int].msg_id >= msg_id,
{
    let mut at: usize = 0;
    while at < rows.len()
        invariant
            at <= rows.len(),
            forall|j: int| 0 <= j < at && (#[trigger] rows[j]).other@ == other@ ==> rows[j].msg_id < msg_id,
        decreases rows.len() - at,
    {
        if rows[at].other == *other && rows[at].msg_id >= msg_id {
            return at;
        }
        at = at + 1;
    }
    at
}

/// In rows that ascend per conversation a key has one place, so the table
/// holds each row under its key.
proof fn lemma_row_in_table(rows: Seq<MessageNotification>, i: int)
    requires
        ascending_per_conversation(rows),
        0 <= i < rows.len(),
    ensures
        table_of(rows).contains_key(rows[i]@.key()),
        table_of(rows)[rows[i]@.key()] == rows[i]@,
{
    let k = rows[i]@.key();
    let c = choose|c: int| 0 <= c < rows.len() && #[trigger] rows[c]@.key() == k;
    assert(rows[c].other@ == rows[i].other@);
    if c < i {
        assert(rows[c].msg_id < rows[i].msg_id);
    } else if i < c {
        assert(rows[i].msg_id < rows[c].msg_id);
    }
}

/// A table of rows that ascend per conversation has as many keys as rows.
proof fn lemma_table_size(rows: Seq<MessageNotification>)
    requires
        ascending_per_conversation(rows),
    ensures
        table_of(rows).dom().finite(),
        table_of(rows).dom().len() == rows.len(),
    decreases rows.len(),
{
    if rows.len() == 0 {
        assert(table_of(rows).dom() =~= Set::<(Seq<char>, int)>::empty());
    } else {
        let earlier = rows.drop_last();
        let last = rows.len() - 1;
        let k = rows[last]@.key();
        assert forall|i: int, j: int|
            0 <= i < j < earlier.len() && #[trigger] earlier[i].other@ == #[trigger] earlier[j].other@
        implies earlier[i].msg_id < earlier[j].msg_id by {
            assert(rows[i].other@ == rows[j].other@);
        }
        lemma_table_size(earlier);
        if table_of(earlier).dom().contains(k) {
            let c = choose|c: int| 0 <= c < earlier.len() && #[trigger] earlier[c]@.key() == k;
            assert(rows[c].other@ == rows[last].other@);
        }
        assert forall|x: (Seq<char>, int)| #[trigger]
            table_of(rows).dom().contains(x) <==> table_of(earlier).dom().insert(k).contains(x) by {
            if table_of(rows).dom().contains(x) {
                let c = choose|c: int| 0 <= c < rows.len() && #[trigger] rows[c]@.key() == x;
                if c < last {
                    assert(earlier[c]@.key() == x);
                }
            }
            if x == k {
                assert(rows[last]@.key() == x);
            } else if table_of(earlier).dom().contains(x) {
                let c = choose|c: int| 0 <= c < earlier.len() && #[trigger] earlier[c]@.key() == x;
                assert(rows[c]@.key() == x);
            }
        }
        assert(table_of(rows).dom() =~= table_of(earlier).dom().insert(k));
    }
}

proof fn lemma_removed(rows: Seq<MessageNotification>, at: int)
    requires
        ascending_per_conversation(rows),
        0 <= at < rows.len(),
    ensures
        ascending_per_conversation(rows.remove(at)),
        table_of(rows.remove(at)) == table_of(rows).remove(rows[at]@.key()),
{
    let after = rows.remove(at);
    let k = rows[at]@.key();
    assert(after.len() == rows.len() - 1);
    assert forall|i: int| 0 <= i < at implies #[trigger] after[i] == rows[i] by {}
    assert forall|i: int| at <= i < after.len() implies #[trigger] after[i] == rows[i + 1] by {}
    assert forall|i: int, j: int|
        0 <= i < j < after.len() && #[trigger] after[i].other@ == #[trigger] after[j].other@
    implies after[i].msg_id < after[j].msg_id by {
        let ri = if i < at { i } else { i + 1 };
        let rj = if j < at { j } else { j + 1 };
        assert(rows[ri].other@ == rows[rj].other@);
    }
    assert forall|x: (Seq<char>, int)| #[trigger]
        table_of(after).contains_key(x) <==> (x != k && table_of(rows).contains_key(x)) by {
        if table_of(after).contains_key(x) {
            let c = choose|c: int| 0 <= c < after.len() && #[trigger] after[c]@.key() == x;
            let r = if c < at { c } else { c + 1 };
            assert(rows[r]@.key() == x);
            if x == k {
                lemma_row_in_table(rows, r);
                lemma_row_in_table(rows, at);
                assert(rows[r].other@ == rows[at].other@);
            }
        }
        if x != k && table_of(rows).contains_key(x) {
            let r = choose|r: int| 0 <= r < rows.len() && #[trigger] rows[r]@.key() == x;
            let c = if r < at { r } else { r - 1 };
            assert(after[c]@.key() == x);
        }
    }
    assert forall|x: (Seq<char>, int)| table_of(after).contains_key(x)
    implies #[trigger] table_of(after)[x] == table_of(rows).remove(k)[x] by {
        let c = choose|c: int| 0 <= c < after.len() && #[trigger] after[c]@.key() == x;
        lemma_row_in_table(after, c);
        lemma_row_in_table(rows, if c < at { c } else { c + 1 });
    }
    assert(table_of(after) =~= table_of(rows).remove(k));
}

proof fn lemma_replaced(rows: Seq<MessageNotification>, at: int, row: MessageNotification)
    requires
        ascending_per_conversation(rows),
        0 <= at < rows.len(),
        rows[at]@.key() == row@.key(),
    ensures
        ascending_per_conversation(rows.update(at, row)),
        table_of(rows.update(at, row)) == table_of(rows).insert(row@.key(), row@),
{
    let after = rows.update(at, row);
    let k = row@.key();
    assert forall|i: int, j: int|
        0 <= i < j < after.len() && #[trigger] after[i].other@ == #[trigger] after[j].other@
    implies after[i].msg_id < after[j].msg_id by {
        assert(rows[i].other@ == rows[j].other@);
    }
    assert forall|x: (Seq<char>, int)| #[trigger]
        table_of(after).contains_key(x) <==> (x == k || table_of(rows).contains_key(x)) by {
        if table_of(after).contains_key(x) {
            let c = choose|c: int| 0 <= c < after.len() && #[trigger] after[c]@.key() == x;
            if c != at {
                assert(rows[c]@.key() == x);
            }
        }
        if x == k {
            assert(after[at]@.key() == x);
        } else if table_of(rows).contains_key(x) {
            let c = choose|c: int| 0 <= c < rows.len() && #[trigger] rows[c]@.key() == x;
            assert(after[c]@.key() == x);
        }
    }
    assert forall|x: (Seq<char>, int)| table_of(after).contains_key(x)
    implies #[trigger] table_of(after)[x] == table_of(rows).insert(k, row@)[x] by {
        let c = choose|c: int| 0 <= c < after.len() && #[trigger] after[c]@.key() == x;
        lemma_row_in_table(after, c);
        if c != at {
            lemma_row_in_table(rows, c);
        }
    }
    assert(table_of(after) =~= table_of(rows).insert(k, row@));
}

proof fn lemma_inserted(rows: Seq<MessageNotification>, at: int, row: MessageNotification)
    requires
        ascending_per_conversation(rows),
        0 <= at <= rows.len(),
        forall|j: int| 0 <= j < at && (#[trigger] rows[j]).other@ == row.other@ ==> rows[j].msg_id < row.msg_id,
        at < rows.len() ==> rows[at].other@ == row.other@ && rows[at].msg_id > row.msg_id,
    ensures
        ascending_per_conversation(rows.insert(at, row)),
        table_of(rows.insert(at, row)) == table_of(rows).insert(row@.key(), row@),
{
    let after = rows.insert(at, row);
    let k = row@.key();
    assert(after.len() == rows.len() + 1);
    assert(after[at] == row);
    assert forall|i: int| 0 <= i < at implies #[trigger] after[i] == rows[i] by {}
    assert forall|i: int| at < i < after.len() implies #[trigger] after[i] == rows[i - 1] by {}
    assert forall|i: int, j: int|
        0 <= i < j < after.len() && #[trigger] after[i].other@ == #[trigger] after[j].other@
    implies after[i].msg_id < after[j].msg_id by {
        if j < at {
            assert(rows[i].other@ == rows[j].other@);
        } else if j == at {
            assert(rows[i].other@ == row.other@);
        } else if i < at {
            assert(rows[i].other@ == rows[j - 1].other@);
        } else if i == at {
            if at < j - 1 {
                assert(rows[at].other@ == rows[j - 1].other@);
            }
        } else {
            assert(rows[i - 1].other@ == rows[j - 1].other@);
        }
    }
    assert forall|x: (Seq<char>, int)| #[trigger]
        table_of(after).contains_key(x) <==> (x == k || table_of(rows).contains_key(x)) by {
        if table_of(after).contains_key(x) {
            let c = choose|c: int| 0 <= c < after.len() && #[trigger] after[c]@.key() == x;
            if c < at {
                assert(rows[c]@.key() == x);
            } else if c > at {
                assert(rows[c - 1]@.key() == x);
            }
        }
        if x == k {
            assert(after[at]@.key() == x);
        } else if table_of(rows).contains_key(x) {
            let c = choose|c: int| 0 <= c < rows.len() && #[trigger] rows[c]@.key() == x;
            if c < at {
                assert(after[c]@.key() == x);
            } else {
                assert(after[c + 1]@.key() == x);
            }
        }
    }
    assert forall|x: (Seq<char>, int)| table_of(after).contains_key(x)
    implies #[trigger] table_of(after)[x] == table_of(rows).insert(k, row@)[x] by {
        let c = choose|c: int| 0 <= c < after.len() && #[trigger] after[c]@.key() == x;
        lemma_row_in_table(after, c);
        if c < at {
            lemma_row_in_table(rows, c);
        } else if c > at {
            lemma_row_in_table(rows, c - 1);
        }
    }
    assert(table_of(after) =~= table_of(rows).insert(k, row@));
}

/// Putting twice under one key leaves one row for that key, the second one,
/// and leaves every other key as it was.
pub proof fn lemma_put_twice_keeps_the_last(
    table: Map<(Seq<char>, int), NotificationRecord>,
    first: NotificationRecord,
    second: NotificationRecord,
)
    requires
        first.key() == second.key(),
    ensures
        table.insert(first.key(), first).insert(second.key(), second) == table.insert(second.key(), second),
        table.insert(first.key(), first).insert(second.key(), second)[second.key()] == second,
        table.insert(first.key(), first).insert(second.key(), second).dom() == table.insert(
            first.key(),
            first,
        ).dom(),
{
    let once = table.insert(first.key(), first);
    let twice = once.insert(second.key(), second);
    assert(twice =~= table.insert(second.key(), second));
    assert(twice.dom() =~= once.dom());
}

/// A sweep of `sender`'s conversation up to `message_id` removes the rows of
/// that conversation with an id up to `message_id`, and keeps every row with
/// a greater id and every row of any other conversation as it was.
pub proof fn lemma_sweep_removes_exactly(
    table: Map<(Seq<char>, int), NotificationRecord>,
    sender: Seq<char>,
    message_id: int,
    key: (Seq<char>, int),
)
    ensures
        key.0 == sender && key.1 <= message_id ==> !table.remove_keys(read_until(sender, message_id)).contains_key(
            key,
        ),
        key.0 != sender || key.1 > message_id ==> {
            &&& table.remove_keys(read_until(sender, message_id)).contains_key(key) == table.contains_key(key)
            &&& table.contains_key(key) ==> table.remove_keys(read_until(sender, message_id))[key] == table[key]
        },
{
}

/// What `is_recent` asks of an answer: never more rows than a limit that
/// is not negative, and no row of another conversation.
pub proof fn lemma_recent_is_bounded(
    table: Map<(Seq<char>, int), NotificationRecord>,
    user: Seq<char>,
    limit: int,
    rows: Seq<NotificationRecord>,
)
    requires
        is_recent(table, user, limit, rows),
        limit >= 0,
    ensures
        rows.len() <= limit,
        forall|i: int| 0 <= i < rows.len() ==> (#[trigger] rows[i]).other == user,
        forall|i: int| 0 <= i < rows.len() ==> table.contains_key((user, (#[trigger] rows[i]).msg_id)),
{
    assert forall|i: int| 0 <= i < rows.len() implies table.contains_key((user, (#[trigger] rows[i]).msg_id)) by {
        assert(rows[i].key() == (user, rows[i].msg_id));
    }
}

/// Counted from their ends, two answers agree in their first `count` ids.
spec fn same_newest(a: Seq<NotificationRecord>, b: Seq<NotificationRecord>, count: int) -> bool {
    forall|k: int|
        0 <= k < count ==> (#[trigger] a[a.len() - 1 - k]).msg_id == (#[trigger] b[b.len() - 1 - k]).msg_id
}

proof fn lemma_next_newest_is_not_greater(
    table: Map<(Seq<char>, int), NotificationRecord>,
    user: Seq<char>,
    limit: int,
    a: Seq<NotificationRecord>,
    b: Seq<NotificationRecord>,
    j: int,
)
    requires
        is_recent(table, user, limit, a),
        is_recent(table, user, limit, b),
        0 <= j < a.len(),
        j < b.len(),
        same_newest(a, b, j),
    ensures
        a[a.len() - 1 - j].msg_id <= b[b.len() - 1 - j].msg_id,
{
    let ia = a.len() - 1 - j;
    let ib = b.len() - 1 - j;
    let id = a[ia].msg_id;
    assert(a[ia].key() == (user, id));
    assert(table.contains_key((user, id)));
    if exists|m: int| 0 <= m < b.len() && (#[trigger] b[m]).msg_id == id {
        let m = choose|m: int| 0 <= m < b.len() && (#[trigger] b[m]).msg_id == id;
        if m > ib {
            let k = b.len() - 1 - m;
            assert(0 <= k < j);
            assert(a[a.len() - 1 - k].msg_id == b[b.len() - 1 - k].msg_id);
            assert(a[ia].msg_id < a[a.len() - 1 - k].msg_id);
            assert(false);
        }
        if m < ib {
            assert(b[m].msg_id < b[ib].msg_id);
        }
    } else {
        if 0 < ib {
            assert(b[0].msg_id < b[ib].msg_id);
        }
    }
}

proof fn lemma_newest_agree(
    table: Map<(Seq<char>, int), NotificationRecord>,
    user: Seq<char>,
    limit: int,
    a: Seq<NotificationRecord>,
    b: Seq<NotificationRecord>,
    count: int,
)
    requires
        is_recent(table, user, limit, a),
        is_recent(table, user, limit, b),
        0 <= count <= a.len(),
        count <= b.len(),
    ensures
        same_newest(a, b, count),
    decreases count,
{
    if count > 0 {
        lemma_newest_agree(table, user, limit, a, b, count - 1);
        assert forall|k: int| 0 <= k < count - 1 implies (#[trigger] b[b.len() - 1 - k]).msg_id == (
        #[trigger] a[a.len() - 1 - k]).msg_id by {
            assert(a[a.len() - 1 - k].msg_id == b[b.len() - 1 - k].msg_id);
        }
        assert(same_newest(b, a, count - 1));
        lemma_next_newest_is_not_greater(table, user, limit, a, b, count - 1);
        lemma_next_newest_is_not_greater(table, user, limit, b, a, count - 1);
    }
}

proof fn lemma_recent_is_not_shorter(
    table: Map<(Seq<char>, int), NotificationRecord>,
    user: Seq<char>,
    limit: int,
    a: Seq<NotificationRecord>,
    b: Seq<NotificationRecord>,
)
    requires
        is_recent(table, user, limit, a),
        is_recent(table, user, limit, b),
    ensures
        a.len() >= b.len(),
{
    if a.len() < b.len() {
        lemma_newest_agree(table, user, limit, a, b, a.len() as int);
        let ib = b.len() - 1 - a.len();
        let id = b[ib].msg_id;
        assert(b[ib].key() == (user, id));
        assert(table.contains_key((user, id)));
        if exists|i: int| 0 <= i < a.len() && (#[trigger] a[i]).msg_id == id {
            let i = choose|i: int| 0 <= i < a.len() && (#[trigger] a[i]).msg_id == id;
            let k = a.len() - 1 - i;
            assert(a[a.len() - 1 - k].msg_id == b[b.len() - 1 - k].msg_id);
            assert(b[ib].msg_id < b[b.len() - 1 - k].msg_id);
            assert(false);
        }
        assert(false);
    }
}

/// `is_recent` leaves no choice: for one table, conversation and limit it
/// holds of one sequence of rows only.
pub proof fn lemma_recent_is_unique(
    table: Map<(Seq<char>, int), NotificationRecord>,
    user: Seq<char>,
    limit: int,
    a: Seq<NotificationRecord>,
    b: Seq<NotificationRecord>,
)
    requires
        is_recent(table, user, limit, a),
        is_recent(table, user, limit, b),
    ensures
        a == b,
{
    lemma_recent_is_not_shorter(table, user, limit, a, b);
    lemma_recent_is_not_shorter(table, user, limit, b, a);
    lemma_newest_agree(table, user, limit, a, b, a.len() as int);
    assert forall|i: int| 0 <= i < a.len() implies a[i] == b[i] by {
        let k = a.len() - 1 - i;
        assert(a[a.len() - 1 - k].msg_id == b[b.len() - 1 - k].msg_id);
        assert(a[i].key() == b[i].key());
        assert(table[a[i].key()] == a[i]);
        assert(table[b[i].key()] == b[i]);
    }
    assert(a =~= b);
}

} // verus!
