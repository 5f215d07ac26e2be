//! The message store: a durable ordered log of persisted messages with
//! read/unread tracking.

use vstd::prelude::*;
use crate::errors::HubError;
use crate::ids::UserId;

verus! {

/// One persisted message. Immutable once created except for `read_at`,
/// settable exactly once from `None` to a timestamp by the receiver.
#[derive(Clone, Debug, PartialEq)]
pub struct Message {
    pub id: u64,
    pub sender_id: UserId,
    pub receiver_id: UserId,
    pub content: String,
    pub created_at: i64,
    pub read_at: Option<i64>,
}

impl Message {
    /// A duplicate equal to `self`, for returning rows without giving up
    /// the log's own copy.
    pub fn dup(&self) -> (r: Message)
        ensures
            r == *self,
    {
        Message {
            id: self.id,
            sender_id: self.sender_id,
            receiver_id: self.receiver_id,
            content: self.content.clone(),
            created_at: self.created_at,
            read_at: self.read_at,
        }
    }
}

/// The public projection of one persisted message.
pub struct MessageResponse {
    pub id: u64,
    pub sender_id: UserId,
    pub receiver_id: UserId,
    pub content: String,
    pub created_at: i64,
    pub read_at: Option<i64>,
}

impl MessageResponse {
    /// Projects a row onto the response shape.
    pub fn of_message(m: &Message) -> (r: MessageResponse)
        ensures
            r.id == m.id,
            r.sender_id == m.sender_id,
            r.receiver_id == m.receiver_id,
            r.content == m.content,
            r.created_at == m.created_at,
            r.read_at == m.read_at,
    {
        MessageResponse {
            id: m.id,
            sender_id: m.sender_id,
            receiver_id: m.receiver_id,
            content: m.content.clone(),
            created_at: m.created_at,
            read_at: m.read_at,
        }
    }
}

/// Whether `m` is a message to `me` from `from` that `me` has not read.
pub open spec fn is_unread_from(m: Message, me: UserId, from: UserId) -> bool {
    m.receiver_id == me && m.sender_id == from && m.read_at is None
}

/// Whether `m` belongs to the two-sided conversation between `a` and `b`.
pub open spec fn in_conversation(m: Message, a: UserId, b: UserId) -> bool {
    (m.sender_id == a && m.receiver_id == b) || (m.sender_id == b && m.receiver_id == a)
}

/// Whether `m` was created strictly before the optional keyset cursor.
pub open spec fn before_ok(m: Message, before: Option<i64>) -> bool {
    match before {
        Some(t) => m.created_at < t,
        None => true,
    }
}

/// The count of unread messages to `me` from `from` among the first `n`
/// rows of the log.
pub open spec fn unread_upto(rows: Seq<Message>, me: UserId, from: UserId, n: int) -> nat
    decreases n,
{
    if n <= 0 {
        0
    } else {
        unread_upto(rows, me, from, n - 1) + if is_unread_from(rows[n - 1], me, from) {
            1nat
        } else {
            0nat
        }
    }
}

/// The conversation rows between `a` and `b` among indices `[lo, hi)` of
/// the log, admitted by the cursor, newest first.
pub open spec fn desc_range(
    rows: Seq<Message>,
    a: UserId,
    b: UserId,
    before: Option<i64>,
    lo: int,
    hi: int,
) -> Seq<Message>
    decreases hi - lo,
{
    if hi <= lo {
        Seq::empty()
    } else if in_conversation(rows[lo], a, b) && before_ok(rows[lo], before) {
        desc_range(rows, a, b, before, lo + 1, hi).push(rows[lo])
    } else {
        desc_range(rows, a, b, before, lo + 1, hi)
    }
}

/// The whole conversation between `a` and `b` admitted by the cursor,
/// newest first.
pub open spec fn conversation_desc(
    rows: Seq<Message>,
    a: UserId,
    b: UserId,
    before: Option<i64>,
) -> Seq<Message> {
    desc_range(rows, a, b, before, 0, rows.len() as int)
}

/// The conversation membership test `conversation_desc` scans with.
pub open spec fn conv_pred(a: UserId, b: UserId, before: Option<i64>) -> spec_fn(Message) -> bool {
    |m: Message| in_conversation(m, a, b) && before_ok(m, before)
}

/// `m` after `me` marks what `contact` sent: an unread message from the
/// contact gets `read_at` set to `now`; everything else is untouched.
pub open spec fn mark_one(m: Message, me: UserId, contact: UserId, now: i64) -> Message {
    if is_unread_from(m, me, contact) {
        Message { read_at: Some(now), ..m }
    } else {
        m
    }
}

/// The whole log after `me` marks the conversation with `contact` read.
pub open spec fn marked(rows: Seq<Message>, me: UserId, contact: UserId, now: i64) -> Seq<Message> {
    rows.map_values(|m: Message| mark_one(m, me, contact, now))
}

/// Scanning `[lo, hi)` splits at any `mid`: the newer part's results
/// come first.
pub proof fn lemma_desc_split(
    rows: Seq<Message>,
    a: UserId,
    b: UserId,
    before: Option<i64>,
    lo: int,
    mid: int,
    hi: int,
)
    requires
        0 <= lo <= mid <= hi <= rows.len(),
    ensures
        desc_range(rows, a, b, before, lo, hi)
            == desc_range(rows, a, b, before, mid, hi) + desc_range(rows, a, b, before, lo, mid),
    decreases mid - lo,
{
    if lo == mid {
        assert(desc_range(rows, a, b, before, lo, mid) == Seq::<Message>::empty());
        assert(desc_range(rows, a, b, before, lo, hi)
            =~= desc_range(rows, a, b, before, mid, hi) + desc_range(rows, a, b, before, lo, mid));
    } else {
        lemma_desc_split(rows, a, b, before, lo + 1, mid, hi);
        if in_conversation(rows[lo], a, b) && before_ok(rows[lo], before) {
            assert(desc_range(rows, a, b, before, lo, hi)
                == desc_range(rows, a, b, before, lo + 1, hi).push(rows[lo]));
            assert(desc_range(rows, a, b, before, lo, mid)
                == desc_range(rows, a, b, before, lo + 1, mid).push(rows[lo]));
            assert((desc_range(rows, a, b, before, mid, hi)
                + desc_range(rows, a, b, before, lo + 1, mid)).push(rows[lo])
                =~= desc_range(rows, a, b, before, mid, hi)
                    + desc_range(rows, a, b, before, lo + 1, mid).push(rows[lo]));
        }
    }
}

/// The scan of `[lo, hi)` is exactly the admitted rows of that range in
/// log order, reversed: newest first means the filtered log read
/// backwards.
proof fn lemma_desc_range_is_filtered_reverse(
    rows: Seq<Message>,
    a: UserId,
    b: UserId,
    before: Option<i64>,
    lo: int,
    hi: int,
)
    requires
        0 <= lo <= hi <= rows.len(),
    ensures
        desc_range(rows, a, b, before, lo, hi)
            == rows.subrange(lo, hi).filter(conv_pred(a, b, before)).reverse(),
    decreases hi - lo,
{
    reveal(Seq::filter);
    let p = conv_pred(a, b, before);
    if lo == hi {
        assert(rows.subrange(lo, hi) =~= Seq::<Message>::empty());
        assert(Seq::<Message>::empty().filter(p).reverse() =~= Seq::<Message>::empty());
        assert(desc_range(rows, a, b, before, lo, hi) =~= Seq::<Message>::empty());
    } else {
        lemma_desc_range_is_filtered_reverse(rows, a, b, before, lo, hi - 1);
        lemma_desc_split(rows, a, b, before, lo, hi - 1, hi);
        let s = rows.subrange(lo, hi - 1);
        let e = rows[hi - 1];
        assert(rows.subrange(lo, hi) =~= s.push(e));
        s.lemma_filter_push(e, p);
        assert(desc_range(rows, a, b, before, hi, hi) =~= Seq::<Message>::empty());
        if p(e) {
            assert(desc_range(rows, a, b, before, hi - 1, hi)
                =~= Seq::<Message>::empty().push(e));
            assert(desc_range(rows, a, b, before, hi - 1, hi) =~= seq![e]);
            assert((s.filter(p).push(e)).reverse() =~= seq![e] + s.filter(p).reverse());
            assert(desc_range(rows, a, b, before, lo, hi)
                =~= rows.subrange(lo, hi).filter(p).reverse());
        } else {
            assert(desc_range(rows, a, b, before, hi - 1, hi) =~= Seq::<Message>::empty());
            assert(desc_range(rows, a, b, before, lo, hi)
                =~= rows.subrange(lo, hi).filter(p).reverse());
        }
    }
}

/// The whole conversation, newest first, is the log filtered to the
/// admitted rows of the pair and read backwards.
pub proof fn lemma_conversation_is_filtered_reverse(
    rows: Seq<Message>,
    a: UserId,
    b: UserId,
    before: Option<i64>,
)
    ensures
        conversation_desc(rows, a, b, before)
            == rows.filter(conv_pred(a, b, before)).reverse(),
{
    lemma_desc_range_is_filtered_reverse(rows, a, b, before, 0, rows.len() as int);
    assert(rows.subrange(0, rows.len() as int) =~= rows);
}

/// At most `n` of the first `n` rows are unread.
pub proof fn lemma_unread_upto_le(rows: Seq<Message>, me: UserId, from: UserId, n: int)
    requires
        0 <= n,
    ensures
        unread_upto(rows, me, from, n) <= n,
    decreases n,
{
    if n > 0 {
        lemma_unread_upto_le(rows, me, from, n - 1);
    }
}

/// Scanning more rows never lowers the count.
pub proof fn lemma_unread_upto_mono(rows: Seq<Message>, me: UserId, from: UserId, m: int, n: int)
    requires
        0 <= m <= n,
    ensures
        unread_upto(rows, me, from, m) <= unread_upto(rows, me, from, n),
    decreases n - m,
{
    if m < n {
        lemma_unread_upto_mono(rows, me, from, m, n - 1);
    }
}

/// Marking a conversation read is idempotent: marking it a second time,
/// at any later or earlier timestamp, changes nothing, because no
/// message from that contact is left unread after the first pass.
pub proof fn lemma_mark_as_read_idempotent(
    rows: Seq<Message>,
    me: UserId,
    contact: UserId,
    t1: i64,
    t2: i64,
)
    ensures
        marked(marked(rows, me, contact, t1), me, contact, t2) == marked(rows, me, contact, t1),
{
    let once = marked(rows, me, contact, t1);
    let twice = marked(once, me, contact, t2);
    assert forall|j: int| 0 <= j < once.len() implies #[trigger] twice[j] == once[j] by {
        assert(once[j] == mark_one(rows[j], me, contact, t1));
        assert(twice[j] == mark_one(once[j], me, contact, t2));
    }
    assert(twice =~= once);
}

/// The durable ordered message log. Rows stand in creation order; ids
/// are server-assigned and strictly increasing along the log.
pub struct MessageStore {
    pub rows: Vec<Message>,
    pub next_id: u64,
}

impl MessageStore {
    /// The log's invariant: ids below the allocator and strictly
    /// increasing, timestamps nondecreasing, content within bounds.
    pub open spec fn wf(self) -> bool {
        &&& forall|i: int| 0 <= i < self.rows@.len()
            ==> (#[trigger] self.rows@[i]).id < self.next_id
        &&& forall|i: int, j: int| 0 <= i < j < self.rows@.len()
            ==> (#[trigger] self.rows@[i]).id < (#[trigger] self.rows@[j]).id
        &&& forall|i: int, j: int| 0 <= i <= j < self.rows@.len()
            ==> (#[trigger] self.rows@[i]).created_at <= (#[trigger] self.rows@[j]).created_at
        &&& forall|i: int| 0 <= i < self.rows@.len()
            ==> 1 <= (#[trigger] self.rows@[i]).content@.len() <= 10000
    }

    /// No row was created after `now`: the store's clock view.
    pub open spec fn ts_ok(self, now: i64) -> bool {
        forall|i: int| 0 <= i < self.rows@.len()
            ==> (#[trigger] self.rows@[i]).created_at <= now
    }

    /// The count of unread messages to `me` from `from` in the log.
    pub open spec fn unread_from(self, me: UserId, from: UserId) -> nat {
        unread_upto(self.rows@, me, from, self.rows@.len() as int)
    }

    /// An empty log.
    pub fn new() -> (r: MessageStore)
        ensures
            r.wf(),
            r.rows@.len() == 0,
            r.next_id == 0,
    {
        MessageStore { rows: Vec::new(), next_id: 0 }
    }

    /// Persists one message with a server-assigned id and the given
    /// timestamp, returning the canonical row. Fails with `Storage`, and
    /// persists nothing, exactly when the id space is exhausted; an
    /// insert either fully succeeds or leaves no row behind.
    pub fn insert(&mut self, sender: UserId, receiver: UserId, content: String, now: i64)
        -> (r: Result<Message, HubError>)
        requires
            old(self).wf(),
            1 <= content@.len() <= 10000,
            old(self).ts_ok(now),
        ensures
            final(self).wf(),
            final(self).ts_ok(now),
            r is Ok <==> old(self).next_id < u64::MAX,
            old(self).next_id == u64::MAX
                ==> r == Err::<Message, HubError>(HubError::Storage)
                    && *final(self) == *old(self),
            r matches Ok(m) ==> ({
                &&& m == (Message {
                    id: old(self).next_id,
                    sender_id: sender,
                    receiver_id: receiver,
                    content: content,
                    created_at: now,
                    read_at: None::<i64>,
                })
                &&& final(self).rows@ == old(self).rows@.push(m)
                &&& final(self).next_id == old(self).next_id + 1
            }),
    {
        if self.next_id == u64::MAX {
            return Err(HubError::Storage);
        }
        let id = self.next_id;
        let row = Message {
            id,
            sender_id: sender,
            receiver_id: receiver,
            content,
            created_at: now,
            read_at: None,
        };
        let copy = row.dup();
        self.rows.push(row);
        self.next_id = id + 1;
        Ok(copy)
    }
}

} // verus!
