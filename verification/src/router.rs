//! The message router: orchestrates authorization (friendship graph),
//! persistence (message store), and best-effort live delivery
//! (connection registry) for send, list, read-tracking, and signal
//! relay requests.

use vstd::prelude::*;
use vstd::string::StrSliceExecFns;
use crate::errors::HubError;
use crate::events::WsMessage;
use crate::friendship::FriendshipGraph;
use crate::ids::UserId;
use crate::registry::{sent, WsState};
use crate::store::{
    conv_pred, conversation_desc, desc_range, marked, unread_upto, Message, MessageStore,
};

verus! {

/// What `str::trim` leaves of a text: the characters with leading and
/// trailing whitespace removed. Named rather than spelled out; the
/// trusted wrapper below ties it to the library call.
pub uninterp spec fn trim_of(s: Seq<char>) -> Seq<char>;

/// Relies on str::trim: returns the input without leading and trailing
/// whitespace, a subslice of the input, determined by the characters
/// alone.
#[verifier::external_body]
fn trim_string(s: &String) -> (r: String)
    ensures
        r@ == trim_of(s@),
        r@.len() <= s@.len(),
{
    String::from_str(s.trim())
}

/// Message content the hub admits: no more than 10000 characters, and
/// not blank after trimming.
pub open spec fn valid_content(content: Seq<char>) -> bool {
    content.len() <= 10000 && trim_of(content).len() > 0
}

/// The live notification a successful send addresses to the receiver.
pub open spec fn notification_of(m: Message) -> WsMessage {
    WsMessage::MessageReceived {
        message_id: m.id,
        sender_id: m.sender_id,
        content: m.content,
        timestamp: m.created_at,
    }
}

/// A request to send one message.
pub struct SendMessageRequest {
    pub receiver_id: String,
    pub content: String,
}

/// A listing request: the contact, a row cap, and an optional keyset
/// cursor.
pub struct GetMessagesQuery {
    pub contact_id: String,
    pub limit: i32,
    pub before: Option<i64>,
}

/// Sends one message: validates the content, requires an accepted
/// sender-towards-receiver edge, persists the row, then best-effort
/// notifies the receiver's live channel. Persistence is the durability
/// guarantee; absence or failure of live delivery is not an error.
///
/// Whenever the sender is not authorized the call fails with
/// `Forbidden` and no row is created and nothing is delivered.
pub fn send_message(
    graph: &FriendshipGraph,
    store: &mut MessageStore,
    ws: &mut WsState,
    sender: UserId,
    receiver: UserId,
    content: String,
    now: i64,
) -> (r: Result<Message, HubError>)
    requires
        graph.wf(),
        old(store).wf(),
        old(store).ts_ok(now),
        old(ws).wf(),
    ensures
        final(store).wf(),
        final(store).ts_ok(now),
        final(ws).wf(),
        !valid_content(content@) ==> ({
            &&& r == Err::<Message, HubError>(HubError::Validation)
            &&& *final(store) == *old(store)
            &&& *final(ws) == *old(ws)
        }),
        valid_content(content@) && !graph.accepted(sender, receiver) ==> ({
            &&& r == Err::<Message, HubError>(HubError::Forbidden)
            &&& *final(store) == *old(store)
            &&& *final(ws) == *old(ws)
        }),
        valid_content(content@) && graph.accepted(sender, receiver)
            && old(store).next_id == u64::MAX ==> ({
            &&& r == Err::<Message, HubError>(HubError::Storage)
            &&& *final(store) == *old(store)
            &&& *final(ws) == *old(ws)
        }),
        valid_content(content@) && graph.accepted(sender, receiver)
            && old(store).next_id < u64::MAX ==> ({
            &&& r matches Ok(m)
            &&& m.id == old(store).next_id
            &&& m.sender_id == sender
            &&& m.receiver_id == receiver
            &&& m.content@ == trim_of(content@)
            &&& m.created_at == now
            &&& m.read_at is None
            &&& final(store).rows@ == old(store).rows@.push(m)
            &&& final(store).next_id == old(store).next_id + 1
            &&& sent(*old(ws), *final(ws), receiver, notification_of(m))
            &&& old(ws).accepts(receiver) ==> final(ws).queue(receiver)
                == old(ws).queue(receiver).push(notification_of(m))
            &&& !old(ws).accepts(receiver) ==> *final(ws) == *old(ws)
        }),
{
    let total = content.as_str().unicode_len();
    if total > 10000 {
        return Err(HubError::Validation);
    }
    let trimmed = trim_string(&content);
    if trimmed.as_str().is_empty() {
        return Err(HubError::Validation);
    }
    if !graph.is_accepted(sender, receiver) {
        return Err(HubError::Forbidden);
    }
    let m = match store.insert(sender, receiver, trimmed, now) {
        Ok(m) => m,
        Err(e) => {
            return Err(e);
        },
    };
    let ev = WsMessage::MessageReceived {
        message_id: m.id,
        sender_id: m.sender_id,
        content: m.content.clone(),
        timestamp: m.created_at,
    };
    ws.send_to_user(receiver, ev);
    Ok(m)
}

/// Lists the conversation between requester and contact, newest first,
/// capped at `limit` rows, optionally only rows created strictly before
/// the keyset cursor. Requires the same accepted edge as sending.
pub fn get_messages(
    graph: &FriendshipGraph,
    store: &MessageStore,
    requester: UserId,
    contact: UserId,
    limit: usize,
    before: Option<i64>,
) -> (r: Result<Vec<Message>, HubError>)
    requires
        graph.wf(),
        store.wf(),
    ensures
        !graph.accepted(requester, contact)
            ==> r == Err::<Vec<Message>, HubError>(HubError::Forbidden),
        graph.accepted(requester, contact) ==> ({
            let conv = conversation_desc(store.rows@, requester, contact, before);
            &&& conv == store.rows@.filter(conv_pred(requester, contact, before)).reverse()
            &&& r matches Ok(v)
            &&& v@ == if limit as int <= conv.len() {
                conv.take(limit as int)
            } else {
                conv
            }
        }),
{
    if !graph.is_accepted(requester, contact) {
        return Err(HubError::Forbidden);
    }
    let n = store.rows.len();
    let mut i: usize = n;
    let mut v: Vec<Message> = Vec::new();
    while i > 0 && v.len() < limit
        invariant
            n == store.rows@.len(),
            i <= n,
            v@.len() <= limit,
            v@ == desc_range(store.rows@, requester, contact, before, i as int, n as int),
        decreases i,
    {
        i = i - 1;
        let m = &store.rows[i];
        let in_conv = (m.sender_id == requester && m.receiver_id == contact)
            || (m.sender_id == contact && m.receiver_id == requester);
        let cursor_ok = match before {
            Some(t) => m.created_at < t,
            None => true,
        };
        if in_conv && cursor_ok {
            v.push(m.dup());
        }
    }
    proof {
        crate::store::lemma_conversation_is_filtered_reverse(store.rows@, requester, contact, before);
        let conv = conversation_desc(store.rows@, requester, contact, before);
        let part = desc_range(store.rows@, requester, contact, before, i as int, n as int);
        crate::store::lemma_desc_split(
            store.rows@, requester, contact, before, 0, i as int, n as int,
        );
        assert(conv == part + desc_range(store.rows@, requester, contact, before, 0, i as int));
        if i == 0 {
            assert(conv =~= part);
            assert(v@.len() <= limit);
            if limit as int <= conv.len() {
                assert(conv.take(limit as int) =~= conv);
            }
        } else {
            assert(v@.len() == limit);
            assert(conv.len() >= limit);
            assert(conv.take(limit as int) =~= part);
        }
    }
    Ok(v)
}

/// Marks every unread message from `contact` to `requester` as read at
/// `now`. Idempotent: once nothing is unread, another call changes
/// nothing.
pub fn mark_as_read(store: &mut MessageStore, requester: UserId, contact: UserId, now: i64)
    requires
        old(store).wf(),
    ensures
        final(store).wf(),
        final(store).rows@ == marked(old(store).rows@, requester, contact, now),
        final(store).next_id == old(store).next_id,
{
    let n = store.rows.len();
    let mut i: usize = 0;
    while i < n
        invariant
            old(store).wf(),
            n == store.rows@.len(),
            i <= n,
            store.next_id == old(store).next_id,
            forall|j: int| 0 <= j < i
                ==> #[trigger] store.rows@[j]
                    == crate::store::mark_one(old(store).rows@[j], requester, contact, now),
            forall|j: int| i <= j < n
                ==> #[trigger] store.rows@[j] == old(store).rows@[j],
        decreases n - i,
    {
        let hit = store.rows[i].receiver_id == requester
            && store.rows[i].sender_id == contact
            && store.rows[i].read_at.is_none();
        if hit {
            let slot = vstd::std_specs::vec::vec_index_mut(&mut store.rows, i);
            slot.read_at = Some(now);
        }
        i = i + 1;
    }
    proof {
        assert(store.rows@ =~= marked(old(store).rows@, requester, contact, now));
        assert(final(store).wf()) by {
            assert forall|j: int| 0 <= j < store.rows@.len()
                implies (#[trigger] store.rows@[j]).id == old(store).rows@[j].id
                    && store.rows@[j].created_at == old(store).rows@[j].created_at
                    && store.rows@[j].content == old(store).rows@[j].content by {}
        }
    }
}

/// Whether some listed pair already names this sender.
pub open spec fn has_sender(rs: Seq<(UserId, u64)>, s: UserId) -> bool {
    exists|k: int| 0 <= k < rs.len() && (#[trigger] rs[k]).0 == s
}

/// The index of a pair naming `s`, if any.
fn find_sender(v: &Vec<(UserId, u64)>, s: UserId) -> (r: bool)
    ensures
        r == has_sender(v@, s),
{
    let n = v.len();
    let mut i: usize = 0;
    while i < n
        invariant
            n == v@.len(),
            i <= n,
            forall|k: int| 0 <= k < i ==> (#[trigger] v@[k]).0 != s,
        decreases n - i,
    {
        if v[i].0 == s {
            proof {
                assert(v@[i as int].0 == s);
            }
            return true;
        }
        i = i + 1;
    }
    proof {
        if has_sender(v@, s) {
            let k = choose|k: int| 0 <= k < v@.len() && (#[trigger] v@[k]).0 == s;
        }
    }
    false
}

/// Counts the persisted messages to `me` from `from` not yet read.
fn count_unread_from(store: &MessageStore, me: UserId, from: UserId) -> (c: u64)
    ensures
        c == store.unread_from(me, from),
{
    let n = store.rows.len();
    let mut c: u64 = 0;
    let mut i: usize = 0;
    while i < n
        invariant
            n == store.rows@.len(),
            i <= n,
            c == unread_upto(store.rows@, me, from, i as int),
        decreases n - i,
    {
        proof {
            crate::store::lemma_unread_upto_le(store.rows@, me, from, i as int);
        }
        let hit = store.rows[i].receiver_id == me
            && store.rows[i].sender_id == from
            && store.rows[i].read_at.is_none();
        if hit {
            c = c + 1;
        }
        i = i + 1;
    }
    c
}

/// Returns, per distinct contact, the count of persisted messages to
/// `requester` from that contact with no read timestamp: exactly the
/// contacts with at least one unread message, each with its exact
/// count, each listed once.
pub fn get_unread_counts(store: &MessageStore, requester: UserId) -> (r: Vec<(UserId, u64)>)
    ensures
        forall|k: int| 0 <= k < r@.len()
            ==> (#[trigger] r@[k]).1 == store.unread_from(requester, r@[k].0) && r@[k].1 > 0,
        forall|k1: int, k2: int| 0 <= k1 < r@.len() && 0 <= k2 < r@.len() && k1 != k2
            ==> r@[k1].0 != r@[k2].0,
        forall|s: UserId| #[trigger] store.unread_from(requester, s) > 0 ==> has_sender(r@, s),
    {
    let n = store.rows.len();
    let mut r: Vec<(UserId, u64)> = Vec::new();
    let mut i: usize = 0;
    while i < n
        invariant
            n == store.rows@.len(),
            i <= n,
            forall|k: int| 0 <= k < r@.len()
                ==> (#[trigger] r@[k]).1 == store.unread_from(requester, r@[k].0)
                    && r@[k].1 > 0,
            forall|k1: int, k2: int| 0 <= k1 < r@.len() && 0 <= k2 < r@.len() && k1 != k2
                ==> r@[k1].0 != r@[k2].0,
            forall|s: UserId|
                #[trigger] unread_upto(store.rows@, requester, s, i as int) > 0
                    ==> has_sender(r@, s),
        decreases n - i,
    {
        let hit = store.rows[i].receiver_id == requester && store.rows[i].read_at.is_none();
        if hit {
            let s = store.rows[i].sender_id;
            if !find_sender(&r, s) {
                let c = count_unread_from(store, requester, s);
                proof {
                    crate::store::lemma_unread_upto_mono(
                        store.rows@, requester, s, i as int + 1, n as int,
                    );
                    assert(unread_upto(store.rows@, requester, s, i as int + 1) > 0);
                }
                let ghost r_prev = r@;
                r.push((s, c));
                proof {
                    assert(r@ == r_prev.push((s, c)));
                    assert(r@[r_prev.len() as int].0 == s);
                    assert forall|x: UserId| has_sender(r_prev, x)
                        implies has_sender(r@, x) by {
                        let k = choose|k: int|
                            0 <= k < r_prev.len() && (#[trigger] r_prev[k]).0 == x;
                        assert(r@[k].0 == x);
                    }
                    assert forall|x: UserId|
                        #[trigger] unread_upto(store.rows@, requester, x, i as int + 1) > 0
                        implies has_sender(r@, x) by {
                        if x != s {
                            assert(unread_upto(store.rows@, requester, x, i as int + 1)
                                == unread_upto(store.rows@, requester, x, i as int));
                            assert(has_sender(r_prev, x));
                        } else {
                            assert(has_sender(r@, s));
                        }
                    }
                }
            } else {
                proof {
                    assert forall|x: UserId|
                        #[trigger] unread_upto(store.rows@, requester, x, i as int + 1) > 0
                        implies has_sender(r@, x) by {
                        if x != s {
                            assert(unread_upto(store.rows@, requester, x, i as int + 1)
                                == unread_upto(store.rows@, requester, x, i as int));
                        }
                    }
                }
            }
        } else {
            proof {
                assert forall|x: UserId|
                    #[trigger] unread_upto(store.rows@, requester, x, i as int + 1) > 0
                    implies has_sender(r@, x) by {
                    assert(!crate::store::is_unread_from(store.rows@[i as int], requester, x));
                    assert(unread_upto(store.rows@, requester, x, i as int + 1)
                        == unread_upto(store.rows@, requester, x, i as int));
                }
            }
        }
        i = i + 1;
    }
    r
}

/// Relays an opaque signaling payload to `to`'s live channel,
/// best-effort: silently dropped when the target has no accepting
/// channel, never an error, never persisted. The forwarded envelope
/// names `sender` — the authenticated identity the hub itself supplies —
/// as origin.
pub fn relay_signal(ws: &mut WsState, sender: UserId, to: UserId, signal: String)
    requires
        old(ws).wf(),
    ensures
        final(ws).wf(),
        final(ws).next_epoch == old(ws).next_epoch,
        sent(*old(ws), *final(ws), to, WsMessage::WebRTCSignal {
            from_user_id: sender,
            to_user_id: to,
            signal: signal,
        }),
        old(ws).accepts(to) ==> final(ws).queue(to) == old(ws).queue(to).push(
            WsMessage::WebRTCSignal { from_user_id: sender, to_user_id: to, signal: signal },
        ),
        !old(ws).accepts(to) ==> *final(ws) == *old(ws),
        forall|v: UserId| v != to
            ==> #[trigger] final(ws).registered(v) == old(ws).registered(v),
        forall|v: UserId| v != to && old(ws).registered(v)
            ==> #[trigger] final(ws).entry_of(v) == old(ws).entry_of(v),
{
    let ev = WsMessage::WebRTCSignal { from_user_id: sender, to_user_id: to, signal };
    ws.send_to_user(to, ev);
}

/// The row cap a listing request falls back to when the caller names
/// none.
pub fn default_limit() -> (r: i32)
    ensures
        r == 50,
{
    50
}

} // verus!
