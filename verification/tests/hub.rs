use chat_hub::errors::HubError;
use chat_hub::events::WsMessage;
use chat_hub::friendship::FriendshipGraph;
use chat_hub::ids::UserId;
use chat_hub::registry::WsState;
use chat_hub::router::{
    default_limit, get_messages, get_unread_counts, mark_as_read, relay_signal, send_message,
};
use chat_hub::store::MessageStore;

fn uid(n: u64) -> UserId {
    UserId::new(0, n)
}

fn befriend(g: &mut FriendshipGraph, a: UserId, b: UserId, at: i64) {
    g.request(a, b, at).unwrap();
    g.accept(b, a, at + 1).unwrap();
}

#[test]
fn send_between_friends_persists_and_notifies() {
    let a = uid(1);
    let b = uid(2);
    let mut g = FriendshipGraph::new();
    befriend(&mut g, a, b, 1);
    let mut store = MessageStore::new();
    let mut ws = WsState::new();
    ws.register(b, 16);

    let m = send_message(&g, &mut store, &mut ws, a, b, "hello".to_string(), 100).unwrap();
    assert_eq!(m.content, "hello");
    assert_eq!(m.sender_id, a);
    assert_eq!(m.receiver_id, b);
    assert_eq!(m.read_at, None);
    assert_eq!(store.rows.len(), 1);
    assert_eq!(store.rows[0], m);

    let delivered = ws.next_event(b).expect("live notification");
    assert_eq!(
        delivered,
        WsMessage::MessageReceived {
            message_id: m.id,
            sender_id: a,
            content: "hello".to_string(),
            timestamp: 100,
        }
    );
    assert_eq!(ws.next_event(b), None);
}

#[test]
fn send_without_relationship_is_forbidden_and_writes_nothing() {
    let a = uid(1);
    let c = uid(3);
    let g = FriendshipGraph::new();
    let mut store = MessageStore::new();
    let mut ws = WsState::new();
    ws.register(c, 16);

    let r = send_message(&g, &mut store, &mut ws, a, c, "hi".to_string(), 100);
    assert_eq!(r, Err(HubError::Forbidden));
    assert_eq!(store.rows.len(), 0);
    assert_eq!(ws.next_event(c), None);
}

#[test]
fn pending_alone_does_not_authorize() {
    let a = uid(1);
    let b = uid(2);
    let mut g = FriendshipGraph::new();
    g.request(a, b, 1).unwrap();
    let mut store = MessageStore::new();
    let mut ws = WsState::new();
    let r = send_message(&g, &mut store, &mut ws, a, b, "hi".to_string(), 100);
    assert_eq!(r, Err(HubError::Forbidden));
    assert_eq!(store.rows.len(), 0);
}

#[test]
fn content_is_validated_and_trimmed() {
    let a = uid(1);
    let b = uid(2);
    let mut g = FriendshipGraph::new();
    befriend(&mut g, a, b, 1);
    let mut store = MessageStore::new();
    let mut ws = WsState::new();

    let r = send_message(&g, &mut store, &mut ws, a, b, "   ".to_string(), 100);
    assert_eq!(r, Err(HubError::Validation));
    let r = send_message(&g, &mut store, &mut ws, a, b, "".to_string(), 100);
    assert_eq!(r, Err(HubError::Validation));
    let big = "x".repeat(10001);
    let r = send_message(&g, &mut store, &mut ws, a, b, big, 100);
    assert_eq!(r, Err(HubError::Validation));
    assert_eq!(store.rows.len(), 0);

    let exact = "y".repeat(10000);
    let m = send_message(&g, &mut store, &mut ws, a, b, exact.clone(), 100).unwrap();
    assert_eq!(m.content, exact);

    let m = send_message(&g, &mut store, &mut ws, a, b, "  hello  ".to_string(), 101).unwrap();
    assert_eq!(m.content, "hello");
}

#[test]
fn exhausted_id_space_is_a_storage_error() {
    let a = uid(1);
    let b = uid(2);
    let mut g = FriendshipGraph::new();
    befriend(&mut g, a, b, 1);
    let mut store = MessageStore { rows: Vec::new(), next_id: u64::MAX };
    let mut ws = WsState::new();
    let r = send_message(&g, &mut store, &mut ws, a, b, "hello".to_string(), 100);
    assert_eq!(r, Err(HubError::Storage));
    assert_eq!(store.rows.len(), 0);
}

#[test]
fn get_messages_is_newest_first_capped_and_cursored() {
    let a = uid(1);
    let b = uid(2);
    let c = uid(3);
    let mut g = FriendshipGraph::new();
    befriend(&mut g, a, b, 1);
    befriend(&mut g, a, c, 3);
    let mut store = MessageStore::new();
    let mut ws = WsState::new();

    let m1 = send_message(&g, &mut store, &mut ws, a, b, "one".to_string(), 10).unwrap();
    let m2 = send_message(&g, &mut store, &mut ws, b, a, "two".to_string(), 20).unwrap();
    let _other = send_message(&g, &mut store, &mut ws, a, c, "noise".to_string(), 25).unwrap();
    let m3 = send_message(&g, &mut store, &mut ws, a, b, "three".to_string(), 30).unwrap();

    let all = get_messages(&g, &store, a, b, 50, None).unwrap();
    assert_eq!(all, vec![m3.clone(), m2.clone(), m1.clone()]);

    let capped = get_messages(&g, &store, a, b, 2, None).unwrap();
    assert_eq!(capped, vec![m3.clone(), m2.clone()]);

    let older = get_messages(&g, &store, a, b, 50, Some(30)).unwrap();
    assert_eq!(older, vec![m2.clone(), m1.clone()]);

    let r = get_messages(&g, &store, b, c, 50, None);
    assert_eq!(r, Err(HubError::Forbidden));
}

#[test]
fn mark_as_read_is_idempotent() {
    let a = uid(1);
    let b = uid(2);
    let mut g = FriendshipGraph::new();
    befriend(&mut g, a, b, 1);
    let mut store = MessageStore::new();
    let mut ws = WsState::new();

    send_message(&g, &mut store, &mut ws, b, a, "one".to_string(), 10).unwrap();
    send_message(&g, &mut store, &mut ws, b, a, "two".to_string(), 20).unwrap();
    send_message(&g, &mut store, &mut ws, a, b, "reply".to_string(), 30).unwrap();

    mark_as_read(&mut store, a, b, 40);
    let after_once: Vec<Option<i64>> = store.rows.iter().map(|m| m.read_at).collect();
    assert_eq!(after_once, vec![Some(40), Some(40), None]);

    mark_as_read(&mut store, a, b, 99);
    let after_twice: Vec<Option<i64>> = store.rows.iter().map(|m| m.read_at).collect();
    assert_eq!(after_twice, after_once);
}

#[test]
fn unread_counts_count_exactly_the_unread_rows() {
    let me = uid(1);
    let b = uid(2);
    let c = uid(3);
    let mut g = FriendshipGraph::new();
    befriend(&mut g, me, b, 1);
    befriend(&mut g, me, c, 3);
    let mut store = MessageStore::new();
    let mut ws = WsState::new();

    send_message(&g, &mut store, &mut ws, b, me, "b1".to_string(), 10).unwrap();
    send_message(&g, &mut store, &mut ws, b, me, "b2".to_string(), 11).unwrap();
    send_message(&g, &mut store, &mut ws, c, me, "c1".to_string(), 12).unwrap();
    send_message(&g, &mut store, &mut ws, me, b, "out".to_string(), 13).unwrap();

    let mut counts = get_unread_counts(&store, me);
    counts.sort_by_key(|(u, _)| u.lo);
    assert_eq!(counts, vec![(b, 2), (c, 1)]);

    mark_as_read(&mut store, me, b, 20);
    let counts = get_unread_counts(&store, me);
    assert_eq!(counts, vec![(c, 1)]);

    mark_as_read(&mut store, me, c, 21);
    assert_eq!(get_unread_counts(&store, me), Vec::new());
}

#[test]
fn relay_to_offline_target_is_a_silent_drop() {
    let a = uid(1);
    let b = uid(2);
    let mut ws = WsState::new();
    ws.register(a, 16);
    relay_signal(&mut ws, a, b, "{\"sdp\":\"offer\"}".to_string());
    // no error came back, nothing reached anyone, nothing is persisted
    assert_eq!(ws.next_event(a), None);
    assert_eq!(ws.next_event(b), None);
}

#[test]
fn relay_reaches_a_registered_target() {
    let a = uid(1);
    let b = uid(2);
    let mut ws = WsState::new();
    ws.register(b, 16);
    relay_signal(&mut ws, a, b, "candidate".to_string());
    assert_eq!(
        ws.next_event(b),
        Some(WsMessage::WebRTCSignal {
            from_user_id: a,
            to_user_id: b,
            signal: "candidate".to_string(),
        })
    );
}

#[test]
fn default_limit_is_fifty() {
    assert_eq!(default_limit(), 50);
}
