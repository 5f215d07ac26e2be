use chat_hub::events::WsMessage;
use chat_hub::ids::UserId;
use chat_hub::registry::WsState;
use chat_hub::session::{Frame, Session, SessionState};

fn uid(n: u64) -> UserId {
    UserId::new(0, n)
}

fn drain(ws: &mut WsState, u: UserId) -> Vec<WsMessage> {
    let mut out = Vec::new();
    while let Some(ev) = ws.next_event(u) {
        out.push(ev);
    }
    out
}

#[test]
fn lifecycle_emits_one_online_and_one_offline() {
    let a = uid(1);
    let observer = uid(9);
    let mut ws = WsState::new();
    ws.register(observer, 64);

    let mut session = Session::new(a);
    assert_eq!(session.state, SessionState::Authenticated);
    session.activate(&mut ws, 64);
    assert_eq!(session.state, SessionState::Active);
    // the fresh session hears its own online event too
    assert_eq!(ws.next_event(a), Some(WsMessage::UserOnline { user_id: a }));

    session.on_frame(&mut ws, Frame::Undecodable);
    session.on_frame(&mut ws, Frame::Msg(WsMessage::FriendRemoved { friend_id: a }));
    session.teardown(&mut ws);
    assert_eq!(session.state, SessionState::Closed);
    // a second teardown changes nothing
    session.teardown(&mut ws);

    let seen = drain(&mut ws, observer);
    let onlines = seen.iter().filter(|e| **e == WsMessage::UserOnline { user_id: a }).count();
    let offlines = seen.iter().filter(|e| **e == WsMessage::UserOffline { user_id: a }).count();
    assert_eq!(onlines, 1);
    assert_eq!(offlines, 1);
}

#[test]
fn ping_answers_pong_to_self() {
    let a = uid(1);
    let mut ws = WsState::new();
    let mut session = Session::new(a);
    session.activate(&mut ws, 64);
    drain(&mut ws, a);

    let cont = session.on_frame(&mut ws, Frame::Msg(WsMessage::Ping));
    assert!(cont);
    assert_eq!(drain(&mut ws, a), vec![WsMessage::Pong]);
}

#[test]
fn relayed_signal_reports_the_authenticated_sender() {
    let a = uid(1);
    let b = uid(2);
    let impostor = uid(666);
    let mut ws = WsState::new();
    let mut b_session = Session::new(b);
    b_session.activate(&mut ws, 64);
    let mut a_session = Session::new(a);
    a_session.activate(&mut ws, 64);
    drain(&mut ws, a);
    drain(&mut ws, b);

    // the inbound frame claims a different sender; the relay overwrites it
    let cont = a_session.on_frame(
        &mut ws,
        Frame::Msg(WsMessage::WebRTCSignal {
            from_user_id: impostor,
            to_user_id: b,
            signal: "offer".to_string(),
        }),
    );
    assert!(cont);
    assert_eq!(
        drain(&mut ws, b),
        vec![WsMessage::WebRTCSignal {
            from_user_id: a,
            to_user_id: b,
            signal: "offer".to_string(),
        }]
    );
}

#[test]
fn signal_to_offline_peer_is_dropped_without_error() {
    let a = uid(1);
    let b = uid(2);
    let mut ws = WsState::new();
    let mut session = Session::new(a);
    session.activate(&mut ws, 64);
    drain(&mut ws, a);

    let cont = session.on_frame(
        &mut ws,
        Frame::Msg(WsMessage::WebRTCSignal {
            from_user_id: a,
            to_user_id: b,
            signal: "offer".to_string(),
        }),
    );
    assert!(cont);
    assert_eq!(drain(&mut ws, a), Vec::new());
}

#[test]
fn close_frame_stops_the_loop() {
    let a = uid(1);
    let mut ws = WsState::new();
    let mut session = Session::new(a);
    session.activate(&mut ws, 64);
    let cont = session.on_frame(&mut ws, Frame::Close);
    assert!(!cont);
    assert_eq!(session.state, SessionState::Closing);
    session.teardown(&mut ws);
    assert_eq!(session.state, SessionState::Closed);
}

#[test]
fn second_connection_supersedes_the_first() {
    let a = uid(1);
    let observer = uid(9);
    let mut ws = WsState::new();
    ws.register(observer, 64);

    let mut first = Session::new(a);
    first.activate(&mut ws, 64);
    let mut second = Session::new(a);
    second.activate(&mut ws, 64);
    // the first session can see that its registration is gone
    assert!(!ws.is_current(a, first.epoch));
    assert!(ws.is_current(a, second.epoch));

    // the first session's loops observe the loss of their queue and
    // tear the session down; its offline broadcast goes out once,
    // and the second connection's registration survives
    first.teardown(&mut ws);
    first.teardown(&mut ws);
    assert!(ws.is_current(a, second.epoch));

    let seen = drain(&mut ws, observer);
    let onlines = seen.iter().filter(|e| **e == WsMessage::UserOnline { user_id: a }).count();
    let offlines = seen.iter().filter(|e| **e == WsMessage::UserOffline { user_id: a }).count();
    assert_eq!(onlines, 2);
    assert_eq!(offlines, 1);

    // net: the user is online from the second connection; its channel
    // still delivers, until that connection also disconnects
    ws.send_to_user(a, WsMessage::Ping);
    let own = drain(&mut ws, a);
    assert_eq!(own.last(), Some(&WsMessage::Ping));
    second.teardown(&mut ws);
    assert!(!ws.is_current(a, second.epoch));
    let seen = drain(&mut ws, observer);
    let offlines = seen.iter().filter(|e| **e == WsMessage::UserOffline { user_id: a }).count();
    assert_eq!(offlines, 1);
}

#[test]
fn send_to_unregistered_or_closed_target_has_no_effect() {
    let a = uid(1);
    let b = uid(2);
    let mut ws = WsState::new();
    ws.register(a, 64);

    ws.send_to_user(b, WsMessage::Pong);
    assert_eq!(ws.next_event(b), None);
    assert_eq!(ws.next_event(a), None);

    ws.close_queue(a);
    ws.send_to_user(a, WsMessage::Pong);
    assert_eq!(ws.next_event(a), None);
}

#[test]
fn full_queue_drops_instead_of_blocking() {
    let a = uid(1);
    let mut ws = WsState::new();
    ws.register(a, 2);
    ws.send_to_user(a, WsMessage::Ping);
    ws.send_to_user(a, WsMessage::Pong);
    // the bound is reached: this one is discarded silently
    ws.send_to_user(a, WsMessage::UserOnline { user_id: a });
    assert_eq!(ws.next_event(a), Some(WsMessage::Ping));
    assert_eq!(ws.next_event(a), Some(WsMessage::Pong));
    assert_eq!(ws.next_event(a), None);
}

#[test]
fn unregister_forgets_the_queue() {
    let a = uid(1);
    let mut ws = WsState::new();
    ws.register(a, 8);
    ws.send_to_user(a, WsMessage::Ping);
    ws.unregister(a);
    assert_eq!(ws.next_event(a), None);
    ws.unregister(a);
    assert_eq!(ws.next_event(a), None);
}

#[test]
fn register_replaces_the_previous_queue() {
    let a = uid(1);
    let mut ws = WsState::new();
    ws.register(a, 8);
    ws.send_to_user(a, WsMessage::Ping);
    ws.register(a, 8);
    // the superseding registration starts with a fresh, empty queue
    assert_eq!(ws.next_event(a), None);
    ws.send_to_user(a, WsMessage::Pong);
    assert_eq!(ws.next_event(a), Some(WsMessage::Pong));
}

#[test]
fn broadcast_reaches_every_registered_user() {
    let a = uid(1);
    let b = uid(2);
    let c = uid(3);
    let mut ws = WsState::new();
    ws.register(a, 8);
    ws.register(b, 8);
    let ev = WsMessage::UserOnline { user_id: c };
    ws.broadcast(&ev);
    assert_eq!(ws.next_event(a), Some(ev.clone()));
    assert_eq!(ws.next_event(b), Some(ev.clone()));
    assert_eq!(ws.next_event(c), None);
}
