//! The per-connection session state machine: registers itself, emits
//! presence events exactly once per lifecycle, and decides what each
//! inbound frame does.

use vstd::prelude::*;
use crate::events::WsMessage;
use crate::ids::UserId;
use crate::registry::{entry_accepts, entry_pushed, sent, WsState};
use crate::router::relay_signal;

verus! {

/// The lifecycle states of one connection.
///
/// `Connecting` covers the transport handshake before the external
/// authenticator has yielded an identity; a `Session` value exists only
/// from `Authenticated` on. `Closed` is terminal.
#[derive(Clone, Copy, Debug, PartialEq, Eq, Structural)]
pub enum SessionState {
    Connecting,
    Authenticated,
    Active,
    Closing,
    Closed,
}

/// One decoded inbound frame, as the transport hands it to the hub.
///
/// A frame whose command type is unrecognized, or which cannot be
/// decoded at all, arrives as `Undecodable` and is ignored without
/// error (forward-compatible decoding); a close frame ends the inbound
/// loop.
pub enum Frame {
    Msg(WsMessage),
    Undecodable,
    Close,
}

/// The presence event a session's activation broadcasts.
pub open spec fn online_event(u: UserId) -> WsMessage {
    WsMessage::UserOnline { user_id: u }
}

/// The presence event a session's teardown broadcasts.
pub open spec fn offline_event(u: UserId) -> WsMessage {
    WsMessage::UserOffline { user_id: u }
}

/// The ephemeral state of one open connection belonging to one
/// authenticated user. `epoch` is the registration this session
/// installed; a later session of the same identity supersedes it, and
/// teardown then leaves the successor's registration alone.
pub struct Session {
    pub user: UserId,
    pub state: SessionState,
    pub epoch: u64,
}

impl Session {
    /// A session for a connection whose identity the external
    /// authenticator has verified; without that, no session exists.
    pub fn new(user: UserId) -> (r: Session)
        ensures
            r.user == user,
            r.state == SessionState::Authenticated,
    {
        Session { user, state: SessionState::Authenticated, epoch: 0 }
    }

    /// Enters `Active`: installs a fresh outbound queue of bound
    /// `capacity` (superseding any earlier registration for the same
    /// identity) and broadcasts exactly one online presence event, which
    /// lands once in every accepting queue, the fresh one included. The
    /// session keeps the registration's epoch to recognize its own entry
    /// at teardown.
    pub fn activate(&mut self, ws: &mut WsState, capacity: usize)
        requires
            old(self).state == SessionState::Authenticated,
            old(ws).wf(),
            old(ws).next_epoch < u64::MAX,
        ensures
            final(self).user == old(self).user,
            final(self).state == SessionState::Active,
            final(self).epoch == old(ws).next_epoch,
            final(ws).wf(),
            final(ws).next_epoch == old(ws).next_epoch + 1,
            final(ws).registered(old(self).user),
            final(ws).entry_of(old(self).user).epoch == final(self).epoch,
            final(ws).queue(old(self).user) == if capacity > 0 {
                seq![online_event(old(self).user)]
            } else {
                Seq::<WsMessage>::empty()
            },
            !final(ws).entry_of(old(self).user).closed,
            final(ws).entry_of(old(self).user).capacity == capacity,
            forall|v: UserId| v != old(self).user
                ==> #[trigger] final(ws).registered(v) == old(ws).registered(v),
            forall|v: UserId| v != old(self).user && old(ws).registered(v)
                ==> if entry_accepts(#[trigger] old(ws).entry_of(v)) {
                    entry_pushed(old(ws).entry_of(v), final(ws).entry_of(v),
                        online_event(old(self).user))
                } else {
                    final(ws).entry_of(v) == old(ws).entry_of(v)
                },
    {
        let u = self.user;
        let ghost pre = *ws;
        let epoch = ws.register(u, capacity);
        let ghost mid = *ws;
        ws.broadcast(&WsMessage::UserOnline { user_id: u });
        proof {
            mid.lemma_index_unique(u, mid.entry_index(u));
            let j = mid.entry_index(u);
            assert(ws.entry_index(u) == j);
            assert(mid.entries@[j] == mid.entry_of(u));
            if capacity > 0 {
                assert(entry_accepts(mid.entries@[j]));
                assert(entry_pushed(mid.entries@[j], ws.entries@[j], online_event(u)));
                assert(ws.queue(u) =~= seq![online_event(u)]);
            } else {
                assert(!entry_accepts(mid.entries@[j]));
                assert(ws.entries@[j] == mid.entries@[j]);
            }
            assert forall|v: UserId| v != u && pre.registered(v)
                implies (if entry_accepts(pre.entry_of(v)) {
                    entry_pushed(pre.entry_of(v), final(ws).entry_of(v), online_event(u))
                } else {
                    final(ws).entry_of(v) == pre.entry_of(v)
                }) by {
                assert(mid.registered(v));
                assert(mid.entry_of(v) == pre.entry_of(v));
                let k = mid.entry_index(v);
                mid.lemma_index_unique(v, k);
                assert(ws.entry_index(v) == k);
                assert(mid.entries@[k] == mid.entry_of(v));
                assert(ws.entry_of(v) == ws.entries@[k]);
            }
        }
        self.state = SessionState::Active;
        self.epoch = epoch;
    }

    /// Decides one inbound frame while `Active`. `Ping` answers `Pong`
    /// to the session's own channel; a signaling payload is relayed to
    /// its addressee with the envelope's origin overwritten by this
    /// session's authenticated identity, whatever sender the inbound
    /// frame claimed; every other recognized or unrecognized command is
    /// ignored; a close frame moves the session to `Closing`. Returns
    /// whether the inbound loop should continue.
    pub fn on_frame(&mut self, ws: &mut WsState, frame: Frame) -> (cont: bool)
        requires
            old(self).state == SessionState::Active,
            old(ws).wf(),
        ensures
            final(self).user == old(self).user,
            final(self).epoch == old(self).epoch,
            final(ws).wf(),
            final(ws).next_epoch == old(ws).next_epoch,
            cont == !(frame matches Frame::Close),
            match frame {
                Frame::Close => final(self).state == SessionState::Closing
                    && *final(ws) == *old(ws),
                Frame::Undecodable => final(self).state == SessionState::Active
                    && *final(ws) == *old(ws),
                Frame::Msg(m) => final(self).state == SessionState::Active && match m {
                    WsMessage::Ping => sent(*old(ws), *final(ws), old(self).user,
                        WsMessage::Pong),
                    WsMessage::WebRTCSignal { from_user_id, to_user_id, signal } => sent(
                        *old(ws),
                        *final(ws),
                        to_user_id,
                        WsMessage::WebRTCSignal {
                            from_user_id: old(self).user,
                            to_user_id: to_user_id,
                            signal: signal,
                        },
                    ),
                    _ => *final(ws) == *old(ws),
                },
            },
    {
        match frame {
            Frame::Close => {
                self.state = SessionState::Closing;
                false
            },
            Frame::Undecodable => true,
            Frame::Msg(m) => {
                match m {
                    WsMessage::Ping => {
                        ws.send_to_user(self.user, WsMessage::Pong);
                    },
                    WsMessage::WebRTCSignal { from_user_id: _, to_user_id, signal } => {
                        relay_signal(ws, self.user, to_user_id, signal);
                    },
                    _ => {},
                }
                true
            },
        }
    }

    /// Tears the session down. From `Active` or `Closing` — reached
    /// exactly once per activation, however the two loops ended — it
    /// removes its own registration (a successor's registration for the
    /// same identity, recognized by its later epoch, is left standing),
    /// broadcasts exactly one offline presence event to every accepting
    /// queue, then rests at `Closed`. In every other state, the terminal
    /// `Closed` included, it changes nothing at all, so a second
    /// teardown never duplicates the offline broadcast.
    pub fn teardown(&mut self, ws: &mut WsState)
        requires
            old(ws).wf(),
        ensures
            final(self).user == old(self).user,
            final(self).epoch == old(self).epoch,
            final(ws).wf(),
            final(ws).next_epoch == old(ws).next_epoch,
            (old(self).state == SessionState::Active || old(self).state == SessionState::Closing)
                ==> ({
                &&& final(self).state == SessionState::Closed
                &&& old(ws).registered(old(self).user)
                    && old(ws).entry_of(old(self).user).epoch == old(self).epoch
                    ==> !final(ws).registered(old(self).user)
                &&& !(old(ws).registered(old(self).user)
                    && old(ws).entry_of(old(self).user).epoch == old(self).epoch) ==> ({
                    // superseded or never registered: the current
                    // registration, if any, stays and hears the offline
                    // event like any other channel
                    &&& final(ws).registered(old(self).user) == old(ws).registered(old(self).user)
                    &&& old(ws).registered(old(self).user)
                        ==> if entry_accepts(old(ws).entry_of(old(self).user)) {
                            entry_pushed(old(ws).entry_of(old(self).user),
                                final(ws).entry_of(old(self).user),
                                offline_event(old(self).user))
                        } else {
                            final(ws).entry_of(old(self).user) == old(ws).entry_of(old(self).user)
                        }
                })
                &&& forall|v: UserId| v != old(self).user
                    ==> #[trigger] final(ws).registered(v) == old(ws).registered(v)
                &&& forall|v: UserId| v != old(self).user && old(ws).registered(v)
                    ==> if entry_accepts(#[trigger] old(ws).entry_of(v)) {
                        entry_pushed(old(ws).entry_of(v), final(ws).entry_of(v),
                            offline_event(old(self).user))
                    } else {
                        final(ws).entry_of(v) == old(ws).entry_of(v)
                    }
            }),
            !(old(self).state == SessionState::Active || old(self).state == SessionState::Closing)
                ==> *final(self) == *old(self) && *final(ws) == *old(ws),
    {
        let live = self.state == SessionState::Active || self.state == SessionState::Closing;
        if !live {
            return;
        }
        let u = self.user;
        let ghost pre = *ws;
        ws.unregister_epoch(u, self.epoch);
        let ghost mid = *ws;
        ws.broadcast(&WsMessage::UserOffline { user_id: u });
        proof {
            let owned = pre.registered(u) && pre.entry_of(u).epoch == old(self).epoch;
            if owned {
                assert(!mid.registered(u));
                assert(!final(ws).registered(u));
            } else {
                assert(mid == pre);
                if pre.registered(u) {
                    let k = mid.entry_index(u);
                    mid.lemma_index_unique(u, k);
                    assert(ws.entry_index(u) == k);
                    assert(mid.entries@[k] == mid.entry_of(u));
                    assert(ws.entry_of(u) == ws.entries@[k]);
                }
            }
            assert forall|v: UserId| v != u && pre.registered(v)
                implies (if entry_accepts(pre.entry_of(v)) {
                    entry_pushed(pre.entry_of(v), final(ws).entry_of(v), offline_event(u))
                } else {
                    final(ws).entry_of(v) == pre.entry_of(v)
                }) by {
                assert(mid.registered(v));
                assert(mid.entry_of(v) == pre.entry_of(v));
                let k = mid.entry_index(v);
                mid.lemma_index_unique(v, k);
                assert(ws.entry_index(v) == k);
                assert(mid.entries@[k] == mid.entry_of(v));
                assert(ws.entry_of(v) == ws.entries@[k]);
            }
        }
        self.state = SessionState::Closed;
    }
}

} // verus!
