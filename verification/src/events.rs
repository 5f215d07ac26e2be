//! The tagged event union carried over a user's live channel.

use vstd::prelude::*;
use crate::ids::UserId;

verus! {

/// One event on a live channel, a closed sum with one variant per event
/// kind. Every consumption site matches exhaustively, so adding a variant
/// is a compile-time-checked change everywhere it is consumed.
///
/// The transport layer serializes these as a JSON object with a `type`
/// discriminator; unknown incoming `type` values decode to no event and
/// are ignored (forward compatibility), which the transport handles
/// before the hub sees a frame.
#[derive(Clone, Debug, PartialEq)]
pub enum WsMessage {
    FriendAdded { friend_id: UserId, friend_username: String, friend_code: String },
    FriendRemoved { friend_id: UserId },
    UserOnline { user_id: UserId },
    UserOffline { user_id: UserId },
    WebRTCSignal { from_user_id: UserId, to_user_id: UserId, signal: String },
    MessageReceived { message_id: u64, sender_id: UserId, content: String, timestamp: i64 },
    Ping,
    Pong,
}

impl WsMessage {
    /// A duplicate equal to `self`, for fanning one event out to many
    /// queues.
    pub fn dup(&self) -> (r: WsMessage)
        ensures
            r == *self,
    {
        match self {
            WsMessage::FriendAdded { friend_id, friend_username, friend_code } => {
                WsMessage::FriendAdded {
                    friend_id: *friend_id,
                    friend_username: friend_username.clone(),
                    friend_code: friend_code.clone(),
                }
            },
            WsMessage::FriendRemoved { friend_id } => {
                WsMessage::FriendRemoved { friend_id: *friend_id }
            },
            WsMessage::UserOnline { user_id } => {
                WsMessage::UserOnline { user_id: *user_id }
            },
            WsMessage::UserOffline { user_id } => {
                WsMessage::UserOffline { user_id: *user_id }
            },
            WsMessage::WebRTCSignal { from_user_id, to_user_id, signal } => {
                WsMessage::WebRTCSignal {
                    from_user_id: *from_user_id,
                    to_user_id: *to_user_id,
                    signal: signal.clone(),
                }
            },
            WsMessage::MessageReceived { message_id, sender_id, content, timestamp } => {
                WsMessage::MessageReceived {
                    message_id: *message_id,
                    sender_id: *sender_id,
                    content: content.clone(),
                    timestamp: *timestamp,
                }
            },
            WsMessage::Ping => WsMessage::Ping,
            WsMessage::Pong => WsMessage::Pong,
        }
    }
}

} // verus!
