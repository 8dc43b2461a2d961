//! Notifications about users coming and going.

use crate::models::common::RPCNotification;
use crate::models::markers::UserId;
use vstd::prelude::*;

verus! {

/// Whether a user joined or left.
#[derive(Debug, Clone, Copy, PartialEq, Eq, Structural)]
pub enum UserConnectionUpdateMessage {
    UserConnected,
    UserDisconnected,
}

/// Notification that a user joined or left.
#[derive(Debug, Clone, Copy, PartialEq, Eq)]
pub struct UserConnectionUpdate {
    pub user_id: UserId,
    pub message: UserConnectionUpdateMessage,
}

impl RPCNotification for UserConnectionUpdate {
    open spec fn wire_key() -> Seq<char> {
        "UserConnectionUpdate"@
    }

    fn key() -> (k: &'static str) {
        "UserConnectionUpdate"
    }
}

} // verus!
