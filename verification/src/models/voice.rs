//! Voice channels and screencasts: listings, updates, and the endpoints
//! that join and leave them.

use crate::models::common::{RPCMethod, RPCNotification};
use crate::models::markers::{UserId, VoiceChannelId};
use vstd::prelude::*;

verus! {

/// What a member of a voice channel has switched on or off.
#[derive(Debug, Clone, Copy, PartialEq, Eq, Structural)]
pub struct VoiceChannelUserState {
    pub is_mic_off: bool,
    pub is_sound_off: bool,
    pub is_streaming: bool,
}

impl VoiceChannelUserState {
    /// Everything on, nothing streamed.
    pub fn default() -> (s: Self)
        ensures
            !s.is_mic_off && !s.is_sound_off && !s.is_streaming,
    {
        VoiceChannelUserState { is_mic_off: false, is_sound_off: false, is_streaming: false }
    }
}

/// A member of a voice channel as the server lists it.
#[derive(Debug, Clone)]
pub struct VoiceChannelMember {
    pub id: UserId,
    pub name: String,
    pub state: VoiceChannelUserState,
}

/// A voice channel as the server lists it.
#[derive(Debug, Clone)]
pub struct VoiceChannel {
    pub id: VoiceChannelId,
    pub name: String,
    pub members: Vec<VoiceChannelMember>,
}

/// What changed in a voice channel.
#[derive(Debug, Clone, Copy, PartialEq, Eq)]
pub enum VoiceChannelUpdateMessage {
    UserConnected(UserId),
    UserDisconnected(UserId),
    UserStateUpdated((UserId, VoiceChannelUserState)),
}

/// Notification of a change in a voice channel.
#[derive(Debug, Clone, Copy, PartialEq, Eq)]
pub struct VoiceChannelUpdate {
    pub channel_id: VoiceChannelId,
    pub message: VoiceChannelUpdateMessage,
}

#[derive(Debug, Clone, Copy, PartialEq, Eq)]
pub struct JoinVoiceChannelPayload {
    pub channel_id: VoiceChannelId,
}

#[derive(Debug, Clone, Copy, PartialEq, Eq, Structural)]
pub enum JoinVoiceChannelError {
    DoesNotExist,
    ChannelIsFull,
}

#[derive(Debug, Clone, Copy, PartialEq, Eq, Structural)]
pub enum GetVoiceChannelsError {
    Unauthorized,
}

#[derive(Debug, Clone, Copy, PartialEq, Eq, Structural)]
pub enum HostScreenCastError {
    NotConnectedToVoiceChannel,
}

#[derive(Debug, Clone, Copy, PartialEq, Eq)]
pub struct JoinScreenCastRequest {
    pub user_id: UserId,
    pub mtu: u32,
}

#[derive(Debug, Clone, Copy, PartialEq, Eq, Structural)]
pub enum WatchScreenCastError {
    NotConnectedToVoiceChannel,
    InvalidHostId,
    NoSuchStreamAvailable,
}

#[derive(Debug, Clone, Copy, PartialEq, Eq)]
pub struct LeaveScreenCastRequest {
    pub user_id: UserId,
}

#[derive(Debug, Clone, Copy, PartialEq, Eq, Structural)]
pub struct JoinVoiceChannel {}

#[derive(Debug, Clone, Copy, PartialEq, Eq, Structural)]
pub struct LeaveVoiceChannel {}

#[derive(Debug, Clone, Copy, PartialEq, Eq, Structural)]
pub struct UpdateVoiceChannelUserState {}

#[derive(Debug, Clone, Copy, PartialEq, Eq, Structural)]
pub struct GetVoiceChannels {}

#[derive(Debug, Clone, Copy, PartialEq, Eq, Structural)]
pub struct StartScreenCast {}

#[derive(Debug, Clone, Copy, PartialEq, Eq, Structural)]
pub struct StopScreenCast {}

#[derive(Debug, Clone, Copy, PartialEq, Eq, Structural)]
pub struct JoinScreenCast {}

#[derive(Debug, Clone, Copy, PartialEq, Eq, Structural)]
pub struct LeaveScreenCast {}

impl RPCMethod for JoinVoiceChannel {
    open spec fn wire_key() -> Seq<char> {
        "JoinVoiceChannel"@
    }

    fn key() -> (k: &'static str) {
        "JoinVoiceChannel"
    }
}

impl RPCMethod for LeaveVoiceChannel {
    open spec fn wire_key() -> Seq<char> {
        "LeaveVoiceChannel"@
    }

    fn key() -> (k: &'static str) {
        "LeaveVoiceChannel"
    }
}

impl RPCMethod for UpdateVoiceChannelUserState {
    open spec fn wire_key() -> Seq<char> {
        "UpdateVoiceChannelUserState"@
    }

    fn key() -> (k: &'static str) {
        "UpdateVoiceChannelUserState"
    }
}

impl RPCMethod for GetVoiceChannels {
    open spec fn wire_key() -> Seq<char> {
        "GetVoiceChannels"@
    }

    fn key() -> (k: &'static str) {
        "GetVoiceChannels"
    }
}

impl RPCMethod for StartScreenCast {
    open spec fn wire_key() -> Seq<char> {
        "StartScreenCast"@
    }

    fn key() -> (k: &'static str) {
        "StartScreenCast"
    }
}

impl RPCMethod for StopScreenCast {
    open spec fn wire_key() -> Seq<char> {
        "StopScreenCast"@
    }

    fn key() -> (k: &'static str) {
        "StopScreenCast"
    }
}

impl RPCMethod for JoinScreenCast {
    open spec fn wire_key() -> Seq<char> {
        "JoinScreenCast"@
    }

    fn key() -> (k: &'static str) {
        "JoinScreenCast"
    }
}

impl RPCMethod for LeaveScreenCast {
    open spec fn wire_key() -> Seq<char> {
        "LeaveScreenCast"@
    }

    fn key() -> (k: &'static str) {
        "LeaveScreenCast"
    }
}


impl RPCNotification for VoiceChannelUpdate {
    open spec fn wire_key() -> Seq<char> {
        "VoiceChannelUpdate"@
    }

    fn key() -> (k: &'static str) {
        "VoiceChannelUpdate"
    }
}

} // verus!
