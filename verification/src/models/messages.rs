//! Text messages.

use crate::models::markers::{GroupId, MediaId, MsgId, TextChannelId, UserId};
use vstd::prelude::*;

verus! {

/// Where a text message goes.
#[derive(Debug, Clone, Copy, PartialEq, Eq)]
pub enum TextMessageChannel {
    TextChannel(TextChannelId),
    Direct(UserId),
    GroupChannel(GroupId),
}

/// A quoted message.
#[derive(Debug, Clone)]
pub struct MessageReply {
    pub reply_to: MsgId,
    /// Full copy of the quoted part, because the original message can change.
    pub reply_text: String,
}

/// The content of a text message.
#[derive(Debug, Clone)]
pub struct MessageContent {
    pub attached_media: Vec<MediaId>,
    pub reply: Option<MessageReply>,
    pub content: String,
}

/// A text message to send.
#[derive(Debug, Clone)]
pub struct SendMessagePayload {
    pub content: MessageContent,
    pub destination: TextMessageChannel,
}

} // verus!
