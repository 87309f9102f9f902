//! The inbound wire model: one webhook request carries an ordered batch of
//! events, each a tagged variant with its reply token, timestamp, source, and
//! mode. Decoding from JSON happens outside the library; these types hold the
//! decoded values.

use vstd::prelude::*;

verus! {

/// One webhook request: the destination bot and its events, in arrival
/// order. The order is significant: replies are delivered per event.
#[derive(Debug, Clone, PartialEq)]
pub struct WebhookRequest {
    pub destination: String,
    pub events: Vec<Event>,
}

/// An inbound event, one of the six kinds the platform sends.
#[derive(Debug, Clone, PartialEq)]
pub enum Event {
    Message(MessageEvent),
    Follow(FollowEvent),
    Unfollow(UnfollowEvent),
    Join(JoinEvent),
    Leave(LeaveEvent),
    Postback(PostbackEvent),
}

/// A message from a user, with the token needed to reply to it.
#[derive(Debug, Clone, PartialEq)]
pub struct MessageEvent {
    pub reply_token: String,
    pub message: MessageType,
    pub timestamp: u64,
    pub source: Source,
    pub mode: String,
}

/// A user started following the bot.
#[derive(Debug, Clone, PartialEq)]
pub struct FollowEvent {
    pub reply_token: String,
    pub timestamp: u64,
    pub source: Source,
    pub mode: String,
}

/// A user stopped following the bot; no reply is possible.
#[derive(Debug, Clone, PartialEq)]
pub struct UnfollowEvent {
    pub timestamp: u64,
    pub source: Source,
    pub mode: String,
}

/// The bot joined a group or room.
#[derive(Debug, Clone, PartialEq)]
pub struct JoinEvent {
    pub reply_token: String,
    pub timestamp: u64,
    pub source: Source,
    pub mode: String,
}

/// The bot left a group or room; no reply is possible.
#[derive(Debug, Clone, PartialEq)]
pub struct LeaveEvent {
    pub timestamp: u64,
    pub source: Source,
    pub mode: String,
}

/// A postback action carrying the payload of a button the user pressed.
#[derive(Debug, Clone, PartialEq)]
pub struct PostbackEvent {
    pub reply_token: String,
    pub postback: PostbackData,
    pub timestamp: u64,
    pub source: Source,
    pub mode: String,
}

/// The payload of a postback action.
#[derive(Debug, Clone, PartialEq)]
pub struct PostbackData {
    pub data: String,
}

/// The payload of a message event.
#[derive(Debug, Clone, PartialEq)]
pub enum MessageType {
    Text { text: String },
    Sticker { sticker_id: String, package_id: String },
    Image { content_provider: ContentProvider },
}

/// Where an image's content is hosted.
#[derive(Debug, Clone, PartialEq)]
pub enum ContentProvider {
    Line,
    External { original_content_url: String },
}

/// Who sent an event: a user directly, or a member of a group or room.
#[derive(Debug, Clone, PartialEq)]
pub enum Source {
    User { user_id: String },
    Group { group_id: String, user_id: Option<String> },
    Room { room_id: String, user_id: Option<String> },
}

} // verus!
