//! The outbound wire model: the messages a reply can carry, the request
//! bodies of the platform's messaging endpoints, and the error shape those
//! endpoints answer with. Serialization happens outside the library.

use vstd::prelude::*;

verus! {

/// One outgoing message.
#[derive(Debug, Clone, PartialEq)]
pub enum OutgoingMessage {
    Text { text: String },
    Sticker { package_id: String, sticker_id: String },
    Template { alt_text: String, template: TemplateType },
}

/// A template message layout; only the buttons layout is supported.
#[derive(Debug, Clone, PartialEq)]
pub enum TemplateType {
    Buttons {
        text: String,
        actions: Vec<Action>,
        thumbnail_image_url: Option<String>,
        image_aspect_ratio: Option<String>,
        image_size: Option<String>,
        image_background_color: Option<String>,
        title: Option<String>,
    },
}

/// One action offered by a template message.
#[derive(Debug, Clone, PartialEq)]
pub enum Action {
    Message { label: String, text: String },
    Postback { label: String, data: String, display_text: Option<String> },
    Uri { label: String, uri: String },
}

/// The body of a reply-endpoint request.
#[derive(Debug, Clone, PartialEq)]
pub struct ReplyMessageRequest {
    pub reply_token: String,
    pub messages: Vec<OutgoingMessage>,
    pub notification_disabled: Option<bool>,
}

/// The body of a push-endpoint request.
#[derive(Debug, Clone, PartialEq)]
pub struct PushMessageRequest {
    pub to: String,
    pub messages: Vec<OutgoingMessage>,
    pub notification_disabled: Option<bool>,
}

/// The body of a multicast-endpoint request.
#[derive(Debug, Clone, PartialEq)]
pub struct MulticastMessageRequest {
    pub to: Vec<String>,
    pub messages: Vec<OutgoingMessage>,
    pub notification_disabled: Option<bool>,
}

/// The body of an error answer from the platform.
#[derive(Debug, Clone, PartialEq)]
pub struct ApiResponse {
    pub message: Option<String>,
    pub details: Option<Vec<ApiError>>,
}

/// One detail line of an error answer.
#[derive(Debug, Clone, PartialEq)]
pub struct ApiError {
    pub message: String,
    pub property: String,
}

/// A failure reported by the platform's API or by the client that talks to
/// it.
#[derive(Debug, Clone, PartialEq)]
pub struct LineApiError {
    pub message: String,
    pub status_code: Option<u16>,
}

impl OutgoingMessage {
    /// A plain text message.
    pub fn text(text: &str) -> (r: OutgoingMessage)
        ensures
            (r matches OutgoingMessage::Text { text: t } && t@ == text@),
    {
        OutgoingMessage::Text { text: String::from_str(text) }
    }

    /// A sticker message.
    pub fn sticker(package_id: &str, sticker_id: &str) -> (r: OutgoingMessage)
        ensures
            (r matches OutgoingMessage::Sticker { package_id: p, sticker_id: s } && p@
                == package_id@ && s@ == sticker_id@),
    {
        OutgoingMessage::Sticker {
            package_id: String::from_str(package_id),
            sticker_id: String::from_str(sticker_id),
        }
    }
}

} // verus!
