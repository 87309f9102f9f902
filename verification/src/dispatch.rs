//! The event dispatcher: classify one decoded event, validate it, decide the
//! reply to send, and hand the reply to a delivery port. A batch is
//! dispatched strictly in order, and a failure on one event never stops the
//! others.

use vstd::prelude::*;

use crate::events::Event;
use crate::events::MessageEvent;
use crate::events::MessageType;
use crate::handlers::handle_text_message;
use crate::handlers::is_single_text;
use crate::handlers::spec_text_reply;
use crate::messages::LineApiError;
use crate::messages::OutgoingMessage;
use crate::validation::ReplyTokenValidator;
use crate::validation::TextRules;
use crate::validation::TextValidator;
use crate::validation::ValidationError;
use crate::validation::spec_default_forbidden;
use crate::validation::spec_text_validate;
use crate::validation::spec_validate_reply_token;

verus! {

/// Why dispatching one event failed.
#[derive(Debug, Clone, PartialEq)]
pub enum DispatchError {
    /// The event's reply token failed validation; nothing was sent.
    InvalidToken(ValidationError),
    /// The delivery port refused the reply.
    DeliveryFailed(LineApiError),
}

/// What the dispatcher decided to do for one event.
#[derive(Debug, Clone, PartialEq)]
pub enum DispatchAction {
    /// Send `messages` correlated to `reply_token`.
    Reply { reply_token: String, messages: Vec<OutgoingMessage> },
    /// The event admits no reply; only telemetry is recorded.
    NoReply,
}

/// The port through which replies leave the library. Implementations carry
/// them to the platform; the dispatcher observes only success or failure.
pub trait DeliveryPort {
    /// Deliver `messages` correlated to `reply_token`.
    fn reply(&mut self, reply_token: &str, messages: &Vec<OutgoingMessage>) -> Result<
        (),
        LineApiError,
    >;
}

/// The text rules the dispatcher applies to message text.
pub open spec fn spec_dispatch_rules() -> TextRules {
    TextRules {
        max_length: 1000,
        min_length: 0,
        forbidden: spec_default_forbidden(),
        allow_empty: true,
    }
}

/// The decision owed for a message event: reject a bad reply token with no
/// reply at all, substitute a fixed refusal for invalid text, otherwise
/// answer per the command table; stickers and images get fixed
/// acknowledgments.
pub open spec fn spec_message_plan(
    e: MessageEvent,
    r: Result<DispatchAction, DispatchError>,
) -> bool {
    match spec_validate_reply_token(e.reply_token@) {
        Err(ve) => r == Err::<DispatchAction, DispatchError>(DispatchError::InvalidToken(ve)),
        Ok(_) => (r matches Ok(DispatchAction::Reply { reply_token, messages })
            && reply_token@ == e.reply_token@ && (match e.message {
            MessageType::Text { text } => {
                if spec_text_validate(spec_dispatch_rules(), text@) is Err {
                    is_single_text(messages@, "抱歉，您的訊息包含無效內容。"@)
                } else {
                    spec_text_reply(text@, messages@)
                }
            },
            MessageType::Sticker { .. } => is_single_text(messages@, "收到貼圖！"@),
            MessageType::Image { .. } => is_single_text(messages@, "收到圖片！"@),
        })),
    }
}

/// The decision owed for any event: messages go through `spec_message_plan`,
/// follows and joins get a fixed welcome, unfollows and leaves admit no
/// reply, and a postback is echoed.
pub open spec fn spec_event_plan(event: Event, r: Result<DispatchAction, DispatchError>) -> bool {
    match event {
        Event::Message(m) => spec_message_plan(m, r),
        Event::Follow(f) => (r matches Ok(DispatchAction::Reply { reply_token, messages })
            && reply_token@ == f.reply_token@ && is_single_text(
            messages@,
            "歡迎使用 LINE Bot！"@,
        )),
        Event::Unfollow(_) => r == Ok::<DispatchAction, DispatchError>(DispatchAction::NoReply),
        Event::Join(j) => (r matches Ok(DispatchAction::Reply { reply_token, messages })
            && reply_token@ == j.reply_token@ && is_single_text(
            messages@,
            "大家好！我是你們的 LINE Bot 助手！"@,
        )),
        Event::Leave(_) => r == Ok::<DispatchAction, DispatchError>(DispatchAction::NoReply),
        Event::Postback(p) => (r matches Ok(DispatchAction::Reply { reply_token, messages })
            && reply_token@ == p.reply_token@ && is_single_text(
            messages@,
            "收到 postback: "@ + p.postback.data@,
        )),
    }
}

/// Decide the reply for one message event, without delivering anything.
pub fn plan_message_event(event: &MessageEvent) -> (r: Result<DispatchAction, DispatchError>)
    ensures
        spec_message_plan(*event, r),
{
    match ReplyTokenValidator::validate(event.reply_token.as_str()) {
        Err(ve) => {
            return Err(DispatchError::InvalidToken(ve));
        },
        Ok(_) => {},
    }
    let validator: TextValidator = TextValidator::new().max_length(1000);
    proof {
        assert(validator@ == spec_dispatch_rules());
    }
    let mut messages: Vec<OutgoingMessage> = Vec::new();
    match &event.message {
        MessageType::Text { text } => {
            match validator.validate(text.as_str()) {
                Err(_) => {
                    messages.push(OutgoingMessage::text("抱歉，您的訊息包含無效內容。"));
                },
                Ok(_) => {
                    messages = handle_text_message(text.as_str());
                },
            }
        },
        MessageType::Sticker { .. } => {
            messages.push(OutgoingMessage::text("收到貼圖！"));
        },
        MessageType::Image { .. } => {
            messages.push(OutgoingMessage::text("收到圖片！"));
        },
    }
    Ok(DispatchAction::Reply {
        reply_token: String::from_str(event.reply_token.as_str()),
        messages,
    })
}

/// Classify one event and decide the reply to send, without delivering
/// anything.
pub fn plan_event(event: &Event) -> (r: Result<DispatchAction, DispatchError>)
    ensures
        spec_event_plan(*event, r),
{
    match event {
        Event::Message(message_event) => plan_message_event(message_event),
        Event::Follow(follow_event) => {
            let mut messages: Vec<OutgoingMessage> = Vec::new();
            messages.push(OutgoingMessage::text("歡迎使用 LINE Bot！"));
            Ok(DispatchAction::Reply {
                reply_token: String::from_str(follow_event.reply_token.as_str()),
                messages,
            })
        },
        Event::Unfollow(_) => Ok(DispatchAction::NoReply),
        Event::Join(join_event) => {
            let mut messages: Vec<OutgoingMessage> = Vec::new();
            messages.push(OutgoingMessage::text("大家好！我是你們的 LINE Bot 助手！"));
            Ok(DispatchAction::Reply {
                reply_token: String::from_str(join_event.reply_token.as_str()),
                messages,
            })
        },
        Event::Leave(_) => Ok(DispatchAction::NoReply),
        Event::Postback(postback_event) => {
            let mut messages: Vec<OutgoingMessage> = Vec::new();
            let mut msg: String = String::from_str("收到 postback: ");
            msg.append(postback_event.postback.data.as_str());
            messages.push(OutgoingMessage::Text { text: msg });
            Ok(DispatchAction::Reply {
                reply_token: String::from_str(postback_event.reply_token.as_str()),
                messages,
            })
        },
    }
}

/// The dispatch-time error an event is owed before any delivery: a message
/// event with an invalid reply token, nothing otherwise.
pub open spec fn spec_plan_error(event: Event) -> Option<DispatchError> {
    match event {
        Event::Message(m) => match spec_validate_reply_token(m.reply_token@) {
            Err(ve) => Some(DispatchError::InvalidToken(ve)),
            Ok(_) => None,
        },
        _ => None,
    }
}

/// The outcome owed for one dispatched event: a validation failure surfaces
/// as exactly its error; otherwise the event either succeeds or fails only
/// because the port refused the delivery; and an event that admits no reply
/// always succeeds.
pub open spec fn spec_dispatch_outcome(event: Event, r: Result<(), DispatchError>) -> bool {
    &&& match spec_plan_error(event) {
        Some(e) => r == Err::<(), DispatchError>(e),
        None => r is Ok || (r matches Err(DispatchError::DeliveryFailed(_))),
    }
    &&& (event matches Event::Unfollow(_) || event matches Event::Leave(_)) ==> r is Ok
}

/// Dispatch one event: decide its reply and deliver it through `port`. The
/// port is called at most once, only with a planned reply.
pub fn dispatch_event<P: DeliveryPort>(event: &Event, port: &mut P) -> (r: Result<
    (),
    DispatchError,
>)
    ensures
        spec_dispatch_outcome(*event, r),
{
    match plan_event(event) {
        Err(e) => Err(e),
        Ok(DispatchAction::NoReply) => Ok(()),
        Ok(DispatchAction::Reply { reply_token, messages }) => {
            if messages.len() > 0 {
                match port.reply(reply_token.as_str(), &messages) {
                    Ok(_) => Ok(()),
                    Err(api_error) => Err(DispatchError::DeliveryFailed(api_error)),
                }
            } else {
                Ok(())
            }
        },
    }
}

/// Dispatch a batch strictly in arrival order. Every event is attempted: an
/// error on one is recorded in its slot and does not stop the rest.
pub fn dispatch_batch<P: DeliveryPort>(events: &Vec<Event>, port: &mut P) -> (results: Vec<
    Result<(), DispatchError>,
>)
    ensures
        results@.len() == events@.len(),
        forall|i: int|
            0 <= i < events@.len() ==> spec_dispatch_outcome(events@[i], #[trigger] results@[i]),
{
    let n: usize = events.len();
    let mut results: Vec<Result<(), DispatchError>> = Vec::new();
    let mut i: usize = 0;
    while i < n
        invariant
            i <= n,
            n == events@.len(),
            results@.len() == i,
            forall|j: int|
                0 <= j < i ==> spec_dispatch_outcome(events@[j], #[trigger] results@[j]),
        decreases n - i,
    {
        let r: Result<(), DispatchError> = dispatch_event(&events[i], port);
        results.push(r);
        i += 1;
    }
    results
}

} // verus!
