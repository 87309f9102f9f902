//! The reply-text logic: the fixed command vocabulary a text message is
//! matched against, and the pluggable handler interface around it. Matching
//! happens on the trimmed, lowercased text; the echo commands work on the
//! text as received.

use vstd::prelude::*;

use crate::dispatch::DispatchError;
use crate::events::Event;
use crate::events::MessageType;
use crate::events::Source;
use crate::messages::OutgoingMessage;
use crate::text::lower_of;
use crate::text::spec_has_prefix;
use crate::text::str_eq;
use crate::text::str_has_prefix;
use crate::text::to_lowercase;
use crate::text::trim;
use crate::text::trim_of;

verus! {

/// Relies on `chrono::Utc::now`: the current UTC time, formatted. Nothing is
/// assumed about the value; it depends on the clock.
#[verifier::external_body]
fn current_time_string() -> String {
    chrono::Utc::now().format("%Y-%m-%d %H:%M:%S UTC").to_string()
}

/// `r` is exactly one text message with the characters `t`.
pub open spec fn is_single_text(r: Seq<OutgoingMessage>, t: Seq<char>) -> bool {
    r.len() == 1 && (r[0] matches OutgoingMessage::Text { text } && text@ == t)
}

/// `r` is exactly one sticker message with the given package and sticker.
pub open spec fn is_single_sticker(r: Seq<OutgoingMessage>, p: Seq<char>, s: Seq<char>) -> bool {
    r.len() == 1 && (r[0] matches OutgoingMessage::Sticker { package_id, sticker_id }
        && package_id@ == p && sticker_id@ == s)
}

/// The greeting commands.
pub open spec fn spec_is_greeting(cmd: Seq<char>) -> bool {
    cmd == "hello"@ || cmd == "hi"@ || cmd == "你好"@ || cmd == "哈囉"@
}

/// The help commands.
pub open spec fn spec_is_help(cmd: Seq<char>) -> bool {
    cmd == "help"@ || cmd == "幫助"@ || cmd == "說明"@
}

/// The time commands.
pub open spec fn spec_is_time(cmd: Seq<char>) -> bool {
    cmd == "time"@ || cmd == "時間"@
}

/// The sticker commands.
pub open spec fn spec_is_sticker(cmd: Seq<char>) -> bool {
    cmd == "sticker"@ || cmd == "貼圖"@
}

/// The reply owed for the text `raw`: the command table applied to the
/// trimmed lowercased text, the echo prefixes applied to the text as
/// received, and a fixed fallback. The time reply carries the clock's value,
/// so only its prefix is pinned down.
pub open spec fn spec_text_reply(raw: Seq<char>, r: Seq<OutgoingMessage>) -> bool {
    let cmd = trim_of(lower_of(raw));
    if spec_is_greeting(cmd) {
        is_single_text(r, "你好！有什麼可以幫助你的嗎？"@)
    } else if spec_is_help(cmd) {
        is_single_text(
            r,
            "可用指令：\n• hello - 打招呼\n• help - 顯示說明\n• time - 顯示目前時間\n• sticker - 發送貼圖"@,
        )
    } else if spec_is_time(cmd) {
        r.len() == 1 && (r[0] matches OutgoingMessage::Text { text } && spec_has_prefix(
            text@,
            "目前時間："@,
        ))
    } else if spec_is_sticker(cmd) {
        is_single_sticker(r, "1"@, "1"@)
    } else if spec_has_prefix(raw, "echo "@) {
        is_single_text(r, "回音："@ + raw.skip("echo "@.len() as int))
    } else if spec_has_prefix(raw, "回音 "@) {
        is_single_text(r, "回音："@ + raw.skip("回音 "@.len() as int))
    } else {
        is_single_text(r, "我不太理解你的意思，試試輸入 'help' 查看可用指令。"@)
    }
}

/// Answer one text message per the fixed command vocabulary.
pub fn handle_text_message(text: &str) -> (r: Vec<OutgoingMessage>)
    ensures
        spec_text_reply(text@, r@),
{
    let lowered: String = to_lowercase(text);
    let trimmed: &str = trim(lowered.as_str());
    let mut r: Vec<OutgoingMessage> = Vec::new();
    if str_eq(trimmed, "hello") || str_eq(trimmed, "hi") || str_eq(trimmed, "你好") || str_eq(
        trimmed,
        "哈囉",
    ) {
        r.push(OutgoingMessage::text("你好！有什麼可以幫助你的嗎？"));
    } else if str_eq(trimmed, "help") || str_eq(trimmed, "幫助") || str_eq(trimmed, "說明") {
        r.push(
            OutgoingMessage::text(
                "可用指令：\n• hello - 打招呼\n• help - 顯示說明\n• time - 顯示目前時間\n• sticker - 發送貼圖",
            ),
        );
    } else if str_eq(trimmed, "time") || str_eq(trimmed, "時間") {
        let now: String = current_time_string();
        let mut msg: String = String::from_str("目前時間：");
        msg.append(now.as_str());
        proof {
            assert(msg@.subrange(0, "目前時間："@.len() as int) =~= "目前時間："@);
        }
        r.push(OutgoingMessage::Text { text: msg });
    } else if str_eq(trimmed, "sticker") || str_eq(trimmed, "貼圖") {
        r.push(OutgoingMessage::sticker("1", "1"));
    } else if str_has_prefix(text, "echo ") {
        proof {
            reveal_strlit("echo ");
        }
        let n: usize = text.unicode_len();
        let rest: &str = text.substring_char(5, n);
        let mut msg: String = String::from_str("回音：");
        msg.append(rest);
        proof {
            assert(rest@ =~= text@.skip("echo "@.len() as int));
        }
        r.push(OutgoingMessage::Text { text: msg });
    } else if str_has_prefix(text, "回音 ") {
        proof {
            reveal_strlit("回音 ");
        }
        let n: usize = text.unicode_len();
        let rest: &str = text.substring_char(3, n);
        let mut msg: String = String::from_str("回音：");
        msg.append(rest);
        proof {
            assert(rest@ =~= text@.skip("回音 "@.len() as int));
        }
        r.push(OutgoingMessage::Text { text: msg });
    } else {
        r.push(OutgoingMessage::text("我不太理解你的意思，試試輸入 'help' 查看可用指令。"));
    }
    r
}

/// The user id an event source names, or `"unknown"` when it names none.
pub open spec fn spec_user_id_of_source(s: Source) -> Seq<char> {
    match s {
        Source::User { user_id } => user_id@,
        Source::Group { group_id: _, user_id: Some(u) } => u@,
        Source::Room { room_id: _, user_id: Some(u) } => u@,
        _ => "unknown"@,
    }
}

/// The user id to attribute an event to, for telemetry.
pub fn get_user_id_from_source(source: &Source) -> (r: String)
    ensures
        r@ == spec_user_id_of_source(*source),
{
    match source {
        Source::User { user_id } => String::from_str(user_id.as_str()),
        Source::Group { group_id: _, user_id: Some(user_id) } => String::from_str(user_id.as_str()),
        Source::Room { room_id: _, user_id: Some(user_id) } => String::from_str(user_id.as_str()),
        _ => String::from_str("unknown"),
    }
}

/// The replies the default handler owes: echo text back with a fixed prefix,
/// acknowledge other message kinds, welcome a new follower, stay silent for
/// everything else.
pub open spec fn spec_default_handler_reply(event: Event, r: Seq<OutgoingMessage>) -> bool {
    match event {
        Event::Message(m) => match m.message {
            MessageType::Text { text } => is_single_text(r, "你說："@ + text@),
            _ => is_single_text(r, "收到訊息！"@),
        },
        Event::Follow(_) => is_single_text(r, "歡迎關注！"@),
        _ => r.len() == 0,
    }
}

/// The default handler's replies; carries the contract its trait impl
/// follows.
pub fn default_event_reply(event: &Event) -> (r: Vec<OutgoingMessage>)
    ensures
        spec_default_handler_reply(*event, r@),
{
    let mut r: Vec<OutgoingMessage> = Vec::new();
    match event {
        Event::Message(message_event) => match &message_event.message {
            MessageType::Text { text } => {
                let mut msg: String = String::from_str("你說：");
                msg.append(text.as_str());
                r.push(OutgoingMessage::Text { text: msg });
            },
            _ => {
                r.push(OutgoingMessage::text("收到訊息！"));
            },
        },
        Event::Follow(_) => {
            r.push(OutgoingMessage::text("歡迎關注！"));
        },
        _ => {},
    }
    r
}

/// A pluggable policy that turns one event into reply messages.
pub trait MessageHandler {
    /// The replies owed for `event`; the policy is the implementor's.
    fn handle_event(&self, event: &Event) -> Result<Vec<OutgoingMessage>, DispatchError>;
}

/// The built-in handler, `default_event_reply` as a `MessageHandler`.
pub struct DefaultMessageHandler;

impl MessageHandler for DefaultMessageHandler {
    fn handle_event(&self, event: &Event) -> Result<Vec<OutgoingMessage>, DispatchError> {
        Ok(default_event_reply(event))
    }
}

} // verus!
