use linebot_rs::messages::Action;
use linebot_rs::messages::OutgoingMessage;
use linebot_rs::messages::ReplyMessageRequest;
use linebot_rs::messages::TemplateType;

#[test]
fn text_constructor_builds_text_variant() {
    let m = OutgoingMessage::text("hello there");
    assert_eq!(m, OutgoingMessage::Text { text: "hello there".to_string() });
}

#[test]
fn sticker_constructor_builds_sticker_variant() {
    let m = OutgoingMessage::sticker("11537", "52002734");
    assert_eq!(
        m,
        OutgoingMessage::Sticker {
            package_id: "11537".to_string(),
            sticker_id: "52002734".to_string(),
        }
    );
}

#[test]
fn reply_request_carries_messages_in_order() {
    let request = ReplyMessageRequest {
        reply_token: "valid_reply_token_123".to_string(),
        messages: vec![
            OutgoingMessage::text("first"),
            OutgoingMessage::Template {
                alt_text: "menu".to_string(),
                template: TemplateType::Buttons {
                    text: "pick one".to_string(),
                    actions: vec![Action::Message {
                        label: "hi".to_string(),
                        text: "hello".to_string(),
                    }],
                    thumbnail_image_url: None,
                    image_aspect_ratio: None,
                    image_size: None,
                    image_background_color: None,
                    title: None,
                },
            },
        ],
        notification_disabled: None,
    };
    assert_eq!(request.messages.len(), 2);
    assert_eq!(request.messages[0], OutgoingMessage::Text { text: "first".to_string() });
}
