use linebot_rs::events::Event;
use linebot_rs::events::MessageEvent;
use linebot_rs::events::MessageType;
use linebot_rs::events::Source;
use linebot_rs::handlers::default_event_reply;
use linebot_rs::handlers::DefaultMessageHandler;
use linebot_rs::handlers::MessageHandler;
use linebot_rs::handlers::get_user_id_from_source;
use linebot_rs::handlers::handle_text_message;
use linebot_rs::messages::OutgoingMessage;

#[test]
fn test_handle_text_message_hello() {
    let result = handle_text_message("hello");
    assert_eq!(result.len(), 1);
    if let OutgoingMessage::Text { text } = &result[0] {
        assert_eq!(text, "你好！有什麼可以幫助你的嗎？");
    } else {
        panic!("Expected text message");
    }
}

#[test]
fn test_handle_text_message_help() {
    let result = handle_text_message("help");
    assert_eq!(result.len(), 1);
    if let OutgoingMessage::Text { text } = &result[0] {
        assert!(text.contains("可用指令"));
    } else {
        panic!("Expected text message");
    }
}

#[test]
fn test_handle_text_message_time() {
    let result = handle_text_message("time");
    assert_eq!(result.len(), 1);
    if let OutgoingMessage::Text { text } = &result[0] {
        assert!(text.contains("目前時間"));
    } else {
        panic!("Expected text message");
    }
}

#[test]
fn test_handle_text_message_sticker() {
    let result = handle_text_message("sticker");
    assert_eq!(result.len(), 1);
    if let OutgoingMessage::Sticker {
        package_id,
        sticker_id,
    } = &result[0]
    {
        assert_eq!(package_id, "1");
        assert_eq!(sticker_id, "1");
    } else {
        panic!("Expected sticker message");
    }
}

#[test]
fn test_handle_text_message_echo() {
    let result = handle_text_message("echo test message");
    assert_eq!(result.len(), 1);
    if let OutgoingMessage::Text { text } = &result[0] {
        assert_eq!(text, "回音：test message");
    } else {
        panic!("Expected text message");
    }
}

#[test]
fn test_handle_text_message_echo_chinese() {
    let result = handle_text_message("回音 測試訊息");
    assert_eq!(result.len(), 1);
    if let OutgoingMessage::Text { text } = &result[0] {
        assert_eq!(text, "回音：測試訊息");
    } else {
        panic!("Expected text message");
    }
}

#[test]
fn test_handle_text_message_unknown() {
    let result = handle_text_message("unknown command");
    assert_eq!(result.len(), 1);
    if let OutgoingMessage::Text { text } = &result[0] {
        assert!(text.contains("我不太理解你的意思"));
    } else {
        panic!("Expected text message");
    }
}

#[test]
fn test_handle_text_message_case_insensitive() {
    let result = handle_text_message("HELLO");
    assert_eq!(result.len(), 1);
    if let OutgoingMessage::Text { text } = &result[0] {
        assert_eq!(text, "你好！有什麼可以幫助你的嗎？");
    } else {
        panic!("Expected text message");
    }
}

#[test]
fn handle_text_message_trims_whitespace() {
    let result = handle_text_message("  hello  ");
    assert_eq!(result.len(), 1);
    if let OutgoingMessage::Text { text } = &result[0] {
        assert_eq!(text, "你好！有什麼可以幫助你的嗎？");
    } else {
        panic!("Expected text message");
    }
}

#[test]
fn handle_text_message_time_has_timestamp_prefix() {
    let result = handle_text_message("時間");
    assert_eq!(result.len(), 1);
    if let OutgoingMessage::Text { text } = &result[0] {
        assert!(text.starts_with("目前時間："));
        assert!(text.len() > "目前時間：".len());
    } else {
        panic!("Expected text message");
    }
}

#[test]
fn handle_text_message_echo_needs_trailing_space() {
    let result = handle_text_message("echo");
    assert_eq!(result.len(), 1);
    if let OutgoingMessage::Text { text } = &result[0] {
        assert!(text.contains("我不太理解你的意思"));
    } else {
        panic!("Expected text message");
    }
}

#[test]
fn user_id_from_user_source() {
    let source = Source::User { user_id: "user_123".to_string() };
    assert_eq!(get_user_id_from_source(&source), "user_123");
}

#[test]
fn user_id_from_group_and_room_sources() {
    let group = Source::Group { group_id: "g".to_string(), user_id: Some("u1".to_string()) };
    assert_eq!(get_user_id_from_source(&group), "u1");
    let group_anon = Source::Group { group_id: "g".to_string(), user_id: None };
    assert_eq!(get_user_id_from_source(&group_anon), "unknown");
    let room = Source::Room { room_id: "r".to_string(), user_id: Some("u2".to_string()) };
    assert_eq!(get_user_id_from_source(&room), "u2");
    let room_anon = Source::Room { room_id: "r".to_string(), user_id: None };
    assert_eq!(get_user_id_from_source(&room_anon), "unknown");
}

#[test]
fn default_handler_echoes_text() {
    let event = Event::Message(MessageEvent {
        reply_token: "valid_reply_token_123".to_string(),
        message: MessageType::Text { text: "hi there".to_string() },
        timestamp: 1,
        source: Source::User { user_id: "user_123".to_string() },
        mode: "active".to_string(),
    });
    let replies = default_event_reply(&event);
    assert_eq!(replies.len(), 1);
    if let OutgoingMessage::Text { text } = &replies[0] {
        assert_eq!(text, "你說：hi there");
    } else {
        panic!("Expected text message");
    }
}

#[test]
fn default_handler_silent_on_leave() {
    let event = Event::Leave(linebot_rs::events::LeaveEvent {
        timestamp: 1,
        source: Source::User { user_id: "user_123".to_string() },
        mode: "active".to_string(),
    });
    assert_eq!(default_event_reply(&event).len(), 0);
}

#[test]
fn default_message_handler_implements_the_trait() {
    let handler = DefaultMessageHandler;
    let event = Event::Follow(linebot_rs::events::FollowEvent {
        reply_token: "valid_reply_token_123".to_string(),
        timestamp: 1,
        source: Source::User { user_id: "user_123".to_string() },
        mode: "active".to_string(),
    });
    let replies = handler.handle_event(&event).expect("default handler never fails");
    assert_eq!(replies.len(), 1);
    if let OutgoingMessage::Text { text } = &replies[0] {
        assert_eq!(text, "歡迎關注！");
    } else {
        panic!("Expected text message");
    }
}
