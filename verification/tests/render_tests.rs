use microclaw::message::{ContentBlock, ImageSource, Message, MessageContent, Role};
use microclaw::render::{message_to_text, strip_images_for_session};

#[test]
fn test_message_to_text_simple() {
    let msg = Message { role: Role::User, content: MessageContent::Text("hello world".into()) };
    assert_eq!(message_to_text(&msg), "hello world");
}

#[test]
fn test_message_to_text_blocks() {
    let msg = Message {
        role: Role::Assistant,
        content: MessageContent::Blocks(vec![
            ContentBlock::Text { text: "thinking".into() },
            ContentBlock::ToolUse {
                id: "t1".into(),
                name: "bash".into(),
                input: "{\"command\":\"ls\"}".into(),
            },
        ]),
    };
    let text = message_to_text(&msg);
    assert!(text.contains("thinking"));
    assert!(text.contains("[tool_use: bash("));
    assert_eq!(text, "thinking\n[tool_use: bash({\"command\":\"ls\"})]");
}

#[test]
fn test_message_to_text_tool_result() {
    let msg = Message {
        role: Role::User,
        content: MessageContent::Blocks(vec![ContentBlock::ToolResult {
            tool_use_id: "t1".into(),
            content: "file1.rs\nfile2.rs".into(),
            is_error: None,
        }]),
    };
    let text = message_to_text(&msg);
    assert!(text.contains("[tool_result]: file1.rs"));
    assert_eq!(text, "[tool_result]: file1.rs\nfile2.rs");
}

#[test]
fn test_message_to_text_image_block() {
    let msg = Message {
        role: Role::User,
        content: MessageContent::Blocks(vec![
            ContentBlock::Image {
                source: ImageSource {
                    source_type: "base64".into(),
                    media_type: "image/png".into(),
                    data: "AAAA".into(),
                },
            },
            ContentBlock::Text { text: "what is this?".into() },
        ]),
    };
    let text = message_to_text(&msg);
    assert!(text.contains("[image]"));
    assert!(text.contains("what is this?"));
    assert_eq!(text, "[image]\nwhat is this?");
}

#[test]
fn test_message_to_text_tool_error() {
    let msg = Message {
        role: Role::User,
        content: MessageContent::Blocks(vec![ContentBlock::ToolResult {
            tool_use_id: "t1".into(),
            content: "command failed".into(),
            is_error: Some(true),
        }]),
    };
    let text = message_to_text(&msg);
    assert!(text.contains("[tool_error]"));
    assert!(text.contains("command failed"));
}

#[test]
fn test_message_to_text_error_flag_false_is_a_result() {
    let msg = Message {
        role: Role::User,
        content: MessageContent::Blocks(vec![ContentBlock::ToolResult {
            tool_use_id: "t1".into(),
            content: "fine".into(),
            is_error: Some(false),
        }]),
    };
    assert_eq!(message_to_text(&msg), "[tool_result]: fine");
}

#[test]
fn test_message_to_text_long_tool_result_truncation() {
    let long_content = "x".repeat(500);
    let msg = Message {
        role: Role::User,
        content: MessageContent::Blocks(vec![ContentBlock::ToolResult {
            tool_use_id: "t1".into(),
            content: long_content,
            is_error: None,
        }]),
    };
    let text = message_to_text(&msg);
    assert!(text.contains("..."));
    assert!(text.len() < 500);
    assert_eq!(text, format!("[tool_result]: {}...", "x".repeat(200)));
}

#[test]
fn test_message_to_text_truncation_keeps_whole_characters() {
    let msg = Message {
        role: Role::User,
        content: MessageContent::Blocks(vec![ContentBlock::ToolResult {
            tool_use_id: "t1".into(),
            content: format!("a{}", "\u{4e2d}".repeat(100)),
            is_error: None,
        }]),
    };
    assert_eq!(
        message_to_text(&msg),
        format!("[tool_result]: a{}...", "\u{4e2d}".repeat(66))
    );
}

#[test]
fn test_message_to_text_empty_blocks() {
    let msg = Message { role: Role::User, content: MessageContent::Blocks(vec![]) };
    assert_eq!(message_to_text(&msg), "");
}

#[test]
fn test_strip_images_for_session() {
    let mut messages = vec![Message {
        role: Role::User,
        content: MessageContent::Blocks(vec![
            ContentBlock::Image {
                source: ImageSource {
                    source_type: "base64".into(),
                    media_type: "image/jpeg".into(),
                    data: "huge_base64_data".into(),
                },
            },
            ContentBlock::Text { text: "describe this".into() },
        ]),
    }];

    strip_images_for_session(&mut messages);

    if let MessageContent::Blocks(blocks) = &messages[0].content {
        match &blocks[0] {
            ContentBlock::Text { text } => assert_eq!(text, "[image was sent]"),
            other => panic!("Expected Text, got {:?}", other),
        }
        match &blocks[1] {
            ContentBlock::Text { text } => assert_eq!(text, "describe this"),
            other => panic!("Expected Text, got {:?}", other),
        }
    } else {
        panic!("Expected Blocks content");
    }
}

#[test]
fn test_strip_images_text_messages_unchanged() {
    let mut messages =
        vec![Message { role: Role::User, content: MessageContent::Text("no images here".into()) }];

    strip_images_for_session(&mut messages);

    if let MessageContent::Text(t) = &messages[0].content {
        assert_eq!(t, "no images here");
    } else {
        panic!("Expected Text content");
    }
}

#[test]
fn test_strip_images_multiple_messages() {
    let mut messages = vec![
        Message {
            role: Role::User,
            content: MessageContent::Blocks(vec![
                ContentBlock::Image {
                    source: ImageSource {
                        source_type: "base64".into(),
                        media_type: "image/jpeg".into(),
                        data: "data1".into(),
                    },
                },
                ContentBlock::Text { text: "first".into() },
            ]),
        },
        Message { role: Role::Assistant, content: MessageContent::Text("I see an image".into()) },
        Message {
            role: Role::User,
            content: MessageContent::Blocks(vec![ContentBlock::Image {
                source: ImageSource {
                    source_type: "base64".into(),
                    media_type: "image/png".into(),
                    data: "data2".into(),
                },
            }]),
        },
    ];

    strip_images_for_session(&mut messages);

    if let MessageContent::Blocks(blocks) = &messages[0].content {
        match &blocks[0] {
            ContentBlock::Text { text } => assert_eq!(text, "[image was sent]"),
            other => panic!("Expected Text, got {:?}", other),
        }
    }
    if let MessageContent::Text(t) = &messages[1].content {
        assert_eq!(t, "I see an image");
    }
    if let MessageContent::Blocks(blocks) = &messages[2].content {
        match &blocks[0] {
            ContentBlock::Text { text } => assert_eq!(text, "[image was sent]"),
            other => panic!("Expected Text, got {:?}", other),
        }
    }
}

#[test]
fn test_strip_images_twice_is_the_same_as_once() {
    let mut messages = vec![Message {
        role: Role::User,
        content: MessageContent::Blocks(vec![
            ContentBlock::Image {
                source: ImageSource {
                    source_type: "base64".into(),
                    media_type: "image/jpeg".into(),
                    data: "d".into(),
                },
            },
            ContentBlock::ToolUse { id: "1".into(), name: "n".into(), input: "{}".into() },
        ]),
    }];
    strip_images_for_session(&mut messages);
    let once = messages.clone();
    strip_images_for_session(&mut messages);
    assert_eq!(messages, once);
    assert_eq!(
        once[0].content,
        MessageContent::Blocks(vec![
            ContentBlock::Text { text: "[image was sent]".into() },
            ContentBlock::ToolUse { id: "1".into(), name: "n".into(), input: "{}".into() },
        ])
    );
}
