use microclaw::message::{ContentBlock, ImageSource, Message, MessageContent, Role};
use microclaw::render::strip_images_for_session;
use microclaw::session_codec::{decode_session, encode_session, load_session};

fn text(role: Role, s: &str) -> Message {
    Message { role, content: MessageContent::Text(s.into()) }
}

fn sample() -> Vec<Message> {
    vec![
        text(Role::User, "say \"hi\"\n\tplease \\ now \u{0001}\u{001f} \u{00e9}\u{1F600}"),
        Message {
            role: Role::Assistant,
            content: MessageContent::Blocks(vec![
                ContentBlock::Text { text: "on it".into() },
                ContentBlock::ToolUse {
                    id: "t1".into(),
                    name: "bash".into(),
                    input: "{\"command\":\"ls\"}".into(),
                },
            ]),
        },
        Message {
            role: Role::User,
            content: MessageContent::Blocks(vec![
                ContentBlock::ToolResult {
                    tool_use_id: "t1".into(),
                    content: "a\r\nb".into(),
                    is_error: None,
                },
                ContentBlock::ToolResult {
                    tool_use_id: "t2".into(),
                    content: "".into(),
                    is_error: Some(true),
                },
                ContentBlock::ToolResult {
                    tool_use_id: "t3".into(),
                    content: "x".into(),
                    is_error: Some(false),
                },
                ContentBlock::Image {
                    source: ImageSource {
                        source_type: "base64".into(),
                        media_type: "image/png".into(),
                        data: "AAAA".into(),
                    },
                },
            ]),
        },
        Message { role: Role::Assistant, content: MessageContent::Blocks(vec![]) },
        text(Role::Assistant, ""),
    ]
}

#[test]
fn test_encode_session_exact_text() {
    let messages = vec![
        text(Role::User, "a\"b\\c\nd\u{0007}"),
        Message {
            role: Role::Assistant,
            content: MessageContent::Blocks(vec![
                ContentBlock::Text { text: "t".into() },
                ContentBlock::ToolUse { id: "i".into(), name: "n".into(), input: "{}".into() },
                ContentBlock::ToolResult {
                    tool_use_id: "i".into(),
                    content: "c".into(),
                    is_error: Some(true),
                },
            ]),
        },
    ];
    assert_eq!(
        encode_session(&messages),
        "[{\"role\":\"user\",\"content\":\"a\\\"b\\\\c\\nd\\u0007\"},{\"role\":\"assistant\",\"content\":[{\"type\":\"text\",\"text\":\"t\"},{\"type\":\"tool_use\",\"id\":\"i\",\"name\":\"n\",\"input\":\"{}\"},{\"type\":\"tool_result\",\"tool_use_id\":\"i\",\"content\":\"c\",\"is_error\":true}]}]"
    );
    assert_eq!(encode_session(&vec![]), "[]");
}

#[test]
fn test_encoded_session_is_valid_json() {
    let value: serde_json::Value = serde_json::from_str(&encode_session(&sample())).unwrap();
    let list = value.as_array().unwrap();
    assert_eq!(list.len(), 5);
    assert_eq!(list[0]["role"], "user");
    assert_eq!(
        list[0]["content"],
        "say \"hi\"\n\tplease \\ now \u{0001}\u{001f} \u{00e9}\u{1F600}"
    );
    assert_eq!(list[1]["content"][1]["type"], "tool_use");
    assert_eq!(list[1]["content"][1]["input"], "{\"command\":\"ls\"}");
    assert_eq!(list[2]["content"][1]["is_error"], true);
    assert_eq!(list[2]["content"][3]["source"]["media_type"], "image/png");
}

#[test]
fn test_session_round_trip() {
    let messages = sample();
    assert_eq!(decode_session(&encode_session(&messages)), Some(messages));
    assert_eq!(decode_session("[]"), Some(vec![]));
}

#[test]
fn test_kept_session_round_trip_modulo_images() {
    let before = sample();
    let mut kept = sample();
    strip_images_for_session(&mut kept);
    assert_ne!(kept, before);
    let loaded = load_session(Some(&encode_session(&kept))).unwrap();
    assert_eq!(loaded, kept);
    assert_eq!(loaded.len(), before.len());
    assert_eq!(
        loaded[2].content,
        MessageContent::Blocks(vec![
            ContentBlock::ToolResult {
                tool_use_id: "t1".into(),
                content: "a\r\nb".into(),
                is_error: None,
            },
            ContentBlock::ToolResult {
                tool_use_id: "t2".into(),
                content: "".into(),
                is_error: Some(true),
            },
            ContentBlock::ToolResult {
                tool_use_id: "t3".into(),
                content: "x".into(),
                is_error: Some(false),
            },
            ContentBlock::Text { text: "[image was sent]".into() },
        ])
    );
}

#[test]
fn test_decode_session_rejects_what_was_not_written() {
    for bad in [
        "",
        "[",
        "]",
        "[]x",
        " []",
        "[ ]",
        "{}",
        "not json",
        "[{\"role\":\"system\",\"content\":\"x\"}]",
        "[{\"role\":\"user\",\"content\":\"x\"},]",
        "[{\"role\":\"user\",\"content\":\"x\"}",
        "[{\"role\":\"user\",\"content\":\"x}]",
        "[{\"role\":\"user\",\"content\":\"\\x\"}]",
        "[{\"role\":\"user\",\"content\":\"\\u0041\"}]",
        "[{\"role\":\"user\",\"content\":\"\\u000a\"}]",
        "[{\"role\":\"user\",\"content\":\"a\nb\"}]",
        "[{\"role\":\"user\",\"content\":[{\"type\":\"video\"}]}]",
        "[{\"role\":\"user\",\"content\":5}]",
    ] {
        assert_eq!(decode_session(bad), None, "{bad}");
    }
}

#[test]
fn test_load_session_treats_empty_and_unreadable_as_absent() {
    assert_eq!(load_session(None), None);
    assert_eq!(load_session(Some("[]")), None);
    assert_eq!(load_session(Some("garbage")), None);
    assert_eq!(
        load_session(Some("[{\"role\":\"user\",\"content\":\"hi\"}]")),
        Some(vec![text(Role::User, "hi")])
    );
}
