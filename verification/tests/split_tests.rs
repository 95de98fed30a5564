use microclaw::archive::{archive_dir, archive_file, archive_markdown};
use microclaw::channel::{
    archive_reply, chat_command, enforce_channel_policy, is_chat_allowed, is_web_chat,
    should_respond, stored_content, ChatCommand,
};
use microclaw::message::{ContentBlock, Message, MessageContent, Role};
use microclaw::split::{split_response_text, split_text};

#[test]
fn test_split_response_text_short() {
    let chunks = split_response_text("hello world");
    assert_eq!(chunks.len(), 1);
    assert_eq!(chunks[0], "hello world");
}

#[test]
fn test_split_response_text_long() {
    let mut text = String::new();
    for i in 0..200 {
        text.push_str(&format!("Line {i}: some content here that takes space\n"));
    }
    assert!(text.len() > 4096);

    let chunks = split_response_text(&text);
    assert!(chunks.len() > 1);
    for chunk in &chunks {
        assert!(chunk.len() <= 4096);
    }
    let total_len: usize = chunks.iter().map(|c| c.len()).sum();
    assert!(total_len > 0);
    assert_eq!(chunks.join("\n"), text);
}

#[test]
fn test_split_response_text_no_newlines() {
    let text = "a".repeat(5000);
    let chunks = split_response_text(&text);
    assert_eq!(chunks.len(), 2);
    assert_eq!(chunks[0].len(), 4096);
    assert_eq!(chunks[1].len(), 904);
}

#[test]
fn test_split_response_text_empty() {
    let chunks = split_response_text("");
    assert_eq!(chunks.len(), 1);
    assert_eq!(chunks[0], "");
}

#[test]
fn test_split_response_text_exact_4096() {
    let text = "a".repeat(4096);
    let chunks = split_response_text(&text);
    assert_eq!(chunks.len(), 1);
    assert_eq!(chunks[0].len(), 4096);
}

#[test]
fn test_split_response_text_4097() {
    let text = "a".repeat(4097);
    let chunks = split_response_text(&text);
    assert_eq!(chunks.len(), 2);
    assert_eq!(chunks[0].len(), 4096);
    assert_eq!(chunks[1].len(), 1);
}

#[test]
fn test_split_response_text_newline_at_boundary() {
    let mut text = "a".repeat(4000);
    text.push('\n');
    text.push_str(&"b".repeat(200));
    assert_eq!(text.len(), 4201);
    let chunks = split_response_text(&text);
    assert_eq!(chunks.len(), 2);
    assert_eq!(chunks[0].len(), 4000);
    assert_eq!(chunks[1].len(), 200);
}

#[test]
fn test_split_text_small_limits() {
    assert_eq!(split_text("ab\ncd\nef", 4), vec!["ab", "cd", "ef"]);
    assert_eq!(split_text("abcdef", 4), vec!["abcd", "ef"]);
    assert_eq!(split_text("\nabcdef", 4), vec!["", "abcd", "ef"]);
    assert_eq!(split_text("abcd\nef", 4), vec!["abcd", "ef"]);
    assert_eq!(split_text("ab\n\ncdefg", 4), vec!["ab\n", "cdef", "g"]);
}

#[test]
fn test_split_text_never_cuts_a_character() {
    let text = "\u{4e2d}".repeat(5);
    assert_eq!(split_text(&text, 4), vec!["\u{4e2d}"; 5]);
    assert_eq!(split_text(&text, 7), vec!["\u{4e2d}\u{4e2d}", "\u{4e2d}\u{4e2d}", "\u{4e2d}"]);
    assert_eq!(split_text(&text, 2), vec!["\u{4e2d}"; 5]);
    assert_eq!(split_text("ab", 0), vec!["a", "b"]);
}

#[test]
fn test_archive_markdown_format() {
    let messages = vec![
        Message { role: Role::User, content: MessageContent::Text("hi".into()) },
        Message {
            role: Role::Assistant,
            content: MessageContent::Blocks(vec![
                ContentBlock::Text { text: "sure".into() },
                ContentBlock::ToolUse { id: "1".into(), name: "bash".into(), input: "{}".into() },
            ]),
        },
    ];
    assert_eq!(
        archive_markdown(&messages),
        "## user\n\nhi\n\n---\n\n## assistant\n\nsure\n[tool_use: bash({})]\n\n---\n\n"
    );
    assert_eq!(archive_markdown(&vec![]), "");
}

#[test]
fn test_archive_paths() {
    assert_eq!(archive_dir("./data", -100123), "./data/groups/-100123/conversations");
    assert_eq!(
        archive_file("/d/", 5, "20240101-000000"),
        "/d/groups/5/conversations/20240101-000000.md"
    );
}

#[test]
fn test_chat_command() {
    assert_eq!(chat_command(" /reset\n"), Some(ChatCommand::Reset));
    assert_eq!(chat_command("/skills"), Some(ChatCommand::Skills));
    assert_eq!(chat_command("/archive"), Some(ChatCommand::Archive));
    assert_eq!(chat_command("/reset now"), None);
    assert_eq!(chat_command("reset"), None);
    assert_eq!(chat_command(""), None);
}

#[test]
fn test_should_respond() {
    assert!(should_respond("private", "anything", "bot"));
    assert!(should_respond("group", "hey @bot what's up", "bot"));
    assert!(!should_respond("group", "hey bot", "bot"));
    assert!(!should_respond("supergroup", "", "bot"));
    assert!(should_respond("group", "@", ""));
}

#[test]
fn test_is_chat_allowed() {
    assert!(is_chat_allowed("group", &vec![], 5));
    assert!(is_chat_allowed("group", &vec![1, 5], 5));
    assert!(!is_chat_allowed("group", &vec![1, 2], 5));
    assert!(is_chat_allowed("private", &vec![1, 2], 5));
}

#[test]
fn test_stored_content() {
    assert_eq!(stored_content("hi", false), "hi");
    assert_eq!(stored_content("hi", true), "[image] hi");
    assert_eq!(stored_content("", true), "[image]");
    assert_eq!(stored_content("", false), "");
}

#[test]
fn test_archive_reply() {
    assert_eq!(archive_reply(None), "No session to archive.");
    assert_eq!(archive_reply(Some(0)), "No session to archive.");
    assert_eq!(archive_reply(Some(12)), "Archived 12 messages.");
}

#[test]
fn test_enforce_channel_policy() {
    assert_eq!(enforce_channel_policy(None, 5), Ok(()));
    assert_eq!(enforce_channel_policy(Some((5, true)), 5), Ok(()));
    assert_eq!(enforce_channel_policy(Some((4, false)), 5), Ok(()));
    assert_eq!(
        enforce_channel_policy(Some((100, true)), 200),
        Err("Permission denied: web chats cannot operate on other chats".to_string())
    );
}

#[test]
fn test_is_channel_allowed_and_delivery_failure() {
    assert!(microclaw::channel::is_channel_allowed(&vec![], 9));
    assert!(microclaw::channel::is_channel_allowed(&vec![1, 9], 9));
    assert!(!microclaw::channel::is_channel_allowed(&vec![1, 2], 9));
    assert_eq!(
        microclaw::channel::delivery_failure("Discord", "403 Forbidden", &"\u{00e9}".repeat(301)),
        format!("Failed to send Discord message: HTTP 403 Forbidden {}", "\u{00e9}".repeat(300))
    );
    assert_eq!(
        microclaw::channel::delivery_failure("WhatsApp", "500", "no"),
        "Failed to send WhatsApp message: HTTP 500 no"
    );
}

#[test]
fn test_is_web_chat_by_stored_kind() {
    assert!(is_web_chat(Some("web")));
    assert!(!is_web_chat(Some("Web")));
    assert!(!is_web_chat(Some("private")));
    assert!(!is_web_chat(Some("")));
    assert!(!is_web_chat(None));
}
