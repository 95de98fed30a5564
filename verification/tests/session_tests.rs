use microclaw::compaction::{compact_messages, needs_compaction, render_transcript, summary_request};
use microclaw::message::{ContentBlock, ImageSource, Message, MessageContent, Role, StoredMessage};
use microclaw::session::{
    add_override_prompt, attach_image, catch_up, history_to_claude_messages, resume_or_build,
    stored_query, StoredQuery,
};

fn make_msg(id: &str, sender: &str, content: &str, is_bot: bool, ts: &str) -> StoredMessage {
    StoredMessage {
        id: id.into(),
        chat_id: 100,
        sender_name: sender.into(),
        content: content.into(),
        is_from_bot: is_bot,
        timestamp: ts.into(),
    }
}

fn text(role: Role, s: &str) -> Message {
    Message { role, content: MessageContent::Text(s.into()) }
}

#[test]
fn test_history_to_claude_messages_basic() {
    let history = vec![
        make_msg("1", "alice", "hello", false, "2024-01-01T00:00:01Z"),
        make_msg("2", "bot", "hi there!", true, "2024-01-01T00:00:02Z"),
        make_msg("3", "alice", "how are you?", false, "2024-01-01T00:00:03Z"),
    ];
    let messages = history_to_claude_messages(&history, "bot");
    assert_eq!(messages.len(), 3);
    assert_eq!(messages[0].role.as_str(), "user");
    assert_eq!(messages[1].role.as_str(), "assistant");
    assert_eq!(messages[2].role.as_str(), "user");

    if let MessageContent::Text(t) = &messages[0].content {
        assert_eq!(t, "<user_message sender=\"alice\">hello</user_message>");
    } else {
        panic!("Expected Text content");
    }
    if let MessageContent::Text(t) = &messages[1].content {
        assert_eq!(t, "hi there!");
    } else {
        panic!("Expected Text content");
    }
}

#[test]
fn test_history_to_claude_messages_merges_consecutive_user() {
    let history = vec![
        make_msg("1", "alice", "hello", false, "2024-01-01T00:00:01Z"),
        make_msg("2", "bob", "hi", false, "2024-01-01T00:00:02Z"),
        make_msg("3", "bot", "hey all!", true, "2024-01-01T00:00:03Z"),
        make_msg("4", "alice", "thanks", false, "2024-01-01T00:00:04Z"),
    ];
    let messages = history_to_claude_messages(&history, "bot");
    assert_eq!(messages.len(), 3);
    assert_eq!(messages[0].role.as_str(), "user");
    if let MessageContent::Text(t) = &messages[0].content {
        assert!(t.contains("<user_message sender=\"alice\">hello</user_message>"));
        assert!(t.contains("<user_message sender=\"bob\">hi</user_message>"));
        assert_eq!(
            t,
            "<user_message sender=\"alice\">hello</user_message>\n<user_message sender=\"bob\">hi</user_message>"
        );
    } else {
        panic!("Expected Text content");
    }
    assert_eq!(messages[1].role.as_str(), "assistant");
    assert_eq!(messages[2].role.as_str(), "user");
}

#[test]
fn test_history_to_claude_messages_removes_trailing_assistant() {
    let history = vec![
        make_msg("1", "alice", "hello", false, "2024-01-01T00:00:01Z"),
        make_msg("2", "bot", "response", true, "2024-01-01T00:00:02Z"),
    ];
    let messages = history_to_claude_messages(&history, "bot");
    assert_eq!(messages.len(), 1);
    assert_eq!(messages[0].role.as_str(), "user");
}

#[test]
fn test_history_to_claude_messages_removes_leading_assistant() {
    let history = vec![
        make_msg("1", "bot", "I said something", true, "2024-01-01T00:00:01Z"),
        make_msg("2", "alice", "hello", false, "2024-01-01T00:00:02Z"),
    ];
    let messages = history_to_claude_messages(&history, "bot");
    assert_eq!(messages.len(), 1);
    assert_eq!(messages[0].role.as_str(), "user");
}

#[test]
fn test_history_to_claude_messages_empty() {
    let messages = history_to_claude_messages(&[], "bot");
    assert!(messages.is_empty());
}

#[test]
fn test_history_to_claude_messages_only_assistant() {
    let history = vec![make_msg("1", "bot", "hello", true, "2024-01-01T00:00:01Z")];
    let messages = history_to_claude_messages(&history, "bot");
    assert!(messages.is_empty());
}

#[test]
fn test_history_to_claude_messages_multiple_assistant_only() {
    let history = vec![
        make_msg("1", "bot", "msg1", true, "2024-01-01T00:00:01Z"),
        make_msg("2", "bot", "msg2", true, "2024-01-01T00:00:02Z"),
    ];
    let messages = history_to_claude_messages(&history, "bot");
    assert!(messages.is_empty());
}

#[test]
fn test_history_to_claude_messages_alternating() {
    let history = vec![
        make_msg("1", "alice", "q1", false, "2024-01-01T00:00:01Z"),
        make_msg("2", "bot", "a1", true, "2024-01-01T00:00:02Z"),
        make_msg("3", "bob", "q2", false, "2024-01-01T00:00:03Z"),
        make_msg("4", "bot", "a2", true, "2024-01-01T00:00:04Z"),
        make_msg("5", "alice", "q3", false, "2024-01-01T00:00:05Z"),
    ];
    let messages = history_to_claude_messages(&history, "bot");
    assert_eq!(messages.len(), 5);
    assert_eq!(messages[0].role.as_str(), "user");
    assert_eq!(messages[1].role.as_str(), "assistant");
    assert_eq!(messages[2].role.as_str(), "user");
    assert_eq!(messages[3].role.as_str(), "assistant");
    assert_eq!(messages[4].role.as_str(), "user");
}

#[test]
fn test_history_never_begins_or_ends_with_assistant() {
    let patterns: Vec<Vec<bool>> = vec![
        vec![true, true, false, true, true, false, false, true],
        vec![false, true, true],
        vec![true, false],
        vec![true, true, true, false],
        vec![false],
    ];
    for pattern in patterns {
        let mut history = Vec::new();
        for (i, is_bot) in pattern.iter().enumerate() {
            history.push(make_msg("x", "alice", &format!("m{}", i), *is_bot, "t"));
        }
        let messages = history_to_claude_messages(&history, "bot");
        assert!(!messages.is_empty());
        assert_eq!(messages[0].role, Role::User);
        assert_eq!(messages[messages.len() - 1].role, Role::User);
        for pair in messages.windows(2) {
            assert_ne!(pair[0].role, pair[1].role);
        }
    }
}

#[test]
fn test_stored_query_by_session_and_chat_type() {
    assert_eq!(stored_query(&None, "group"), StoredQuery::SinceLastBotResponse);
    assert_eq!(stored_query(&None, "private"), StoredQuery::Recent);
    assert_eq!(stored_query(&Some(vec![]), "private"), StoredQuery::Recent);
    assert_eq!(stored_query(&Some(vec![]), "group"), StoredQuery::SinceLastBotResponse);
    assert_eq!(
        stored_query(&Some(vec![text(Role::User, "x")]), "group"),
        StoredQuery::NewSinceSaved
    );
}

#[test]
fn test_catch_up_merges_into_last_user_text() {
    let session = vec![text(Role::User, "first"), text(Role::Assistant, "reply")];
    let fresh = vec![
        make_msg("1", "alice", "a<b", false, "t1"),
        make_msg("2", "bob", "two", false, "t2"),
    ];
    let out = catch_up(session, &fresh);
    assert_eq!(
        out,
        vec![
            text(Role::User, "first"),
            text(Role::Assistant, "reply"),
            text(
                Role::User,
                "<user_message sender=\"alice\">a&lt;b</user_message>\n<user_message sender=\"bob\">two</user_message>"
            ),
        ]
    );
}

#[test]
fn test_catch_up_appends_after_user_blocks() {
    let blocks = Message {
        role: Role::User,
        content: MessageContent::Blocks(vec![ContentBlock::ToolResult {
            tool_use_id: "t1".into(),
            content: "ok".into(),
            is_error: None,
        }]),
    };
    let out = catch_up(vec![blocks.clone()], &[make_msg("1", "al", "x", false, "t")]);
    assert_eq!(
        out,
        vec![blocks, text(Role::User, "<user_message sender=\"al\">x</user_message>")]
    );
}

#[test]
fn test_catch_up_without_new_messages_changes_nothing() {
    let session = vec![text(Role::User, "first"), text(Role::Assistant, "reply")];
    assert_eq!(catch_up(session.clone(), &[]), session);
}

#[test]
fn test_add_override_prompt_tags_scheduler() {
    let out = add_override_prompt(vec![text(Role::User, "x")], Some("do it"));
    assert_eq!(out, vec![text(Role::User, "x"), text(Role::User, "[scheduler]: do it")]);
    let same = add_override_prompt(vec![text(Role::User, "x")], None);
    assert_eq!(same, vec![text(Role::User, "x")]);
}

#[test]
fn test_attach_image_puts_image_before_text() {
    let out = attach_image(
        vec![text(Role::User, "describe")],
        Some(("AAAA".to_string(), "image/png".to_string())),
    );
    assert_eq!(
        out,
        vec![Message {
            role: Role::User,
            content: MessageContent::Blocks(vec![
                ContentBlock::Image {
                    source: ImageSource {
                        source_type: "base64".into(),
                        media_type: "image/png".into(),
                        data: "AAAA".into(),
                    },
                },
                ContentBlock::Text { text: "describe".into() },
            ]),
        }]
    );
}

#[test]
fn test_attach_image_alone_when_text_is_empty() {
    let out = attach_image(
        vec![text(Role::User, "")],
        Some(("AAAA".to_string(), "image/png".to_string())),
    );
    assert_eq!(
        out,
        vec![Message {
            role: Role::User,
            content: MessageContent::Blocks(vec![ContentBlock::Image {
                source: ImageSource {
                    source_type: "base64".into(),
                    media_type: "image/png".into(),
                    data: "AAAA".into(),
                },
            }]),
        }]
    );
}

#[test]
fn test_attach_image_skips_assistant_and_empty() {
    let a = vec![text(Role::Assistant, "x")];
    assert_eq!(attach_image(a.clone(), Some(("A".to_string(), "image/png".to_string()))), a);
    assert!(attach_image(vec![], Some(("A".to_string(), "image/png".to_string()))).is_empty());
    let u = vec![text(Role::User, "x")];
    assert_eq!(attach_image(u.clone(), None), u);
}

#[test]
fn test_resume_or_build_falls_back_to_history_on_empty_session() {
    let history = vec![
        make_msg("1", "alice", "hello", false, "t1"),
        make_msg("2", "bot", "hi", true, "t2"),
    ];
    let expected = vec![text(Role::User, "<user_message sender=\"alice\">hello</user_message>")];
    assert_eq!(resume_or_build(None, &history, "bot", None, None), expected);
    assert_eq!(resume_or_build(Some(vec![]), &history, "bot", None, None), expected);
}

#[test]
fn test_resume_or_build_resumes_and_catches_up() {
    let session = vec![text(Role::User, "q"), text(Role::Assistant, "a")];
    let fresh = vec![make_msg("3", "alice", "next", false, "t3")];
    let out = resume_or_build(Some(session), &fresh, "bot", Some("tick"), None);
    assert_eq!(
        out,
        vec![
            text(Role::User, "q"),
            text(Role::Assistant, "a"),
            text(Role::User, "<user_message sender=\"alice\">next</user_message>"),
            text(Role::User, "[scheduler]: tick"),
        ]
    );
}

#[test]
fn test_resume_or_build_not_empty_with_stored_message_or_prompt() {
    let only_prompt = resume_or_build(None, &[], "bot", Some("go"), None);
    assert_eq!(only_prompt.len(), 1);
    let one_user = resume_or_build(None, &[make_msg("1", "a", "x", false, "t")], "bot", None, None);
    assert!(!one_user.is_empty());
    let resumed = resume_or_build(Some(vec![text(Role::Assistant, "a")]), &[], "bot", None, None);
    assert!(!resumed.is_empty());
    let only_bot = resume_or_build(None, &[make_msg("1", "bot", "x", true, "t")], "bot", None, None);
    assert!(only_bot.is_empty());
}

#[test]
fn test_needs_compaction_is_strict() {
    assert!(!needs_compaction(40, 40));
    assert!(needs_compaction(41, 40));
}

#[test]
fn test_render_transcript_format() {
    let v = vec![text(Role::User, "hi"), text(Role::Assistant, "yo"), text(Role::User, "rest")];
    assert_eq!(render_transcript(&v[..2]), "[user]: hi\n\n[assistant]: yo\n\n");
    assert_eq!(render_transcript(&[]), "");
}

#[test]
fn test_summary_request_none_when_short() {
    let v = vec![text(Role::User, "hi")];
    assert!(summary_request(&v, 1).is_none());
    assert!(summary_request(&v, 5).is_none());
}

#[test]
fn test_summary_request_holds_prompt_and_old_part() {
    let v = vec![text(Role::User, "hi"), text(Role::Assistant, "yo"), text(Role::User, "rest")];
    let r = summary_request(&v, 1).unwrap();
    assert_eq!(
        r,
        vec![text(
            Role::User,
            "Summarize the following conversation concisely, preserving key facts, decisions, tool results, and context needed to continue the conversation. Be brief but thorough.\n\n---\n\n[user]: hi\n\n[assistant]: yo\n\n"
        )]
    );
}

#[test]
fn test_summary_request_truncates_on_character_boundary() {
    let big = format!("a{}", "\u{00e9}".repeat(10001));
    let v = vec![text(Role::User, &big), text(Role::User, "recent")];
    let r = summary_request(&v, 1).unwrap();
    if let MessageContent::Text(t) = &r[0].content {
        assert!(t.ends_with("\n... (truncated)"));
        let body = t.split("\n\n---\n\n").nth(1).unwrap();
        let kept = &body[..body.len() - "\n... (truncated)".len()];
        assert_eq!(kept.len(), 19999);
        assert_eq!(kept, format!("[user]: a{}", "\u{00e9}".repeat(9995)));
    } else {
        panic!("Expected Text content");
    }
}

#[test]
fn test_compact_messages_keeps_short_conversation() {
    let v = vec![text(Role::User, "a"), text(Role::Assistant, "b")];
    assert_eq!(compact_messages(&v, 2, Some("s")), v);
    assert_eq!(compact_messages(&v, 3, None), v);
}

#[test]
fn test_compact_messages_falls_back_to_recent_on_failure() {
    let v = vec![
        text(Role::User, "a"),
        text(Role::Assistant, "b"),
        text(Role::User, "c"),
        text(Role::Assistant, "d"),
    ];
    assert_eq!(
        compact_messages(&v, 2, None),
        vec![text(Role::User, "c"), text(Role::Assistant, "d")]
    );
}

#[test]
fn test_compact_messages_builds_summary_and_repairs_roles() {
    let v = vec![
        text(Role::User, "a"),
        text(Role::Assistant, "b"),
        text(Role::Assistant, "c"),
        text(Role::User, "d"),
        text(Role::Assistant, "e"),
    ];
    let out = compact_messages(&v, 3, Some("sum"));
    assert_eq!(
        out,
        vec![
            text(Role::User, "[Conversation Summary]\nsum"),
            text(
                Role::Assistant,
                "Understood, I have the conversation context. How can I help?\nc"
            ),
            text(Role::User, "d"),
        ]
    );
}

#[test]
fn test_compact_twice_keeps_recent_tail() {
    let mut v = Vec::new();
    for i in 0..9 {
        let role = if i % 2 == 0 { Role::User } else { Role::Assistant };
        v.push(text(role, &format!("m{}", i)));
    }
    let once = compact_messages(&v, 3, Some("first"));
    assert_eq!(once.len(), 5);
    let twice = compact_messages(&once, 3, Some("second"));
    assert_eq!(twice[twice.len() - 3..], once[once.len() - 3..]);
    let failed_once = compact_messages(&v, 3, None);
    let failed_twice = compact_messages(&failed_once, 3, None);
    assert_eq!(failed_once, failed_twice);
}
