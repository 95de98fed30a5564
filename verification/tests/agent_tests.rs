use microclaw::agent::{
    Action, AgentEvent, AgentLoop, LlmResponse, LoopConfig, LoopEvent, Phase,
    ResponseContentBlock, ToolAuthContext, ToolOutput, MAX_ITERATIONS_TEXT, NOTHING_TO_PROCESS,
    NO_RESPONSE,
};
use microclaw::message::{ContentBlock, ImageSource, Message, MessageContent, Role};

fn config(max_tool_iterations: usize, streaming: bool) -> LoopConfig {
    LoopConfig {
        max_tool_iterations,
        max_session_messages: 40,
        compact_keep_recent: 20,
        show_thinking: false,
        streaming,
    }
}

fn auth() -> ToolAuthContext {
    ToolAuthContext { caller_chat_id: 42, control_chat_ids: vec![1] }
}

fn text(role: Role, s: &str) -> Message {
    Message { role, content: MessageContent::Text(s.into()) }
}

fn answer(stop: Option<&str>, blocks: Vec<ResponseContentBlock>) -> LoopEvent {
    LoopEvent::Response(LlmResponse { content: blocks, stop_reason: stop.map(|s| s.to_string()) })
}

fn said(s: &str) -> ResponseContentBlock {
    ResponseContentBlock::Text { text: s.to_string() }
}

fn wants(id: &str, name: &str, input: &str) -> ResponseContentBlock {
    ResponseContentBlock::ToolUse {
        id: id.to_string(),
        name: name.to_string(),
        input: input.to_string(),
    }
}

fn done(content: &str, is_error: bool, duration_ms: u128) -> LoopEvent {
    LoopEvent::ToolDone { output: ToolOutput { content: content.to_string(), is_error }, duration_ms }
}

fn run(id: &str, name: &str, input: &str) -> Action {
    Action::RunTool {
        id: id.to_string(),
        name: name.to_string(),
        input: input.to_string(),
        auth: auth(),
    }
}

#[test]
fn test_start_without_messages_answers_at_once() {
    let (agent, actions) = AgentLoop::start(vec![], config(5, true), auth());
    assert_eq!(actions, vec![Action::Reply(NOTHING_TO_PROCESS.to_string())]);
    assert_eq!(NOTHING_TO_PROCESS, "I didn't receive any message to process.");
    assert_eq!(agent.phase(), Phase::Done);
    assert!(agent.is_finished());
    assert!(agent.messages().is_empty());
}

#[test]
fn test_end_turn_saves_and_replies() {
    let (agent, actions) = AgentLoop::start(vec![text(Role::User, "hi")], config(5, false), auth());
    assert_eq!(actions, vec![Action::CallLlm { streaming: false }]);
    assert_eq!(agent.phase(), Phase::Thinking);
    assert_eq!(agent.iteration(), 1);
    let (agent, actions) =
        agent.step(answer(Some("end_turn"), vec![said("Hel"), wants("x", "y", "{}"), said("lo")]));
    assert_eq!(actions, vec![Action::Persist, Action::Reply("Hello".to_string())]);
    assert_eq!(agent.phase(), Phase::Done);
    assert_eq!(
        agent.messages(),
        &vec![text(Role::User, "hi"), text(Role::Assistant, "Hello")]
    );
}

#[test]
fn test_missing_stop_reason_counts_as_end_turn() {
    let (agent, _) = AgentLoop::start(vec![text(Role::User, "hi")], config(5, false), auth());
    let (agent, actions) = agent.step(answer(None, vec![said("ok")]));
    assert_eq!(actions, vec![Action::Persist, Action::Reply("ok".to_string())]);
    assert_eq!(agent.phase(), Phase::Done);
}

#[test]
fn test_max_tokens_is_terminal() {
    let (agent, _) = AgentLoop::start(vec![text(Role::User, "hi")], config(5, false), auth());
    let (agent, actions) = agent.step(answer(Some("max_tokens"), vec![said("cut")]));
    assert_eq!(actions, vec![Action::Persist, Action::Reply("cut".to_string())]);
    assert_eq!(agent.phase(), Phase::Done);
}

#[test]
fn test_thinking_is_hidden_in_reply_but_kept_in_session() {
    let (agent, _) = AgentLoop::start(vec![text(Role::User, "hi")], config(5, true), auth());
    let (agent, actions) = agent.step(answer(Some("end_turn"), vec![said("<think>plan</think>Hello")]));
    assert_eq!(
        actions,
        vec![
            Action::Persist,
            Action::Emit(AgentEvent::FinalResponse { text: "Hello".to_string() }),
            Action::Reply("Hello".to_string()),
        ]
    );
    assert_eq!(agent.messages()[1], text(Role::Assistant, "<think>plan</think>Hello"));
}

#[test]
fn test_thinking_is_shown_when_asked_for() {
    let mut c = config(5, false);
    c.show_thinking = true;
    let (agent, _) = AgentLoop::start(vec![text(Role::User, "hi")], c, auth());
    let (_, actions) = agent.step(answer(Some("end_turn"), vec![said("<think>plan</think>Hello")]));
    assert_eq!(
        actions,
        vec![Action::Persist, Action::Reply("<think>plan</think>Hello".to_string())]
    );
}

#[test]
fn test_streaming_reports_iteration() {
    let (_, actions) = AgentLoop::start(vec![text(Role::User, "hi")], config(5, true), auth());
    assert_eq!(
        actions,
        vec![
            Action::Emit(AgentEvent::Iteration { iteration: 1 }),
            Action::CallLlm { streaming: true },
        ]
    );
}

#[test]
fn test_tool_round_runs_tools_in_order() {
    let (agent, _) = AgentLoop::start(vec![text(Role::User, "hi")], config(5, true), auth());
    let (agent, actions) = agent.step(answer(
        Some("tool_use"),
        vec![said("let me look"), wants("t1", "bash", "{\"c\":1}"), wants("t2", "read", "{}")],
    ));
    assert_eq!(
        actions,
        vec![
            Action::Emit(AgentEvent::ToolStart { name: "bash".to_string() }),
            run("t1", "bash", "{\"c\":1}"),
        ]
    );
    assert_eq!(agent.phase(), Phase::ToolDispatch);
    assert_eq!(
        agent.messages()[1],
        Message {
            role: Role::Assistant,
            content: MessageContent::Blocks(vec![
                ContentBlock::Text { text: "let me look".into() },
                ContentBlock::ToolUse { id: "t1".into(), name: "bash".into(), input: "{\"c\":1}".into() },
                ContentBlock::ToolUse { id: "t2".into(), name: "read".into(), input: "{}".into() },
            ]),
        }
    );
    let long = "\u{00e9}".repeat(170);
    let (agent, actions) = agent.step(done(&long, true, 12));
    assert_eq!(
        actions,
        vec![
            Action::Emit(AgentEvent::ToolResult {
                name: "bash".to_string(),
                is_error: true,
                preview: format!("{}...", "\u{00e9}".repeat(160)),
                duration_ms: 12,
                status_code: Some(1),
                bytes: 340,
                error_type: Some("tool_error".to_string()),
            }),
            Action::Emit(AgentEvent::ToolStart { name: "read".to_string() }),
            run("t2", "read", "{}"),
        ]
    );
    assert_eq!(agent.messages().len(), 2);
    let (agent, actions) = agent.step(done("body", false, 3));
    assert_eq!(
        actions,
        vec![
            Action::Emit(AgentEvent::ToolResult {
                name: "read".to_string(),
                is_error: false,
                preview: "body".to_string(),
                duration_ms: 3,
                status_code: Some(0),
                bytes: 4,
                error_type: None,
            }),
            Action::Emit(AgentEvent::Iteration { iteration: 2 }),
            Action::CallLlm { streaming: true },
        ]
    );
    assert_eq!(agent.phase(), Phase::Thinking);
    assert_eq!(agent.iteration(), 2);
    assert_eq!(
        agent.messages()[2],
        Message {
            role: Role::User,
            content: MessageContent::Blocks(vec![
                ContentBlock::ToolResult {
                    tool_use_id: "t1".into(),
                    content: long.clone(),
                    is_error: Some(true),
                },
                ContentBlock::ToolResult {
                    tool_use_id: "t2".into(),
                    content: "body".into(),
                    is_error: None,
                },
            ]),
        }
    );
    let (agent, actions) = agent.step(answer(Some("end_turn"), vec![said("all done")]));
    assert_eq!(actions[0], Action::Persist);
    assert_eq!(agent.messages().len(), 4);
    assert_eq!(agent.messages()[3], text(Role::Assistant, "all done"));
}

#[test]
fn test_budget_of_one_with_tool_use_ends_with_fixed_message() {
    let (agent, actions) = AgentLoop::start(vec![text(Role::User, "hi")], config(1, false), auth());
    assert_eq!(actions, vec![Action::CallLlm { streaming: false }]);
    let (agent, actions) = agent.step(answer(Some("tool_use"), vec![wants("t1", "bash", "{}")]));
    assert_eq!(actions, vec![run("t1", "bash", "{}")]);
    let (agent, actions) = agent.step(done("out", false, 1));
    assert_eq!(
        actions,
        vec![Action::Persist, Action::Reply(MAX_ITERATIONS_TEXT.to_string())]
    );
    assert_eq!(
        MAX_ITERATIONS_TEXT,
        "I reached the maximum number of tool iterations. Here's what I was working on \u{2014} please try breaking your request into smaller steps."
    );
    assert_eq!(agent.phase(), Phase::MaxIterationsReached);
    let messages = agent.messages();
    assert_eq!(messages.len(), 4);
    assert_eq!(messages[3], text(Role::Assistant, MAX_ITERATIONS_TEXT));
    assert_eq!(
        messages[2],
        Message {
            role: Role::User,
            content: MessageContent::Blocks(vec![ContentBlock::ToolResult {
                tool_use_id: "t1".into(),
                content: "out".into(),
                is_error: None,
            }]),
        }
    );
}

#[test]
fn test_budget_of_zero_never_asks_the_model() {
    let (agent, actions) = AgentLoop::start(vec![text(Role::User, "hi")], config(0, true), auth());
    assert_eq!(
        actions,
        vec![
            Action::Persist,
            Action::Emit(AgentEvent::FinalResponse { text: MAX_ITERATIONS_TEXT.to_string() }),
            Action::Reply(MAX_ITERATIONS_TEXT.to_string()),
        ]
    );
    assert_eq!(agent.phase(), Phase::MaxIterationsReached);
    assert_eq!(agent.iteration(), 0);
}

#[test]
fn test_tool_use_without_calls_goes_on() {
    let (agent, _) = AgentLoop::start(vec![text(Role::User, "hi")], config(3, false), auth());
    let (agent, actions) = agent.step(answer(Some("tool_use"), vec![said("hm")]));
    assert_eq!(actions, vec![Action::CallLlm { streaming: false }]);
    assert_eq!(agent.iteration(), 2);
    assert_eq!(
        agent.messages()[2],
        Message { role: Role::User, content: MessageContent::Blocks(vec![]) }
    );
}

#[test]
fn test_unknown_stop_reason_is_terminal() {
    let (agent, _) = AgentLoop::start(vec![text(Role::User, "hi")], config(3, true), auth());
    let (agent, actions) = agent.step(answer(Some("pause"), vec![]));
    assert_eq!(NO_RESPONSE, "(no response)");
    assert_eq!(
        actions,
        vec![
            Action::Persist,
            Action::Emit(AgentEvent::FinalResponse { text: "(no response)".to_string() }),
            Action::Reply("(no response)".to_string()),
        ]
    );
    assert_eq!(agent.messages()[1], text(Role::Assistant, ""));
    let (agent, _) = AgentLoop::start(vec![text(Role::User, "hi")], config(3, false), auth());
    let (_, actions) = agent.step(answer(Some("pause"), vec![said("<think>x</think> partly")]));
    assert_eq!(actions, vec![Action::Persist, Action::Reply("partly".to_string())]);
}

#[test]
fn test_llm_failure_fails_the_turn_without_saving() {
    let (agent, _) = AgentLoop::start(vec![text(Role::User, "hi")], config(3, true), auth());
    let (agent, actions) = agent.step(LoopEvent::LlmFailed("timeout".to_string()));
    assert_eq!(actions, vec![Action::Fail("timeout".to_string())]);
    assert_eq!(agent.phase(), Phase::Failed);
    assert_eq!(agent.messages(), &vec![text(Role::User, "hi")]);
    let (agent, actions) = agent.step(answer(Some("end_turn"), vec![said("late")]));
    assert!(actions.is_empty());
    assert_eq!(agent.phase(), Phase::Failed);
}

#[test]
fn test_cancel_saves_nothing() {
    let (agent, _) = AgentLoop::start(vec![text(Role::User, "hi")], config(3, true), auth());
    let (agent, _) = agent.step(answer(Some("tool_use"), vec![wants("t1", "bash", "{}")]));
    let before = agent.messages().clone();
    let (agent, actions) = agent.step(LoopEvent::Cancelled);
    assert!(actions.is_empty());
    assert_eq!(agent.phase(), Phase::Cancelled);
    assert_eq!(agent.messages(), &before);
    let (agent, actions) = agent.step(done("late", false, 1));
    assert!(actions.is_empty());
    assert_eq!(agent.phase(), Phase::Cancelled);
}

#[test]
fn test_event_that_does_not_fit_changes_nothing() {
    let (agent, _) = AgentLoop::start(vec![text(Role::User, "hi")], config(3, true), auth());
    let (agent, actions) = agent.step(done("x", false, 1));
    assert!(actions.is_empty());
    assert_eq!(agent.phase(), Phase::Thinking);
    let (agent, actions) = agent.step(LoopEvent::Summary(Some("s".to_string())));
    assert!(actions.is_empty());
    assert_eq!(agent.messages(), &vec![text(Role::User, "hi")]);
}

#[test]
fn test_images_are_taken_out_before_saving() {
    let with_image = Message {
        role: Role::User,
        content: MessageContent::Blocks(vec![
            ContentBlock::Image {
                source: ImageSource {
                    source_type: "base64".into(),
                    media_type: "image/png".into(),
                    data: "AAAA".into(),
                },
            },
            ContentBlock::Text { text: "what".into() },
        ]),
    };
    let (agent, _) = AgentLoop::start(vec![with_image.clone()], config(3, false), auth());
    assert_eq!(agent.messages()[0], with_image);
    let (agent, _) = agent.step(answer(Some("end_turn"), vec![said("a cat")]));
    assert_eq!(
        agent.messages()[0],
        Message {
            role: Role::User,
            content: MessageContent::Blocks(vec![
                ContentBlock::Text { text: "[image was sent]".into() },
                ContentBlock::Text { text: "what".into() },
            ]),
        }
    );
}

fn long_conversation(n: usize) -> Vec<Message> {
    let mut v = Vec::new();
    for i in 0..n {
        let role = if i % 2 == 0 { Role::User } else { Role::Assistant };
        v.push(text(role, &format!("m{}", i)));
    }
    v
}

#[test]
fn test_long_conversation_is_archived_and_summarised_first() {
    let mut c = config(3, false);
    c.max_session_messages = 4;
    c.compact_keep_recent = 3;
    let (agent, actions) = AgentLoop::start(long_conversation(7), c, auth());
    assert_eq!(actions, vec![Action::Archive, Action::Summarize]);
    assert_eq!(agent.phase(), Phase::Compacting);
    let request = agent.summary_request().unwrap();
    assert_eq!(request.len(), 1);
    if let MessageContent::Text(t) = &request[0].content {
        assert!(t.ends_with("\n\n---\n\n[user]: m0\n\n[assistant]: m1\n\n[user]: m2\n\n[assistant]: m3\n\n"));
    } else {
        panic!("Expected Text content");
    }
    let (agent, actions) = agent.step(LoopEvent::Summary(Some("sum".to_string())));
    assert_eq!(actions, vec![Action::CallLlm { streaming: false }]);
    assert_eq!(
        agent.messages(),
        &vec![
            text(Role::User, "[Conversation Summary]\nsum"),
            text(Role::Assistant, "Understood, I have the conversation context. How can I help?"),
            text(Role::User, "m4"),
            text(Role::Assistant, "m5"),
            text(Role::User, "m6"),
        ]
    );
}

#[test]
fn test_failed_summary_keeps_recent_part() {
    let mut c = config(3, false);
    c.max_session_messages = 4;
    c.compact_keep_recent = 3;
    let (agent, _) = AgentLoop::start(long_conversation(7), c, auth());
    let (agent, actions) = agent.step(LoopEvent::Summary(None));
    assert_eq!(actions, vec![Action::CallLlm { streaming: false }]);
    assert_eq!(
        agent.messages(),
        &vec![text(Role::User, "m4"), text(Role::Assistant, "m5"), text(Role::User, "m6")]
    );
}

#[test]
fn test_archive_without_summary_when_recent_part_covers_all() {
    let mut c = config(3, false);
    c.max_session_messages = 2;
    c.compact_keep_recent = 5;
    let (agent, actions) = AgentLoop::start(long_conversation(3), c, auth());
    assert_eq!(actions, vec![Action::Archive, Action::CallLlm { streaming: false }]);
    assert_eq!(agent.phase(), Phase::Thinking);
    assert!(agent.summary_request().is_none());
}

#[test]
fn test_text_delta_is_forwarded_only_to_listeners() {
    let (agent, _) = AgentLoop::start(vec![text(Role::User, "hi")], config(3, true), auth());
    let (agent, actions) = agent.step(LoopEvent::TextDelta("Hel".to_string()));
    assert_eq!(actions, vec![Action::Emit(AgentEvent::TextDelta { delta: "Hel".to_string() })]);
    assert_eq!(agent.phase(), Phase::Thinking);
    assert_eq!(agent.messages(), &vec![text(Role::User, "hi")]);
    let (quiet, _) = AgentLoop::start(vec![text(Role::User, "hi")], config(3, false), auth());
    let (_, actions) = quiet.step(LoopEvent::TextDelta("Hel".to_string()));
    assert!(actions.is_empty());
}

#[test]
fn test_session_text_is_what_is_kept() {
    let (agent, _) = AgentLoop::start(vec![text(Role::User, "hi")], config(3, false), auth());
    let (agent, actions) = agent.step(answer(Some("end_turn"), vec![said("yo")]));
    assert_eq!(actions[0], Action::Persist);
    assert_eq!(
        agent.session_text(),
        "[{\"role\":\"user\",\"content\":\"hi\"},{\"role\":\"assistant\",\"content\":\"yo\"}]"
    );
    assert_eq!(
        microclaw::session_codec::load_session(Some(&agent.session_text())).as_ref(),
        Some(agent.messages())
    );
}
