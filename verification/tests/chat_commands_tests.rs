use microclaw::chat_commands::{
    build_model_response, build_status_response, SessionStatus, TaskStatuses,
};
use microclaw::config::Config;

fn config() -> Config {
    Config {
        bot_username: "bot".to_string(),
        llm_provider: " acme ".to_string(),
        model: "model-x\n".to_string(),
        max_tool_iterations: 25,
        max_history_messages: 50,
        max_session_messages: 40,
        compact_keep_recent: 20,
        show_thinking: false,
        timezone: "UTC".to_string(),
        control_chat_ids: vec![1, 2],
        allowed_groups: vec![],
    }
}

#[test]
fn test_build_model_response_current() {
    assert_eq!(
        build_model_response(&config(), "/model"),
        "Current provider/model: acme / model-x"
    );
    assert_eq!(
        build_model_response(&config(), "  /model   "),
        "Current provider/model: acme / model-x"
    );
    assert_eq!(
        build_model_response(&config(), "hello"),
        "Current provider/model: acme / model-x"
    );
}

#[test]
fn test_build_model_response_switch_not_supported() {
    assert_eq!(
        build_model_response(&config(), "/model gpt-9"),
        "Model switching is not supported yet. Current provider/model: acme / model-x"
    );
    assert_eq!(
        build_model_response(&config(), "/models"),
        "Model switching is not supported yet. Current provider/model: acme / model-x"
    );
}

#[test]
fn test_build_status_response_counts_tasks() {
    let session = SessionStatus::Active { messages: 12, updated_at: "2024-01-01T00:00:00Z".to_string() };
    let tasks = TaskStatuses::Known(
        ["active", "paused", "active", "completed", "cancelled", "weird", "active"]
            .iter()
            .map(|s| s.to_string())
            .collect(),
    );
    assert_eq!(
        build_status_response(&config(), "web", &session, &tasks),
        "Status\nChannel: web\nProvider: acme\nModel: model-x\nSession: active (12 messages, updated at 2024-01-01T00:00:00Z)\nScheduled tasks: total=7, active=3, paused=1, completed=1, cancelled=1, other=1"
    );
}

#[test]
fn test_build_status_response_empty_and_unavailable() {
    assert_eq!(
        build_status_response(&config(), "telegram", &SessionStatus::Empty, &TaskStatuses::Known(vec![])),
        "Status\nChannel: telegram\nProvider: acme\nModel: model-x\nSession: empty\nScheduled tasks: total=0, active=0, paused=0, completed=0, cancelled=0"
    );
    assert_eq!(
        build_status_response(
            &config(),
            "telegram",
            &SessionStatus::Unavailable("db locked".to_string()),
            &TaskStatuses::Unavailable("db locked".to_string())
        ),
        "Status\nChannel: telegram\nProvider: acme\nModel: model-x\nSession: unavailable (db locked)\nScheduled tasks: unavailable (db locked)"
    );
}

#[test]
fn test_config_loop_config_and_tool_auth() {
    let c = config();
    let l = c.loop_config(true);
    assert_eq!(l.max_tool_iterations, 25);
    assert_eq!(l.max_session_messages, 40);
    assert_eq!(l.compact_keep_recent, 20);
    assert!(!l.show_thinking);
    assert!(l.streaming);
    let auth = c.tool_auth(77);
    assert_eq!(auth.caller_chat_id, 77);
    assert_eq!(auth.control_chat_ids, vec![1, 2]);
}
