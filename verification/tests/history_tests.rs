use microclaw::chars::str_less;
use microclaw::history::{new_user_messages_since, recent_window, since_last_bot_window};
use microclaw::message::StoredMessage;
use microclaw::scheduler::is_due;

fn msg(id: &str, is_bot: bool, ts: &str) -> StoredMessage {
    StoredMessage {
        id: id.into(),
        chat_id: 1,
        sender_name: "s".into(),
        content: id.into(),
        is_from_bot: is_bot,
        timestamp: ts.into(),
    }
}

fn ids(list: &[StoredMessage]) -> Vec<String> {
    list.iter().map(|m| m.id.clone()).collect()
}

fn history() -> Vec<StoredMessage> {
    vec![
        msg("a", false, "2024-01-01T00:00:01Z"),
        msg("b", true, "2024-01-01T00:00:02Z"),
        msg("c", false, "2024-01-01T00:00:03Z"),
        msg("d", true, "2024-01-01T00:00:04Z"),
        msg("e", false, "2024-01-01T00:00:05Z"),
        msg("f", false, "2024-01-01T00:00:06Z"),
    ]
}

#[test]
fn test_recent_window() {
    let h = history();
    assert_eq!(ids(recent_window(&h, 2)), vec!["e", "f"]);
    assert_eq!(ids(recent_window(&h, 6)), vec!["a", "b", "c", "d", "e", "f"]);
    assert_eq!(ids(recent_window(&h, 60)).len(), 6);
    assert!(recent_window(&h, 0).is_empty());
    assert!(recent_window(&[], 5).is_empty());
}

#[test]
fn test_since_last_bot_window() {
    let h = history();
    assert_eq!(ids(since_last_bot_window(&h, 50, 50)), vec!["d", "e", "f"]);
    assert_eq!(ids(since_last_bot_window(&h, 2, 50)), vec!["e", "f"]);
    let never: Vec<StoredMessage> = h.iter().filter(|m| !m.is_from_bot).cloned().collect();
    assert_eq!(ids(since_last_bot_window(&never, 50, 3)), vec!["c", "e", "f"]);
    assert_eq!(ids(since_last_bot_window(&never, 1, 50)).len(), 4);
    assert!(since_last_bot_window(&[], 5, 5).is_empty());
    assert_eq!(ids(since_last_bot_window(&h[..4], 50, 50)), vec!["d"]);
}

#[test]
fn test_new_user_messages_since() {
    let h = history();
    assert_eq!(ids(&new_user_messages_since(&h, "2024-01-01T00:00:03Z")), vec!["e", "f"]);
    assert_eq!(ids(&new_user_messages_since(&h, "")), vec!["a", "c", "e", "f"]);
    assert!(new_user_messages_since(&h, "2024-01-01T00:00:06Z").is_empty());
    assert!(new_user_messages_since(&h, "2025").is_empty());
}

#[test]
fn test_is_due() {
    assert!(is_due("active", Some("2024-01-01T00:00:00+00:00"), "2024-01-01T00:00:00+00:00"));
    assert!(is_due("active", Some("2024-01-01T00:00:00+00:00"), "2024-01-01T00:01:00+00:00"));
    assert!(!is_due("active", Some("2024-01-01T00:02:00+00:00"), "2024-01-01T00:01:00+00:00"));
    assert!(!is_due("paused", Some("2024-01-01T00:00:00+00:00"), "2024-01-01T00:01:00+00:00"));
    assert!(!is_due("active", None, "2024-01-01T00:01:00+00:00"));
}

#[test]
fn test_str_less_agrees_with_std() {
    let samples = ["", "a", "ab", "b", "B", "\u{00e9}", "\u{1F600}", "a\u{00e9}", "2024", "2025"];
    for a in samples {
        for b in samples {
            assert_eq!(str_less(a, b), a < b, "{a:?} {b:?}");
        }
    }
}
