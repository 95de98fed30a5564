use microclaw::run_control::{
    abort_runs, is_aborted_source_message, is_cancelled, register_run, unregister_run,
    RunRegistry, STOPPED_TEXT,
};

#[test]
fn test_abort_runs_marks_cancelled() {
    let mut registry = RunRegistry::new(100);
    let channel = "test.abort";
    let chat_id = 101;
    let (run_id, cancelled, _notify) =
        register_run(&mut registry, channel, chat_id, Some("u1".to_string()));
    assert!(!is_cancelled(&cancelled));

    let aborted = abort_runs(&mut registry, channel, chat_id);
    assert_eq!(aborted, 1);
    assert!(is_cancelled(&cancelled));
    assert!(is_aborted_source_message(&registry, channel, chat_id, "u1"));

    unregister_run(&mut registry, channel, chat_id, run_id);
}

#[test]
fn test_abort_runs_without_active_returns_zero() {
    let mut registry = RunRegistry::new(100);
    let aborted = abort_runs(&mut registry, "test.none", 999);
    assert_eq!(aborted, 0);
}

#[test]
fn test_register_run_numbers_increase_from_one() {
    let mut registry = RunRegistry::new(10);
    let (a, _, _) = register_run(&mut registry, "c", 1, None);
    let (b, _, _) = register_run(&mut registry, "c", 1, None);
    let (c, _, _) = register_run(&mut registry, "d", 2, None);
    assert_eq!((a, b, c), (1, 2, 3));
    assert_eq!(registry.active_count(), 3);
}

#[test]
fn test_unregister_removes_exactly_that_run() {
    let mut registry = RunRegistry::new(10);
    let (a, fa, _) = register_run(&mut registry, "c", 1, None);
    let (b, fb, _) = register_run(&mut registry, "c", 1, None);
    unregister_run(&mut registry, "c", 2, a);
    unregister_run(&mut registry, "x", 1, a);
    assert_eq!(registry.active_count(), 2);
    unregister_run(&mut registry, "c", 1, a);
    assert_eq!(registry.active_count(), 1);
    assert_eq!(abort_runs(&mut registry, "c", 1), 1);
    assert!(!is_cancelled(&fa));
    assert!(is_cancelled(&fb));
    unregister_run(&mut registry, "c", 1, b);
    assert_eq!(registry.active_count(), 0);
}

#[test]
fn test_abort_runs_stops_only_that_chat() {
    let mut registry = RunRegistry::new(10);
    let (_, f1, _) = register_run(&mut registry, "tg", 1, Some("m1".to_string()));
    let (_, f2, _) = register_run(&mut registry, "tg", 2, Some("m2".to_string()));
    let (_, f3, _) = register_run(&mut registry, "web", 1, Some("m3".to_string()));
    let (_, f4, _) = register_run(&mut registry, "tg", 1, None);
    assert_eq!(abort_runs(&mut registry, "tg", 1), 2);
    assert!(is_cancelled(&f1));
    assert!(!is_cancelled(&f2));
    assert!(!is_cancelled(&f3));
    assert!(is_cancelled(&f4));
    assert_eq!(registry.active_count(), 2);
    assert!(is_aborted_source_message(&registry, "tg", 1, "m1"));
    assert!(!is_aborted_source_message(&registry, "tg", 2, "m1"));
    assert!(!is_aborted_source_message(&registry, "web", 1, "m1"));
    assert!(!is_aborted_source_message(&registry, "tg", 2, "m2"));
    assert_eq!(abort_runs(&mut registry, "tg", 1), 0);
}

#[test]
fn test_aborted_ids_are_bounded() {
    let mut registry = RunRegistry::new(2);
    for id in ["a", "b", "c"] {
        register_run(&mut registry, "tg", 1, Some(id.to_string()));
        assert_eq!(abort_runs(&mut registry, "tg", 1), 1);
    }
    assert!(!is_aborted_source_message(&registry, "tg", 1, "a"));
    assert!(is_aborted_source_message(&registry, "tg", 1, "b"));
    assert!(is_aborted_source_message(&registry, "tg", 1, "c"));
    let mut none = RunRegistry::new(0);
    register_run(&mut none, "tg", 1, Some("a".to_string()));
    assert_eq!(abort_runs(&mut none, "tg", 1), 1);
    assert!(!is_aborted_source_message(&none, "tg", 1, "a"));
}

#[test]
fn test_abort_wakes_waiter() {
    let mut registry = RunRegistry::new(2);
    let (_, flag, notify) = register_run(&mut registry, "tg", 1, None);
    let runtime = tokio::runtime::Builder::new_current_thread().enable_time().build().unwrap();
    runtime.block_on(async {
        let mut waiting = Box::pin(notify.notified());
        waiting.as_mut().enable();
        assert_eq!(abort_runs(&mut registry, "tg", 1), 1);
        tokio::time::timeout(std::time::Duration::from_secs(5), waiting).await.unwrap();
    });
    assert!(is_cancelled(&flag));
}

#[test]
fn test_stopped_text() {
    assert_eq!(STOPPED_TEXT, "Current run aborted.");
}
