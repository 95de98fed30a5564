use microclaw::scheduler::{
    complete_task_run, compute_next_run, finish_task_run, next_run_from, plan_task_run,
    task_outcome, ChatRouting, ConversationKind, ScheduledTask, TICK_SECONDS,
};

fn task(schedule_type: &str, schedule_value: &str) -> ScheduledTask {
    ScheduledTask {
        id: 7,
        chat_id: 42,
        prompt: "water the plants".to_string(),
        schedule_type: schedule_type.to_string(),
        schedule_value: schedule_value.to_string(),
        status: "active".to_string(),
    }
}

#[test]
fn test_tick_is_a_minute() {
    assert_eq!(TICK_SECONDS, 60);
}

#[test]
fn test_plan_task_run_uses_routing() {
    let t = task("cron", "0 * * * * *");
    let r = plan_task_run(
        &t,
        Some(ChatRouting { channel: "discord".to_string(), conversation: ConversationKind::Group }),
    );
    assert_eq!(r.context.caller_channel, "discord");
    assert_eq!(r.context.chat_id, 42);
    assert_eq!(r.context.chat_type, "group");
    assert_eq!(r.override_prompt, "water the plants");
}

#[test]
fn test_plan_task_run_falls_back_to_private_telegram() {
    let r = plan_task_run(&task("once", "x"), None);
    assert_eq!(r.context.caller_channel, "telegram");
    assert_eq!(r.context.chat_type, "private");
}

#[test]
fn test_task_outcome_success_short() {
    let o = task_outcome(7, &Ok("done".to_string()));
    assert!(o.success);
    assert_eq!(o.summary.as_deref(), Some("done"));
    assert_eq!(o.delivery.as_deref(), Some("done"));
}

#[test]
fn test_task_outcome_empty_answer_is_not_delivered() {
    let o = task_outcome(7, &Ok(String::new()));
    assert!(o.success);
    assert_eq!(o.summary.as_deref(), Some(""));
    assert_eq!(o.delivery, None);
}

#[test]
fn test_task_outcome_long_answer_summary_is_cut_on_boundary() {
    let answer = format!("ab{}", "\u{1F600}".repeat(60));
    assert_eq!(answer.len(), 242);
    let o = task_outcome(7, &Ok(answer.clone()));
    assert_eq!(o.delivery.as_deref(), Some(answer.as_str()));
    assert_eq!(o.summary, Some(format!("ab{}...", "\u{1F600}".repeat(49))));
    let exact = "x".repeat(200);
    assert_eq!(task_outcome(7, &Ok(exact.clone())).summary, Some(exact));
    let over = "x".repeat(201);
    assert_eq!(task_outcome(7, &Ok(over)).summary, Some(format!("{}...", "x".repeat(200))));
}

#[test]
fn test_task_outcome_failure() {
    let o = task_outcome(-3, &Err("boom".to_string()));
    assert!(!o.success);
    assert_eq!(o.summary.as_deref(), Some("Error: boom"));
    assert_eq!(o.delivery.as_deref(), Some("Scheduled task #-3 failed: boom"));
}

#[test]
fn test_next_run_from() {
    assert_eq!(next_run_from(true, Some("t".to_string())), Some("t".to_string()));
    assert_eq!(next_run_from(true, None), None);
    assert_eq!(next_run_from(false, Some("t".to_string())), None);
}

#[test]
fn test_compute_next_run_once_and_invalid() {
    assert_eq!(compute_next_run("once", "2030-01-01T00:00:00Z", "UTC"), None);
    assert_eq!(compute_next_run("cron", "not a cron", "UTC"), None);
    assert_eq!(compute_next_run("Cron", "0 * * * * *", "UTC"), None);
}

#[test]
fn test_compute_next_run_cron_is_in_the_future() {
    let next = compute_next_run("cron", "0 */5 * * * *", "UTC").unwrap();
    let at = chrono::DateTime::parse_from_rfc3339(&next).unwrap();
    let now = chrono::Utc::now();
    assert!(at.timestamp() > now.timestamp() - 1);
    assert!(at.timestamp() <= now.timestamp() + 300);
    assert_eq!(at.timestamp() % 300, 0);
    assert!(next.ends_with("+00:00"));
}

#[test]
fn test_compute_next_run_uses_time_zone_and_falls_back_to_utc() {
    let tokyo = compute_next_run("cron", "0 0 * * * *", "Asia/Tokyo").unwrap();
    assert!(tokyo.ends_with("+09:00"));
    let unknown = compute_next_run("cron", "0 0 * * * *", "Mars/Olympus").unwrap();
    assert!(unknown.ends_with("+00:00"));
}

#[test]
fn test_complete_task_run_builds_log_row() {
    let t = task("cron", "0 * * * * *");
    let c = complete_task_run(&t, "s", "f", 1234, &Ok("fine".to_string()), Some("n".to_string()));
    assert_eq!(c.delivery.as_deref(), Some("fine"));
    assert_eq!(c.log.task_id, 7);
    assert_eq!(c.log.chat_id, 42);
    assert_eq!(c.log.started_at, "s");
    assert_eq!(c.log.finished_at, "f");
    assert_eq!(c.log.duration_ms, 1234);
    assert!(c.log.success);
    assert_eq!(c.log.result_summary.as_deref(), Some("fine"));
    assert_eq!(c.last_run, "s");
    assert_eq!(c.next_run.as_deref(), Some("n"));
}

#[test]
fn test_finish_task_run_failure_still_completes() {
    let t = task("once", "2030-01-01T00:00:00Z");
    let c = finish_task_run(&t, "s", "f", 5, &Err("nope".to_string()), "UTC");
    assert!(!c.log.success);
    assert_eq!(c.delivery.as_deref(), Some("Scheduled task #7 failed: nope"));
    assert_eq!(c.log.result_summary.as_deref(), Some("Error: nope"));
    assert_eq!(c.next_run, None);
    let bad = finish_task_run(&task("cron", "bad"), "s", "f", 5, &Ok("x".to_string()), "UTC");
    assert_eq!(bad.next_run, None);
    let good = finish_task_run(&task("cron", "0 0 0 1 1 *"), "s", "f", 5, &Ok("x".to_string()), "UTC");
    assert!(good.next_run.unwrap().contains("-01-01T00:00:00+00:00"));
}
