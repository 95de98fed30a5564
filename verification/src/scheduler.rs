//! What the scheduler decides for a due task: how the agent is asked, what
//! is delivered and logged once it has answered, and when the task runs
//! next.

use crate::chars::{opt_text, decimal, push_decimal, str_eq};
use crate::text::{clip_bytes, clipped};
use std::str::FromStr;
use vstd::prelude::*;
use vstd::string::*;

verus! {

/// Seconds between two looks at the due tasks.
pub const TICK_SECONDS: u64 = 60;

/// A summary of a task's answer is cut down to this many bytes.
pub const SUMMARY_LIMIT: usize = 200;

/// `cron::Schedule`, a parsed cron expression.
#[verifier::external_type_specification]
#[verifier::external_body]
pub struct ExSchedule(cron::Schedule);

/// `cron::error::Error`, why an expression is no cron expression.
#[verifier::external_type_specification]
#[verifier::external_body]
pub struct ExCronError(cron::error::Error);

/// `chrono_tz::Tz`, a time zone of the IANA database.
#[verifier::external_type_specification]
#[verifier::external_body]
pub struct ExTz(chrono_tz::Tz);

/// Whether `cron::Schedule::from_str` accepts the expression.
pub uninterp spec fn cron_valid(expression: Seq<char>) -> bool;

/// `cron::Schedule::from_str`: parses a cron expression. The claim is
/// that whether it succeeds depends on the expression alone; nothing is
/// claimed of the schedule or of the error.
#[verifier::external_body]
fn parse_schedule(expression: &str) -> (r: Result<cron::Schedule, cron::error::Error>)
    ensures
        r is Ok <==> cron_valid(expression@),
{
    cron::Schedule::from_str(expression)
}

/// `chrono_tz::Tz::from_str`: looks a time zone up by its IANA name;
/// `None` where the name is not in the database. Nothing is claimed of
/// the result.
#[verifier::external_body]
fn parse_timezone(name: &str) -> Option<chrono_tz::Tz> {
    chrono_tz::Tz::from_str(name).ok()
}

/// `chrono_tz::Tz::UTC`, the time zone UTC. Nothing is claimed of the
/// value.
#[verifier::external_body]
fn utc_timezone() -> chrono_tz::Tz {
    chrono_tz::Tz::UTC
}

/// `cron::Schedule::upcoming`: the first time after the present moment at
/// which the schedule fires in the time zone, written by
/// `chrono::DateTime::to_rfc3339`; `None` where it never fires again. The
/// result depends on the clock, so nothing is claimed of it.
#[verifier::external_body]
fn next_occurrence(schedule: &cron::Schedule, timezone: chrono_tz::Tz) -> Option<String> {
    schedule.upcoming(timezone).next().map(|t| t.to_rfc3339())
}

/// A task that runs on a schedule.
#[derive(Debug, PartialEq, Eq)]
pub struct ScheduledTask {
    pub id: i64,
    pub chat_id: i64,
    pub prompt: String,
    pub schedule_type: String,
    pub schedule_value: String,
    pub status: String,
}

/// Whether a chat is between two or among many.
#[derive(Clone, Copy, Debug, PartialEq, Eq, Structural)]
pub enum ConversationKind {
    Private,
    Group,
}

/// The name under which the agent knows a kind of conversation.
pub open spec fn chat_type_name(kind: ConversationKind) -> Seq<char> {
    match kind {
        ConversationKind::Private => "private"@,
        ConversationKind::Group => "group"@,
    }
}

impl ConversationKind {
    /// The name under which the agent knows this kind of conversation.
    pub fn as_agent_chat_type(&self) -> (r: &'static str)
        ensures
            r@ == chat_type_name(*self),
    {
        match self {
            ConversationKind::Private => "private",
            ConversationKind::Group => "group",
        }
    }
}

/// Through which channel a chat is reached, and of which kind it is.
#[derive(Debug, PartialEq, Eq)]
pub struct ChatRouting {
    pub channel: String,
    pub conversation: ConversationKind,
}

/// The channel that is taken where nothing is known of a chat.
pub const FALLBACK_CHANNEL: &'static str = "telegram";

/// For whom the agent works in a turn.
#[derive(Debug, PartialEq, Eq)]
pub struct AgentRequestContext {
    pub caller_channel: String,
    pub chat_id: i64,
    pub chat_type: String,
}

/// What the agent is asked for a due task: the task's prompt as a
/// scheduled turn, without an image.
#[derive(Debug, PartialEq, Eq)]
pub struct AgentRequest {
    pub context: AgentRequestContext,
    pub override_prompt: String,
}

/// How the agent is asked for a due task. Where nothing is known of the
/// chat's routing, it counts as a private chat on the fallback channel.
pub fn plan_task_run(task: &ScheduledTask, routing: Option<ChatRouting>) -> (r: AgentRequest)
    ensures
        r.context.chat_id == task.chat_id,
        r.override_prompt@ == task.prompt@,
        r.context.caller_channel@ == (match routing {
            Some(x) => x.channel@,
            None => FALLBACK_CHANNEL@,
        }),
        r.context.chat_type@ == (match routing {
            Some(x) => chat_type_name(x.conversation),
            None => chat_type_name(ConversationKind::Private),
        }),
{
    let (channel, kind) = match routing {
        Some(x) => (x.channel, x.conversation),
        None => (FALLBACK_CHANNEL.to_owned(), ConversationKind::Private),
    };
    AgentRequest {
        context: AgentRequestContext {
            caller_channel: channel,
            chat_id: task.chat_id,
            chat_type: kind.as_agent_chat_type().to_owned(),
        },
        override_prompt: task.prompt.clone(),
    }
}

/// The summary of an answer: the answer itself, or its first 200 bytes
/// cut on a character boundary, followed by three dots.
pub open spec fn response_summary(response: Seq<char>) -> Seq<char> {
    clipped(response, SUMMARY_LIMIT as int, "..."@)
}

/// What is sent to the chat when a task has failed.
pub open spec fn failure_notice(task_id: i64, error: Seq<char>) -> Seq<char> {
    "Scheduled task #"@ + decimal(task_id as int) + " failed: "@ + error
}

/// What is logged as the summary of a task that has failed.
pub open spec fn failure_summary(error: Seq<char>) -> Seq<char> {
    "Error: "@ + error
}

/// What a run of a task came to.
#[derive(Debug, PartialEq, Eq)]
pub struct TaskOutcome {
    /// Whether the agent answered.
    pub success: bool,
    /// What is logged of the answer or of the error.
    pub summary: Option<String>,
    /// What is sent to the chat, if anything.
    pub delivery: Option<String>,
}

/// The view of what the agent came back with.
pub open spec fn result_view(result: Result<String, String>) -> Result<Seq<char>, Seq<char>> {
    match result {
        Ok(s) => Ok(s@),
        Err(e) => Err(e@),
    }
}

/// Whether a run counts as a success.
pub open spec fn outcome_success(result: Result<Seq<char>, Seq<char>>) -> bool {
    result is Ok
}

/// What is logged as the summary of a run.
pub open spec fn outcome_summary(result: Result<Seq<char>, Seq<char>>) -> Option<Seq<char>> {
    match result {
        Ok(response) => Some(response_summary(response)),
        Err(error) => Some(failure_summary(error)),
    }
}

/// What is sent to the chat after a run: the answer unless it is empty,
/// or a notice of the failure.
pub open spec fn outcome_delivery(task_id: i64, result: Result<Seq<char>, Seq<char>>) -> Option<
    Seq<char>,
> {
    match result {
        Ok(response) => if response.len() > 0 {
            Some(response)
        } else {
            None
        },
        Err(error) => Some(failure_notice(task_id, error)),
    }
}

/// What a run of the task `task_id` came to, given the agent's answer or
/// the error it ended with.
pub fn task_outcome(task_id: i64, result: &Result<String, String>) -> (r: TaskOutcome)
    ensures
        r.success == outcome_success(result_view(*result)),
        opt_text(r.summary) == outcome_summary(result_view(*result)),
        opt_text(r.delivery) == outcome_delivery(task_id, result_view(*result)),
{
    match result {
        Ok(response) => {
            let delivery = if response.as_str().is_empty() {
                None
            } else {
                Some(response.clone())
            };
            let summary = clip_bytes(response.as_str(), SUMMARY_LIMIT, "...");
            TaskOutcome { success: true, summary: Some(summary), delivery }
        },
        Err(error) => {
            let mut notice = String::new();
            notice.append("Scheduled task #");
            push_decimal(&mut notice, task_id);
            notice.append(" failed: ");
            notice.append(error.as_str());
            assert(notice@ =~= failure_notice(task_id, error@));
            let mut summary = String::new();
            summary.append("Error: ");
            summary.append(error.as_str());
            assert(summary@ =~= failure_summary(error@));
            TaskOutcome { success: false, summary: Some(summary), delivery: Some(notice) }
        },
    }
}

/// Whether a task of this kind, with this schedule, can have a next run:
/// only a `cron` task whose expression is a cron expression.
pub open spec fn may_run_again(schedule_type: Seq<char>, schedule_value: Seq<char>) -> bool {
    schedule_type == "cron"@ && cron_valid(schedule_value)
}

/// The next run of a task, given what the schedule came back with: that
/// time for a task that can run again, none otherwise.
pub fn next_run_from(again: bool, upcoming: Option<String>) -> (r: Option<String>)
    ensures
        r == (if again {
            upcoming
        } else {
            None
        }),
{
    if again {
        upcoming
    } else {
        None
    }
}

/// When the task runs next, counted from the present moment in the time
/// zone `timezone` (UTC where the name is unknown). A task that ran once
/// has no next run, and neither has one whose expression is no cron
/// expression.
pub fn compute_next_run(schedule_type: &str, schedule_value: &str, timezone: &str) -> (r: Option<
    String,
>)
    ensures
        !may_run_again(schedule_type@, schedule_value@) ==> r is None,
{
    if !str_eq(schedule_type, "cron") {
        return next_run_from(false, None);
    }
    let zone = match parse_timezone(timezone) {
        Some(z) => z,
        None => utc_timezone(),
    };
    match parse_schedule(schedule_value) {
        Ok(schedule) => next_run_from(true, next_occurrence(&schedule, zone)),
        Err(_) => next_run_from(false, None),
    }
}

/// One row of the log of runs.
#[derive(Debug, PartialEq, Eq)]
pub struct TaskRunLog {
    pub task_id: i64,
    pub chat_id: i64,
    pub started_at: String,
    pub finished_at: String,
    pub duration_ms: i64,
    pub success: bool,
    pub result_summary: Option<String>,
}

/// What is to be done once a task has run.
#[derive(Debug, PartialEq, Eq)]
pub struct TaskCompletion {
    /// What is sent to the chat, if anything.
    pub delivery: Option<String>,
    /// The row for the log of runs.
    pub log: TaskRunLog,
    /// When the task ran last: when this run began.
    pub last_run: String,
    /// When the task runs next, if it does.
    pub next_run: Option<String>,
}

/// What is to be done once a task has run, given when the run began and
/// ended, what the agent came back with, and when the task runs next.
pub fn complete_task_run(
    task: &ScheduledTask,
    started_at: &str,
    finished_at: &str,
    duration_ms: i64,
    result: &Result<String, String>,
    next_run: Option<String>,
) -> (r: TaskCompletion)
    ensures
        opt_text(r.delivery) == outcome_delivery(task.id, result_view(*result)),
        r.log.task_id == task.id,
        r.log.chat_id == task.chat_id,
        r.log.started_at@ == started_at@,
        r.log.finished_at@ == finished_at@,
        r.log.duration_ms == duration_ms,
        r.log.success == outcome_success(result_view(*result)),
        opt_text(r.log.result_summary) == outcome_summary(result_view(*result)),
        r.last_run@ == started_at@,
        r.next_run == next_run,
{
    let outcome = task_outcome(task.id, result);
    let TaskOutcome { success, summary, delivery } = outcome;
    TaskCompletion {
        delivery,
        log: TaskRunLog {
            task_id: task.id,
            chat_id: task.chat_id,
            started_at: started_at.to_owned(),
            finished_at: finished_at.to_owned(),
            duration_ms,
            success,
            result_summary: summary,
        },
        last_run: started_at.to_owned(),
        next_run,
    }
}

/// What is to be done once a task has run; the next run is worked out
/// from the task's schedule and the present moment.
pub fn finish_task_run(
    task: &ScheduledTask,
    started_at: &str,
    finished_at: &str,
    duration_ms: i64,
    result: &Result<String, String>,
    timezone: &str,
) -> (r: TaskCompletion)
    ensures
        opt_text(r.delivery) == outcome_delivery(task.id, result_view(*result)),
        r.log.task_id == task.id,
        r.log.chat_id == task.chat_id,
        r.log.started_at@ == started_at@,
        r.log.finished_at@ == finished_at@,
        r.log.duration_ms == duration_ms,
        r.log.success == outcome_success(result_view(*result)),
        opt_text(r.log.result_summary) == outcome_summary(result_view(*result)),
        r.last_run@ == started_at@,
        !may_run_again(task.schedule_type@, task.schedule_value@) ==> r.next_run is None,
{
    let next_run = compute_next_run(
        task.schedule_type.as_str(),
        task.schedule_value.as_str(),
        timezone,
    );
    complete_task_run(task, started_at, finished_at, duration_ms, result, next_run)
}

/// Whether a task is due at the moment `now`: it is active and the
/// moment of its next run has come. Moments are compared as they are
/// written.
pub open spec fn due(status: Seq<char>, next_run: Option<Seq<char>>, now: Seq<char>) -> bool {
    status == "active"@ && match next_run {
        Some(n) => !crate::chars::text_less(now, n),
        None => false,
    }
}

/// Whether a task is due at the moment `now`.
pub fn is_due(status: &str, next_run: Option<&str>, now: &str) -> (r: bool)
    ensures
        r == due(
            status@,
            match next_run {
                Some(n) => Some(n@),
                None => None,
            },
            now@,
        ),
{
    if !str_eq(status, "active") {
        return false;
    }
    match next_run {
        Some(n) => !crate::chars::str_less(now, n),
        None => false,
    }
}

} // verus!
