//! Answers to the commands that ask about the bot itself.

use crate::chars::{
    decimal_nat, from_chars, matches_at, matches_at_exec, push_decimal_nat, str_eq, to_chars, trim,
    trim_bounds, trim_exec,
};
use crate::config::Config;
use vstd::prelude::*;
use vstd::string::*;

verus! {

/// What follows the command word `/model` in a command, white space
/// aside; nothing where the command does not begin with that word.
pub open spec fn requested_model(command: Seq<char>) -> Seq<char> {
    let t = trim(command);
    if matches_at(t, "/model"@, 0) {
        trim(t.skip("/model"@.len() as int))
    } else {
        Seq::empty()
    }
}

/// The line that names the provider and the model in use.
pub open spec fn current_model_line(provider: Seq<char>, model: Seq<char>) -> Seq<char> {
    "Current provider/model: "@ + trim(provider) + " / "@ + trim(model)
}

/// The answer to the model command: the provider and model in use, after
/// a note that switching is not possible where a model was asked for.
pub open spec fn model_response(provider: Seq<char>, model: Seq<char>, command: Seq<char>) -> Seq<
    char,
> {
    if requested_model(command).len() == 0 {
        current_model_line(provider, model)
    } else {
        "Model switching is not supported yet. "@ + current_model_line(provider, model)
    }
}

fn push_current_model(out: &mut String, config: &Config)
    ensures
        final(out)@ == old(out)@ + current_model_line(config.llm_provider@, config.model@),
{
    let provider = trim_exec(config.llm_provider.as_str());
    let model = trim_exec(config.model.as_str());
    out.append("Current provider/model: ");
    out.append(provider.as_str());
    out.append(" / ");
    out.append(model.as_str());
    assert(out@ =~= old(out)@ + current_model_line(config.llm_provider@, config.model@));
}

/// Answers the model command.
pub fn build_model_response(config: &Config, command_text: &str) -> (r: String)
    ensures
        r@ == model_response(config.llm_provider@, config.model@, command_text@),
{
    let v = to_chars(command_text);
    let (lo, hi) = trim_bounds(&v, 0, v.len());
    assert(v@.subrange(0, v.len() as int) =~= v@);
    let ghost t = trim(command_text@);
    let word = to_chars("/model");
    let trimmed = from_chars(&v, lo, hi);
    let tv = to_chars(trimmed.as_str());
    let asked = if matches_at_exec(&tv, &word, 0) {
        let (a, b) = trim_bounds(&tv, word.len(), tv.len());
        assert(tv@.subrange(word.len() as int, tv.len() as int) =~= t.skip(
            "/model"@.len() as int,
        ));
        b > a
    } else {
        false
    };
    let mut out = String::new();
    if asked {
        out.append("Model switching is not supported yet. ");
    }
    push_current_model(&mut out, config);
    assert(out@ =~= model_response(config.llm_provider@, config.model@, command_text@));
    out
}

/// What is known of the conversation kept for a chat.
#[derive(Debug, PartialEq, Eq)]
pub enum SessionStatus {
    /// One is kept, with this many messages, saved at this time.
    Active { messages: usize, updated_at: String },
    /// None is kept.
    Empty,
    /// The store could not say; this is why.
    Unavailable(String),
}

/// What is known of the scheduled tasks of a chat.
#[derive(Debug, PartialEq, Eq)]
pub enum TaskStatuses {
    /// The status of each task.
    Known(Vec<String>),
    /// The store could not say; this is why.
    Unavailable(String),
}

/// The line on the kept conversation.
pub open spec fn session_line(status: SessionStatus) -> Seq<char> {
    match status {
        SessionStatus::Active { messages, updated_at } => "Session: active ("@ + decimal_nat(
            messages as nat,
        ) + " messages, updated at "@ + updated_at@ + ")"@,
        SessionStatus::Empty => "Session: empty"@,
        SessionStatus::Unavailable(why) => "Session: unavailable ("@ + why@ + ")"@,
    }
}

/// How many of the tasks have the status `wanted`.
pub open spec fn count_status(statuses: Seq<String>, wanted: Seq<char>) -> nat
    decreases statuses.len(),
{
    if statuses.len() == 0 {
        0
    } else {
        count_status(statuses.drop_last(), wanted) + (if statuses.last()@ == wanted {
            1nat
        } else {
            0nat
        })
    }
}

/// The line on the scheduled tasks, for these counts.
pub open spec fn task_counts_line(
    active: nat,
    paused: nat,
    completed: nat,
    cancelled: nat,
    other: nat,
) -> Seq<char> {
    let known = "Scheduled tasks: total="@ + decimal_nat(
        active + paused + completed + cancelled + other,
    ) + ", active="@ + decimal_nat(active) + ", paused="@ + decimal_nat(paused) + ", completed="@
        + decimal_nat(completed) + ", cancelled="@ + decimal_nat(cancelled);
    if other == 0 {
        known
    } else {
        known + ", other="@ + decimal_nat(other)
    }
}

/// The line on the scheduled tasks.
pub open spec fn task_line(tasks: TaskStatuses) -> Seq<char> {
    match tasks {
        TaskStatuses::Known(statuses) => {
            let active = count_status(statuses@, "active"@);
            let paused = count_status(statuses@, "paused"@);
            let completed = count_status(statuses@, "completed"@);
            let cancelled = count_status(statuses@, "cancelled"@);
            task_counts_line(
                active,
                paused,
                completed,
                cancelled,
                (statuses@.len() - active - paused - completed - cancelled) as nat,
            )
        },
        TaskStatuses::Unavailable(why) => "Scheduled tasks: unavailable ("@ + why@ + ")"@,
    }
}

/// The answer to the status command.
pub open spec fn status_response(
    provider: Seq<char>,
    model: Seq<char>,
    caller_channel: Seq<char>,
    session: SessionStatus,
    tasks: TaskStatuses,
) -> Seq<char> {
    "Status\nChannel: "@ + caller_channel + "\nProvider: "@ + trim(provider) + "\nModel: "@ + trim(
        model,
    ) + "\n"@ + session_line(session) + "\n"@ + task_line(tasks)
}

fn push_session_line(out: &mut String, session: &SessionStatus)
    ensures
        final(out)@ == old(out)@ + session_line(*session),
{
    match session {
        SessionStatus::Active { messages, updated_at } => {
            out.append("Session: active (");
            push_decimal_nat(out, *messages as u128);
            out.append(" messages, updated at ");
            out.append(updated_at.as_str());
            out.append(")");
        },
        SessionStatus::Empty => {
            out.append("Session: empty");
        },
        SessionStatus::Unavailable(why) => {
            out.append("Session: unavailable (");
            out.append(why.as_str());
            out.append(")");
        },
    }
    assert(out@ =~= old(out)@ + session_line(*session));
}

/// The counts of the four known statuses are disjoint parts of the whole.
proof fn lemma_counts_within(statuses: Seq<String>)
    ensures
        count_status(statuses, "active"@) + count_status(statuses, "paused"@) + count_status(
            statuses,
            "completed"@,
        ) + count_status(statuses, "cancelled"@) <= statuses.len(),
    decreases statuses.len(),
{
    reveal_strlit("active");
    reveal_strlit("paused");
    reveal_strlit("completed");
    reveal_strlit("cancelled");
    if statuses.len() > 0 {
        lemma_counts_within(statuses.drop_last());
        let last = statuses.last()@;
        if last == "active"@ {
            assert(last.len() == 6);
        }
        if last == "paused"@ {
            assert(last[0] == 'p');
        }
        if last == "completed"@ {
            assert(last.len() == 9);
        }
        if last == "cancelled"@ {
            assert(last[1] == 'a');
        }
    }
}

fn count_one(statuses: &Vec<String>, wanted: &str) -> (r: usize)
    ensures
        r == count_status(statuses@, wanted@),
{
    let mut n: usize = 0;
    let mut i: usize = 0;
    while i < statuses.len()
        invariant
            i <= statuses.len(),
            n <= i,
            n == count_status(statuses@.take(i as int), wanted@),
        decreases statuses.len() - i,
    {
        proof {
            assert(statuses@.take(i + 1).drop_last() =~= statuses@.take(i as int));
            assert(statuses@.take(i + 1).last() == statuses@[i as int]);
        }
        if str_eq(statuses[i].as_str(), wanted) {
            n += 1;
        }
        i += 1;
    }
    assert(statuses@.take(statuses.len() as int) =~= statuses@);
    n
}

fn counts_line(active: usize, paused: usize, completed: usize, cancelled: usize, other: usize) -> (r:
    String)
    requires
        active + paused + completed + cancelled + other <= usize::MAX,
    ensures
        r@ == task_counts_line(
            active as nat,
            paused as nat,
            completed as nat,
            cancelled as nat,
            other as nat,
        ),
{
    let total = active + paused + completed + cancelled + other;
    let mut line = "Scheduled tasks: total=".to_owned();
    push_decimal_nat(&mut line, total as u128);
    line.append(", active=");
    push_decimal_nat(&mut line, active as u128);
    line.append(", paused=");
    push_decimal_nat(&mut line, paused as u128);
    line.append(", completed=");
    push_decimal_nat(&mut line, completed as u128);
    line.append(", cancelled=");
    push_decimal_nat(&mut line, cancelled as u128);
    if other != 0 {
        line.append(", other=");
        push_decimal_nat(&mut line, other as u128);
    }
    line
}

fn push_task_line(out: &mut String, tasks: &TaskStatuses)
    ensures
        final(out)@ == old(out)@ + task_line(*tasks),
{
    match tasks {
        TaskStatuses::Known(statuses) => {
            let active = count_one(statuses, "active");
            let paused = count_one(statuses, "paused");
            let completed = count_one(statuses, "completed");
            let cancelled = count_one(statuses, "cancelled");
            proof {
                lemma_counts_within(statuses@);
            }
            let other = statuses.len() - active - paused - completed - cancelled;
            let line = counts_line(active, paused, completed, cancelled, other);
            out.append(line.as_str());
        },
        TaskStatuses::Unavailable(why) => {
            out.append("Scheduled tasks: unavailable (");
            out.append(why.as_str());
            out.append(")");
            assert(out@ =~= old(out)@ + task_line(*tasks));
        },
    }
}

/// Answers the status command, given what the store knows of the chat.
pub fn build_status_response(
    config: &Config,
    caller_channel: &str,
    session: &SessionStatus,
    tasks: &TaskStatuses,
) -> (r: String)
    ensures
        r@ == status_response(
            config.llm_provider@,
            config.model@,
            caller_channel@,
            *session,
            *tasks,
        ),
{
    let provider = trim_exec(config.llm_provider.as_str());
    let model = trim_exec(config.model.as_str());
    let mut out = String::new();
    out.append("Status\nChannel: ");
    out.append(caller_channel);
    out.append("\nProvider: ");
    out.append(provider.as_str());
    out.append("\nModel: ");
    out.append(model.as_str());
    out.append("\n");
    push_session_line(&mut out, session);
    out.append("\n");
    push_task_line(&mut out, tasks);
    assert(out@ =~= status_response(
        config.llm_provider@,
        config.model@,
        caller_channel@,
        *session,
        *tasks,
    ));
    out
}

} // verus!
