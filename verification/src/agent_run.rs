//! Whole runs of the tool-use loop: what holds of every sequence of
//! events, however long.

use crate::agent::{
    emit_if, finished, next_iteration, owned_blocks, response_text, run_tool, shown_text, started,
    stepped, terminal, tool_calls, tool_result_block, tool_result_event, well_formed, ActionView,
    AgentEventView, LoopConfig, LoopEventView, LoopView, Phase, ToolAuthView, MAX_ITERATIONS_TEXT,
    NO_RESPONSE,
};
use crate::compaction::compaction_result;
use crate::message::{ContentView, MessageView, Role};
use vstd::prelude::*;

verus! {

/// How often the actions ask the model.
pub open spec fn count_calls(actions: Seq<ActionView>) -> nat
    decreases actions.len(),
{
    if actions.len() == 0 {
        0
    } else {
        count_calls(actions.drop_last()) + (if actions.last() is CallLlm {
            1nat
        } else {
            0nat
        })
    }
}

/// How often the actions ask for the conversation to be saved.
pub open spec fn count_persists(actions: Seq<ActionView>) -> nat
    decreases actions.len(),
{
    if actions.len() == 0 {
        0
    } else {
        count_persists(actions.drop_last()) + (if actions.last() is Persist {
            1nat
        } else {
            0nat
        })
    }
}

/// The state after the events came back one after the other.
pub open spec fn run_state(s: LoopView, events: Seq<LoopEventView>) -> LoopView
    decreases events.len(),
{
    if events.len() == 0 {
        s
    } else {
        run_state(stepped(s, events[0]).0, events.drop_first())
    }
}

/// All that was asked for while the events came back one after the other.
pub open spec fn run_actions(s: LoopView, events: Seq<LoopEventView>) -> Seq<ActionView>
    decreases events.len(),
{
    if events.len() == 0 {
        Seq::empty()
    } else {
        stepped(s, events[0]).1 + run_actions(stepped(s, events[0]).0, events.drop_first())
    }
}

/// The phase is one in which the conversation was saved.
pub open spec fn saved(p: Phase) -> bool {
    p == Phase::Done || p == Phase::MaxIterationsReached
}

proof fn lemma_counts_concat(a: Seq<ActionView>, b: Seq<ActionView>)
    ensures
        count_calls(a + b) == count_calls(a) + count_calls(b),
        count_persists(a + b) == count_persists(a) + count_persists(b),
    decreases b.len(),
{
    if b.len() == 0 {
        assert(a + b =~= a);
    } else {
        lemma_counts_concat(a, b.drop_last());
        assert((a + b).drop_last() =~= a + b.drop_last());
        assert((a + b).last() == b.last());
    }
}

proof fn lemma_counts_one(a: ActionView)
    ensures
        count_calls(seq![a]) == (if a is CallLlm {
            1nat
        } else {
            0nat
        }),
        count_persists(seq![a]) == (if a is Persist {
            1nat
        } else {
            0nat
        }),
{
    let one = seq![a];
    assert(one.len() == 1);
    assert(one.drop_last().len() == 0);
    assert(one.last() == a);
    assert(count_calls(one.drop_last()) == 0);
    assert(count_persists(one.drop_last()) == 0);
}

proof fn lemma_counts_emit(streaming: bool, e: AgentEventView)
    ensures
        count_calls(emit_if(streaming, e)) == 0,
        count_persists(emit_if(streaming, e)) == 0,
{
    if streaming {
        lemma_counts_one(ActionView::Emit(e));
    }
}

proof fn lemma_counts_finished(s: LoopView, phase: Phase, kept: Seq<char>, shown: Seq<char>)
    ensures
        count_calls(finished(s, phase, kept, shown).1) == 0,
        count_persists(finished(s, phase, kept, shown).1) == 1,
        finished(s, phase, kept, shown).0.iteration == s.iteration,
        finished(s, phase, kept, shown).0.phase == phase,
{
    let a = seq![ActionView::Persist];
    let b = emit_if(s.config.streaming, AgentEventView::FinalResponse { text: shown });
    let c = seq![ActionView::Reply(shown)];
    lemma_counts_one(ActionView::Persist);
    lemma_counts_emit(s.config.streaming, AgentEventView::FinalResponse { text: shown });
    lemma_counts_one(ActionView::Reply(shown));
    lemma_counts_concat(a, b);
    lemma_counts_concat(a + b, c);
}

proof fn lemma_counts_next_iteration(s: LoopView)
    requires
        s.iteration <= s.config.max_tool_iterations,
    ensures
        count_calls(next_iteration(s).1) == next_iteration(s).0.iteration - s.iteration,
        count_persists(next_iteration(s).1) == (if saved(next_iteration(s).0.phase) {
            1nat
        } else {
            0nat
        }),
        next_iteration(s).0.iteration <= s.config.max_tool_iterations,
        next_iteration(s).0.config == s.config,
{
    if s.iteration >= s.config.max_tool_iterations {
        lemma_counts_finished(
            s,
            Phase::MaxIterationsReached,
            MAX_ITERATIONS_TEXT@,
            MAX_ITERATIONS_TEXT@,
        );
    } else {
        let a = emit_if(
            s.config.streaming,
            AgentEventView::Iteration { iteration: s.iteration + 1 },
        );
        let b = seq![ActionView::CallLlm { streaming: s.config.streaming }];
        lemma_counts_emit(
            s.config.streaming,
            AgentEventView::Iteration { iteration: s.iteration + 1 },
        );
        lemma_counts_one(ActionView::CallLlm { streaming: s.config.streaming });
        lemma_counts_concat(a, b);
    }
}

/// In one step the model is asked exactly when a new round begins, and
/// the conversation is saved exactly when the turn ends with a reply or
/// with the budget used up.
pub proof fn lemma_step_counts(s: LoopView, e: LoopEventView)
    requires
        well_formed(s),
    ensures
        count_calls(stepped(s, e).1) == stepped(s, e).0.iteration - s.iteration,
        count_persists(stepped(s, e).1) == (if !terminal(s.phase) && saved(stepped(s, e).0.phase) {
            1nat
        } else {
            0nat
        }),
        stepped(s, e).0.config == s.config,
        terminal(s.phase) ==> stepped(s, e).0 == s,
{
    match e {
        LoopEventView::Summary(summary) => {
            if s.phase == Phase::Compacting {
                lemma_counts_next_iteration(
                    LoopView {
                        messages: compaction_result(
                            s.messages,
                            s.config.compact_keep_recent as int,
                            summary,
                        ),
                        ..s
                    },
                );
            }
        },
        LoopEventView::Response(r) => {
            if s.phase == Phase::Thinking {
                let stop = match r.stop_reason {
                    Some(x) => x,
                    None => "end_turn"@,
                };
                let text = response_text(r.content);
                if stop == "end_turn"@ || stop == "max_tokens"@ {
                    lemma_counts_finished(s, Phase::Done, text, shown_text(s.config, text));
                } else if stop == "tool_use"@ {
                    let calls = tool_calls(r.content);
                    let asked = s.messages.push(
                        MessageView {
                            role: Role::Assistant,
                            content: ContentView::Blocks(owned_blocks(r.content)),
                        },
                    );
                    if calls.len() == 0 {
                        lemma_counts_next_iteration(
                            LoopView {
                                messages: asked.push(
                                    MessageView {
                                        role: Role::User,
                                        content: ContentView::Blocks(Seq::empty()),
                                    },
                                ),
                                ..s
                            },
                        );
                    } else {
                        lemma_counts_emit(
                            s.config.streaming,
                            AgentEventView::ToolStart { name: calls[0].name },
                        );
                        lemma_counts_one(run_tool(calls[0], s.auth));
                        lemma_counts_concat(
                            emit_if(
                                s.config.streaming,
                                AgentEventView::ToolStart { name: calls[0].name },
                            ),
                            seq![run_tool(calls[0], s.auth)],
                        );
                    }
                } else {
                    lemma_counts_finished(
                        s,
                        Phase::Done,
                        text,
                        if text.len() == 0 {
                            NO_RESPONSE@
                        } else {
                            shown_text(s.config, text)
                        },
                    );
                }
            }
        },
        LoopEventView::TextDelta(delta) => {
            lemma_counts_emit(s.config.streaming, AgentEventView::TextDelta { delta });
        },
        LoopEventView::LlmFailed(error) => {
            lemma_counts_one(ActionView::Fail(error));
        },
        LoopEventView::ToolDone { content, is_error, duration_ms } => {
            if s.phase == Phase::ToolDispatch {
                let call = s.pending[s.results.len() as int];
                let report = emit_if(
                    s.config.streaming,
                    tool_result_event(call, content, is_error, duration_ms),
                );
                lemma_counts_emit(
                    s.config.streaming,
                    tool_result_event(call, content, is_error, duration_ms),
                );
                let results = s.results.push(tool_result_block(call, content, is_error));
                if results.len() < s.pending.len() {
                    let next = s.pending[results.len() as int];
                    let start = emit_if(
                        s.config.streaming,
                        AgentEventView::ToolStart { name: next.name },
                    );
                    lemma_counts_emit(
                        s.config.streaming,
                        AgentEventView::ToolStart { name: next.name },
                    );
                    lemma_counts_one(run_tool(next, s.auth));
                    lemma_counts_concat(report, start);
                    lemma_counts_concat(report + start, seq![run_tool(next, s.auth)]);
                } else {
                    let t = LoopView {
                        messages: s.messages.push(
                            MessageView {
                                role: Role::User,
                                content: ContentView::Blocks(results),
                            },
                        ),
                        ..s
                    };
                    lemma_counts_next_iteration(t);
                    lemma_counts_concat(report, next_iteration(t).1);
                }
            }
        },
        LoopEventView::Cancelled => {},
    }
}

/// Whatever comes back and in whatever order, the loop stays in a state
/// that it can reach, the model is asked exactly as often as rounds
/// begin, which is never more often than the budget allows, and the
/// conversation is saved at most once: exactly once in a run that ends
/// with a reply or with the budget used up, and never otherwise.
pub proof fn lemma_run_is_bounded(s: LoopView, events: Seq<LoopEventView>)
    requires
        well_formed(s),
    ensures
        well_formed(run_state(s, events)),
        run_state(s, events).config == s.config,
        s.iteration + count_calls(run_actions(s, events)) == run_state(s, events).iteration,
        run_state(s, events).iteration <= s.config.max_tool_iterations,
        terminal(s.phase) ==> run_state(s, events) == s && run_actions(s, events).len() == 0,
        count_persists(run_actions(s, events)) == (if !terminal(s.phase) && saved(
            run_state(s, events).phase,
        ) {
            1nat
        } else {
            0nat
        }),
    decreases events.len(),
{
    if events.len() > 0 {
        let next = stepped(s, events[0]).0;
        let first = stepped(s, events[0]).1;
        crate::agent::lemma_step_keeps_well_formed(s, events[0]);
        lemma_step_counts(s, events[0]);
        lemma_run_is_bounded(next, events.drop_first());
        lemma_counts_concat(first, run_actions(next, events.drop_first()));
        if terminal(s.phase) {
            crate::agent::lemma_ended_stays_ended(s, events[0]);
            assert(first + run_actions(next, events.drop_first()) =~= Seq::<ActionView>::empty());
        }
    }
}

/// All that a turn asks for, from its beginning on.
pub open spec fn turn_actions(
    messages: Seq<MessageView>,
    config: LoopConfig,
    auth: ToolAuthView,
    events: Seq<LoopEventView>,
) -> Seq<ActionView> {
    started(messages, config, auth).1 + run_actions(started(messages, config, auth).0, events)
}

/// In a whole turn the model is asked no more often than the budget
/// allows, and the conversation is saved at most once.
pub proof fn lemma_turn_is_bounded(
    messages: Seq<MessageView>,
    config: LoopConfig,
    auth: ToolAuthView,
    events: Seq<LoopEventView>,
)
    ensures
        count_calls(turn_actions(messages, config, auth, events)) <= config.max_tool_iterations,
        count_persists(turn_actions(messages, config, auth, events)) <= 1,
        messages.len() == 0 ==> count_calls(turn_actions(messages, config, auth, events)) == 0
            && count_persists(turn_actions(messages, config, auth, events)) == 0,
{
    let s0 = LoopView {
        messages,
        phase: Phase::Thinking,
        iteration: 0,
        config,
        auth,
        pending: Seq::empty(),
        results: Seq::empty(),
    };
    let first = started(messages, config, auth);
    lemma_counts_concat(first.1, run_actions(first.0, events));
    if messages.len() == 0 {
        lemma_counts_one(ActionView::Reply(crate::agent::NOTHING_TO_PROCESS@));
        lemma_run_is_bounded(first.0, events);
    } else if messages.len() > config.max_session_messages {
        if messages.len() > config.compact_keep_recent {
            lemma_counts_one(ActionView::Archive);
            lemma_counts_one(ActionView::Summarize);
            lemma_counts_concat(seq![ActionView::Archive], seq![ActionView::Summarize]);
            assert(seq![ActionView::Archive] + seq![ActionView::Summarize] =~= first.1);
            lemma_run_is_bounded(first.0, events);
        } else {
            lemma_counts_next_iteration(s0);
            lemma_counts_one(ActionView::Archive);
            lemma_counts_concat(seq![ActionView::Archive], next_iteration(s0).1);
            lemma_run_is_bounded(first.0, events);
        }
    } else {
        lemma_counts_next_iteration(s0);
        lemma_run_is_bounded(first.0, events);
    }
}

} // verus!
