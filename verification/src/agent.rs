//! The bounded tool-use loop of one turn, as a state machine: each step
//! takes what came back from outside and says what to do next.

use crate::chars::str_eq;
use crate::compaction::{compact_messages, compaction_result, summary_request};
use crate::message::{
    block_views, lemma_views_push, text_message, views, BlockView, ContentBlock, ContentView,
    Message, MessageContent, MessageView, Role,
};
use crate::render::{strip_images_for_session, without_images};
use crate::text::{byte_len, clip_chars, preview_of, strip_thinking, without_thinking};
use vstd::prelude::*;
use vstd::string::*;

verus! {

/// What is answered when a turn has no message to work on.
pub const NOTHING_TO_PROCESS: &'static str = "I didn't receive any message to process.";

/// What stands for a reply that came back empty with an unknown stop reason.
pub const NO_RESPONSE: &'static str = "(no response)";

/// What is answered, and kept as the assistant's last word, when the
/// iteration budget runs out.
pub const MAX_ITERATIONS_TEXT: &'static str =
    "I reached the maximum number of tool iterations. Here's what I was working on \u{2014} please try breaking your request into smaller steps.";

/// Who asks for a tool to run, and which chats may act across chats. The
/// loop hands it on unchanged with every tool call.
#[derive(Debug, PartialEq, Eq)]
pub struct ToolAuthContext {
    pub caller_chat_id: i64,
    pub control_chat_ids: Vec<i64>,
}

/// View of a [`ToolAuthContext`].
pub struct ToolAuthView {
    pub caller_chat_id: i64,
    pub control_chat_ids: Seq<i64>,
}

impl View for ToolAuthContext {
    type V = ToolAuthView;

    open spec fn view(&self) -> ToolAuthView {
        ToolAuthView {
            caller_chat_id: self.caller_chat_id,
            control_chat_ids: self.control_chat_ids@,
        }
    }
}

impl Clone for ToolAuthContext {
    fn clone(&self) -> (r: Self)
        ensures
            r@ == self@,
    {
        ToolAuthContext {
            caller_chat_id: self.caller_chat_id,
            control_chat_ids: self.control_chat_ids.clone(),
        }
    }
}

/// One block of what the model answered.
#[derive(Debug, PartialEq, Eq)]
pub enum ResponseContentBlock {
    Text { text: String },
    ToolUse { id: String, name: String, input: String },
}

/// View of a [`ResponseContentBlock`].
pub enum ResponseBlockView {
    Text { text: Seq<char> },
    ToolUse { id: Seq<char>, name: Seq<char>, input: Seq<char> },
}

impl View for ResponseContentBlock {
    type V = ResponseBlockView;

    open spec fn view(&self) -> ResponseBlockView {
        match self {
            ResponseContentBlock::Text { text } => ResponseBlockView::Text { text: text@ },
            ResponseContentBlock::ToolUse { id, name, input } => ResponseBlockView::ToolUse {
                id: id@,
                name: name@,
                input: input@,
            },
        }
    }
}

/// What the model answered.
#[derive(Debug, PartialEq, Eq)]
pub struct LlmResponse {
    pub content: Vec<ResponseContentBlock>,
    pub stop_reason: Option<String>,
}

/// View of an [`LlmResponse`].
pub struct LlmResponseView {
    pub content: Seq<ResponseBlockView>,
    pub stop_reason: Option<Seq<char>>,
}

impl View for LlmResponse {
    type V = LlmResponseView;

    open spec fn view(&self) -> LlmResponseView {
        LlmResponseView {
            content: Seq::new(self.content@.len(), |i: int| self.content@[i]@),
            stop_reason: match self.stop_reason {
                Some(s) => Some(s@),
                None => None,
            },
        }
    }
}

/// What a tool gave back.
#[derive(Debug, PartialEq, Eq)]
pub struct ToolOutput {
    pub content: String,
    pub is_error: bool,
}

/// A tool call that the model asked for.
#[derive(Debug, PartialEq, Eq)]
pub struct ToolCall {
    pub id: String,
    pub name: String,
    pub input: String,
}

/// View of a [`ToolCall`].
pub struct ToolCallView {
    pub id: Seq<char>,
    pub name: Seq<char>,
    pub input: Seq<char>,
}

impl View for ToolCall {
    type V = ToolCallView;

    open spec fn view(&self) -> ToolCallView {
        ToolCallView { id: self.id@, name: self.name@, input: self.input@ }
    }
}

/// The views of a list of tool calls.
pub open spec fn call_views(s: Seq<ToolCall>) -> Seq<ToolCallView> {
    Seq::new(s.len(), |i: int| s[i]@)
}

/// What the loop reports while it runs.
#[derive(Debug, PartialEq, Eq)]
pub enum AgentEvent {
    Iteration { iteration: usize },
    ToolStart { name: String },
    ToolResult {
        name: String,
        is_error: bool,
        preview: String,
        duration_ms: u128,
        status_code: Option<i32>,
        bytes: usize,
        error_type: Option<String>,
    },
    TextDelta { delta: String },
    FinalResponse { text: String },
}

/// View of an [`AgentEvent`].
pub enum AgentEventView {
    Iteration { iteration: nat },
    ToolStart { name: Seq<char> },
    ToolResult {
        name: Seq<char>,
        is_error: bool,
        preview: Seq<char>,
        duration_ms: u128,
        status_code: Option<i32>,
        bytes: nat,
        error_type: Option<Seq<char>>,
    },
    TextDelta { delta: Seq<char> },
    FinalResponse { text: Seq<char> },
}

impl View for AgentEvent {
    type V = AgentEventView;

    open spec fn view(&self) -> AgentEventView {
        match self {
            AgentEvent::Iteration { iteration } => AgentEventView::Iteration {
                iteration: *iteration as nat,
            },
            AgentEvent::ToolStart { name } => AgentEventView::ToolStart { name: name@ },
            AgentEvent::ToolResult {
                name,
                is_error,
                preview,
                duration_ms,
                status_code,
                bytes,
                error_type,
            } => AgentEventView::ToolResult {
                name: name@,
                is_error: *is_error,
                preview: preview@,
                duration_ms: *duration_ms,
                status_code: *status_code,
                bytes: *bytes as nat,
                error_type: match error_type {
                    Some(e) => Some(e@),
                    None => None,
                },
            },
            AgentEvent::TextDelta { delta } => AgentEventView::TextDelta { delta: delta@ },
            AgentEvent::FinalResponse { text } => AgentEventView::FinalResponse { text: text@ },
        }
    }
}

/// What the caller is to do next.
#[derive(Debug, PartialEq, Eq)]
pub enum Action {
    /// Hand the event to whoever listens.
    Emit(AgentEvent),
    /// Export the conversation as it stands, before it is compacted.
    Archive,
    /// Ask the summariser; the request is `AgentLoop::summary_request`.
    Summarize,
    /// Ask the model with the conversation as it stands; `streaming` says
    /// whether the text is to be forwarded piece by piece.
    CallLlm { streaming: bool },
    /// Run a tool.
    RunTool { id: String, name: String, input: String, auth: ToolAuthContext },
    /// Save the conversation as it stands.
    Persist,
    /// The turn has ended with this text.
    Reply(String),
    /// The turn has failed with this error.
    Fail(String),
}

/// View of an [`Action`].
pub enum ActionView {
    Emit(AgentEventView),
    Archive,
    Summarize,
    CallLlm { streaming: bool },
    RunTool { id: Seq<char>, name: Seq<char>, input: Seq<char>, auth: ToolAuthView },
    Persist,
    Reply(Seq<char>),
    Fail(Seq<char>),
}

impl View for Action {
    type V = ActionView;

    open spec fn view(&self) -> ActionView {
        match self {
            Action::Emit(e) => ActionView::Emit(e@),
            Action::Archive => ActionView::Archive,
            Action::Summarize => ActionView::Summarize,
            Action::CallLlm { streaming } => ActionView::CallLlm { streaming: *streaming },
            Action::RunTool { id, name, input, auth } => ActionView::RunTool {
                id: id@,
                name: name@,
                input: input@,
                auth: auth@,
            },
            Action::Persist => ActionView::Persist,
            Action::Reply(t) => ActionView::Reply(t@),
            Action::Fail(t) => ActionView::Fail(t@),
        }
    }
}

/// The views of a list of actions.
pub open spec fn action_views(s: Seq<Action>) -> Seq<ActionView> {
    Seq::new(s.len(), |i: int| s[i]@)
}

/// What came back from outside.
#[derive(Debug, PartialEq, Eq)]
pub enum LoopEvent {
    /// The summariser answered with this text, or failed.
    Summary(Option<String>),
    /// The model answered.
    Response(LlmResponse),
    /// A piece of the model's answer arrived.
    TextDelta(String),
    /// The model could not be reached or failed.
    LlmFailed(String),
    /// The tool that was asked for has run.
    ToolDone { output: ToolOutput, duration_ms: u128 },
    /// The run was cancelled.
    Cancelled,
}

/// View of a [`LoopEvent`].
pub enum LoopEventView {
    Summary(Option<Seq<char>>),
    Response(LlmResponseView),
    TextDelta(Seq<char>),
    LlmFailed(Seq<char>),
    ToolDone { content: Seq<char>, is_error: bool, duration_ms: u128 },
    Cancelled,
}

impl View for LoopEvent {
    type V = LoopEventView;

    open spec fn view(&self) -> LoopEventView {
        match self {
            LoopEvent::Summary(s) => LoopEventView::Summary(
                match s {
                    Some(t) => Some(t@),
                    None => None,
                },
            ),
            LoopEvent::Response(r) => LoopEventView::Response(r@),
            LoopEvent::TextDelta(d) => LoopEventView::TextDelta(d@),
            LoopEvent::LlmFailed(e) => LoopEventView::LlmFailed(e@),
            LoopEvent::ToolDone { output, duration_ms } => LoopEventView::ToolDone {
                content: output.content@,
                is_error: output.is_error,
                duration_ms: *duration_ms,
            },
            LoopEvent::Cancelled => LoopEventView::Cancelled,
        }
    }
}

/// Where the loop stands.
#[derive(Clone, Copy, Debug, PartialEq, Eq, Structural)]
pub enum Phase {
    /// Waiting for the summariser.
    Compacting,
    /// Waiting for the model.
    Thinking,
    /// Waiting for a tool.
    ToolDispatch,
    /// Ended with a reply.
    Done,
    /// Ended because the iteration budget ran out.
    MaxIterationsReached,
    /// Ended with an error.
    Failed,
    /// Ended because the run was cancelled.
    Cancelled,
}

/// The phase is one in which the loop has ended.
pub open spec fn terminal(p: Phase) -> bool {
    p == Phase::Done || p == Phase::MaxIterationsReached || p == Phase::Failed || p
        == Phase::Cancelled
}

/// The limits and switches of a turn.
#[derive(Clone, Copy, Debug, PartialEq, Eq, Structural)]
pub struct LoopConfig {
    /// How many times the model may be asked in one turn.
    pub max_tool_iterations: usize,
    /// A conversation longer than this is compacted first.
    pub max_session_messages: usize,
    /// How many recent messages compaction keeps word for word.
    pub compact_keep_recent: usize,
    /// Whether internal reasoning is shown in the reply.
    pub show_thinking: bool,
    /// Whether someone listens to the events.
    pub streaming: bool,
}

/// View of an [`AgentLoop`].
pub struct LoopView {
    pub messages: Seq<MessageView>,
    pub phase: Phase,
    pub iteration: nat,
    pub config: LoopConfig,
    pub auth: ToolAuthView,
    pub pending: Seq<ToolCallView>,
    pub results: Seq<BlockView>,
}

/// All the text of an answer, its text blocks one after the other.
pub open spec fn response_text(blocks: Seq<ResponseBlockView>) -> Seq<char>
    decreases blocks.len(),
{
    if blocks.len() == 0 {
        Seq::empty()
    } else {
        response_text(blocks.drop_last()) + (match blocks.last() {
            ResponseBlockView::Text { text } => text,
            ResponseBlockView::ToolUse { id, name, input } => Seq::empty(),
        })
    }
}

/// A block of an answer as a block of the conversation.
pub open spec fn owned_block(b: ResponseBlockView) -> BlockView {
    match b {
        ResponseBlockView::Text { text } => BlockView::Text { text },
        ResponseBlockView::ToolUse { id, name, input } => BlockView::ToolUse { id, name, input },
    }
}

/// The blocks of an answer as blocks of the conversation.
pub open spec fn owned_blocks(blocks: Seq<ResponseBlockView>) -> Seq<BlockView> {
    Seq::new(blocks.len(), |i: int| owned_block(blocks[i]))
}

/// The tool calls of an answer, in the order in which the model listed them.
pub open spec fn tool_calls(blocks: Seq<ResponseBlockView>) -> Seq<ToolCallView>
    decreases blocks.len(),
{
    if blocks.len() == 0 {
        Seq::empty()
    } else {
        let prev = tool_calls(blocks.drop_last());
        match blocks.last() {
            ResponseBlockView::Text { text } => prev,
            ResponseBlockView::ToolUse { id, name, input } => prev.push(
                ToolCallView { id, name, input },
            ),
        }
    }
}

/// The event, where someone listens; nothing otherwise.
pub open spec fn emit_if(streaming: bool, e: AgentEventView) -> Seq<ActionView> {
    if streaming {
        seq![ActionView::Emit(e)]
    } else {
        Seq::empty()
    }
}

/// The end of a turn: `kept` becomes the assistant's last message, the
/// images are taken out, the conversation is saved and `shown` is the reply.
pub open spec fn finished(s: LoopView, phase: Phase, kept: Seq<char>, shown: Seq<char>) -> (
    LoopView,
    Seq<ActionView>,
) {
    (
        LoopView {
            messages: without_images(s.messages.push(text_message(Role::Assistant, kept))),
            phase,
            pending: Seq::empty(),
            results: Seq::empty(),
            ..s
        },
        seq![ActionView::Persist] + emit_if(
            s.config.streaming,
            AgentEventView::FinalResponse { text: shown },
        ) + seq![ActionView::Reply(shown)],
    )
}

/// The next round trip to the model, or the end of the turn where the
/// budget is used up.
pub open spec fn next_iteration(s: LoopView) -> (LoopView, Seq<ActionView>) {
    if s.iteration >= s.config.max_tool_iterations {
        finished(s, Phase::MaxIterationsReached, MAX_ITERATIONS_TEXT@, MAX_ITERATIONS_TEXT@)
    } else {
        (
            LoopView {
                phase: Phase::Thinking,
                iteration: s.iteration + 1,
                pending: Seq::empty(),
                results: Seq::empty(),
                ..s
            },
            emit_if(
                s.config.streaming,
                AgentEventView::Iteration { iteration: s.iteration + 1 },
            ) + seq![ActionView::CallLlm { streaming: s.config.streaming }],
        )
    }
}

/// How a turn begins. Without a message it ends at once with a fixed
/// reply. A conversation that has outgrown the threshold is archived and,
/// where it holds more than the recent part, summarised first.
pub open spec fn started(messages: Seq<MessageView>, config: LoopConfig, auth: ToolAuthView) -> (
    LoopView,
    Seq<ActionView>,
) {
    let s = LoopView {
        messages,
        phase: Phase::Thinking,
        iteration: 0,
        config,
        auth,
        pending: Seq::empty(),
        results: Seq::empty(),
    };
    if messages.len() == 0 {
        (LoopView { phase: Phase::Done, ..s }, seq![ActionView::Reply(NOTHING_TO_PROCESS@)])
    } else if messages.len() > config.max_session_messages {
        if messages.len() > config.compact_keep_recent {
            (
                LoopView { phase: Phase::Compacting, ..s },
                seq![ActionView::Archive, ActionView::Summarize],
            )
        } else {
            (next_iteration(s).0, seq![ActionView::Archive] + next_iteration(s).1)
        }
    } else {
        next_iteration(s)
    }
}

/// The reply as it is shown: with internal reasoning only where asked for.
pub open spec fn shown_text(config: LoopConfig, text: Seq<char>) -> Seq<char> {
    if config.show_thinking {
        text
    } else {
        without_thinking(text)
    }
}

/// The report on a tool that has run.
pub open spec fn tool_result_event(
    call: ToolCallView,
    content: Seq<char>,
    is_error: bool,
    duration_ms: u128,
) -> AgentEventView {
    AgentEventView::ToolResult {
        name: call.name,
        is_error,
        preview: preview_of(content, 160, "..."@),
        duration_ms,
        status_code: if is_error {
            Some(1i32)
        } else {
            Some(0i32)
        },
        bytes: byte_len(content) as nat,
        error_type: if is_error {
            Some("tool_error"@)
        } else {
            None
        },
    }
}

/// The block that carries a tool's result back to the model.
pub open spec fn tool_result_block(call: ToolCallView, content: Seq<char>, is_error: bool)
    -> BlockView {
    BlockView::ToolResult {
        tool_use_id: call.id,
        content,
        is_error: if is_error {
            Some(true)
        } else {
            None
        },
    }
}

/// The request to run a tool, with the turn's authorisation.
pub open spec fn run_tool(call: ToolCallView, auth: ToolAuthView) -> ActionView {
    ActionView::RunTool { id: call.id, name: call.name, input: call.input, auth }
}

/// What follows the model's answer.
pub open spec fn after_response(s: LoopView, r: LlmResponseView) -> (LoopView, Seq<ActionView>) {
    let stop = match r.stop_reason {
        Some(x) => x,
        None => "end_turn"@,
    };
    let text = response_text(r.content);
    if stop == "end_turn"@ || stop == "max_tokens"@ {
        finished(s, Phase::Done, text, shown_text(s.config, text))
    } else if stop == "tool_use"@ {
        let calls = tool_calls(r.content);
        let asked = s.messages.push(
            MessageView {
                role: Role::Assistant,
                content: ContentView::Blocks(owned_blocks(r.content)),
            },
        );
        if calls.len() == 0 {
            next_iteration(
                LoopView {
                    messages: asked.push(
                        MessageView {
                            role: Role::User,
                            content: ContentView::Blocks(Seq::empty()),
                        },
                    ),
                    ..s
                },
            )
        } else {
            (
                LoopView {
                    messages: asked,
                    phase: Phase::ToolDispatch,
                    pending: calls,
                    results: Seq::empty(),
                    ..s
                },
                emit_if(s.config.streaming, AgentEventView::ToolStart { name: calls[0].name })
                    + seq![run_tool(calls[0], s.auth)],
            )
        }
    } else {
        finished(
            s,
            Phase::Done,
            text,
            if text.len() == 0 {
                NO_RESPONSE@
            } else {
                shown_text(s.config, text)
            },
        )
    }
}

/// What follows a tool's result.
pub open spec fn after_tool(s: LoopView, content: Seq<char>, is_error: bool, duration_ms: u128)
    -> (LoopView, Seq<ActionView>) {
    let call = s.pending[s.results.len() as int];
    let report = emit_if(
        s.config.streaming,
        tool_result_event(call, content, is_error, duration_ms),
    );
    let results = s.results.push(tool_result_block(call, content, is_error));
    if results.len() < s.pending.len() {
        let next = s.pending[results.len() as int];
        (
            LoopView { results, ..s },
            report + emit_if(s.config.streaming, AgentEventView::ToolStart { name: next.name })
                + seq![run_tool(next, s.auth)],
        )
    } else {
        let round = next_iteration(
            LoopView {
                messages: s.messages.push(
                    MessageView { role: Role::User, content: ContentView::Blocks(results) },
                ),
                ..s
            },
        );
        (round.0, report + round.1)
    }
}

/// One step of the loop: the state after `e` came back, and what to do
/// next. An event that does not fit the phase changes nothing and asks for
/// nothing.
pub open spec fn stepped(s: LoopView, e: LoopEventView) -> (LoopView, Seq<ActionView>) {
    match e {
        LoopEventView::Summary(summary) => if s.phase == Phase::Compacting {
            next_iteration(
                LoopView {
                    messages: compaction_result(
                        s.messages,
                        s.config.compact_keep_recent as int,
                        summary,
                    ),
                    ..s
                },
            )
        } else {
            (s, Seq::empty())
        },
        LoopEventView::Response(r) => if s.phase == Phase::Thinking {
            after_response(s, r)
        } else {
            (s, Seq::empty())
        },
        LoopEventView::TextDelta(delta) => if s.phase == Phase::Thinking {
            (s, emit_if(s.config.streaming, AgentEventView::TextDelta { delta }))
        } else {
            (s, Seq::empty())
        },
        LoopEventView::LlmFailed(error) => if s.phase == Phase::Thinking {
            (LoopView { phase: Phase::Failed, ..s }, seq![ActionView::Fail(error)])
        } else {
            (s, Seq::empty())
        },
        LoopEventView::ToolDone { content, is_error, duration_ms } => if s.phase
            == Phase::ToolDispatch {
            after_tool(s, content, is_error, duration_ms)
        } else {
            (s, Seq::empty())
        },
        LoopEventView::Cancelled => if terminal(s.phase) {
            (s, Seq::empty())
        } else {
            (
                LoopView {
                    phase: Phase::Cancelled,
                    pending: Seq::empty(),
                    results: Seq::empty(),
                    ..s
                },
                Seq::empty(),
            )
        },
    }
}

/// What holds of the loop in every state that it can reach.
pub open spec fn well_formed(s: LoopView) -> bool {
    &&& s.iteration <= s.config.max_tool_iterations
    &&& (s.phase == Phase::Thinking || s.phase == Phase::ToolDispatch) ==> s.iteration >= 1
    &&& s.phase == Phase::ToolDispatch ==> s.results.len() < s.pending.len()
    &&& s.phase != Phase::ToolDispatch ==> s.pending.len() == 0 && s.results.len() == 0
    &&& s.phase == Phase::Compacting ==> s.iteration == 0 && s.messages.len()
        > s.config.compact_keep_recent
    &&& forall|i: int|
        0 <= i < s.results.len() ==> #[trigger] s.results[i] == tool_result_block(
            s.pending[i],
            s.results[i]->ToolResult_content,
            s.results[i]->ToolResult_is_error == Some(true),
        )
}

/// The loop of one turn.
#[derive(Debug)]
pub struct AgentLoop {
    messages: Vec<Message>,
    phase: Phase,
    iteration: usize,
    config: LoopConfig,
    auth: ToolAuthContext,
    pending: Vec<ToolCall>,
    results: Vec<ContentBlock>,
}

impl View for AgentLoop {
    type V = LoopView;

    closed spec fn view(&self) -> LoopView {
        LoopView {
            messages: views(self.messages@),
            phase: self.phase,
            iteration: self.iteration as nat,
            config: self.config,
            auth: self.auth@,
            pending: call_views(self.pending@),
            results: block_views(self.results@),
        }
    }
}

fn copy_text(s: &str) -> (r: String)
    ensures
        r@ == s@,
{
    s.to_owned()
}

fn push_action(actions: &mut Vec<Action>, a: Action)
    ensures
        action_views(final(actions)@) == action_views(old(actions)@).push(a@),
{
    actions.push(a);
    assert(action_views(actions@) =~= action_views(old(actions)@).push(a@));
}

fn push_emit(actions: &mut Vec<Action>, streaming: bool, e: AgentEvent)
    ensures
        action_views(final(actions)@) == action_views(old(actions)@) + emit_if(streaming, e@),
{
    if streaming {
        push_action(actions, Action::Emit(e));
        assert(action_views(actions@) =~= action_views(old(actions)@) + emit_if(streaming, e@));
    } else {
        assert(action_views(actions@) =~= action_views(old(actions)@) + emit_if(streaming, e@));
    }
}

/// All the text of an answer, its text blocks one after the other.
pub fn response_text_of(response: &LlmResponse) -> (r: String)
    ensures
        r@ == response_text(response@.content),
{
    let ghost blocks = response@.content;
    let mut out = String::new();
    let mut i: usize = 0;
    while i < response.content.len()
        invariant
            i <= response.content.len(),
            blocks == response@.content,
            out@ == response_text(blocks.take(i as int)),
        decreases response.content.len() - i,
    {
        proof {
            assert(blocks.take(i + 1).drop_last() =~= blocks.take(i as int));
            assert(blocks.take(i + 1).last() == response.content@[i as int]@);
        }
        let ghost before = out@;
        match &response.content[i] {
            ResponseContentBlock::Text { text } => {
                out.append(text.as_str());
            },
            ResponseContentBlock::ToolUse { id, name, input } => {
                assert(before + Seq::<char>::empty() =~= before);
            },
        }
        i += 1;
    }
    assert(blocks.take(response.content.len() as int) =~= blocks);
    out
}

fn owned_blocks_of(response: &LlmResponse) -> (r: Vec<ContentBlock>)
    ensures
        block_views(r@) == owned_blocks(response@.content),
{
    let mut out: Vec<ContentBlock> = Vec::new();
    let mut i: usize = 0;
    while i < response.content.len()
        invariant
            i <= response.content.len(),
            out.len() == i,
            forall|k: int| 0 <= k < i ==> out@[k]@ == owned_block(response.content@[k]@),
        decreases response.content.len() - i,
    {
        let b = match &response.content[i] {
            ResponseContentBlock::Text { text } => ContentBlock::Text { text: text.clone() },
            ResponseContentBlock::ToolUse { id, name, input } => ContentBlock::ToolUse {
                id: id.clone(),
                name: name.clone(),
                input: input.clone(),
            },
        };
        out.push(b);
        i += 1;
    }
    assert(block_views(out@) =~= owned_blocks(response@.content));
    out
}

fn tool_calls_of(response: &LlmResponse) -> (r: Vec<ToolCall>)
    ensures
        call_views(r@) == tool_calls(response@.content),
{
    let ghost blocks = response@.content;
    let mut out: Vec<ToolCall> = Vec::new();
    let mut i: usize = 0;
    while i < response.content.len()
        invariant
            i <= response.content.len(),
            blocks == response@.content,
            call_views(out@) == tool_calls(blocks.take(i as int)),
        decreases response.content.len() - i,
    {
        proof {
            assert(blocks.take(i + 1).drop_last() =~= blocks.take(i as int));
            assert(blocks.take(i + 1).last() == response.content@[i as int]@);
        }
        let ghost before = call_views(out@);
        match &response.content[i] {
            ResponseContentBlock::Text { text } => {},
            ResponseContentBlock::ToolUse { id, name, input } => {
                let call = ToolCall { id: id.clone(), name: name.clone(), input: input.clone() };
                out.push(call);
                assert(call_views(out@) =~= before.push(call@));
            },
        }
        i += 1;
    }
    assert(blocks.take(response.content.len() as int) =~= blocks);
    out
}

impl AgentLoop {
    /// Begins a turn on the messages that `resume_or_build` gave.
    pub fn start(messages: Vec<Message>, config: LoopConfig, auth: ToolAuthContext) -> (r: (
        AgentLoop,
        Vec<Action>,
    ))
        ensures
            r.0@ == started(views(messages@), config, auth@).0,
            action_views(r.1@) == started(views(messages@), config, auth@).1,
            well_formed(r.0@),
    {
        let n = messages.len();
        let mut actions: Vec<Action> = Vec::new();
        assert(action_views(actions@) =~= Seq::<ActionView>::empty());
        let fresh = AgentLoop {
            messages,
            phase: Phase::Thinking,
            iteration: 0,
            config,
            auth,
            pending: Vec::new(),
            results: Vec::new(),
        };
        assert(fresh@.pending =~= Seq::<ToolCallView>::empty());
        assert(fresh@.results =~= Seq::<BlockView>::empty());
        if n == 0 {
            push_action(&mut actions, Action::Reply(copy_text(NOTHING_TO_PROCESS)));
            let mut done = fresh;
            done.phase = Phase::Done;
            assert(action_views(actions@) =~= seq![ActionView::Reply(NOTHING_TO_PROCESS@)]);
            (done, actions)
        } else if n > config.max_session_messages {
            push_action(&mut actions, Action::Archive);
            if n > config.compact_keep_recent {
                push_action(&mut actions, Action::Summarize);
                let mut waiting = fresh;
                waiting.phase = Phase::Compacting;
                assert(action_views(actions@) =~= seq![ActionView::Archive, ActionView::Summarize]);
                (waiting, actions)
            } else {
                assert(action_views(actions@) =~= seq![ActionView::Archive]);
                fresh.enter_iteration(actions)
            }
        } else {
            let r = fresh.enter_iteration(actions);
            assert(Seq::<ActionView>::empty() + next_iteration(fresh@).1 =~= next_iteration(
                fresh@,
            ).1);
            r
        }
    }

    /// The conversation as it stands.
    pub fn messages(&self) -> (r: &Vec<Message>)
        ensures
            views(r@) == self@.messages,
    {
        &self.messages
    }

    /// The conversation as it stands, in the form in which it is kept.
    pub fn session_text(&self) -> (r: String)
        ensures
            r@ == crate::session_codec::session_json(self@.messages),
    {
        crate::session_codec::encode_session(&self.messages)
    }

    /// Where the loop stands.
    pub fn phase(&self) -> (r: Phase)
        ensures
            r == self@.phase,
    {
        self.phase
    }

    /// The number of the current round trip to the model, counted from 1;
    /// 0 before the first.
    pub fn iteration(&self) -> (r: usize)
        ensures
            r == self@.iteration,
    {
        self.iteration
    }

    /// Whether the loop has ended.
    pub fn is_finished(&self) -> (r: bool)
        ensures
            r == terminal(self@.phase),
    {
        match self.phase {
            Phase::Done | Phase::MaxIterationsReached | Phase::Failed | Phase::Cancelled => true,
            _ => false,
        }
    }

    /// The messages to send to the summariser while the loop waits for it.
    pub fn summary_request(&self) -> (r: Option<Vec<Message>>)
        ensures
            self@.messages.len() <= self@.config.compact_keep_recent ==> r is None,
            self@.messages.len() > self@.config.compact_keep_recent ==> r is Some && views(
                r->Some_0@,
            ) == seq![
                text_message(
                    Role::User,
                    crate::compaction::summary_request_text(
                        crate::compaction::older_part(
                            self@.messages,
                            self@.config.compact_keep_recent as int,
                        ),
                    ),
                ),
            ],
    {
        summary_request(&self.messages, self.config.compact_keep_recent)
    }

    fn finish(self, actions: Vec<Action>, phase: Phase, kept: String, shown: String) -> (r: (
        AgentLoop,
        Vec<Action>,
    ))
        ensures
            r.0@ == finished(self@, phase, kept@, shown@).0,
            action_views(r.1@) == action_views(actions@) + finished(
                self@,
                phase,
                kept@,
                shown@,
            ).1,
    {
        let mut actions = actions;
        let AgentLoop { messages, phase: _, iteration, config, auth, pending: _, results: _ } =
            self;
        let mut messages = messages;
        let m = Message { role: Role::Assistant, content: MessageContent::Text(kept) };
        proof {
            lemma_views_push(messages@, m);
        }
        messages.push(m);
        strip_images_for_session(&mut messages);
        let ghost a0 = action_views(actions@);
        push_action(&mut actions, Action::Persist);
        push_emit(
            &mut actions,
            config.streaming,
            AgentEvent::FinalResponse { text: shown.clone() },
        );
        push_action(&mut actions, Action::Reply(shown));
        let next = AgentLoop {
            messages,
            phase,
            iteration,
            config,
            auth,
            pending: Vec::new(),
            results: Vec::new(),
        };
        assert(next@.pending =~= Seq::<ToolCallView>::empty());
        assert(next@.results =~= Seq::<BlockView>::empty());
        assert(action_views(actions@) =~= a0 + finished(self@, phase, kept@, shown@).1);
        (next, actions)
    }

    fn enter_iteration(self, actions: Vec<Action>) -> (r: (AgentLoop, Vec<Action>))
        requires
            self@.iteration <= self@.config.max_tool_iterations,
        ensures
            r.0@ == next_iteration(self@).0,
            action_views(r.1@) == action_views(actions@) + next_iteration(self@).1,
    {
        if self.iteration >= self.config.max_tool_iterations {
            self.finish(
                actions,
                Phase::MaxIterationsReached,
                copy_text(MAX_ITERATIONS_TEXT),
                copy_text(MAX_ITERATIONS_TEXT),
            )
        } else {
            let mut actions = actions;
            let ghost a0 = action_views(actions@);
            let AgentLoop { messages, phase: _, iteration, config, auth, pending: _, results: _ } =
                self;
            let n = iteration + 1;
            push_emit(&mut actions, config.streaming, AgentEvent::Iteration { iteration: n });
            push_action(&mut actions, Action::CallLlm { streaming: config.streaming });
            let next = AgentLoop {
                messages,
                phase: Phase::Thinking,
                iteration: n,
                config,
                auth,
                pending: Vec::new(),
                results: Vec::new(),
            };
            assert(next@.pending =~= Seq::<ToolCallView>::empty());
            assert(next@.results =~= Seq::<BlockView>::empty());
            assert(action_views(actions@) =~= a0 + next_iteration(self@).1);
            (next, actions)
        }
    }
}

fn run_tool_action(call: &ToolCall, auth: &ToolAuthContext) -> (r: Action)
    ensures
        r@ == run_tool(call@, auth@),
{
    Action::RunTool {
        id: call.id.clone(),
        name: call.name.clone(),
        input: call.input.clone(),
        auth: auth.clone(),
    }
}

fn tool_result_event_of(call: &ToolCall, output: &ToolOutput, duration_ms: u128) -> (r: AgentEvent)
    ensures
        r@ == tool_result_event(call@, output.content@, output.is_error, duration_ms),
{
    let preview = clip_chars(output.content.as_str(), 160, "...");
    let bytes = output.content.as_str().as_bytes().len();
    let status_code: Option<i32> = if output.is_error {
        Some(1)
    } else {
        Some(0)
    };
    let error_type = if output.is_error {
        Some(copy_text("tool_error"))
    } else {
        None
    };
    AgentEvent::ToolResult {
        name: call.name.clone(),
        is_error: output.is_error,
        preview,
        duration_ms,
        status_code,
        bytes,
        error_type,
    }
}

impl AgentLoop {
    fn on_response(self, response: LlmResponse) -> (r: (AgentLoop, Vec<Action>))
        requires
            well_formed(self@),
            self@.phase == Phase::Thinking,
        ensures
            r.0@ == after_response(self@, response@).0,
            action_views(r.1@) == after_response(self@, response@).1,
    {
        let mut actions: Vec<Action> = Vec::new();
        assert(action_views(actions@) =~= Seq::<ActionView>::empty());
        let ends = match &response.stop_reason {
            Some(stop) => str_eq(stop.as_str(), "end_turn") || str_eq(stop.as_str(), "max_tokens"),
            None => true,
        };
        let asks_tools = match &response.stop_reason {
            Some(stop) => str_eq(stop.as_str(), "tool_use"),
            None => false,
        };
        if ends {
            let text = response_text_of(&response);
            let shown = if self.config.show_thinking {
                text.clone()
            } else {
                strip_thinking(text.as_str())
            };
            let r = self.finish(actions, Phase::Done, text, shown);
            assert(action_views(r.1@) =~= after_response(self@, response@).1);
            r
        } else if asks_tools {
            let blocks = owned_blocks_of(&response);
            let calls = tool_calls_of(&response);
            let AgentLoop { messages, phase: _, iteration, config, auth, pending: _, results: _ } =
                self;
            let mut messages = messages;
            let asked = Message { role: Role::Assistant, content: MessageContent::Blocks(blocks) };
            proof {
                lemma_views_push(messages@, asked);
            }
            messages.push(asked);
            if calls.len() == 0 {
                let none: Vec<ContentBlock> = Vec::new();
                assert(block_views(none@) =~= Seq::<BlockView>::empty());
                let empty = Message { role: Role::User, content: MessageContent::Blocks(none) };
                proof {
                    lemma_views_push(messages@, empty);
                }
                messages.push(empty);
                let next = AgentLoop {
                    messages,
                    phase: Phase::Thinking,
                    iteration,
                    config,
                    auth,
                    pending: Vec::new(),
                    results: Vec::new(),
                };
                assert(next@.pending =~= Seq::<ToolCallView>::empty());
                assert(next@.results =~= Seq::<BlockView>::empty());
                let r = next.enter_iteration(actions);
                assert(action_views(r.1@) =~= after_response(self@, response@).1);
                r
            } else {
                push_emit(
                    &mut actions,
                    config.streaming,
                    AgentEvent::ToolStart { name: calls[0].name.clone() },
                );
                let first = run_tool_action(&calls[0], &auth);
                push_action(&mut actions, first);
                let next = AgentLoop {
                    messages,
                    phase: Phase::ToolDispatch,
                    iteration,
                    config,
                    auth,
                    pending: calls,
                    results: Vec::new(),
                };
                assert(next@.results =~= Seq::<BlockView>::empty());
                assert(action_views(actions@) =~= after_response(self@, response@).1);
                (next, actions)
            }
        } else {
            let text = response_text_of(&response);
            let shown = if text.as_str().is_empty() {
                copy_text(NO_RESPONSE)
            } else if self.config.show_thinking {
                text.clone()
            } else {
                strip_thinking(text.as_str())
            };
            let r = self.finish(actions, Phase::Done, text, shown);
            assert(action_views(r.1@) =~= after_response(self@, response@).1);
            r
        }
    }

    fn on_tool(self, output: ToolOutput, duration_ms: u128) -> (r: (AgentLoop, Vec<Action>))
        requires
            well_formed(self@),
            self@.phase == Phase::ToolDispatch,
        ensures
            r.0@ == after_tool(self@, output.content@, output.is_error, duration_ms).0,
            action_views(r.1@) == after_tool(
                self@,
                output.content@,
                output.is_error,
                duration_ms,
            ).1,
    {
        let mut actions: Vec<Action> = Vec::new();
        assert(action_views(actions@) =~= Seq::<ActionView>::empty());
        let AgentLoop { messages, phase: _, iteration, config, auth, pending, results } = self;
        let mut messages = messages;
        let mut results = results;
        let idx = results.len();
        let report = tool_result_event_of(&pending[idx], &output, duration_ms);
        push_emit(&mut actions, config.streaming, report);
        let ToolOutput { content, is_error } = output;
        let block = ContentBlock::ToolResult {
            tool_use_id: pending[idx].id.clone(),
            content,
            is_error: if is_error {
                Some(true)
            } else {
                None
            },
        };
        let ghost before = block_views(results@);
        results.push(block);
        assert(block_views(results@) =~= before.push(block@));
        if results.len() < pending.len() {
            let k = results.len();
            push_emit(
                &mut actions,
                config.streaming,
                AgentEvent::ToolStart { name: pending[k].name.clone() },
            );
            let next_call = run_tool_action(&pending[k], &auth);
            push_action(&mut actions, next_call);
            let next = AgentLoop {
                messages,
                phase: Phase::ToolDispatch,
                iteration,
                config,
                auth,
                pending,
                results,
            };
            assert(action_views(actions@) =~= after_tool(
                self@,
                output.content@,
                output.is_error,
                duration_ms,
            ).1);
            (next, actions)
        } else {
            let answer = Message { role: Role::User, content: MessageContent::Blocks(results) };
            proof {
                lemma_views_push(messages@, answer);
            }
            messages.push(answer);
            let next = AgentLoop {
                messages,
                phase: Phase::ToolDispatch,
                iteration,
                config,
                auth,
                pending,
                results: Vec::new(),
            };
            let r = next.enter_iteration(actions);
            assert(action_views(r.1@) =~= after_tool(
                self@,
                output.content@,
                output.is_error,
                duration_ms,
            ).1);
            r
        }
    }

    /// Takes what came back from outside and says what to do next.
    pub fn step(self, event: LoopEvent) -> (r: (AgentLoop, Vec<Action>))
        requires
            well_formed(self@),
        ensures
            r.0@ == stepped(self@, event@).0,
            action_views(r.1@) == stepped(self@, event@).1,
            well_formed(r.0@),
    {
        proof {
            lemma_step_keeps_well_formed(self@, event@);
        }
        let mut actions: Vec<Action> = Vec::new();
        assert(action_views(actions@) =~= Seq::<ActionView>::empty());
        match event {
            LoopEvent::Summary(summary) => {
                if self.phase == Phase::Compacting {
                    let AgentLoop {
                        messages,
                        phase: _,
                        iteration,
                        config,
                        auth,
                        pending,
                        results,
                    } = self;
                    let compacted = match &summary {
                        Some(text) => compact_messages(
                            &messages,
                            config.compact_keep_recent,
                            Some(text.as_str()),
                        ),
                        None => compact_messages(&messages, config.compact_keep_recent, None),
                    };
                    let next = AgentLoop {
                        messages: compacted,
                        phase: Phase::Compacting,
                        iteration,
                        config,
                        auth,
                        pending,
                        results,
                    };
                    let r = next.enter_iteration(actions);
                    assert(action_views(r.1@) =~= stepped(self@, event@).1);
                    r
                } else {
                    (self, actions)
                }
            },
            LoopEvent::Response(response) => {
                if self.phase == Phase::Thinking {
                    self.on_response(response)
                } else {
                    (self, actions)
                }
            },
            LoopEvent::TextDelta(delta) => {
                if self.phase == Phase::Thinking {
                    push_emit(
                        &mut actions,
                        self.config.streaming,
                        AgentEvent::TextDelta { delta },
                    );
                    assert(action_views(actions@) =~= stepped(self@, event@).1);
                    (self, actions)
                } else {
                    (self, actions)
                }
            },
            LoopEvent::LlmFailed(error) => {
                if self.phase == Phase::Thinking {
                    push_action(&mut actions, Action::Fail(error));
                    let mut next = self;
                    next.phase = Phase::Failed;
                    assert(action_views(actions@) =~= stepped(self@, event@).1);
                    (next, actions)
                } else {
                    (self, actions)
                }
            },
            LoopEvent::ToolDone { output, duration_ms } => {
                if self.phase == Phase::ToolDispatch {
                    self.on_tool(output, duration_ms)
                } else {
                    (self, actions)
                }
            },
            LoopEvent::Cancelled => {
                if self.is_finished() {
                    (self, actions)
                } else {
                    let AgentLoop {
                        messages,
                        phase: _,
                        iteration,
                        config,
                        auth,
                        pending: _,
                        results: _,
                    } = self;
                    let next = AgentLoop {
                        messages,
                        phase: Phase::Cancelled,
                        iteration,
                        config,
                        auth,
                        pending: Vec::new(),
                        results: Vec::new(),
                    };
                    assert(next@.pending =~= Seq::<ToolCallView>::empty());
                    assert(next@.results =~= Seq::<BlockView>::empty());
                    (next, actions)
                }
            },
        }
    }
}

/// A step leads from a state that the loop can reach to another one.
pub proof fn lemma_step_keeps_well_formed(s: LoopView, e: LoopEventView)
    requires
        well_formed(s),
    ensures
        well_formed(stepped(s, e).0),
{
}

/// The actions ask for the conversation to be saved.
pub open spec fn asks_persist(actions: Seq<ActionView>) -> bool {
    exists|i: int| 0 <= i < actions.len() && #[trigger] actions[i] == ActionView::Persist
}

/// The conversation ends with a message of the assistant in plain text.
pub open spec fn ends_with_assistant_text(ms: Seq<MessageView>) -> bool {
    ms.len() > 0 && ms.last().role == Role::Assistant && ms.last().content is Text
}

proof fn lemma_emit_if_never_persists(streaming: bool, e: AgentEventView)
    ensures
        !asks_persist(emit_if(streaming, e)),
{
}

proof fn lemma_asks_persist_concat(a: Seq<ActionView>, b: Seq<ActionView>)
    ensures
        asks_persist(a + b) == (asks_persist(a) || asks_persist(b)),
{
    if asks_persist(a + b) {
        let i = choose|i: int| 0 <= i < (a + b).len() && #[trigger] (a + b)[i] == ActionView::Persist;
        if i < a.len() {
            assert(a[i] == ActionView::Persist);
        } else {
            assert(b[i - a.len()] == ActionView::Persist);
        }
    }
    if asks_persist(a) {
        let i = choose|i: int| 0 <= i < a.len() && #[trigger] a[i] == ActionView::Persist;
        assert((a + b)[i] == ActionView::Persist);
    }
    if asks_persist(b) {
        let i = choose|i: int| 0 <= i < b.len() && #[trigger] b[i] == ActionView::Persist;
        assert((a + b)[i + a.len()] == ActionView::Persist);
    }
}

proof fn lemma_finished_shape(s: LoopView, phase: Phase, kept: Seq<char>, shown: Seq<char>)
    ensures
        ends_with_assistant_text(finished(s, phase, kept, shown).0.messages),
        crate::render::image_free(finished(s, phase, kept, shown).0.messages),
        finished(s, phase, kept, shown).0.messages.last() == text_message(Role::Assistant, kept),
        finished(s, phase, kept, shown).0.phase == phase,
{
    crate::render::lemma_without_images_is_image_free(
        s.messages.push(text_message(Role::Assistant, kept)),
    );
}

proof fn lemma_next_iteration_persists_at_end(s: LoopView)
    ensures
        asks_persist(next_iteration(s).1) ==> next_iteration(s).0.phase
            == Phase::MaxIterationsReached && ends_with_assistant_text(
            next_iteration(s).0.messages,
        ) && crate::render::image_free(next_iteration(s).0.messages),
{
    if s.iteration >= s.config.max_tool_iterations {
        lemma_finished_shape(s, Phase::MaxIterationsReached, MAX_ITERATIONS_TEXT@, MAX_ITERATIONS_TEXT@);
    } else {
        let a = emit_if(
            s.config.streaming,
            AgentEventView::Iteration { iteration: s.iteration + 1 },
        );
        let b = seq![ActionView::CallLlm { streaming: s.config.streaming }];
        lemma_asks_persist_concat(a, b);
    }
}

/// The conversation is saved only when the turn ends, with a reply or with
/// the budget used up; and what is then saved ends with a message of the
/// assistant in plain text and holds no image. So no one who reads what
/// is kept sees a round of tool calls half written, or a tool's result
/// as the last word.
pub proof fn lemma_persist_only_at_end(s: LoopView, e: LoopEventView)
    requires
        well_formed(s),
    ensures
        asks_persist(stepped(s, e).1) ==> {
            &&& stepped(s, e).0.phase == Phase::Done || stepped(s, e).0.phase
                == Phase::MaxIterationsReached
            &&& ends_with_assistant_text(stepped(s, e).0.messages)
            &&& crate::render::image_free(stepped(s, e).0.messages)
        },
{
    match e {
        LoopEventView::Summary(summary) => {
            if s.phase == Phase::Compacting {
                lemma_next_iteration_persists_at_end(
                    LoopView {
                        messages: compaction_result(
                            s.messages,
                            s.config.compact_keep_recent as int,
                            summary,
                        ),
                        ..s
                    },
                );
            }
        },
        LoopEventView::Response(r) => {
            if s.phase == Phase::Thinking {
                let stop = match r.stop_reason {
                    Some(x) => x,
                    None => "end_turn"@,
                };
                let text = response_text(r.content);
                if stop == "end_turn"@ || stop == "max_tokens"@ {
                    lemma_finished_shape(s, Phase::Done, text, shown_text(s.config, text));
                } else if stop == "tool_use"@ {
                    let calls = tool_calls(r.content);
                    let asked = s.messages.push(
                        MessageView {
                            role: Role::Assistant,
                            content: ContentView::Blocks(owned_blocks(r.content)),
                        },
                    );
                    if calls.len() == 0 {
                        lemma_next_iteration_persists_at_end(
                            LoopView {
                                messages: asked.push(
                                    MessageView {
                                        role: Role::User,
                                        content: ContentView::Blocks(Seq::empty()),
                                    },
                                ),
                                ..s
                            },
                        );
                    } else {
                        lemma_asks_persist_concat(
                            emit_if(
                                s.config.streaming,
                                AgentEventView::ToolStart { name: calls[0].name },
                            ),
                            seq![run_tool(calls[0], s.auth)],
                        );
                    }
                } else {
                    lemma_finished_shape(
                        s,
                        Phase::Done,
                        text,
                        if text.len() == 0 {
                            NO_RESPONSE@
                        } else {
                            shown_text(s.config, text)
                        },
                    );
                }
            }
        },
        LoopEventView::TextDelta(delta) => {
            lemma_emit_if_never_persists(
                s.config.streaming,
                AgentEventView::TextDelta { delta },
            );
        },
        LoopEventView::LlmFailed(error) => {},
        LoopEventView::ToolDone { content, is_error, duration_ms } => {
            if s.phase == Phase::ToolDispatch {
                let call = s.pending[s.results.len() as int];
                let report = emit_if(
                    s.config.streaming,
                    tool_result_event(call, content, is_error, duration_ms),
                );
                let results = s.results.push(tool_result_block(call, content, is_error));
                if results.len() < s.pending.len() {
                    let next = s.pending[results.len() as int];
                    let start = emit_if(
                        s.config.streaming,
                        AgentEventView::ToolStart { name: next.name },
                    );
                    lemma_asks_persist_concat(report, start);
                    lemma_asks_persist_concat(report + start, seq![run_tool(next, s.auth)]);
                } else {
                    let t = LoopView {
                        messages: s.messages.push(
                            MessageView {
                                role: Role::User,
                                content: ContentView::Blocks(results),
                            },
                        ),
                        ..s
                    };
                    lemma_next_iteration_persists_at_end(t);
                    lemma_asks_persist_concat(report, next_iteration(t).1);
                }
            }
        },
        LoopEventView::Cancelled => {},
    }
}

/// What is saved when a turn ends is read back at the next turn as the
/// very conversation that was saved.
pub proof fn lemma_saved_session_is_resumed(s: LoopView, e: LoopEventView)
    requires
        well_formed(s),
        asks_persist(stepped(s, e).1),
    ensures
        crate::session_codec::resumable(
            Some(crate::session_codec::session_json(stepped(s, e).0.messages)),
        ) == Some(stepped(s, e).0.messages),
{
    lemma_persist_only_at_end(s, e);
    crate::session_codec::lemma_session_round_trip(stepped(s, e).0.messages);
}

/// The same holds of how a turn begins: what is saved there, if anything,
/// ends with a message of the assistant in plain text.
pub proof fn lemma_start_persists_at_end(
    messages: Seq<MessageView>,
    config: LoopConfig,
    auth: ToolAuthView,
)
    ensures
        asks_persist(started(messages, config, auth).1) ==> {
            &&& started(messages, config, auth).0.phase == Phase::MaxIterationsReached
            &&& ends_with_assistant_text(started(messages, config, auth).0.messages)
        },
{
    let s = LoopView {
        messages,
        phase: Phase::Thinking,
        iteration: 0,
        config,
        auth,
        pending: Seq::empty(),
        results: Seq::empty(),
    };
    lemma_next_iteration_persists_at_end(s);
    lemma_asks_persist_concat(seq![ActionView::Archive], next_iteration(s).1);
}

/// Once the loop has ended nothing moves it: every event leaves the state
/// as it is and asks for nothing.
pub proof fn lemma_ended_stays_ended(s: LoopView, e: LoopEventView)
    requires
        terminal(s.phase),
    ensures
        stepped(s, e).0 == s,
        stepped(s, e).1.len() == 0,
{
}

/// A piece of the answer that arrives while the model is asked is handed
/// on to whoever listens, and changes nothing.
pub proof fn lemma_delta_changes_nothing(s: LoopView, delta: Seq<char>)
    ensures
        stepped(s, LoopEventView::TextDelta(delta)).0 == s,
        s.phase == Phase::Thinking && s.config.streaming ==> stepped(
            s,
            LoopEventView::TextDelta(delta),
        ).1 == seq![ActionView::Emit(AgentEventView::TextDelta { delta })],
        !(s.phase == Phase::Thinking && s.config.streaming) ==> stepped(
            s,
            LoopEventView::TextDelta(delta),
        ).1.len() == 0,
{
}

/// A cancelled run leaves the conversation as it was and saves nothing.
pub proof fn lemma_cancel_keeps_conversation(s: LoopView)
    ensures
        stepped(s, LoopEventView::Cancelled).0.messages == s.messages,
        stepped(s, LoopEventView::Cancelled).1.len() == 0,
        !terminal(s.phase) ==> stepped(s, LoopEventView::Cancelled).0.phase == Phase::Cancelled,
{
}

/// The model is never asked more often than the budget allows, and the
/// rounds are counted from 1.
pub proof fn lemma_iterations_bounded(s: LoopView, e: LoopEventView)
    requires
        well_formed(s),
    ensures
        stepped(s, e).0.iteration <= s.config.max_tool_iterations,
        s.iteration <= stepped(s, e).0.iteration <= s.iteration + 1,
        stepped(s, e).0.config == s.config,
        stepped(s, e).0.auth == s.auth,
{
}

/// When the last tool of a round has run, the conversation gains one
/// message of the user with one result for each call that the model
/// listed, in that order, each naming the call that it answers.
pub proof fn lemma_results_follow_calls(
    s: LoopView,
    content: Seq<char>,
    is_error: bool,
    duration_ms: u128,
)
    requires
        well_formed(s),
        s.phase == Phase::ToolDispatch,
        s.results.len() + 1 == s.pending.len(),
    ensures
        ({
            let next = stepped(s, LoopEventView::ToolDone { content, is_error, duration_ms }).0;
            let at = s.messages.len() as int;
            &&& next.messages.len() > at
            &&& next.messages.subrange(0, at) == without_images_if_saved(s, next)
            &&& next.messages[at].role == Role::User
            &&& next.messages[at].content is Blocks
            &&& next.messages[at].content->Blocks_0.len() == s.pending.len()
            &&& forall|i: int|
                0 <= i < s.pending.len() ==> {
                    let b = #[trigger] next.messages[at].content->Blocks_0[i];
                    b is ToolResult && b->tool_use_id == s.pending[i].id
                }
        }),
{
    let call = s.pending[s.results.len() as int];
    let results = s.results.push(tool_result_block(call, content, is_error));
    let answer = MessageView { role: Role::User, content: ContentView::Blocks(results) };
    let t = LoopView { messages: s.messages.push(answer), ..s };
    let next = next_iteration(t).0;
    let at = s.messages.len() as int;
    assert forall|i: int| 0 <= i < s.pending.len() implies (#[trigger] results[i]) is ToolResult
        && results[i]->tool_use_id == s.pending[i].id by {
        if i < s.results.len() {
            assert(results[i] == s.results[i]);
        }
    }
    if t.iteration >= t.config.max_tool_iterations {
        let grown = t.messages.push(text_message(Role::Assistant, MAX_ITERATIONS_TEXT@));
        assert(next.messages == without_images(grown));
        assert(next.messages[at] == crate::render::message_without_images(answer));
        assert(next.messages.subrange(0, at) =~= without_images(s.messages));
        assert forall|i: int| 0 <= i < s.pending.len() implies {
            let b = #[trigger] next.messages[at].content->Blocks_0[i];
            b is ToolResult && b->tool_use_id == s.pending[i].id
        } by {
            assert(results[i] is ToolResult);
        }
    } else {
        assert(next.messages.subrange(0, at) =~= s.messages);
    }
}

/// The earlier part of the conversation after a round of tools: as it was,
/// or with its images taken out where the turn ended and it was saved.
pub open spec fn without_images_if_saved(s: LoopView, next: LoopView) -> Seq<MessageView> {
    if next.phase == Phase::MaxIterationsReached {
        without_images(s.messages)
    } else {
        s.messages
    }
}

/// With the budget used up, the round after a tool's result does not ask
/// the model again: the turn ends with the fixed text, which is also the
/// last message of what is saved.
pub proof fn lemma_budget_exhausted(s: LoopView)
    requires
        s.iteration >= s.config.max_tool_iterations,
    ensures
        next_iteration(s).0.phase == Phase::MaxIterationsReached,
        next_iteration(s).0.messages.last() == text_message(
            Role::Assistant,
            MAX_ITERATIONS_TEXT@,
        ),
        asks_persist(next_iteration(s).1),
        next_iteration(s).1.last() == ActionView::Reply(MAX_ITERATIONS_TEXT@),
{
    lemma_finished_shape(s, Phase::MaxIterationsReached, MAX_ITERATIONS_TEXT@, MAX_ITERATIONS_TEXT@);
    assert(next_iteration(s).1[0] == ActionView::Persist);
}

} // verus!
