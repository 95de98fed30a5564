//! The settings that the engine reads.

use crate::agent::{LoopConfig, ToolAuthContext};
use vstd::prelude::*;
use vstd::string::*;

verus! {

/// The settings that the engine reads.
#[derive(Debug, PartialEq, Eq)]
pub struct Config {
    /// The name under which the bot speaks.
    pub bot_username: String,
    /// Which provider answers.
    pub llm_provider: String,
    /// Which model answers.
    pub model: String,
    /// How many times the model may be asked in one turn.
    pub max_tool_iterations: usize,
    /// How many stored messages a conversation is rebuilt from.
    pub max_history_messages: usize,
    /// A conversation longer than this is compacted.
    pub max_session_messages: usize,
    /// How many recent messages compaction keeps word for word.
    pub compact_keep_recent: usize,
    /// Whether internal reasoning is shown in replies.
    pub show_thinking: bool,
    /// The IANA name of the time zone in which schedules are read.
    pub timezone: String,
    /// The chats that may act across chats.
    pub control_chat_ids: Vec<i64>,
    /// The group chats in which the bot answers; all where empty.
    pub allowed_groups: Vec<i64>,
}

impl Config {
    /// The limits and switches of a turn; `streaming` says whether
    /// someone listens to its events.
    pub fn loop_config(&self, streaming: bool) -> (r: LoopConfig)
        ensures
            r == (LoopConfig {
                max_tool_iterations: self.max_tool_iterations,
                max_session_messages: self.max_session_messages,
                compact_keep_recent: self.compact_keep_recent,
                show_thinking: self.show_thinking,
                streaming,
            }),
    {
        LoopConfig {
            max_tool_iterations: self.max_tool_iterations,
            max_session_messages: self.max_session_messages,
            compact_keep_recent: self.compact_keep_recent,
            show_thinking: self.show_thinking,
            streaming,
        }
    }

    /// The authorisation under which the tools of a turn for the chat
    /// `chat_id` run.
    pub fn tool_auth(&self, chat_id: i64) -> (r: ToolAuthContext)
        ensures
            r.caller_chat_id == chat_id,
            r.control_chat_ids@ == self.control_chat_ids@,
    {
        ToolAuthContext { caller_chat_id: chat_id, control_chat_ids: self.control_chat_ids.clone() }
    }
}

} // verus!
