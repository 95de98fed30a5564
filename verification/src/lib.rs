//! The orchestration engine of a conversational agent that is reached over
//! several channels.
//!
//! The engine keeps one conversation for each chat, rebuilds or resumes it
//! when a message comes in, compacts it when it grows long, and drives a
//! bounded loop in which a language model may ask for tools. Runs in flight
//! can be stopped, and tasks can be run on a schedule through the same loop.
//!
//! Everything here decides and computes; nothing here waits, reads or
//! sends. The program around the library performs what the library asks
//! for and reports back what happened.
//!
//! - [`message`], [`render`], [`text`], [`chars`], [`lines`], [`parse`],
//!   [`json`], [`split`]: messages and the text they carry.
//! - [`history`], [`session`], [`session_codec`], [`compaction`],
//!   [`archive`]: the conversation of a turn, and the form in which it is
//!   kept.
//! - [`agent`], [`agent_run`]: the tool-use loop as a state machine, and
//!   what holds of its runs.
//! - [`run_control`]: the registry of runs in flight.
//! - [`scheduler`]: what is decided for a due task.
//! - [`startup_guard`], [`channel`], [`chat_commands`], [`prompt`],
//!   [`tools`], [`web`], [`mcp`], [`memory`], [`probe`]: what channels and
//!   tools decide at their edge.
//! - [`gateway`], [`service`], [`service_env`], [`service_status`],
//!   [`service_report`]: the gateway service and its files.

pub mod agent;
pub mod agent_run;
pub mod archive;
pub mod channel;
pub mod chars;
pub mod chat_commands;
pub mod compaction;
pub mod config;
pub mod gateway;
pub mod history;
pub mod json;
pub mod lines;
pub mod mcp;
pub mod memory;
pub mod message;
pub mod parse;
pub mod probe;
pub mod prompt;
pub mod render;
pub mod run_control;
pub mod scheduler;
pub mod service;
pub mod service_env;
pub mod service_report;
pub mod service_status;
pub mod session;
pub mod session_codec;
pub mod split;
pub mod startup_guard;
pub mod text;
pub mod tools;
pub mod web;
