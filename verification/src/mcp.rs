//! Settings of the tool servers and the decisions taken while talking to
//! them.

use crate::chars::{chars_eq, contains, find_from_exec, from_chars, to_chars, trim, trim_bounds};
use crate::lines::{ascii_lowered, to_ascii_lower};
use vstd::prelude::*;
use vstd::string::*;

verus! {

/// The protocol version that is asked for where none is configured.
pub const DEFAULT_PROTOCOL_VERSION: &'static str = "2025-11-05";

/// Seconds after which a request counts as lost, where none are configured.
pub const DEFAULT_REQUEST_TIMEOUT_SECS: u64 = 120;

/// How often a request is tried again, where nothing is configured.
pub const DEFAULT_MAX_RETRIES: u32 = 2;

/// Seconds between two probes of a server, where none are configured.
pub const DEFAULT_HEALTH_INTERVAL_SECS: u64 = 60;

/// Seconds for which the list of a server's tools counts as fresh.
pub const TOOLS_CACHE_TTL_SECS: u64 = 300;

/// The transport that is taken where none is configured.
pub fn default_transport() -> (r: String)
    ensures
        r@ == "stdio"@,
{
    "stdio".to_owned()
}

/// How one tool server is reached.
#[derive(Debug, PartialEq, Eq)]
pub struct McpServerConfig {
    pub transport: String,
    pub protocol_version: Option<String>,
    pub request_timeout_secs: Option<u64>,
    pub max_retries: Option<u32>,
    pub health_interval_secs: Option<u64>,
    /// The program to start, for a server that talks over its standard
    /// streams.
    pub command: String,
    pub args: Vec<String>,
    pub env: Vec<(String, String)>,
    /// The address, for a server that talks over HTTP.
    pub endpoint: String,
    pub headers: Vec<(String, String)>,
}

/// The tool servers, by name.
#[derive(Debug, PartialEq, Eq)]
pub struct McpConfig {
    pub default_protocol_version: Option<String>,
    pub mcp_servers: Vec<(String, McpServerConfig)>,
}

/// The ways in which a server is talked to.
#[derive(Clone, Copy, Debug, PartialEq, Eq, Structural)]
pub enum McpTransportKind {
    Stdio,
    StreamableHttp,
}

/// The name of the transport as it is compared: trimmed and in lower case.
pub open spec fn transport_name(transport: Seq<char>) -> Seq<char> {
    ascii_lowered(trim(transport))
}

/// Why a server cannot be connected, or how it is to be talked to.
pub open spec fn transport_of(
    name: Seq<char>,
    transport: Seq<char>,
    command: Seq<char>,
    endpoint: Seq<char>,
) -> Result<McpTransportKind, Seq<char>> {
    let t = transport_name(transport);
    if t == "stdio"@ || t.len() == 0 {
        if trim(command).len() == 0 {
            Err("MCP server '"@ + name + "' requires `command` when transport=stdio"@)
        } else {
            Ok(McpTransportKind::Stdio)
        }
    } else if t == "streamable_http"@ || t == "http"@ {
        if trim(endpoint).len() == 0 {
            Err("MCP server '"@ + name + "' requires `endpoint` when transport=streamable_http"@)
        } else {
            Ok(McpTransportKind::StreamableHttp)
        }
    } else {
        Err("MCP server '"@ + name + "' has unsupported transport '"@ + t + "'"@)
    }
}

fn is_blank(s: &str) -> (r: bool)
    ensures
        r == (trim(s@).len() == 0),
{
    let v = to_chars(s);
    let (lo, hi) = trim_bounds(&v, 0, v.len());
    assert(v@.subrange(0, v.len() as int) =~= v@);
    lo == hi
}

/// How a server is to be talked to, or why it cannot be connected.
pub fn transport_kind(name: &str, config: &McpServerConfig) -> (r: Result<McpTransportKind, String>)
    ensures
        (match r {
            Ok(k) => Ok(k),
            Err(e) => Err(e@),
        }) == transport_of(name@, config.transport@, config.command@, config.endpoint@),
{
    let v = to_chars(config.transport.as_str());
    let (lo, hi) = trim_bounds(&v, 0, v.len());
    assert(v@.subrange(0, v.len() as int) =~= v@);
    let trimmed = from_chars(&v, lo, hi);
    let t = to_ascii_lower(trimmed.as_str());
    let stdio = to_chars("stdio");
    let streamable = to_chars("streamable_http");
    let http = to_chars("http");
    if chars_eq(&t, &stdio) || t.len() == 0 {
        if is_blank(config.command.as_str()) {
            let mut e = "MCP server '".to_owned();
            e.append(name);
            e.append("' requires `command` when transport=stdio");
            Err(e)
        } else {
            Ok(McpTransportKind::Stdio)
        }
    } else if chars_eq(&t, &streamable) || chars_eq(&t, &http) {
        if is_blank(config.endpoint.as_str()) {
            let mut e = "MCP server '".to_owned();
            e.append(name);
            e.append("' requires `endpoint` when transport=streamable_http");
            Err(e)
        } else {
            Ok(McpTransportKind::StreamableHttp)
        }
    } else {
        let other = from_chars(&t, 0, t.len());
        assert(t@.subrange(0, t.len() as int) =~= t@);
        let mut e = "MCP server '".to_owned();
        e.append(name);
        e.append("' has unsupported transport '");
        e.append(other.as_str());
        e.append("'");
        Err(e)
    }
}

/// The protocol version that is asked of a server: the server's own, else
/// the one configured for all, else the default.
pub fn requested_protocol(config: &McpServerConfig, default_protocol_version: Option<&str>) -> (r:
    String)
    ensures
        r@ == (match config.protocol_version {
            Some(v) => v@,
            None => match default_protocol_version {
                Some(d) => d@,
                None => DEFAULT_PROTOCOL_VERSION@,
            },
        }),
{
    match &config.protocol_version {
        Some(v) => v.clone(),
        None => match default_protocol_version {
            Some(d) => d.to_owned(),
            None => DEFAULT_PROTOCOL_VERSION.to_owned(),
        },
    }
}

/// Seconds after which a request to the server counts as lost.
pub fn request_timeout_secs(config: &McpServerConfig) -> (r: u64)
    ensures
        r == (match config.request_timeout_secs {
            Some(v) => v,
            None => DEFAULT_REQUEST_TIMEOUT_SECS,
        }),
{
    match config.request_timeout_secs {
        Some(v) => v,
        None => DEFAULT_REQUEST_TIMEOUT_SECS,
    }
}

/// How often a request to the server is tried again.
pub fn max_retries(config: &McpServerConfig) -> (r: u32)
    ensures
        r == (match config.max_retries {
            Some(v) => v,
            None => DEFAULT_MAX_RETRIES,
        }),
{
    match config.max_retries {
        Some(v) => v,
        None => DEFAULT_MAX_RETRIES,
    }
}

/// Seconds between two probes of the server; 0 where it is not probed.
pub fn health_interval_secs(config: &McpServerConfig) -> (r: u64)
    ensures
        r == (match config.health_interval_secs {
            Some(v) => v,
            None => DEFAULT_HEALTH_INTERVAL_SECS,
        }),
{
    match config.health_interval_secs {
        Some(v) => v,
        None => DEFAULT_HEALTH_INTERVAL_SECS,
    }
}

/// Whether an error says that the connection is gone, so that connecting
/// anew may help.
pub open spec fn connection_lost(err: Seq<char>) -> bool {
    let lower = ascii_lowered(err);
    contains(lower, "write error"@) || contains(lower, "read error"@) || contains(
        lower,
        "closed connection"@,
    ) || contains(lower, "timeout"@) || contains(lower, "broken pipe"@)
}

fn holds(hay: &Vec<char>, needle: &str) -> (r: bool)
    ensures
        r == contains(hay@, needle@),
{
    let n = to_chars(needle);
    find_from_exec(hay, &n, 0).is_some()
}

/// Whether an error says that the connection is gone.
pub fn should_attempt_reconnect(err: &str) -> (r: bool)
    ensures
        r == connection_lost(err@),
{
    let lower = to_ascii_lower(err);
    holds(&lower, "write error") || holds(&lower, "read error") || holds(
        &lower,
        "closed connection",
    ) || holds(&lower, "timeout") || holds(&lower, "broken pipe")
}

/// Whether an error says that the server does not know the tool.
pub open spec fn tool_not_found(err: Seq<char>) -> bool {
    let lower = ascii_lowered(err);
    contains(lower, "not found"@) || contains(lower, "unknown tool"@) || contains(
        lower,
        "tool not found"@,
    )
}

/// Whether an error says that the server does not know the tool.
pub fn is_tool_not_found_error(err: &str) -> (r: bool)
    ensures
        r == tool_not_found(err@),
{
    let lower = to_ascii_lower(err);
    holds(&lower, "not found") || holds(&lower, "unknown tool") || holds(&lower, "tool not found")
}

/// Milliseconds to wait before connecting anew after the failed attempt
/// `attempt`: 200, doubled with every attempt up to the eighth.
pub open spec fn backoff_ms(attempt: u32) -> int
    decreases attempt,
{
    if attempt == 0 {
        200
    } else if attempt > 8 {
        backoff_ms(8)
    } else {
        2 * backoff_ms((attempt - 1) as u32)
    }
}

/// Milliseconds to wait before connecting anew after a failed attempt.
pub fn reconnect_backoff_ms(attempt: u32) -> (r: u64)
    ensures
        r == backoff_ms(attempt),
        200 <= r <= 51200,
{
    let steps: u32 = if attempt > 8 {
        8
    } else {
        attempt
    };
    let mut r: u64 = 200;
    let mut i: u32 = 0;
    while i < steps
        invariant
            i <= steps <= 8,
            r == backoff_ms(i),
            200 <= r <= 200 * 256,
            i == 0 ==> r == 200,
            i == 1 ==> r == 400,
            i == 2 ==> r == 800,
            i == 3 ==> r == 1600,
            i == 4 ==> r == 3200,
            i == 5 ==> r == 6400,
            i == 6 ==> r == 12800,
            i == 7 ==> r == 25600,
            i == 8 ==> r == 51200,
        decreases steps - i,
    {
        r = r * 2;
        i += 1;
    }
    r
}

/// Whether a failed request is tried again after connecting anew: while
/// tries are left, the server can be started again, and the error says
/// that the connection is gone.
pub fn should_retry(attempt: u32, max_retries: u32, can_respawn: bool, err: &str) -> (r: bool)
    ensures
        r == (attempt < max_retries && can_respawn && connection_lost(err@)),
{
    attempt < max_retries && can_respawn && should_attempt_reconnect(err)
}

/// Whether the list of tools, fetched `age_secs` seconds ago if ever,
/// still counts as fresh.
pub fn is_cache_fresh(age_secs: Option<u64>) -> (r: bool)
    ensures
        r == (match age_secs {
            Some(a) => a < TOOLS_CACHE_TTL_SECS,
            None => false,
        }),
{
    match age_secs {
        Some(a) => a < TOOLS_CACHE_TTL_SECS,
        None => false,
    }
}

/// The protocol version that a server and the client have agreed on:
/// the one that the server named in its answer, or the one that was asked
/// for where it named none.
pub fn negotiated_protocol(answered: Option<&str>, requested: &str) -> (r: String)
    ensures
        r@ == (match answered {
            Some(a) => a@,
            None => requested@,
        }),
{
    match answered {
        Some(a) => a.to_owned(),
        None => requested.to_owned(),
    }
}

/// What stands in the `id` of a message from a server.
#[derive(Clone, Copy, Debug, PartialEq, Eq, Structural)]
pub enum MessageId {
    /// A number that fits in 64 bits without a sign.
    Number(u64),
    /// Something else.
    Other,
    /// Nothing.
    Missing,
}

/// Whether a message from a server answers the request with the number
/// `expected`: it carries that number; or it carries no number at all but
/// a result or an error.
pub fn is_response_for(id: MessageId, expected: u64, has_result: bool, has_error: bool) -> (r: bool)
    ensures
        r == (match id {
            MessageId::Number(n) => n == expected,
            _ => has_result || has_error,
        }),
{
    match id {
        MessageId::Number(n) => n == expected,
        _ => has_result || has_error,
    }
}

/// The texts that are there, joined by line feeds.
pub open spec fn joined_texts(items: Seq<Option<String>>) -> Seq<char>
    decreases items.len(),
{
    if items.len() == 0 {
        Seq::empty()
    } else {
        let prev = joined_texts(items.drop_last());
        match items.last() {
            Some(t) => if prev.len() == 0 {
                t@
            } else {
                prev + "\n"@ + t@
            },
            None => prev,
        }
    }
}

/// What a tool call came to: the texts of its content, one to a line,
/// or, where it has no list of content, the whole answer written out; as
/// an error where the server marked it so.
pub fn tool_call_output(is_error: bool, content: Option<&Vec<Option<String>>>, whole: &str) -> (r:
    Result<String, String>)
    ensures
        r is Err <==> is_error,
        (match r {
            Ok(t) => t@,
            Err(t) => t@,
        }) == (match content {
            Some(items) => joined_texts(items@),
            None => whole@,
        }),
{
    let output = match content {
        Some(items) => {
            let mut out = String::new();
            let mut i: usize = 0;
            assert(items@.take(0).len() == 0);
            while i < items.len()
                invariant
                    i <= items.len(),
                    out@ == joined_texts(items@.take(i as int)),
                decreases items.len() - i,
            {
                proof {
                    assert(items@.take(i + 1).drop_last() =~= items@.take(i as int));
                    assert(items@.take(i + 1).last() == items@[i as int]);
                }
                match &items[i] {
                    Some(t) => {
                        if out.as_str().is_empty() {
                            out = t.clone();
                        } else {
                            out.append("\n");
                            out.append(t.as_str());
                        }
                    },
                    None => {},
                }
                i += 1;
            }
            assert(items@.take(items.len() as int) =~= items@);
            out
        },
        None => whole.to_owned(),
    };
    if is_error {
        Err(output)
    } else {
        Ok(output)
    }
}

/// Whether the server named `server` offers the tool named `tool`.
pub open spec fn offers(tools: Seq<(String, String)>, server: Seq<char>, tool: Seq<char>) -> bool {
    exists|i: int| 0 <= i < tools.len() && (#[trigger] tools[i]).0@ == server && tools[i].1@ == tool
}

/// Whether the server can keep memories: it offers both the tool that
/// asks for them and the tool that stores them.
pub open spec fn keeps_memories(tools: Seq<(String, String)>, server: Seq<char>) -> bool {
    offers(tools, server, "memory_query"@) && offers(tools, server, "memory_upsert"@)
}

fn does_offer(tools: &Vec<(String, String)>, server: &str, tool: &str) -> (r: bool)
    ensures
        r == offers(tools@, server@, tool@),
{
    let mut i: usize = 0;
    while i < tools.len()
        invariant
            i <= tools.len(),
            forall|k: int| 0 <= k < i ==> !((#[trigger] tools@[k]).0@ == server@ && tools@[k].1@ == tool@),
        decreases tools.len() - i,
    {
        if crate::chars::str_eq(tools[i].0.as_str(), server) && crate::chars::str_eq(
            tools[i].1.as_str(),
            tool,
        ) {
            return true;
        }
        i += 1;
    }
    false
}

/// The server that keeps the memories, given the tools of all servers as
/// pairs of the server's name and the tool's name: the first in the list
/// that offers both memory tools, none where no server does.
pub fn find_memory_server(tools: &Vec<(String, String)>) -> (r: Option<usize>)
    ensures
        match r {
            Some(i) => i < tools.len() && keeps_memories(tools@, tools@[i as int].0@) && forall|
                k: int,
            |
                0 <= k < i ==> !keeps_memories(tools@, (#[trigger] tools@[k]).0@),
            None => forall|k: int|
                0 <= k < tools.len() ==> !keeps_memories(tools@, (#[trigger] tools@[k]).0@),
        },
{
    let mut i: usize = 0;
    while i < tools.len()
        invariant
            i <= tools.len(),
            forall|k: int| 0 <= k < i ==> !keeps_memories(tools@, (#[trigger] tools@[k]).0@),
        decreases tools.len() - i,
    {
        let server = tools[i].0.as_str();
        if does_offer(tools, server, "memory_query") && does_offer(tools, server, "memory_upsert") {
            return Some(i);
        }
        i += 1;
    }
    None
}

} // verus!
