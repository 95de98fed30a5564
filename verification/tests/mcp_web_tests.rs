use std::hash::{Hash, Hasher};

use microclaw::mcp::{
    default_transport, find_memory_server, health_interval_secs, is_cache_fresh, is_response_for,
    is_tool_not_found_error, max_retries, negotiated_protocol, reconnect_backoff_ms,
    request_timeout_secs, requested_protocol, should_attempt_reconnect, should_retry,
    tool_call_output, transport_kind, McpConfig, McpServerConfig, McpTransportKind, MessageId,
};
use microclaw::web::{
    auth_token_from_header, chat_id_from_hash, history_start, map_chat_to_session,
    normalize_session_key, require_auth, session_key_to_chat_id, ChatSummary,
};

fn server(transport: &str, command: &str, endpoint: &str) -> McpServerConfig {
    McpServerConfig {
        transport: transport.to_string(),
        protocol_version: None,
        request_timeout_secs: None,
        max_retries: None,
        health_interval_secs: None,
        command: command.to_string(),
        args: vec![],
        env: vec![],
        endpoint: endpoint.to_string(),
        headers: vec![],
    }
}

#[test]
fn test_tool_not_found_error_detection() {
    assert!(is_tool_not_found_error("Tool not found"));
    assert!(is_tool_not_found_error("unknown tool: x"));
    assert!(!is_tool_not_found_error("permission denied"));
}

#[test]
fn test_should_attempt_reconnect() {
    assert!(should_attempt_reconnect("Write error: pipe"));
    assert!(should_attempt_reconnect("MCP server closed connection"));
    assert!(should_attempt_reconnect("MCP server response TIMEOUT (120s)"));
    assert!(should_attempt_reconnect("Broken pipe (os error 32)"));
    assert!(should_attempt_reconnect("Read error"));
    assert!(!should_attempt_reconnect("MCP error (-32000): nope"));
    assert!(!should_attempt_reconnect(""));
}

#[test]
fn test_should_retry() {
    assert!(should_retry(0, 2, true, "timeout"));
    assert!(should_retry(1, 2, true, "timeout"));
    assert!(!should_retry(2, 2, true, "timeout"));
    assert!(!should_retry(0, 2, false, "timeout"));
    assert!(!should_retry(0, 2, true, "bad request"));
    assert!(!should_retry(0, 0, true, "timeout"));
}

#[test]
fn test_reconnect_backoff_ms() {
    assert_eq!(reconnect_backoff_ms(0), 200);
    assert_eq!(reconnect_backoff_ms(1), 400);
    assert_eq!(reconnect_backoff_ms(3), 1600);
    assert_eq!(reconnect_backoff_ms(8), 51200);
    assert_eq!(reconnect_backoff_ms(9), 51200);
    assert_eq!(reconnect_backoff_ms(u32::MAX), 51200);
}

#[test]
fn test_transport_kind() {
    assert_eq!(transport_kind("demo", &server("stdio", "npx", "")), Ok(McpTransportKind::Stdio));
    assert_eq!(transport_kind("demo", &server("  ", "npx", "")), Ok(McpTransportKind::Stdio));
    assert_eq!(transport_kind("demo", &server(" STDIO ", "npx", "")), Ok(McpTransportKind::Stdio));
    assert_eq!(
        transport_kind("demo", &server("stdio", "  ", "")),
        Err("MCP server 'demo' requires `command` when transport=stdio".to_string())
    );
    assert_eq!(
        transport_kind("r", &server("streamable_http", "", "http://127.0.0.1:8080/mcp")),
        Ok(McpTransportKind::StreamableHttp)
    );
    assert_eq!(
        transport_kind("r", &server("HTTP", "", "http://x")),
        Ok(McpTransportKind::StreamableHttp)
    );
    assert_eq!(
        transport_kind("r", &server("http", "cmd", " ")),
        Err("MCP server 'r' requires `endpoint` when transport=streamable_http".to_string())
    );
    assert_eq!(
        transport_kind("r", &server(" Carrier-Pigeon ", "cmd", "x")),
        Err("MCP server 'r' has unsupported transport 'carrier-pigeon'".to_string())
    );
}

#[test]
fn test_mcp_defaults() {
    let s = server("stdio", "npx", "");
    assert_eq!(default_transport(), "stdio");
    assert_eq!(requested_protocol(&s, None), "2025-11-05");
    assert_eq!(requested_protocol(&s, Some("2024-01-01")), "2024-01-01");
    assert_eq!(request_timeout_secs(&s), 120);
    assert_eq!(max_retries(&s), 2);
    assert_eq!(health_interval_secs(&s), 60);
    let mut own = server("stdio", "npx", "");
    own.protocol_version = Some("2023-03-03".to_string());
    own.request_timeout_secs = Some(5);
    own.max_retries = Some(3);
    own.health_interval_secs = Some(15);
    assert_eq!(requested_protocol(&own, Some("2024-01-01")), "2023-03-03");
    assert_eq!(request_timeout_secs(&own), 5);
    assert_eq!(max_retries(&own), 3);
    assert_eq!(health_interval_secs(&own), 15);
    let all = McpConfig { default_protocol_version: None, mcp_servers: vec![("demo".to_string(), s)] };
    assert_eq!(all.mcp_servers.len(), 1);
}

#[test]
fn test_is_cache_fresh() {
    assert!(!is_cache_fresh(None));
    assert!(is_cache_fresh(Some(0)));
    assert!(is_cache_fresh(Some(299)));
    assert!(!is_cache_fresh(Some(300)));
}

#[test]
fn test_normalize_session_key() {
    assert_eq!(normalize_session_key(None), "main");
    assert_eq!(normalize_session_key(Some("")), "main");
    assert_eq!(normalize_session_key(Some("   ")), "main");
    assert_eq!(normalize_session_key(Some(" work ")), "work");
}

#[test]
fn test_session_key_to_chat_id_is_stable_and_in_range() {
    let a = session_key_to_chat_id("main");
    let b = session_key_to_chat_id("main");
    let c = session_key_to_chat_id("other");
    assert_eq!(a, b);
    assert_ne!(a, c);
    assert!(a >= 0 && a <= 0x3FFF_FFFF_FFFF_FFFF);
    assert!(c >= 0 && c <= 0x3FFF_FFFF_FFFF_FFFF);
    assert_ne!(session_key_to_chat_id(""), session_key_to_chat_id("web:"));
}

#[test]
fn test_session_key_to_chat_id_is_the_hash_of_the_prefixed_key() {
    for key in ["main", "", "work", "caf\u{00e9}", "a:b"] {
        let mut hasher = std::collections::hash_map::DefaultHasher::new();
        format!("web:{key}").hash(&mut hasher);
        let expected = (hasher.finish() & 0x3FFF_FFFF_FFFF_FFFF) as i64;
        assert_eq!(session_key_to_chat_id(key), expected);
    }
}

#[test]
fn test_chat_id_from_hash() {
    assert_eq!(chat_id_from_hash(0), 0);
    assert_eq!(chat_id_from_hash(u64::MAX), 0x3FFF_FFFF_FFFF_FFFF);
    assert_eq!(chat_id_from_hash(0x4000_0000_0000_0005), 5);
    assert_eq!(chat_id_from_hash(0x8000_0000_0000_0000), 0);
}

#[test]
fn test_map_chat_to_session() {
    let titled = ChatSummary {
        chat_id: 9,
        chat_title: Some("main".to_string()),
        chat_type: "web".to_string(),
        last_message_time: "t".to_string(),
        last_message_preview: Some("hi".to_string()),
    };
    let s = map_chat_to_session(titled);
    assert_eq!(s.session_key, "main");
    assert_eq!(s.chat_id, 9);
    assert_eq!(s.last_message_time, "t");
    assert_eq!(s.last_message_preview.as_deref(), Some("hi"));
    let untitled = ChatSummary {
        chat_id: -12,
        chat_title: None,
        chat_type: "web".to_string(),
        last_message_time: "t".to_string(),
        last_message_preview: None,
    };
    assert_eq!(map_chat_to_session(untitled).session_key, "web--12");
}

#[test]
fn test_auth_token_from_header() {
    assert_eq!(auth_token_from_header(Some("Bearer abc")), Some("abc".to_string()));
    assert_eq!(auth_token_from_header(Some("Bearer   abc  ")), Some("abc".to_string()));
    assert_eq!(auth_token_from_header(Some("Bearer ")), None);
    assert_eq!(auth_token_from_header(Some("bearer abc")), None);
    assert_eq!(auth_token_from_header(Some("Basic abc")), None);
    assert_eq!(auth_token_from_header(None), None);
}

#[test]
fn test_require_auth() {
    assert!(require_auth(None, None));
    assert!(require_auth(Some("junk"), None));
    assert!(require_auth(Some("Bearer s3"), Some("s3")));
    assert!(!require_auth(Some("Bearer s4"), Some("s3")));
    assert!(!require_auth(None, Some("s3")));
    assert!(require_auth(None, Some("")));
}

#[test]
fn test_history_start() {
    assert_eq!(history_start(10, None), 0);
    assert_eq!(history_start(10, Some(3)), 7);
    assert_eq!(history_start(10, Some(10)), 0);
    assert_eq!(history_start(10, Some(11)), 0);
    assert_eq!(history_start(0, Some(0)), 0);
    assert_eq!(history_start(4, Some(0)), 4);
}

#[test]
fn test_negotiated_protocol_and_response_matching() {
    assert_eq!(negotiated_protocol(Some("2024-11-05"), "2025-11-05"), "2024-11-05");
    assert_eq!(negotiated_protocol(None, "2025-11-05"), "2025-11-05");
    let number = MessageId::Number(7);
    assert!(is_response_for(number, 7, false, false));
    assert!(!is_response_for(number, 8, true, true));
    assert!(is_response_for(MessageId::Missing, 8, true, false));
    assert!(is_response_for(MessageId::Other, 8, false, true));
    assert!(!is_response_for(MessageId::Missing, 8, false, false));
}

#[test]
fn test_tool_call_output() {
    let items = vec![Some("a".to_string()), None, Some("".to_string()), Some("b".to_string())];
    assert_eq!(tool_call_output(false, Some(&items), "{}"), Ok("a\n\nb".to_string()));
    assert_eq!(tool_call_output(true, Some(&items), "{}"), Err("a\n\nb".to_string()));
    let late = vec![Some("".to_string()), Some("x".to_string())];
    assert_eq!(tool_call_output(false, Some(&late), "{}"), Ok("x".to_string()));
    assert_eq!(tool_call_output(false, None, "{\"k\":1}"), Ok("{\"k\":1}".to_string()));
    assert_eq!(tool_call_output(true, None, "boom"), Err("boom".to_string()));
    assert_eq!(tool_call_output(false, Some(&vec![]), "w"), Ok(String::new()));
}

#[test]
fn test_find_memory_server() {
    let pair = |s: &str, t: &str| (s.to_string(), t.to_string());
    let tools = vec![
        pair("files", "read"),
        pair("half", "memory_query"),
        pair("mem", "memory_upsert"),
        pair("mem", "memory_query"),
        pair("other", "memory_query"),
        pair("other", "memory_upsert"),
    ];
    assert_eq!(find_memory_server(&tools), Some(2));
    assert_eq!(find_memory_server(&tools[..2].to_vec()), None);
    assert_eq!(find_memory_server(&vec![]), None);
}

#[test]
fn test_web_sender_and_message() {
    assert_eq!(microclaw::web::web_sender_name(None), "web-user");
    assert_eq!(microclaw::web::web_sender_name(Some("  ")), "web-user");
    assert_eq!(microclaw::web::web_sender_name(Some(" ann ")), "ann");
    assert_eq!(microclaw::web::required_message(" hi "), Ok("hi".to_string()));
    assert_eq!(microclaw::web::required_message(" \n"), Err("message is required".to_string()));
}

#[test]
fn test_asset_content_type() {
    assert_eq!(microclaw::web::asset_content_type("app.css"), "text/css; charset=utf-8");
    assert_eq!(microclaw::web::asset_content_type("x/app.js"), "application/javascript; charset=utf-8");
    assert_eq!(microclaw::web::asset_content_type("app.js.map"), "application/octet-stream");
    assert_eq!(microclaw::web::asset_content_type(".css"), "text/css; charset=utf-8");
    assert_eq!(microclaw::web::asset_content_type("css"), "application/octet-stream");
    assert_eq!(microclaw::web::asset_content_type(""), "application/octet-stream");
}
