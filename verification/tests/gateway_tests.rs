use microclaw::gateway::{
    assert_no_line_breaks, handle_gateway_cli, join_path, mac_target_label, parse_install_options,
    parse_log_lines, parse_status_options, resolve_runtime_logs_dir, systemd_escape_arg,
    xml_escape, GatewayAction, GatewayError, InstallOptions, StatusOptions, DEFAULT_LOG_LINES,
    MAC_LABEL,
};
use microclaw::service::{render_linux_unit, render_macos_plist, ServiceContext, ServiceEnv};
use microclaw::service_status::{
    linux_is_running, macos_is_running, parse_key_values, parse_linux_runtime_status,
    parse_macos_runtime_status, plist_key_has_true,
};

fn test_ctx() -> ServiceContext {
    let mut service_env = ServiceEnv::new();
    service_env.insert("MICROCLAW_GATEWAY", "1");
    service_env.insert("MICROCLAW_CONFIG", "/tmp/microclaw/microclaw.config.yaml");

    ServiceContext {
        exe_path: "/usr/local/bin/microclaw".to_string(),
        working_dir: "/tmp/microclaw".to_string(),
        config_path: Some("/tmp/microclaw/microclaw.config.yaml".to_string()),
        runtime_logs_dir: "/tmp/microclaw/runtime/logs".to_string(),
        service_env,
    }
}

fn args(words: &[&str]) -> Vec<String> {
    words.iter().map(|w| w.to_string()).collect()
}

#[test]
fn test_xml_escape() {
    let input = "a&b<c>d\"e'f";
    let escaped = xml_escape(input);
    assert_eq!(escaped, "a&amp;b&lt;c&gt;d&quot;e&apos;f");
}

#[test]
fn test_systemd_escape_arg() {
    assert_eq!(systemd_escape_arg("abc").unwrap(), "abc");
    assert_eq!(
        systemd_escape_arg("/path with spaces/bin").unwrap(),
        "\"/path with spaces/bin\""
    );
    assert!(systemd_escape_arg("a\nb").is_err());
}

#[test]
fn test_systemd_escape_arg_backslash_and_quote() {
    assert_eq!(systemd_escape_arg("a\\b").unwrap(), "\"a\\\\b\"");
    assert_eq!(systemd_escape_arg("say \"hi\"").unwrap(), "\"say \\\"hi\\\"\"");
    assert_eq!(
        systemd_escape_arg("a\rb"),
        Err(GatewayError::LineBreak("Systemd unit value".to_string()))
    );
    assert_eq!(systemd_escape_arg("").unwrap(), "");
}

#[test]
fn test_assert_no_line_breaks_names_the_value() {
    assert_eq!(assert_no_line_breaks("fine", "Thing"), Ok(()));
    let err = assert_no_line_breaks("a\nb", "Thing").unwrap_err();
    assert_eq!(err.message(), "Thing cannot contain CR or LF");
}

#[test]
fn test_render_linux_unit_contains_expected_fields() {
    let unit = render_linux_unit(&test_ctx()).unwrap();
    assert!(unit.contains("After=network-online.target"));
    assert!(unit.contains("Wants=network-online.target"));
    assert!(unit.contains("Restart=always"));
    assert!(unit.contains("RestartSec=5"));
    assert!(unit.contains("KillMode=process"));
    assert!(unit.contains("ExecStart=/usr/local/bin/microclaw start"));
    assert!(unit.contains("Environment=MICROCLAW_GATEWAY=1"));
    assert!(unit.contains("MICROCLAW_CONFIG=/tmp/microclaw/microclaw.config.yaml"));
}

#[test]
fn test_render_linux_unit_whole_text() {
    let unit = render_linux_unit(&test_ctx()).unwrap();
    assert_eq!(
        unit,
        "[Unit]\nDescription=MicroClaw Gateway Service\nAfter=network-online.target\nWants=network-online.target\n\n[Service]\nType=simple\nWorkingDirectory=/tmp/microclaw\nExecStart=/usr/local/bin/microclaw start\nEnvironment=MICROCLAW_CONFIG=/tmp/microclaw/microclaw.config.yaml\nEnvironment=MICROCLAW_GATEWAY=1\nRestart=always\nRestartSec=5\nKillMode=process\n\n[Install]\nWantedBy=default.target\n"
    );
}

#[test]
fn test_render_linux_unit_refuses_line_breaks() {
    let mut ctx = test_ctx();
    ctx.service_env.insert("BAD", "a\nb");
    assert_eq!(
        render_linux_unit(&ctx),
        Err(GatewayError::LineBreak("Systemd environment variable value".to_string()))
    );
    let mut ctx = test_ctx();
    ctx.service_env.insert("B\rAD", "x");
    assert_eq!(
        render_linux_unit(&ctx),
        Err(GatewayError::LineBreak("Systemd environment variable name".to_string()))
    );
    let mut ctx = test_ctx();
    ctx.working_dir = "/tmp/a\nb".to_string();
    assert_eq!(
        render_linux_unit(&ctx),
        Err(GatewayError::LineBreak("Systemd unit value".to_string()))
    );
}

#[test]
fn test_render_linux_unit_quotes_values_with_spaces() {
    let mut ctx = test_ctx();
    ctx.service_env.insert("PATH", "/a b:/c");
    let unit = render_linux_unit(&ctx).unwrap();
    assert!(unit.contains("Environment=\"PATH=/a b:/c\"\n"));
}

#[test]
fn test_service_env_is_ordered_by_name_and_replaces() {
    let mut env = ServiceEnv::new();
    env.insert("TMPDIR", "/tmp");
    env.insert("HOME", "/root");
    env.insert("PATH", "/bin");
    env.insert("HOME", "/home/u");
    env.insert("HOM", "x");
    assert_eq!(env.len(), 4);
    assert_eq!(env.entry(0), Some(("HOM", "x")));
    assert_eq!(env.entry(1), Some(("HOME", "/home/u")));
    assert_eq!(env.entry(2), Some(("PATH", "/bin")));
    assert_eq!(env.entry(3), Some(("TMPDIR", "/tmp")));
    assert_eq!(env.entry(4), None);
}

#[test]
fn test_render_macos_plist_contains_required_fields() {
    let ctx = test_ctx();
    let plist = render_macos_plist(&ctx);
    let normalized = plist.replace('\\', "/");
    assert!(plist.contains("<key>Label</key>"));
    assert!(plist.contains(MAC_LABEL));
    assert!(plist.contains("<string>start</string>"));
    assert!(plist.contains("MICROCLAW_GATEWAY"));
    assert!(plist.contains("MICROCLAW_CONFIG"));
    assert!(normalized.contains("/tmp/microclaw/runtime/logs/microclaw-gateway.log"));
    assert!(normalized.contains("/tmp/microclaw/runtime/logs/microclaw-gateway.error.log"));
}

#[test]
fn test_render_macos_plist_whole_text() {
    let mut env = ServiceEnv::new();
    env.insert("A&B", "<1>");
    let ctx = ServiceContext {
        exe_path: "/bin/m".to_string(),
        working_dir: "/w".to_string(),
        config_path: None,
        runtime_logs_dir: "/l/".to_string(),
        service_env: env,
    };
    assert_eq!(
        render_macos_plist(&ctx),
        "<?xml version=\"1.0\" encoding=\"UTF-8\"?>\n<!DOCTYPE plist PUBLIC \"-//Apple//DTD PLIST 1.0//EN\" \"http://www.apple.com/DTDs/PropertyList-1.0.dtd\">\n<plist version=\"1.0\">\n<dict>\n  <key>Label</key>\n  <string>ai.microclaw.gateway</string>\n  <key>ProgramArguments</key>\n  <array>\n    <string>/bin/m</string>\n    <string>start</string>\n  </array>\n  <key>WorkingDirectory</key>\n  <string>/w</string>\n  <key>RunAtLoad</key>\n  <true/>\n  <key>KeepAlive</key>\n  <true/>\n  <key>StandardOutPath</key>\n  <string>/l/microclaw-gateway.log</string>\n  <key>StandardErrorPath</key>\n  <string>/l/microclaw-gateway.error.log</string>\n  <key>EnvironmentVariables</key>\n  <dict>\n    <key>A&amp;B</key>\n    <string>&lt;1&gt;</string>\n  </dict>\n</dict>\n</plist>"
    );
}

#[test]
fn test_parse_log_lines_default_and_custom() {
    assert_eq!(parse_log_lines(None).unwrap(), DEFAULT_LOG_LINES);
    assert_eq!(parse_log_lines(Some("20")).unwrap(), 20);
    assert!(parse_log_lines(Some("0")).is_err());
    assert!(parse_log_lines(Some("abc")).is_err());
}

#[test]
fn test_parse_log_lines_errors_and_signs() {
    assert_eq!(parse_log_lines(Some("0")), Err(GatewayError::ZeroLogLines));
    assert_eq!(
        parse_log_lines(Some("abc")),
        Err(GatewayError::InvalidLogLineCount("abc".to_string()))
    );
    assert_eq!(parse_log_lines(Some("+7")), Ok(7));
    assert_eq!(parse_log_lines(Some("007")), Ok(7));
    assert!(parse_log_lines(Some("-1")).is_err());
    assert!(parse_log_lines(Some("")).is_err());
    assert!(parse_log_lines(Some("+")).is_err());
    assert!(parse_log_lines(Some(" 5")).is_err());
    assert!(parse_log_lines(Some("99999999999999999999999999")).is_err());
    assert_eq!(parse_log_lines(Some("18446744073709551615")).ok(), "18446744073709551615".parse::<usize>().ok());
}

#[test]
fn test_parse_options() {
    let install = parse_install_options(&["--force".to_string()]).unwrap();
    assert!(install.force);
    assert!(parse_install_options(&["--bad".to_string()]).is_err());

    let status = parse_status_options(&["--json".to_string(), "--deep".to_string()]).unwrap();
    assert!(status.json);
    assert!(status.deep);
    assert!(parse_status_options(&["--bad".to_string()]).is_err());
}

#[test]
fn test_parse_options_name_first_unknown() {
    assert_eq!(parse_install_options(&[]), Ok(InstallOptions { force: false }));
    assert_eq!(
        parse_install_options(&args(&["--force", "--x", "--y"])),
        Err(GatewayError::UnknownInstallOption("--x".to_string()))
    );
    assert_eq!(
        parse_status_options(&args(&["--deep"])),
        Ok(StatusOptions { json: false, deep: true })
    );
    assert_eq!(
        parse_status_options(&args(&["--json", "oops"])).unwrap_err().message(),
        "Unknown status option: oops. Supported: --json --deep"
    );
}

#[test]
fn test_handle_gateway_cli_dispatch() {
    assert_eq!(handle_gateway_cli(&[]), Ok(GatewayAction::Help));
    assert_eq!(
        handle_gateway_cli(&args(&["install", "--force"])),
        Ok(GatewayAction::Install(InstallOptions { force: true }))
    );
    assert_eq!(handle_gateway_cli(&args(&["uninstall"])), Ok(GatewayAction::Uninstall));
    assert_eq!(handle_gateway_cli(&args(&["start"])), Ok(GatewayAction::Start));
    assert_eq!(handle_gateway_cli(&args(&["stop"])), Ok(GatewayAction::Stop));
    assert_eq!(handle_gateway_cli(&args(&["restart", "ignored"])), Ok(GatewayAction::Restart));
    assert_eq!(
        handle_gateway_cli(&args(&["status", "--json"])),
        Ok(GatewayAction::Status(StatusOptions { json: true, deep: false }))
    );
    assert_eq!(handle_gateway_cli(&args(&["logs"])), Ok(GatewayAction::Logs(200)));
    assert_eq!(handle_gateway_cli(&args(&["logs", "15"])), Ok(GatewayAction::Logs(15)));
    assert_eq!(handle_gateway_cli(&args(&["logs", "0"])), Err(GatewayError::ZeroLogLines));
    let err = handle_gateway_cli(&args(&["dance"])).unwrap_err();
    assert_eq!(
        err.message(),
        "Unknown gateway action: dance. Use: gateway <install|uninstall|start|stop|restart|status|logs>"
    );
    assert_eq!(
        handle_gateway_cli(&args(&["install", "--nope"])),
        Err(GatewayError::UnknownInstallOption("--nope".to_string()))
    );
}

#[test]
fn test_parse_linux_runtime_status() {
    let status = parse_linux_runtime_status(
        "LoadState=loaded\nActiveState=active\nSubState=running\nMainPID=123\nExecMainStatus=0\nExecMainCode=exited\n",
    );
    assert_eq!(status.load_state.as_deref(), Some("loaded"));
    assert_eq!(status.active_state.as_deref(), Some("active"));
    assert_eq!(status.sub_state.as_deref(), Some("running"));
    assert_eq!(status.main_pid, Some(123));
    assert_eq!(status.exec_main_status, Some(0));
    assert_eq!(status.exec_main_code.as_deref(), Some("exited"));
}

#[test]
fn test_parse_linux_runtime_status_last_value_counts() {
    let status = parse_linux_runtime_status(
        " MainPID = x \r\nMainPID=7\r\nnoise\nFragmentPath=/a=b\nActiveState=failed",
    );
    assert_eq!(status.main_pid, Some(7));
    assert_eq!(status.fragment_path.as_deref(), Some("/a=b"));
    assert_eq!(status.load_state, None);
    assert!(!linux_is_running(&status));
    let bad = parse_linux_runtime_status("MainPID=7\nMainPID=seven\nActiveState=active\n");
    assert_eq!(bad.main_pid, None);
    assert!(linux_is_running(&bad));
}

#[test]
fn test_parse_key_values_in_line_order() {
    let pairs = parse_key_values("a=1\n\nb = 2 \nc\n=3\nd=\r\n");
    assert_eq!(
        pairs,
        vec![
            ("a".to_string(), "1".to_string()),
            ("b".to_string(), "2".to_string()),
            ("".to_string(), "3".to_string()),
            ("d".to_string(), "".to_string()),
        ]
    );
}

#[test]
fn test_parse_macos_runtime_status() {
    let status = parse_macos_runtime_status(
        "state = running\npid = 99\nlast exit status = 0\nlast exit reason = exited\n",
    );
    assert_eq!(status.state.as_deref(), Some("running"));
    assert_eq!(status.pid, Some(99));
    assert_eq!(status.last_exit_status, Some(0));
    assert_eq!(status.last_exit_reason.as_deref(), Some("exited"));
}

#[test]
fn test_parse_macos_runtime_status_case_and_semicolons() {
    let status = parse_macos_runtime_status("\tState = Waiting;;\n PID = 12;\npid = none\n");
    assert_eq!(status.state.as_deref(), Some("Waiting"));
    assert_eq!(status.pid, None);
    assert!(!macos_is_running(&status));
    let up = parse_macos_runtime_status("state = RUNNING\n");
    assert!(macos_is_running(&up));
    let by_pid = parse_macos_runtime_status("state = x\npid = 4\n");
    assert!(macos_is_running(&by_pid));
}

#[test]
fn test_resolve_runtime_logs_dir_fallback() {
    let dir = resolve_runtime_logs_dir("/tmp/microclaw", None);
    assert!(
        dir.ends_with("runtime/logs") || dir.ends_with("microclaw.data/runtime/logs"),
        "unexpected logs dir: {}",
        dir
    );
}

#[test]
fn test_resolve_runtime_logs_dir_values() {
    assert_eq!(resolve_runtime_logs_dir("/tmp/microclaw", None), "/tmp/microclaw/runtime/logs");
    assert_eq!(
        resolve_runtime_logs_dir("/tmp/microclaw", Some("/d/microclaw.data/runtime")),
        "/d/microclaw.data/runtime/logs"
    );
    assert_eq!(join_path("", "x"), "x");
    assert_eq!(join_path("/", "x"), "/x");
    assert_eq!(join_path("a/", "x"), "a/x");
    assert_eq!(
        join_path("/a", "x"),
        std::path::Path::new("/a").join("x").to_string_lossy().to_string()
    );
}

#[test]
fn test_plist_key_has_true() {
    let content = "<key>RunAtLoad</key>\n<true/>\n<key>KeepAlive</key>\n<false/>";
    assert!(plist_key_has_true(content, "RunAtLoad"));
    assert!(!plist_key_has_true(content, "KeepAlive"));
    assert!(!plist_key_has_true(content, "Missing"));
    assert!(plist_key_has_true("<key>A</key><key>B</key><true/>", "A"));
}

#[test]
fn test_mac_target_label() {
    assert_eq!(mac_target_label("501"), "gui/501/ai.microclaw.gateway");
}
