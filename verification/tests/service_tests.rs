use microclaw::agent::ToolAuthContext;
use microclaw::gateway::{service_manager, GatewayAction, Platform, ServiceManager};
use microclaw::probe::{parse_args, probe_timeout_secs, required};
use microclaw::service_env::{build_service_env, ToolHomes};
use microclaw::service_report::{
    command_failure, is_already_loaded, is_not_loaded, linux_status_text, macos_status_text,
    systemd_unavailable,
};
use microclaw::service_status::{
    audit_linux_unit, audit_macos_plist, LinuxRuntimeStatus, MacRuntimeStatus,
};
use microclaw::tools::{authorize_chat_access, sync_request, SyncSkillsTool, WebFetchTool};

fn entries(env: &microclaw::service::ServiceEnv) -> Vec<(String, String)> {
    (0..env.len())
        .filter_map(|i| env.entry(i))
        .map(|(k, v)| (k.to_string(), v.to_string()))
        .collect()
}

fn pair(k: &str, v: &str) -> (String, String) {
    (k.to_string(), v.to_string())
}

#[test]
fn test_build_service_env_without_home() {
    let env = build_service_env(None, None, &ToolHomes::default(), None, "/tmp");
    assert_eq!(entries(&env), vec![pair("MICROCLAW_GATEWAY", "1"), pair("TMPDIR", "/tmp")]);
    let blank = build_service_env(Some("/c.yaml"), Some("  "), &ToolHomes::default(), Some(" "), "/t");
    assert_eq!(
        entries(&blank),
        vec![pair("MICROCLAW_CONFIG", "/c.yaml"), pair("MICROCLAW_GATEWAY", "1"), pair("TMPDIR", "/t")]
    );
}

#[test]
fn test_build_service_env_search_path() {
    let homes = ToolHomes {
        pnpm_home: Some(" /p ".to_string()),
        npm_config_prefix: Some("/usr/local".to_string()),
        bun_install: Some("/h/.bun".to_string()),
        volta_home: Some("   ".to_string()),
        asdf_data_dir: Some("/a".to_string()),
    };
    let env = build_service_env(None, Some("/h"), &homes, Some("/var/tmp"), "/tmp");
    assert_eq!(
        entries(&env),
        vec![
            pair("HOME", "/h"),
            pair("MICROCLAW_GATEWAY", "1"),
            pair(
                "PATH",
                "/h/.local/bin:/h/.npm-global/bin:/h/bin:/h/.volta/bin:/h/.asdf/shims:/h/.bun/bin:/p:/usr/local/bin:/a/shims:/opt/homebrew/bin:/usr/bin:/bin"
            ),
            pair("TMPDIR", "/var/tmp"),
        ]
    );
}

#[test]
fn test_audit_linux_unit() {
    let good = "After=network-online.target\nWants=network-online.target\nRestartSec=5\nKillMode=process\nExecStart=/usr/bin/m start\nEnvironment=MICROCLAW_CONFIG=/c.yaml\n";
    assert!(audit_linux_unit("/usr/bin/m", Some("/c.yaml"), good).is_empty());
    assert_eq!(
        audit_linux_unit("/opt/m", Some("/other.yaml"), "KillMode=process\n"),
        vec![
            "Missing After=network-online.target",
            "Missing Wants=network-online.target",
            "Missing or non-default RestartSec=5",
            "Service ExecStart does not match current microclaw binary",
            "Service MICROCLAW_CONFIG differs from current config path",
        ]
    );
    assert_eq!(
        audit_linux_unit("/my bin/m", None, "ExecStart=\"/my bin/m\" start").len(),
        4
    );
}

#[test]
fn test_audit_macos_plist() {
    let good = "<key>RunAtLoad</key><true/><key>KeepAlive</key><true/>/l/microclaw-gateway.log /l/microclaw-gateway.error.log";
    assert!(audit_macos_plist("/l", good).is_empty());
    assert_eq!(
        audit_macos_plist("/l", "<key>RunAtLoad</key><false/>"),
        vec![
            "LaunchAgent is missing RunAtLoad=true",
            "LaunchAgent is missing KeepAlive=true",
            "StandardOutPath does not match runtime logs directory",
            "StandardErrorPath does not match runtime logs directory",
        ]
    );
}

#[test]
fn test_linux_status_text() {
    let runtime = LinuxRuntimeStatus {
        load_state: Some("loaded".to_string()),
        active_state: None,
        sub_state: Some("running".to_string()),
        main_pid: Some(12),
        exec_main_status: Some(0),
        exec_main_code: Some("exited".to_string()),
        fragment_path: None,
    };
    assert_eq!(
        linux_status_text(&runtime, &vec![], Some("raw \n\n"), true),
        "Gateway service: linux/systemd\n  load_state: loaded\n  active_state: unknown\n  sub_state: running\n  main_pid: 12\n  exec_main_code: exited\n  exec_main_status: 0\n  drift_audit: clean\n\n-- systemctl status --\nraw\n"
    );
    let down = LinuxRuntimeStatus { main_pid: Some(0), ..LinuxRuntimeStatus::default() };
    assert_eq!(
        linux_status_text(&down, &vec!["a".to_string(), "b".to_string()], Some("raw"), false),
        "Gateway service: linux/systemd\n  load_state: unknown\n  active_state: unknown\n  sub_state: unknown\n  drift_audit: 2 issue(s)\n    - a\n    - b\n"
    );
}

#[test]
fn test_macos_status_text() {
    let runtime = MacRuntimeStatus {
        state: Some("running".to_string()),
        pid: Some(-1),
        last_exit_status: Some(-9),
        last_exit_reason: Some("signal".to_string()),
    };
    assert_eq!(
        macos_status_text(&runtime, &vec!["x".to_string()], None, true),
        "Gateway service: macOS/launchd\n  state: running\n  last_exit_status: -9\n  last_exit_reason: signal\n  drift_audit: 1 issue(s)\n    - x\n"
    );
    assert_eq!(
        macos_status_text(&MacRuntimeStatus::default(), &vec![], Some(" deep"), true),
        "Gateway service: macOS/launchd\n  state: unknown\n  drift_audit: clean\n\n-- launchctl print --\n deep\n"
    );
}

#[test]
fn test_command_failure_and_systemd_unavailable() {
    assert_eq!(
        command_failure("systemctl --user start x", " out\n", "\terr "),
        "Command failed: systemctl --user start x\nstdout: out\nstderr: err"
    );
    assert_eq!(
        systemd_unavailable(" systemctl: command Not Found \n"),
        "systemctl is not available; systemd user services are required"
    );
    assert_eq!(
        systemd_unavailable(" Failed to connect to bus \n"),
        "systemctl --user unavailable: Failed to connect to bus"
    );
}

#[test]
fn test_authorize_chat_access() {
    let own = ToolAuthContext { caller_chat_id: 100, control_chat_ids: vec![] };
    assert_eq!(authorize_chat_access(&own, 100), Ok(()));
    let err = authorize_chat_access(&own, 200).unwrap_err();
    assert!(err.contains("Permission denied"));
    assert_eq!(err, "Permission denied: chat 100 cannot operate on chat 200");
    let control = ToolAuthContext { caller_chat_id: 100, control_chat_ids: vec![7, 100] };
    assert_eq!(authorize_chat_access(&control, 200), Ok(()));
    let other = ToolAuthContext { caller_chat_id: 100, control_chat_ids: vec![200] };
    assert!(authorize_chat_access(&other, 200).is_err());
}

#[test]
fn test_sync_request() {
    assert_eq!(
        sync_request(None, None, None, None),
        Err("Missing required parameter: skill_name".to_string())
    );
    assert!(sync_request(Some("  "), None, None, None).unwrap_err().contains("skill_name"));
    let r = sync_request(Some(" pdf "), None, Some(" "), None).unwrap();
    assert_eq!(r.skill_name, "pdf");
    assert_eq!(r.source_repo, "vercel-labs/skills");
    assert_eq!(r.git_ref, "main");
    assert_eq!(r.target_name, "pdf");
    let r = sync_request(Some("pdf"), Some(" me/mine "), Some("v2"), Some(" local ")).unwrap();
    assert_eq!(r.source_repo, "me/mine");
    assert_eq!(r.git_ref, "v2");
    assert_eq!(r.target_name, "local");
}

#[test]
fn test_sync_skills_tool() {
    let tool = SyncSkillsTool::new("/tmp/skills");
    assert_eq!(tool.name(), "sync_skills");
    assert_eq!(tool.skill_file("demo"), "/tmp/skills/demo/SKILL.md");
    assert_eq!(
        SyncSkillsTool::fetch_candidates("vercel-labs/skills", "demo", "main"),
        vec![
            "https://raw.githubusercontent.com/vercel-labs/skills/main/skills/demo/SKILL.md",
            "https://raw.githubusercontent.com/vercel-labs/skills/main/demo/SKILL.md",
            "https://raw.githubusercontent.com/vercel-labs/skills/main/demo.md",
        ]
    );
}

#[test]
fn test_web_fetch_tool() {
    let tool = WebFetchTool;
    assert_eq!(tool.name(), "web_fetch");
    assert_eq!(WebFetchTool::clip_page("short"), "short");
    let long = format!("a{}", "\u{00e9}".repeat(10000));
    assert_eq!(
        WebFetchTool::clip_page(&long),
        format!("a{}\n\n[Truncated at 20KB]", "\u{00e9}".repeat(9999))
    );
}

fn words(list: &[&str]) -> Vec<String> {
    list.iter().map(|w| w.to_string()).collect()
}

#[test]
fn test_probe_parse_args() {
    assert_eq!(parse_args(&[]), Ok(vec![]));
    assert_eq!(
        parse_args(&words(&["--room-id", "!r:x", "----message", "--hi"])),
        Ok(vec![pair("room-id", "!r:x"), pair("message", "--hi")])
    );
    assert_eq!(
        parse_args(&words(&["--a", "1", "b", "2"])),
        Err("unexpected argument: b".to_string())
    );
    assert_eq!(
        parse_args(&words(&["--a", "1", "--b"])),
        Err("missing value for argument: --b".to_string())
    );
    assert_eq!(parse_args(&words(&["-a", "1"])), Err("unexpected argument: -a".to_string()));
}

#[test]
fn test_probe_required_and_timeout() {
    let args = vec![pair("k", "old"), pair("k", "new"), pair("blank", "  "), pair("timeout-secs", "90")];
    assert_eq!(required(&args, "k"), Ok("new".to_string()));
    assert_eq!(required(&args, "blank"), Err("missing required argument: --blank".to_string()));
    assert_eq!(required(&args, "none"), Err("missing required argument: --none".to_string()));
    assert_eq!(probe_timeout_secs(&args), 90);
    assert_eq!(probe_timeout_secs(&vec![pair("timeout-secs", "soon")]), 60);
    assert_eq!(probe_timeout_secs(&vec![]), 60);
    assert_eq!(probe_timeout_secs(&vec![pair("timeout-secs", "18446744073709551615")]), u64::MAX);
    assert_eq!(probe_timeout_secs(&vec![pair("timeout-secs", "18446744073709551616")]), 60);
}

#[test]
fn test_service_manager_by_platform() {
    let start = GatewayAction::Start;
    assert_eq!(service_manager(start, Platform::MacOs), Ok(Some(ServiceManager::Launchd)));
    assert_eq!(service_manager(start, Platform::Linux), Ok(Some(ServiceManager::Systemd)));
    let refused = service_manager(start, Platform::Other).unwrap_err();
    assert_eq!(refused.message(), "Gateway service is only supported on macOS and Linux");
    assert_eq!(service_manager(GatewayAction::Help, Platform::Other), Ok(None));
    assert_eq!(service_manager(GatewayAction::Logs(5), Platform::Other), Ok(None));
}

#[test]
fn test_launchd_tolerated_refusals() {
    assert!(is_already_loaded("Bootstrap failed: service already loaded"));
    assert!(is_already_loaded("File already exists"));
    assert!(!is_already_loaded("permission denied"));
    assert!(is_not_loaded("No such process"));
    assert!(is_not_loaded("Could not find specified service"));
    assert!(is_not_loaded("service not found"));
    assert!(!is_not_loaded("Operation not permitted"));
}
