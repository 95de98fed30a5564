//! The gateway service: what its command line asks for, the files that
//! install it, and what the service managers say of it.

use crate::chars::{from_chars, is_space, is_space_exec, push_char, str_eq, to_chars};
use crate::lines::{find_char, has_char, lines, texts};
use crate::parse::{parse_usize, parsed_int};
use crate::text::{escaped, push_escaped};
use vstd::prelude::*;
use vstd::string::*;

verus! {

/// The name of the service under systemd.
pub const LINUX_SERVICE_NAME: &'static str = "microclaw-gateway.service";

/// The label of the service under launchd.
pub const MAC_LABEL: &'static str = "ai.microclaw.gateway";

/// The file that takes the service's standard output.
pub const LOG_STDOUT_FILE: &'static str = "microclaw-gateway.log";

/// The file that takes the service's standard error.
pub const LOG_STDERR_FILE: &'static str = "microclaw-gateway.error.log";

/// How many log lines are shown where no number is given.
pub const DEFAULT_LOG_LINES: usize = 200;

/// Why a request to the gateway cannot be served.
#[derive(Debug, PartialEq, Eq)]
pub enum GatewayError {
    /// The first word names no action.
    UnknownAction(String),
    /// What should be a number of log lines is none.
    InvalidLogLineCount(String),
    /// The number of log lines is zero.
    ZeroLogLines,
    /// An option that `install` does not know.
    UnknownInstallOption(String),
    /// An option that `status` does not know.
    UnknownStatusOption(String),
    /// A value that goes into a unit file holds a line break; the text
    /// says which value.
    LineBreak(String),
    /// The machine has no service manager that is known.
    Unsupported,
}

/// View of a [`GatewayError`].
pub enum GatewayErrorView {
    UnknownAction(Seq<char>),
    InvalidLogLineCount(Seq<char>),
    ZeroLogLines,
    UnknownInstallOption(Seq<char>),
    UnknownStatusOption(Seq<char>),
    LineBreak(Seq<char>),
    Unsupported,
}

impl View for GatewayError {
    type V = GatewayErrorView;

    open spec fn view(&self) -> GatewayErrorView {
        match self {
            GatewayError::UnknownAction(a) => GatewayErrorView::UnknownAction(a@),
            GatewayError::InvalidLogLineCount(a) => GatewayErrorView::InvalidLogLineCount(a@),
            GatewayError::ZeroLogLines => GatewayErrorView::ZeroLogLines,
            GatewayError::UnknownInstallOption(a) => GatewayErrorView::UnknownInstallOption(a@),
            GatewayError::UnknownStatusOption(a) => GatewayErrorView::UnknownStatusOption(a@),
            GatewayError::LineBreak(a) => GatewayErrorView::LineBreak(a@),
            GatewayError::Unsupported => GatewayErrorView::Unsupported,
        }
    }
}

/// The words in which an error is reported.
pub open spec fn error_message(e: GatewayErrorView) -> Seq<char> {
    match e {
        GatewayErrorView::UnknownAction(a) => "Unknown gateway action: "@ + a
            + ". Use: gateway <install|uninstall|start|stop|restart|status|logs>"@,
        GatewayErrorView::InvalidLogLineCount(a) => "Invalid log line count: "@ + a,
        GatewayErrorView::ZeroLogLines => "Log line count must be greater than 0"@,
        GatewayErrorView::UnknownInstallOption(a) => "Unknown install option: "@ + a
            + ". Supported: --force"@,
        GatewayErrorView::UnknownStatusOption(a) => "Unknown status option: "@ + a
            + ". Supported: --json --deep"@,
        GatewayErrorView::LineBreak(label) => label + " cannot contain CR or LF"@,
        GatewayErrorView::Unsupported => "Gateway service is only supported on macOS and Linux"@,
    }
}

impl GatewayError {
    /// The words in which the error is reported.
    pub fn message(&self) -> (r: String)
        ensures
            r@ == error_message(self@),
    {
        match self {
            GatewayError::UnknownAction(a) => {
                let mut m = "Unknown gateway action: ".to_owned();
                m.append(a.as_str());
                m.append(". Use: gateway <install|uninstall|start|stop|restart|status|logs>");
                m
            },
            GatewayError::InvalidLogLineCount(a) => {
                let mut m = "Invalid log line count: ".to_owned();
                m.append(a.as_str());
                m
            },
            GatewayError::ZeroLogLines => "Log line count must be greater than 0".to_owned(),
            GatewayError::UnknownInstallOption(a) => {
                let mut m = "Unknown install option: ".to_owned();
                m.append(a.as_str());
                m.append(". Supported: --force");
                m
            },
            GatewayError::UnknownStatusOption(a) => {
                let mut m = "Unknown status option: ".to_owned();
                m.append(a.as_str());
                m.append(". Supported: --json --deep");
                m
            },
            GatewayError::LineBreak(label) => {
                let mut m = label.clone();
                m.append(" cannot contain CR or LF");
                m
            },
            GatewayError::Unsupported => {
                "Gateway service is only supported on macOS and Linux".to_owned()
            },
        }
    }
}

/// The options of `install`.
#[derive(Clone, Copy, Debug, Default, PartialEq, Eq, Structural)]
pub struct InstallOptions {
    pub force: bool,
}

/// The options of `status`.
#[derive(Clone, Copy, Debug, Default, PartialEq, Eq, Structural)]
pub struct StatusOptions {
    pub json: bool,
    pub deep: bool,
}

/// Position of the first argument that is none of the two known options.
pub open spec fn first_unknown(args: Seq<Seq<char>>, a: Seq<char>, b: Seq<char>, from: int)
    -> Option<int>
    decreases args.len() - from,
{
    if from < 0 || from >= args.len() {
        None
    } else if args[from] != a && args[from] != b {
        Some(from)
    } else {
        first_unknown(args, a, b, from + 1)
    }
}

/// Whether one of the arguments is `wanted`.
pub open spec fn has_arg(args: Seq<Seq<char>>, wanted: Seq<char>) -> bool {
    exists|i: int| 0 <= i < args.len() && args[i] == wanted
}

/// What the options of `install` come to: an error that names the first
/// argument that is no option, or else whether `--force` is among them.
pub open spec fn install_options(args: Seq<Seq<char>>) -> Result<InstallOptions, GatewayErrorView> {
    match first_unknown(args, "--force"@, "--force"@, 0) {
        Some(i) => Err(GatewayErrorView::UnknownInstallOption(args[i])),
        None => Ok(InstallOptions { force: has_arg(args, "--force"@) }),
    }
}

/// What the options of `status` come to: an error that names the first
/// argument that is no option, or else which of `--json` and `--deep` are
/// among them.
pub open spec fn status_options(args: Seq<Seq<char>>) -> Result<StatusOptions, GatewayErrorView> {
    match first_unknown(args, "--json"@, "--deep"@, 0) {
        Some(i) => Err(GatewayErrorView::UnknownStatusOption(args[i])),
        None => Ok(StatusOptions { json: has_arg(args, "--json"@), deep: has_arg(args, "--deep"@) }),
    }
}

/// The view of a result that carries no text but in its error.
pub open spec fn plain_result<T>(r: Result<T, GatewayError>) -> Result<T, GatewayErrorView> {
    match r {
        Ok(x) => Ok(x),
        Err(e) => Err(e@),
    }
}

fn scan_options(args: &[String], a: &str, b: &str) -> (r: (Option<usize>, bool, bool))
    ensures
        match r.0 {
            Some(i) => first_unknown(texts(args@), a@, b@, 0) == Some(i as int) && i < args.len(),
            None => first_unknown(texts(args@), a@, b@, 0) is None && r.1 == has_arg(
                texts(args@),
                a@,
            ) && r.2 == has_arg(texts(args@), b@),
        },
{
    let ghost t = texts(args@);
    let mut has_a = false;
    let mut has_b = false;
    let mut i: usize = 0;
    while i < args.len()
        invariant
            i <= args.len(),
            t == texts(args@),
            first_unknown(t, a@, b@, 0) == first_unknown(t, a@, b@, i as int),
            has_a == has_arg(t.take(i as int), a@),
            has_b == has_arg(t.take(i as int), b@),
        decreases args.len() - i,
    {
        let is_a = str_eq(args[i].as_str(), a);
        let is_b = str_eq(args[i].as_str(), b);
        if !is_a && !is_b {
            return (Some(i), has_a, has_b);
        }
        proof {
            let next = t.take(i + 1);
            assert(next[i as int] == t[i as int]);
            if has_a {
                let k = choose|k: int| 0 <= k < t.take(i as int).len() && t.take(i as int)[k] == a@;
                assert(next[k] == a@);
            }
            if has_b {
                let k = choose|k: int| 0 <= k < t.take(i as int).len() && t.take(i as int)[k] == b@;
                assert(next[k] == b@);
            }
            if has_arg(next, a@) && !is_a {
                let k = choose|k: int| 0 <= k < next.len() && next[k] == a@;
                assert(t.take(i as int)[k] == a@);
            }
            if has_arg(next, b@) && !is_b {
                let k = choose|k: int| 0 <= k < next.len() && next[k] == b@;
                assert(t.take(i as int)[k] == b@);
            }
        }
        has_a = has_a || is_a;
        has_b = has_b || is_b;
        i += 1;
    }
    assert(t.take(args.len() as int) =~= t);
    (None, has_a, has_b)
}

/// Reads the options of `install`.
pub fn parse_install_options(args: &[String]) -> (r: Result<InstallOptions, GatewayError>)
    ensures
        plain_result(r) == install_options(texts(args@)),
{
    let (unknown, force, _) = scan_options(args, "--force", "--force");
    match unknown {
        Some(i) => Err(GatewayError::UnknownInstallOption(args[i].clone())),
        None => Ok(InstallOptions { force }),
    }
}

/// Reads the options of `status`.
pub fn parse_status_options(args: &[String]) -> (r: Result<StatusOptions, GatewayError>)
    ensures
        plain_result(r) == status_options(texts(args@)),
{
    let (unknown, json, deep) = scan_options(args, "--json", "--deep");
    match unknown {
        Some(i) => Err(GatewayError::UnknownStatusOption(args[i].clone())),
        None => Ok(StatusOptions { json, deep }),
    }
}

/// The number of log lines that is asked for: the default where nothing
/// is given; an error where what is given is no number or is zero.
pub open spec fn log_lines(arg: Option<Seq<char>>) -> Result<usize, GatewayErrorView> {
    match arg {
        None => Ok(DEFAULT_LOG_LINES),
        Some(raw) => match parsed_int(raw, 0, usize::MAX as int) {
            None => Err(GatewayErrorView::InvalidLogLineCount(raw)),
            Some(n) => if n == 0 {
                Err(GatewayErrorView::ZeroLogLines)
            } else {
                Ok(n as usize)
            },
        },
    }
}

/// Reads the number of log lines that is asked for.
pub fn parse_log_lines(lines_arg: Option<&str>) -> (r: Result<usize, GatewayError>)
    ensures
        plain_result(r) == log_lines(
            match lines_arg {
                Some(s) => Some(s@),
                None => None,
            },
        ),
{
    match lines_arg {
        None => Ok(DEFAULT_LOG_LINES),
        Some(raw) => match parse_usize(raw) {
            None => Err(GatewayError::InvalidLogLineCount(raw.to_owned())),
            Some(n) => {
                if n == 0 {
                    Err(GatewayError::ZeroLogLines)
                } else {
                    Ok(n)
                }
            },
        },
    }
}

/// What the command line asks the gateway to do.
#[derive(Clone, Copy, Debug, PartialEq, Eq, Structural)]
pub enum GatewayAction {
    /// Show how the gateway is used.
    Help,
    Install(InstallOptions),
    Uninstall,
    Start,
    Stop,
    Restart,
    Status(StatusOptions),
    /// Show this many of the last log lines.
    Logs(usize),
}

/// What a command line asks for: help where it is empty; else the action
/// that its first word names, with the options that follow.
pub open spec fn gateway_action(args: Seq<Seq<char>>) -> Result<GatewayAction, GatewayErrorView> {
    if args.len() == 0 {
        Ok(GatewayAction::Help)
    } else if args[0] == "install"@ {
        match install_options(args.skip(1)) {
            Ok(o) => Ok(GatewayAction::Install(o)),
            Err(e) => Err(e),
        }
    } else if args[0] == "uninstall"@ {
        Ok(GatewayAction::Uninstall)
    } else if args[0] == "start"@ {
        Ok(GatewayAction::Start)
    } else if args[0] == "stop"@ {
        Ok(GatewayAction::Stop)
    } else if args[0] == "restart"@ {
        Ok(GatewayAction::Restart)
    } else if args[0] == "status"@ {
        match status_options(args.skip(1)) {
            Ok(o) => Ok(GatewayAction::Status(o)),
            Err(e) => Err(e),
        }
    } else if args[0] == "logs"@ {
        match log_lines(
            if args.len() > 1 {
                Some(args[1])
            } else {
                None
            },
        ) {
            Ok(n) => Ok(GatewayAction::Logs(n)),
            Err(e) => Err(e),
        }
    } else {
        Err(GatewayErrorView::UnknownAction(args[0]))
    }
}

fn rest_of(args: &[String]) -> (r: Vec<String>)
    requires
        args.len() > 0,
    ensures
        texts(r@) == texts(args@).skip(1),
{
    let mut out: Vec<String> = Vec::new();
    let mut i: usize = 1;
    while i < args.len()
        invariant
            1 <= i <= args.len(),
            out.len() == i - 1,
            forall|k: int| 0 <= k < out.len() ==> out@[k]@ == args@[k + 1]@,
        decreases args.len() - i,
    {
        out.push(args[i].clone());
        i += 1;
    }
    assert(texts(out@) =~= texts(args@).skip(1));
    out
}

/// Reads the gateway's command line: which action it asks for and with
/// which options, or why it cannot be served.
pub fn handle_gateway_cli(args: &[String]) -> (r: Result<GatewayAction, GatewayError>)
    ensures
        plain_result(r) == gateway_action(texts(args@)),
{
    if args.len() == 0 {
        return Ok(GatewayAction::Help);
    }
    let action = args[0].as_str();
    assert(texts(args@)[0] == args@[0]@);
    if str_eq(action, "install") {
        let rest = rest_of(args);
        match parse_install_options(rest.as_slice()) {
            Ok(o) => Ok(GatewayAction::Install(o)),
            Err(e) => Err(e),
        }
    } else if str_eq(action, "uninstall") {
        Ok(GatewayAction::Uninstall)
    } else if str_eq(action, "start") {
        Ok(GatewayAction::Start)
    } else if str_eq(action, "stop") {
        Ok(GatewayAction::Stop)
    } else if str_eq(action, "restart") {
        Ok(GatewayAction::Restart)
    } else if str_eq(action, "status") {
        let rest = rest_of(args);
        match parse_status_options(rest.as_slice()) {
            Ok(o) => Ok(GatewayAction::Status(o)),
            Err(e) => Err(e),
        }
    } else if str_eq(action, "logs") {
        let arg = if args.len() > 1 {
            assert(texts(args@)[1] == args@[1]@);
            Some(args[1].as_str())
        } else {
            None
        };
        match parse_log_lines(arg) {
            Ok(n) => Ok(GatewayAction::Logs(n)),
            Err(e) => Err(e),
        }
    } else {
        Err(GatewayError::UnknownAction(args[0].clone()))
    }
}

/// Whether the text holds a carriage return or a line feed.
pub open spec fn has_line_break(s: Seq<char>) -> bool {
    has_char(s, '\n') || has_char(s, '\r')
}

fn holds_line_break(v: &Vec<char>) -> (r: bool)
    ensures
        r == has_line_break(v@),
{
    find_char(v, '\n', 0).is_some() || find_char(v, '\r', 0).is_some()
}

/// Refuses a value that holds a line break; `label` says which value it is.
pub fn assert_no_line_breaks(value: &str, label: &str) -> (r: Result<(), GatewayError>)
    ensures
        plain_result(r) == (if has_line_break(value@) {
            Err(GatewayErrorView::LineBreak(label@))
        } else {
            Ok(())
        }),
{
    let v = to_chars(value);
    if holds_line_break(&v) {
        Err(GatewayError::LineBreak(label.to_owned()))
    } else {
        Ok(())
    }
}

/// Whether a value has to be quoted in a unit file: where it holds white
/// space, a double quote or a backslash.
pub open spec fn needs_quotes(s: Seq<char>) -> bool {
    exists|i: int| 0 <= i < s.len() && (is_space(s[i]) || s[i] == '"' || s[i] == '\\')
}

/// What stands for a character inside quotes in a unit file.
pub open spec fn backslashed_char(c: char) -> Seq<char> {
    if c == '\\' {
        "\\\\"@
    } else if c == '"' {
        "\\\""@
    } else {
        seq![c]
    }
}

/// The text with a backslash before every backslash and double quote.
pub open spec fn backslashed(s: Seq<char>) -> Seq<char>
    decreases s.len(),
{
    if s.len() == 0 {
        Seq::empty()
    } else {
        backslashed(s.drop_last()) + backslashed_char(s.last())
    }
}

/// A value as it stands in a unit file: as it is, or quoted where it has
/// to be.
pub open spec fn systemd_value(s: Seq<char>) -> Seq<char> {
    if needs_quotes(s) {
        "\""@ + backslashed(s) + "\""@
    } else {
        s
    }
}

/// A value as it stands in a unit file, or the refusal of one that holds
/// a line break.
pub open spec fn systemd_escaped(s: Seq<char>) -> Result<Seq<char>, GatewayErrorView> {
    if has_line_break(s) {
        Err(GatewayErrorView::LineBreak("Systemd unit value"@))
    } else {
        Ok(systemd_value(s))
    }
}

/// The view of a result that carries text.
pub open spec fn text_result(r: Result<String, GatewayError>) -> Result<
    Seq<char>,
    GatewayErrorView,
> {
    match r {
        Ok(x) => Ok(x@),
        Err(e) => Err(e@),
    }
}

fn wants_quotes(v: &Vec<char>) -> (r: bool)
    ensures
        r == needs_quotes(v@),
{
    let mut i: usize = 0;
    while i < v.len()
        invariant
            i <= v.len(),
            forall|k: int| 0 <= k < i ==> !(is_space(v@[k]) || v@[k] == '"' || v@[k] == '\\'),
        decreases v.len() - i,
    {
        let c = v[i];
        if is_space_exec(c) || c == '"' || c == '\\' {
            return true;
        }
        i += 1;
    }
    false
}

/// Writes a value without a line break as it stands in a unit file.
pub(crate) fn systemd_value_text(v: &Vec<char>) -> (r: String)
    ensures
        r@ == systemd_value(v@),
{
    systemd_value_of(v)
}

fn systemd_value_of(v: &Vec<char>) -> (r: String)
    ensures
        r@ == systemd_value(v@),
{
    if !wants_quotes(v) {
        let r = from_chars(v, 0, v.len());
        assert(v@.subrange(0, v.len() as int) =~= v@);
        return r;
    }
    let mut inner = String::new();
    let mut i: usize = 0;
    assert(inner@ =~= backslashed(v@.take(0)));
    while i < v.len()
        invariant
            i <= v.len(),
            inner@ == backslashed(v@.take(i as int)),
        decreases v.len() - i,
    {
        let c = v[i];
        proof {
            assert(v@.take(i + 1).drop_last() =~= v@.take(i as int));
            assert(v@.take(i + 1).last() == c);
        }
        let ghost before = inner@;
        if c == '\\' {
            inner.append("\\\\");
        } else if c == '"' {
            inner.append("\\\"");
        } else {
            push_char(&mut inner, c);
            assert(before.push(c) =~= before + seq![c]);
        }
        i += 1;
    }
    assert(v@.take(v.len() as int) =~= v@);
    let mut r = "\"".to_owned();
    r.append(inner.as_str());
    r.append("\"");
    r
}

/// Writes a value as it stands in a unit file: quoted where it holds
/// white space, a double quote or a backslash; refused where it holds a
/// line break.
pub fn systemd_escape_arg(value: &str) -> (r: Result<String, GatewayError>)
    ensures
        text_result(r) == systemd_escaped(value@),
{
    let v = to_chars(value);
    if holds_line_break(&v) {
        return Err(GatewayError::LineBreak("Systemd unit value".to_owned()));
    }
    Ok(systemd_value_of(&v))
}

/// Replaces the five markup characters `& < > " '` by their entities.
pub fn xml_escape(input: &str) -> (r: String)
    ensures
        r@ == escaped(input@, true),
{
    let mut r = String::new();
    push_escaped(&mut r, input, true);
    assert(r@ =~= escaped(input@, true));
    r
}

/// The path of the file `file` in the directory `dir`: a slash stands
/// between the two unless `dir` is empty or ends with one.
pub open spec fn joined_path(dir: Seq<char>, file: Seq<char>) -> Seq<char> {
    if dir.len() == 0 || dir.last() == '/' {
        dir + file
    } else {
        dir + "/"@ + file
    }
}

/// The path of the file `file` in the directory `dir`. `file` is a
/// relative path.
pub fn join_path(dir: &str, file: &str) -> (r: String)
    ensures
        r@ == joined_path(dir@, file@),
{
    let v = to_chars(dir);
    let mut r = dir.to_owned();
    if v.len() > 0 && v[v.len() - 1] != '/' {
        r.append("/");
    }
    r.append(file);
    r
}

/// The directory of the service's logs: `logs` under the configured
/// runtime directory, or `runtime/logs` under the working directory where
/// no configuration could be read.
pub open spec fn runtime_logs_dir(cwd: Seq<char>, configured: Option<Seq<char>>) -> Seq<char> {
    match configured {
        Some(dir) => joined_path(dir, "logs"@),
        None => joined_path(joined_path(cwd, "runtime"@), "logs"@),
    }
}

/// The directory of the service's logs. `runtime_data_dir` is the
/// runtime directory of the configuration, where one could be read.
pub fn resolve_runtime_logs_dir(cwd: &str, runtime_data_dir: Option<&str>) -> (r: String)
    ensures
        r@ == runtime_logs_dir(
            cwd@,
            match runtime_data_dir {
                Some(d) => Some(d@),
                None => None,
            },
        ),
{
    match runtime_data_dir {
        Some(dir) => join_path(dir, "logs"),
        None => {
            let runtime = join_path(cwd, "runtime");
            join_path(runtime.as_str(), "logs")
        },
    }
}

/// The name under which launchd knows the service of the user `uid`.
pub fn mac_target_label(uid: &str) -> (r: String)
    ensures
        r@ == "gui/"@ + uid@ + "/"@ + MAC_LABEL@,
{
    let mut r = "gui/".to_owned();
    r.append(uid);
    r.append("/");
    r.append(MAC_LABEL);
    r
}

/// The kinds of machine that are told apart.
#[derive(Clone, Copy, Debug, PartialEq, Eq, Structural)]
pub enum Platform {
    MacOs,
    Linux,
    Other,
}

/// The service managers that are known.
#[derive(Clone, Copy, Debug, PartialEq, Eq, Structural)]
pub enum ServiceManager {
    Launchd,
    Systemd,
}

/// Whether an action touches the service, so that a service manager is
/// needed for it.
pub open spec fn touches_service(action: GatewayAction) -> bool {
    !(action is Help) && !(action is Logs)
}

/// The service manager through which an action is carried out: launchd
/// on macOS, systemd on Linux. Help and logs need none; every other
/// action is refused on a machine of another kind.
pub fn service_manager(action: GatewayAction, platform: Platform) -> (r: Result<
    Option<ServiceManager>,
    GatewayError,
>)
    ensures
        plain_result(r) == (if !touches_service(action) {
            Ok(None)
        } else {
            match platform {
                Platform::MacOs => Ok(Some(ServiceManager::Launchd)),
                Platform::Linux => Ok(Some(ServiceManager::Systemd)),
                Platform::Other => Err(GatewayErrorView::Unsupported),
            }
        }),
{
    match action {
        GatewayAction::Help => Ok(None),
        GatewayAction::Logs(_) => Ok(None),
        _ => match platform {
            Platform::MacOs => Ok(Some(ServiceManager::Launchd)),
            Platform::Linux => Ok(Some(ServiceManager::Systemd)),
            Platform::Other => Err(GatewayError::Unsupported),
        },
    }
}

} // verus!
