//! What the service managers say of the gateway service.

use crate::chars::{
    contains, find_from, find_from_exec, from_chars, opt_text, str_eq, to_chars, trim, trim_bounds,
};
use crate::lines::{
    ascii_lowered, find_char, index_of_char, lines, lowercased, split_lines, texts, to_ascii_lower,
    to_lowercase, trim_end_char, trim_end_char_bound,
};
use crate::parse::{parse_i64, parsed_int};
use vstd::prelude::*;
use vstd::string::*;

verus! {

/// The name and the value of a line of the form `name=value`, white space
/// around each aside; `None` for a line without an equals sign.
pub open spec fn key_value(line: Seq<char>) -> Option<(Seq<char>, Seq<char>)> {
    match index_of_char(line, '=', 0) {
        Some(p) => Some((trim(line.take(p)), trim(line.skip(p + 1)))),
        None => None,
    }
}

/// The names and values of the lines that have an equals sign, in the
/// order of the lines.
pub open spec fn key_values(ls: Seq<Seq<char>>) -> Seq<(Seq<char>, Seq<char>)>
    decreases ls.len(),
{
    if ls.len() == 0 {
        Seq::empty()
    } else {
        match key_value(ls.last()) {
            Some(kv) => key_values(ls.drop_last()).push(kv),
            None => key_values(ls.drop_last()),
        }
    }
}

/// The value given last for the name `key`.
pub open spec fn lookup(pairs: Seq<(Seq<char>, Seq<char>)>, key: Seq<char>) -> Option<Seq<char>>
    decreases pairs.len(),
{
    if pairs.len() == 0 {
        None
    } else if pairs.last().0 == key {
        Some(pairs.last().1)
    } else {
        lookup(pairs.drop_last(), key)
    }
}

/// The views of a list of names and values.
pub open spec fn pairs_view(s: Seq<(String, String)>) -> Seq<(Seq<char>, Seq<char>)> {
    Seq::new(s.len(), |i: int| (s[i].0@, s[i].1@))
}

fn split_key_value(line: &str) -> (r: Option<(String, String)>)
    ensures
        match r {
            Some(kv) => key_value(line@) == Some((kv.0@, kv.1@)),
            None => key_value(line@) is None,
        },
{
    let v = to_chars(line);
    match find_char(&v, '=', 0) {
        None => None,
        Some(p) => {
            let (a, b) = trim_bounds(&v, 0, p);
            let (c, d) = trim_bounds(&v, p + 1, v.len());
            assert(v@.subrange(0, p as int) =~= v@.take(p as int));
            assert(v@.subrange(p + 1, v.len() as int) =~= v@.skip(p + 1));
            Some((from_chars(&v, a, b), from_chars(&v, c, d)))
        },
    }
}

/// Reads the lines of the form `name=value` out of a program's output.
pub fn parse_key_values(output: &str) -> (r: Vec<(String, String)>)
    ensures
        pairs_view(r@) == key_values(lines(output@)),
{
    let ls = split_lines(output);
    let ghost all = texts(ls@);
    let mut out: Vec<(String, String)> = Vec::new();
    let mut i: usize = 0;
    assert(pairs_view(out@) =~= key_values(all.take(0)));
    while i < ls.len()
        invariant
            i <= ls.len(),
            all == texts(ls@),
            pairs_view(out@) == key_values(all.take(i as int)),
        decreases ls.len() - i,
    {
        proof {
            assert(all.take(i + 1).drop_last() =~= all.take(i as int));
            assert(all.take(i + 1).last() == ls@[i as int]@);
        }
        let ghost before = pairs_view(out@);
        match split_key_value(ls[i].as_str()) {
            Some(kv) => {
                out.push(kv);
                assert(pairs_view(out@) =~= before.push((kv.0@, kv.1@)));
            },
            None => {},
        }
        i += 1;
    }
    assert(all.take(ls.len() as int) =~= all);
    out
}

fn lookup_value(pairs: &Vec<(String, String)>, key: &str) -> (r: Option<String>)
    ensures
        opt_text(r) == lookup(pairs_view(pairs@), key@),
{
    let ghost all = pairs_view(pairs@);
    let mut i: usize = pairs.len();
    assert(all.take(i as int) =~= all);
    while i > 0
        invariant
            i <= pairs.len(),
            all == pairs_view(pairs@),
            lookup(all, key@) == lookup(all.take(i as int), key@),
        decreases i,
    {
        proof {
            assert(all.take(i as int).drop_last() =~= all.take(i - 1));
            assert(all.take(i as int).last() == all[i - 1]);
        }
        if str_eq(pairs[i - 1].0.as_str(), key) {
            return Some(pairs[i - 1].1.clone());
        }
        i -= 1;
    }
    None
}

/// The number that a text stands for, if it stands for one.
pub open spec fn number_of(value: Option<Seq<char>>) -> Option<i64> {
    match value {
        Some(v) => match parsed_int(v, i64::MIN as int, i64::MAX as int) {
            Some(n) => Some(n as i64),
            None => None,
        },
        None => None,
    }
}

fn number_in(value: &Option<String>) -> (r: Option<i64>)
    ensures
        r == number_of(opt_text(*value)),
{
    match value {
        Some(v) => parse_i64(v.as_str()),
        None => None,
    }
}

/// What systemd says of the service.
#[derive(Debug, Default, PartialEq, Eq)]
pub struct LinuxRuntimeStatus {
    pub load_state: Option<String>,
    pub active_state: Option<String>,
    pub sub_state: Option<String>,
    pub main_pid: Option<i64>,
    pub exec_main_status: Option<i64>,
    pub exec_main_code: Option<String>,
    pub fragment_path: Option<String>,
}

/// Reads what `systemctl show` says of the service. Of a property that is
/// given more than once the last value counts.
pub fn parse_linux_runtime_status(output: &str) -> (r: LinuxRuntimeStatus)
    ensures
        opt_text(r.load_state) == lookup(key_values(lines(output@)), "LoadState"@),
        opt_text(r.active_state) == lookup(key_values(lines(output@)), "ActiveState"@),
        opt_text(r.sub_state) == lookup(key_values(lines(output@)), "SubState"@),
        r.main_pid == number_of(lookup(key_values(lines(output@)), "MainPID"@)),
        r.exec_main_status == number_of(lookup(key_values(lines(output@)), "ExecMainStatus"@)),
        opt_text(r.exec_main_code) == lookup(key_values(lines(output@)), "ExecMainCode"@),
        opt_text(r.fragment_path) == lookup(key_values(lines(output@)), "FragmentPath"@),
{
    let map = parse_key_values(output);
    let main_pid = lookup_value(&map, "MainPID");
    let exec_main_status = lookup_value(&map, "ExecMainStatus");
    LinuxRuntimeStatus {
        load_state: lookup_value(&map, "LoadState"),
        active_state: lookup_value(&map, "ActiveState"),
        sub_state: lookup_value(&map, "SubState"),
        main_pid: number_in(&main_pid),
        exec_main_status: number_in(&exec_main_status),
        exec_main_code: lookup_value(&map, "ExecMainCode"),
        fragment_path: lookup_value(&map, "FragmentPath"),
    }
}

/// Whether systemd says that the service runs.
pub fn linux_is_running(status: &LinuxRuntimeStatus) -> (r: bool)
    ensures
        r == (opt_text(status.active_state) == Some("active"@)),
{
    match &status.active_state {
        Some(s) => str_eq(s.as_str(), "active"),
        None => false,
    }
}

/// What launchd says of the service.
#[derive(Debug, Default, PartialEq, Eq)]
pub struct MacRuntimeStatus {
    pub state: Option<String>,
    pub pid: Option<i64>,
    pub last_exit_status: Option<i64>,
    pub last_exit_reason: Option<String>,
}

/// View of a [`MacRuntimeStatus`].
pub struct MacStatusView {
    pub state: Option<Seq<char>>,
    pub pid: Option<i64>,
    pub last_exit_status: Option<i64>,
    pub last_exit_reason: Option<Seq<char>>,
}

impl View for MacRuntimeStatus {
    type V = MacStatusView;

    open spec fn view(&self) -> MacStatusView {
        MacStatusView {
            state: opt_text(self.state),
            pid: self.pid,
            last_exit_status: self.last_exit_status,
            last_exit_reason: opt_text(self.last_exit_reason),
        }
    }
}

/// The name and the value of a line of what launchd prints: the name in
/// lower case, the value without the semicolons at its end.
pub open spec fn mac_key_value(line: Seq<char>) -> Option<(Seq<char>, Seq<char>)> {
    match key_value(trim(line)) {
        Some((k, v)) => Some((lowercased(k), trim_end_char(v, ';'))),
        None => None,
    }
}

/// What is known after one more line.
pub open spec fn mac_status_after(st: MacStatusView, line: Seq<char>) -> MacStatusView {
    match mac_key_value(line) {
        None => st,
        Some((key, value)) => if key == "state"@ {
            MacStatusView { state: Some(value), ..st }
        } else if key == "pid"@ {
            MacStatusView { pid: number_of(Some(value)), ..st }
        } else if key == "last exit status"@ {
            MacStatusView { last_exit_status: number_of(Some(value)), ..st }
        } else if key == "last exit reason"@ {
            MacStatusView { last_exit_reason: Some(value), ..st }
        } else {
            st
        },
    }
}

/// What is known after these lines.
pub open spec fn mac_status_of(ls: Seq<Seq<char>>) -> MacStatusView
    decreases ls.len(),
{
    if ls.len() == 0 {
        MacStatusView { state: None, pid: None, last_exit_status: None, last_exit_reason: None }
    } else {
        mac_status_after(mac_status_of(ls.drop_last()), ls.last())
    }
}

fn split_mac_key_value(line: &str) -> (r: Option<(String, String)>)
    ensures
        match r {
            Some(kv) => mac_key_value(line@) == Some((kv.0@, kv.1@)),
            None => mac_key_value(line@) is None,
        },
{
    let v = to_chars(line);
    let (lo, hi) = trim_bounds(&v, 0, v.len());
    assert(v@.subrange(0, v.len() as int) =~= v@);
    let trimmed = from_chars(&v, lo, hi);
    match split_key_value(trimmed.as_str()) {
        None => None,
        Some((k, value)) => {
            let key = to_lowercase(k.as_str());
            let w = to_chars(value.as_str());
            let end = trim_end_char_bound(&w, 0, w.len(), ';');
            assert(w@.subrange(0, w.len() as int) =~= w@);
            Some((key, from_chars(&w, 0, end)))
        },
    }
}

/// Reads what `launchctl print` says of the service.
pub fn parse_macos_runtime_status(output: &str) -> (r: MacRuntimeStatus)
    ensures
        r@ == mac_status_of(lines(output@)),
{
    let ls = split_lines(output);
    let ghost all = texts(ls@);
    let mut status = MacRuntimeStatus {
        state: None,
        pid: None,
        last_exit_status: None,
        last_exit_reason: None,
    };
    let mut i: usize = 0;
    while i < ls.len()
        invariant
            i <= ls.len(),
            all == texts(ls@),
            status@ == mac_status_of(all.take(i as int)),
        decreases ls.len() - i,
    {
        proof {
            assert(all.take(i + 1).drop_last() =~= all.take(i as int));
            assert(all.take(i + 1).last() == ls@[i as int]@);
        }
        match split_mac_key_value(ls[i].as_str()) {
            None => {},
            Some((key, value)) => {
                if str_eq(key.as_str(), "state") {
                    status.state = Some(value);
                } else if str_eq(key.as_str(), "pid") {
                    status.pid = parse_i64(value.as_str());
                } else if str_eq(key.as_str(), "last exit status") {
                    status.last_exit_status = parse_i64(value.as_str());
                } else if str_eq(key.as_str(), "last exit reason") {
                    status.last_exit_reason = Some(value);
                }
            },
        }
        i += 1;
    }
    assert(all.take(ls.len() as int) =~= all);
    status
}

/// Whether launchd says that the service runs: its state is `running`,
/// in whatever case of the basic alphabet, or it has a process.
pub open spec fn mac_running(st: MacStatusView) -> bool {
    (match st.state {
        Some(s) => ascii_lowered(s) == "running"@,
        None => false,
    }) || (match st.pid {
        Some(p) => p > 0,
        None => false,
    })
}

/// Whether launchd says that the service runs.
pub fn macos_is_running(status: &MacRuntimeStatus) -> (r: bool)
    ensures
        r == mac_running(status@),
{
    let by_state = match &status.state {
        Some(s) => {
            let lowered = to_ascii_lower(s.as_str());
            let wanted = to_chars("running");
            crate::chars::chars_eq(&lowered, &wanted)
        },
        None => false,
    };
    let by_pid = match status.pid {
        Some(p) => p > 0,
        None => false,
    };
    by_state || by_pid
}

/// Whether the property list sets `key` to true: the key occurs, and a
/// `<true/>` follows its first occurrence.
pub open spec fn plist_has_true(content: Seq<char>, key: Seq<char>) -> bool {
    match find_from(content, "<key>"@ + key + "</key>"@, 0) {
        Some(pos) => find_from(content, "<true/>"@, pos) is Some,
        None => false,
    }
}

/// Whether the property list sets `key` to true.
pub fn plist_key_has_true(content: &str, key: &str) -> (r: bool)
    ensures
        r == plist_has_true(content@, key@),
{
    let mut pattern = "<key>".to_owned();
    pattern.append(key);
    pattern.append("</key>");
    let v = to_chars(content);
    let p = to_chars(pattern.as_str());
    let t = to_chars("<true/>");
    match find_from_exec(&v, &p, 0) {
        None => false,
        Some(pos) => find_from_exec(&v, &t, pos).is_some(),
    }
}

/// The finding, where there is something to find.
pub open spec fn issue_if(found: bool, text: Seq<char>) -> Seq<Seq<char>> {
    if found {
        seq![text]
    } else {
        Seq::empty()
    }
}

/// What is wrong with an installed unit file: what it should say of the
/// network, of restarts and of how the service is stopped; whether it
/// starts this program; and whether it names the configuration in use.
pub open spec fn linux_unit_issues(
    content: Seq<char>,
    exe_path: Seq<char>,
    config_path: Option<Seq<char>>,
) -> Seq<Seq<char>> {
    issue_if(
        !contains(content, "After=network-online.target"@),
        "Missing After=network-online.target"@,
    ) + issue_if(
        !contains(content, "Wants=network-online.target"@),
        "Missing Wants=network-online.target"@,
    ) + issue_if(!contains(content, "RestartSec=5"@), "Missing or non-default RestartSec=5"@)
        + issue_if(!contains(content, "KillMode=process"@), "Missing KillMode=process"@)
        + issue_if(
        !contains(
            content,
            "ExecStart="@ + (match crate::gateway::systemd_escaped(exe_path) {
                Ok(v) => v,
                Err(e) => Seq::empty(),
            }) + " start"@,
        ),
        "Service ExecStart does not match current microclaw binary"@,
    ) + (match config_path {
        Some(p) => issue_if(
            !contains(content, "MICROCLAW_CONFIG="@ + p),
            "Service MICROCLAW_CONFIG differs from current config path"@,
        ),
        None => Seq::empty(),
    })
}

fn push_issue(issues: &mut Vec<String>, found: bool, text: &str)
    ensures
        texts(final(issues)@) == texts(old(issues)@) + issue_if(found, text@),
{
    if found {
        issues.push(text.to_owned());
        assert(texts(issues@) =~= texts(old(issues)@) + issue_if(found, text@));
    } else {
        assert(texts(issues@) =~= texts(old(issues)@) + issue_if(found, text@));
    }
}

fn holds(content: &Vec<char>, wanted: &str) -> (r: bool)
    ensures
        r == contains(content@, wanted@),
{
    let w = to_chars(wanted);
    find_from_exec(content, &w, 0).is_some()
}

/// Says what is wrong with an installed unit file, given its content.
pub fn audit_linux_unit(exe_path: &str, config_path: Option<&str>, content: &str) -> (r: Vec<
    String,
>)
    ensures
        texts(r@) == linux_unit_issues(
            content@,
            exe_path@,
            match config_path {
                Some(p) => Some(p@),
                None => None,
            },
        ),
{
    let v = to_chars(content);
    let mut issues: Vec<String> = Vec::new();
    assert(texts(issues@) =~= Seq::<Seq<char>>::empty());
    push_issue(
        &mut issues,
        !holds(&v, "After=network-online.target"),
        "Missing After=network-online.target",
    );
    assert(texts(issues@) =~= issue_if(
        !contains(content@, "After=network-online.target"@),
        "Missing After=network-online.target"@,
    ));
    push_issue(
        &mut issues,
        !holds(&v, "Wants=network-online.target"),
        "Missing Wants=network-online.target",
    );
    push_issue(&mut issues, !holds(&v, "RestartSec=5"), "Missing or non-default RestartSec=5");
    push_issue(&mut issues, !holds(&v, "KillMode=process"), "Missing KillMode=process");
    let escaped = match crate::gateway::systemd_escape_arg(exe_path) {
        Ok(e) => e,
        Err(_) => String::new(),
    };
    let mut expected = "ExecStart=".to_owned();
    expected.append(escaped.as_str());
    expected.append(" start");
    push_issue(
        &mut issues,
        !holds(&v, expected.as_str()),
        "Service ExecStart does not match current microclaw binary",
    );
    match config_path {
        Some(p) => {
            let mut kv = "MICROCLAW_CONFIG=".to_owned();
            kv.append(p);
            push_issue(
                &mut issues,
                !holds(&v, kv.as_str()),
                "Service MICROCLAW_CONFIG differs from current config path",
            );
        },
        None => {
            assert(texts(issues@) + Seq::<Seq<char>>::empty() =~= texts(issues@));
        },
    }
    issues
}

/// What is wrong with an installed property list: that it does not start
/// the service at login or keep it alive, or sends its output elsewhere
/// than to the two log files.
pub open spec fn macos_plist_issues(
    content: Seq<char>,
    stdout_path: Seq<char>,
    stderr_path: Seq<char>,
) -> Seq<Seq<char>> {
    issue_if(!plist_has_true(content, "RunAtLoad"@), "LaunchAgent is missing RunAtLoad=true"@)
        + issue_if(!plist_has_true(content, "KeepAlive"@), "LaunchAgent is missing KeepAlive=true"@)
        + issue_if(
        !contains(content, stdout_path),
        "StandardOutPath does not match runtime logs directory"@,
    ) + issue_if(
        !contains(content, stderr_path),
        "StandardErrorPath does not match runtime logs directory"@,
    )
}

/// Says what is wrong with an installed property list, given its content
/// and the directory of the logs.
pub fn audit_macos_plist(runtime_logs_dir: &str, content: &str) -> (r: Vec<String>)
    ensures
        texts(r@) == macos_plist_issues(
            content@,
            crate::gateway::joined_path(runtime_logs_dir@, crate::gateway::LOG_STDOUT_FILE@),
            crate::gateway::joined_path(runtime_logs_dir@, crate::gateway::LOG_STDERR_FILE@),
        ),
{
    let v = to_chars(content);
    let stdout_path = crate::gateway::join_path(runtime_logs_dir, crate::gateway::LOG_STDOUT_FILE);
    let stderr_path = crate::gateway::join_path(runtime_logs_dir, crate::gateway::LOG_STDERR_FILE);
    let mut issues: Vec<String> = Vec::new();
    assert(texts(issues@) =~= Seq::<Seq<char>>::empty());
    push_issue(
        &mut issues,
        !plist_key_has_true(content, "RunAtLoad"),
        "LaunchAgent is missing RunAtLoad=true",
    );
    assert(texts(issues@) =~= issue_if(
        !plist_has_true(content@, "RunAtLoad"@),
        "LaunchAgent is missing RunAtLoad=true"@,
    ));
    push_issue(
        &mut issues,
        !plist_key_has_true(content, "KeepAlive"),
        "LaunchAgent is missing KeepAlive=true",
    );
    push_issue(
        &mut issues,
        !holds(&v, stdout_path.as_str()),
        "StandardOutPath does not match runtime logs directory",
    );
    push_issue(
        &mut issues,
        !holds(&v, stderr_path.as_str()),
        "StandardErrorPath does not match runtime logs directory",
    );
    issues
}

} // verus!
