//! What is printed of the state of the gateway service.

use crate::chars::{decimal, decimal_nat, from_chars, is_space_exec, opt_text, push_decimal, push_decimal_nat, to_chars, trim_end};
use crate::lines::texts;
use crate::service_status::{LinuxRuntimeStatus, MacRuntimeStatus};
use vstd::prelude::*;
use vstd::string::*;

verus! {

/// The text, or `unknown` where there is none.
pub open spec fn or_unknown(t: Option<Seq<char>>) -> Seq<char> {
    match t {
        Some(s) => s,
        None => "unknown"@,
    }
}

/// A line that names a number, where there is one to name.
pub open spec fn number_line(label: Seq<char>, n: Option<i64>, only_positive: bool) -> Seq<char> {
    match n {
        Some(v) => if only_positive && v <= 0 {
            Seq::empty()
        } else {
            label + decimal(v as int) + "\n"@
        },
        None => Seq::empty(),
    }
}

/// A line that names a text, where there is one to name.
pub open spec fn text_line(label: Seq<char>, t: Option<Seq<char>>) -> Seq<char> {
    match t {
        Some(s) => label + s + "\n"@,
        None => Seq::empty(),
    }
}

/// The findings, one to a line.
pub open spec fn issue_lines(issues: Seq<Seq<char>>) -> Seq<char>
    decreases issues.len(),
{
    if issues.len() == 0 {
        Seq::empty()
    } else {
        issue_lines(issues.drop_last()) + ("    - "@ + issues.last() + "\n"@)
    }
}

/// What is said of the findings: that there are none, or how many, and
/// which.
pub open spec fn audit_lines(issues: Seq<Seq<char>>) -> Seq<char> {
    if issues.len() == 0 {
        "  drift_audit: clean\n"@
    } else {
        "  drift_audit: "@ + decimal_nat(issues.len()) + " issue(s)\n"@ + issue_lines(issues)
    }
}

/// What the service manager itself printed, under a heading; only where
/// it is asked for and there is something.
pub open spec fn deep_lines(heading: Seq<char>, raw: Option<Seq<char>>, deep: bool) -> Seq<char> {
    match raw {
        Some(r) => if deep {
            heading + trim_end(r) + "\n"@
        } else {
            Seq::empty()
        },
        None => Seq::empty(),
    }
}

/// What is printed of the service under systemd.
pub open spec fn linux_report(
    load_state: Option<Seq<char>>,
    active_state: Option<Seq<char>>,
    sub_state: Option<Seq<char>>,
    main_pid: Option<i64>,
    exec_main_code: Option<Seq<char>>,
    exec_main_status: Option<i64>,
    issues: Seq<Seq<char>>,
    raw: Option<Seq<char>>,
    deep: bool,
) -> Seq<char> {
    "Gateway service: linux/systemd\n  load_state: "@ + or_unknown(load_state)
        + "\n  active_state: "@ + or_unknown(active_state) + "\n  sub_state: "@ + or_unknown(
        sub_state,
    ) + "\n"@ + number_line("  main_pid: "@, main_pid, true) + text_line(
        "  exec_main_code: "@,
        exec_main_code,
    ) + number_line("  exec_main_status: "@, exec_main_status, false) + audit_lines(issues)
        + deep_lines("\n-- systemctl status --\n"@, raw, deep)
}

/// What is printed of the service under launchd.
pub open spec fn macos_report(
    state: Option<Seq<char>>,
    pid: Option<i64>,
    last_exit_status: Option<i64>,
    last_exit_reason: Option<Seq<char>>,
    issues: Seq<Seq<char>>,
    raw: Option<Seq<char>>,
    deep: bool,
) -> Seq<char> {
    "Gateway service: macOS/launchd\n  state: "@ + or_unknown(state) + "\n"@ + number_line(
        "  pid: "@,
        pid,
        true,
    ) + number_line("  last_exit_status: "@, last_exit_status, false) + text_line(
        "  last_exit_reason: "@,
        last_exit_reason,
    ) + audit_lines(issues) + deep_lines("\n-- launchctl print --\n"@, raw, deep)
}

fn unknown_or(t: &Option<String>) -> (r: String)
    ensures
        r@ == or_unknown(opt_text(*t)),
{
    match t {
        Some(s) => s.clone(),
        None => "unknown".to_owned(),
    }
}

fn number_line_of(label: &str, n: Option<i64>, only_positive: bool) -> (r: String)
    ensures
        r@ == number_line(label@, n, only_positive),
{
    match n {
        Some(v) => {
            if only_positive && v <= 0 {
                String::new()
            } else {
                let mut line = label.to_owned();
                push_decimal(&mut line, v);
                line.append("\n");
                line
            }
        },
        None => String::new(),
    }
}

fn text_line_of(label: &str, t: &Option<String>) -> (r: String)
    ensures
        r@ == text_line(label@, opt_text(*t)),
{
    match t {
        Some(s) => {
            let mut line = label.to_owned();
            line.append(s.as_str());
            line.append("\n");
            line
        },
        None => String::new(),
    }
}

fn audit_lines_of(issues: &Vec<String>) -> (r: String)
    ensures
        r@ == audit_lines(texts(issues@)),
{
    if issues.len() == 0 {
        return "  drift_audit: clean\n".to_owned();
    }
    let ghost all = texts(issues@);
    let mut list = String::new();
    let mut i: usize = 0;
    assert(list@ =~= issue_lines(all.take(0)));
    while i < issues.len()
        invariant
            i <= issues.len(),
            all == texts(issues@),
            list@ == issue_lines(all.take(i as int)),
        decreases issues.len() - i,
    {
        proof {
            assert(all.take(i + 1).drop_last() =~= all.take(i as int));
            assert(all.take(i + 1).last() == issues@[i as int]@);
        }
        let mut line = "    - ".to_owned();
        line.append(issues[i].as_str());
        line.append("\n");
        list.append(line.as_str());
        i += 1;
    }
    assert(all.take(issues.len() as int) =~= all);
    let mut out = "  drift_audit: ".to_owned();
    push_decimal_nat(&mut out, issues.len() as u128);
    out.append(" issue(s)\n");
    out.append(list.as_str());
    out
}

fn deep_lines_of(heading: &str, raw: Option<&str>, deep: bool) -> (r: String)
    ensures
        r@ == deep_lines(
            heading@,
            match raw {
                Some(x) => Some(x@),
                None => None,
            },
            deep,
        ),
{
    match raw {
        Some(x) => {
            if deep {
                let v = to_chars(x);
                let mut hi: usize = v.len();
                assert(v@.subrange(0, hi as int) =~= v@);
                while hi > 0 && is_space_exec(v[hi - 1])
                    invariant
                        hi <= v.len(),
                        trim_end(v@) == trim_end(v@.subrange(0, hi as int)),
                    decreases hi,
                {
                    assert(v@.subrange(0, hi as int).drop_last() =~= v@.subrange(0, hi - 1));
                    hi -= 1;
                }
                let kept = from_chars(&v, 0, hi);
                let mut out = heading.to_owned();
                out.append(kept.as_str());
                out.append("\n");
                out
            } else {
                String::new()
            }
        },
        None => String::new(),
    }
}

/// Writes what is printed of the service under systemd.
pub fn linux_status_text(
    runtime: &LinuxRuntimeStatus,
    issues: &Vec<String>,
    raw_status: Option<&str>,
    deep: bool,
) -> (r: String)
    ensures
        r@ == linux_report(
            opt_text(runtime.load_state),
            opt_text(runtime.active_state),
            opt_text(runtime.sub_state),
            runtime.main_pid,
            opt_text(runtime.exec_main_code),
            runtime.exec_main_status,
            texts(issues@),
            match raw_status {
                Some(x) => Some(x@),
                None => None,
            },
            deep,
        ),
{
    let load = unknown_or(&runtime.load_state);
    let active = unknown_or(&runtime.active_state);
    let sub = unknown_or(&runtime.sub_state);
    let pid = number_line_of("  main_pid: ", runtime.main_pid, true);
    let code = text_line_of("  exec_main_code: ", &runtime.exec_main_code);
    let status = number_line_of("  exec_main_status: ", runtime.exec_main_status, false);
    let audit = audit_lines_of(issues);
    let tail = deep_lines_of("\n-- systemctl status --\n", raw_status, deep);
    let mut out = "Gateway service: linux/systemd\n  load_state: ".to_owned();
    out.append(load.as_str());
    out.append("\n  active_state: ");
    out.append(active.as_str());
    out.append("\n  sub_state: ");
    out.append(sub.as_str());
    out.append("\n");
    out.append(pid.as_str());
    out.append(code.as_str());
    out.append(status.as_str());
    out.append(audit.as_str());
    out.append(tail.as_str());
    out
}

/// Writes what is printed of the service under launchd.
pub fn macos_status_text(
    runtime: &MacRuntimeStatus,
    issues: &Vec<String>,
    raw_status: Option<&str>,
    deep: bool,
) -> (r: String)
    ensures
        r@ == macos_report(
            opt_text(runtime.state),
            runtime.pid,
            runtime.last_exit_status,
            opt_text(runtime.last_exit_reason),
            texts(issues@),
            match raw_status {
                Some(x) => Some(x@),
                None => None,
            },
            deep,
        ),
{
    let state = unknown_or(&runtime.state);
    let pid = number_line_of("  pid: ", runtime.pid, true);
    let status = number_line_of("  last_exit_status: ", runtime.last_exit_status, false);
    let reason = text_line_of("  last_exit_reason: ", &runtime.last_exit_reason);
    let audit = audit_lines_of(issues);
    let tail = deep_lines_of("\n-- launchctl print --\n", raw_status, deep);
    let mut out = "Gateway service: macOS/launchd\n  state: ".to_owned();
    out.append(state.as_str());
    out.append("\n");
    out.append(pid.as_str());
    out.append(status.as_str());
    out.append(reason.as_str());
    out.append(audit.as_str());
    out.append(tail.as_str());
    out
}

/// What is reported when a command has failed.
pub fn command_failure(command_line: &str, stdout: &str, stderr: &str) -> (r: String)
    ensures
        r@ == "Command failed: "@ + command_line@ + "\nstdout: "@ + crate::chars::trim(stdout@)
            + "\nstderr: "@ + crate::chars::trim(stderr@),
{
    let out = crate::chars::trim_exec(stdout);
    let err = crate::chars::trim_exec(stderr);
    let mut r = "Command failed: ".to_owned();
    r.append(command_line);
    r.append("\nstdout: ");
    r.append(out.as_str());
    r.append("\nstderr: ");
    r.append(err.as_str());
    r
}

/// Why systemd cannot be used, given what `systemctl --user status`
/// printed when it failed.
pub fn systemd_unavailable(detail: &str) -> (r: String)
    ensures
        r@ == (if crate::chars::contains(crate::lines::lowercased(crate::chars::trim(detail@)), "not found"@) {
            "systemctl is not available; systemd user services are required"@
        } else {
            "systemctl --user unavailable: "@ + crate::chars::trim(detail@)
        }),
{
    let trimmed = crate::chars::trim_exec(detail);
    let lower = crate::lines::to_lowercase(trimmed.as_str());
    let hay = to_chars(lower.as_str());
    let needle = to_chars("not found");
    if crate::chars::find_from_exec(&hay, &needle, 0).is_some() {
        "systemctl is not available; systemd user services are required".to_owned()
    } else {
        let mut r = "systemctl --user unavailable: ".to_owned();
        r.append(trimmed.as_str());
        r
    }
}

fn says(text: &str, wanted: &str) -> (r: bool)
    ensures
        r == crate::chars::contains(text@, wanted@),
{
    let hay = to_chars(text);
    let needle = to_chars(wanted);
    crate::chars::find_from_exec(&hay, &needle, 0).is_some()
}

/// Whether launchd refused to load the service only because it is loaded
/// already.
pub fn is_already_loaded(stderr: &str) -> (r: bool)
    ensures
        r == (crate::chars::contains(stderr@, "already loaded"@) || crate::chars::contains(
            stderr@,
            "already exists"@,
        )),
{
    says(stderr, "already loaded") || says(stderr, "already exists")
}

/// Whether launchd refused to unload the service only because it is not
/// loaded.
pub fn is_not_loaded(stderr: &str) -> (r: bool)
    ensures
        r == (crate::chars::contains(stderr@, "No such process"@) || crate::chars::contains(
            stderr@,
            "Could not find specified service"@,
        ) || crate::chars::contains(stderr@, "not found"@)),
{
    says(stderr, "No such process") || says(stderr, "Could not find specified service") || says(
        stderr,
        "not found",
    )
}

} // verus!
