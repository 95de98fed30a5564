//! The files that install the gateway service: a systemd unit and a
//! launchd property list.

use crate::chars::{
    is_text_less, lemma_text_less_total, lemma_text_less_transitive, str_eq, text_less, to_chars,
};
use crate::gateway::{
    has_line_break, join_path, joined_path, systemd_escape_arg, systemd_value, GatewayError,
    GatewayErrorView, LOG_STDERR_FILE, LOG_STDOUT_FILE, MAC_LABEL, text_result,
};
use crate::text::{escaped, push_escaped};
use vstd::prelude::*;
use vstd::string::*;

verus! {

/// The environment of the service: names and values, in the order of the
/// names.
#[derive(Debug, PartialEq, Eq)]
pub struct ServiceEnv {
    entries: Vec<(String, String)>,
}

/// The views of a list of names and values.
pub open spec fn pair_views(s: Seq<(String, String)>) -> Seq<(Seq<char>, Seq<char>)> {
    Seq::new(s.len(), |i: int| (s[i].0@, s[i].1@))
}

impl View for ServiceEnv {
    type V = Seq<(Seq<char>, Seq<char>)>;

    closed spec fn view(&self) -> Seq<(Seq<char>, Seq<char>)> {
        pair_views(self.entries@)
    }
}

/// The environment with `key` set to `value`: in place of an entry of that
/// name, or else before the first entry whose name comes after it.
pub open spec fn with_entry(env: Seq<(Seq<char>, Seq<char>)>, key: Seq<char>, value: Seq<char>)
    -> Seq<(Seq<char>, Seq<char>)>
    decreases env.len(),
{
    if env.len() == 0 {
        seq![(key, value)]
    } else if env[0].0 == key {
        seq![(key, value)] + env.drop_first()
    } else if text_less(key, env[0].0) {
        seq![(key, value)] + env
    } else {
        seq![env[0]] + with_entry(env.drop_first(), key, value)
    }
}

impl ServiceEnv {
    /// What holds of every environment: the names stand in rising order,
    /// so that none occurs twice.
    pub open spec fn well_formed(&self) -> bool {
        strictly_sorted(self@)
    }

    /// An environment without entries.
    pub fn new() -> (r: ServiceEnv)
        ensures
            r@ == Seq::<(Seq<char>, Seq<char>)>::empty(),
            r.well_formed(),
    {
        let r = ServiceEnv { entries: Vec::new() };
        assert(r@ =~= Seq::<(Seq<char>, Seq<char>)>::empty());
        r
    }

    /// How many entries there are.
    pub fn len(&self) -> (r: usize)
        ensures
            r == self@.len(),
    {
        self.entries.len()
    }

    /// The name and the value of the entry at `index`, if there is one.
    pub fn entry(&self, index: usize) -> (r: Option<(&str, &str)>)
        ensures
            index < self@.len() ==> r is Some && r->Some_0.0@ == self@[index as int].0
                && r->Some_0.1@ == self@[index as int].1,
            index >= self@.len() ==> r is None,
    {
        if index < self.entries.len() {
            Some((self.entries[index].0.as_str(), self.entries[index].1.as_str()))
        } else {
            None
        }
    }

    fn at(&self, index: usize) -> (r: (&str, &str))
        requires
            index < self@.len(),
        ensures
            r.0@ == self@[index as int].0,
            r.1@ == self@[index as int].1,
    {
        (self.entries[index].0.as_str(), self.entries[index].1.as_str())
    }

    /// Sets `key` to `value`.
    pub fn insert(&mut self, key: &str, value: &str)
        ensures
            final(self)@ == with_entry(old(self)@, key@, value@),
            old(self).well_formed() ==> final(self).well_formed(),
    {
        proof {
            if self.well_formed() {
                lemma_with_entry_keeps_order(self@, key@, value@);
            }
        }
        let k = to_chars(key);
        let ghost start = self@;
        let mut i: usize = 0;
        assert(start.take(0) + with_entry(start.skip(0), key@, value@) =~= with_entry(
            start,
            key@,
            value@,
        )) by {
            assert(start.skip(0) =~= start);
        }
        while i < self.entries.len()
            invariant
                i <= self.entries.len(),
                self@ == start,
                start == old(self)@,
                old(self).well_formed() ==> strictly_sorted(with_entry(start, key@, value@)),
                k@ == key@,
                with_entry(start, key@, value@) == start.take(i as int) + with_entry(
                    start.skip(i as int),
                    key@,
                    value@,
                ),
            decreases self.entries.len() - i,
        {
            let here = to_chars(self.entries[i].0.as_str());
            let ghost rest = start.skip(i as int);
            assert(rest[0] == start[i as int]);
            assert(rest.drop_first() =~= start.skip(i + 1));
            if str_eq(self.entries[i].0.as_str(), key) {
                self.entries.set(i, (key.to_owned(), value.to_owned()));
                assert(self@ =~= start.take(i as int) + (seq![(key@, value@)] + start.skip(
                    i + 1,
                )));
                return ;
            }
            if is_text_less(&k, &here) {
                self.entries.insert(i, (key.to_owned(), value.to_owned()));
                assert(self@ =~= start.take(i as int) + (seq![(key@, value@)] + rest));
                return ;
            }
            assert(start.take(i + 1) + with_entry(start.skip(i + 1), key@, value@)
                =~= start.take(i as int) + (seq![rest[0]] + with_entry(
                rest.drop_first(),
                key@,
                value@,
            )));
            i += 1;
        }
        self.entries.push((key.to_owned(), value.to_owned()));
        assert(start.skip(i as int) =~= Seq::<(Seq<char>, Seq<char>)>::empty());
        assert(self@ =~= start.take(i as int) + seq![(key@, value@)]);
    }
}

/// The names stand in rising order, so that none occurs twice.
pub open spec fn strictly_sorted(env: Seq<(Seq<char>, Seq<char>)>) -> bool {
    forall|i: int, j: int|
        0 <= i < j < env.len() ==> text_less((#[trigger] env[i]).0, (#[trigger] env[j]).0)
}

/// Setting a name in an environment whose names stand in rising order
/// gives one whose names stand in rising order, and brings in no other
/// name.
pub proof fn lemma_with_entry_keeps_order(
    env: Seq<(Seq<char>, Seq<char>)>,
    key: Seq<char>,
    value: Seq<char>,
)
    requires
        strictly_sorted(env),
    ensures
        strictly_sorted(with_entry(env, key, value)),
        forall|j: int|
            0 <= j < with_entry(env, key, value).len() ==> (#[trigger] with_entry(
                env,
                key,
                value,
            )[j]).0 == key || exists|i: int|
                0 <= i < env.len() && (#[trigger] env[i]).0 == with_entry(env, key, value)[j].0,
    decreases env.len(),
{
    let res = with_entry(env, key, value);
    if env.len() == 0 {
    } else if env[0].0 == key {
        let rest = env.drop_first();
        assert forall|i: int, j: int| 0 <= i < j < res.len() implies text_less(
            (#[trigger] res[i]).0,
            (#[trigger] res[j]).0,
        ) by {
            assert(res[j] == env[j]);
            if i > 0 {
                assert(res[i] == env[i]);
            } else {
                assert(res[0].0 == env[0].0);
            }
        }
        assert forall|j: int| 0 <= j < res.len() implies (#[trigger] res[j]).0 == key || exists|
            i: int,
        |
            0 <= i < env.len() && (#[trigger] env[i]).0 == res[j].0 by {
            if j > 0 {
                assert(res[j] == env[j]);
            }
        }
    } else if text_less(key, env[0].0) {
        assert forall|i: int, j: int| 0 <= i < j < res.len() implies text_less(
            (#[trigger] res[i]).0,
            (#[trigger] res[j]).0,
        ) by {
            assert(res[j] == env[j - 1]);
            if i > 0 {
                assert(res[i] == env[i - 1]);
            } else if j > 1 {
                lemma_text_less_transitive(key, env[0].0, env[j - 1].0);
            }
        }
        assert forall|j: int| 0 <= j < res.len() implies (#[trigger] res[j]).0 == key || exists|
            i: int,
        |
            0 <= i < env.len() && (#[trigger] env[i]).0 == res[j].0 by {
            if j > 0 {
                assert(res[j] == env[j - 1]);
            }
        }
    } else {
        let rest = env.drop_first();
        let tail = with_entry(rest, key, value);
        assert(strictly_sorted(rest)) by {
            assert forall|i: int, j: int| 0 <= i < j < rest.len() implies text_less(
                (#[trigger] rest[i]).0,
                (#[trigger] rest[j]).0,
            ) by {
                assert(rest[i] == env[i + 1]);
                assert(rest[j] == env[j + 1]);
            }
        }
        lemma_with_entry_keeps_order(rest, key, value);
        lemma_text_less_total(key, env[0].0);
        assert(res =~= seq![env[0]] + tail);
        assert forall|j: int| 0 <= j < tail.len() implies text_less(
            env[0].0,
            (#[trigger] tail[j]).0,
        ) by {
            if tail[j].0 != key {
                let i = choose|i: int| 0 <= i < rest.len() && (#[trigger] rest[i]).0 == tail[j].0;
                assert(rest[i] == env[i + 1]);
            }
        }
        assert forall|i: int, j: int| 0 <= i < j < res.len() implies text_less(
            (#[trigger] res[i]).0,
            (#[trigger] res[j]).0,
        ) by {
            assert(res[j] == tail[j - 1]);
            if i > 0 {
                assert(res[i] == tail[i - 1]);
            } else {
                assert(res[0] == env[0]);
            }
        }
        assert forall|j: int| 0 <= j < res.len() implies (#[trigger] res[j]).0 == key || exists|
            i: int,
        |
            0 <= i < env.len() && (#[trigger] env[i]).0 == res[j].0 by {
            if j == 0 {
                assert(res[0] == env[0]);
            } else {
                assert(res[j] == tail[j - 1]);
                if tail[j - 1].0 != key {
                    let i = choose|i: int|
                        0 <= i < rest.len() && (#[trigger] rest[i]).0 == tail[j - 1].0;
                    assert(rest[i] == env[i + 1]);
                }
            }
        }
    }
}

/// Where the service lives and in which environment it runs.
#[derive(Debug, PartialEq, Eq)]
pub struct ServiceContext {
    pub exe_path: String,
    pub working_dir: String,
    pub config_path: Option<String>,
    pub runtime_logs_dir: String,
    pub service_env: ServiceEnv,
}

/// How a unit file begins.
pub const UNIT_HEAD: &'static str =
    "[Unit]\nDescription=MicroClaw Gateway Service\nAfter=network-online.target\nWants=network-online.target\n\n[Service]\nType=simple\n";

/// How a unit file ends.
pub const UNIT_TAIL: &'static str =
    "Restart=always\nRestartSec=5\nKillMode=process\n\n[Install]\nWantedBy=default.target\n";

/// The first entry of the environment that cannot stand in a unit file,
/// with the refusal that it meets: a name or a value with a line break.
pub open spec fn env_problem(env: Seq<(Seq<char>, Seq<char>)>) -> Option<GatewayErrorView>
    decreases env.len(),
{
    if env.len() == 0 {
        None
    } else if has_line_break(env[0].0) {
        Some(GatewayErrorView::LineBreak("Systemd environment variable name"@))
    } else if has_line_break(env[0].1) {
        Some(GatewayErrorView::LineBreak("Systemd environment variable value"@))
    } else {
        env_problem(env.drop_first())
    }
}

/// One entry of the environment as a line of a unit file.
pub open spec fn env_unit_line(entry: (Seq<char>, Seq<char>)) -> Seq<char> {
    "Environment="@ + systemd_value(entry.0 + "="@ + entry.1) + "\n"@
}

/// The environment as lines of a unit file.
pub open spec fn env_unit_lines(env: Seq<(Seq<char>, Seq<char>)>) -> Seq<char>
    decreases env.len(),
{
    if env.len() == 0 {
        Seq::empty()
    } else {
        env_unit_lines(env.drop_last()) + env_unit_line(env.last())
    }
}

/// The unit file of the service, or the refusal that the first value
/// with a line break meets.
pub open spec fn linux_unit(
    working_dir: Seq<char>,
    exe_path: Seq<char>,
    env: Seq<(Seq<char>, Seq<char>)>,
) -> Result<Seq<char>, GatewayErrorView> {
    if has_line_break(working_dir) || has_line_break(exe_path) {
        Err(GatewayErrorView::LineBreak("Systemd unit value"@))
    } else {
        match env_problem(env) {
            Some(e) => Err(e),
            None => Ok(
                UNIT_HEAD@ + "WorkingDirectory="@ + systemd_value(working_dir) + "\n"@
                    + "ExecStart="@ + systemd_value(exe_path) + " "@ + systemd_value("start"@)
                    + "\n"@ + env_unit_lines(env) + UNIT_TAIL@,
            ),
        }
    }
}

fn render_env_unit_lines(env: &ServiceEnv) -> (r: Result<String, GatewayError>)
    ensures
        text_result(r) == (match env_problem(env@) {
            Some(e) => Err(e),
            None => Ok(env_unit_lines(env@)),
        }),
{
    let ghost all = env@;
    let mut out = String::new();
    let mut i: usize = 0;
    assert(all.skip(0) =~= all);
    assert(out@ =~= env_unit_lines(all.take(0)));
    while i < env.len()
        invariant
            i <= all.len(),
            all == env@,
            env_problem(all) == env_problem(all.skip(i as int)),
            out@ == env_unit_lines(all.take(i as int)),
        decreases all.len() - i,
    {
        let (key, value) = env.at(i);
        proof {
            assert(all.skip(i as int)[0] == all[i as int]);
            assert(all.skip(i as int).drop_first() =~= all.skip(i + 1));
            assert(all.take(i + 1).drop_last() =~= all.take(i as int));
            assert(all.take(i + 1).last() == all[i as int]);
        }
        match crate::gateway::assert_no_line_breaks(key, "Systemd environment variable name") {
            Err(e) => {
                return Err(e);
            },
            Ok(_) => {},
        }
        match crate::gateway::assert_no_line_breaks(value, "Systemd environment variable value") {
            Err(e) => {
                return Err(e);
            },
            Ok(_) => {},
        }
        let mut pair = key.to_owned();
        pair.append("=");
        pair.append(value);
        let pair_chars = to_chars(pair.as_str());
        let written = crate::gateway::systemd_value_text(&pair_chars);
        let mut line = "Environment=".to_owned();
        line.append(written.as_str());
        line.append("\n");
        out.append(line.as_str());
        i += 1;
    }
    assert(all.take(all.len() as int) =~= all);
    Ok(out)
}

/// Writes the systemd unit of the service.
pub fn render_linux_unit(ctx: &ServiceContext) -> (r: Result<String, GatewayError>)
    ensures
        text_result(r) == linux_unit(ctx.working_dir@, ctx.exe_path@, ctx.service_env@),
{
    let working_dir = match systemd_escape_arg(ctx.working_dir.as_str()) {
        Ok(v) => v,
        Err(e) => {
            return Err(e);
        },
    };
    let exe = match systemd_escape_arg(ctx.exe_path.as_str()) {
        Ok(v) => v,
        Err(e) => {
            return Err(e);
        },
    };
    let start = match systemd_escape_arg("start") {
        Ok(v) => v,
        Err(e) => {
            proof {
                reveal_strlit("start");
                crate::lines::lemma_index_of_char("start"@, '\n', 0);
                crate::lines::lemma_index_of_char("start"@, '\r', 0);
            }
            return Err(e);
        },
    };
    let env = match render_env_unit_lines(&ctx.service_env) {
        Ok(v) => v,
        Err(e) => {
            return Err(e);
        },
    };
    let mut unit = UNIT_HEAD.to_owned();
    unit.append("WorkingDirectory=");
    unit.append(working_dir.as_str());
    unit.append("\n");
    unit.append("ExecStart=");
    unit.append(exe.as_str());
    unit.append(" ");
    unit.append(start.as_str());
    unit.append("\n");
    unit.append(env.as_str());
    unit.append(UNIT_TAIL);
    Ok(unit)
}

/// One entry of the environment as two lines of a property list.
pub open spec fn env_plist_entry(entry: (Seq<char>, Seq<char>)) -> Seq<char> {
    "    <key>"@ + escaped(entry.0, true) + "</key>\n    <string>"@ + escaped(entry.1, true)
        + "</string>\n"@
}

/// The environment as lines of a property list.
pub open spec fn env_plist_lines(env: Seq<(Seq<char>, Seq<char>)>) -> Seq<char>
    decreases env.len(),
{
    if env.len() == 0 {
        Seq::empty()
    } else {
        env_plist_lines(env.drop_last()) + env_plist_entry(env.last())
    }
}

/// How a property list begins, up to the label.
pub const PLIST_HEAD: &'static str =
    "<?xml version=\"1.0\" encoding=\"UTF-8\"?>\n<!DOCTYPE plist PUBLIC \"-//Apple//DTD PLIST 1.0//EN\" \"http://www.apple.com/DTDs/PropertyList-1.0.dtd\">\n<plist version=\"1.0\">\n<dict>\n  <key>Label</key>\n  <string>";

/// The launchd property list of the service.
pub open spec fn macos_plist(
    working_dir: Seq<char>,
    exe_path: Seq<char>,
    logs_dir: Seq<char>,
    env: Seq<(Seq<char>, Seq<char>)>,
) -> Seq<char> {
    PLIST_HEAD@ + MAC_LABEL@
        + "</string>\n  <key>ProgramArguments</key>\n  <array>\n    <string>"@ + escaped(
        exe_path,
        true,
    ) + "</string>\n    <string>start</string>\n  </array>\n  <key>WorkingDirectory</key>\n  <string>"@
        + escaped(working_dir, true)
        + "</string>\n  <key>RunAtLoad</key>\n  <true/>\n  <key>KeepAlive</key>\n  <true/>\n  <key>StandardOutPath</key>\n  <string>"@
        + escaped(joined_path(logs_dir, LOG_STDOUT_FILE@), true)
        + "</string>\n  <key>StandardErrorPath</key>\n  <string>"@ + escaped(
        joined_path(logs_dir, LOG_STDERR_FILE@),
        true,
    ) + "</string>\n  <key>EnvironmentVariables</key>\n  <dict>\n"@ + env_plist_lines(env)
        + "  </dict>\n</dict>\n</plist>"@
}

fn render_env_plist_lines(env: &ServiceEnv) -> (r: String)
    ensures
        r@ == env_plist_lines(env@),
{
    let ghost all = env@;
    let mut out = String::new();
    let mut i: usize = 0;
    assert(out@ =~= env_plist_lines(all.take(0)));
    while i < env.len()
        invariant
            i <= all.len(),
            all == env@,
            out@ == env_plist_lines(all.take(i as int)),
        decreases all.len() - i,
    {
        let (key, value) = env.at(i);
        proof {
            assert(all.take(i + 1).drop_last() =~= all.take(i as int));
            assert(all.take(i + 1).last() == all[i as int]);
        }
        let mut entry = "    <key>".to_owned();
        push_escaped(&mut entry, key, true);
        entry.append("</key>\n    <string>");
        push_escaped(&mut entry, value, true);
        entry.append("</string>\n");
        out.append(entry.as_str());
        i += 1;
    }
    assert(all.take(all.len() as int) =~= all);
    out
}

/// Writes the launchd property list of the service.
pub fn render_macos_plist(ctx: &ServiceContext) -> (r: String)
    ensures
        r@ == macos_plist(
            ctx.working_dir@,
            ctx.exe_path@,
            ctx.runtime_logs_dir@,
            ctx.service_env@,
        ),
{
    let stdout_path = join_path(ctx.runtime_logs_dir.as_str(), LOG_STDOUT_FILE);
    let stderr_path = join_path(ctx.runtime_logs_dir.as_str(), LOG_STDERR_FILE);
    let env = render_env_plist_lines(&ctx.service_env);
    let mut plist = PLIST_HEAD.to_owned();
    plist.append(MAC_LABEL);
    plist.append("</string>\n  <key>ProgramArguments</key>\n  <array>\n    <string>");
    push_escaped(&mut plist, ctx.exe_path.as_str(), true);
    plist.append(
        "</string>\n    <string>start</string>\n  </array>\n  <key>WorkingDirectory</key>\n  <string>",
    );
    push_escaped(&mut plist, ctx.working_dir.as_str(), true);
    plist.append(
        "</string>\n  <key>RunAtLoad</key>\n  <true/>\n  <key>KeepAlive</key>\n  <true/>\n  <key>StandardOutPath</key>\n  <string>",
    );
    push_escaped(&mut plist, stdout_path.as_str(), true);
    plist.append("</string>\n  <key>StandardErrorPath</key>\n  <string>");
    push_escaped(&mut plist, stderr_path.as_str(), true);
    plist.append("</string>\n  <key>EnvironmentVariables</key>\n  <dict>\n");
    plist.append(env.as_str());
    plist.append("  </dict>\n</dict>\n</plist>");
    plist
}

} // verus!
