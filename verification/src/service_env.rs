//! The environment in which the gateway service runs.

use crate::chars::{str_eq, trim, trim_exec};
use crate::lines::texts;
use crate::render::joined;
use crate::service::{with_entry, ServiceEnv};
use vstd::prelude::*;
use vstd::string::*;

verus! {

/// Where the tools that a user installed for themselves live, as far as
/// the environment says.
#[derive(Debug, Default, PartialEq, Eq)]
pub struct ToolHomes {
    pub pnpm_home: Option<String>,
    pub npm_config_prefix: Option<String>,
    pub bun_install: Option<String>,
    pub volta_home: Option<String>,
    pub asdf_data_dir: Option<String>,
}

/// The view of an optional text.
pub open spec fn opt_view(t: Option<String>) -> Option<Seq<char>> {
    match t {
        Some(s) => Some(s@),
        None => None,
    }
}

/// The directory that a tool's home adds to the search path: the home,
/// trimmed, followed by `suffix`; none where the home is not set or blank.
pub open spec fn tool_dir(home: Option<Seq<char>>, suffix: Seq<char>) -> Seq<Seq<char>> {
    match home {
        Some(h) => if trim(h).len() == 0 {
            Seq::empty()
        } else {
            seq![trim(h) + suffix]
        },
        None => Seq::empty(),
    }
}

/// The directories of the search path before doubles are taken out:
/// those under the user's home, those of the tools' homes, and those of
/// the system.
pub open spec fn path_parts(
    home: Seq<char>,
    pnpm_home: Option<Seq<char>>,
    npm_config_prefix: Option<Seq<char>>,
    bun_install: Option<Seq<char>>,
    volta_home: Option<Seq<char>>,
    asdf_data_dir: Option<Seq<char>>,
) -> Seq<Seq<char>> {
    seq![
        home + "/.local/bin"@,
        home + "/.npm-global/bin"@,
        home + "/bin"@,
        home + "/.volta/bin"@,
        home + "/.asdf/shims"@,
        home + "/.bun/bin"@,
    ] + tool_dir(pnpm_home, ""@) + tool_dir(npm_config_prefix, "/bin"@) + tool_dir(
        bun_install,
        "/bin"@,
    ) + tool_dir(volta_home, "/bin"@) + tool_dir(asdf_data_dir, "/shims"@) + seq![
        "/opt/homebrew/bin"@,
        "/usr/local/bin"@,
        "/usr/bin"@,
        "/bin"@,
    ]
}

/// The directories without the empty ones, each where it stands first.
pub open spec fn deduped(parts: Seq<Seq<char>>) -> Seq<Seq<char>>
    decreases parts.len(),
{
    if parts.len() == 0 {
        Seq::empty()
    } else {
        let prev = deduped(parts.drop_last());
        if parts.last().len() == 0 || prev.contains(parts.last()) {
            prev
        } else {
            prev.push(parts.last())
        }
    }
}

/// The search path of the service.
pub open spec fn search_path(parts: Seq<Seq<char>>) -> Seq<char> {
    joined(deduped(parts), ":"@)
}

/// The environment of the service: the mark of the gateway; the
/// configuration file where there is one; the user's home and the search
/// path where the home is set and not blank; and the directory for
/// temporary files, which is the system's where none is set.
pub open spec fn service_env(
    config_path: Option<Seq<char>>,
    home: Option<Seq<char>>,
    pnpm_home: Option<Seq<char>>,
    npm_config_prefix: Option<Seq<char>>,
    bun_install: Option<Seq<char>>,
    volta_home: Option<Seq<char>>,
    asdf_data_dir: Option<Seq<char>>,
    tmpdir: Option<Seq<char>>,
    default_tmpdir: Seq<char>,
) -> Seq<(Seq<char>, Seq<char>)> {
    let marked = with_entry(Seq::empty(), "MICROCLAW_GATEWAY"@, "1"@);
    let configured = match config_path {
        Some(p) => with_entry(marked, "MICROCLAW_CONFIG"@, p),
        None => marked,
    };
    let homed = match home {
        Some(h) => if trim(h).len() == 0 {
            configured
        } else {
            with_entry(
                with_entry(configured, "HOME"@, h),
                "PATH"@,
                search_path(
                    path_parts(
                        h,
                        pnpm_home,
                        npm_config_prefix,
                        bun_install,
                        volta_home,
                        asdf_data_dir,
                    ),
                ),
            )
        },
        None => configured,
    };
    with_entry(
        homed,
        "TMPDIR"@,
        match tmpdir {
            Some(t) => if trim(t).len() == 0 {
                default_tmpdir
            } else {
                t
            },
            None => default_tmpdir,
        },
    )
}

fn is_blank(s: &str) -> (r: bool)
    ensures
        r == (trim(s@).len() == 0),
{
    let t = trim_exec(s);
    t.as_str().is_empty()
}

fn push_text(parts: &mut Vec<String>, text: String)
    ensures
        texts(final(parts)@) == texts(old(parts)@) + seq![text@],
{
    parts.push(text);
    assert(texts(parts@) =~= texts(old(parts)@) + seq![text@]);
}

fn push_under(parts: &mut Vec<String>, home: &str, suffix: &str)
    ensures
        texts(final(parts)@) == texts(old(parts)@) + seq![home@ + suffix@],
{
    let mut dir = home.to_owned();
    dir.append(suffix);
    push_text(parts, dir);
}

fn push_tool_dir(parts: &mut Vec<String>, home: &Option<String>, suffix: &str)
    ensures
        texts(final(parts)@) == texts(old(parts)@) + tool_dir(opt_view(*home), suffix@),
{
    match home {
        Some(h) => {
            let t = trim_exec(h.as_str());
            if t.as_str().is_empty() {
                assert(texts(parts@) + Seq::<Seq<char>>::empty() =~= texts(parts@));
            } else {
                let mut dir = t;
                dir.append(suffix);
                push_text(parts, dir);
            }
        },
        None => {
            assert(texts(parts@) + Seq::<Seq<char>>::empty() =~= texts(parts@));
        },
    }
}

fn collect_parts(home: &str, homes: &ToolHomes) -> (r: Vec<String>)
    ensures
        texts(r@) == path_parts(
            home@,
            opt_view(homes.pnpm_home),
            opt_view(homes.npm_config_prefix),
            opt_view(homes.bun_install),
            opt_view(homes.volta_home),
            opt_view(homes.asdf_data_dir),
        ),
{
    let mut parts: Vec<String> = Vec::new();
    assert(texts(parts@) =~= Seq::<Seq<char>>::empty());
    push_under(&mut parts, home, "/.local/bin");
    push_under(&mut parts, home, "/.npm-global/bin");
    push_under(&mut parts, home, "/bin");
    push_under(&mut parts, home, "/.volta/bin");
    push_under(&mut parts, home, "/.asdf/shims");
    push_under(&mut parts, home, "/.bun/bin");
    assert(texts(parts@) =~= seq![
        home@ + "/.local/bin"@,
        home@ + "/.npm-global/bin"@,
        home@ + "/bin"@,
        home@ + "/.volta/bin"@,
        home@ + "/.asdf/shims"@,
        home@ + "/.bun/bin"@,
    ]);
    push_tool_dir(&mut parts, &homes.pnpm_home, "");
    push_tool_dir(&mut parts, &homes.npm_config_prefix, "/bin");
    push_tool_dir(&mut parts, &homes.bun_install, "/bin");
    push_tool_dir(&mut parts, &homes.volta_home, "/bin");
    push_tool_dir(&mut parts, &homes.asdf_data_dir, "/shims");
    let ghost before = texts(parts@);
    push_text(&mut parts, "/opt/homebrew/bin".to_owned());
    push_text(&mut parts, "/usr/local/bin".to_owned());
    push_text(&mut parts, "/usr/bin".to_owned());
    push_text(&mut parts, "/bin".to_owned());
    assert(texts(parts@) =~= before + seq![
        "/opt/homebrew/bin"@,
        "/usr/local/bin"@,
        "/usr/bin"@,
        "/bin"@,
    ]);
    parts
}

fn holds_text(list: &Vec<String>, wanted: &str) -> (r: bool)
    ensures
        r == texts(list@).contains(wanted@),
{
    let mut i: usize = 0;
    while i < list.len()
        invariant
            i <= list.len(),
            forall|k: int| 0 <= k < i ==> texts(list@)[k] != wanted@,
        decreases list.len() - i,
    {
        if str_eq(list[i].as_str(), wanted) {
            assert(texts(list@)[i as int] == wanted@);
            return true;
        }
        i += 1;
    }
    false
}

fn join_deduped(parts: &Vec<String>) -> (r: String)
    ensures
        r@ == search_path(texts(parts@)),
{
    let ghost all = texts(parts@);
    let mut kept: Vec<String> = Vec::new();
    let mut i: usize = 0;
    assert(texts(kept@) =~= deduped(all.take(0)));
    while i < parts.len()
        invariant
            i <= parts.len(),
            all == texts(parts@),
            texts(kept@) == deduped(all.take(i as int)),
        decreases parts.len() - i,
    {
        proof {
            assert(all.take(i + 1).drop_last() =~= all.take(i as int));
            assert(all.take(i + 1).last() == parts@[i as int]@);
        }
        if !parts[i].as_str().is_empty() && !holds_text(&kept, parts[i].as_str()) {
            push_text(&mut kept, parts[i].clone());
            assert(texts(kept@) =~= deduped(all.take(i as int)).push(parts@[i as int]@));
        }
        i += 1;
    }
    assert(all.take(parts.len() as int) =~= all);
    let ghost list = texts(kept@);
    let mut out = String::new();
    let mut j: usize = 0;
    assert(out@ =~= joined(list.take(0), ":"@));
    while j < kept.len()
        invariant
            j <= kept.len(),
            list == texts(kept@),
            out@ == joined(list.take(j as int), ":"@),
        decreases kept.len() - j,
    {
        proof {
            assert(list.take(j + 1).drop_last() =~= list.take(j as int));
            assert(list.take(j + 1).last() == kept@[j as int]@);
        }
        if j > 0 {
            out.append(":");
        }
        out.append(kept[j].as_str());
        assert(out@ =~= joined(list.take(j + 1), ":"@));
        j += 1;
    }
    assert(list.take(kept.len() as int) =~= list);
    out
}

/// Makes the environment of the service out of what the environment of
/// the caller says. `default_tmpdir` is the system's directory for
/// temporary files.
pub fn build_service_env(
    config_path: Option<&str>,
    home: Option<&str>,
    homes: &ToolHomes,
    tmpdir: Option<&str>,
    default_tmpdir: &str,
) -> (r: ServiceEnv)
    ensures
        r@ == service_env(
            match config_path {
                Some(p) => Some(p@),
                None => None,
            },
            match home {
                Some(h) => Some(h@),
                None => None,
            },
            opt_view(homes.pnpm_home),
            opt_view(homes.npm_config_prefix),
            opt_view(homes.bun_install),
            opt_view(homes.volta_home),
            opt_view(homes.asdf_data_dir),
            match tmpdir {
                Some(t) => Some(t@),
                None => None,
            },
            default_tmpdir@,
        ),
        r.well_formed(),
{
    let mut env = ServiceEnv::new();
    env.insert("MICROCLAW_GATEWAY", "1");
    match config_path {
        Some(p) => {
            env.insert("MICROCLAW_CONFIG", p);
        },
        None => {},
    }
    match home {
        Some(h) => {
            if !is_blank(h) {
                env.insert("HOME", h);
                let parts = collect_parts(h, homes);
                let path = join_deduped(&parts);
                env.insert("PATH", path.as_str());
            }
        },
        None => {},
    }
    let tmp = match tmpdir {
        Some(t) => if is_blank(t) {
            default_tmpdir
        } else {
            t
        },
        None => default_tmpdir,
    };
    env.insert("TMPDIR", tmp);
    env
}

} // verus!
