//! The arguments of the probe that checks an encrypted room.

use crate::chars::{from_chars, matches_at, matches_at_exec, str_eq, to_chars, trim};
use crate::lines::texts;
use crate::parse::{parse_bounded_u64, parsed_int};
use vstd::prelude::*;
use vstd::string::*;

verus! {

/// Seconds that the probe waits for an answer where none are given.
pub const DEFAULT_PROBE_TIMEOUT_SECS: u64 = 60;

/// The text without the pairs of dashes at its beginning.
pub open spec fn without_dashes(s: Seq<char>) -> Seq<char>
    decreases s.len(),
{
    if matches_at(s, "--"@, 0) && s.len() >= 2 {
        without_dashes(s.skip(2))
    } else {
        s
    }
}

/// The views of a list of names and values.
pub open spec fn arg_views(s: Seq<(String, String)>) -> Seq<(Seq<char>, Seq<char>)> {
    Seq::new(s.len(), |i: int| (s[i].0@, s[i].1@))
}

/// What the arguments from position `from` on come to: names and values
/// in the order given, or the complaint about the first argument that
/// does not begin with two dashes or has no value after it.
pub open spec fn parsed_args(args: Seq<Seq<char>>, from: int) -> Result<
    Seq<(Seq<char>, Seq<char>)>,
    Seq<char>,
>
    decreases args.len() - from,
{
    if from < 0 || from >= args.len() {
        Ok(Seq::empty())
    } else if !matches_at(args[from], "--"@, 0) {
        Err("unexpected argument: "@ + args[from])
    } else if from + 1 >= args.len() {
        Err("missing value for argument: --"@ + without_dashes(args[from]))
    } else {
        match parsed_args(args, from + 2) {
            Ok(rest) => Ok(seq![(without_dashes(args[from]), args[from + 1])] + rest),
            Err(e) => Err(e),
        }
    }
}

fn strip_dashes(arg: &str) -> (r: String)
    ensures
        r@ == without_dashes(arg@),
{
    let v = to_chars(arg);
    let dashes = to_chars("--");
    proof {
        reveal_strlit("--");
    }
    let mut i: usize = 0;
    assert(v@.skip(0) =~= v@);
    while i < v.len() && v.len() - i >= 2 && matches_at_exec(&v, &dashes, i)
        invariant
            i <= v.len(),
            dashes@ == "--"@,
            "--"@.len() == 2,
            without_dashes(v@) == without_dashes(v@.skip(i as int)),
        decreases v.len() - i,
    {
        proof {
            let rest = v@.skip(i as int);
            assert(rest.subrange(0, 2) =~= v@.subrange(i as int, i + 2));
            assert(rest.skip(2) =~= v@.skip(i + 2));
        }
        i += 2;
    }
    proof {
        let rest = v@.skip(i as int);
        if rest.len() >= 2 {
            assert(rest.subrange(0, 2) =~= v@.subrange(i as int, i + 2));
        }
    }
    let r = from_chars(&v, i, v.len());
    assert(v@.subrange(i as int, v.len() as int) =~= v@.skip(i as int));
    r
}

/// Reads the arguments of the probe: each name begins with two dashes
/// and is followed by its value.
pub fn parse_args(args: &[String]) -> (r: Result<Vec<(String, String)>, String>)
    ensures
        (match r {
            Ok(v) => Ok(arg_views(v@)),
            Err(e) => Err(e@),
        }) == parsed_args(texts(args@), 0),
{
    let ghost all = texts(args@);
    let dashes = to_chars("--");
    let mut out: Vec<(String, String)> = Vec::new();
    let mut i: usize = 0;
    assert(arg_views(out@) =~= Seq::<(Seq<char>, Seq<char>)>::empty());
    while i < args.len()
        invariant
            i <= args.len(),
            all == texts(args@),
            dashes@ == "--"@,
            parsed_args(all, 0) == (match parsed_args(all, i as int) {
                Ok(rest) => Ok(arg_views(out@) + rest),
                Err(e) => Err(e),
            }),
        decreases args.len() - i,
    {
        assert(all[i as int] == args@[i as int]@);
        let arg = to_chars(args[i].as_str());
        if !matches_at_exec(&arg, &dashes, 0) {
            let mut e = "unexpected argument: ".to_owned();
            e.append(args[i].as_str());
            return Err(e);
        }
        let key = strip_dashes(args[i].as_str());
        if args.len() - i < 2 {
            let mut e = "missing value for argument: --".to_owned();
            e.append(key.as_str());
            return Err(e);
        }
        assert(all[i + 1] == args@[i + 1]@);
        let ghost before = arg_views(out@);
        let pair = (key, args[i + 1].clone());
        out.push(pair);
        proof {
            assert(arg_views(out@) =~= before + seq![(pair.0@, pair.1@)]);
            match parsed_args(all, i + 2) {
                Ok(rest) => {
                    assert(before + (seq![(pair.0@, pair.1@)] + rest) =~= arg_views(out@) + rest);
                },
                Err(e) => {},
            }
        }
        i += 2;
    }
    assert(arg_views(out@) + Seq::<(Seq<char>, Seq<char>)>::empty() =~= arg_views(out@));
    Ok(out)
}

/// The value given last for the name `key`.
pub open spec fn arg_value(args: Seq<(Seq<char>, Seq<char>)>, key: Seq<char>) -> Option<Seq<char>>
    decreases args.len(),
{
    if args.len() == 0 {
        None
    } else if args.last().0 == key {
        Some(args.last().1)
    } else {
        arg_value(args.drop_last(), key)
    }
}

fn find_arg<'a>(args: &'a Vec<(String, String)>, key: &str) -> (r: Option<&'a String>)
    ensures
        (match r {
            Some(v) => Some(v@),
            None => None,
        }) == arg_value(arg_views(args@), key@),
{
    let ghost all = arg_views(args@);
    let mut i: usize = args.len();
    assert(all.take(i as int) =~= all);
    while i > 0
        invariant
            i <= args.len(),
            all == arg_views(args@),
            arg_value(all, key@) == arg_value(all.take(i as int), key@),
        decreases i,
    {
        proof {
            assert(all.take(i as int).drop_last() =~= all.take(i - 1));
            assert(all.take(i as int).last() == all[i - 1]);
        }
        if str_eq(args[i - 1].0.as_str(), key) {
            return Some(&args[i - 1].1);
        }
        i -= 1;
    }
    None
}

/// The value of an argument that has to be given: an error where it is
/// missing or blank.
pub fn required(args: &Vec<(String, String)>, key: &str) -> (r: Result<String, String>)
    ensures
        (match r {
            Ok(v) => Ok(v@),
            Err(e) => Err(e@),
        }) == (match arg_value(arg_views(args@), key@) {
            Some(v) => if trim(v).len() == 0 {
                Err("missing required argument: --"@ + key@)
            } else {
                Ok(v)
            },
            None => Err("missing required argument: --"@ + key@),
        }),
{
    match find_arg(args, key) {
        Some(v) => {
            let t = crate::chars::trim_exec(v.as_str());
            if !t.as_str().is_empty() {
                return Ok(v.clone());
            }
        },
        None => {},
    }
    let mut e = "missing required argument: --".to_owned();
    e.append(key);
    Err(e)
}

/// Seconds that the probe waits for an answer: what `timeout-secs` says
/// where it says a number, the default otherwise.
pub fn probe_timeout_secs(args: &Vec<(String, String)>) -> (r: u64)
    ensures
        r == (match arg_value(arg_views(args@), "timeout-secs"@) {
            Some(v) => match parsed_int(v, 0, u64::MAX as int) {
                Some(n) => n as u64,
                None => DEFAULT_PROBE_TIMEOUT_SECS,
            },
            None => DEFAULT_PROBE_TIMEOUT_SECS,
        }),
{
    match find_arg(args, "timeout-secs") {
        Some(v) => match parse_bounded_u64(v.as_str()) {
            Some(n) => n,
            None => DEFAULT_PROBE_TIMEOUT_SECS,
        },
        None => DEFAULT_PROBE_TIMEOUT_SECS,
    }
}

} // verus!
