//! What is read out of the answers of a memory server.

use crate::chars::{from_chars, to_chars};
use crate::lines::texts;
use vstd::prelude::*;
use vstd::string::*;

verus! {

/// Position of the last `c` in `s`.
pub open spec fn last_index_of(s: Seq<char>, c: char) -> Option<int>
    decreases s.len(),
{
    if s.len() == 0 {
        None
    } else if s.last() == c {
        Some(s.len() - 1)
    } else {
        last_index_of(s.drop_last(), c)
    }
}

/// The part of `s` from its first `open` up to its last `close`, where
/// the first stands before the last.
pub open spec fn bracketed(s: Seq<char>, open: char, close: char) -> Seq<Seq<char>> {
    match (crate::lines::index_of_char(s, open, 0), last_index_of(s, close)) {
        (Some(a), Some(b)) => if a < b {
            seq![s.subrange(a, b + 1)]
        } else {
            Seq::empty()
        },
        _ => Seq::empty(),
    }
}

/// The parts of an answer that may be the value meant, in the order in
/// which they are tried after the whole answer: what stands between the
/// outermost square brackets, then what stands between the outermost
/// braces.
pub open spec fn loose_candidates(s: Seq<char>) -> Seq<Seq<char>> {
    bracketed(s, '[', ']') + bracketed(s, '{', '}')
}

fn find_last(v: &Vec<char>, c: char) -> (r: Option<usize>)
    ensures
        match r {
            Some(p) => last_index_of(v@, c) == Some(p as int) && p < v.len(),
            None => last_index_of(v@, c) is None,
        },
{
    let mut i: usize = v.len();
    assert(v@.take(i as int) =~= v@);
    while i > 0
        invariant
            i <= v.len(),
            last_index_of(v@, c) == last_index_of(v@.take(i as int), c),
        decreases i,
    {
        assert(v@.take(i as int).drop_last() =~= v@.take(i - 1));
        assert(v@.take(i as int).last() == v@[i - 1]);
        if v[i - 1] == c {
            return Some(i - 1);
        }
        i -= 1;
    }
    None
}

fn push_bracketed(out: &mut Vec<String>, v: &Vec<char>, open: char, close: char)
    ensures
        texts(final(out)@) == texts(old(out)@) + bracketed(v@, open, close),
{
    let first = crate::lines::find_char(v, open, 0);
    let last = find_last(v, close);
    match (first, last) {
        (Some(a), Some(b)) => {
            if a < b {
                let part = from_chars(v, a, b + 1);
                out.push(part);
                assert(texts(out@) =~= texts(old(out)@) + seq![part@]);
            } else {
                assert(texts(out@) + Seq::<Seq<char>>::empty() =~= texts(out@));
            }
        },
        _ => {
            assert(texts(out@) + Seq::<Seq<char>>::empty() =~= texts(out@));
        },
    }
}

/// The parts of an answer that are tried as the value meant where the
/// whole answer is none.
pub fn loose_json_candidates(text: &str) -> (r: Vec<String>)
    ensures
        texts(r@) == loose_candidates(text@),
{
    let v = to_chars(text);
    let mut out: Vec<String> = Vec::new();
    assert(texts(out@) =~= Seq::<Seq<char>>::empty());
    push_bracketed(&mut out, &v, '[', ']');
    assert(texts(out@) =~= bracketed(v@, '[', ']'));
    push_bracketed(&mut out, &v, '{', '}');
    out
}

/// The number of the memory that an answer names: under `id`, else under
/// `memory_id`, else as the `id` of what stands under `memory`.
pub fn extract_id(id: Option<i64>, memory_id: Option<i64>, nested_id: Option<i64>) -> (r: Option<
    i64,
>)
    ensures
        r == (match id {
            Some(x) => Some(x),
            None => match memory_id {
                Some(y) => Some(y),
                None => nested_id,
            },
        }),
{
    match id {
        Some(x) => Some(x),
        None => match memory_id {
            Some(y) => Some(y),
            None => nested_id,
        },
    }
}

/// Whether an answer says that the change was made: what stands under
/// `updated`, else under `ok`, else under `success`.
pub fn extract_bool_flag(updated: Option<bool>, ok: Option<bool>, success: Option<bool>) -> (r:
    Option<bool>)
    ensures
        r == (match updated {
            Some(x) => Some(x),
            None => match ok {
                Some(y) => Some(y),
                None => success,
            },
        }),
{
    match updated {
        Some(x) => Some(x),
        None => match ok {
            Some(y) => Some(y),
            None => success,
        },
    }
}

/// Where the list of memories stands in an answer.
#[derive(Clone, Copy, Debug, PartialEq, Eq, Structural)]
pub enum MemoryListSource {
    /// The answer is the list.
    Whole,
    /// The list stands under `memories`.
    Memories,
    /// The list stands under `items`.
    Items,
}

/// Where the list of memories stands in an answer, given whether the
/// answer is a list, and whether it is an object with a list under
/// `memories` or under `items`.
pub fn memory_list_source(is_list: bool, has_memories: bool, has_items: bool) -> (r: Option<
    MemoryListSource,
>)
    ensures
        r == (if is_list {
            Some(MemoryListSource::Whole)
        } else if has_memories {
            Some(MemoryListSource::Memories)
        } else if has_items {
            Some(MemoryListSource::Items)
        } else {
            None
        }),
{
    if is_list {
        Some(MemoryListSource::Whole)
    } else if has_memories {
        Some(MemoryListSource::Memories)
    } else if has_items {
        Some(MemoryListSource::Items)
    } else {
        None
    }
}

} // verus!
