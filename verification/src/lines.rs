//! Lines, keys and values in the output of other programs.

use crate::chars::{from_chars, to_chars};
use vstd::prelude::*;
use vstd::string::*;

verus! {

/// The views of a list of texts.
pub open spec fn texts(s: Seq<String>) -> Seq<Seq<char>> {
    Seq::new(s.len(), |i: int| s[i]@)
}

/// Position of the first `c` in `s` at or after `from`.
pub open spec fn index_of_char(s: Seq<char>, c: char, from: int) -> Option<int>
    decreases s.len() - from,
{
    if from < 0 || from >= s.len() {
        None
    } else if s[from] == c {
        Some(from)
    } else {
        index_of_char(s, c, from + 1)
    }
}

/// What `index_of_char` returns is the first position of `c` from `from` on.
pub proof fn lemma_index_of_char(s: Seq<char>, c: char, from: int)
    requires
        0 <= from,
    ensures
        match index_of_char(s, c, from) {
            Some(p) => from <= p < s.len() && s[p] == c && forall|j: int|
                from <= j < p ==> s[j] != c,
            None => forall|j: int| from <= j < s.len() ==> s[j] != c,
        },
    decreases s.len() - from,
{
    if from < s.len() && s[from] != c {
        lemma_index_of_char(s, c, from + 1);
    }
}

/// Whether `c` occurs in `s`.
pub open spec fn has_char(s: Seq<char>, c: char) -> bool {
    index_of_char(s, c, 0) is Some
}

/// Position of the first `c` in `v` at or after `from`.
pub fn find_char(v: &Vec<char>, c: char, from: usize) -> (r: Option<usize>)
    ensures
        match r {
            Some(p) => index_of_char(v@, c, from as int) == Some(p as int) && from <= p < v.len(),
            None => index_of_char(v@, c, from as int) is None,
        },
{
    let mut i: usize = from;
    while i < v.len()
        invariant
            from <= i,
            index_of_char(v@, c, from as int) == index_of_char(v@, c, i as int),
        decreases v.len() - i,
    {
        if v[i] == c {
            return Some(i);
        }
        i += 1;
    }
    None
}

/// A line without the carriage return at its end, if it has one.
pub open spec fn without_cr(line: Seq<char>) -> Seq<char> {
    if line.len() > 0 && line.last() == '\r' {
        line.drop_last()
    } else {
        line
    }
}

/// The lines of `s` from position `pos` on. A line ends with a line feed,
/// which is not part of it, and neither is a carriage return just before
/// it; what follows the last line feed is a line unless it is empty.
pub open spec fn lines_from(s: Seq<char>, pos: int) -> Seq<Seq<char>>
    decreases s.len() - pos,
{
    if pos < 0 || pos >= s.len() {
        Seq::empty()
    } else {
        match index_of_char(s, '\n', pos) {
            None => seq![s.subrange(pos, s.len() as int)],
            Some(end) => if pos <= end < s.len() {
                seq![without_cr(s.subrange(pos, end))] + lines_from(s, end + 1)
            } else {
                Seq::empty()
            },
        }
    }
}

/// The lines of `s`.
pub open spec fn lines(s: Seq<char>) -> Seq<Seq<char>> {
    lines_from(s, 0)
}

/// The lines of `s`.
pub fn split_lines(s: &str) -> (r: Vec<String>)
    ensures
        texts(r@) == lines(s@),
{
    let v = to_chars(s);
    let mut out: Vec<String> = Vec::new();
    let mut pos: usize = 0;
    assert(texts(out@) + lines_from(v@, 0) =~= lines(v@));
    while pos < v.len()
        invariant
            pos <= v.len(),
            lines(v@) == texts(out@) + lines_from(v@, pos as int),
        decreases v.len() - pos,
    {
        let ghost before = texts(out@);
        match find_char(&v, '\n', pos) {
            None => {
                let line = from_chars(&v, pos, v.len());
                out.push(line);
                assert(texts(out@) =~= before + seq![line@]);
                assert(lines_from(v@, v.len() as int) =~= Seq::<Seq<char>>::empty());
                pos = v.len();
                assert(lines(v@) =~= texts(out@) + lines_from(v@, pos as int));
            },
            Some(end) => {
                let stop = if end > pos && v[end - 1] == '\r' {
                    end - 1
                } else {
                    end
                };
                assert(v@.subrange(pos as int, stop as int) =~= without_cr(
                    v@.subrange(pos as int, end as int),
                ));
                let line = from_chars(&v, pos, stop);
                out.push(line);
                assert(texts(out@) =~= before + seq![line@]);
                assert(lines(v@) =~= texts(out@) + lines_from(v@, end + 1));
                pos = end + 1;
            },
        }
    }
    assert(texts(out@) + lines_from(v@, pos as int) =~= texts(out@));
    out
}

/// `s` without the characters `c` at its end.
pub open spec fn trim_end_char(s: Seq<char>, c: char) -> Seq<char>
    decreases s.len(),
{
    if s.len() > 0 && s.last() == c {
        trim_end_char(s.drop_last(), c)
    } else {
        s
    }
}

/// The end of `v[from..to]` without the characters `c` at its end.
pub(crate) fn trim_end_char_bound(v: &Vec<char>, from: usize, to: usize, c: char) -> (hi: usize)
    requires
        from <= to <= v.len(),
    ensures
        from <= hi <= to,
        v@.subrange(from as int, hi as int) == trim_end_char(
            v@.subrange(from as int, to as int),
            c,
        ),
{
    let mut hi: usize = to;
    while hi > from && v[hi - 1] == c
        invariant
            from <= hi <= to <= v.len(),
            trim_end_char(v@.subrange(from as int, to as int), c) == trim_end_char(
                v@.subrange(from as int, hi as int),
                c,
            ),
        decreases hi - from,
    {
        assert(v@.subrange(from as int, hi as int).drop_last() =~= v@.subrange(
            from as int,
            hi - 1,
        ));
        hi -= 1;
    }
    hi
}

/// The lower-case form of an upper-case letter of the basic alphabet;
/// every other character as it is.
pub open spec fn ascii_lower(c: char) -> char {
    if 0x41 <= c as u32 <= 0x5A {
        ((c as u32 + 32) as u8) as char
    } else {
        c
    }
}

/// `s` with the upper-case letters of the basic alphabet in lower case.
pub open spec fn ascii_lowered(s: Seq<char>) -> Seq<char> {
    Seq::new(s.len(), |i: int| ascii_lower(s[i]))
}

/// `s` with the upper-case letters of the basic alphabet in lower case.
pub fn to_ascii_lower(s: &str) -> (r: Vec<char>)
    ensures
        r@ == ascii_lowered(s@),
{
    let v = to_chars(s);
    let mut out: Vec<char> = Vec::new();
    let mut i: usize = 0;
    while i < v.len()
        invariant
            i <= v.len(),
            out.len() == i,
            forall|k: int| 0 <= k < i ==> out@[k] == ascii_lower(v@[k]),
        decreases v.len() - i,
    {
        let c = v[i];
        let code: u32 = c as u32;
        let lower = if 0x41 <= code && code <= 0x5A {
            ((code + 32) as u8) as char
        } else {
            c
        };
        out.push(lower);
        i += 1;
    }
    assert(out@ =~= ascii_lowered(v@));
    out
}

/// What `str::to_lowercase` makes of the text.
pub uninterp spec fn lowercased(s: Seq<char>) -> Seq<char>;

/// `str::to_lowercase`: the text in lower case, by the rules of Unicode.
/// The claim is that the result depends on the text alone.
#[verifier::external_body]
pub(crate) fn to_lowercase(s: &str) -> (r: String)
    ensures
        r@ == lowercased(s@),
{
    s.to_lowercase()
}

} // verus!
