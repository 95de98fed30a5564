//! Long text cut into pieces that a channel takes.

use crate::chars::{from_chars, to_chars};
use crate::lines::texts;
use vstd::prelude::*;
use vstd::string::*;
use vstd::utf8::*;

verus! {

/// How many bytes the character takes.
pub open spec fn width(c: char) -> int {
    encode_scalar(c as u32).len() as int
}

fn char_width(c: char) -> (r: usize)
    ensures
        r == width(c),
        1 <= r <= 4,
{
    proof {
        char_is_scalar(c);
    }
    let u: u32 = c as u32;
    if u < 0x80 {
        1
    } else if u < 0x800 {
        2
    } else if u < 0x10000 {
        3
    } else {
        4
    }
}

/// The end of the longest run of characters from `from` on that takes no
/// more than `budget` bytes.
pub open spec fn fitting(s: Seq<char>, from: int, budget: int) -> int
    decreases s.len() - from,
{
    if from < 0 || from >= s.len() || width(s[from]) > budget {
        from
    } else {
        fitting(s, from + 1, budget - width(s[from]))
    }
}

/// Position of the last line feed in `s[from..to]`.
pub open spec fn last_newline(s: Seq<char>, from: int, to: int) -> Option<int>
    decreases to - from,
{
    if to <= from || to > s.len() {
        None
    } else if s[to - 1] == '\n' {
        Some(to - 1)
    } else {
        last_newline(s, from, to - 1)
    }
}

/// Where the piece that begins at `from` ends: at the end of the text
/// where all that is left fits in `max_len` bytes; else at the last line
/// feed in what fits, or, where there is none, where what fits ends. A
/// piece holds at least one character unless it ends at a line feed.
pub open spec fn piece_end(s: Seq<char>, from: int, max_len: int) -> int {
    let fit = fitting(s, from, max_len);
    if fit >= s.len() {
        s.len() as int
    } else {
        let window = if fit <= from {
            from + 1
        } else {
            fit
        };
        match last_newline(s, from, window) {
            Some(p) => p,
            None => window,
        }
    }
}

/// Where the piece after the one that ends at `end` begins: after the line
/// feed at which that piece ends, if it ends at one.
pub open spec fn next_piece(s: Seq<char>, end: int) -> int {
    if 0 <= end < s.len() && s[end] == '\n' {
        end + 1
    } else {
        end
    }
}

/// The pieces of the text from `from` on.
pub open spec fn pieces_from(s: Seq<char>, from: int, max_len: int) -> Seq<Seq<char>>
    decreases s.len() - from,
{
    if from < 0 || from >= s.len() {
        Seq::empty()
    } else {
        let end = piece_end(s, from, max_len);
        let next = next_piece(s, end);
        if from <= end <= s.len() && next > from {
            seq![s.subrange(from, end)] + pieces_from(s, next, max_len)
        } else {
            Seq::empty()
        }
    }
}

/// The pieces of a text: the text itself where it fits in `max_len`
/// bytes; else pieces of no more than `max_len` bytes each, cut at line
/// feeds where there are any, and never inside a character.
pub open spec fn pieces(s: Seq<char>, max_len: int) -> Seq<Seq<char>> {
    if fitting(s, 0, max_len) >= s.len() {
        seq![s]
    } else {
        pieces_from(s, 0, max_len)
    }
}

fn fitting_end(v: &Vec<char>, from: usize, max_len: usize) -> (r: usize)
    requires
        from <= v.len(),
    ensures
        r == fitting(v@, from as int, max_len as int),
        from <= r <= v.len(),
{
    let mut i: usize = from;
    let mut budget: usize = max_len;
    while i < v.len()
        invariant
            from <= i <= v.len(),
            fitting(v@, from as int, max_len as int) == fitting(v@, i as int, budget as int),
        decreases v.len() - i,
    {
        let w = char_width(v[i]);
        if w > budget {
            return i;
        }
        budget -= w;
        i += 1;
    }
    i
}

fn last_newline_in(v: &Vec<char>, from: usize, to: usize) -> (r: Option<usize>)
    requires
        from <= to <= v.len(),
    ensures
        match r {
            Some(p) => last_newline(v@, from as int, to as int) == Some(p as int) && from <= p < to
                && v@[p as int] == '\n',
            None => last_newline(v@, from as int, to as int) is None,
        },
{
    let mut i: usize = to;
    while i > from
        invariant
            from <= i <= to <= v.len(),
            last_newline(v@, from as int, to as int) == last_newline(v@, from as int, i as int),
        decreases i,
    {
        if v[i - 1] == '\n' {
            return Some(i - 1);
        }
        i -= 1;
    }
    None
}

/// Cuts a text into pieces of no more than `max_len` bytes each.
pub fn split_text(text: &str, max_len: usize) -> (r: Vec<String>)
    ensures
        texts(r@) == pieces(text@, max_len as int),
{
    let v = to_chars(text);
    let mut out: Vec<String> = Vec::new();
    if fitting_end(&v, 0, max_len) >= v.len() {
        out.push(text.to_owned());
        assert(texts(out@) =~= seq![text@]);
        return out;
    }
    let mut pos: usize = 0;
    assert(texts(out@) + pieces_from(v@, 0, max_len as int) =~= pieces_from(
        v@,
        0,
        max_len as int,
    ));
    while pos < v.len()
        invariant
            pos <= v.len(),
            v@ == text@,
            pieces_from(v@, 0, max_len as int) == texts(out@) + pieces_from(
                v@,
                pos as int,
                max_len as int,
            ),
        decreases v.len() - pos,
    {
        let fit = fitting_end(&v, pos, max_len);
        let end = if fit >= v.len() {
            v.len()
        } else {
            let window = if fit <= pos {
                pos + 1
            } else {
                fit
            };
            match last_newline_in(&v, pos, window) {
                Some(p) => p,
                None => window,
            }
        };
        let next = if end < v.len() && v[end] == '\n' {
            end + 1
        } else {
            end
        };
        let ghost before = texts(out@);
        let piece = from_chars(&v, pos, end);
        out.push(piece);
        assert(texts(out@) =~= before + seq![piece@]);
        assert(pieces_from(v@, 0, max_len as int) =~= texts(out@) + pieces_from(
            v@,
            next as int,
            max_len as int,
        ));
        pos = next;
    }
    assert(texts(out@) + pieces_from(v@, pos as int, max_len as int) =~= texts(out@));
    out
}

/// The greatest length of a piece that a chat on Telegram takes.
pub const TELEGRAM_MAX_LEN: usize = 4096;

/// The greatest length of a piece that a channel on Discord takes.
pub const DISCORD_MAX_LEN: usize = 2000;

/// Cuts an answer into the pieces in which it is sent to a chat on
/// Telegram.
pub fn split_response_text(text: &str) -> (r: Vec<String>)
    ensures
        texts(r@) == pieces(text@, TELEGRAM_MAX_LEN as int),
{
    split_text(text, TELEGRAM_MAX_LEN)
}

/// The bytes that a text takes are the bytes of its characters.
pub open spec fn text_width(s: Seq<char>) -> int
    decreases s.len(),
{
    if s.len() == 0 {
        0
    } else {
        text_width(s.drop_last()) + width(s.last())
    }
}

/// What fits takes no more bytes than the budget.
pub proof fn lemma_fitting_within_budget(s: Seq<char>, from: int, budget: int)
    requires
        0 <= from <= s.len(),
        0 <= budget,
    ensures
        from <= fitting(s, from, budget) <= s.len(),
        text_width(s.subrange(from, fitting(s, from, budget))) <= budget,
    decreases s.len() - from,
{
    if from >= s.len() || width(s[from]) > budget {
        assert(s.subrange(from, from).len() == 0);
    } else {
        let rest = budget - width(s[from]);
        lemma_fitting_within_budget(s, from + 1, rest);
        let end = fitting(s, from + 1, rest);
        lemma_text_width_first(s.subrange(from, end));
        assert(s.subrange(from, end).drop_first() =~= s.subrange(from + 1, end));
    }
}

/// The bytes of a text are those of its first character and of the rest.
pub proof fn lemma_text_width_first(s: Seq<char>)
    requires
        s.len() > 0,
    ensures
        text_width(s) == width(s[0]) + text_width(s.drop_first()),
    decreases s.len(),
{
    if s.len() == 1 {
        assert(s.drop_last().len() == 0);
        assert(s.drop_first().len() == 0);
        assert(text_width(s.drop_last()) == 0);
        assert(text_width(s.drop_first()) == 0);
        assert(s.last() == s[0]);
    } else {
        let init = s.drop_last();
        let rest = s.drop_first();
        lemma_text_width_first(init);
        assert(init.drop_first() =~= rest.drop_last());
        assert(init[0] == s[0]);
        assert(rest.last() == s.last());
        assert(text_width(rest) == text_width(rest.drop_last()) + width(rest.last()));
    }
}

/// A shorter beginning of a text takes no more bytes than a longer one.
pub proof fn lemma_text_width_grows(s: Seq<char>, from: int, mid: int, to: int)
    requires
        0 <= from <= mid <= to <= s.len(),
    ensures
        0 <= text_width(s.subrange(from, mid)) <= text_width(s.subrange(from, to)),
    decreases to - mid,
{
    lemma_text_width_nonnegative(s.subrange(from, mid));
    if mid < to {
        lemma_text_width_grows(s, from, mid, to - 1);
        assert(s.subrange(from, to).drop_last() =~= s.subrange(from, to - 1));
        lemma_width_bounds(s.subrange(from, to).last());
    }
}

proof fn lemma_text_width_nonnegative(s: Seq<char>)
    ensures
        0 <= text_width(s),
    decreases s.len(),
{
    if s.len() > 0 {
        lemma_text_width_nonnegative(s.drop_last());
        lemma_width_bounds(s.last());
    }
}

/// With room for at least one character of any kind, no piece takes more
/// bytes than `max_len`.
pub proof fn lemma_piece_within_limit(s: Seq<char>, from: int, max_len: int)
    requires
        0 <= from < s.len(),
        max_len >= 4,
    ensures
        from <= piece_end(s, from, max_len) <= s.len(),
        text_width(s.subrange(from, piece_end(s, from, max_len))) <= max_len,
{
    lemma_fitting_within_budget(s, from, max_len);
    let fit = fitting(s, from, max_len);
    if fit < s.len() {
        lemma_width_bounds(s[from]);
        lemma_fitting_within_budget(s, from + 1, max_len - width(s[from]));
        assert(fit > from);
        match last_newline(s, from, fit) {
            Some(p) => {
                lemma_last_newline(s, from, fit);
                lemma_text_width_grows(s, from, p, fit);
            },
            None => {},
        }
    }
}

/// A character takes between one and four bytes.
pub proof fn lemma_width_bounds(c: char)
    ensures
        1 <= width(c) <= 4,
{
    char_is_scalar(c);
}

/// What `last_newline` returns lies in the range that was searched.
pub proof fn lemma_last_newline(s: Seq<char>, from: int, to: int)
    requires
        0 <= from <= to <= s.len(),
    ensures
        match last_newline(s, from, to) {
            Some(p) => from <= p < to && s[p] == '\n',
            None => true,
        },
    decreases to - from,
{
    if to > from && s[to - 1] != '\n' {
        lemma_last_newline(s, from, to - 1);
    }
}

/// The bytes that the characters of a text take are the bytes of the text.
pub proof fn lemma_text_width_is_byte_len(s: Seq<char>)
    ensures
        text_width(s) == encode_utf8(s).len(),
    decreases s.len(),
{
    if s.len() > 0 {
        lemma_text_width_first(s);
        lemma_text_width_is_byte_len(s.drop_first());
    }
}

proof fn lemma_pieces_from_within_limit(s: Seq<char>, from: int, max_len: int)
    requires
        0 <= from,
        max_len >= 4,
    ensures
        forall|i: int|
            0 <= i < pieces_from(s, from, max_len).len() ==> text_width(
                #[trigger] pieces_from(s, from, max_len)[i],
            ) <= max_len,
    decreases s.len() - from,
{
    if from < s.len() {
        let end = piece_end(s, from, max_len);
        let next = next_piece(s, end);
        lemma_piece_within_limit(s, from, max_len);
        if from <= end <= s.len() && next > from {
            lemma_pieces_from_within_limit(s, next, max_len);
            let first = seq![s.subrange(from, end)];
            let rest = pieces_from(s, next, max_len);
            assert forall|i: int| 0 <= i < (first + rest).len() implies text_width(
                #[trigger] (first + rest)[i],
            ) <= max_len by {
                if i > 0 {
                    assert((first + rest)[i] == rest[i - 1]);
                }
            }
        }
    }
}

/// With room for at least one character of any kind, no piece of a text
/// takes more bytes than `max_len`.
pub proof fn lemma_pieces_within_limit(s: Seq<char>, max_len: int)
    requires
        max_len >= 4,
    ensures
        forall|i: int|
            0 <= i < pieces(s, max_len).len() ==> encode_utf8(#[trigger] pieces(s, max_len)[i]).len()
                <= max_len,
{
    assert forall|i: int| 0 <= i < pieces(s, max_len).len() implies encode_utf8(
        #[trigger] pieces(s, max_len)[i],
    ).len() <= max_len by {
        lemma_text_width_is_byte_len(pieces(s, max_len)[i]);
        if fitting(s, 0, max_len) >= s.len() {
            lemma_fitting_within_budget(s, 0, max_len);
            assert(s.subrange(0, s.len() as int) =~= s);
        } else {
            lemma_pieces_from_within_limit(s, 0, max_len);
        }
    }
}

} // verus!
