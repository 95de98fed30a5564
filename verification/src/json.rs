//! Texts between quotes as they stand in a kept conversation, and the
//! reading of fixed words.

use crate::chars::{matches_at, matches_at_exec, push_char};
use vstd::prelude::*;
use vstd::string::*;

verus! {

/// The character that stands for a number below sixteen.
pub open spec fn hex_digit(d: int) -> char {
    if d == 0 {
        '0'
    } else if d == 1 {
        '1'
    } else if d == 2 {
        '2'
    } else if d == 3 {
        '3'
    } else if d == 4 {
        '4'
    } else if d == 5 {
        '5'
    } else if d == 6 {
        '6'
    } else if d == 7 {
        '7'
    } else if d == 8 {
        '8'
    } else if d == 9 {
        '9'
    } else if d == 10 {
        'a'
    } else if d == 11 {
        'b'
    } else if d == 12 {
        'c'
    } else if d == 13 {
        'd'
    } else if d == 14 {
        'e'
    } else {
        'f'
    }
}

/// The number below sixteen that a character stands for, if it stands
/// for one.
pub open spec fn hex_value(c: char) -> Option<int> {
    if c == '0' {
        Some(0)
    } else if c == '1' {
        Some(1)
    } else if c == '2' {
        Some(2)
    } else if c == '3' {
        Some(3)
    } else if c == '4' {
        Some(4)
    } else if c == '5' {
        Some(5)
    } else if c == '6' {
        Some(6)
    } else if c == '7' {
        Some(7)
    } else if c == '8' {
        Some(8)
    } else if c == '9' {
        Some(9)
    } else if c == 'a' {
        Some(10)
    } else if c == 'b' {
        Some(11)
    } else if c == 'c' {
        Some(12)
    } else if c == 'd' {
        Some(13)
    } else if c == 'e' {
        Some(14)
    } else if c == 'f' {
        Some(15)
    } else {
        None
    }
}

/// The character with a code below 32.
pub open spec fn control_char(code: int) -> char {
    (code as u8) as char
}

/// Whether the character is written as a number: a control character
/// that has no short form.
pub open spec fn written_as_code(c: char) -> bool {
    (c as u32) < 0x20 && c != '\n' && c != '\r' && c != '\t'
}

/// How a character stands between quotes.
pub open spec fn quoted_char(c: char) -> Seq<char> {
    if c == '"' {
        seq!['\\', '"']
    } else if c == '\\' {
        seq!['\\', '\\']
    } else if c == '\n' {
        seq!['\\', 'n']
    } else if c == '\r' {
        seq!['\\', 'r']
    } else if c == '\t' {
        seq!['\\', 't']
    } else if (c as u32) < 0x20 {
        seq!['\\', 'u', '0', '0', hex_digit((c as u32) as int / 16), hex_digit((c as u32) as int % 16)]
    } else {
        seq![c]
    }
}

/// How a text stands between quotes, the quotes aside.
pub open spec fn quoted_body(s: Seq<char>) -> Seq<char>
    decreases s.len(),
{
    if s.len() == 0 {
        Seq::empty()
    } else {
        quoted_char(s[0]) + quoted_body(s.drop_first())
    }
}

/// A text between quotes.
pub open spec fn quoted(s: Seq<char>) -> Seq<char> {
    seq!['"'] + quoted_body(s) + seq!['"']
}

/// The character that stands first in `s` after an opening quote, and
/// how many characters it takes; `None` where `s` begins with the
/// closing quote or with nothing that can stand between quotes.
pub open spec fn first_quoted(s: Seq<char>) -> Option<(char, int)> {
    if s.len() == 0 || s[0] == '"' || (s[0] as u32) < 0x20 {
        None
    } else if s[0] != '\\' {
        Some((s[0], 1))
    } else if s.len() < 2 {
        None
    } else if s[1] == '"' {
        Some(('"', 2))
    } else if s[1] == '\\' {
        Some(('\\', 2))
    } else if s[1] == 'n' {
        Some(('\n', 2))
    } else if s[1] == 'r' {
        Some(('\r', 2))
    } else if s[1] == 't' {
        Some(('\t', 2))
    } else if s[1] == 'u' && s.len() >= 6 && s[2] == '0' && s[3] == '0' && (s[4] == '0' || s[4]
        == '1') && hex_value(s[5]) is Some {
        let code = hex_value(s[4])->Some_0 * 16 + hex_value(s[5])->Some_0;
        if written_as_code(control_char(code)) {
            Some((control_char(code), 6))
        } else {
            None
        }
    } else {
        None
    }
}

/// The text that stands in `s` up to the closing quote, and what follows
/// that quote; `None` where there is no closing quote or something
/// stands before it that cannot stand between quotes.
pub open spec fn unquoted_body(s: Seq<char>) -> Option<(Seq<char>, Seq<char>)>
    decreases s.len(),
{
    if s.len() > 0 && s[0] == '"' {
        Some((Seq::empty(), s.skip(1)))
    } else {
        match first_quoted(s) {
            Some((c, k)) => if 0 < k <= s.len() {
                match unquoted_body(s.skip(k)) {
                    Some((t, rest)) => Some((seq![c] + t, rest)),
                    None => None,
                }
            } else {
                None
            },
            None => None,
        }
    }
}

/// The text between quotes with which `s` begins, and what follows it.
pub open spec fn unquoted(s: Seq<char>) -> Option<(Seq<char>, Seq<char>)> {
    if s.len() > 0 && s[0] == '"' {
        unquoted_body(s.skip(1))
    } else {
        None
    }
}

/// What follows the word `word` in `s`, where `s` begins with it.
pub open spec fn after_word(s: Seq<char>, word: Seq<char>) -> Option<Seq<char>> {
    if matches_at(s, word, 0) {
        Some(s.skip(word.len() as int))
    } else {
        None
    }
}

/// A text that begins with a word is read as that word.
pub proof fn lemma_after_word(word: Seq<char>, rest: Seq<char>)
    ensures
        after_word(word + rest, word) == Some(rest),
{
    assert((word + rest).subrange(0, word.len() as int) =~= word);
    assert((word + rest).skip(word.len() as int) =~= rest);
}

proof fn lemma_hex_round_trip(d: int)
    requires
        0 <= d < 16,
    ensures
        hex_value(hex_digit(d)) == Some(d),
{
}

/// What is written for a character is read as that character.
pub proof fn lemma_first_quoted(c: char, rest: Seq<char>)
    ensures
        first_quoted(quoted_char(c) + rest) == Some((c, quoted_char(c).len() as int)),
        0 < quoted_char(c).len() <= 6,
{
    let s = quoted_char(c) + rest;
    if c == '"' || c == '\\' || c == '\n' || c == '\r' || c == '\t' {
        assert(s[0] == '\\');
        assert(s[1] == quoted_char(c)[1]);
    } else if (c as u32) < 0x20 {
        let code = (c as u32) as int;
        let hi = code / 16;
        let lo = code % 16;
        assert(hi == 0 || hi == 1);
        lemma_hex_round_trip(hi);
        lemma_hex_round_trip(lo);
        assert(s[0] == '\\');
        assert(s[1] == 'u');
        assert(s[2] == '0');
        assert(s[3] == '0');
        assert(s[4] == hex_digit(hi));
        assert(s[5] == hex_digit(lo));
        assert(hi * 16 + lo == code);
        assert(control_char(code) == c) by {
            vstd::utf8::char_u32_cast(c, c as u32);
            assert((code as u8) as u32 == c as u32);
        }
    } else {
        assert(s[0] == c);
    }
}

/// What is written for a text, followed by the closing quote, is read as
/// that text, and what follows the quote is left.
pub proof fn lemma_unquoted_body(t: Seq<char>, rest: Seq<char>)
    ensures
        unquoted_body(quoted_body(t) + seq!['"'] + rest) == Some((t, rest)),
    decreases t.len(),
{
    let s = quoted_body(t) + seq!['"'] + rest;
    if t.len() == 0 {
        assert(s[0] == '"');
        assert(s.skip(1) =~= rest);
    } else {
        let head = quoted_char(t[0]);
        let tail = quoted_body(t.drop_first()) + seq!['"'] + rest;
        assert(s =~= head + tail);
        lemma_first_quoted(t[0], tail);
        assert(s[0] == head[0]);
        assert(s[0] != '"') by {
            if t[0] == '"' {
            }
        }
        assert(s.skip(head.len() as int) =~= tail);
        lemma_unquoted_body(t.drop_first(), rest);
        assert(seq![t[0]] + t.drop_first() =~= t);
    }
}

/// A text between quotes is read as that text.
pub proof fn lemma_unquoted(t: Seq<char>, rest: Seq<char>)
    ensures
        unquoted(quoted(t) + rest) == Some((t, rest)),
{
    let s = quoted(t) + rest;
    assert(s[0] == '"');
    assert(s.skip(1) =~= quoted_body(t) + seq!['"'] + rest);
    lemma_unquoted_body(t, rest);
}

fn hex_digit_of(d: u32) -> (c: char)
    requires
        d < 16,
    ensures
        c == hex_digit(d as int),
{
    if d == 0 {
        '0'
    } else if d == 1 {
        '1'
    } else if d == 2 {
        '2'
    } else if d == 3 {
        '3'
    } else if d == 4 {
        '4'
    } else if d == 5 {
        '5'
    } else if d == 6 {
        '6'
    } else if d == 7 {
        '7'
    } else if d == 8 {
        '8'
    } else if d == 9 {
        '9'
    } else if d == 10 {
        'a'
    } else if d == 11 {
        'b'
    } else if d == 12 {
        'c'
    } else if d == 13 {
        'd'
    } else if d == 14 {
        'e'
    } else {
        'f'
    }
}

fn hex_value_of(c: char) -> (r: Option<u8>)
    ensures
        match r {
            Some(d) => hex_value(c) == Some(d as int) && d < 16,
            None => hex_value(c) is None,
        },
{
    if c == '0' {
        Some(0)
    } else if c == '1' {
        Some(1)
    } else if c == '2' {
        Some(2)
    } else if c == '3' {
        Some(3)
    } else if c == '4' {
        Some(4)
    } else if c == '5' {
        Some(5)
    } else if c == '6' {
        Some(6)
    } else if c == '7' {
        Some(7)
    } else if c == '8' {
        Some(8)
    } else if c == '9' {
        Some(9)
    } else if c == 'a' {
        Some(10)
    } else if c == 'b' {
        Some(11)
    } else if c == 'c' {
        Some(12)
    } else if c == 'd' {
        Some(13)
    } else if c == 'e' {
        Some(14)
    } else if c == 'f' {
        Some(15)
    } else {
        None
    }
}

fn push_quoted_char(out: &mut String, c: char)
    ensures
        final(out)@ == old(out)@ + quoted_char(c),
{
    let code: u32 = c as u32;
    if c == '"' {
        push_char(out, '\\');
        push_char(out, '"');
    } else if c == '\\' {
        push_char(out, '\\');
        push_char(out, '\\');
    } else if c == '\n' {
        push_char(out, '\\');
        push_char(out, 'n');
    } else if c == '\r' {
        push_char(out, '\\');
        push_char(out, 'r');
    } else if c == '\t' {
        push_char(out, '\\');
        push_char(out, 't');
    } else if code < 0x20 {
        push_char(out, '\\');
        push_char(out, 'u');
        push_char(out, '0');
        push_char(out, '0');
        push_char(out, hex_digit_of(code / 16));
        push_char(out, hex_digit_of(code % 16));
    } else {
        push_char(out, c);
    }
    assert(out@ =~= old(out)@ + quoted_char(c));
}

/// Appends a text between quotes to `out`.
pub fn push_quoted(out: &mut String, s: &str)
    ensures
        final(out)@ == old(out)@ + quoted(s@),
{
    let v = crate::chars::to_chars(s);
    push_char(out, '"');
    let ghost start = out@;
    let mut i: usize = 0;
    assert(v@.skip(0) =~= v@);
    assert(start + quoted_body(v@) =~= out@ + quoted_body(v@.skip(0)));
    while i < v.len()
        invariant
            i <= v.len(),
            start + quoted_body(v@) == out@ + quoted_body(v@.skip(i as int)),
        decreases v.len() - i,
    {
        let ghost before = out@;
        let ghost rest = v@.skip(i as int);
        assert(rest[0] == v@[i as int]);
        assert(rest.drop_first() =~= v@.skip(i + 1));
        push_quoted_char(out, v[i]);
        assert(out@ + quoted_body(v@.skip(i + 1)) =~= before + quoted_body(rest));
        i += 1;
    }
    assert(quoted_body(v@.skip(v.len() as int)) =~= Seq::<char>::empty());
    assert(out@ =~= start + quoted_body(v@));
    push_char(out, '"');
    assert(out@ =~= old(out)@ + quoted(s@));
}

/// Reads the word `word` at position `pos`: the position after it, or
/// `None` where something else stands there.
pub fn read_word(v: &Vec<char>, pos: usize, word: &str) -> (r: Option<usize>)
    requires
        pos <= v.len(),
    ensures
        match r {
            Some(next) => after_word(v@.skip(pos as int), word@) == Some(v@.skip(next as int))
                && next == pos + word@.len() && next <= v.len(),
            None => after_word(v@.skip(pos as int), word@) is None,
        },
{
    let w = crate::chars::to_chars(word);
    let found = matches_at_exec(v, &w, pos);
    proof {
        let s = v@.skip(pos as int);
        if pos + w.len() <= v.len() {
            assert(s.subrange(0, w.len() as int) =~= v@.subrange(pos as int, pos + w.len()));
            assert(s.skip(w.len() as int) =~= v@.skip(pos + w.len()));
        }
    }
    if found {
        Some(pos + w.len())
    } else {
        None
    }
}

fn read_first_quoted(v: &Vec<char>, pos: usize) -> (r: Option<(char, usize)>)
    requires
        pos <= v.len(),
    ensures
        match r {
            Some((c, k)) => first_quoted(v@.skip(pos as int)) == Some((c, k as int)) && 0 < k
                && pos + k <= v.len(),
            None => first_quoted(v@.skip(pos as int)) is None,
        },
{
    let ghost s = v@.skip(pos as int);
    let n = v.len() - pos;
    if n == 0 {
        return None;
    }
    assert(s[0] == v@[pos as int]);
    let c = v[pos];
    if c == '"' || (c as u32) < 0x20 {
        return None;
    }
    if c != '\\' {
        return Some((c, 1));
    }
    if n < 2 {
        return None;
    }
    assert(s[1] == v@[pos + 1]);
    let e = v[pos + 1];
    if e == '"' {
        Some(('"', 2))
    } else if e == '\\' {
        Some(('\\', 2))
    } else if e == 'n' {
        Some(('\n', 2))
    } else if e == 'r' {
        Some(('\r', 2))
    } else if e == 't' {
        Some(('\t', 2))
    } else if e == 'u' && n >= 6 {
        assert(s[2] == v@[pos + 2]);
        assert(s[3] == v@[pos + 3]);
        assert(s[4] == v@[pos + 4]);
        assert(s[5] == v@[pos + 5]);
        if v[pos + 2] == '0' && v[pos + 3] == '0' && (v[pos + 4] == '0' || v[pos + 4] == '1') {
            let hi: u8 = if v[pos + 4] == '0' {
                0
            } else {
                1
            };
            match hex_value_of(v[pos + 5]) {
                Some(lo) => {
                    let code: u8 = hi * 16 + lo;
                    let ch = code as char;
                    if ch != '\n' && ch != '\r' && ch != '\t' {
                        Some((ch, 6))
                    } else {
                        None
                    }
                },
                None => None,
            }
        } else {
            None
        }
    } else {
        None
    }
}

/// Reads a text between quotes at position `pos`: the text and the
/// position after the closing quote, or `None` where none stands there.
pub fn read_quoted(v: &Vec<char>, pos: usize) -> (r: Option<(String, usize)>)
    requires
        pos <= v.len(),
    ensures
        match r {
            Some((t, next)) => unquoted(v@.skip(pos as int)) == Some((t@, v@.skip(next as int)))
                && pos < next <= v.len(),
            None => unquoted(v@.skip(pos as int)) is None,
        },
{
    if pos >= v.len() || v[pos] != '"' {
        assert(pos < v.len() ==> v@.skip(pos as int)[0] == v@[pos as int]);
        return None;
    }
    assert(v@.skip(pos as int)[0] == v@[pos as int]);
    assert(v@.skip(pos as int).skip(1) =~= v@.skip(pos + 1));
    let mut out = String::new();
    let mut i: usize = pos + 1;
    let ghost whole = unquoted_body(v@.skip(pos + 1));
    assert(out@ + Seq::<char>::empty() =~= out@);
    loop
        invariant
            pos < i <= v.len(),
            whole == unquoted(v@.skip(pos as int)),
            whole == (match unquoted_body(v@.skip(i as int)) {
                Some((t, rest)) => Some((out@ + t, rest)),
                None => None,
            }),
        decreases v.len() - i,
    {
        let ghost s = v@.skip(i as int);
        if i < v.len() && v[i] == '"' {
            assert(s[0] == v@[i as int]);
            assert(s.skip(1) =~= v@.skip(i + 1));
            assert(out@ + Seq::<char>::empty() =~= out@);
            return Some((out, i + 1));
        }
        assert(i < v.len() ==> s[0] == v@[i as int]);
        match read_first_quoted(v, i) {
            None => {
                return None;
            },
            Some((c, k)) => {
                let ghost before = out@;
                push_char(&mut out, c);
                assert(s.skip(k as int) =~= v@.skip(i + k));
                proof {
                    match unquoted_body(v@.skip(i + k)) {
                        Some((t, rest)) => {
                            assert(before + (seq![c] + t) =~= out@ + t);
                        },
                        None => {},
                    }
                }
                i += k;
            },
        }
    }
}

} // verus!
