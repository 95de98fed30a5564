//! Text as the engine handles it: cuts on character boundaries, bounded
//! previews, escaped markup, wrapped user messages and hidden reasoning.

use crate::chars::{
    extend_chars, find_from, find_from_exec, from_chars, lemma_find_from, push_char, to_chars, trim,
    trim_bounds,
};
use vstd::prelude::*;
use vstd::string::*;
use vstd::utf8::*;

verus! {

/// Number of bytes that the text `s` occupies.
pub open spec fn byte_len(s: Seq<char>) -> int {
    encode_utf8(s).len() as int
}

/// The byte offset `i` is a position at which `s` can be cut without
/// splitting a character.
pub open spec fn boundary(s: Seq<char>, i: int) -> bool {
    is_char_boundary(encode_utf8(s), i)
}

/// Largest cut position of `s` that does not exceed `index`; the whole
/// byte length when `index` lies at or beyond the end.
pub open spec fn floor_boundary(s: Seq<char>, index: int) -> int
    decreases index,
{
    if index >= byte_len(s) {
        byte_len(s)
    } else if index <= 0 || boundary(s, index) {
        index
    } else {
        floor_boundary(s, index - 1)
    }
}

/// Largest cut position of `s` that does not exceed `index`; the whole
/// length when `index` lies at or beyond the end.
pub fn floor_char_boundary(s: &str, index: usize) -> (r: usize)
    ensures
        r as int == floor_boundary(s@, index as int),
{
    let len = s.as_bytes().len();
    if index >= len {
        return len;
    }
    let mut i: usize = index;
    while i > 0 && !s.is_char_boundary(i)
        invariant
            i <= index < len,
            len == byte_len(s@),
            floor_boundary(s@, index as int) == floor_boundary(s@, i as int),
        decreases i,
    {
        i -= 1;
    }
    i
}

/// The result of `floor_boundary` is a cut position, lies within the text,
/// does not exceed the requested offset, and no cut position lies between
/// the two.
pub proof fn lemma_floor_boundary(s: Seq<char>, index: int)
    requires
        0 <= index,
    ensures
        0 <= floor_boundary(s, index) <= byte_len(s),
        floor_boundary(s, index) <= index,
        boundary(s, floor_boundary(s, index)),
        forall|j: int|
            floor_boundary(s, index) < j <= index && j <= byte_len(s) ==> !boundary(s, j),
    decreases index,
{
    broadcast use encode_utf8_valid_utf8;

    is_char_boundary_start_end_of_seq(encode_utf8(s));
    if index >= byte_len(s) {
    } else if index <= 0 || boundary(s, index) {
    } else {
        lemma_floor_boundary(s, index - 1);
    }
}

/// The first `n` bytes of `s`, read as text.
pub open spec fn byte_prefix(s: Seq<char>, n: int) -> Seq<char> {
    decode_utf8(encode_utf8(s).subrange(0, n))
}

/// Cutting a text at `floor_boundary` keeps whole characters: the bytes kept
/// are the first bytes of the text, and the characters kept are its first
/// characters.
pub proof fn lemma_cut_keeps_whole_chars(s: Seq<char>, index: int)
    requires
        0 <= index,
    ensures
        boundary(s, floor_boundary(s, index)),
        encode_utf8(byte_prefix(s, floor_boundary(s, index))) == encode_utf8(s).subrange(
            0,
            floor_boundary(s, index),
        ),
        byte_prefix(s, floor_boundary(s, index)).len() <= s.len(),
        byte_prefix(s, floor_boundary(s, index)) == s.take(
            byte_prefix(s, floor_boundary(s, index)).len() as int,
        ),
{
    broadcast use group_utf8_lib;

    lemma_floor_boundary(s, index);
    let bytes = encode_utf8(s);
    let cut = floor_boundary(s, index);
    let head = bytes.subrange(0, cut);
    let tail = bytes.subrange(cut, bytes.len() as int);
    valid_utf8_split(bytes, cut);
    decode_utf8_split(bytes, cut);
    assert(decode_utf8(bytes) == s);
    assert(s =~= decode_utf8(head) + decode_utf8(tail));
    assert(encode_utf8(decode_utf8(head)) == head);
    assert(decode_utf8(head) =~= s.take(decode_utf8(head).len() as int));
}

/// `s` as it is when it fits in `limit` bytes; otherwise its longest prefix
/// of whole characters within `limit` bytes, followed by `marker`.
pub open spec fn clipped(s: Seq<char>, limit: int, marker: Seq<char>) -> Seq<char> {
    if byte_len(s) > limit {
        byte_prefix(s, floor_boundary(s, limit)) + marker
    } else {
        s
    }
}

/// Cuts `s` down to `limit` bytes on a character boundary and appends
/// `marker`, or returns `s` unchanged when it is short enough.
pub fn clip_bytes(s: &str, limit: usize, marker: &str) -> (r: String)
    ensures
        r@ == clipped(s@, limit as int, marker@),
{
    broadcast use group_utf8_lib;

    if s.as_bytes().len() > limit {
        let cut = floor_char_boundary(s, limit);
        proof {
            lemma_floor_boundary(s@, limit as int);
        }
        let (head, _tail) = s.split_at(cut);
        assert(head@ == decode_utf8(encode_utf8(head@)));
        let mut r = head.to_owned();
        r.append(marker);
        r
    } else {
        s.to_owned()
    }
}

/// `s` as it is when it has at most `limit` characters; otherwise its first
/// `limit` characters followed by `marker`.
pub open spec fn preview_of(s: Seq<char>, limit: int, marker: Seq<char>) -> Seq<char> {
    if s.len() > limit {
        s.take(limit) + marker
    } else {
        s
    }
}

/// Cuts `s` down to `limit` characters and appends `marker`, or returns `s`
/// unchanged when it is short enough.
pub fn clip_chars(s: &str, limit: usize, marker: &str) -> (r: String)
    ensures
        r@ == preview_of(s@, limit as int, marker@),
{
    let v = to_chars(s);
    if v.len() > limit {
        let mut r = from_chars(&v, 0, limit);
        r.append(marker);
        r
    } else {
        s.to_owned()
    }
}

/// What stands for the character `c` in escaped markup. The apostrophe is
/// replaced only when `with_apos` is set.
pub open spec fn entity(c: char, with_apos: bool) -> Seq<char> {
    if c == '&' {
        "&amp;"@
    } else if c == '<' {
        "&lt;"@
    } else if c == '>' {
        "&gt;"@
    } else if c == '"' {
        "&quot;"@
    } else if c == '\'' && with_apos {
        "&apos;"@
    } else {
        seq![c]
    }
}

/// `s` with each markup character replaced by its entity.
pub open spec fn escaped(s: Seq<char>, with_apos: bool) -> Seq<char>
    decreases s.len(),
{
    if s.len() == 0 {
        Seq::empty()
    } else {
        escaped(s.drop_last(), with_apos) + entity(s.last(), with_apos)
    }
}

/// Appends to `out` the text `s` with its markup characters escaped.
pub fn push_escaped(out: &mut String, s: &str, with_apos: bool)
    ensures
        final(out)@ == old(out)@ + escaped(s@, with_apos),
{
    let v = to_chars(s);
    let mut i: usize = 0;
    while i < v.len()
        invariant
            i <= v.len(),
            v@ == s@,
            out@ == old(out)@ + escaped(v@.take(i as int), with_apos),
        decreases v.len() - i,
    {
        let c = v[i];
        proof {
            assert(v@.take(i + 1).drop_last() =~= v@.take(i as int));
            assert(v@.take(i + 1).last() == c);
        }
        let ghost before = out@;
        if c == '&' {
            out.append("&amp;");
        } else if c == '<' {
            out.append("&lt;");
        } else if c == '>' {
            out.append("&gt;");
        } else if c == '"' {
            out.append("&quot;");
        } else if c == '\'' && with_apos {
            out.append("&apos;");
        } else {
            push_char(out, c);
            assert(before.push(c) =~= before + seq![c]);
        }
        assert(out@ =~= old(out)@ + escaped(v@.take(i + 1), with_apos));
        i += 1;
    }
    assert(v@.take(v.len() as int) =~= v@);
}

/// Escapes the four markup characters `& < > "` of text that a user
/// supplied, so that it cannot leave the element it is wrapped in.
pub fn sanitize_xml(s: &str) -> (r: String)
    ensures
        r@ == escaped(s@, false),
{
    let mut r = String::new();
    push_escaped(&mut r, s, false);
    assert(r@ =~= escaped(s@, false));
    r
}

/// A user's message wrapped in its delimiting element.
pub open spec fn user_message(sender: Seq<char>, content: Seq<char>) -> Seq<char> {
    "<user_message sender=\""@ + escaped(sender, false) + "\">"@ + escaped(content, false)
        + "</user_message>"@
}

/// Wraps what a user wrote in an element that names the sender, with both
/// the name and the content escaped.
pub fn format_user_message(sender_name: &str, content: &str) -> (r: String)
    ensures
        r@ == user_message(sender_name@, content@),
{
    let mut r = String::new();
    r.append("<user_message sender=\"");
    push_escaped(&mut r, sender_name, false);
    r.append("\">");
    push_escaped(&mut r, content, false);
    r.append("</user_message>");
    assert(r@ =~= user_message(sender_name@, content@));
    r
}

/// A text that holds none of `<`, `>` and `"`.
pub open spec fn inert(s: Seq<char>) -> bool {
    forall|i: int| 0 <= i < s.len() ==> s[i] != '<' && s[i] != '>' && s[i] != '"'
}

/// Escaped text holds none of `<`, `>` and `"`, whatever was escaped.
pub proof fn lemma_escaped_is_inert(s: Seq<char>, with_apos: bool)
    ensures
        inert(escaped(s, with_apos)),
    decreases s.len(),
{
    reveal_strlit("&amp;");
    reveal_strlit("&lt;");
    reveal_strlit("&gt;");
    reveal_strlit("&quot;");
    reveal_strlit("&apos;");
    if s.len() > 0 {
        lemma_escaped_is_inert(s.drop_last(), with_apos);
        let head = escaped(s.drop_last(), with_apos);
        let tail = entity(s.last(), with_apos);
        assert(inert(tail));
        assert forall|i: int| 0 <= i < (head + tail).len() implies (head + tail)[i] != '<' && (
        head + tail)[i] != '>' && (head + tail)[i] != '"' by {
            if i < head.len() {
                assert((head + tail)[i] == head[i]);
            } else {
                assert((head + tail)[i] == tail[i - head.len()]);
            }
        }
    }
}

/// What a user supplies can neither end the sender's name nor close the
/// element: in a wrapped message the name runs up to the first double
/// quote after the opening, the content up to the first `<` after the
/// name, and what follows the content is the closing tag.
pub proof fn lemma_user_message_is_tamper_proof(sender: Seq<char>, content: Seq<char>)
    ensures
        ({
            let m = user_message(sender, content);
            let a = "<user_message sender=\""@.len() as int;
            let b = a + escaped(sender, false).len();
            let c = b + 2 + escaped(content, false).len();
            &&& m.len() == c + "</user_message>"@.len()
            &&& m.subrange(0, a) == "<user_message sender=\""@
            &&& m.subrange(a, b) == escaped(sender, false)
            &&& forall|i: int| a <= i < b ==> m[i] != '"'
            &&& m[b] == '"'
            &&& m[b + 1] == '>'
            &&& m.subrange(b + 2, c) == escaped(content, false)
            &&& forall|i: int| b + 2 <= i < c ==> m[i] != '<'
            &&& m.subrange(c, m.len() as int) == "</user_message>"@
        }),
{
    reveal_strlit("<user_message sender=\"");
    reveal_strlit("\">");
    reveal_strlit("</user_message>");
    lemma_escaped_is_inert(sender, false);
    lemma_escaped_is_inert(content, false);
    let open = "<user_message sender=\""@;
    let name = escaped(sender, false);
    let mid = "\">"@;
    let body = escaped(content, false);
    let close = "</user_message>"@;
    let m = user_message(sender, content);
    let a = open.len() as int;
    let b = a + name.len();
    let c = b + 2 + body.len();
    assert(m =~= open + name + mid + body + close);
    assert(m.subrange(0, a) =~= open);
    assert(m.subrange(a, b) =~= name);
    assert(m.subrange(b + 2, c) =~= body);
    assert(m.subrange(c, m.len() as int) =~= close);
    assert forall|i: int| a <= i < b implies m[i] != '"' by {
        assert(m[i] == name[i - a]);
    }
    assert forall|i: int| b + 2 <= i < c implies m[i] != '<' by {
        assert(m[i] == body[i - b - 2]);
    }
    assert(m[b] == mid[0]);
    assert(m[b + 1] == mid[1]);
}

/// What is left of `s` from position `pos` on once every span of internal
/// reasoning is taken out: the text from an opening `<think>` up to and
/// including the next `</think>`, or up to the end where none follows.
pub open spec fn strip_spans_from(s: Seq<char>, pos: int) -> Seq<char>
    decreases s.len() - pos,
{
    if pos < 0 || pos > s.len() {
        Seq::empty()
    } else {
        match find_from(s, "<think>"@, pos) {
            None => s.subrange(pos, s.len() as int),
            Some(start) => s.subrange(pos, start) + match find_from(s, "</think>"@, start) {
                None => Seq::empty(),
                Some(end) => {
                    let next = end + "</think>"@.len();
                    if pos < next <= s.len() {
                        strip_spans_from(s, next)
                    } else {
                        Seq::empty()
                    }
                },
            },
        }
    }
}

/// The text that is shown in place of `s` when internal reasoning is hidden.
pub open spec fn without_thinking(s: Seq<char>) -> Seq<char> {
    trim(strip_spans_from(s, 0))
}

/// Removes every `<think>...</think>` span from a model's output, an
/// unterminated one up to the end of the text, and trims the result.
pub fn strip_thinking(text: &str) -> (r: String)
    ensures
        r@ == without_thinking(text@),
{
    let v = to_chars(text);
    let open = to_chars("<think>");
    let close = to_chars("</think>");
    let mut out: Vec<char> = Vec::new();
    let mut pos: usize = 0;
    let mut done = false;
    while !done
        invariant
            pos <= v.len(),
            open@ == "<think>"@,
            close@ == "</think>"@,
            !done ==> strip_spans_from(v@, 0) == out@ + strip_spans_from(v@, pos as int),
            done ==> strip_spans_from(v@, 0) == out@,
        decreases v.len() - pos + (if done { 0int } else { 1int }),
    {
        let ghost before = out@;
        match find_from_exec(&v, &open, pos) {
            None => {
                extend_chars(&mut out, &v, pos, v.len());
                done = true;
            },
            Some(start) => {
                proof {
                    lemma_find_from(v@, open@, pos as int);
                }
                extend_chars(&mut out, &v, pos, start);
                match find_from_exec(&v, &close, start) {
                    None => {
                        assert(out@ =~= before + (v@.subrange(pos as int, start as int)
                            + Seq::<char>::empty()));
                        done = true;
                    },
                    Some(end) => {
                        proof {
                            reveal_strlit("</think>");
                            lemma_find_from(v@, close@, start as int);
                        }
                        let next = end + close.len();
                        assert(out@ + strip_spans_from(v@, next as int) =~= before + (
                        v@.subrange(pos as int, start as int) + strip_spans_from(
                            v@,
                            next as int,
                        )));
                        pos = next;
                    },
                }
            },
        }
    }
    let (lo, hi) = trim_bounds(&out, 0, out.len());
    assert(out@.subrange(0, out.len() as int) =~= out@);
    from_chars(&out, lo, hi)
}

/// Where a `<think>` opens and no `</think>` follows it, everything from
/// the opening on is removed.
pub proof fn lemma_unterminated_think(s: Seq<char>, start: int)
    requires
        find_from(s, "<think>"@, 0) == Some(start),
        find_from(s, "</think>"@, start) is None,
    ensures
        strip_spans_from(s, 0) == s.take(start),
        without_thinking(s) == trim(s.take(start)),
{
    assert(strip_spans_from(s, 0) =~= s.take(start));
}

} // verus!
