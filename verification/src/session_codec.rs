//! The form in which a conversation is kept between turns, and the
//! reading of it.

use crate::json::{
    after_word, lemma_after_word, lemma_unquoted, push_quoted, quoted, read_quoted, read_word,
    unquoted,
};
use crate::message::{
    block_views, views, BlockView, ContentBlock, ContentView, ImageSource, ImageSourceView,
    Message, MessageContent, MessageView, Role,
};
use vstd::prelude::*;
use vstd::string::*;

verus! {

/// How a block of plain text begins.
pub const W_TEXT: &'static str = "{\"type\":\"text\",\"text\":";

/// How a block with an image begins.
pub const W_IMAGE: &'static str = "{\"type\":\"image\",\"source\":{\"type\":";

/// What stands before the media type of an image.
pub const W_MEDIA: &'static str = ",\"media_type\":";

/// What stands before the data of an image.
pub const W_DATA: &'static str = ",\"data\":";

/// How a block with an image ends.
pub const W_IMAGE_END: &'static str = "}}";

/// How a block with a tool call begins.
pub const W_TOOL_USE: &'static str = "{\"type\":\"tool_use\",\"id\":";

/// What stands before the name of a tool.
pub const W_NAME: &'static str = ",\"name\":";

/// What stands before the input of a tool.
pub const W_INPUT: &'static str = ",\"input\":";

/// How a block with a tool's result begins.
pub const W_TOOL_RESULT: &'static str = "{\"type\":\"tool_result\",\"tool_use_id\":";

/// What stands before the content of a tool's result.
pub const W_CONTENT: &'static str = ",\"content\":";

/// How a tool's result ends that is marked as an error.
pub const W_ERROR_TRUE: &'static str = ",\"is_error\":true}";

/// How a tool's result ends that is marked as no error.
pub const W_ERROR_FALSE: &'static str = ",\"is_error\":false}";

/// How a block or a message ends.
pub const W_END: &'static str = "}";

/// How a message of the user begins.
pub const W_USER: &'static str = "{\"role\":\"user\",\"content\":";

/// How a message of the assistant begins.
pub const W_ASSISTANT: &'static str = "{\"role\":\"assistant\",\"content\":";

/// How a tool's result ends, for each way of marking it.
pub open spec fn error_mark(is_error: Option<bool>) -> Seq<char> {
    match is_error {
        None => W_END@,
        Some(true) => W_ERROR_TRUE@,
        Some(false) => W_ERROR_FALSE@,
    }
}

/// A block as it is kept.
#[verifier::opaque]
pub open spec fn block_json(b: BlockView) -> Seq<char> {
    match b {
        BlockView::Text { text } => W_TEXT@ + quoted(text) + W_END@,
        BlockView::Image { source } => W_IMAGE@ + quoted(source.source_type) + W_MEDIA@ + quoted(
            source.media_type,
        ) + W_DATA@ + quoted(source.data) + W_IMAGE_END@,
        BlockView::ToolUse { id, name, input } => W_TOOL_USE@ + quoted(id) + W_NAME@ + quoted(name)
            + W_INPUT@ + quoted(input) + W_END@,
        BlockView::ToolResult { tool_use_id, content, is_error } => W_TOOL_RESULT@ + quoted(
            tool_use_id,
        ) + W_CONTENT@ + quoted(content) + error_mark(is_error),
    }
}

/// The text between quotes that follows the word `word`, and what follows
/// it.
pub open spec fn word_then_quoted(s: Seq<char>, word: Seq<char>) -> Option<(Seq<char>, Seq<char>)> {
    match after_word(s, word) {
        Some(r) => unquoted(r),
        None => None,
    }
}

/// The block of plain text with which `s` begins, and what follows it.
pub open spec fn text_block_of(s: Seq<char>) -> Option<(BlockView, Seq<char>)> {
    match word_then_quoted(s, W_TEXT@) {
        Some((text, r)) => match after_word(r, W_END@) {
            Some(rest) => Some((BlockView::Text { text }, rest)),
            None => None,
        },
        None => None,
    }
}

/// The block with an image with which `s` begins, and what follows it.
pub open spec fn image_block_of(s: Seq<char>) -> Option<(BlockView, Seq<char>)> {
    match word_then_quoted(s, W_IMAGE@) {
        Some((source_type, r1)) => match word_then_quoted(r1, W_MEDIA@) {
            Some((media_type, r2)) => match word_then_quoted(r2, W_DATA@) {
                Some((data, r3)) => match after_word(r3, W_IMAGE_END@) {
                    Some(rest) => Some(
                        (
                            BlockView::Image {
                                source: ImageSourceView { source_type, media_type, data },
                            },
                            rest,
                        ),
                    ),
                    None => None,
                },
                None => None,
            },
            None => None,
        },
        None => None,
    }
}

/// The block with a tool call with which `s` begins, and what follows it.
pub open spec fn tool_use_block_of(s: Seq<char>) -> Option<(BlockView, Seq<char>)> {
    match word_then_quoted(s, W_TOOL_USE@) {
        Some((id, r1)) => match word_then_quoted(r1, W_NAME@) {
            Some((name, r2)) => match word_then_quoted(r2, W_INPUT@) {
                Some((input, r3)) => match after_word(r3, W_END@) {
                    Some(rest) => Some((BlockView::ToolUse { id, name, input }, rest)),
                    None => None,
                },
                None => None,
            },
            None => None,
        },
        None => None,
    }
}

/// How the tool's result is marked whose end stands at the beginning of
/// `s`, and what follows it.
pub open spec fn error_mark_of(s: Seq<char>) -> Option<(Option<bool>, Seq<char>)> {
    match after_word(s, W_END@) {
        Some(rest) => Some((None, rest)),
        None => match after_word(s, W_ERROR_TRUE@) {
            Some(rest) => Some((Some(true), rest)),
            None => match after_word(s, W_ERROR_FALSE@) {
                Some(rest) => Some((Some(false), rest)),
                None => None,
            },
        },
    }
}

/// The block with a tool's result with which `s` begins, and what
/// follows it.
pub open spec fn tool_result_block_of(s: Seq<char>) -> Option<(BlockView, Seq<char>)> {
    match word_then_quoted(s, W_TOOL_RESULT@) {
        Some((tool_use_id, r1)) => match word_then_quoted(r1, W_CONTENT@) {
            Some((content, r2)) => match error_mark_of(r2) {
                Some((is_error, rest)) => Some(
                    (BlockView::ToolResult { tool_use_id, content, is_error }, rest),
                ),
                None => None,
            },
            None => None,
        },
        None => None,
    }
}

/// The block with which `s` begins, and what follows it.
#[verifier::opaque]
pub open spec fn block_of(s: Seq<char>) -> Option<(BlockView, Seq<char>)> {
    if after_word(s, W_TEXT@) is Some {
        text_block_of(s)
    } else if after_word(s, W_IMAGE@) is Some {
        image_block_of(s)
    } else if after_word(s, W_TOOL_USE@) is Some {
        tool_use_block_of(s)
    } else {
        tool_result_block_of(s)
    }
}

/// The blocks after the first as they are kept, up to the end of the list.
pub open spec fn more_blocks_json(bs: Seq<BlockView>) -> Seq<char>
    decreases bs.len(),
{
    if bs.len() == 0 {
        seq![']']
    } else {
        seq![','] + block_json(bs[0]) + more_blocks_json(bs.drop_first())
    }
}

/// A list of blocks as it is kept.
pub open spec fn blocks_json(bs: Seq<BlockView>) -> Seq<char> {
    if bs.len() == 0 {
        seq!['[', ']']
    } else {
        seq!['['] + block_json(bs[0]) + more_blocks_json(bs.drop_first())
    }
}

/// The blocks that follow in `s` up to the end of the list, and what
/// follows the list.
pub open spec fn more_blocks_of(s: Seq<char>) -> Option<(Seq<BlockView>, Seq<char>)>
    decreases s.len(),
{
    if s.len() == 0 {
        None
    } else if s[0] == ']' {
        Some((Seq::empty(), s.skip(1)))
    } else if s[0] == ',' {
        match block_of(s.skip(1)) {
            Some((b, r)) => if r.len() < s.len() {
                match more_blocks_of(r) {
                    Some((bs, rest)) => Some((seq![b] + bs, rest)),
                    None => None,
                }
            } else {
                None
            },
            None => None,
        }
    } else {
        None
    }
}

/// The list of blocks with which `s` begins, and what follows it.
pub open spec fn blocks_of(s: Seq<char>) -> Option<(Seq<BlockView>, Seq<char>)> {
    if s.len() < 2 || s[0] != '[' {
        None
    } else if s[1] == ']' {
        Some((Seq::empty(), s.skip(2)))
    } else {
        match block_of(s.skip(1)) {
            Some((b, r)) => match more_blocks_of(r) {
                Some((bs, rest)) => Some((seq![b] + bs, rest)),
                None => None,
            },
            None => None,
        }
    }
}

/// What a message says as it is kept.
pub open spec fn content_json(c: ContentView) -> Seq<char> {
    match c {
        ContentView::Text(t) => quoted(t),
        ContentView::Blocks(bs) => blocks_json(bs),
    }
}

/// What the message says whose content stands at the beginning of `s`,
/// and what follows it.
pub open spec fn content_of(s: Seq<char>) -> Option<(ContentView, Seq<char>)> {
    if s.len() > 0 && s[0] == '"' {
        match unquoted(s) {
            Some((t, rest)) => Some((ContentView::Text(t), rest)),
            None => None,
        }
    } else {
        match blocks_of(s) {
            Some((bs, rest)) => Some((ContentView::Blocks(bs), rest)),
            None => None,
        }
    }
}

/// How a message begins, for each role.
pub open spec fn role_word(role: Role) -> Seq<char> {
    match role {
        Role::User => W_USER@,
        Role::Assistant => W_ASSISTANT@,
    }
}

/// A message as it is kept.
#[verifier::opaque]
pub open spec fn message_json(m: MessageView) -> Seq<char> {
    role_word(m.role) + content_json(m.content) + W_END@
}

/// The message with which `s` begins, and what follows it.
#[verifier::opaque]
pub open spec fn message_of(s: Seq<char>) -> Option<(MessageView, Seq<char>)> {
    let begun = match after_word(s, W_USER@) {
        Some(r) => Some((Role::User, r)),
        None => match after_word(s, W_ASSISTANT@) {
            Some(r) => Some((Role::Assistant, r)),
            None => None,
        },
    };
    match begun {
        Some((role, r)) => match content_of(r) {
            Some((content, r2)) => match after_word(r2, W_END@) {
                Some(rest) => Some((MessageView { role, content }, rest)),
                None => None,
            },
            None => None,
        },
        None => None,
    }
}

/// The messages after the first as they are kept, up to the end of the
/// list.
pub open spec fn more_messages_json(ms: Seq<MessageView>) -> Seq<char>
    decreases ms.len(),
{
    if ms.len() == 0 {
        seq![']']
    } else {
        seq![','] + message_json(ms[0]) + more_messages_json(ms.drop_first())
    }
}

/// A conversation as it is kept.
pub open spec fn session_json(ms: Seq<MessageView>) -> Seq<char> {
    if ms.len() == 0 {
        seq!['[', ']']
    } else {
        seq!['['] + message_json(ms[0]) + more_messages_json(ms.drop_first())
    }
}

/// The messages that follow in `s` up to the end of the list, and what
/// follows the list.
pub open spec fn more_messages_of(s: Seq<char>) -> Option<(Seq<MessageView>, Seq<char>)>
    decreases s.len(),
{
    if s.len() == 0 {
        None
    } else if s[0] == ']' {
        Some((Seq::empty(), s.skip(1)))
    } else if s[0] == ',' {
        match message_of(s.skip(1)) {
            Some((m, r)) => if r.len() < s.len() {
                match more_messages_of(r) {
                    Some((ms, rest)) => Some((seq![m] + ms, rest)),
                    None => None,
                }
            } else {
                None
            },
            None => None,
        }
    } else {
        None
    }
}

/// The conversation that a text holds: `None` where the text is not what
/// is written for a conversation.
pub open spec fn session_of(s: Seq<char>) -> Option<Seq<MessageView>> {
    if s.len() < 2 || s[0] != '[' {
        None
    } else if s[1] == ']' {
        if s.len() == 2 {
            Some(Seq::empty())
        } else {
            None
        }
    } else {
        match message_of(s.skip(1)) {
            Some((m, r)) => match more_messages_of(r) {
                Some((ms, rest)) => if rest.len() == 0 {
                    Some(seq![m] + ms)
                } else {
                    None
                },
                None => None,
            },
            None => None,
        }
    }
}

proof fn lemma_words()
    ensures
        W_END@.len() == 1 && W_END@[0] == '}',
        W_TEXT@.len() > 10 && W_TEXT@[0] == '{' && W_TEXT@[9] == 't' && W_TEXT@[10] == 'e',
        W_IMAGE@.len() > 10 && W_IMAGE@[0] == '{' && W_IMAGE@[9] == 'i',
        W_TOOL_USE@.len() > 14 && W_TOOL_USE@[0] == '{' && W_TOOL_USE@[9] == 't'
            && W_TOOL_USE@[10] == 'o' && W_TOOL_USE@[14] == 'u',
        W_TOOL_RESULT@.len() > 14 && W_TOOL_RESULT@[0] == '{' && W_TOOL_RESULT@[9] == 't'
            && W_TOOL_RESULT@[10] == 'o' && W_TOOL_RESULT@[14] == 'r',
        W_ERROR_TRUE@.len() > 12 && W_ERROR_TRUE@[0] == ',' && W_ERROR_TRUE@[12] == 't',
        W_ERROR_FALSE@.len() > 12 && W_ERROR_FALSE@[0] == ',' && W_ERROR_FALSE@[12] == 'f',
        W_USER@.len() > 9 && W_USER@[0] == '{' && W_USER@[9] == 'u',
        W_ASSISTANT@.len() > 9 && W_ASSISTANT@[0] == '{' && W_ASSISTANT@[9] == 'a',
{
    reveal_strlit("}");
    reveal_strlit("{\"type\":\"text\",\"text\":");
    reveal_strlit("{\"type\":\"image\",\"source\":{\"type\":");
    reveal_strlit("{\"type\":\"tool_use\",\"id\":");
    reveal_strlit("{\"type\":\"tool_result\",\"tool_use_id\":");
    reveal_strlit(",\"is_error\":true}");
    reveal_strlit(",\"is_error\":false}");
    reveal_strlit("{\"role\":\"user\",\"content\":");
    reveal_strlit("{\"role\":\"assistant\",\"content\":");
}

proof fn lemma_word_mismatch(s: Seq<char>, word: Seq<char>, i: int)
    requires
        0 <= i < word.len(),
        i < s.len() ==> s[i] != word[i],
    ensures
        after_word(s, word) is None,
{
    if word.len() <= s.len() {
        assert(s.subrange(0, word.len() as int)[i] == s[i]);
    }
}

proof fn lemma_word_then_quoted(word: Seq<char>, t: Seq<char>, rest: Seq<char>)
    ensures
        word_then_quoted(word + (quoted(t) + rest), word) == Some((t, rest)),
{
    lemma_after_word(word, quoted(t) + rest);
    lemma_unquoted(t, rest);
}

proof fn lemma_chain2(a: Seq<char>, b: Seq<char>, rest: Seq<char>)
    ensures
        a + b + rest == a + (b + rest),
{
    assert(a + b + rest =~= a + (b + rest));
}

proof fn lemma_chain3(a: Seq<char>, b: Seq<char>, c: Seq<char>, rest: Seq<char>)
    ensures
        a + b + c + rest == a + (b + (c + rest)),
{
    assert(a + b + c + rest =~= a + (b + (c + rest)));
}

proof fn lemma_chain7(
    a: Seq<char>,
    b: Seq<char>,
    c: Seq<char>,
    d: Seq<char>,
    e: Seq<char>,
    f: Seq<char>,
    g: Seq<char>,
    rest: Seq<char>,
)
    ensures
        a + b + c + d + e + f + g + rest == a + (b + (c + (d + (e + (f + (g + rest)))))),
{
    assert(a + b + c + d + e + f + g + rest =~= a + (b + (c + (d + (e + (f + (g + rest)))))));
}

proof fn lemma_starts(a: Seq<char>, rest: Seq<char>, i: int)
    requires
        0 <= i < a.len(),
    ensures
        (a + rest)[i] == a[i],
        (a + rest).len() == a.len() + rest.len(),
{
}

proof fn lemma_text_block_round_trip(text: Seq<char>, rest: Seq<char>)
    ensures
        block_of(block_json(BlockView::Text { text }) + rest) == Some(
            (BlockView::Text { text }, rest),
        ),
        block_json(BlockView::Text { text }).len() > 0,
        block_json(BlockView::Text { text })[0] == '{',
{
    reveal(block_json);
    reveal(block_of);
    lemma_words();
    let s = block_json(BlockView::Text { text }) + rest;
    lemma_chain3(W_TEXT@, quoted(text), W_END@, rest);
    lemma_word_then_quoted(W_TEXT@, text, W_END@ + rest);
    lemma_after_word(W_TEXT@, quoted(text) + (W_END@ + rest));
    lemma_after_word(W_END@, rest);
    lemma_chain2(W_TEXT@, quoted(text), W_END@);
    lemma_starts(W_TEXT@, quoted(text) + W_END@, 0);
}

proof fn lemma_image_block_round_trip(source: ImageSourceView, rest: Seq<char>)
    ensures
        block_of(block_json(BlockView::Image { source }) + rest) == Some(
            (BlockView::Image { source }, rest),
        ),
        block_json(BlockView::Image { source }).len() > 0,
        block_json(BlockView::Image { source })[0] == '{',
{
    reveal(block_json);
    reveal(block_of);
    lemma_words();
    let s = block_json(BlockView::Image { source }) + rest;
    let r3 = W_IMAGE_END@ + rest;
    let r2 = W_DATA@ + (quoted(source.data) + r3);
    let r1 = W_MEDIA@ + (quoted(source.media_type) + r2);
    lemma_chain7(
        W_IMAGE@,
        quoted(source.source_type),
        W_MEDIA@,
        quoted(source.media_type),
        W_DATA@,
        quoted(source.data),
        W_IMAGE_END@,
        rest,
    );
    assert(s == W_IMAGE@ + (quoted(source.source_type) + r1));
    lemma_starts(W_IMAGE@, quoted(source.source_type) + r1, 9);
    lemma_starts(W_IMAGE@, quoted(source.source_type) + r1, 0);
    lemma_word_mismatch(s, W_TEXT@, 9);
    lemma_after_word(W_IMAGE@, quoted(source.source_type) + r1);
    lemma_word_then_quoted(W_IMAGE@, source.source_type, r1);
    lemma_word_then_quoted(W_MEDIA@, source.media_type, r2);
    lemma_word_then_quoted(W_DATA@, source.data, r3);
    lemma_after_word(W_IMAGE_END@, rest);
    assert(s[0] == '{');
    assert(block_json(BlockView::Image { source }).len() >= W_IMAGE@.len());
    lemma_starts(block_json(BlockView::Image { source }), rest, 0);
}

proof fn lemma_tool_use_block_round_trip(
    id: Seq<char>,
    name: Seq<char>,
    input: Seq<char>,
    rest: Seq<char>,
)
    ensures
        block_of(block_json(BlockView::ToolUse { id, name, input }) + rest) == Some(
            (BlockView::ToolUse { id, name, input }, rest),
        ),
        block_json(BlockView::ToolUse { id, name, input }).len() > 0,
        block_json(BlockView::ToolUse { id, name, input })[0] == '{',
{
    reveal(block_json);
    reveal(block_of);
    lemma_words();
    let b = BlockView::ToolUse { id, name, input };
    let s = block_json(b) + rest;
    let r3 = W_END@ + rest;
    let r2 = W_INPUT@ + (quoted(input) + r3);
    let r1 = W_NAME@ + (quoted(name) + r2);
    lemma_chain7(W_TOOL_USE@, quoted(id), W_NAME@, quoted(name), W_INPUT@, quoted(input), W_END@, rest);
    assert(s == W_TOOL_USE@ + (quoted(id) + r1));
    lemma_starts(W_TOOL_USE@, quoted(id) + r1, 0);
    lemma_starts(W_TOOL_USE@, quoted(id) + r1, 9);
    lemma_starts(W_TOOL_USE@, quoted(id) + r1, 10);
    lemma_word_mismatch(s, W_TEXT@, 10);
    lemma_word_mismatch(s, W_IMAGE@, 9);
    lemma_after_word(W_TOOL_USE@, quoted(id) + r1);
    lemma_word_then_quoted(W_TOOL_USE@, id, r1);
    lemma_word_then_quoted(W_NAME@, name, r2);
    lemma_word_then_quoted(W_INPUT@, input, r3);
    lemma_after_word(W_END@, rest);
    assert(s[0] == '{');
    assert(block_json(b).len() >= W_TOOL_USE@.len());
    lemma_starts(block_json(b), rest, 0);
}

proof fn lemma_error_mark_round_trip(is_error: Option<bool>, rest: Seq<char>)
    ensures
        error_mark_of(error_mark(is_error) + rest) == Some((is_error, rest)),
{
    lemma_words();
    let r2 = error_mark(is_error) + rest;
    match is_error {
        None => {
            lemma_after_word(W_END@, rest);
        },
        Some(flag) => {
            lemma_starts(error_mark(is_error), rest, 0);
            lemma_starts(error_mark(is_error), rest, 12);
            lemma_word_mismatch(r2, W_END@, 0);
            if flag {
                lemma_after_word(W_ERROR_TRUE@, rest);
            } else {
                lemma_word_mismatch(r2, W_ERROR_TRUE@, 12);
                lemma_after_word(W_ERROR_FALSE@, rest);
            }
        },
    }
}

proof fn lemma_tool_result_block_round_trip(
    tool_use_id: Seq<char>,
    content: Seq<char>,
    is_error: Option<bool>,
    rest: Seq<char>,
)
    ensures
        block_of(block_json(BlockView::ToolResult { tool_use_id, content, is_error }) + rest)
            == Some((BlockView::ToolResult { tool_use_id, content, is_error }, rest)),
        block_json(BlockView::ToolResult { tool_use_id, content, is_error }).len() > 0,
        block_json(BlockView::ToolResult { tool_use_id, content, is_error })[0] == '{',
{
    reveal(block_json);
    reveal(block_of);
    lemma_words();
    let b = BlockView::ToolResult { tool_use_id, content, is_error };
    let s = block_json(b) + rest;
    let r2 = error_mark(is_error) + rest;
    let r1 = W_CONTENT@ + (quoted(content) + r2);
    lemma_chain3(W_TOOL_RESULT@, quoted(tool_use_id), W_CONTENT@, quoted(content) + r2);
    assert(s =~= W_TOOL_RESULT@ + quoted(tool_use_id) + W_CONTENT@ + (quoted(content) + r2));
    assert(s == W_TOOL_RESULT@ + (quoted(tool_use_id) + r1));
    lemma_starts(W_TOOL_RESULT@, quoted(tool_use_id) + r1, 0);
    lemma_starts(W_TOOL_RESULT@, quoted(tool_use_id) + r1, 9);
    lemma_starts(W_TOOL_RESULT@, quoted(tool_use_id) + r1, 10);
    lemma_starts(W_TOOL_RESULT@, quoted(tool_use_id) + r1, 14);
    lemma_word_mismatch(s, W_TEXT@, 10);
    lemma_word_mismatch(s, W_IMAGE@, 9);
    lemma_word_mismatch(s, W_TOOL_USE@, 14);
    lemma_word_then_quoted(W_TOOL_RESULT@, tool_use_id, r1);
    lemma_word_then_quoted(W_CONTENT@, content, r2);
    lemma_error_mark_round_trip(is_error, rest);
    assert(s[0] == '{');
    assert(block_json(b).len() >= W_TOOL_RESULT@.len());
    lemma_starts(block_json(b), rest, 0);
}

/// What is written for a block is read as that block.
pub proof fn lemma_block_round_trip(b: BlockView, rest: Seq<char>)
    ensures
        block_of(block_json(b) + rest) == Some((b, rest)),
        block_json(b).len() > 0,
        block_json(b)[0] == '{',
{
    match b {
        BlockView::Text { text } => lemma_text_block_round_trip(text, rest),
        BlockView::Image { source } => lemma_image_block_round_trip(source, rest),
        BlockView::ToolUse { id, name, input } => lemma_tool_use_block_round_trip(
            id,
            name,
            input,
            rest,
        ),
        BlockView::ToolResult { tool_use_id, content, is_error } => {
            lemma_tool_result_block_round_trip(tool_use_id, content, is_error, rest)
        },
    }
}

proof fn lemma_list_step(c: char, item: Seq<char>, more: Seq<char>, rest: Seq<char>)
    ensures
        (seq![c] + item + more + rest)[0] == c,
        (seq![c] + item + more + rest).skip(1) == item + (more + rest),
        (seq![c] + item + more + rest).len() == 1 + item.len() + more.len() + rest.len(),
        item.len() > 0 ==> (seq![c] + item + more + rest)[1] == item[0],
{
    assert((seq![c] + item + more + rest).skip(1) =~= item + (more + rest));
}

proof fn lemma_list_end(rest: Seq<char>)
    ensures
        (seq![']'] + rest)[0] == ']',
        (seq![']'] + rest).skip(1) == rest,
        (seq!['[', ']'] + rest)[0] == '[',
        (seq!['[', ']'] + rest)[1] == ']',
        (seq!['[', ']'] + rest).skip(2) == rest,
        (seq!['[', ']'] + rest).len() == 2 + rest.len(),
{
    assert((seq![']'] + rest).skip(1) =~= rest);
    assert((seq!['[', ']'] + rest).skip(2) =~= rest);
}

proof fn lemma_more_blocks_round_trip(bs: Seq<BlockView>, rest: Seq<char>)
    ensures
        more_blocks_of(more_blocks_json(bs) + rest) == Some((bs, rest)),
        more_blocks_json(bs).len() > 0,
    decreases bs.len(),
{
    if bs.len() == 0 {
        lemma_list_end(rest);
        assert(bs =~= Seq::<BlockView>::empty());
    } else {
        let item = block_json(bs[0]);
        let more = more_blocks_json(bs.drop_first());
        lemma_list_step(',', item, more, rest);
        lemma_block_round_trip(bs[0], more + rest);
        lemma_more_blocks_round_trip(bs.drop_first(), rest);
        assert(seq![bs[0]] + bs.drop_first() =~= bs);
    }
}

/// What is written for a list of blocks is read as that list.
pub proof fn lemma_blocks_round_trip(bs: Seq<BlockView>, rest: Seq<char>)
    ensures
        blocks_of(blocks_json(bs) + rest) == Some((bs, rest)),
        blocks_json(bs).len() >= 2,
        (blocks_json(bs) + rest)[0] == '[',
{
    if bs.len() == 0 {
        lemma_list_end(rest);
        assert(bs =~= Seq::<BlockView>::empty());
    } else {
        let item = block_json(bs[0]);
        let more = more_blocks_json(bs.drop_first());
        lemma_list_step('[', item, more, rest);
        lemma_block_round_trip(bs[0], more + rest);
        lemma_more_blocks_round_trip(bs.drop_first(), rest);
        assert(seq![bs[0]] + bs.drop_first() =~= bs);
    }
}

proof fn lemma_content_round_trip(c: ContentView, rest: Seq<char>)
    ensures
        content_of(content_json(c) + rest) == Some((c, rest)),
{
    match c {
        ContentView::Text(t) => {
            lemma_unquoted(t, rest);
            assert((quoted(t) + rest)[0] == '"');
        },
        ContentView::Blocks(bs) => {
            lemma_blocks_round_trip(bs, rest);
        },
    }
}

/// What is written for a message is read as that message.
pub proof fn lemma_message_round_trip(m: MessageView, rest: Seq<char>)
    ensures
        message_of(message_json(m) + rest) == Some((m, rest)),
        message_json(m).len() > 0,
        message_json(m)[0] == '{',
{
    reveal(message_json);
    reveal(message_of);
    lemma_words();
    let s = message_json(m) + rest;
    let r = content_json(m.content) + (W_END@ + rest);
    lemma_chain3(role_word(m.role), content_json(m.content), W_END@, rest);
    lemma_after_word(role_word(m.role), r);
    lemma_starts(role_word(m.role), r, 0);
    lemma_starts(role_word(m.role), r, 9);
    if m.role == Role::Assistant {
        lemma_word_mismatch(s, W_USER@, 9);
    }
    lemma_content_round_trip(m.content, W_END@ + rest);
    lemma_after_word(W_END@, rest);
    assert(message_json(m).len() >= role_word(m.role).len());
    lemma_starts(message_json(m), rest, 0);
}

proof fn lemma_more_messages_round_trip(ms: Seq<MessageView>, rest: Seq<char>)
    ensures
        more_messages_of(more_messages_json(ms) + rest) == Some((ms, rest)),
    decreases ms.len(),
{
    if ms.len() == 0 {
        lemma_list_end(rest);
        assert(ms =~= Seq::<MessageView>::empty());
    } else {
        let item = message_json(ms[0]);
        let more = more_messages_json(ms.drop_first());
        lemma_list_step(',', item, more, rest);
        lemma_message_round_trip(ms[0], more + rest);
        lemma_more_messages_round_trip(ms.drop_first(), rest);
        assert(seq![ms[0]] + ms.drop_first() =~= ms);
    }
}

/// A conversation that is written out and read back is the conversation
/// that it was.
pub proof fn lemma_session_round_trip(ms: Seq<MessageView>)
    ensures
        session_of(session_json(ms)) == Some(ms),
{
    let rest = Seq::<char>::empty();
    if ms.len() == 0 {
        assert(ms =~= Seq::<MessageView>::empty());
    } else {
        let item = message_json(ms[0]);
        let more = more_messages_json(ms.drop_first());
        lemma_list_step('[', item, more, rest);
        assert(seq!['['] + item + more + rest =~= session_json(ms));
        lemma_message_round_trip(ms[0], more + rest);
        lemma_more_messages_round_trip(ms.drop_first(), rest);
        assert(seq![ms[0]] + ms.drop_first() =~= ms);
    }
}

/// What is kept of a conversation and read back at the next turn is the
/// conversation without its images; and keeping that once more changes
/// nothing.
pub proof fn lemma_kept_session_round_trip(ms: Seq<MessageView>)
    ensures
        session_of(session_json(crate::render::without_images(ms))) == Some(
            crate::render::without_images(ms),
        ),
        crate::render::without_images(crate::render::without_images(ms))
            == crate::render::without_images(ms),
{
    lemma_session_round_trip(crate::render::without_images(ms));
    crate::render::lemma_without_images_idempotent(ms);
}

fn block_text_of(b: &ContentBlock) -> (r: String)
    ensures
        r@ == block_json(b@),
{
    reveal(block_json);
    match b {
        ContentBlock::Text { text } => {
            let mut piece = W_TEXT.to_owned();
            push_quoted(&mut piece, text.as_str());
            piece.append(W_END);
            piece
        },
        ContentBlock::Image { source } => {
            let mut piece = W_IMAGE.to_owned();
            push_quoted(&mut piece, source.source_type.as_str());
            piece.append(W_MEDIA);
            push_quoted(&mut piece, source.media_type.as_str());
            piece.append(W_DATA);
            push_quoted(&mut piece, source.data.as_str());
            piece.append(W_IMAGE_END);
            piece
        },
        ContentBlock::ToolUse { id, name, input } => {
            let mut piece = W_TOOL_USE.to_owned();
            push_quoted(&mut piece, id.as_str());
            piece.append(W_NAME);
            push_quoted(&mut piece, name.as_str());
            piece.append(W_INPUT);
            push_quoted(&mut piece, input.as_str());
            piece.append(W_END);
            piece
        },
        ContentBlock::ToolResult { tool_use_id, content, is_error } => {
            let mut piece = W_TOOL_RESULT.to_owned();
            push_quoted(&mut piece, tool_use_id.as_str());
            piece.append(W_CONTENT);
            push_quoted(&mut piece, content.as_str());
            match is_error {
                None => piece.append(W_END),
                Some(true) => piece.append(W_ERROR_TRUE),
                Some(false) => piece.append(W_ERROR_FALSE),
            }
            piece
        },
    }
}

fn blocks_text_of(blocks: &Vec<ContentBlock>) -> (r: String)
    ensures
        r@ == blocks_json(block_views(blocks@)),
{
    let ghost bs = block_views(blocks@);
    if blocks.len() == 0 {
        let mut r = String::new();
        crate::chars::push_char(&mut r, '[');
        crate::chars::push_char(&mut r, ']');
        assert(r@ =~= seq!['[', ']']);
        return r;
    }
    let mut out = String::new();
    crate::chars::push_char(&mut out, '[');
    let first = block_text_of(&blocks[0]);
    out.append(first.as_str());
    assert(out@ =~= seq!['['] + block_json(bs[0]));
    let mut i: usize = 1;
    assert(bs.drop_first() =~= bs.skip(1));
    while i < blocks.len()
        invariant
            1 <= i <= blocks.len(),
            bs == block_views(blocks@),
            blocks_json(bs) == out@ + more_blocks_json(bs.skip(i as int)),
        decreases blocks.len() - i,
    {
        let ghost before = out@;
        let ghost rest = bs.skip(i as int);
        assert(rest[0] == blocks@[i as int]@);
        assert(rest.drop_first() =~= bs.skip(i + 1));
        let piece = block_text_of(&blocks[i]);
        crate::chars::push_char(&mut out, ',');
        out.append(piece.as_str());
        assert(out@ + more_blocks_json(bs.skip(i + 1)) =~= before + more_blocks_json(rest));
        i += 1;
    }
    assert(more_blocks_json(bs.skip(blocks.len() as int)) =~= seq![']']);
    crate::chars::push_char(&mut out, ']');
    assert(out@ =~= blocks_json(bs));
    out
}

fn message_text_of(m: &Message) -> (r: String)
    ensures
        r@ == message_json(m@),
{
    reveal(message_json);
    let mut piece = match m.role {
        Role::User => W_USER.to_owned(),
        Role::Assistant => W_ASSISTANT.to_owned(),
    };
    match &m.content {
        MessageContent::Text(t) => {
            push_quoted(&mut piece, t.as_str());
        },
        MessageContent::Blocks(blocks) => {
            let list = blocks_text_of(blocks);
            piece.append(list.as_str());
        },
    }
    piece.append(W_END);
    piece
}

/// Writes a conversation out in the form in which it is kept.
pub fn encode_session(messages: &Vec<Message>) -> (r: String)
    ensures
        r@ == session_json(views(messages@)),
{
    let ghost ms = views(messages@);
    if messages.len() == 0 {
        let mut r = String::new();
        crate::chars::push_char(&mut r, '[');
        crate::chars::push_char(&mut r, ']');
        assert(r@ =~= seq!['[', ']']);
        return r;
    }
    let mut out = String::new();
    crate::chars::push_char(&mut out, '[');
    let first = message_text_of(&messages[0]);
    out.append(first.as_str());
    assert(out@ =~= seq!['['] + message_json(ms[0]));
    let mut i: usize = 1;
    assert(ms.drop_first() =~= ms.skip(1));
    while i < messages.len()
        invariant
            1 <= i <= messages.len(),
            ms == views(messages@),
            session_json(ms) == out@ + more_messages_json(ms.skip(i as int)),
        decreases messages.len() - i,
    {
        let ghost before = out@;
        let ghost rest = ms.skip(i as int);
        assert(rest[0] == messages@[i as int]@);
        assert(rest.drop_first() =~= ms.skip(i + 1));
        let piece = message_text_of(&messages[i]);
        crate::chars::push_char(&mut out, ',');
        out.append(piece.as_str());
        assert(out@ + more_messages_json(ms.skip(i + 1)) =~= before + more_messages_json(rest));
        i += 1;
    }
    assert(more_messages_json(ms.skip(messages.len() as int)) =~= seq![']']);
    crate::chars::push_char(&mut out, ']');
    assert(out@ =~= session_json(ms));
    out
}

fn read_word_then_quoted(v: &Vec<char>, pos: usize, word: &str) -> (r: Option<(String, usize)>)
    requires
        pos <= v.len(),
    ensures
        match r {
            Some((t, next)) => word_then_quoted(v@.skip(pos as int), word@) == Some(
                (t@, v@.skip(next as int)),
            ) && pos < next <= v.len(),
            None => word_then_quoted(v@.skip(pos as int), word@) is None,
        },
{
    match read_word(v, pos, word) {
        Some(p) => read_quoted(v, p),
        None => None,
    }
}

fn read_text_block(v: &Vec<char>, pos: usize) -> (r: Option<(ContentBlock, usize)>)
    requires
        pos <= v.len(),
    ensures
        match r {
            Some((b, next)) => text_block_of(v@.skip(pos as int)) == Some(
                (b@, v@.skip(next as int)),
            ) && pos < next <= v.len(),
            None => text_block_of(v@.skip(pos as int)) is None,
        },
{
    let (text, p) = match read_word_then_quoted(v, pos, W_TEXT) {
        Some(x) => x,
        None => {
            return None;
        },
    };
    match read_word(v, p, W_END) {
        Some(next) => Some((ContentBlock::Text { text }, next)),
        None => None,
    }
}

fn read_image_block(v: &Vec<char>, pos: usize) -> (r: Option<(ContentBlock, usize)>)
    requires
        pos <= v.len(),
    ensures
        match r {
            Some((b, next)) => image_block_of(v@.skip(pos as int)) == Some(
                (b@, v@.skip(next as int)),
            ) && pos < next <= v.len(),
            None => image_block_of(v@.skip(pos as int)) is None,
        },
{
    let (source_type, pos1) = match read_word_then_quoted(v, pos, W_IMAGE) {
        Some(x) => x,
        None => {
            return None;
        },
    };
    let (media_type, pos2) = match read_word_then_quoted(v, pos1, W_MEDIA) {
        Some(x) => x,
        None => {
            return None;
        },
    };
    let (data, pos3) = match read_word_then_quoted(v, pos2, W_DATA) {
        Some(x) => x,
        None => {
            return None;
        },
    };
    match read_word(v, pos3, W_IMAGE_END) {
        Some(next) => Some(
            (ContentBlock::Image { source: ImageSource { source_type, media_type, data } }, next),
        ),
        None => None,
    }
}

fn read_tool_use_block(v: &Vec<char>, pos: usize) -> (r: Option<(ContentBlock, usize)>)
    requires
        pos <= v.len(),
    ensures
        match r {
            Some((b, next)) => tool_use_block_of(v@.skip(pos as int)) == Some(
                (b@, v@.skip(next as int)),
            ) && pos < next <= v.len(),
            None => tool_use_block_of(v@.skip(pos as int)) is None,
        },
{
    let (id, pos1) = match read_word_then_quoted(v, pos, W_TOOL_USE) {
        Some(x) => x,
        None => {
            return None;
        },
    };
    let (name, pos2) = match read_word_then_quoted(v, pos1, W_NAME) {
        Some(x) => x,
        None => {
            return None;
        },
    };
    let (input, pos3) = match read_word_then_quoted(v, pos2, W_INPUT) {
        Some(x) => x,
        None => {
            return None;
        },
    };
    match read_word(v, pos3, W_END) {
        Some(next) => Some((ContentBlock::ToolUse { id, name, input }, next)),
        None => None,
    }
}

fn read_error_mark(v: &Vec<char>, pos: usize) -> (r: Option<(Option<bool>, usize)>)
    requires
        pos <= v.len(),
    ensures
        match r {
            Some((mark, next)) => error_mark_of(v@.skip(pos as int)) == Some(
                (mark, v@.skip(next as int)),
            ) && pos <= next <= v.len(),
            None => error_mark_of(v@.skip(pos as int)) is None,
        },
{
    match read_word(v, pos, W_END) {
        Some(next) => Some((None, next)),
        None => match read_word(v, pos, W_ERROR_TRUE) {
            Some(next) => Some((Some(true), next)),
            None => match read_word(v, pos, W_ERROR_FALSE) {
                Some(next) => Some((Some(false), next)),
                None => None,
            },
        },
    }
}

fn read_tool_result_block(v: &Vec<char>, pos: usize) -> (r: Option<(ContentBlock, usize)>)
    requires
        pos <= v.len(),
    ensures
        match r {
            Some((b, next)) => tool_result_block_of(v@.skip(pos as int)) == Some(
                (b@, v@.skip(next as int)),
            ) && pos < next <= v.len(),
            None => tool_result_block_of(v@.skip(pos as int)) is None,
        },
{
    let (tool_use_id, pos1) = match read_word_then_quoted(v, pos, W_TOOL_RESULT) {
        Some(x) => x,
        None => {
            return None;
        },
    };
    let (content, pos2) = match read_word_then_quoted(v, pos1, W_CONTENT) {
        Some(x) => x,
        None => {
            return None;
        },
    };
    match read_error_mark(v, pos2) {
        Some((is_error, next)) => Some(
            (ContentBlock::ToolResult { tool_use_id, content, is_error }, next),
        ),
        None => None,
    }
}

fn read_block(v: &Vec<char>, pos: usize) -> (r: Option<(ContentBlock, usize)>)
    requires
        pos <= v.len(),
    ensures
        match r {
            Some((b, next)) => block_of(v@.skip(pos as int)) == Some((b@, v@.skip(next as int)))
                && pos < next <= v.len(),
            None => block_of(v@.skip(pos as int)) is None,
        },
{
    reveal(block_of);
    if read_word(v, pos, W_TEXT).is_some() {
        read_text_block(v, pos)
    } else if read_word(v, pos, W_IMAGE).is_some() {
        read_image_block(v, pos)
    } else if read_word(v, pos, W_TOOL_USE).is_some() {
        read_tool_use_block(v, pos)
    } else {
        read_tool_result_block(v, pos)
    }
}

fn read_more_blocks(v: &Vec<char>, pos: usize) -> (r: Option<(Vec<ContentBlock>, usize)>)
    requires
        pos <= v.len(),
    ensures
        match r {
            Some((bs, next)) => more_blocks_of(v@.skip(pos as int)) == Some(
                (block_views(bs@), v@.skip(next as int)),
            ) && pos < next <= v.len(),
            None => more_blocks_of(v@.skip(pos as int)) is None,
        },
{
    let mut out: Vec<ContentBlock> = Vec::new();
    let mut i: usize = pos;
    let ghost whole = more_blocks_of(v@.skip(pos as int));
    proof {
        match whole {
            Some((bs, rest)) => {
                assert(block_views(out@) + bs =~= bs);
            },
            None => {},
        }
    }
    loop
        invariant
            pos <= i <= v.len(),
            i == pos ==> out.len() == 0,
            whole == more_blocks_of(v@.skip(pos as int)),
            whole == (match more_blocks_of(v@.skip(i as int)) {
                Some((bs, rest)) => Some((block_views(out@) + bs, rest)),
                None => None,
            }),
        decreases v.len() - i,
    {
        let ghost s = v@.skip(i as int);
        if i >= v.len() {
            return None;
        }
        assert(s[0] == v@[i as int]);
        let c = v[i];
        if c == ']' {
            assert(s.skip(1) =~= v@.skip(i + 1));
            assert(block_views(out@) + Seq::<BlockView>::empty() =~= block_views(out@));
            return Some((out, i + 1));
        }
        if c != ',' {
            return None;
        }
        assert(s.skip(1) =~= v@.skip(i + 1));
        match read_block(v, i + 1) {
            None => {
                return None;
            },
            Some((b, next)) => {
                let ghost before = block_views(out@);
                out.push(b);
                proof {
                    assert(block_views(out@) =~= before.push(b@));
                    assert(v@.skip(next as int).len() < s.len());
                    match more_blocks_of(v@.skip(next as int)) {
                        Some((bs, rest)) => {
                            assert(before + (seq![b@] + bs) =~= block_views(out@) + bs);
                        },
                        None => {},
                    }
                }
                i = next;
            },
        }
    }
}

fn read_blocks(v: &Vec<char>, pos: usize) -> (r: Option<(Vec<ContentBlock>, usize)>)
    requires
        pos <= v.len(),
    ensures
        match r {
            Some((bs, next)) => blocks_of(v@.skip(pos as int)) == Some(
                (block_views(bs@), v@.skip(next as int)),
            ) && pos < next <= v.len(),
            None => blocks_of(v@.skip(pos as int)) is None,
        },
{
    let ghost s = v@.skip(pos as int);
    if v.len() - pos < 2 {
        return None;
    }
    assert(s[0] == v@[pos as int]);
    assert(s[1] == v@[pos + 1]);
    if v[pos] != '[' {
        return None;
    }
    if v[pos + 1] == ']' {
        let none: Vec<ContentBlock> = Vec::new();
        assert(block_views(none@) =~= Seq::<BlockView>::empty());
        assert(s.skip(2) =~= v@.skip(pos + 2));
        return Some((none, pos + 2));
    }
    assert(s.skip(1) =~= v@.skip(pos + 1));
    let (first, p) = match read_block(v, pos + 1) {
        Some(x) => x,
        None => {
            return None;
        },
    };
    match read_more_blocks(v, p) {
        Some((more, next)) => {
            let mut all: Vec<ContentBlock> = Vec::new();
            all.push(first);
            let ghost head = block_views(all@);
            let mut more = more;
            let ghost tail = block_views(more@);
            all.append(&mut more);
            assert(block_views(all@) =~= seq![first@] + tail);
            Some((all, next))
        },
        None => None,
    }
}

fn read_content(v: &Vec<char>, pos: usize) -> (r: Option<(MessageContent, usize)>)
    requires
        pos <= v.len(),
    ensures
        match r {
            Some((c, next)) => content_of(v@.skip(pos as int)) == Some((c@, v@.skip(next as int)))
                && pos < next <= v.len(),
            None => content_of(v@.skip(pos as int)) is None,
        },
{
    let ghost s = v@.skip(pos as int);
    if pos < v.len() && v[pos] == '"' {
        assert(s[0] == v@[pos as int]);
        match read_quoted(v, pos) {
            Some((t, next)) => Some((MessageContent::Text(t), next)),
            None => None,
        }
    } else {
        assert(pos < v.len() ==> s[0] == v@[pos as int]);
        match read_blocks(v, pos) {
            Some((bs, next)) => Some((MessageContent::Blocks(bs), next)),
            None => None,
        }
    }
}

fn read_message(v: &Vec<char>, pos: usize) -> (r: Option<(Message, usize)>)
    requires
        pos <= v.len(),
    ensures
        match r {
            Some((m, next)) => message_of(v@.skip(pos as int)) == Some((m@, v@.skip(next as int)))
                && pos < next <= v.len(),
            None => message_of(v@.skip(pos as int)) is None,
        },
{
    reveal(message_of);
    let (role, p) = match read_word(v, pos, W_USER) {
        Some(p) => (Role::User, p),
        None => match read_word(v, pos, W_ASSISTANT) {
            Some(p) => (Role::Assistant, p),
            None => {
                return None;
            },
        },
    };
    let (content, pos2) = match read_content(v, p) {
        Some(x) => x,
        None => {
            return None;
        },
    };
    match read_word(v, pos2, W_END) {
        Some(next) => Some((Message { role, content }, next)),
        None => None,
    }
}

fn read_more_messages(v: &Vec<char>, pos: usize) -> (r: Option<(Vec<Message>, usize)>)
    requires
        pos <= v.len(),
    ensures
        match r {
            Some((ms, next)) => more_messages_of(v@.skip(pos as int)) == Some(
                (views(ms@), v@.skip(next as int)),
            ) && pos < next <= v.len(),
            None => more_messages_of(v@.skip(pos as int)) is None,
        },
{
    let mut out: Vec<Message> = Vec::new();
    let mut i: usize = pos;
    let ghost whole = more_messages_of(v@.skip(pos as int));
    proof {
        match whole {
            Some((ms, rest)) => {
                assert(views(out@) + ms =~= ms);
            },
            None => {},
        }
    }
    loop
        invariant
            pos <= i <= v.len(),
            whole == more_messages_of(v@.skip(pos as int)),
            whole == (match more_messages_of(v@.skip(i as int)) {
                Some((ms, rest)) => Some((views(out@) + ms, rest)),
                None => None,
            }),
        decreases v.len() - i,
    {
        let ghost s = v@.skip(i as int);
        if i >= v.len() {
            return None;
        }
        assert(s[0] == v@[i as int]);
        let c = v[i];
        if c == ']' {
            assert(s.skip(1) =~= v@.skip(i + 1));
            assert(views(out@) + Seq::<MessageView>::empty() =~= views(out@));
            return Some((out, i + 1));
        }
        if c != ',' {
            return None;
        }
        assert(s.skip(1) =~= v@.skip(i + 1));
        match read_message(v, i + 1) {
            None => {
                return None;
            },
            Some((m, next)) => {
                let ghost before = views(out@);
                out.push(m);
                proof {
                    assert(views(out@) =~= before.push(m@));
                    assert(v@.skip(next as int).len() < s.len());
                    match more_messages_of(v@.skip(next as int)) {
                        Some((ms, rest)) => {
                            assert(before + (seq![m@] + ms) =~= views(out@) + ms);
                        },
                        None => {},
                    }
                }
                i = next;
            },
        }
    }
}

/// Reads a kept conversation; `None` where the text is not what is
/// written for a conversation.
pub fn decode_session(text: &str) -> (r: Option<Vec<Message>>)
    ensures
        (match r {
            Some(ms) => Some(views(ms@)),
            None => None,
        }) == session_of(text@),
{
    let v = crate::chars::to_chars(text);
    assert(v@.skip(0) =~= v@);
    if v.len() < 2 || v[0] != '[' {
        return None;
    }
    if v[1] == ']' {
        if v.len() == 2 {
            let none: Vec<Message> = Vec::new();
            assert(views(none@) =~= Seq::<MessageView>::empty());
            return Some(none);
        } else {
            return None;
        }
    }
    let (first, p) = match read_message(&v, 1) {
        Some(x) => x,
        None => {
            return None;
        },
    };
    match read_more_messages(&v, p) {
        Some((more, next)) => {
            if next != v.len() {
                return None;
            }
            let mut all: Vec<Message> = Vec::new();
            all.push(first);
            let mut more = more;
            let ghost tail = views(more@);
            all.append(&mut more);
            assert(views(all@) =~= seq![first@] + tail);
            Some(all)
        },
        None => None,
    }
}

/// The conversation that is resumed from what was kept: none where
/// nothing was kept, where what was kept cannot be read, or where it holds
/// no message.
pub open spec fn resumable(kept: Option<Seq<char>>) -> Option<Seq<MessageView>> {
    match kept {
        Some(text) => match session_of(text) {
            Some(ms) => if ms.len() > 0 {
                Some(ms)
            } else {
                None
            },
            None => None,
        },
        None => None,
    }
}

/// Reads what was kept of a conversation, if anything. What cannot be
/// read or holds no message counts as nothing.
pub fn load_session(kept: Option<&str>) -> (r: Option<Vec<Message>>)
    ensures
        (match r {
            Some(ms) => Some(views(ms@)),
            None => None,
        }) == resumable(
            match kept {
                Some(t) => Some(t@),
                None => None,
            },
        ),
{
    match kept {
        Some(text) => match decode_session(text) {
            Some(ms) => {
                if ms.len() > 0 {
                    Some(ms)
                } else {
                    None
                }
            },
            None => None,
        },
        None => None,
    }
}

/// What was kept of a conversation that holds a message is resumed as the
/// conversation without its images.
pub proof fn lemma_kept_session_is_resumed(ms: Seq<MessageView>)
    requires
        ms.len() > 0,
    ensures
        resumable(Some(session_json(crate::render::without_images(ms)))) == Some(
            crate::render::without_images(ms),
        ),
{
    lemma_session_round_trip(crate::render::without_images(ms));
}

} // verus!
