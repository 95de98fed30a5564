//! Messages written out as plain text, and the form in which a conversation
//! is kept between turns.

use crate::message::{
    block_views, views, BlockView, ContentBlock, ContentView, Message, MessageContent, MessageView,
};
use crate::text::{clip_bytes, clipped};
use vstd::prelude::*;
use vstd::string::*;

verus! {

/// The parts joined into one text, with `sep` between neighbours.
pub open spec fn joined(parts: Seq<Seq<char>>, sep: Seq<char>) -> Seq<char>
    decreases parts.len(),
{
    if parts.len() == 0 {
        Seq::empty()
    } else if parts.len() == 1 {
        parts[0]
    } else {
        joined(parts.drop_last(), sep) + sep + parts.last()
    }
}

/// How one block reads in a transcript. A tool's result is cut down to 200
/// bytes on a character boundary.
pub open spec fn block_text(b: BlockView) -> Seq<char> {
    match b {
        BlockView::Text { text } => text,
        BlockView::ToolUse { id, name, input } => "[tool_use: "@ + name + "("@ + input + ")]"@,
        BlockView::ToolResult { tool_use_id, content, is_error } => (if is_error == Some(true) {
            "[tool_error]: "@
        } else {
            "[tool_result]: "@
        }) + clipped(content, 200, "..."@),
        BlockView::Image { source } => "[image]"@,
    }
}

/// The transcript lines of a list of blocks.
pub open spec fn block_texts(blocks: Seq<BlockView>) -> Seq<Seq<char>> {
    Seq::new(blocks.len(), |i: int| block_text(blocks[i]))
}

/// How a message's content reads in a transcript.
pub open spec fn content_text(c: ContentView) -> Seq<char> {
    match c {
        ContentView::Text(t) => t,
        ContentView::Blocks(b) => joined(block_texts(b), "\n"@),
    }
}

/// How one block reads in a transcript.
pub fn block_to_text(block: &ContentBlock) -> (r: String)
    ensures
        r@ == block_text(block@),
{
    match block {
        ContentBlock::Text { text } => text.clone(),
        ContentBlock::ToolUse { id, name, input } => {
            let mut r = String::new();
            r.append("[tool_use: ");
            r.append(name.as_str());
            r.append("(");
            r.append(input.as_str());
            r.append(")]");
            assert(r@ =~= block_text(block@));
            r
        },
        ContentBlock::ToolResult { tool_use_id, content, is_error } => {
            let failed = match is_error {
                Some(b) => *b,
                None => false,
            };
            let mut r = String::new();
            if failed {
                r.append("[tool_error]: ");
            } else {
                r.append("[tool_result]: ");
            }
            let cut = clip_bytes(content.as_str(), 200, "...");
            r.append(cut.as_str());
            assert(r@ =~= block_text(block@));
            r
        },
        ContentBlock::Image { source } => {
            let mut r = String::new();
            r.append("[image]");
            assert(r@ =~= "[image]"@);
            r
        },
    }
}

/// The text of a message, for a summary or for display: plain text as it
/// is, blocks one per line.
pub fn message_to_text(msg: &Message) -> (r: String)
    ensures
        r@ == content_text(msg@.content),
{
    match &msg.content {
        MessageContent::Text(t) => t.clone(),
        MessageContent::Blocks(blocks) => {
            let ghost texts = block_texts(block_views(blocks@));
            let mut out = String::new();
            let mut i: usize = 0;
            while i < blocks.len()
                invariant
                    i <= blocks.len(),
                    texts == block_texts(block_views(blocks@)),
                    out@ == joined(texts.take(i as int), "\n"@),
                decreases blocks.len() - i,
            {
                let part = block_to_text(&blocks[i]);
                proof {
                    assert(texts.take(i + 1).drop_last() =~= texts.take(i as int));
                    assert(texts.take(i + 1).last() == part@);
                }
                if i > 0 {
                    out.append("\n");
                }
                out.append(part.as_str());
                assert(out@ =~= joined(texts.take(i + 1), "\n"@));
                i += 1;
            }
            assert(texts.take(blocks.len() as int) =~= texts);
            out
        },
    }
}

/// A block as it is kept between turns: an image gives way to a note that
/// one was sent.
pub open spec fn block_without_image(b: BlockView) -> BlockView {
    match b {
        BlockView::Image { source } => BlockView::Text { text: "[image was sent]"@ },
        _ => b,
    }
}

/// Content as it is kept between turns.
pub open spec fn content_without_images(c: ContentView) -> ContentView {
    match c {
        ContentView::Text(t) => c,
        ContentView::Blocks(b) => ContentView::Blocks(
            Seq::new(b.len(), |i: int| block_without_image(b[i])),
        ),
    }
}

/// A message as it is kept between turns.
pub open spec fn message_without_images(m: MessageView) -> MessageView {
    MessageView { role: m.role, content: content_without_images(m.content) }
}

/// A conversation as it is kept between turns.
pub open spec fn without_images(ms: Seq<MessageView>) -> Seq<MessageView> {
    Seq::new(ms.len(), |i: int| message_without_images(ms[i]))
}

/// No block of the conversation is an image.
pub open spec fn image_free(ms: Seq<MessageView>) -> bool {
    forall|i: int, j: int|
        0 <= i < ms.len() && ms[i].content is Blocks && 0 <= j < ms[i].content->Blocks_0.len()
            ==> !(#[trigger] ms[i].content->Blocks_0[j] is Image)
}

fn strip_block(block: &ContentBlock) -> (r: ContentBlock)
    ensures
        r@ == block_without_image(block@),
{
    match block {
        ContentBlock::Image { source } => {
            let mut text = String::new();
            text.append("[image was sent]");
            assert(text@ =~= "[image was sent]"@);
            ContentBlock::Text { text }
        },
        _ => block.clone(),
    }
}

fn strip_message(msg: &Message) -> (r: Message)
    ensures
        r@ == message_without_images(msg@),
{
    match &msg.content {
        MessageContent::Text(t) => msg.clone(),
        MessageContent::Blocks(blocks) => {
            let mut out: Vec<ContentBlock> = Vec::new();
            let mut i: usize = 0;
            while i < blocks.len()
                invariant
                    i <= blocks.len(),
                    out.len() == i,
                    forall|k: int| 0 <= k < i ==> out@[k]@ == block_without_image(blocks@[k]@),
                decreases blocks.len() - i,
            {
                out.push(strip_block(&blocks[i]));
                i += 1;
            }
            assert(block_views(out@) =~= Seq::new(
                block_views(blocks@).len(),
                |k: int| block_without_image(block_views(blocks@)[k]),
            ));
            Message { role: msg.role, content: MessageContent::Blocks(out) }
        },
    }
}

/// Replaces every image block by a note that an image was sent, so that no
/// image data is written where the conversation is kept.
pub fn strip_images_for_session(messages: &mut Vec<Message>)
    ensures
        views(final(messages)@) == without_images(views(old(messages)@)),
{
    let mut out: Vec<Message> = Vec::new();
    let mut i: usize = 0;
    while i < messages.len()
        invariant
            i <= messages.len(),
            out.len() == i,
            forall|k: int| 0 <= k < i ==> out@[k]@ == message_without_images(messages@[k]@),
        decreases messages.len() - i,
    {
        out.push(strip_message(&messages[i]));
        i += 1;
    }
    assert(views(out@) =~= without_images(views(messages@)));
    *messages = out;
}

/// What is kept between turns holds no image.
pub proof fn lemma_without_images_is_image_free(ms: Seq<MessageView>)
    ensures
        image_free(without_images(ms)),
{
}

/// Taking the images out of what holds none changes nothing; in particular
/// taking them out twice is the same as taking them out once.
pub proof fn lemma_without_images_idempotent(ms: Seq<MessageView>)
    ensures
        image_free(ms) ==> without_images(ms) == ms,
        without_images(without_images(ms)) == without_images(ms),
{
    if image_free(ms) {
        assert forall|i: int| 0 <= i < ms.len() implies message_without_images(ms[i])
            == ms[i] by {
            match ms[i].content {
                ContentView::Text(t) => {},
                ContentView::Blocks(b) => {
                    assert forall|j: int| 0 <= j < b.len() implies block_without_image(b[j])
                        == b[j] by {
                        assert(!(ms[i].content->Blocks_0[j] is Image));
                    }
                    assert(Seq::new(b.len(), |j: int| block_without_image(b[j])) =~= b);
                },
            }
        }
        assert(without_images(ms) =~= ms);
    }
    lemma_without_images_is_image_free(ms);
    let once = without_images(ms);
    assert forall|i: int| 0 <= i < once.len() implies message_without_images(once[i])
        == once[i] by {
        match once[i].content {
            ContentView::Text(t) => {},
            ContentView::Blocks(b) => {
                assert forall|j: int| 0 <= j < b.len() implies block_without_image(b[j])
                    == b[j] by {
                    assert(!(once[i].content->Blocks_0[j] is Image));
                }
                assert(Seq::new(b.len(), |j: int| block_without_image(b[j])) =~= b);
            },
        }
    }
    assert(without_images(once) =~= once);
}

} // verus!
