//! The export of a conversation before it is compacted.

use crate::chars::{decimal, push_decimal};
use crate::gateway::{join_path, joined_path};
use crate::message::{role_name, views, Message, MessageView};
use crate::render::{content_text, message_to_text};
use vstd::prelude::*;
use vstd::string::*;

verus! {

/// One message as it stands in the export.
pub open spec fn archive_entry(m: MessageView) -> Seq<char> {
    "## "@ + role_name(m.role) + "\n\n"@ + content_text(m.content) + "\n\n---\n\n"@
}

/// The export of a conversation: every message under a heading that names
/// its role, with a rule after it.
pub open spec fn archive_text(ms: Seq<MessageView>) -> Seq<char>
    decreases ms.len(),
{
    if ms.len() == 0 {
        Seq::empty()
    } else {
        archive_text(ms.drop_last()) + archive_entry(ms.last())
    }
}

/// Writes the export of a conversation.
pub fn archive_markdown(messages: &Vec<Message>) -> (r: String)
    ensures
        r@ == archive_text(views(messages@)),
{
    let ghost ms = views(messages@);
    let mut out = String::new();
    let mut i: usize = 0;
    assert(out@ =~= archive_text(ms.take(0)));
    while i < messages.len()
        invariant
            i <= messages.len(),
            ms == views(messages@),
            out@ == archive_text(ms.take(i as int)),
        decreases messages.len() - i,
    {
        proof {
            assert(ms.take(i + 1).drop_last() =~= ms.take(i as int));
            assert(ms.take(i + 1).last() == messages@[i as int]@);
        }
        let text = message_to_text(&messages[i]);
        let mut entry = "## ".to_owned();
        entry.append(messages[i].role.as_str());
        entry.append("\n\n");
        entry.append(text.as_str());
        entry.append("\n\n---\n\n");
        out.append(entry.as_str());
        i += 1;
    }
    assert(ms.take(messages.len() as int) =~= ms);
    out
}

/// The directory that takes the exports of a chat.
pub open spec fn archive_dir_path(data_dir: Seq<char>, chat_id: i64) -> Seq<char> {
    joined_path(
        joined_path(joined_path(data_dir, "groups"@), decimal(chat_id as int)),
        "conversations"@,
    )
}

/// The directory that takes the exports of a chat:
/// `<data_dir>/groups/<chat_id>/conversations`.
pub fn archive_dir(data_dir: &str, chat_id: i64) -> (r: String)
    ensures
        r@ == archive_dir_path(data_dir@, chat_id),
{
    let groups = join_path(data_dir, "groups");
    let mut id = String::new();
    push_decimal(&mut id, chat_id);
    assert(id@ =~= decimal(chat_id as int));
    let chat = join_path(groups.as_str(), id.as_str());
    join_path(chat.as_str(), "conversations")
}

/// The file that takes the export made at the time `stamp`.
pub fn archive_file(data_dir: &str, chat_id: i64, stamp: &str) -> (r: String)
    ensures
        r@ == joined_path(archive_dir_path(data_dir@, chat_id), stamp@ + ".md"@),
{
    let dir = archive_dir(data_dir, chat_id);
    let mut name = stamp.to_owned();
    name.append(".md");
    join_path(dir.as_str(), name.as_str())
}

} // verus!
