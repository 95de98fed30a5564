//! The message sequence of a turn: rebuilt from stored history, or resumed
//! from the conversation kept since the last turn and caught up.

use crate::chars::str_eq;
use crate::message::{
    lemma_views_push, stored_views, text_message, views, BlockView, ContentBlock, ContentView,
    ImageSource, ImageSourceView, Message, MessageContent, MessageView, Role, StoredMessage,
    StoredMessageView,
};
use crate::text::{format_user_message, user_message};
use vstd::prelude::*;
use vstd::string::*;

verus! {

/// The role under which a stored message enters the conversation.
pub open spec fn history_role(m: StoredMessageView) -> Role {
    if m.is_from_bot {
        Role::Assistant
    } else {
        Role::User
    }
}

/// The text under which a stored message enters the conversation: the
/// bot's own words as they are, a user's words wrapped and escaped.
pub open spec fn history_text(m: StoredMessageView) -> Seq<char> {
    if m.is_from_bot {
        m.content
    } else {
        user_message(m.sender_name, m.content)
    }
}

/// Plain text with `extra` added on a new line; blocks are left as they are.
pub open spec fn with_line(c: ContentView, extra: Seq<char>) -> ContentView {
    match c {
        ContentView::Text(t) => ContentView::Text(t + "\n"@ + extra),
        ContentView::Blocks(b) => c,
    }
}

/// The stored messages as conversation messages, neighbours of one role
/// merged into one.
pub open spec fn merged_history(h: Seq<StoredMessageView>) -> Seq<MessageView>
    decreases h.len(),
{
    if h.len() == 0 {
        Seq::empty()
    } else {
        let prev = merged_history(h.drop_last());
        let m = h.last();
        if prev.len() > 0 && prev.last().role == history_role(m) {
            prev.drop_last().push(
                MessageView {
                    role: prev.last().role,
                    content: with_line(prev.last().content, history_text(m)),
                },
            )
        } else {
            prev.push(text_message(history_role(m), history_text(m)))
        }
    }
}

/// The conversation without a last message of the assistant.
pub open spec fn without_trailing_assistant(ms: Seq<MessageView>) -> Seq<MessageView> {
    if ms.len() > 0 && ms.last().role == Role::Assistant {
        ms.drop_last()
    } else {
        ms
    }
}

/// The conversation from its first message of the user on.
pub open spec fn without_leading_assistants(ms: Seq<MessageView>) -> Seq<MessageView>
    decreases ms.len(),
{
    if ms.len() > 0 && ms[0].role == Role::Assistant {
        without_leading_assistants(ms.drop_first())
    } else {
        ms
    }
}

/// The conversation that stored history gives rise to.
pub open spec fn built_from_history(h: Seq<StoredMessageView>) -> Seq<MessageView> {
    without_leading_assistants(without_trailing_assistant(merged_history(h)))
}

/// No two neighbours speak in the same role.
pub open spec fn alternates(ms: Seq<MessageView>) -> bool {
    forall|i: int, j: int|
        0 <= i && j == i + 1 && j < ms.len() ==> (#[trigger] ms[i]).role != (#[trigger] ms[j]).role
}

/// Merged history alternates between the roles.
pub proof fn lemma_merged_history_alternates(h: Seq<StoredMessageView>)
    ensures
        alternates(merged_history(h)),
    decreases h.len(),
{
    if h.len() > 0 {
        lemma_merged_history_alternates(h.drop_last());
    }
}

/// What `without_leading_assistants` returns is a tail of the conversation
/// that does not begin with the assistant.
pub proof fn lemma_without_leading_assistants(ms: Seq<MessageView>) -> (k: int)
    ensures
        0 <= k <= ms.len(),
        without_leading_assistants(ms) == ms.skip(k),
        without_leading_assistants(ms).len() > 0 ==> without_leading_assistants(ms)[0].role
            == Role::User,
    decreases ms.len(),
{
    if ms.len() > 0 && ms[0].role == Role::Assistant {
        let k = lemma_without_leading_assistants(ms.drop_first());
        assert(ms.drop_first().skip(k) =~= ms.skip(k + 1));
        k + 1
    } else {
        assert(ms.skip(0) =~= ms);
        0
    }
}

/// A conversation built from stored history neither begins nor ends with a
/// message of the assistant.
pub proof fn lemma_built_from_history_ends_in_user(h: Seq<StoredMessageView>)
    ensures
        built_from_history(h).len() > 0 ==> built_from_history(h)[0].role == Role::User
            && built_from_history(h).last().role == Role::User,
        alternates(built_from_history(h)),
{
    lemma_merged_history_alternates(h);
    let merged = merged_history(h);
    let cut = without_trailing_assistant(merged);
    assert(alternates(cut));
    assert(cut.len() > 0 ==> cut.last().role == Role::User) by {
        if merged.len() > 0 && merged.last().role == Role::Assistant && merged.len() > 1 {
            assert(merged[merged.len() - 2].role != merged[merged.len() - 1].role);
        }
    }
    let k = lemma_without_leading_assistants(cut);
    let built = built_from_history(h);
    assert(built == cut.skip(k));
    assert forall|i: int, j: int| 0 <= i && j == i + 1 && j < built.len() implies (
    #[trigger] built[i]).role != (#[trigger] built[j]).role by {
        assert(built[i] == cut[i + k]);
        assert(built[j] == cut[j + k]);
    }
}

/// Turns stored history into the conversation to send: neighbours of one
/// role become one message, a user's words are wrapped and escaped, and a
/// message of the assistant at either end is dropped.
pub fn history_to_claude_messages(history: &[StoredMessage], _bot_username: &str) -> (r: Vec<
    Message,
>)
    ensures
        views(r@) == built_from_history(stored_views(history@)),
        r.len() > 0 ==> r[0]@.role == Role::User && r[r.len() - 1]@.role == Role::User,
{
    let ghost h = stored_views(history@);
    let mut messages: Vec<Message> = Vec::new();
    let mut i: usize = 0;
    while i < history.len()
        invariant
            i <= history.len(),
            h == stored_views(history@),
            views(messages@) == merged_history(h.take(i as int)),
        decreases history.len() - i,
    {
        let msg = &history[i];
        proof {
            assert(h.take(i + 1).drop_last() =~= h.take(i as int));
            assert(h.take(i + 1).last() == msg@);
        }
        let role = if msg.is_from_bot {
            Role::Assistant
        } else {
            Role::User
        };
        let content = if msg.is_from_bot {
            msg.content.clone()
        } else {
            format_user_message(msg.sender_name.as_str(), msg.content.as_str())
        };
        let n = messages.len();
        let ghost prev = views(messages@);
        if n > 0 && messages[n - 1].role == role {
            let last = messages.pop().unwrap();
            let Message { role: last_role, content: last_content } = last;
            let merged = match last_content {
                MessageContent::Text(mut t) => {
                    t.append("\n");
                    t.append(content.as_str());
                    MessageContent::Text(t)
                },
                MessageContent::Blocks(b) => MessageContent::Blocks(b),
            };
            let m = Message { role: last_role, content: merged };
            proof {
                assert(views(messages@) =~= prev.drop_last());
                lemma_views_push(messages@, m);
            }
            messages.push(m);
        } else {
            let m = Message { role, content: MessageContent::Text(content) };
            proof {
                lemma_views_push(messages@, m);
            }
            messages.push(m);
        }
        i += 1;
    }
    assert(h.take(history.len() as int) =~= h);
    let ghost merged = views(messages@);
    let n = messages.len();
    if n > 0 && messages[n - 1].role == Role::Assistant {
        messages.pop();
        assert(views(messages@) =~= merged.drop_last());
    }
    let ghost cut = views(messages@);
    while messages.len() > 0 && messages[0].role == Role::Assistant
        invariant
            without_leading_assistants(cut) == without_leading_assistants(views(messages@)),
        decreases messages.len(),
    {
        let ghost before = views(messages@);
        messages.remove(0);
        assert(views(messages@) =~= before.drop_first());
    }
    proof {
        lemma_built_from_history_ends_in_user(h);
    }
    messages
}

/// The kept conversation caught up with what users wrote since it was
/// saved: each new message is added on a new line to a last message of
/// the user in plain text, or else becomes a new message of the user.
pub open spec fn caught_up(session: Seq<MessageView>, fresh: Seq<StoredMessageView>) -> Seq<
    MessageView,
>
    decreases fresh.len(),
{
    if fresh.len() == 0 {
        session
    } else {
        let prev = caught_up(session, fresh.drop_last());
        let text = user_message(fresh.last().sender_name, fresh.last().content);
        if prev.len() > 0 && prev.last().role == Role::User && prev.last().content is Text {
            prev.drop_last().push(
                text_message(Role::User, prev.last().content->Text_0 + "\n"@ + text),
            )
        } else {
            prev.push(text_message(Role::User, text))
        }
    }
}

/// The conversation with a scheduled prompt, if there is one, added as a
/// tagged message of the user.
pub open spec fn with_prompt(ms: Seq<MessageView>, prompt: Option<Seq<char>>) -> Seq<MessageView> {
    match prompt {
        Some(p) => ms.push(text_message(Role::User, "[scheduler]: "@ + p)),
        None => ms,
    }
}

/// The block that carries an image given as base64 data and a media type.
pub open spec fn image_block(data: Seq<char>, media_type: Seq<char>) -> BlockView {
    BlockView::Image { source: ImageSourceView { source_type: "base64"@, media_type, data } }
}

/// The conversation with an image, if there is one, put in front of the
/// text of a last message of the user.
pub open spec fn with_image(ms: Seq<MessageView>, image: Option<(Seq<char>, Seq<char>)>) -> Seq<
    MessageView,
> {
    match image {
        Some((data, media_type)) => if ms.len() > 0 && ms.last().role == Role::User {
            let text = match ms.last().content {
                ContentView::Text(t) => t,
                ContentView::Blocks(b) => Seq::empty(),
            };
            let blocks = if text.len() > 0 {
                seq![image_block(data, media_type), BlockView::Text { text }]
            } else {
                seq![image_block(data, media_type)]
            };
            ms.drop_last().push(
                MessageView { role: Role::User, content: ContentView::Blocks(blocks) },
            )
        } else {
            ms
        },
        None => ms,
    }
}

/// The messages of a turn. `session` is the conversation kept since the
/// last turn, if one could be read; `stored` is what was written since it
/// was saved, or, where no conversation was kept, the window of history.
pub open spec fn turn_messages(
    session: Option<Seq<MessageView>>,
    stored: Seq<StoredMessageView>,
    prompt: Option<Seq<char>>,
    image: Option<(Seq<char>, Seq<char>)>,
) -> Seq<MessageView> {
    let base = match session {
        Some(s) => if s.len() > 0 {
            caught_up(s, stored)
        } else {
            built_from_history(stored)
        },
        None => built_from_history(stored),
    };
    with_image(with_prompt(base, prompt), image)
}

/// Which stored messages a turn needs.
#[derive(Clone, Copy, Debug, PartialEq, Eq, Structural)]
pub enum StoredQuery {
    /// What users wrote after the kept conversation was saved.
    NewSinceSaved,
    /// A window of history that starts after the bot's last reply.
    SinceLastBotResponse,
    /// The most recent messages.
    Recent,
}

/// Which stored messages a turn needs: with a kept conversation that holds
/// a message, what came after it; without, a window of history, which in a
/// group chat starts after the bot's last reply.
pub fn stored_query(session: &Option<Vec<Message>>, chat_type: &str) -> (r: StoredQuery)
    ensures
        r == (if session is Some && session->Some_0.len() > 0 {
            StoredQuery::NewSinceSaved
        } else if chat_type@ == "group"@ {
            StoredQuery::SinceLastBotResponse
        } else {
            StoredQuery::Recent
        }),
{
    let resumed = match session {
        Some(s) => s.len() > 0,
        None => false,
    };
    if resumed {
        StoredQuery::NewSinceSaved
    } else if str_eq(chat_type, "group") {
        StoredQuery::SinceLastBotResponse
    } else {
        StoredQuery::Recent
    }
}

/// Adds to a kept conversation what users wrote since it was saved.
pub fn catch_up(session: Vec<Message>, fresh: &[StoredMessage]) -> (r: Vec<Message>)
    ensures
        views(r@) == caught_up(views(session@), stored_views(fresh@)),
{
    let ghost f = stored_views(fresh@);
    let ghost start = views(session@);
    let mut messages = session;
    let mut i: usize = 0;
    while i < fresh.len()
        invariant
            i <= fresh.len(),
            f == stored_views(fresh@),
            views(messages@) == caught_up(start, f.take(i as int)),
        decreases fresh.len() - i,
    {
        let msg = &fresh[i];
        proof {
            assert(f.take(i + 1).drop_last() =~= f.take(i as int));
            assert(f.take(i + 1).last() == msg@);
        }
        let content = format_user_message(msg.sender_name.as_str(), msg.content.as_str());
        let n = messages.len();
        let ghost prev = views(messages@);
        let mergeable = n > 0 && messages[n - 1].role == Role::User && match &messages[n
            - 1].content {
            MessageContent::Text(_) => true,
            MessageContent::Blocks(_) => false,
        };
        if mergeable {
            let last = messages.pop().unwrap();
            assert(views(messages@) =~= prev.drop_last());
            let Message { role: _, content: last_content } = last;
            let mut text = match last_content {
                MessageContent::Text(t) => t,
                MessageContent::Blocks(_) => String::new(),
            };
            text.append("\n");
            text.append(content.as_str());
            let m = Message { role: Role::User, content: MessageContent::Text(text) };
            proof {
                lemma_views_push(messages@, m);
            }
            messages.push(m);
        } else {
            let m = Message { role: Role::User, content: MessageContent::Text(content) };
            proof {
                lemma_views_push(messages@, m);
            }
            messages.push(m);
        }
        i += 1;
    }
    assert(f.take(fresh.len() as int) =~= f);
    messages
}

/// Adds a scheduled prompt, if there is one, as a tagged message of the user.
pub fn add_override_prompt(messages: Vec<Message>, prompt: Option<&str>) -> (r: Vec<Message>)
    ensures
        views(r@) == with_prompt(
            views(messages@),
            match prompt {
                Some(p) => Some(p@),
                None => None,
            },
        ),
{
    let mut messages = messages;
    match prompt {
        Some(p) => {
            let mut text = String::new();
            text.append("[scheduler]: ");
            text.append(p);
            assert(text@ =~= "[scheduler]: "@ + p@);
            let m = Message { role: Role::User, content: MessageContent::Text(text) };
            proof {
                lemma_views_push(messages@, m);
            }
            messages.push(m);
        },
        None => {},
    }
    messages
}

/// The view of an image given as base64 data and a media type.
pub open spec fn image_view(image: Option<(String, String)>) -> Option<(Seq<char>, Seq<char>)> {
    match image {
        Some((data, media_type)) => Some((data@, media_type@)),
        None => None,
    }
}

/// Puts an image, if there is one, in front of the text of a last message
/// of the user. `image` holds the base64 data and the media type.
pub fn attach_image(messages: Vec<Message>, image: Option<(String, String)>) -> (r: Vec<Message>)
    ensures
        views(r@) == with_image(views(messages@), image_view(image)),
{
    let mut messages = messages;
    let ghost before = views(messages@);
    match image {
        Some((data, media_type)) => {
            let n = messages.len();
            if n > 0 && messages[n - 1].role == Role::User {
                let last = messages.pop().unwrap();
                assert(views(messages@) =~= before.drop_last());
                let Message { role: _, content: last_content } = last;
                let text = match last_content {
                    MessageContent::Text(t) => t,
                    MessageContent::Blocks(_) => String::new(),
                };
                let mut source_type = String::new();
                source_type.append("base64");
                assert(source_type@ =~= "base64"@);
                let mut blocks: Vec<ContentBlock> = Vec::new();
                blocks.push(
                    ContentBlock::Image { source: ImageSource { source_type, media_type, data } },
                );
                let ghost t = text@;
                if !text.as_str().is_empty() {
                    blocks.push(ContentBlock::Text { text });
                }
                let m = Message { role: Role::User, content: MessageContent::Blocks(blocks) };
                proof {
                    let expected = if t.len() > 0 {
                        seq![image_block(data@, media_type@), BlockView::Text { text: t }]
                    } else {
                        seq![image_block(data@, media_type@)]
                    };
                    assert(crate::message::block_views(blocks@) =~= expected);
                    lemma_views_push(messages@, m);
                }
                messages.push(m);
            }
        },
        None => {},
    }
    messages
}

/// The view of a kept conversation.
pub open spec fn session_view(session: Option<Vec<Message>>) -> Option<Seq<MessageView>> {
    match session {
        Some(s) => Some(views(s@)),
        None => None,
    }
}

/// The view of an optional text.
pub open spec fn text_view(t: Option<&str>) -> Option<Seq<char>> {
    match t {
        Some(p) => Some(p@),
        None => None,
    }
}

/// The messages to send for a turn. `session` is the conversation kept
/// since the last turn (`None` where there is none or it cannot be read);
/// `stored` holds the messages that `stored_query` names for it.
pub fn resume_or_build(
    session: Option<Vec<Message>>,
    stored: &[StoredMessage],
    bot_username: &str,
    override_prompt: Option<&str>,
    image_data: Option<(String, String)>,
) -> (r: Vec<Message>)
    ensures
        views(r@) == turn_messages(
            session_view(session),
            stored_views(stored@),
            text_view(override_prompt),
            image_view(image_data),
        ),
{
    let base = match session {
        Some(s) => {
            if s.len() > 0 {
                catch_up(s, stored)
            } else {
                history_to_claude_messages(stored, bot_username)
            }
        },
        None => history_to_claude_messages(stored, bot_username),
    };
    let prompted = add_override_prompt(base, override_prompt);
    attach_image(prompted, image_data)
}

/// Catching up never shortens a conversation.
pub proof fn lemma_caught_up_grows(session: Seq<MessageView>, fresh: Seq<StoredMessageView>)
    ensures
        caught_up(session, fresh).len() >= session.len(),
        fresh.len() > 0 ==> caught_up(session, fresh).len() > 0,
    decreases fresh.len(),
{
    if fresh.len() > 0 {
        lemma_caught_up_grows(session, fresh.drop_last());
    }
}

/// Merged history holds a message of each role that occurs in the history.
pub proof fn lemma_merged_history_keeps_roles(h: Seq<StoredMessageView>, i: int) -> (k: int)
    requires
        0 <= i < h.len(),
    ensures
        0 <= k < merged_history(h).len(),
        merged_history(h)[k].role == history_role(h[i]),
    decreases h.len(),
{
    let prev = merged_history(h.drop_last());
    if i == h.len() - 1 {
        merged_history(h).len() - 1
    } else {
        let k = lemma_merged_history_keeps_roles(h.drop_last(), i);
        k
    }
}

/// The messages of a turn are not empty when a scheduled prompt is given,
/// when a kept conversation that holds a message is resumed, or when the
/// stored history holds a message of a user.
pub proof fn lemma_turn_messages_not_empty(
    session: Option<Seq<MessageView>>,
    stored: Seq<StoredMessageView>,
    prompt: Option<Seq<char>>,
    image: Option<(Seq<char>, Seq<char>)>,
)
    requires
        prompt is Some || (session is Some && session->Some_0.len() > 0) || exists|i: int|
            0 <= i < stored.len() && !(#[trigger] stored[i]).is_from_bot,
    ensures
        turn_messages(session, stored, prompt, image).len() > 0,
{
    let base = match session {
        Some(s) => if s.len() > 0 {
            caught_up(s, stored)
        } else {
            built_from_history(stored)
        },
        None => built_from_history(stored),
    };
    if prompt is None {
        if session is Some && session->Some_0.len() > 0 {
            lemma_caught_up_grows(session->Some_0, stored);
        } else {
            let i = choose|i: int| 0 <= i < stored.len() && !(#[trigger] stored[i]).is_from_bot;
            let k = lemma_merged_history_keeps_roles(stored, i);
            let merged = merged_history(stored);
            let cut = without_trailing_assistant(merged);
            assert(cut[k].role == Role::User);
            let j = lemma_without_leading_assistants(cut);
            lemma_leading_are_assistants(cut, j);
            assert(j <= k);
        }
    }
}

/// Every message that `without_leading_assistants` drops is one of the
/// assistant.
pub proof fn lemma_leading_are_assistants(ms: Seq<MessageView>, k: int)
    requires
        0 <= k <= ms.len(),
        without_leading_assistants(ms) == ms.skip(k),
    ensures
        forall|i: int| 0 <= i < k ==> (#[trigger] ms[i]).role == Role::Assistant,
    decreases ms.len(),
{
    if ms.len() > 0 && ms[0].role == Role::Assistant {
        let j = lemma_without_leading_assistants(ms.drop_first());
        assert(ms.drop_first().skip(j) =~= ms.skip(j + 1));
        assert(ms.skip(j + 1).len() == ms.skip(k).len());
        assert(k == j + 1);
        lemma_leading_are_assistants(ms.drop_first(), j);
        assert forall|i: int| 0 <= i < k implies (#[trigger] ms[i]).role == Role::Assistant by {
            if i > 0 {
                assert(ms[i] == ms.drop_first()[i - 1]);
            }
        }
    } else {
        assert(ms.skip(k).len() == ms.len());
    }
}

} // verus!
