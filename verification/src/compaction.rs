//! Compaction of a long conversation: the older part is summarised, the
//! recent part is kept word for word.

use crate::message::{
    copy_messages, lemma_views_push, role_name, text_message, views, Message, MessageContent,
    MessageView, Role,
};
use crate::render::{content_text, message_to_text};
use crate::session::{alternates, without_trailing_assistant};
use crate::text::{clip_bytes, clipped};
use vstd::prelude::*;
use vstd::slice::slice_subrange;
use vstd::string::*;

verus! {

/// What the summariser is told it is.
pub const SUMMARIZER_SYSTEM: &'static str = "You are a helpful summarizer.";

/// What the summariser is asked to do.
pub const SUMMARIZE_PROMPT: &'static str =
    "Summarize the following conversation concisely, preserving key facts, decisions, tool results, and context needed to continue the conversation. Be brief but thorough.";

/// What stands for the assistant's reply to the summary.
pub const SUMMARY_ACK: &'static str = "Understood, I have the conversation context. How can I help?";

/// The transcript handed to the summariser is cut down to this many bytes.
pub const TRANSCRIPT_LIMIT: usize = 20000;

/// Whether a conversation of `len` messages has outgrown the threshold.
pub fn needs_compaction(len: usize, max_session_messages: usize) -> (r: bool)
    ensures
        r == (len > max_session_messages),
{
    len > max_session_messages
}

/// Where the recent part of a conversation of `total` messages begins.
pub open spec fn split_point(total: int, keep_recent: int) -> int {
    if total <= keep_recent {
        0
    } else {
        total - keep_recent
    }
}

/// The older part of a conversation: all but the last `keep_recent` messages.
pub open spec fn older_part(ms: Seq<MessageView>, keep_recent: int) -> Seq<MessageView> {
    ms.subrange(0, split_point(ms.len() as int, keep_recent))
}

/// The recent part of a conversation: its last `keep_recent` messages.
pub open spec fn recent_tail(ms: Seq<MessageView>, keep_recent: int) -> Seq<MessageView> {
    ms.subrange(split_point(ms.len() as int, keep_recent), ms.len() as int)
}

/// One message as it stands in the transcript.
pub open spec fn transcript_entry(m: MessageView) -> Seq<char> {
    "["@ + role_name(m.role) + "]: "@ + content_text(m.content) + "\n\n"@
}

/// The conversation as a flat transcript.
pub open spec fn transcript(ms: Seq<MessageView>) -> Seq<char>
    decreases ms.len(),
{
    if ms.len() == 0 {
        Seq::empty()
    } else {
        transcript(ms.drop_last()) + transcript_entry(ms.last())
    }
}

/// The transcript as the summariser gets it: cut down to the limit on a
/// character boundary, with a note where it was cut.
pub open spec fn summary_input(ms: Seq<MessageView>) -> Seq<char> {
    clipped(transcript(ms), TRANSCRIPT_LIMIT as int, "\n... (truncated)"@)
}

/// The request put to the summariser for the older part `ms`.
pub open spec fn summary_request_text(ms: Seq<MessageView>) -> Seq<char> {
    SUMMARIZE_PROMPT@ + "\n\n---\n\n"@ + summary_input(ms)
}

/// Writes messages out as a flat transcript.
pub fn render_transcript(v: &[Message]) -> (r: String)
    ensures
        r@ == transcript(views(v@)),
{
    let ghost ms = views(v@);
    let mut out = String::new();
    let mut i: usize = 0;
    while i < v.len()
        invariant
            i <= v.len(),
            ms == views(v@),
            out@ == transcript(ms.take(i as int)),
        decreases v.len() - i,
    {
        proof {
            assert(ms.take(i + 1).drop_last() =~= ms.take(i as int));
            assert(ms.take(i + 1).last() == v@[i as int]@);
        }
        let text = message_to_text(&v[i]);
        let ghost before = out@;
        out.append("[");
        out.append(v[i].role.as_str());
        out.append("]: ");
        out.append(text.as_str());
        out.append("\n\n");
        assert(out@ =~= before + transcript_entry(v@[i as int]@));
        i += 1;
    }
    assert(ms.take(v.len() as int) =~= ms);
    out
}

/// The messages to send to the summariser, or `None` where the
/// conversation has no more than `keep_recent` messages and is left alone.
pub fn summary_request(messages: &Vec<Message>, keep_recent: usize) -> (r: Option<Vec<Message>>)
    ensures
        messages.len() <= keep_recent ==> r is None,
        messages.len() > keep_recent ==> r is Some && views(r->Some_0@) == seq![
            text_message(
                Role::User,
                summary_request_text(older_part(views(messages@), keep_recent as int)),
            ),
        ],
{
    let total = messages.len();
    if total <= keep_recent {
        return None;
    }
    let split_at = total - keep_recent;
    let older = slice_subrange(messages.as_slice(), 0, split_at);
    assert(views(older@) =~= older_part(views(messages@), keep_recent as int));
    let rendered = render_transcript(older);
    let input = clip_bytes(rendered.as_str(), TRANSCRIPT_LIMIT, "\n... (truncated)");
    let mut text = String::new();
    text.append(SUMMARIZE_PROMPT);
    text.append("\n\n---\n\n");
    text.append(input.as_str());
    assert(text@ =~= summary_request_text(older_part(views(messages@), keep_recent as int)));
    let m = Message { role: Role::User, content: MessageContent::Text(text) };
    let mut r: Vec<Message> = Vec::new();
    proof {
        lemma_views_push(r@, m);
    }
    r.push(m);
    assert(views(r@) =~= seq![m@]);
    Some(r)
}

/// The conversation `acc` with `m` added: merged as plain text into a last
/// message of the same role, appended otherwise.
pub open spec fn merged_into(acc: Seq<MessageView>, m: MessageView) -> Seq<MessageView> {
    if acc.len() > 0 && acc.last().role == m.role {
        acc.drop_last().push(
            text_message(
                acc.last().role,
                content_text(acc.last().content) + "\n"@ + content_text(m.content),
            ),
        )
    } else {
        acc.push(m)
    }
}

/// The conversation `acc` with the messages of `recent` added one by one.
pub open spec fn repaired(acc: Seq<MessageView>, recent: Seq<MessageView>) -> Seq<MessageView>
    decreases recent.len(),
{
    if recent.len() == 0 {
        acc
    } else {
        merged_into(repaired(acc, recent.drop_last()), recent.last())
    }
}

/// The two messages that stand for the summarised part.
pub open spec fn summary_head(summary: Seq<char>) -> Seq<MessageView> {
    seq![
        text_message(Role::User, "[Conversation Summary]\n"@ + summary),
        text_message(Role::Assistant, SUMMARY_ACK@),
    ]
}

/// The compacted conversation: the summary, its acknowledgement and the
/// recent part, with roles made to alternate and no assistant at the end.
pub open spec fn compacted(summary: Seq<char>, recent: Seq<MessageView>) -> Seq<MessageView> {
    without_trailing_assistant(repaired(summary_head(summary), recent))
}

/// What compaction makes of a conversation. `summary` is the summariser's
/// text, or `None` where it failed.
pub open spec fn compaction_result(
    ms: Seq<MessageView>,
    keep_recent: int,
    summary: Option<Seq<char>>,
) -> Seq<MessageView> {
    if ms.len() <= keep_recent {
        ms
    } else {
        match summary {
            None => recent_tail(ms, keep_recent),
            Some(s) => compacted(s, recent_tail(ms, keep_recent)),
        }
    }
}

/// Compacts a conversation once the summariser has answered. With no more
/// than `keep_recent` messages it is returned as it is. Where the
/// summariser failed (`summary` is `None`) only the recent part is kept.
/// Otherwise the older part gives way to the summary.
pub fn compact_messages(messages: &Vec<Message>, keep_recent: usize, summary: Option<&str>) -> (r:
    Vec<Message>)
    ensures
        views(r@) == compaction_result(
            views(messages@),
            keep_recent as int,
            match summary {
                Some(s) => Some(s@),
                None => None,
            },
        ),
{
    let total = messages.len();
    if total <= keep_recent {
        let r = copy_messages(messages, 0, total);
        assert(views(messages@).subrange(0, total as int) =~= views(messages@));
        return r;
    }
    let split_at = total - keep_recent;
    let ghost recent = recent_tail(views(messages@), keep_recent as int);
    let text = match summary {
        None => {
            return copy_messages(messages, split_at, total);
        },
        Some(s) => s,
    };
    let mut head = String::new();
    head.append("[Conversation Summary]\n");
    head.append(text);
    assert(head@ =~= "[Conversation Summary]\n"@ + text@);
    let mut ack = String::new();
    ack.append(SUMMARY_ACK);
    assert(ack@ =~= SUMMARY_ACK@);
    let mut out: Vec<Message> = Vec::new();
    let first = Message { role: Role::User, content: MessageContent::Text(head) };
    let second = Message { role: Role::Assistant, content: MessageContent::Text(ack) };
    proof {
        lemma_views_push(out@, first);
        lemma_views_push(out@.push(first), second);
    }
    out.push(first);
    out.push(second);
    assert(views(out@) =~= summary_head(text@));
    let mut i: usize = split_at;
    while i < total
        invariant
            split_at <= i <= total,
            total == messages.len(),
            recent == views(messages@).subrange(split_at as int, total as int),
            views(out@) == repaired(summary_head(text@), recent.take(i - split_at)),
        decreases total - i,
    {
        let msg = &messages[i];
        proof {
            assert(recent.take(i + 1 - split_at).drop_last() =~= recent.take(i - split_at));
            assert(recent.take(i + 1 - split_at).last() == msg@);
        }
        let n = out.len();
        let ghost prev = views(out@);
        if n > 0 && out[n - 1].role == msg.role {
            let existing = message_to_text(&out[n - 1]);
            let added = message_to_text(msg);
            let last = out.pop().unwrap();
            assert(views(out@) =~= prev.drop_last());
            let mut merged = existing;
            merged.append("\n");
            merged.append(added.as_str());
            let m = Message { role: last.role, content: MessageContent::Text(merged) };
            proof {
                lemma_views_push(out@, m);
            }
            out.push(m);
        } else {
            let m = msg.clone();
            proof {
                lemma_views_push(out@, m);
            }
            out.push(m);
        }
        i += 1;
    }
    assert(recent.take(total - split_at) =~= recent);
    let n = out.len();
    let ghost full = views(out@);
    if n > 0 && out[n - 1].role == Role::Assistant {
        out.pop();
        assert(views(out@) =~= full.drop_last());
    }
    out
}

/// Where the recent messages alternate and do not begin in the role that
/// `acc` ends in, adding them one by one merges nothing.
pub proof fn lemma_repaired_appends(acc: Seq<MessageView>, recent: Seq<MessageView>)
    requires
        alternates(recent),
        acc.len() > 0 && recent.len() > 0 ==> acc.last().role != recent[0].role,
    ensures
        repaired(acc, recent) == acc + recent,
    decreases recent.len(),
{
    if recent.len() == 0 {
        assert(acc + recent =~= acc);
    } else {
        let init = recent.drop_last();
        assert(alternates(init)) by {
            assert forall|i: int, j: int| 0 <= i && j == i + 1 && j < init.len() implies (
            #[trigger] init[i]).role != (#[trigger] init[j]).role by {
                assert(init[i] == recent[i]);
                assert(init[j] == recent[j]);
            }
        }
        lemma_repaired_appends(acc, init);
        let sofar = acc + init;
        if init.len() > 0 {
            assert(sofar.last() == recent[recent.len() - 2]);
            assert(recent[recent.len() - 2].role != recent[recent.len() - 1].role);
        } else if acc.len() > 0 {
            assert(sofar.last() == acc.last());
        }
        assert(sofar.push(recent.last()) =~= acc + recent);
    }
}

/// Adding messages one by one is the same as adding the first and then
/// the others.
pub proof fn lemma_repaired_first(acc: Seq<MessageView>, recent: Seq<MessageView>)
    requires
        recent.len() > 0,
    ensures
        repaired(acc, recent) == repaired(merged_into(acc, recent[0]), recent.drop_first()),
    decreases recent.len(),
{
    let start = merged_into(acc, recent[0]);
    if recent.len() == 1 {
        assert(recent.drop_last().len() == 0);
        assert(recent.drop_first().len() == 0);
        assert(repaired(acc, recent.drop_last()) == acc);
        assert(repaired(start, recent.drop_first()) == start);
    } else {
        let init = recent.drop_last();
        let rest = recent.drop_first();
        lemma_repaired_first(acc, init);
        assert(init.drop_first() =~= rest.drop_last());
        assert(init[0] == recent[0]);
        assert(rest.last() == recent.last());
        assert(repaired(acc, init) == repaired(start, rest.drop_last()));
        assert(repaired(start, rest) == merged_into(
            repaired(start, rest.drop_last()),
            rest.last(),
        ));
    }
}

/// Adding messages one by one to a conversation that alternates gives one
/// that alternates, is no shorter and begins as before.
pub proof fn lemma_repaired_alternates(acc: Seq<MessageView>, recent: Seq<MessageView>)
    requires
        alternates(acc),
    ensures
        alternates(repaired(acc, recent)),
        repaired(acc, recent).len() >= acc.len(),
        acc.len() > 0 ==> repaired(acc, recent)[0].role == acc[0].role,
    decreases recent.len(),
{
    if recent.len() > 0 {
        lemma_repaired_alternates(acc, recent.drop_last());
        let prev = repaired(acc, recent.drop_last());
        let next = merged_into(prev, recent.last());
        assert forall|i: int, j: int| 0 <= i && j == i + 1 && j < next.len() implies (
        #[trigger] next[i]).role != (#[trigger] next[j]).role by {
            if j < prev.len() - 1 {
                assert(next[i] == prev[i]);
                assert(next[j] == prev[j]);
            } else if j == prev.len() - 1 {
                assert(next[i] == prev[i]);
                assert(next[j].role == prev[j].role);
            } else {
                assert(next[i] == prev[i]);
            }
        }
    }
}

/// A compacted conversation alternates, begins with the summary and ends
/// with a message of the user.
pub proof fn lemma_compacted_shape(summary: Seq<char>, recent: Seq<MessageView>)
    ensures
        alternates(compacted(summary, recent)),
        compacted(summary, recent).len() >= 1,
        compacted(summary, recent)[0].role == Role::User,
        compacted(summary, recent).last().role == Role::User,
{
    let head = summary_head(summary);
    assert(alternates(head));
    lemma_repaired_alternates(head, recent);
    let full = repaired(head, recent);
    let cut = compacted(summary, recent);
    if full.last().role == Role::Assistant {
        assert(full[full.len() - 2].role != full[full.len() - 1].role);
        assert forall|i: int, j: int| 0 <= i && j == i + 1 && j < cut.len() implies (
        #[trigger] cut[i]).role != (#[trigger] cut[j]).role by {
            assert(cut[i] == full[i]);
            assert(cut[j] == full[j]);
        }
    }
}

/// Keeping the recent part of what is already a recent part changes
/// nothing: where the summariser fails twice, the second compaction
/// returns what the first returned.
pub proof fn lemma_recent_tail_idempotent(ms: Seq<MessageView>, keep_recent: nat)
    ensures
        recent_tail(recent_tail(ms, keep_recent as int), keep_recent as int) == recent_tail(
            ms,
            keep_recent as int,
        ),
        forall|again: Option<Seq<char>>|
            #![trigger compaction_result(compaction_result(ms, keep_recent as int, None), keep_recent as int, again)]
            compaction_result(
                compaction_result(ms, keep_recent as int, None),
                keep_recent as int,
                again,
            ) == compaction_result(ms, keep_recent as int, None),
{
    let tail = recent_tail(ms, keep_recent as int);
    assert(recent_tail(tail, keep_recent as int) =~= tail);
}

/// Compacting a compacted conversation again with the same number of
/// recent messages keeps its recent part. Where the conversation has come
/// down to `keep_recent` messages or fewer, nothing changes at all.
/// Otherwise the last `keep_recent - 1` messages are the same after the
/// second compaction; and so is the one before them, unless it is a message
/// of the assistant, which is then merged into the acknowledgement of the
/// new summary.
pub proof fn lemma_compaction_keeps_recent_tail(
    ms: Seq<MessageView>,
    keep_recent: nat,
    first: Seq<char>,
    second: Seq<char>,
)
    ensures
        ({
            let keep = keep_recent as int;
            let once = compaction_result(ms, keep, Some(first));
            let twice = compaction_result(once, keep, Some(second));
            &&& once.len() <= keep ==> twice == once
            &&& ms.len() > keep && once.len() > keep && keep >= 1 ==> recent_tail(twice, keep - 1)
                == recent_tail(once, keep - 1)
            &&& ms.len() > keep && once.len() > keep && keep >= 1 && recent_tail(
                once,
                keep,
            )[0].role == Role::User ==> recent_tail(twice, keep) == recent_tail(once, keep)
            &&& ms.len() > keep && keep == 0 ==> recent_tail(twice, keep) == recent_tail(
                once,
                keep,
            )
        }),
{
    let keep = keep_recent as int;
    let once = compaction_result(ms, keep, Some(first));
    let twice = compaction_result(once, keep, Some(second));
    if ms.len() > keep && once.len() > keep {
        lemma_compacted_shape(first, recent_tail(ms, keep));
        let tail = recent_tail(once, keep);
        let head = summary_head(second);
        assert(twice == compacted(second, tail));
        if keep == 0 {
            assert(recent_tail(twice, keep) =~= recent_tail(once, keep));
        } else {
            assert(tail.len() == keep);
            assert(tail.last() == once.last());
            assert(alternates(tail)) by {
                assert forall|i: int, j: int| 0 <= i && j == i + 1 && j < tail.len() implies (
                #[trigger] tail[i]).role != (#[trigger] tail[j]).role by {
                    assert(tail[i] == once[i + once.len() - keep]);
                    assert(tail[j] == once[j + once.len() - keep]);
                }
            }
            if tail[0].role == Role::User {
                lemma_repaired_appends(head, tail);
                let full = head + tail;
                assert(full.last() == tail.last());
                assert(twice == full);
                assert(recent_tail(twice, keep) =~= tail);
                assert(recent_tail(twice, keep - 1) =~= recent_tail(once, keep - 1));
            } else {
                lemma_repaired_first(head, tail);
                let start = merged_into(head, tail[0]);
                let rest = tail.drop_first();
                assert(start.len() == 2);
                assert(start.last().role == Role::Assistant);
                assert(alternates(rest)) by {
                    assert forall|i: int, j: int|
                        0 <= i && j == i + 1 && j < rest.len() implies (#[trigger] rest[i]).role
                        != (#[trigger] rest[j]).role by {
                        assert(rest[i] == tail[i + 1]);
                        assert(rest[j] == tail[j + 1]);
                    }
                }
                assert(keep >= 2);
                assert(rest[0] == tail[1]);
                assert(tail[0].role != tail[1].role);
                lemma_repaired_appends(start, rest);
                let full = start + rest;
                assert(full.last() == tail.last());
                assert(twice == full);
                assert(recent_tail(twice, keep - 1) =~= rest);
                assert(recent_tail(once, keep - 1) =~= rest);
            }
        }
    }
}

} // verus!
