//! The windows of stored history from which a conversation is rebuilt or
//! caught up.

use crate::chars::{str_less, text_less};
use crate::message::{stored_views, StoredMessage, StoredMessageView};
use vstd::prelude::*;
use vstd::slice::slice_subrange;
use vstd::string::*;

verus! {

/// Where the last `n` of `len` entries begin.
pub open spec fn tail_start(len: int, n: int) -> int {
    if len > n {
        len - n
    } else {
        0
    }
}

/// Position of the last message of the bot.
pub open spec fn last_bot(h: Seq<StoredMessageView>) -> Option<int>
    decreases h.len(),
{
    if h.len() == 0 {
        None
    } else if h.last().is_from_bot {
        Some(h.len() - 1)
    } else {
        last_bot(h.drop_last())
    }
}

/// Where the window of a group chat begins: at the bot's last reply, but
/// so that no more than `max` messages follow; or, where the bot never
/// replied, at the last `fallback` messages.
pub open spec fn group_window_start(h: Seq<StoredMessageView>, max: int, fallback: int) -> int {
    match last_bot(h) {
        Some(b) => if b >= tail_start(h.len() as int, max) {
            b
        } else {
            tail_start(h.len() as int, max)
        },
        None => tail_start(h.len() as int, fallback),
    }
}

fn find_last_bot(history: &[StoredMessage]) -> (r: Option<usize>)
    ensures
        match r {
            Some(b) => last_bot(stored_views(history@)) == Some(b as int) && b < history.len(),
            None => last_bot(stored_views(history@)) is None,
        },
{
    let ghost h = stored_views(history@);
    let mut i: usize = history.len();
    assert(h.take(i as int) =~= h);
    while i > 0
        invariant
            i <= history.len(),
            h == stored_views(history@),
            last_bot(h) == last_bot(h.take(i as int)),
        decreases i,
    {
        proof {
            assert(h.take(i as int).drop_last() =~= h.take(i - 1));
            assert(h.take(i as int).last() == history@[i - 1]@);
        }
        if history[i - 1].is_from_bot {
            return Some(i - 1);
        }
        i -= 1;
    }
    None
}

fn start_of_tail(len: usize, n: usize) -> (r: usize)
    ensures
        r == tail_start(len as int, n as int),
        r <= len,
{
    if len > n {
        len - n
    } else {
        0
    }
}

/// The window of a direct chat: its last `n` stored messages.
pub fn recent_window(history: &[StoredMessage], n: usize) -> (r: &[StoredMessage])
    ensures
        r@ == history@.subrange(tail_start(history@.len() as int, n as int), history@.len() as int),
{
    let start = start_of_tail(history.len(), n);
    slice_subrange(history, start, history.len())
}

/// The window of a group chat: the stored messages from the bot's last
/// reply on, but no more than the last `max`; or the last `fallback`
/// messages where the bot never replied.
pub fn since_last_bot_window(history: &[StoredMessage], max: usize, fallback: usize) -> (r: &[
    StoredMessage
])
    ensures
        r@ == history@.subrange(
            group_window_start(stored_views(history@), max as int, fallback as int),
            history@.len() as int,
        ),
{
    let start = match find_last_bot(history) {
        Some(b) => {
            let capped = start_of_tail(history.len(), max);
            if b >= capped {
                b
            } else {
                capped
            }
        },
        None => start_of_tail(history.len(), fallback),
    };
    slice_subrange(history, start, history.len())
}

/// Whether a stored message is one that a user wrote after the moment
/// `since`. Moments are compared as they are written.
pub open spec fn is_new_from_user(m: StoredMessageView, since: Seq<char>) -> bool {
    !m.is_from_bot && text_less(since, m.timestamp)
}

/// The stored messages that users wrote after the moment `since`.
pub open spec fn new_from_users(h: Seq<StoredMessageView>, since: Seq<char>) -> Seq<
    StoredMessageView,
>
    decreases h.len(),
{
    if h.len() == 0 {
        Seq::empty()
    } else if is_new_from_user(h.last(), since) {
        new_from_users(h.drop_last(), since).push(h.last())
    } else {
        new_from_users(h.drop_last(), since)
    }
}

/// The stored messages that users wrote after the kept conversation was
/// saved at the moment `since`.
pub fn new_user_messages_since(history: &[StoredMessage], since: &str) -> (r: Vec<StoredMessage>)
    ensures
        stored_views(r@) == new_from_users(stored_views(history@), since@),
{
    let ghost h = stored_views(history@);
    let mut out: Vec<StoredMessage> = Vec::new();
    let mut i: usize = 0;
    assert(stored_views(out@) =~= new_from_users(h.take(0), since@));
    while i < history.len()
        invariant
            i <= history.len(),
            h == stored_views(history@),
            stored_views(out@) == new_from_users(h.take(i as int), since@),
        decreases history.len() - i,
    {
        proof {
            assert(h.take(i + 1).drop_last() =~= h.take(i as int));
            assert(h.take(i + 1).last() == history@[i as int]@);
        }
        let m = &history[i];
        if !m.is_from_bot && str_less(since, m.timestamp.as_str()) {
            let ghost before = stored_views(out@);
            let copy = m.clone();
            out.push(copy);
            assert(stored_views(out@) =~= before.push(m@));
        }
        i += 1;
    }
    assert(h.take(history.len() as int) =~= h);
    out
}

} // verus!
