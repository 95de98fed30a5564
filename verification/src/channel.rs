//! What a channel decides when a message comes in, before the agent is
//! asked.

use crate::chars::{
    contains, decimal_nat, find_from_exec, push_decimal_nat, str_eq, to_chars, trim, trim_exec,
};
use vstd::prelude::*;
use vstd::string::*;

verus! {

/// A command that a channel serves itself.
#[derive(Clone, Copy, Debug, PartialEq, Eq, Structural)]
pub enum ChatCommand {
    /// Forget the kept conversation.
    Reset,
    /// List the skills.
    Skills,
    /// Export the kept conversation.
    Archive,
}

/// The command that a message is, white space around it aside.
pub open spec fn command_of(text: Seq<char>) -> Option<ChatCommand> {
    if trim(text) == "/reset"@ {
        Some(ChatCommand::Reset)
    } else if trim(text) == "/skills"@ {
        Some(ChatCommand::Skills)
    } else if trim(text) == "/archive"@ {
        Some(ChatCommand::Archive)
    } else {
        None
    }
}

/// The command that a message is, if it is one.
pub fn chat_command(text: &str) -> (r: Option<ChatCommand>)
    ensures
        r == command_of(text@),
{
    let t = trim_exec(text);
    if str_eq(t.as_str(), "/reset") {
        Some(ChatCommand::Reset)
    } else if str_eq(t.as_str(), "/skills") {
        Some(ChatCommand::Skills)
    } else if str_eq(t.as_str(), "/archive") {
        Some(ChatCommand::Archive)
    } else {
        None
    }
}

/// Whether the bot answers a message: always in a private chat, elsewhere
/// only where the message names it with an at sign.
pub open spec fn answers(chat_type: Seq<char>, text: Seq<char>, bot_username: Seq<char>) -> bool {
    chat_type == "private"@ || contains(text, "@"@ + bot_username)
}

/// Whether the bot answers a message.
pub fn should_respond(chat_type: &str, text: &str, bot_username: &str) -> (r: bool)
    ensures
        r == answers(chat_type@, text@, bot_username@),
{
    if str_eq(chat_type, "private") {
        return true;
    }
    let mut mention = "@".to_owned();
    mention.append(bot_username);
    let hay = to_chars(text);
    let needle = to_chars(mention.as_str());
    find_from_exec(&hay, &needle, 0).is_some()
}

/// Whether messages of the chat are worked on: those of a group chat only
/// where the list of allowed groups is empty or holds the chat.
pub open spec fn chat_allowed(chat_type: Seq<char>, allowed_groups: Seq<i64>, chat_id: i64) -> bool {
    chat_type != "group"@ || allowed_groups.len() == 0 || allowed_groups.contains(chat_id)
}

/// Whether messages of the chat are worked on.
pub fn is_chat_allowed(chat_type: &str, allowed_groups: &Vec<i64>, chat_id: i64) -> (r: bool)
    ensures
        r == chat_allowed(chat_type@, allowed_groups@, chat_id),
{
    if !str_eq(chat_type, "group") || allowed_groups.len() == 0 {
        return true;
    }
    let mut i: usize = 0;
    while i < allowed_groups.len()
        invariant
            i <= allowed_groups.len(),
            forall|k: int| 0 <= k < i ==> allowed_groups@[k] != chat_id,
        decreases allowed_groups.len() - i,
    {
        if allowed_groups[i] == chat_id {
            return true;
        }
        i += 1;
    }
    false
}

/// What is stored of a message: its text, or a note that an image came
/// with it, followed by the text if there is any.
pub open spec fn stored_text(text: Seq<char>, has_image: bool) -> Seq<char> {
    if has_image {
        if text.len() == 0 {
            "[image]"@
        } else {
            "[image]"@ + " "@ + text
        }
    } else {
        text
    }
}

/// What is stored of a message.
pub fn stored_content(text: &str, has_image: bool) -> (r: String)
    ensures
        r@ == stored_text(text@, has_image),
{
    if has_image {
        let mut r = "[image]".to_owned();
        if !text.is_empty() {
            r.append(" ");
            r.append(text);
        }
        r
    } else {
        text.to_owned()
    }
}

/// What is answered to the archive command, given how many messages the
/// kept conversation holds, if there is one.
pub open spec fn archive_answer(kept: Option<usize>) -> Seq<char> {
    match kept {
        Some(n) => if n == 0 {
            "No session to archive."@
        } else {
            "Archived "@ + decimal_nat(n as nat) + " messages."@
        },
        None => "No session to archive."@,
    }
}

/// What is answered to the archive command.
pub fn archive_reply(kept: Option<usize>) -> (r: String)
    ensures
        r@ == archive_answer(kept),
{
    match kept {
        Some(n) => {
            if n == 0 {
                "No session to archive.".to_owned()
            } else {
                let mut r = "Archived ".to_owned();
                push_decimal_nat(&mut r, n as u128);
                r.append(" messages.");
                r
            }
        },
        None => "No session to archive.".to_owned(),
    }
}

/// What is answered when a web chat tries to act on another chat.
pub const WEB_CROSS_CHAT_DENIED: &'static str =
    "Permission denied: web chats cannot operate on other chats";

/// Whether a chat is a web chat, by the kind that the store holds for it:
/// a chat of which the store knows no kind is none.
pub fn is_web_chat(chat_type: Option<&str>) -> (r: bool)
    ensures
        r == (chat_type is Some && chat_type->Some_0@ == "web"@),
{
    match chat_type {
        Some(t) => str_eq(t, "web"),
        None => false,
    }
}

/// Whether a tool call is refused because a web chat tries to act on
/// another chat. `caller` is the chat on whose behalf the tool runs, if
/// the call says so, and whether that chat is a web chat.
pub open spec fn policy_refuses(caller: Option<(i64, bool)>, target_chat_id: i64) -> bool {
    match caller {
        Some((caller_chat_id, caller_is_web)) => caller_is_web && caller_chat_id != target_chat_id,
        None => false,
    }
}

/// Refuses a tool call by which a web chat would act on another chat.
pub fn enforce_channel_policy(caller: Option<(i64, bool)>, target_chat_id: i64) -> (r: Result<
    (),
    String,
>)
    ensures
        r is Err <==> policy_refuses(caller, target_chat_id),
        r is Err ==> r->Err_0@ == WEB_CROSS_CHAT_DENIED@,
{
    match caller {
        Some((caller_chat_id, caller_is_web)) => {
            if caller_is_web && caller_chat_id != target_chat_id {
                Err(WEB_CROSS_CHAT_DENIED.to_owned())
            } else {
                Ok(())
            }
        },
        None => Ok(()),
    }
}

/// Whether messages of a channel on Discord are worked on: all where the
/// list of allowed channels is empty, else those of the channels in it.
pub fn is_channel_allowed(allowed_channels: &Vec<u64>, channel_id: u64) -> (r: bool)
    ensures
        r == (allowed_channels@.len() == 0 || allowed_channels@.contains(channel_id)),
{
    if allowed_channels.len() == 0 {
        return true;
    }
    let mut i: usize = 0;
    while i < allowed_channels.len()
        invariant
            i <= allowed_channels.len(),
            forall|k: int| 0 <= k < i ==> allowed_channels@[k] != channel_id,
        decreases allowed_channels.len() - i,
    {
        if allowed_channels[i] == channel_id {
            return true;
        }
        i += 1;
    }
    false
}

/// What is reported when a service refused a message: the status and the
/// first 300 characters of what it answered.
pub fn delivery_failure(service: &str, status: &str, body: &str) -> (r: String)
    ensures
        r@ == "Failed to send "@ + service@ + " message: HTTP "@ + status@ + " "@
            + crate::text::preview_of(body@, 300, ""@),
{
    let shown = crate::text::clip_chars(body, 300, "");
    let mut r = "Failed to send ".to_owned();
    r.append(service);
    r.append(" message: HTTP ");
    r.append(status);
    r.append(" ");
    r.append(shown.as_str());
    r
}

} // verus!
