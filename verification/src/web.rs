//! What the web channel decides: which chat a session is, who may ask,
//! and how a session is listed.

use crate::chars::{
    decimal, from_chars, matches_at, matches_at_exec, push_decimal, to_chars, trim, trim_bounds,
    trim_exec,
};
use std::collections::hash_map::DefaultHasher;
use std::hash::Hasher;
use vstd::prelude::*;
use vstd::std_specs::hash::DefaultHasherAdditionalSpecFns;
use vstd::string::*;
use vstd::utf8::encode_utf8;

verus! {

/// The key of the session that is meant where none is given.
pub const DEFAULT_SESSION_KEY: &'static str = "main";

/// The key of a session as it is used: trimmed, and the default where
/// nothing is left.
pub open spec fn session_key(given: Option<Seq<char>>) -> Seq<char> {
    match given {
        Some(k) => if trim(k).len() == 0 {
            DEFAULT_SESSION_KEY@
        } else {
            trim(k)
        },
        None => DEFAULT_SESSION_KEY@,
    }
}

/// The key of a session as it is used.
pub fn normalize_session_key(key: Option<&str>) -> (r: String)
    ensures
        r@ == session_key(
            match key {
                Some(k) => Some(k@),
                None => None,
            },
        ),
{
    match key {
        Some(k) => {
            let t = trim_exec(k);
            if t.as_str().is_empty() {
                DEFAULT_SESSION_KEY.to_owned()
            } else {
                t
            }
        },
        None => DEFAULT_SESSION_KEY.to_owned(),
    }
}

/// The number of the chat that a hash stands for: its lower 62 bits.
pub fn chat_id_from_hash(hash: u64) -> (r: i64)
    ensures
        r == (hash & 0x3FFF_FFFF_FFFF_FFFF),
        0 <= r <= 0x3FFF_FFFF_FFFF_FFFF,
{
    let low: u64 = hash & 0x3FFF_FFFF_FFFF_FFFF;
    assert(low <= 0x3FFF_FFFF_FFFF_FFFF) by (bit_vector)
        requires
            low == hash & 0x3FFF_FFFF_FFFF_FFFF,
    ;
    low as i64
}

/// What is hashed for a session: the bytes of `web:` and the key, and
/// then the one byte that ends a text.
pub open spec fn session_hash_input(session_key: Seq<char>) -> Seq<Seq<u8>> {
    seq![encode_utf8("web:"@ + session_key), seq![0xFFu8]]
}

/// The number of the chat that stands for a web session.
pub open spec fn session_chat_id(session_key: Seq<char>) -> int {
    (DefaultHasher::spec_finish(session_hash_input(session_key)) & 0x3FFF_FFFF_FFFF_FFFF) as int
}

/// The number of the chat that stands for a web session: the lower 62
/// bits of the hash of `web:` and the key. The same key always gives the
/// same chat, and the number is never negative.
pub fn session_key_to_chat_id(session_key: &str) -> (r: i64)
    ensures
        r == session_chat_id(session_key@),
        0 <= r <= 0x3FFF_FFFF_FFFF_FFFF,
{
    let mut text = "web:".to_owned();
    text.append(session_key);
    let end: [u8; 1] = [0xFF];
    assert(end@ =~= seq![0xFFu8]);
    let mut hasher = DefaultHasher::new();
    hasher.write(text.as_str().as_bytes());
    hasher.write(end.as_slice());
    assert(hasher@ =~= session_hash_input(session_key@));
    chat_id_from_hash(hasher.finish())
}

/// What the store knows of a chat.
#[derive(Debug, PartialEq, Eq)]
pub struct ChatSummary {
    pub chat_id: i64,
    pub chat_title: Option<String>,
    pub chat_type: String,
    pub last_message_time: String,
    pub last_message_preview: Option<String>,
}

/// A session as the web channel lists it.
#[derive(Debug, PartialEq, Eq)]
pub struct SessionItem {
    pub session_key: String,
    pub chat_id: i64,
    pub last_message_time: String,
    pub last_message_preview: Option<String>,
}

/// A chat as a session of the web channel: its key is the chat's title,
/// or `web-` and the chat's number where it has none.
pub fn map_chat_to_session(chat: ChatSummary) -> (r: SessionItem)
    ensures
        r.chat_id == chat.chat_id,
        r.session_key@ == (match chat.chat_title {
            Some(t) => t@,
            None => "web-"@ + decimal(chat.chat_id as int),
        }),
        r.last_message_time@ == chat.last_message_time@,
        r.last_message_preview == chat.last_message_preview,
{
    let ChatSummary { chat_id, chat_title, chat_type: _, last_message_time, last_message_preview } =
        chat;
    let session_key = match chat_title {
        Some(t) => t,
        None => {
            let mut k = "web-".to_owned();
            push_decimal(&mut k, chat_id);
            k
        },
    };
    SessionItem { session_key, chat_id, last_message_time, last_message_preview }
}

/// The token that a request carries: what follows `Bearer ` in its
/// authorisation header, trimmed; none where the header is missing, does
/// not begin so, or carries nothing.
pub open spec fn bearer_token(header: Option<Seq<char>>) -> Option<Seq<char>> {
    match header {
        Some(h) => if matches_at(h, "Bearer "@, 0) && trim(h.skip("Bearer "@.len() as int)).len()
            > 0 {
            Some(trim(h.skip("Bearer "@.len() as int)))
        } else {
            None
        },
        None => None,
    }
}

/// The token that a request carries in its authorisation header.
pub fn auth_token_from_header(header: Option<&str>) -> (r: Option<String>)
    ensures
        (match r {
            Some(t) => Some(t@),
            None => None,
        }) == bearer_token(
            match header {
                Some(h) => Some(h@),
                None => None,
            },
        ),
{
    match header {
        Some(h) => {
            let v = to_chars(h);
            let prefix = to_chars("Bearer ");
            if matches_at_exec(&v, &prefix, 0) {
                let (lo, hi) = trim_bounds(&v, prefix.len(), v.len());
                assert(v@.subrange(prefix.len() as int, v.len() as int) =~= v@.skip(
                    prefix.len() as int,
                ));
                if hi > lo {
                    Some(from_chars(&v, lo, hi))
                } else {
                    None
                }
            } else {
                None
            }
        },
        None => None,
    }
}

/// Whether a request may be served: always where no token is expected;
/// else where it carries the expected token. A request without a token
/// counts as carrying the empty one.
pub open spec fn authorized(header: Option<Seq<char>>, expected: Option<Seq<char>>) -> bool {
    match expected {
        None => true,
        Some(e) => (match bearer_token(header) {
            Some(t) => t,
            None => Seq::empty(),
        }) == e,
    }
}

/// Whether a request may be served.
pub fn require_auth(header: Option<&str>, expected_token: Option<&str>) -> (r: bool)
    ensures
        r == authorized(
            match header {
                Some(h) => Some(h@),
                None => None,
            },
            match expected_token {
                Some(e) => Some(e@),
                None => None,
            },
        ),
{
    match expected_token {
        None => true,
        Some(expected) => {
            let provided = match auth_token_from_header(header) {
                Some(t) => t,
                None => String::new(),
            };
            crate::chars::str_eq(provided.as_str(), expected)
        },
    }
}

/// Where the last `limit` of `len` entries begin; at the start where no
/// limit is given or it is not reached.
pub fn history_start(len: usize, limit: Option<usize>) -> (r: usize)
    ensures
        r == (match limit {
            Some(l) => if len > l {
                (len - l) as usize
            } else {
                0
            },
            None => 0,
        }),
{
    match limit {
        Some(l) => {
            if len > l {
                len - l
            } else {
                0
            }
        },
        None => 0,
    }
}

/// The name under which a message from the web is stored where the
/// sender gave none.
pub const DEFAULT_WEB_SENDER: &'static str = "web-user";

/// The name under which a message from the web is stored: the sender's,
/// trimmed, or the default where it is missing or blank.
pub fn web_sender_name(given: Option<&str>) -> (r: String)
    ensures
        r@ == (match given {
            Some(g) => if trim(g@).len() == 0 {
                DEFAULT_WEB_SENDER@
            } else {
                trim(g@)
            },
            None => DEFAULT_WEB_SENDER@,
        }),
{
    match given {
        Some(g) => {
            let t = trim_exec(g);
            if t.as_str().is_empty() {
                DEFAULT_WEB_SENDER.to_owned()
            } else {
                t
            }
        },
        None => DEFAULT_WEB_SENDER.to_owned(),
    }
}

/// The text of a message from the web, trimmed; an error where nothing
/// is left.
pub fn required_message(message: &str) -> (r: Result<String, String>)
    ensures
        (match r {
            Ok(t) => Ok(t@),
            Err(e) => Err(e@),
        }) == (if trim(message@).len() == 0 {
            Err::<Seq<char>, Seq<char>>("message is required"@)
        } else {
            Ok(trim(message@))
        }),
{
    let t = trim_exec(message);
    if t.as_str().is_empty() {
        Err("message is required".to_owned())
    } else {
        Ok(t)
    }
}

/// Whether a text ends with `ending`.
pub open spec fn ends_with(s: Seq<char>, ending: Seq<char>) -> bool {
    s.len() >= ending.len() && matches_at(s, ending, s.len() - ending.len())
}

fn has_ending(v: &Vec<char>, ending: &str) -> (r: bool)
    ensures
        r == ends_with(v@, ending@),
{
    let e = to_chars(ending);
    if v.len() < e.len() {
        return false;
    }
    matches_at_exec(v, &e, v.len() - e.len())
}

/// The kind of content under which a file of the web interface is sent:
/// by its ending a style sheet or a script, and plain bytes otherwise.
pub fn asset_content_type(file: &str) -> (r: &'static str)
    ensures
        r@ == (if ends_with(file@, ".css"@) {
            "text/css; charset=utf-8"@
        } else if ends_with(file@, ".js"@) {
            "application/javascript; charset=utf-8"@
        } else {
            "application/octet-stream"@
        }),
{
    let v = to_chars(file);
    if has_ending(&v, ".css") {
        "text/css; charset=utf-8"
    } else if has_ending(&v, ".js") {
        "application/javascript; charset=utf-8"
    } else {
        "application/octet-stream"
    }
}

} // verus!
