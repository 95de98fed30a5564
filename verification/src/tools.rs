//! What the built-in tools decide before they reach out: who may act on
//! which chat, what a request to sync a skill means, and how much of a
//! fetched page is kept.

use crate::agent::ToolAuthContext;
use crate::chars::{decimal, push_decimal, trim, trim_exec};
use crate::gateway::{join_path, joined_path};
use crate::lines::texts;
use crate::text::{clip_bytes, clipped};
use vstd::prelude::*;
use vstd::string::*;

verus! {

/// Whether a tool that runs for one chat may act on another: on its own
/// chat always, on others only where its chat is a control chat.
pub open spec fn may_act_on(
    caller_chat_id: i64,
    control_chat_ids: Seq<i64>,
    target_chat_id: i64,
) -> bool {
    caller_chat_id == target_chat_id || control_chat_ids.contains(caller_chat_id)
}

/// What is answered when a chat may not act on another.
pub open spec fn access_denied(caller_chat_id: i64, target_chat_id: i64) -> Seq<char> {
    "Permission denied: chat "@ + decimal(caller_chat_id as int) + " cannot operate on chat "@
        + decimal(target_chat_id as int)
}

/// Refuses a tool call by which a chat would act on another chat without
/// being a control chat.
pub fn authorize_chat_access(auth: &ToolAuthContext, target_chat_id: i64) -> (r: Result<(), String>)
    ensures
        r is Ok <==> may_act_on(auth.caller_chat_id, auth.control_chat_ids@, target_chat_id),
        r is Err ==> r->Err_0@ == access_denied(auth.caller_chat_id, target_chat_id),
{
    if auth.caller_chat_id == target_chat_id {
        return Ok(());
    }
    let mut i: usize = 0;
    while i < auth.control_chat_ids.len()
        invariant
            i <= auth.control_chat_ids.len(),
            forall|k: int| 0 <= k < i ==> auth.control_chat_ids@[k] != auth.caller_chat_id,
        decreases auth.control_chat_ids.len() - i,
    {
        if auth.control_chat_ids[i] == auth.caller_chat_id {
            return Ok(());
        }
        i += 1;
    }
    let mut e = "Permission denied: chat ".to_owned();
    push_decimal(&mut e, auth.caller_chat_id);
    e.append(" cannot operate on chat ");
    push_decimal(&mut e, target_chat_id);
    Err(e)
}

/// The repository that skills come from where none is named.
pub const DEFAULT_SKILL_REPO: &'static str = "vercel-labs/skills";

/// The branch that skills come from where none is named.
pub const DEFAULT_SKILL_REF: &'static str = "main";

/// The tool that brings a skill in from a repository.
#[derive(Debug, PartialEq, Eq)]
pub struct SyncSkillsTool {
    skills_dir: String,
}

/// What a request to sync a skill means.
#[derive(Debug, PartialEq, Eq)]
pub struct SyncRequest {
    pub skill_name: String,
    pub source_repo: String,
    pub git_ref: String,
    pub target_name: String,
}

/// The text trimmed, or `otherwise` trimmed where the text is missing or
/// blank.
pub open spec fn or_default(given: Option<Seq<char>>, otherwise: Seq<char>) -> Seq<char> {
    match given {
        Some(g) => if trim(g).len() == 0 {
            trim(otherwise)
        } else {
            trim(g)
        },
        None => trim(otherwise),
    }
}

fn trimmed_or(given: Option<&str>, otherwise: &str) -> (r: String)
    ensures
        r@ == or_default(
            match given {
                Some(g) => Some(g@),
                None => None,
            },
            otherwise@,
        ),
{
    match given {
        Some(g) => {
            let t = trim_exec(g);
            if t.as_str().is_empty() {
                trim_exec(otherwise)
            } else {
                t
            }
        },
        None => trim_exec(otherwise),
    }
}

/// The view of an optional text.
pub open spec fn given_text(t: Option<&str>) -> Option<Seq<char>> {
    match t {
        Some(s) => Some(s@),
        None => None,
    }
}

/// Reads a request to sync a skill: the skill must be named; the
/// repository and the branch have defaults; the local name is the skill's
/// own where none is given.
pub fn sync_request(
    skill_name: Option<&str>,
    source_repo: Option<&str>,
    git_ref: Option<&str>,
    target_name: Option<&str>,
) -> (r: Result<SyncRequest, String>)
    ensures
        r is Ok <==> skill_name is Some && trim(skill_name->Some_0@).len() > 0,
        r is Err ==> r->Err_0@ == "Missing required parameter: skill_name"@,
        r is Ok ==> {
            &&& r->Ok_0.skill_name@ == trim(skill_name->Some_0@)
            &&& r->Ok_0.source_repo@ == or_default(given_text(source_repo), DEFAULT_SKILL_REPO@)
            &&& r->Ok_0.git_ref@ == or_default(given_text(git_ref), DEFAULT_SKILL_REF@)
            &&& r->Ok_0.target_name@ == or_default(given_text(target_name), skill_name->Some_0@)
        },
{
    let name = match skill_name {
        Some(n) => n,
        None => {
            return Err("Missing required parameter: skill_name".to_owned());
        },
    };
    let skill = trim_exec(name);
    if skill.as_str().is_empty() {
        return Err("Missing required parameter: skill_name".to_owned());
    }
    Ok(
        SyncRequest {
            skill_name: skill,
            source_repo: trimmed_or(source_repo, DEFAULT_SKILL_REPO),
            git_ref: trimmed_or(git_ref, DEFAULT_SKILL_REF),
            target_name: trimmed_or(target_name, name),
        },
    )
}

/// Where a skill may lie in a repository, in the order in which the
/// places are tried.
pub open spec fn skill_urls(repo: Seq<char>, git_ref: Seq<char>, skill: Seq<char>) -> Seq<
    Seq<char>,
> {
    let base = "https://raw.githubusercontent.com/"@ + repo + "/"@ + git_ref;
    seq![
        base + "/skills/"@ + skill + "/SKILL.md"@,
        base + "/"@ + skill + "/SKILL.md"@,
        base + "/"@ + skill + ".md"@,
    ]
}

impl SyncSkillsTool {
    /// The tool, for skills kept under `skills_dir`.
    pub fn new(skills_dir: &str) -> (r: Self)
        ensures
            r.skills_dir()@ == skills_dir@,
    {
        SyncSkillsTool { skills_dir: skills_dir.to_owned() }
    }

    /// The directory under which the skills are kept.
    pub closed spec fn skills_dir(&self) -> String {
        self.skills_dir
    }

    /// The name of the tool.
    pub fn name(&self) -> (r: &'static str)
        ensures
            r@ == "sync_skills"@,
    {
        "sync_skills"
    }

    /// The file that takes the skill kept under the name `target_name`.
    pub fn skill_file(&self, target_name: &str) -> (r: String)
        ensures
            r@ == joined_path(joined_path(self.skills_dir()@, target_name@), "SKILL.md"@),
    {
        let dir = join_path(self.skills_dir.as_str(), target_name);
        join_path(dir.as_str(), "SKILL.md")
    }

    /// Where the skill may lie in the repository, in the order in which
    /// the places are tried.
    pub fn fetch_candidates(source_repo: &str, skill_name: &str, git_ref: &str) -> (r: Vec<String>)
        ensures
            texts(r@) == skill_urls(source_repo@, git_ref@, skill_name@),
    {
        let mut base = "https://raw.githubusercontent.com/".to_owned();
        base.append(source_repo);
        base.append("/");
        base.append(git_ref);
        let mut first = base.clone();
        first.append("/skills/");
        first.append(skill_name);
        first.append("/SKILL.md");
        let mut second = base.clone();
        second.append("/");
        second.append(skill_name);
        second.append("/SKILL.md");
        let mut third = base;
        third.append("/");
        third.append(skill_name);
        third.append(".md");
        let mut r: Vec<String> = Vec::new();
        r.push(first);
        r.push(second);
        r.push(third);
        assert(texts(r@) =~= skill_urls(source_repo@, git_ref@, skill_name@));
        r
    }
}

/// The tool that fetches a page.
#[derive(Debug, Clone, Copy, PartialEq, Eq)]
pub struct WebFetchTool;

/// A fetched page is cut down to this many bytes.
pub const WEB_FETCH_MAX_BYTES: usize = 20000;

impl WebFetchTool {
    /// The name of the tool.
    pub fn name(&self) -> (r: &'static str)
        ensures
            r@ == "web_fetch"@,
    {
        "web_fetch"
    }

    /// The text of a page as the tool hands it on: cut down to 20000
    /// bytes on a character boundary, with a note where it was cut.
    pub fn clip_page(text: &str) -> (r: String)
        ensures
            r@ == clipped(text@, WEB_FETCH_MAX_BYTES as int, "\n\n[Truncated at 20KB]"@),
    {
        clip_bytes(text, WEB_FETCH_MAX_BYTES, "\n\n[Truncated at 20KB]")
    }
}

} // verus!
