//! The conversation log: messages with a role, and the invariant that at
//! most one system message exists and stands first.

use vstd::prelude::*;
use crate::text::{contains_seq, contains_str};

verus! {

/// Who a conversation message is from.
#[derive(Clone, Copy, PartialEq, Eq, Structural, Debug)]
pub enum Role {
    System,
    User,
    Assistant,
}

/// One entry of the conversation log.
#[derive(Debug)]
pub struct Message {
    pub role: Role,
    pub content: String,
}

impl Clone for Message {
    fn clone(&self) -> (r: Self)
        ensures
            r == *self,
    {
        Message { role: self.role, content: self.content.clone() }
    }
}

impl Message {
    pub fn system(content: String) -> (m: Message)
        ensures
            m.role == Role::System,
            m.content == content,
    {
        Message { role: Role::System, content }
    }

    pub fn user(content: String) -> (m: Message)
        ensures
            m.role == Role::User,
            m.content == content,
    {
        Message { role: Role::User, content }
    }

    pub fn assistant(content: String) -> (m: Message)
        ensures
            m.role == Role::Assistant,
            m.content == content,
    {
        Message { role: Role::Assistant, content }
    }
}

/// A well-formed conversation: any system message stands first, so there is
/// at most one.
pub open spec fn conversation_wf(msgs: Seq<Message>) -> bool {
    forall|i: int| 0 < i < msgs.len() ==> !(#[trigger] msgs[i].role is System)
}

/// Copy a conversation message by message.
pub fn clone_conversation(msgs: &Vec<Message>) -> (r: Vec<Message>)
    ensures
        r@ == msgs@,
{
    let mut r: Vec<Message> = Vec::new();
    let n = msgs.len();
    let mut i: usize = 0;
    while i < n
        invariant
            n == msgs@.len(),
            i <= n,
            r@ == msgs@.subrange(0, i as int),
        decreases n - i,
    {
        r.push(msgs[i].clone());
        assert(r@ =~= msgs@.subrange(0, i + 1));
        i += 1;
    }
    assert(r@ =~= msgs@);
    r
}

/// The index of the first system message, or `-1`.
pub open spec fn spec_first_system(msgs: Seq<Message>) -> int
    decreases msgs.len(),
{
    if msgs.len() == 0 {
        -1
    } else if msgs[0].role is System {
        0
    } else {
        let r = spec_first_system(msgs.skip(1));
        if r == -1 {
            -1
        } else {
            1 + r
        }
    }
}

/// The content of the first system message of a conversation, if any.
pub fn extract_system_message(msgs: &Vec<Message>) -> (r: Option<String>)
    ensures
        match r {
            Some(c) => spec_first_system(msgs@) >= 0 && c@ == msgs@[spec_first_system(
                msgs@,
            )].content@,
            None => spec_first_system(msgs@) == -1,
        },
{
    let n = msgs.len();
    let mut i: usize = 0;
    while i < n
        invariant
            n == msgs@.len(),
            i <= n,
            forall|j: int| 0 <= j < i ==> !((#[trigger] msgs@[j]).role is System),
        decreases n - i,
    {
        let is_system = matches!(msgs[i].role, Role::System);
        if is_system {
            proof {
                lemma_first_system_at(msgs@, i as int);
            }
            return Some(msgs[i].content.clone());
        }
        i += 1;
    }
    proof {
        lemma_first_system_none(msgs@);
    }
    None
}

/// A system message behind only other roles pins the search.
pub proof fn lemma_first_system_at(msgs: Seq<Message>, i: int)
    requires
        0 <= i < msgs.len(),
        msgs[i].role is System,
        forall|j: int| 0 <= j < i ==> !((#[trigger] msgs[j]).role is System),
    ensures
        spec_first_system(msgs) == i,
    decreases i,
{
    if i > 0 {
        assert(forall|j: int|
            0 <= j < i - 1 ==> !((#[trigger] msgs.skip(1)[j]).role is System));
        lemma_first_system_at(msgs.skip(1), i - 1);
    }
}

/// No system message anywhere means the search finds none.
pub proof fn lemma_first_system_none(msgs: Seq<Message>)
    requires
        forall|j: int| 0 <= j < msgs.len() ==> !((#[trigger] msgs[j]).role is System),
    ensures
        spec_first_system(msgs) == -1,
    decreases msgs.len(),
{
    if msgs.len() > 0 {
        assert(forall|j: int|
            0 <= j < msgs.skip(1).len() ==> !((#[trigger] msgs.skip(1)[j]).role is System));
        lemma_first_system_none(msgs.skip(1));
    }
}

/// The section marker under which the working directory is recorded in a
/// system prompt.
pub fn wd_marker() -> (r: &'static str)
    ensures
        r@ == wd_marker_spec(),
        r@.len() >= 1,
{
    proof {
        reveal_strlit("## WORKING DIRECTORY");
    }
    "## WORKING DIRECTORY"
}

pub open spec fn wd_marker_spec() -> Seq<char> {
    "## WORKING DIRECTORY"@
}

/// `prompt` extended with a working-directory section naming `cwd`.
pub open spec fn spec_with_working_directory(prompt: Seq<char>, cwd: Seq<char>) -> Seq<char> {
    prompt + "\n\n"@ + wd_marker_spec() + "\n"@ + cwd
}

/// Append a working-directory section naming `cwd` to `prompt`.
pub fn add_working_directory_to_prompt(prompt: &str, cwd: &str) -> (r: String)
    ensures
        r@ == spec_with_working_directory(prompt@, cwd@),
{
    let mut r = prompt.to_owned();
    r.append("\n\n");
    r.append(wd_marker());
    r.append("\n");
    r.append(cwd);
    r
}

/// Whether a text already carries the working-directory section.
pub fn has_wd_marker(content: &str) -> (b: bool)
    ensures
        b == contains_seq(content@, wd_marker_spec()),
{
    contains_str(content, wd_marker())
}

} // verus!
