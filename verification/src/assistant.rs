//! The assistant's chat protocol: the message types of the streaming
//! completion API, and the framing of its event stream.
//!
//! The server answers a request with a stream of server-sent-event lines;
//! only the lines carrying a `data: ` prefix hold an event, the payload
//! being what follows the prefix. Turning the payload into an event, and
//! the transport itself, belong to the embedding binary.

use vstd::prelude::*;
use vstd::string::*;
use crate::chars::{starts_with_spec, starts_with_prefix};

verus! {

/// The models that can be asked for a completion.
#[derive(Clone, Copy, Debug)]
pub enum Model {
    ClaudeOpus,
    ClaudeSonnet,
    ClaudeHaiku,
}

impl Default for Model {
    fn default() -> (r: Self)
        ensures
            r == Model::ClaudeOpus,
    {
        Model::ClaudeOpus
    }
}

/// Who said a message.
#[derive(Clone, Copy, Debug, PartialEq, Eq, Structural)]
pub enum Role {
    User,
    Assistant,
}

/// One message of the conversation being sent.
#[derive(Debug)]
pub struct RequestMessage {
    pub role: Role,
    pub content: String,
}

/// Token accounting the server reports.
#[derive(Clone, Copy, Debug)]
pub struct Usage {
    pub input_tokens: usize,
    pub output_tokens: usize,
}

/// The head of a streamed response.
#[derive(Debug)]
pub struct ResponseMessage {
    pub id: String,
    pub role: Role,
    pub content: Vec<String>,
    pub model: String,
    pub stop_reason: Option<String>,
    pub stop_sequence: Option<String>,
    pub usage: Usage,
}

/// A change to the head of a streamed response.
#[derive(Debug)]
pub struct MessageDelta {
    pub stop_reason: Option<String>,
    pub stop_sequence: Option<String>,
    pub usage: Usage,
}

/// One block of streamed content.
#[derive(Debug)]
pub struct ContentBlock {
    pub content_type: String,
    pub text: String,
}

/// A change to one block of streamed content.
#[derive(Debug)]
pub struct ContentBlockDelta {
    pub delta_type: String,
    pub text: String,
}

/// One event of the completion stream.
#[derive(Debug)]
pub enum MessageEvent {
    MessageStart { message: ResponseMessage },
    MessageDelta { delta: MessageDelta },
    MessageStop,
    ContentBlockStart { index: usize, content_block: ContentBlock },
    ContentBlockDelta { index: usize, delta: ContentBlockDelta },
    ContentBlockStop { index: usize },
    Ping,
}

/// A line with every leading `data: ` marker removed.
pub open spec fn stripped_data_line(s: Seq<char>) -> Seq<char>
    decreases s.len(),
{
    if s.len() >= 6 && starts_with_spec(s, "data: "@) {
        stripped_data_line(s.skip(6))
    } else {
        s
    }
}

/// The event payload of one line of the completion stream: the rest of the
/// line when it carries the `data: ` marker, nothing for every other line.
pub fn sse_line_data(line: &str) -> (r: Option<String>)
    ensures
        starts_with_spec(line@, "data: "@) ==> (r matches Some(data) && data@
            == stripped_data_line(line@)),
        !starts_with_spec(line@, "data: "@) ==> r is None,
{
    proof {
        reveal_strlit("data: ");
    }
    if !starts_with_prefix(line, "data: ") {
        return None;
    }
    let mut rest: &str = line;
    while starts_with_prefix(rest, "data: ")
        invariant
            stripped_data_line(line@) == stripped_data_line(rest@),
        decreases rest@.len(),
    {
        proof {
            reveal_strlit("data: ");
        }
        let n = rest.unicode_len();
        rest = rest.substring_char(6, n);
    }
    proof {
        reveal_strlit("data: ");
        assert(stripped_data_line(rest@) == rest@);
    }
    Some(String::from_str(rest))
}

} // verus!
