//! Answering the device's chat lines with the client's model.

use crate::event::{BackendEvent, ChatDirection, ChatEntry};
use crate::mcp::{observed, Server};
use crate::rpc::{Call, ToolStep};
use vstd::prelude::*;

verus! {

/// How many tokens an automatic reply may take.
pub const REPLY_TOKENS: u32 = 200;

/// How the model is told to answer.
pub open spec fn house_style() -> Seq<char> {
    "You are an AI assistant chatting with a KeyOS Passport Prime hardware wallet user. Keep replies short (one or two sentences), warm, and informational. You are bridged via QL v2 → relay → ql-link-lab backend → MCP sampling."@
}

/// What an event asks of the model: only a chat line from the device gets a reply.
pub open spec fn wanted_reply(e: BackendEvent) -> Option<Call> {
    match e {
        BackendEvent::ChatReceived { text } => Some(
            Call::Sample {
                prompt: text@,
                system_prompt: Some(house_style()),
                max_tokens: REPLY_TOKENS,
            },
        ),
        _ => None,
    }
}

/// What to ask the client's model after an event, if anything.
pub fn auto_reply(event: &BackendEvent) -> (r: Option<ToolStep>)
    ensures
        match r {
            Some(step) => wanted_reply(*event) == Some(step@),
            None => wanted_reply(*event) is None,
        },
{
    match event {
        BackendEvent::ChatReceived { text } => Some(
            ToolStep::Sample {
                prompt: text.clone(),
                system_prompt: Some(
                    "You are an AI assistant chatting with a KeyOS Passport Prime hardware wallet user. Keep replies short (one or two sentences), warm, and informational. You are bridged via QL v2 → relay → ql-link-lab backend → MCP sampling.".to_owned(),
                ),
                max_tokens: REPLY_TOKENS,
            },
        ),
        _ => None,
    }
}

/// What to push to the device once the model was asked: its reply, where there is one and chat is
/// on.
pub fn reply_to_push(chat: bool, reply: Result<String, String>) -> (r: Option<String>)
    ensures
        r == match reply {
            Ok(text) => if chat {
                Some(text)
            } else {
                None
            },
            Err(_) => None,
        },
{
    match reply {
        Ok(text) => if chat {
            Some(text)
        } else {
            None
        },
        Err(_) => None,
    }
}

/// The transcript shows a chat line that was answered directly before its answer.
pub proof fn the_transcript_is_coherent<S, W>(s: Server<S, W>, line: String, reply: String)
    ensures
        ({
            let h = observed(
                observed(s, BackendEvent::ChatReceived { text: line }),
                BackendEvent::ChatPushed { text: reply },
            ).history;
            &&& h.len() >= 2
            &&& h[h.len() - 2] == (ChatEntry {
                direction: ChatDirection::DeviceToBackend,
                text: line,
            })
            &&& h[h.len() - 1] == (ChatEntry {
                direction: ChatDirection::BackendToDevice,
                text: reply,
            })
        }),
{
}

/// A chat line from the device asks the model for a reply to exactly that line, in the house style
/// and with 200 tokens; no other event asks for one.
pub proof fn only_chat_lines_are_answered(line: String, other: BackendEvent)
    requires
        !(other is ChatReceived),
    ensures
        wanted_reply(BackendEvent::ChatReceived { text: line }) == Some(
            Call::Sample {
                prompt: line@,
                system_prompt: Some(
                    "You are an AI assistant chatting with a KeyOS Passport Prime hardware wallet user. Keep replies short (one or two sentences), warm, and informational. You are bridged via QL v2 → relay → ql-link-lab backend → MCP sampling."@,
                ),
                max_tokens: 200,
            },
        ),
        wanted_reply(other) is None,
{
}

} // verus!
