//! Messages exchanged between the terminal client and the agent server.
//!
//! Every message travels as one JSON object on a line of its own.

use vstd::prelude::*;

verus! {

/// The address the agent server listens on and the client connects to.
pub const DEFAULT_ADDR: &'static str = "127.0.0.1:8080";

/// A prompt sent by the client.
pub struct ChatRequest {
    pub prompt: String,
}

/// A complete reply to a prompt.
pub struct ChatResponse {
    pub response: String,
}

/// One piece of a streamed reply; `done` marks the last piece.
pub struct ChatResponseChunk {
    pub content: String,
    pub done: bool,
}

} // verus!
