//! How the agent is set up: the model it runs, its instructions and its name.

use vstd::prelude::*;

verus! {

/// The settings the agent is built with.
pub struct AgentSettings {
    /// The model the Ollama server runs.
    pub model: String,
    /// The system prompt.
    pub preamble: String,
    /// The agent's name.
    pub name: String,
}

/// The settings of the chat agent: a small Qwen model, told to be helpful,
/// named Bob.
pub fn default_settings() -> (s: AgentSettings)
    ensures
        s.model@ == "qwen3:4b"@,
        s.preamble@ == "You are a helpful assistant."@,
        s.name@ == "Bob"@,
{
    AgentSettings {
        model: "qwen3:4b".to_owned(),
        preamble: "You are a helpful assistant.".to_owned(),
        name: "Bob".to_owned(),
    }
}

} // verus!
