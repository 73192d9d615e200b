//! Language-model provider types.

pub mod ollama;

use vstd::prelude::*;

verus! {

/// A chat message.
#[derive(Debug, Clone)]
pub struct ChatMessage {
    /// Role: system, user, or assistant.
    pub role: String,
    /// Message content.
    pub content: String,
}

impl ChatMessage {
    /// Create a system message.
    pub fn system(content: &str) -> (res: Self)
        ensures
            res.role@ == "system"@,
            res.content@ == content@,
    {
        ChatMessage { role: String::from_str("system"), content: String::from_str(content) }
    }

    /// Create a user message.
    pub fn user(content: &str) -> (res: Self)
        ensures
            res.role@ == "user"@,
            res.content@ == content@,
    {
        ChatMessage { role: String::from_str("user"), content: String::from_str(content) }
    }

    /// Create an assistant message.
    pub fn assistant(content: &str) -> (res: Self)
        ensures
            res.role@ == "assistant"@,
            res.content@ == content@,
    {
        ChatMessage { role: String::from_str("assistant"), content: String::from_str(content) }
    }
}

/// Completion response.
#[derive(Debug, Clone)]
pub struct CompletionResponse {
    /// Generated content.
    pub content: String,
    /// Model used.
    pub model: String,
    /// Token usage.
    pub usage: TokenUsage,
}

/// Token usage information.
#[derive(Debug, Clone, Copy)]
pub struct TokenUsage {
    pub prompt_tokens: u32,
    pub completion_tokens: u32,
    pub total_tokens: u32,
}

/// A chunk in a streaming response.
#[derive(Debug, Clone)]
pub struct StreamChunk {
    /// Text content delta.
    pub content: String,
    /// Whether this is the final chunk.
    pub done: bool,
}

} // verus!
