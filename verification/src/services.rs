//! What a host offers to tools and hooks: completions by a model, and questions to the
//! user.

use vstd::prelude::*;
use crate::json::Json;

verus! {

/// A request for one completion.
#[derive(Debug, Clone, PartialEq, Eq)]
pub struct ModelPromptRequest {
    /// The whole prompt.
    pub prompt: String,
    /// Which model to ask, if not the current one.
    pub model: Option<String>,
    /// How many tokens the completion may have.
    pub max_tokens: Option<u64>,
}

/// How many tokens a completion took.
#[derive(Debug, Clone, Copy, PartialEq, Eq, Structural)]
pub struct ServiceUsage {
    pub input_tokens: u64,
    pub output_tokens: u64,
    pub total_tokens: u64,
}

impl Default for ServiceUsage {
    fn default() -> (usage: Self)
        ensures
            usage == (ServiceUsage { input_tokens: 0, output_tokens: 0, total_tokens: 0 }),
    {
        ServiceUsage { input_tokens: 0, output_tokens: 0, total_tokens: 0 }
    }
}

/// A completion.
#[derive(Debug, Clone, PartialEq, Eq)]
pub struct ModelPromptOk {
    /// The text of the completion.
    pub text: String,
    /// What it took.
    pub usage: ServiceUsage,
}

/// What became of a question to the user.
#[derive(Debug, Clone, PartialEq, Eq)]
pub enum InteractionOutcome {
    /// The answer.
    Answered(Json),
    /// There will be no answer.
    Dismissed,
}

} // verus!
