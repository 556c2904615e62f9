//! Token accounting for provider calls.

use vstd::prelude::*;

verus! {

/// Token usage of a provider call, or of several. All zero stands for a call
/// whose provider reported none.
#[derive(Debug, Clone, Copy, PartialEq, Eq)]
pub struct Usage {
    pub input_tokens: u64,
    pub output_tokens: u64,
    pub total_tokens: u64,
    pub cached_input_tokens: u64,
    pub cache_creation_input_tokens: u64,
    pub cache_creation_1h_input_tokens: u64,
    pub tool_use_prompt_tokens: u64,
    pub reasoning_tokens: u64,
}

impl DeepView for Usage {
    type V = Usage;

    open spec fn deep_view(&self) -> Usage {
        *self
    }
}

/// No usage at all.
pub open spec fn zero_usage() -> Usage {
    Usage {
        input_tokens: 0,
        output_tokens: 0,
        total_tokens: 0,
        cached_input_tokens: 0,
        cache_creation_input_tokens: 0,
        cache_creation_1h_input_tokens: 0,
        tool_use_prompt_tokens: 0,
        reasoning_tokens: 0,
    }
}

/// Whether the sum of `a` and `b` can be counted.
pub open spec fn addable(a: Usage, b: Usage) -> bool {
    &&& a.input_tokens + b.input_tokens <= u64::MAX
    &&& a.output_tokens + b.output_tokens <= u64::MAX
    &&& a.total_tokens + b.total_tokens <= u64::MAX
    &&& a.cached_input_tokens + b.cached_input_tokens <= u64::MAX
    &&& a.cache_creation_input_tokens + b.cache_creation_input_tokens <= u64::MAX
    &&& a.cache_creation_1h_input_tokens + b.cache_creation_1h_input_tokens <= u64::MAX
    &&& a.tool_use_prompt_tokens + b.tool_use_prompt_tokens <= u64::MAX
    &&& a.reasoning_tokens + b.reasoning_tokens <= u64::MAX
}

/// The sum of `a` and `b`, figure by figure.
pub open spec fn sum_usage(a: Usage, b: Usage) -> Usage {
    Usage {
        input_tokens: (a.input_tokens + b.input_tokens) as u64,
        output_tokens: (a.output_tokens + b.output_tokens) as u64,
        total_tokens: (a.total_tokens + b.total_tokens) as u64,
        cached_input_tokens: (a.cached_input_tokens + b.cached_input_tokens) as u64,
        cache_creation_input_tokens: (a.cache_creation_input_tokens
            + b.cache_creation_input_tokens) as u64,
        cache_creation_1h_input_tokens: (a.cache_creation_1h_input_tokens
            + b.cache_creation_1h_input_tokens) as u64,
        tool_use_prompt_tokens: (a.tool_use_prompt_tokens + b.tool_use_prompt_tokens) as u64,
        reasoning_tokens: (a.reasoning_tokens + b.reasoning_tokens) as u64,
    }
}

impl Default for Usage {
    fn default() -> (usage: Self)
        ensures
            usage == zero_usage(),
    {
        Usage::new()
    }
}

impl Usage {
    /// No usage.
    pub fn new() -> (usage: Self)
        ensures
            usage == zero_usage(),
    {
        Usage {
            input_tokens: 0,
            output_tokens: 0,
            total_tokens: 0,
            cached_input_tokens: 0,
            cache_creation_input_tokens: 0,
            cache_creation_1h_input_tokens: 0,
            tool_use_prompt_tokens: 0,
            reasoning_tokens: 0,
        }
    }

    /// Whether any figure was reported.
    pub fn has_values(&self) -> (reported: bool)
        ensures
            reported == (*self != zero_usage()),
    {
        self.input_tokens != 0
            || self.output_tokens != 0
            || self.total_tokens != 0
            || self.cached_input_tokens != 0
            || self.cache_creation_input_tokens != 0
            || self.cache_creation_1h_input_tokens != 0
            || self.tool_use_prompt_tokens != 0
            || self.reasoning_tokens != 0
    }

    /// Whether `other` can be added without a figure running over.
    pub fn fits(&self, other: Usage) -> (fits: bool)
        ensures
            fits == addable(*self, other),
    {
        self.input_tokens <= u64::MAX - other.input_tokens
            && self.output_tokens <= u64::MAX - other.output_tokens
            && self.total_tokens <= u64::MAX - other.total_tokens
            && self.cached_input_tokens <= u64::MAX - other.cached_input_tokens
            && self.cache_creation_input_tokens <= u64::MAX - other.cache_creation_input_tokens
            && self.cache_creation_1h_input_tokens <= u64::MAX - other.cache_creation_1h_input_tokens
            && self.tool_use_prompt_tokens <= u64::MAX - other.tool_use_prompt_tokens
            && self.reasoning_tokens <= u64::MAX - other.reasoning_tokens
    }

    /// Adds `other`, figure by figure.
    pub fn accumulate(&mut self, other: Usage)
        requires
            addable(*old(self), other),
        ensures
            *final(self) == sum_usage(*old(self), other),
    {
        self.input_tokens = self.input_tokens + other.input_tokens;
        self.output_tokens = self.output_tokens + other.output_tokens;
        self.total_tokens = self.total_tokens + other.total_tokens;
        self.cached_input_tokens = self.cached_input_tokens + other.cached_input_tokens;
        self.cache_creation_input_tokens = self.cache_creation_input_tokens + other.cache_creation_input_tokens;
        self.cache_creation_1h_input_tokens = self.cache_creation_1h_input_tokens + other.cache_creation_1h_input_tokens;
        self.tool_use_prompt_tokens = self.tool_use_prompt_tokens + other.tool_use_prompt_tokens;
        self.reasoning_tokens = self.reasoning_tokens + other.reasoning_tokens;
    }
}

} // verus!
