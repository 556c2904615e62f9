//! The items of a streamed model turn.

use vstd::prelude::*;
use crate::completion::{FinishReason, FinishReasonView};
use crate::json::Json;
use crate::message::{
    plain_text, Reasoning, ReasoningView, Text, TextView, ToolCall, ToolCallView, ToolResult,
    ToolResultView,
};
use crate::usage::Usage;

verus! {

/// A piece of a tool call that is being streamed.
#[derive(Debug, PartialEq, Eq)]
pub enum ToolCallDeltaContent {
    /// The name of the tool.
    Name(String),
    /// The next piece of the arguments.
    Delta(String),
}

pub enum ToolCallDeltaContentView {
    Name(Seq<char>),
    Delta(Seq<char>),
}

impl DeepView for ToolCallDeltaContent {
    type V = ToolCallDeltaContentView;

    open spec fn deep_view(&self) -> ToolCallDeltaContentView {
        match self {
            ToolCallDeltaContent::Name(name) => ToolCallDeltaContentView::Name(name@),
            ToolCallDeltaContent::Delta(arguments) => ToolCallDeltaContentView::Delta(arguments@),
        }
    }
}

impl Clone for ToolCallDeltaContent {
    fn clone(&self) -> (copy: Self)
        ensures
            copy.deep_view() == self.deep_view(),
    {
        match self {
            ToolCallDeltaContent::Name(name) => ToolCallDeltaContent::Name(name.clone()),
            ToolCallDeltaContent::Delta(arguments) => ToolCallDeltaContent::Delta(
                arguments.clone(),
            ),
        }
    }
}

/// The record with which a provider closes a stream.
#[derive(Debug, PartialEq, Eq)]
pub struct StreamFinal {
    pub provider: String,
    pub usage: Usage,
    pub finish_reason: Option<FinishReason>,
}

pub struct StreamFinalView {
    pub provider: Seq<char>,
    pub usage: Usage,
    pub finish_reason: Option<FinishReasonView>,
}

impl DeepView for StreamFinal {
    type V = StreamFinalView;

    open spec fn deep_view(&self) -> StreamFinalView {
        StreamFinalView {
            provider: self.provider@,
            usage: self.usage,
            finish_reason: self.finish_reason.deep_view(),
        }
    }
}

impl StreamFinal {
    /// A record without a reason for stopping.
    pub fn new(provider: &str, usage: Usage) -> (record: Self)
        ensures
            record.deep_view() == (StreamFinalView {
                provider: provider@,
                usage,
                finish_reason: None,
            }),
    {
        StreamFinal { provider: provider.to_owned(), usage, finish_reason: None }
    }

    /// The record with a reason for stopping.
    pub fn with_finish_reason(self, reason: FinishReason) -> (record: Self)
        ensures
            record.deep_view() == (StreamFinalView {
                finish_reason: Some(reason.deep_view()),
                ..self.deep_view()
            }),
    {
        StreamFinal { finish_reason: Some(reason), ..self }
    }
}

/// An item of a streamed model turn.
#[derive(Debug, PartialEq, Eq)]
pub enum StreamedAssistantContent {
    Text(Text),
    /// A complete tool call.
    ToolCall { tool_call: ToolCall, internal_call_id: String },
    /// A piece of a tool call.
    ToolCallDelta { id: String, internal_call_id: String, content: ToolCallDeltaContent },
    /// A complete block of reasoning.
    Reasoning(Reasoning),
    /// A piece of reasoning.
    ReasoningDelta { id: String, reasoning: String },
    /// The record that closes the stream.
    Final(StreamFinal),
    /// Something of the provider's own.
    Unknown(Json),
}

pub enum StreamedAssistantContentView {
    Text(TextView),
    ToolCall { tool_call: ToolCallView, internal_call_id: Seq<char> },
    ToolCallDelta {
        id: Seq<char>,
        internal_call_id: Seq<char>,
        content: ToolCallDeltaContentView,
    },
    Reasoning(ReasoningView),
    ReasoningDelta { id: Seq<char>, reasoning: Seq<char> },
    Final(StreamFinalView),
    Unknown(Seq<char>),
}

impl DeepView for StreamedAssistantContent {
    type V = StreamedAssistantContentView;

    open spec fn deep_view(&self) -> StreamedAssistantContentView {
        match self {
            StreamedAssistantContent::Text(text) => StreamedAssistantContentView::Text(
                text.deep_view(),
            ),
            StreamedAssistantContent::ToolCall { tool_call, internal_call_id } =>
                StreamedAssistantContentView::ToolCall {
                    tool_call: tool_call.deep_view(),
                    internal_call_id: internal_call_id@,
                },
            StreamedAssistantContent::ToolCallDelta { id, internal_call_id, content } =>
                StreamedAssistantContentView::ToolCallDelta {
                    id: id@,
                    internal_call_id: internal_call_id@,
                    content: content.deep_view(),
                },
            StreamedAssistantContent::Reasoning(block) => StreamedAssistantContentView::Reasoning(
                block.deep_view(),
            ),
            StreamedAssistantContent::ReasoningDelta { id, reasoning } =>
                StreamedAssistantContentView::ReasoningDelta { id: id@, reasoning: reasoning@ },
            StreamedAssistantContent::Final(record) => StreamedAssistantContentView::Final(
                record.deep_view(),
            ),
            StreamedAssistantContent::Unknown(value) => StreamedAssistantContentView::Unknown(
                value.deep_view(),
            ),
        }
    }
}

impl StreamedAssistantContent {
    /// A stretch of text.
    pub fn text(text: &str) -> (item: Self)
        ensures
            item.deep_view() == StreamedAssistantContentView::Text(plain_text(text@)),
    {
        StreamedAssistantContent::Text(Text::new(text.to_owned()))
    }
}

/// An item of a run's stream that does not come from the model.
#[derive(Debug, PartialEq, Eq)]
pub enum StreamedUserContent {
    ToolResult { tool_result: ToolResult, internal_call_id: String },
}

pub enum StreamedUserContentView {
    ToolResult { tool_result: ToolResultView, internal_call_id: Seq<char> },
}

impl DeepView for StreamedUserContent {
    type V = StreamedUserContentView;

    open spec fn deep_view(&self) -> StreamedUserContentView {
        match self {
            StreamedUserContent::ToolResult { tool_result, internal_call_id } =>
                StreamedUserContentView::ToolResult {
                    tool_result: tool_result.deep_view(),
                    internal_call_id: internal_call_id@,
                },
        }
    }
}

} // verus!
