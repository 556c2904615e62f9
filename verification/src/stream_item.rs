//! The items of a run's stream.

use vstd::prelude::*;
use crate::completion::{CompletionError, CompletionErrorView, PromptError, PromptErrorView};
use crate::deep::{deep, group_deep};
use crate::message::{AssistantContent, AssistantContentView, ToolCall, ToolCallView};
use crate::one_or_many::OneOrMany;
use crate::prompt_response::{
    assistant_text_from_choice, turn_text, CompletionCall, CompletionCallView, PromptResponse,
    PromptResponseView,
};
use crate::streaming::{
    StreamedAssistantContent, StreamedAssistantContentView, StreamedUserContent,
    StreamedUserContentView,
};
use crate::usage::Usage;

verus! {

broadcast use group_deep;

/// An item of a run's stream.
#[derive(Debug, PartialEq, Eq)]
#[non_exhaustive]
pub enum MultiTurnStreamItem {
    /// A model call is about to be made; what follows belongs to its turn until the
    /// next turn starts.
    TurnStarted { id: String },
    /// The turn is part of the history now.
    TurnCommitted { id: String, content: Box<OneOrMany<AssistantContent>> },
    /// Something that the model emitted.
    StreamAssistantItem(StreamedAssistantContent),
    /// A tool call has run, and its result is part of the history now. The call is
    /// shown as it ran.
    ToolExecutionCommitted { tool_call: ToolCall, internal_call_id: String },
    /// The result of a tool call that has run, or was skipped.
    StreamUserItem(StreamedUserContent),
    /// A provider call is complete.
    CompletionCall(CompletionCall),
    /// The turn was discarded and is tried again; what was shown of it does not
    /// count.
    ModelTurnRetried { turn: usize },
    /// A turn and the results of all its tool calls are part of the history now.
    RoundtripClosed { turn_id: String },
    /// The outcome of the run.
    FinalResponse(PromptResponse),
    /// Queued user messages have joined the run: the id and the text of each.
    Steer { batch: Vec<(String, String)> },
}

#[allow(inconsistent_fields)]
pub enum MultiTurnStreamItemView {
    TurnStarted { id: Seq<char> },
    TurnCommitted { id: Seq<char>, content: Seq<AssistantContentView> },
    StreamAssistantItem(StreamedAssistantContentView),
    ToolExecutionCommitted { tool_call: ToolCallView, internal_call_id: Seq<char> },
    StreamUserItem(StreamedUserContentView),
    CompletionCall(CompletionCallView),
    ModelTurnRetried { turn: nat },
    RoundtripClosed { turn_id: Seq<char> },
    FinalResponse(PromptResponseView),
    Steer { batch: Seq<(Seq<char>, Seq<char>)> },
}

impl DeepView for MultiTurnStreamItem {
    type V = MultiTurnStreamItemView;

    open spec fn deep_view(&self) -> MultiTurnStreamItemView {
        match self {
            MultiTurnStreamItem::TurnStarted { id } => MultiTurnStreamItemView::TurnStarted {
                id: id@,
            },
            MultiTurnStreamItem::TurnCommitted { id, content } =>
                MultiTurnStreamItemView::TurnCommitted { id: id@, content: content.deep_view() },
            MultiTurnStreamItem::StreamAssistantItem(item) =>
                MultiTurnStreamItemView::StreamAssistantItem(item.deep_view()),
            MultiTurnStreamItem::ToolExecutionCommitted { tool_call, internal_call_id } =>
                MultiTurnStreamItemView::ToolExecutionCommitted {
                    tool_call: tool_call.deep_view(),
                    internal_call_id: internal_call_id@,
                },
            MultiTurnStreamItem::StreamUserItem(item) => MultiTurnStreamItemView::StreamUserItem(
                item.deep_view(),
            ),
            MultiTurnStreamItem::CompletionCall(call) => MultiTurnStreamItemView::CompletionCall(
                call.deep_view(),
            ),
            MultiTurnStreamItem::ModelTurnRetried { turn } =>
                MultiTurnStreamItemView::ModelTurnRetried { turn: *turn as nat },
            MultiTurnStreamItem::RoundtripClosed { turn_id } =>
                MultiTurnStreamItemView::RoundtripClosed { turn_id: turn_id@ },
            MultiTurnStreamItem::FinalResponse(response) => MultiTurnStreamItemView::FinalResponse(
                response.deep_view(),
            ),
            MultiTurnStreamItem::Steer { batch } => MultiTurnStreamItemView::Steer {
                batch: deep(batch@),
            },
        }
    }
}

/// The outcome of a run that ends with the given content.
pub open spec fn final_response_view(
    content: Seq<AssistantContentView>,
    usage: Usage,
    completion_calls: Seq<CompletionCallView>,
) -> PromptResponseView {
    PromptResponseView { output: turn_text(content), usage, completion_calls, content }
}

/// The outcome of a run that ends with the given content.
fn final_response_from_content(
    content: OneOrMany<AssistantContent>,
    aggregated_usage: Usage,
    completion_calls: Vec<CompletionCall>,
) -> (response: PromptResponse)
    ensures
        response.deep_view() == final_response_view(
            content.deep_view(),
            aggregated_usage,
            deep(completion_calls@),
        ),
{
    PromptResponse::new(assistant_text_from_choice(&content), aggregated_usage).with_content(
        content,
    ).with_completion_calls(completion_calls)
}

impl MultiTurnStreamItem {
    /// Something that the model emitted.
    pub fn stream_item(item: StreamedAssistantContent) -> (made: Self)
        ensures
            made.deep_view() == MultiTurnStreamItemView::StreamAssistantItem(item.deep_view()),
    {
        MultiTurnStreamItem::StreamAssistantItem(item)
    }

    /// The outcome of a run, without its provider calls.
    pub fn final_response(content: OneOrMany<AssistantContent>, aggregated_usage: Usage) -> (made: Self)
        ensures
            made.deep_view() == MultiTurnStreamItemView::FinalResponse(
                final_response_view(content.deep_view(), aggregated_usage, Seq::empty()),
            ),
    {
        MultiTurnStreamItem::FinalResponse(
            final_response_from_content(content, aggregated_usage, Vec::new()),
        )
    }

    /// The outcome of a run, with its provider calls.
    pub fn final_response_with_completion_calls(
        content: OneOrMany<AssistantContent>,
        aggregated_usage: Usage,
        completion_calls: Vec<CompletionCall>,
    ) -> (made: Self)
        ensures
            made.deep_view() == MultiTurnStreamItemView::FinalResponse(
                final_response_view(
                    content.deep_view(),
                    aggregated_usage,
                    deep(completion_calls@),
                ),
            ),
    {
        MultiTurnStreamItem::FinalResponse(
            final_response_from_content(content, aggregated_usage, completion_calls),
        )
    }
}

/// What can go wrong in a stream.
#[derive(Debug, PartialEq, Eq)]
pub enum StreamingError {
    Completion(CompletionError),
    Prompt(Box<PromptError>),
}

pub enum StreamingErrorView {
    Completion(CompletionErrorView),
    Prompt(PromptErrorView),
}

impl DeepView for StreamingError {
    type V = StreamingErrorView;

    open spec fn deep_view(&self) -> StreamingErrorView {
        match self {
            StreamingError::Completion(error) => StreamingErrorView::Completion(error.deep_view()),
            StreamingError::Prompt(error) => StreamingErrorView::Prompt(error.deep_view()),
        }
    }
}

impl StreamingErrorView {
    /// The error in words.
    pub open spec fn text(self) -> Seq<char> {
        match self {
            StreamingErrorView::Completion(error) => "CompletionError: "@ + error.text(),
            StreamingErrorView::Prompt(error) => "PromptError: "@ + error.text(),
        }
    }

    /// The error of the run as a whole.
    pub open spec fn as_prompt_error(self) -> PromptErrorView {
        match self {
            StreamingErrorView::Completion(error) => PromptErrorView::CompletionError(error),
            StreamingErrorView::Prompt(error) => error,
        }
    }
}

impl StreamingError {
    /// The error in words.
    pub fn to_text(&self) -> (text: String)
        ensures
            text@ == self.deep_view().text(),
    {
        match self {
            StreamingError::Completion(error) => {
                let mut text = "CompletionError: ".to_owned();
                text.append(error.to_text().as_str());
                text
            },
            StreamingError::Prompt(error) => {
                let mut text = "PromptError: ".to_owned();
                text.append(error.to_text().as_str());
                text
            },
        }
    }
}

/// Turns an error of the stream into one of the run as a whole. Nothing of it is
/// lost.
pub fn streaming_error_into_prompt(error: StreamingError) -> (result: PromptError)
    ensures
        result.deep_view() == error.deep_view().as_prompt_error(),
{
    match error {
        StreamingError::Completion(error) => PromptError::CompletionError(error),
        StreamingError::Prompt(error) => *error,
    }
}

} // verus!
