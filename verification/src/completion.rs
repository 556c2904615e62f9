//! Completion requests and what can go wrong with them.

use vstd::prelude::*;
use crate::deep::{deep, group_deep};
use crate::json::{json_compact, Json};
use crate::message::{Message, MessageView};
use crate::strings::{decimal, spell};

verus! {

broadcast use group_deep;

/// Why a provider stopped generating.
#[derive(Debug, PartialEq, Eq)]
pub enum FinishReason {
    Stop,
    Length,
    ToolCalls,
    ContentFilter,
    Other(String),
}

pub enum FinishReasonView {
    Stop,
    Length,
    ToolCalls,
    ContentFilter,
    Other(Seq<char>),
}

impl DeepView for FinishReason {
    type V = FinishReasonView;

    open spec fn deep_view(&self) -> FinishReasonView {
        match self {
            FinishReason::Stop => FinishReasonView::Stop,
            FinishReason::Length => FinishReasonView::Length,
            FinishReason::ToolCalls => FinishReasonView::ToolCalls,
            FinishReason::ContentFilter => FinishReasonView::ContentFilter,
            FinishReason::Other(reason) => FinishReasonView::Other(reason@),
        }
    }
}

impl Clone for FinishReason {
    fn clone(&self) -> (copy: Self)
        ensures
            copy.deep_view() == self.deep_view(),
    {
        match self {
            FinishReason::Stop => FinishReason::Stop,
            FinishReason::Length => FinishReason::Length,
            FinishReason::ToolCalls => FinishReason::ToolCalls,
            FinishReason::ContentFilter => FinishReason::ContentFilter,
            FinishReason::Other(reason) => FinishReason::Other(reason.clone()),
        }
    }
}

/// What a provider answered in place of a completion.
#[derive(Debug, PartialEq, Eq)]
pub struct ProviderResponseError {
    /// The HTTP status, where there was one.
    pub status: Option<u16>,
    pub body: String,
}

/// A completion that failed.
#[derive(Debug, PartialEq, Eq)]
pub enum CompletionError {
    /// The transport failed. The status and the body of the response are there
    /// where there was a response.
    HttpError { status: Option<u16>, body: Option<String>, message: String },
    /// The request cannot be made.
    RequestError(String),
    /// The response cannot be understood.
    ResponseError(String),
    /// The provider reported an error.
    ProviderError(String),
    /// The provider answered with an error response.
    ProviderResponse(ProviderResponseError),
    /// The model emitted a tool call whose arguments cannot be read.
    MalformedToolCall { tool: String, reason: String },
}

#[allow(inconsistent_fields)]
pub enum CompletionErrorView {
    HttpError { status: Option<u16>, body: Option<Seq<char>>, message: Seq<char> },
    RequestError(Seq<char>),
    ResponseError(Seq<char>),
    ProviderError(Seq<char>),
    ProviderResponse { status: Option<u16>, body: Seq<char> },
    MalformedToolCall { tool: Seq<char>, reason: Seq<char> },
}

impl DeepView for CompletionError {
    type V = CompletionErrorView;

    open spec fn deep_view(&self) -> CompletionErrorView {
        match self {
            CompletionError::HttpError { status, body, message } => CompletionErrorView::HttpError {
                status: *status,
                body: body.deep_view(),
                message: message@,
            },
            CompletionError::RequestError(message) => CompletionErrorView::RequestError(message@),
            CompletionError::ResponseError(message) => CompletionErrorView::ResponseError(message@),
            CompletionError::ProviderError(message) => CompletionErrorView::ProviderError(message@),
            CompletionError::ProviderResponse(response) => CompletionErrorView::ProviderResponse {
                status: response.status,
                body: response.body@,
            },
            CompletionError::MalformedToolCall { tool, reason } =>
                CompletionErrorView::MalformedToolCall { tool: tool@, reason: reason@ },
        }
    }
}

impl CompletionErrorView {
    /// The HTTP status of the provider's response.
    pub open spec fn status(self) -> Option<u16> {
        match self {
            CompletionErrorView::HttpError { status, .. } => status,
            CompletionErrorView::ProviderResponse { status, .. } => status,
            _ => None,
        }
    }

    /// The body of the provider's response.
    pub open spec fn body(self) -> Option<Seq<char>> {
        match self {
            CompletionErrorView::HttpError { body, .. } => body,
            CompletionErrorView::ProviderResponse { body, .. } => Some(body),
            _ => None,
        }
    }

    /// The error in words.
    pub open spec fn text(self) -> Seq<char> {
        match self {
            CompletionErrorView::HttpError { message, .. } => "HttpError: "@ + message,
            CompletionErrorView::RequestError(message) => "RequestError: "@ + message,
            CompletionErrorView::ResponseError(message) => "ResponseError: "@ + message,
            CompletionErrorView::ProviderError(message) => "ProviderError: "@ + message,
            CompletionErrorView::ProviderResponse { body, .. } => "ProviderResponse: "@ + body,
            CompletionErrorView::MalformedToolCall { tool, reason } => "MalformedToolCall: `"@
                + tool + "`: "@ + reason,
        }
    }
}

/// `head` followed by `tail`.
fn prefixed(head: &str, tail: &str) -> (text: String)
    ensures
        text@ == head@ + tail@,
{
    let mut text = head.to_owned();
    text.append(tail);
    text
}

/// What reading a response body as JSON has to give: nothing where there is no
/// body, and an error exactly where the body is no JSON.
pub open spec fn body_read_as_json(
    body: Option<Seq<char>>,
    read: Result<Option<Json>, serde_json::Error>,
) -> bool {
    match body {
        None => read == Ok::<Option<Json>, serde_json::Error>(None),
        Some(body) => match json_compact(body) {
            None => read is Err,
            Some(text) => read matches Ok(Some(value)) && value.deep_view() == text,
        },
    }
}

impl CompletionError {
    /// The error for a response with the given status and body.
    pub fn from_http_response(status: u16, body: &str) -> (error: Self)
        ensures
            error.deep_view() == (CompletionErrorView::ProviderResponse {
                status: Some(status),
                body: body@,
            }),
    {
        CompletionError::ProviderResponse(
            ProviderResponseError { status: Some(status), body: body.to_owned() },
        )
    }

    /// The body of the provider's response, where there is one.
    pub fn provider_response_body(&self) -> (body: Option<&str>)
        ensures
            body.deep_view() == self.deep_view().body(),
    {
        match self {
            CompletionError::HttpError { body: Some(body), .. } => Some(body.as_str()),
            CompletionError::ProviderResponse(response) => Some(response.body.as_str()),
            _ => None,
        }
    }

    /// The body of the provider's response read as JSON.
    pub fn provider_response_json(&self) -> (read: Result<Option<Json>, serde_json::Error>)
        ensures
            body_read_as_json(self.deep_view().body(), read),
    {
        match self.provider_response_body() {
            Some(body) => match Json::parse(body) {
                Ok(value) => Ok(Some(value)),
                Err(error) => Err(error),
            },
            None => Ok(None),
        }
    }

    /// The HTTP status of the provider's response, where there is one.
    pub fn provider_response_status(&self) -> (status: Option<u16>)
        ensures
            status == self.deep_view().status(),
    {
        match self {
            CompletionError::HttpError { status, .. } => *status,
            CompletionError::ProviderResponse(response) => response.status,
            _ => None,
        }
    }

    /// The error in words.
    pub fn to_text(&self) -> (text: String)
        ensures
            text@ == self.deep_view().text(),
    {
        match self {
            CompletionError::HttpError { message, .. } => prefixed("HttpError: ", message.as_str()),
            CompletionError::RequestError(message) => prefixed("RequestError: ", message.as_str()),
            CompletionError::ResponseError(message) => prefixed(
                "ResponseError: ",
                message.as_str(),
            ),
            CompletionError::ProviderError(message) => prefixed(
                "ProviderError: ",
                message.as_str(),
            ),
            CompletionError::ProviderResponse(response) => prefixed(
                "ProviderResponse: ",
                response.body.as_str(),
            ),
            CompletionError::MalformedToolCall { tool, reason } => {
                let mut text = prefixed("MalformedToolCall: `", tool.as_str());
                text.append("`: ");
                text.append(reason.as_str());
                text
            },
        }
    }
}

/// A run that failed.
#[derive(Debug, PartialEq, Eq)]
pub enum PromptError {
    /// A completion failed.
    CompletionError(CompletionError),
    /// The conversation memory failed.
    MemoryError(String),
    /// The run used up its budget of model calls.
    MaxTurnsError {
        /// The budget.
        max_turns: usize,
        /// The history as it stood then.
        chat_history: Vec<Message>,
        /// The message that the next call would have answered.
        prompt: Box<Message>,
    },
    /// The run was stopped.
    PromptCancelled {
        /// The history as it stood then.
        chat_history: Vec<Message>,
        reason: String,
    },
}

pub enum PromptErrorView {
    CompletionError(CompletionErrorView),
    MemoryError(Seq<char>),
    MaxTurnsError { max_turns: nat, chat_history: Seq<MessageView>, prompt: MessageView },
    PromptCancelled { chat_history: Seq<MessageView>, reason: Seq<char> },
}

impl DeepView for PromptError {
    type V = PromptErrorView;

    open spec fn deep_view(&self) -> PromptErrorView {
        match self {
            PromptError::CompletionError(error) => PromptErrorView::CompletionError(
                error.deep_view(),
            ),
            PromptError::MemoryError(message) => PromptErrorView::MemoryError(message@),
            PromptError::MaxTurnsError { max_turns, chat_history, prompt } =>
                PromptErrorView::MaxTurnsError {
                    max_turns: *max_turns as nat,
                    chat_history: deep(chat_history@),
                    prompt: prompt.deep_view(),
                },
            PromptError::PromptCancelled { chat_history, reason } =>
                PromptErrorView::PromptCancelled {
                    chat_history: deep(chat_history@),
                    reason: reason@,
                },
        }
    }
}

impl PromptErrorView {
    /// The HTTP status of the provider's response.
    pub open spec fn status(self) -> Option<u16> {
        match self {
            PromptErrorView::CompletionError(error) => error.status(),
            _ => None,
        }
    }

    /// The body of the provider's response.
    pub open spec fn body(self) -> Option<Seq<char>> {
        match self {
            PromptErrorView::CompletionError(error) => error.body(),
            _ => None,
        }
    }

    /// The error in words.
    pub open spec fn text(self) -> Seq<char> {
        match self {
            PromptErrorView::CompletionError(error) => "CompletionError: "@ + error.text(),
            PromptErrorView::MemoryError(message) => "MemoryError: "@ + message,
            PromptErrorView::MaxTurnsError { max_turns, .. } =>
                "MaxTurnsError: reached max turns limit: "@ + decimal(max_turns),
            PromptErrorView::PromptCancelled { reason, .. } => "PromptCancelled: "@ + reason,
        }
    }
}

impl PromptError {
    /// The body of the provider's response behind a failed completion.
    pub fn provider_response_body(&self) -> (body: Option<&str>)
        ensures
            body.deep_view() == self.deep_view().body(),
    {
        match self {
            PromptError::CompletionError(error) => error.provider_response_body(),
            _ => None,
        }
    }

    /// The body of the provider's response read as JSON.
    pub fn provider_response_json(&self) -> (read: Result<Option<Json>, serde_json::Error>)
        ensures
            body_read_as_json(self.deep_view().body(), read),
    {
        match self {
            PromptError::CompletionError(error) => error.provider_response_json(),
            _ => Ok(None),
        }
    }

    /// The HTTP status of the provider's response behind a failed completion.
    pub fn provider_response_status(&self) -> (status: Option<u16>)
        ensures
            status == self.deep_view().status(),
    {
        match self {
            PromptError::CompletionError(error) => error.provider_response_status(),
            _ => None,
        }
    }

    /// The error of a run that was stopped.
    pub fn prompt_cancelled(chat_history: Vec<Message>, reason: &str) -> (error: Self)
        ensures
            error.deep_view() == (PromptErrorView::PromptCancelled {
                chat_history: deep(chat_history@),
                reason: reason@,
            }),
    {
        PromptError::PromptCancelled { chat_history, reason: reason.to_owned() }
    }

    /// The error in words.
    pub fn to_text(&self) -> (text: String)
        ensures
            text@ == self.deep_view().text(),
    {
        match self {
            PromptError::CompletionError(error) => prefixed(
                "CompletionError: ",
                error.to_text().as_str(),
            ),
            PromptError::MemoryError(message) => prefixed("MemoryError: ", message.as_str()),
            PromptError::MaxTurnsError { max_turns, .. } => prefixed(
                "MaxTurnsError: reached max turns limit: ",
                spell(*max_turns).as_str(),
            ),
            PromptError::PromptCancelled { reason, .. } => prefixed(
                "PromptCancelled: ",
                reason.as_str(),
            ),
        }
    }
}

/// Which tools a model may or must call.
#[derive(Debug, PartialEq, Eq)]
pub enum ToolChoice {
    Auto,
    NoTool,
    Required,
    Specific { function_names: Vec<String> },
}

pub enum ToolChoiceView {
    Auto,
    NoTool,
    Required,
    Specific { function_names: Seq<Seq<char>> },
}

impl DeepView for ToolChoice {
    type V = ToolChoiceView;

    open spec fn deep_view(&self) -> ToolChoiceView {
        match self {
            ToolChoice::Auto => ToolChoiceView::Auto,
            ToolChoice::NoTool => ToolChoiceView::NoTool,
            ToolChoice::Required => ToolChoiceView::Required,
            ToolChoice::Specific { function_names } => ToolChoiceView::Specific {
                function_names: deep(function_names@),
            },
        }
    }
}

impl Clone for ToolChoice {
    fn clone(&self) -> (copy: Self)
        ensures
            copy.deep_view() == self.deep_view(),
    {
        match self {
            ToolChoice::Auto => ToolChoice::Auto,
            ToolChoice::NoTool => ToolChoice::NoTool,
            ToolChoice::Required => ToolChoice::Required,
            ToolChoice::Specific { function_names } => {
                let names = function_names.clone();
                assert(deep(names@) =~= deep(function_names@));
                ToolChoice::Specific { function_names: names }
            },
        }
    }
}

/// A tool as a provider is told of it.
#[derive(Debug, PartialEq, Eq)]
pub struct ToolDefinition {
    pub name: String,
    pub description: String,
    /// The JSON schema of the arguments.
    pub parameters: Json,
}

pub struct ToolDefinitionView {
    pub name: Seq<char>,
    pub description: Seq<char>,
    pub parameters: Seq<char>,
}

impl DeepView for ToolDefinition {
    type V = ToolDefinitionView;

    open spec fn deep_view(&self) -> ToolDefinitionView {
        ToolDefinitionView {
            name: self.name@,
            description: self.description@,
            parameters: self.parameters.deep_view(),
        }
    }
}

impl Clone for ToolDefinition {
    fn clone(&self) -> (copy: Self)
        ensures
            copy.deep_view() == self.deep_view(),
    {
        ToolDefinition {
            name: self.name.clone(),
            description: self.description.clone(),
            parameters: self.parameters.clone(),
        }
    }
}

/// A document that goes along with every request.
#[derive(Debug, PartialEq, Eq)]
pub struct Document {
    pub id: String,
    pub text: String,
    /// Further properties, each a name and a value.
    pub additional_props: Vec<(String, String)>,
}

pub struct DocumentView {
    pub id: Seq<char>,
    pub text: Seq<char>,
    pub additional_props: Seq<(Seq<char>, Seq<char>)>,
}

impl DeepView for Document {
    type V = DocumentView;

    open spec fn deep_view(&self) -> DocumentView {
        DocumentView {
            id: self.id@,
            text: self.text@,
            additional_props: deep(self.additional_props@),
        }
    }
}

/// Copies pairs of strings.
pub(crate) fn copy_pairs(pairs: &Vec<(String, String)>) -> (copy: Vec<(String, String)>)
    ensures
        deep(copy@) == deep(pairs@),
{
    let mut copy: Vec<(String, String)> = Vec::new();
    let mut i: usize = 0;
    while i < pairs.len()
        invariant
            i <= pairs@.len(),
            copy@.len() == i,
            forall|k: int| 0 <= k < i ==> (#[trigger] copy@[k]).deep_view() == pairs@[k].deep_view(),
        decreases pairs@.len() - i,
    {
        copy.push((pairs[i].0.clone(), pairs[i].1.clone()));
        i = i + 1;
    }
    assert(deep(copy@) =~= deep(pairs@));
    copy
}

impl Clone for Document {
    fn clone(&self) -> (copy: Self)
        ensures
            copy.deep_view() == self.deep_view(),
    {
        Document {
            id: self.id.clone(),
            text: self.text.clone(),
            additional_props: copy_pairs(&self.additional_props),
        }
    }
}

} // verus!
