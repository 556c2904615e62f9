//! The outcome of a run, and the shapes of tool results and final texts.

use vstd::prelude::*;
use crate::completion::{FinishReason, FinishReasonView};
use crate::deep::{deep, group_deep};
use crate::message::{
    plain_text, AssistantContent, AssistantContentView, ToolResultContent, ToolResultContentView,
    ToolResultStatus, ToolResultStatusView, ToolResultView, UserContent, UserContentView,
};
use crate::one_or_many::{lemma_never_empty, OneOrMany};
use crate::tool::{text_output, ToolOutput};
use crate::usage::{zero_usage, Usage};

verus! {

broadcast use {group_deep, lemma_never_empty};

/// One completed provider call of a run.
#[derive(Debug, PartialEq, Eq)]
#[non_exhaustive]
pub struct CompletionCall {
    /// The number of the call within the run, from zero.
    pub call_index: usize,
    /// What the provider reported; all zero where it reported nothing.
    pub usage: Usage,
    /// Why the provider stopped, where it said.
    pub finish_reason: Option<FinishReason>,
}

pub struct CompletionCallView {
    pub call_index: nat,
    pub usage: Usage,
    pub finish_reason: Option<FinishReasonView>,
}

impl DeepView for CompletionCall {
    type V = CompletionCallView;

    open spec fn deep_view(&self) -> CompletionCallView {
        CompletionCallView {
            call_index: self.call_index as nat,
            usage: self.usage,
            finish_reason: self.finish_reason.deep_view(),
        }
    }
}

impl Clone for CompletionCall {
    fn clone(&self) -> (copy: Self)
        ensures
            copy.deep_view() == self.deep_view(),
    {
        CompletionCall {
            call_index: self.call_index,
            usage: self.usage,
            finish_reason: self.finish_reason.clone(),
        }
    }
}

impl CompletionCall {
    pub fn new(
        call_index: usize,
        usage: Usage,
        finish_reason: Option<FinishReason>,
    ) -> (call: Self)
        ensures
            call.deep_view() == (CompletionCallView {
                call_index: call_index as nat,
                usage,
                finish_reason: finish_reason.deep_view(),
            }),
    {
        CompletionCall { call_index, usage, finish_reason }
    }
}

/// The outcome of a run.
#[derive(Debug, PartialEq, Eq)]
#[non_exhaustive]
pub struct PromptResponse {
    /// The texts of the final turn, joined.
    pub output: String,
    /// The usage of the whole run.
    pub usage: Usage,
    /// The completed provider calls of the run.
    pub completion_calls: Vec<CompletionCall>,
    /// The final turn part by part.
    pub content: OneOrMany<AssistantContent>,
}

pub struct PromptResponseView {
    pub output: Seq<char>,
    pub usage: Usage,
    pub completion_calls: Seq<CompletionCallView>,
    pub content: Seq<AssistantContentView>,
}

impl DeepView for PromptResponse {
    type V = PromptResponseView;

    open spec fn deep_view(&self) -> PromptResponseView {
        PromptResponseView {
            output: self.output@,
            usage: self.usage,
            completion_calls: deep(self.completion_calls@),
            content: self.content.deep_view(),
        }
    }
}

impl Clone for PromptResponse {
    fn clone(&self) -> (copy: Self)
        ensures
            copy.deep_view() == self.deep_view(),
    {
        let copy = PromptResponse {
            output: self.output.clone(),
            usage: self.usage,
            completion_calls: self.completion_calls.clone(),
            content: self.content.clone(),
        };
        assert(deep(copy.completion_calls@) =~= deep(self.completion_calls@));
        assert(copy.content.deep_view() =~= self.content.deep_view());
        copy
    }
}

/// A response as it is stored: the content may be missing.
#[derive(Debug, PartialEq, Eq)]
pub struct PromptResponseRepr {
    pub output: String,
    pub usage: Usage,
    pub completion_calls: Vec<CompletionCall>,
    pub content: Option<OneOrMany<AssistantContent>>,
}

pub struct PromptResponseReprView {
    pub output: Seq<char>,
    pub usage: Usage,
    pub completion_calls: Seq<CompletionCallView>,
    pub content: Option<Seq<AssistantContentView>>,
}

impl DeepView for PromptResponseRepr {
    type V = PromptResponseReprView;

    open spec fn deep_view(&self) -> PromptResponseReprView {
        PromptResponseReprView {
            output: self.output@,
            usage: self.usage,
            completion_calls: deep(self.completion_calls@),
            content: self.content.deep_view(),
        }
    }
}

/// The assistant content of one plain text.
pub open spec fn text_content(text: Seq<char>) -> Seq<AssistantContentView> {
    seq![AssistantContentView::Text(plain_text(text))]
}

/// The response that a stored one stands for: where the content is missing, it
/// is the output as one text.
pub open spec fn restored(repr: PromptResponseReprView) -> PromptResponseView {
    PromptResponseView {
        output: repr.output,
        usage: repr.usage,
        completion_calls: repr.completion_calls,
        content: match repr.content {
            Some(content) => content,
            None => text_content(repr.output),
        },
    }
}

/// The form in which a response is stored: its content is always there.
pub open spec fn stored(response: PromptResponseView) -> PromptResponseReprView {
    PromptResponseReprView {
        output: response.output,
        usage: response.usage,
        completion_calls: response.completion_calls,
        content: Some(response.content),
    }
}

/// A stored response comes back as it was.
pub proof fn law_store_then_restore(response: PromptResponseView)
    ensures
        restored(stored(response)) == response,
{
}

/// The list of one assistant text.
fn one_text(text: String) -> (content: OneOrMany<AssistantContent>)
    ensures
        content.deep_view() == text_content(text@),
{
    let part = AssistantContent::text(text);
    let content = OneOrMany::one(part);
    assert(content.deep_view() =~= seq![part.deep_view()]);
    content
}

impl PromptResponse {
    /// The response of one text.
    pub fn new(output: String, usage: Usage) -> (response: Self)
        ensures
            response.deep_view() == (PromptResponseView {
                output: output@,
                usage,
                completion_calls: Seq::empty(),
                content: text_content(output@),
            }),
    {
        PromptResponse {
            content: one_text(output.clone()),
            output,
            usage,
            completion_calls: Vec::new(),
        }
    }

    /// A response of nothing: no text, no usage.
    pub fn empty() -> (response: Self)
        ensures
            response.deep_view() == (PromptResponseView {
                output: Seq::empty(),
                usage: zero_usage(),
                completion_calls: Seq::empty(),
                content: text_content(Seq::empty()),
            }),
    {
        Self::new(String::new(), Usage::new())
    }

    /// Sets the provider calls.
    pub fn with_completion_calls(self, completion_calls: Vec<CompletionCall>) -> (response: Self)
        ensures
            response.deep_view() == (PromptResponseView {
                completion_calls: deep(completion_calls@),
                ..self.deep_view()
            }),
    {
        PromptResponse { completion_calls, ..self }
    }

    /// Sets the content of the final turn; the output stays.
    pub fn with_content(self, content: OneOrMany<AssistantContent>) -> (response: Self)
        ensures
            response.deep_view() == (PromptResponseView {
                content: content.deep_view(),
                ..self.deep_view()
            }),
    {
        PromptResponse { content, ..self }
    }

    /// The texts of the final turn, joined.
    pub fn output(&self) -> (output: &str)
        ensures
            output@ == self.deep_view().output,
    {
        self.output.as_str()
    }

    /// The response in words: its output.
    pub fn to_text(&self) -> (text: String)
        ensures
            text@ == self.deep_view().output,
    {
        self.output.clone()
    }

    /// The usage of the whole run.
    pub fn usage(&self) -> (usage: Usage)
        ensures
            usage == self.deep_view().usage,
    {
        self.usage
    }

    /// The final turn part by part.
    pub fn content(&self) -> (content: &OneOrMany<AssistantContent>)
        ensures
            content.deep_view() == self.deep_view().content,
    {
        &self.content
    }

    /// The completed provider calls.
    pub fn completion_calls(&self) -> (calls: &Vec<CompletionCall>)
        ensures
            deep(calls@) == self.deep_view().completion_calls,
    {
        &self.completion_calls
    }

    /// How many provider calls completed.
    pub fn requests(&self) -> (n: usize)
        ensures
            n == self.deep_view().completion_calls.len(),
    {
        self.completion_calls.len()
    }

    /// Brings a stored response back.
    pub fn from_repr(repr: PromptResponseRepr) -> (response: Self)
        ensures
            response.deep_view() == restored(repr.deep_view()),
    {
        let content = match repr.content {
            Some(content) => content,
            None => one_text(repr.output.clone()),
        };
        PromptResponse {
            output: repr.output,
            usage: repr.usage,
            completion_calls: repr.completion_calls,
            content,
        }
    }

    /// The form in which the response is stored.
    pub fn into_repr(self) -> (repr: PromptResponseRepr)
        ensures
            repr.deep_view() == stored(self.deep_view()),
    {
        PromptResponseRepr {
            output: self.output,
            usage: self.usage,
            completion_calls: self.completion_calls,
            content: Some(self.content),
        }
    }
}

/// A tool result whose status is not known yet.
pub open spec fn unmarked_result(
    id: Seq<char>,
    call_id: Option<Seq<char>>,
    content: Seq<ToolResultContentView>,
) -> ToolResultView {
    ToolResultView { id, call_id, content, status: None }
}

/// The tool result that reports a failure in the given words.
pub open spec fn failure_result(
    id: Seq<char>,
    call_id: Option<Seq<char>>,
    message: Seq<char>,
) -> ToolResultView {
    ToolResultView {
        id,
        call_id,
        content: text_output(message),
        status: Some(ToolResultStatusView::Failed { code: None }),
    }
}

/// Wraps content as the result of a call.
pub fn tool_result_with(
    id: String,
    call_id: Option<String>,
    content: OneOrMany<ToolResultContent>,
) -> (result: UserContent)
    ensures
        result.deep_view() == UserContentView::ToolResult(
            unmarked_result(id@, call_id.deep_view(), content.deep_view()),
        ),
{
    match call_id {
        Some(call_id) => UserContent::tool_result_with_call_id(id, call_id, content),
        None => UserContent::tool_result(id, content),
    }
}

/// Wraps the output of a tool, as it stands, as the result of a call.
pub fn tool_result_output(
    id: String,
    call_id: Option<String>,
    output: ToolOutput,
) -> (result: UserContent)
    ensures
        result.deep_view() == UserContentView::ToolResult(
            unmarked_result(id@, call_id.deep_view(), output.deep_view()),
        ),
{
    tool_result_with(id, call_id, output.into_content())
}

/// Wraps a message, word for word as text, as the failed result of a call.
pub fn tool_result_message(
    id: String,
    call_id: Option<String>,
    message: String,
) -> (result: UserContent)
    ensures
        result.deep_view() == UserContentView::ToolResult(
            failure_result(id@, call_id.deep_view(), message@),
        ),
{
    let part = ToolResultContent::text(message);
    let content = OneOrMany::one(part);
    assert(content.deep_view() =~= text_output(message@));
    match tool_result_with(id, call_id, content) {
        UserContent::ToolResult(mut tool_result) => {
            tool_result.status = Some(ToolResultStatus::Failed { code: None });
            UserContent::ToolResult(tool_result)
        },
        other => other,
    }
}

/// Whether a turn is one bare empty text.
pub open spec fn says_nothing(choice: Seq<AssistantContentView>) -> bool {
    choice == text_content(Seq::empty())
}

/// Whether a turn is one bare empty text.
pub fn is_empty_assistant_turn(choice: &OneOrMany<AssistantContent>) -> (empty: bool)
    ensures
        empty == says_nothing(choice.deep_view()),
{
    let ghost parts = choice.deep_view();
    if !choice.is_single() {
        assert(parts.len() != text_content(Seq::empty()).len());
        return false;
    }
    assert(parts =~= seq![parts[0]]);
    match choice.first() {
        AssistantContent::Text(text) => {
            assert(parts[0] == AssistantContentView::Text(text.deep_view()));
            assert(text_content(Seq::empty())[0] == AssistantContentView::Text(
                plain_text(Seq::empty()),
            ));
            let empty = text.text.as_str().is_empty() && text.additional_params.is_none();
            if empty {
                assert(text.text@ =~= Seq::empty());
                assert(text.deep_view() == plain_text(Seq::empty()));
            }
            empty
        },
        _ => {
            assert(!(parts[0] is Text));
            assert(text_content(Seq::empty())[0] is Text);
            false
        },
    }
}

/// The texts of a turn, joined.
pub open spec fn turn_text(choice: Seq<AssistantContentView>) -> Seq<char>
    decreases choice.len(),
{
    if choice.len() == 0 {
        Seq::empty()
    } else {
        let before = turn_text(choice.drop_last());
        match choice.last() {
            AssistantContentView::Text(text) => before + text.text,
            _ => before,
        }
    }
}

/// Joins the texts of a turn.
pub fn assistant_text_from_choice(choice: &OneOrMany<AssistantContent>) -> (text: String)
    ensures
        text@ == turn_text(choice.deep_view()),
{
    let ghost whole = choice.deep_view();
    let parts = choice.iter();
    let mut text: String = String::new();
    let mut i: usize = 0;
    while i < parts.len()
        invariant
            i <= parts@.len(),
            whole == choice.deep_view(),
            parts@.len() == choice@.len(),
            forall|k: int| 0 <= k < parts@.len() ==> *(#[trigger] parts@[k]) == choice@[k],
            text@ == turn_text(whole.take(i as int)),
        decreases parts@.len() - i,
    {
        assert(whole.take(i + 1).drop_last() =~= whole.take(i as int));
        assert(whole.take(i + 1).last() == parts@[i as int].deep_view());
        match parts[i] {
            AssistantContent::Text(part) => {
                text.append(part.text.as_str());
            },
            _ => {},
        }
        i = i + 1;
    }
    assert(whole.take(i as int) =~= whole);
    text
}

} // verus!
