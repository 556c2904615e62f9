//! What running a tool gives.

use vstd::prelude::*;
use crate::deep::group_deep;
use crate::message::{
    plain_text, Text, ToolResultContent, ToolResultContentView, ToolResultStatus,
    ToolResultStatusView,
};
use crate::one_or_many::OneOrMany;

verus! {

broadcast use group_deep;

/// What a tool shows to the model.
#[derive(Debug, PartialEq, Eq)]
pub struct ToolOutput {
    content: OneOrMany<ToolResultContent>,
}

impl DeepView for ToolOutput {
    type V = Seq<ToolResultContentView>;

    closed spec fn deep_view(&self) -> Seq<ToolResultContentView> {
        self.content.deep_view()
    }
}

impl Clone for ToolOutput {
    fn clone(&self) -> (copy: Self)
        ensures
            copy.deep_view() == self.deep_view(),
    {
        let copy = ToolOutput { content: self.content.clone() };
        assert(copy.content.deep_view() =~= self.content.deep_view());
        copy
    }
}

/// The output of one plain text.
pub open spec fn text_output(text: Seq<char>) -> Seq<ToolResultContentView> {
    seq![ToolResultContentView::Text(plain_text(text))]
}

impl ToolOutput {
    /// The output of one plain text, taken as it stands.
    pub fn text(text: String) -> (output: Self)
        ensures
            output.deep_view() == text_output(text@),
    {
        let part = ToolResultContent::text(text);
        let output = ToolOutput { content: OneOrMany::one(part) };
        assert(output.content.deep_view() =~= seq![part.deep_view()]);
        output
    }

    /// The output of the given parts.
    pub fn content(content: OneOrMany<ToolResultContent>) -> (output: Self)
        ensures
            output.deep_view() == content.deep_view(),
    {
        ToolOutput { content }
    }

    /// The parts of the output.
    pub fn into_content(self) -> (content: OneOrMany<ToolResultContent>)
        ensures
            content.deep_view() == self.deep_view(),
    {
        self.content
    }

    /// The text of an output that is one text and nothing else.
    pub fn as_text(&self) -> (text: Option<&str>)
        ensures
            text.deep_view() == (if self.deep_view().len() == 1 {
                match self.deep_view()[0] {
                    ToolResultContentView::Text(text) => Some(text.text),
                    _ => None,
                }
            } else {
                None
            }),
    {
        if !self.content.is_single() {
            return None;
        }
        match self.content.first() {
            ToolResultContent::Text(text) => Some(text.text.as_str()),
            _ => None,
        }
    }
}

/// How running a tool ended.
#[derive(Debug, PartialEq, Eq)]
pub enum ExecutionStatus {
    Success,
    /// The tool failed; it may have named the reason.
    Failed { code: Option<String> },
    /// The tool did not run.
    Skipped,
}

pub enum ExecutionStatusView {
    Success,
    Failed { code: Option<Seq<char>> },
    Skipped,
}

impl DeepView for ExecutionStatus {
    type V = ExecutionStatusView;

    open spec fn deep_view(&self) -> ExecutionStatusView {
        match self {
            ExecutionStatus::Success => ExecutionStatusView::Success,
            ExecutionStatus::Failed { code } => ExecutionStatusView::Failed {
                code: code.deep_view(),
            },
            ExecutionStatus::Skipped => ExecutionStatusView::Skipped,
        }
    }
}

/// The result of running a tool, as it came from the tool.
#[derive(Debug, PartialEq, Eq)]
pub struct ExecutionResult {
    pub output: ToolOutput,
    pub status: ExecutionStatus,
}

pub struct ExecutionResultView {
    pub output: Seq<ToolResultContentView>,
    pub status: ExecutionStatusView,
}

impl DeepView for ExecutionResult {
    type V = ExecutionResultView;

    open spec fn deep_view(&self) -> ExecutionResultView {
        ExecutionResultView { output: self.output.deep_view(), status: self.status.deep_view() }
    }
}

impl ExecutionStatusView {
    /// How the model is told of it: what did not run did not succeed.
    pub open spec fn told(self) -> ToolResultStatusView {
        match self {
            ExecutionStatusView::Success => ToolResultStatusView::Success,
            ExecutionStatusView::Failed { code } => ToolResultStatusView::Failed { code },
            ExecutionStatusView::Skipped => ToolResultStatusView::Failed { code: None },
        }
    }
}

/// The result of a call that did not run, for the given reason.
pub open spec fn skipped_result(reason: Seq<char>) -> ExecutionResultView {
    ExecutionResultView { output: text_output(reason), status: ExecutionStatusView::Skipped }
}

impl ExecutionResult {
    /// The result of a tool that succeeded.
    pub fn success(output: ToolOutput) -> (result: Self)
        ensures
            result.deep_view() == (ExecutionResultView {
                output: output.deep_view(),
                status: ExecutionStatusView::Success,
            }),
    {
        ExecutionResult { output, status: ExecutionStatus::Success }
    }

    /// The result of a tool that failed, with what it says to the model.
    pub fn failed(message: String, code: Option<String>) -> (result: Self)
        ensures
            result.deep_view() == (ExecutionResultView {
                output: text_output(message@),
                status: ExecutionStatusView::Failed { code: code.deep_view() },
            }),
    {
        ExecutionResult { output: ToolOutput::text(message), status: ExecutionStatus::Failed { code } }
    }

    /// The result of a call that did not run, for the given reason.
    pub fn skipped(reason: String) -> (result: Self)
        ensures
            result.deep_view() == skipped_result(reason@),
    {
        ExecutionResult { output: ToolOutput::text(reason), status: ExecutionStatus::Skipped }
    }

    /// How the model is told that running the tool ended.
    pub fn execution_status(&self) -> (status: ToolResultStatus)
        ensures
            status.deep_view() == self.deep_view().status.told(),
    {
        match &self.status {
            ExecutionStatus::Success => ToolResultStatus::Success,
            ExecutionStatus::Failed { code } => ToolResultStatus::Failed { code: code.clone() },
            ExecutionStatus::Skipped => ToolResultStatus::Failed { code: None },
        }
    }
}

} // verus!
