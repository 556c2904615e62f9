//! Running one tool call: what hooks make of it before and after.

use vstd::prelude::*;
use crate::deep::group_deep;
use crate::hook::{
    CallAnswer, CallAnswerView, ToolCallAction, ToolCallActionView, ToolResultAction,
    ToolResultActionView,
};
use crate::json::Json;
use crate::message::{
    TextView, ToolCall, ToolCallView, ToolFunctionView, ToolResultContentView,
    ToolResultStatusView, ToolResultView, UserContent, UserContentView,
};
use crate::prompt_response::tool_result_output;
use crate::tool::{
    skipped_result, ExecutionResult, ExecutionResultView, ExecutionStatusView, ToolOutput,
};

verus! {

broadcast use group_deep;

/// What is done with a tool call.
#[derive(Debug, PartialEq, Eq)]
pub enum ToolCallDecision {
    /// It runs with the arguments of the model.
    Proceed,
    /// It runs with these arguments.
    ProceedWith(Json),
    /// It does not run, for this reason.
    Skip(String),
}

pub enum ToolCallDecisionView {
    Proceed,
    ProceedWith(Seq<char>),
    Skip(Seq<char>),
}

impl DeepView for ToolCallDecision {
    type V = ToolCallDecisionView;

    open spec fn deep_view(&self) -> ToolCallDecisionView {
        match self {
            ToolCallDecision::Proceed => ToolCallDecisionView::Proceed,
            ToolCallDecision::ProceedWith(args) => ToolCallDecisionView::ProceedWith(
                args.deep_view(),
            ),
            ToolCallDecision::Skip(reason) => ToolCallDecisionView::Skip(reason@),
        }
    }
}

/// What the hooks' action makes of a tool call.
pub open spec fn call_decision(action: ToolCallActionView) -> ToolCallDecisionView {
    match action {
        ToolCallActionView::Run => ToolCallDecisionView::Proceed,
        ToolCallActionView::Rewrite(args) => ToolCallDecisionView::ProceedWith(args),
        ToolCallActionView::Skip(reason) => ToolCallDecisionView::Skip(reason),
    }
}

/// What the hooks' action makes of a tool call.
pub fn tool_call_decision(action: ToolCallAction) -> (decision: ToolCallDecision)
    ensures
        decision.deep_view() == call_decision(action.deep_view()),
{
    match action {
        ToolCallAction::Run => ToolCallDecision::Proceed,
        ToolCallAction::Rewrite(args) => ToolCallDecision::ProceedWith(args),
        ToolCallAction::Skip(reason) => ToolCallDecision::Skip(reason),
    }
}

/// What is done with a tool result.
#[derive(Debug, PartialEq, Eq)]
pub enum ToolResultDecision {
    /// The model sees it as it is.
    Keep,
    /// The model sees this in its place.
    Replace(ToolOutput),
    /// The run does not go on behind the tools of this turn. The result stays.
    Stop(String),
}

pub enum ToolResultDecisionView {
    Keep,
    Replace(Seq<ToolResultContentView>),
    Stop(Seq<char>),
}

impl DeepView for ToolResultDecision {
    type V = ToolResultDecisionView;

    open spec fn deep_view(&self) -> ToolResultDecisionView {
        match self {
            ToolResultDecision::Keep => ToolResultDecisionView::Keep,
            ToolResultDecision::Replace(output) => ToolResultDecisionView::Replace(
                output.deep_view(),
            ),
            ToolResultDecision::Stop(reason) => ToolResultDecisionView::Stop(reason@),
        }
    }
}

/// What the hooks' action makes of a tool result.
pub open spec fn result_decision(action: ToolResultActionView) -> ToolResultDecisionView {
    match action {
        ToolResultActionView::Keep => ToolResultDecisionView::Keep,
        ToolResultActionView::Rewrite(output) => ToolResultDecisionView::Replace(output),
        ToolResultActionView::Stop(reason) => ToolResultDecisionView::Stop(reason),
    }
}

/// What the hooks' action makes of a tool result.
pub fn tool_result_decision(action: ToolResultAction) -> (decision: ToolResultDecision)
    ensures
        decision.deep_view() == result_decision(action.deep_view()),
{
    match action {
        ToolResultAction::Keep => ToolResultDecision::Keep,
        ToolResultAction::Rewrite(output) => ToolResultDecision::Replace(output),
        ToolResultAction::Stop(reason) => ToolResultDecision::Stop(reason),
    }
}

/// How a tool call came to its result.
#[derive(Debug, PartialEq, Eq)]
pub enum ToolExecution {
    /// It ran; this is the call as it ran.
    Executed(Box<ToolCall>),
    /// It did not run.
    Skipped,
}

pub enum ToolExecutionView {
    Executed(ToolCallView),
    Skipped,
}

impl DeepView for ToolExecution {
    type V = ToolExecutionView;

    open spec fn deep_view(&self) -> ToolExecutionView {
        match self {
            ToolExecution::Executed(call) => ToolExecutionView::Executed(call.deep_view()),
            ToolExecution::Skipped => ToolExecutionView::Skipped,
        }
    }
}

/// What is to be done with a tool call once the hooks have been asked.
#[derive(Debug, PartialEq, Eq)]
pub enum ToolPlan {
    /// The tool is to be run with these arguments; this is the call as it runs.
    Execute { call: ToolCall, args: String },
    /// The tool is not to be run; this is the result, and these are the arguments
    /// that hooks are shown with it.
    Skip { result: ExecutionResult, args: String },
}

pub enum ToolPlanView {
    Execute { call: ToolCallView, args: Seq<char> },
    Skip { result: ExecutionResultView, args: Seq<char> },
}

impl DeepView for ToolPlan {
    type V = ToolPlanView;

    open spec fn deep_view(&self) -> ToolPlanView {
        match self {
            ToolPlan::Execute { call, args } => ToolPlanView::Execute {
                call: call.deep_view(),
                args: args@,
            },
            ToolPlan::Skip { result, args } => ToolPlanView::Skip {
                result: result.deep_view(),
                args: args@,
            },
        }
    }
}

/// The call with other arguments.
pub open spec fn with_arguments(call: ToolCallView, arguments: Seq<char>) -> ToolCallView {
    ToolCallView { function: ToolFunctionView { arguments, ..call.function }, ..call }
}

/// What is to be done with a tool call, given what the hooks have decided. A rewrite
/// shows in the call as it runs; a rewrite in front of a skip shows in the arguments
/// that go with the skip.
pub open spec fn plan(call: ToolCallView, resolved: CallAnswerView) -> ToolPlanView {
    let shown = match resolved.1 {
        Some(args) => args,
        None => call.function.arguments,
    };
    match resolved.0 {
        ToolCallActionView::Run => ToolPlanView::Execute { call, args: shown },
        ToolCallActionView::Rewrite(args) => ToolPlanView::Execute {
            call: with_arguments(call, args),
            args,
        },
        ToolCallActionView::Skip(reason) => ToolPlanView::Skip {
            result: skipped_result(reason),
            args: shown,
        },
    }
}

/// Plans a tool call, given what the hooks have decided.
pub fn plan_tool_call(tool_call: &ToolCall, resolved: CallAnswer) -> (planned: ToolPlan)
    ensures
        planned.deep_view() == plan(tool_call.deep_view(), resolved.deep_view()),
{
    let (action, salvaged) = resolved;
    let shown = match &salvaged {
        Some(args) => args.as_text().to_owned(),
        None => tool_call.function.arguments.as_text().to_owned(),
    };
    match tool_call_decision(action) {
        ToolCallDecision::Proceed => ToolPlan::Execute { call: tool_call.clone(), args: shown },
        ToolCallDecision::ProceedWith(replacement) => {
            let args = replacement.as_text().to_owned();
            let mut call = tool_call.clone();
            call.function.arguments = replacement;
            ToolPlan::Execute { call, args }
        },
        ToolCallDecision::Skip(reason) => ToolPlan::Skip {
            result: ExecutionResult::skipped(reason),
            args: shown,
        },
    }
}

/// What comes of a tool call.
#[derive(Debug, PartialEq, Eq)]
pub struct ToolCallOutcome {
    /// What the model is told.
    pub content: UserContent,
    pub execution: ToolExecution,
    /// Why the run is not to go on behind the tools of this turn, if it is not.
    pub stop_reason: Option<String>,
}

pub struct ToolCallOutcomeView {
    pub content: UserContentView,
    pub execution: ToolExecutionView,
    pub stop_reason: Option<Seq<char>>,
}

impl DeepView for ToolCallOutcome {
    type V = ToolCallOutcomeView;

    open spec fn deep_view(&self) -> ToolCallOutcomeView {
        ToolCallOutcomeView {
            content: self.content.deep_view(),
            execution: self.execution.deep_view(),
            stop_reason: self.stop_reason.deep_view(),
        }
    }
}

/// The tool result that the model gets. What it shows may have been replaced; how
/// the call ended is what it is.
pub open spec fn told_result(
    call: ToolCallView,
    shown: Seq<ToolResultContentView>,
    result: ExecutionResultView,
) -> UserContentView {
    UserContentView::ToolResult(
        ToolResultView {
            id: call.id,
            call_id: call.call_id,
            content: shown,
            status: Some(result.status.told()),
        },
    )
}

/// What comes of a tool call, given its result and what the hooks decided on it.
pub open spec fn tool_outcome(
    call: ToolCallView,
    result: ExecutionResultView,
    execution: ToolExecutionView,
    action: ToolResultActionView,
) -> ToolCallOutcomeView {
    ToolCallOutcomeView {
        content: told_result(
            call,
            match action {
                ToolResultActionView::Rewrite(output) => output,
                _ => result.output,
            },
            result,
        ),
        execution,
        stop_reason: match action {
            ToolResultActionView::Stop(reason) => Some(reason),
            _ => None,
        },
    }
}

/// Marks a tool result with how the call ended. Other content stays as it is.
pub fn with_execution_status(content: UserContent, result: &ExecutionResult) -> (marked: UserContent)
    ensures
        marked.deep_view() == (match content.deep_view() {
            UserContentView::ToolResult(told) => UserContentView::ToolResult(
                ToolResultView { status: Some(result.deep_view().status.told()), ..told },
            ),
            other => other,
        }),
{
    match content {
        UserContent::ToolResult(mut tool_result) => {
            tool_result.status = Some(result.execution_status());
            UserContent::ToolResult(tool_result)
        },
        other => other,
    }
}

/// Settles a tool call, given its result and what the hooks decided on it.
pub fn settle_tool_call(
    tool_call: &ToolCall,
    result: &ExecutionResult,
    execution: ToolExecution,
    action: ToolResultAction,
) -> (outcome: ToolCallOutcome)
    ensures
        outcome.deep_view() == tool_outcome(
            tool_call.deep_view(),
            result.deep_view(),
            execution.deep_view(),
            action.deep_view(),
        ),
        outcome.content.deep_view() matches UserContentView::ToolResult(told) && told.id
            == tool_call.deep_view().id && told.call_id == tool_call.deep_view().call_id && (
        action.deep_view() is Keep || action.deep_view() is Stop ==> told.content
            == result.deep_view().output),
{
    let (shown, stop_reason) = match tool_result_decision(action) {
        ToolResultDecision::Stop(reason) => (result.output.clone(), Some(reason)),
        ToolResultDecision::Replace(replacement) => (replacement, None),
        ToolResultDecision::Keep => (result.output.clone(), None),
    };
    let content = tool_result_output(tool_call.id.clone(), tool_call.call_id.clone(), shown);
    ToolCallOutcome { content: with_execution_status(content, result), execution, stop_reason }
}

/// A rewrite of what the model sees does not change how the call ended, nor which
/// call it answers.
pub proof fn law_rewrites_keep_the_status(
    call: ToolCallView,
    result: ExecutionResultView,
    execution: ToolExecutionView,
    output: Seq<ToolResultContentView>,
)
    ensures
        ({
            let kept = tool_outcome(call, result, execution, ToolResultActionView::Keep).content;
            let rewritten = tool_outcome(
                call,
                result,
                execution,
                ToolResultActionView::Rewrite(output),
            ).content;
            &&& kept is ToolResult && rewritten is ToolResult
            &&& kept->ToolResult_0.status == rewritten->ToolResult_0.status
            &&& kept->ToolResult_0.id == rewritten->ToolResult_0.id
            &&& rewritten->ToolResult_0.content == output
        }),
{
}

/// A stop does not take the result away: the model is told what it would have been
/// told without the stop.
pub proof fn law_stop_keeps_the_result(
    call: ToolCallView,
    result: ExecutionResultView,
    execution: ToolExecutionView,
    reason: Seq<char>,
)
    ensures
        tool_outcome(call, result, execution, ToolResultActionView::Stop(reason)).content
            == tool_outcome(call, result, execution, ToolResultActionView::Keep).content,
{
}

/// The model gets the result of its call: under the ids of the call, with what the tool gave,
/// part by part, unless a hook put something in its place, and with how the call ended. How
/// the call came to its result goes through as it is, and only a stop stops.
pub proof fn law_model_is_told_the_result(
    call: ToolCallView,
    result: ExecutionResultView,
    execution: ToolExecutionView,
    action: ToolResultActionView,
)
    ensures
        ({
            let outcome = tool_outcome(call, result, execution, action);
            &&& outcome.execution == execution
            &&& outcome.content matches UserContentView::ToolResult(told)
            &&& told.id == call.id
            &&& told.call_id == call.call_id
            &&& action is Keep || action is Stop ==> told.content == result.output
            &&& action matches ToolResultActionView::Rewrite(output) ==> told.content == output
            &&& match result.status {
                ExecutionStatusView::Success => told.status == Some(ToolResultStatusView::Success),
                ExecutionStatusView::Failed { code } => told.status == Some(
                    ToolResultStatusView::Failed { code },
                ),
                ExecutionStatusView::Skipped => told.status == Some(
                    ToolResultStatusView::Failed { code: None },
                ),
            }
            &&& match action {
                ToolResultActionView::Stop(reason) => outcome.stop_reason == Some(reason),
                _ => outcome.stop_reason is None,
            }
        }),
{
}

/// A call that the hooks let through runs as the model made it. One that they rewrite runs
/// with the new arguments, and is otherwise the same call. One that they skip does not run:
/// its result is the reason, word for word, and it did not succeed. Hooks are then shown the
/// arguments that were last in force.
pub proof fn law_calls_run_as_the_hooks_say(
    call: ToolCallView,
    args: Seq<char>,
    reason: Seq<char>,
    salvaged: Option<Seq<char>>,
)
    ensures
        plan(call, (ToolCallActionView::Run, None)) == (ToolPlanView::Execute {
            call,
            args: call.function.arguments,
        }),
        plan(call, (ToolCallActionView::Run, salvaged)) matches ToolPlanView::Execute {
            call: run,
            ..
        } && run == call,
        plan(call, (ToolCallActionView::Rewrite(args), salvaged)) matches ToolPlanView::Execute {
            call: run,
            args: with,
        } && with == args && run.function.arguments == args && run.function.name
            == call.function.name && run.id == call.id && run.call_id == call.call_id
            && run.signature == call.signature && run.additional_params == call.additional_params,
        plan(call, (ToolCallActionView::Skip(reason), salvaged)) matches ToolPlanView::Skip {
            result,
            args: shown,
        } && result.status is Skipped && result.output == seq![
            ToolResultContentView::Text(TextView { text: reason, additional_params: None }),
        ] && shown == (match salvaged {
            Some(rewritten) => rewritten,
            None => call.function.arguments,
        }),
{
}

/// What the hooks decide is done: there is one decision for each action, and none is mixed
/// up with another.
pub proof fn law_actions_are_carried_out(
    args: Seq<char>,
    reason: Seq<char>,
    output: Seq<ToolResultContentView>,
)
    ensures
        call_decision(ToolCallActionView::Run) == ToolCallDecisionView::Proceed,
        call_decision(ToolCallActionView::Rewrite(args)) == ToolCallDecisionView::ProceedWith(args),
        call_decision(ToolCallActionView::Skip(reason)) == ToolCallDecisionView::Skip(reason),
        result_decision(ToolResultActionView::Keep) == ToolResultDecisionView::Keep,
        result_decision(ToolResultActionView::Rewrite(output)) == ToolResultDecisionView::Replace(
            output,
        ),
        result_decision(ToolResultActionView::Stop(reason)) == ToolResultDecisionView::Stop(reason),
{
}

} // verus!
