//! Completed model turns and the admission of their tool calls.

use vstd::prelude::*;
use crate::completion::{copy_pairs, FinishReason, FinishReasonView};
use crate::deep::{deep, group_deep};
use crate::message::{
    calls_in, tool_calls, AssistantContent, AssistantContentView, MessageView, ToolCall,
    ToolCallView, UserContent, UserContentView,
};
use crate::names::ToolNames;
use crate::one_or_many::OneOrMany;
use crate::prompt_response::{failure_result, tool_result_message, CompletionCall, CompletionCallView};
use crate::strings::{join, joined};
use crate::usage::{addable, sum_usage, zero_usage, Usage};

verus! {

broadcast use group_deep;

/// A completed model turn.
#[derive(Debug, PartialEq, Eq)]
#[non_exhaustive]
pub struct ModelTurn {
    /// The provider's id for the message, when it has one.
    pub message_id: Option<String>,
    /// What the model said.
    pub choice: OneOrMany<AssistantContent>,
    /// What the provider reported for the call.
    pub usage: Usage,
    /// Why the provider stopped, where it said.
    pub finish_reason: Option<FinishReason>,
    /// The tools that were offered to the model.
    pub executable_tool_names: ToolNames,
    /// The tools among them that the model was free to call.
    pub allowed_tool_names: ToolNames,
    /// For each streamed tool call its id, and the id under which its stream
    /// items went out.
    pub internal_call_ids: Vec<(String, String)>,
}

pub struct ModelTurnView {
    pub message_id: Option<Seq<char>>,
    pub choice: Seq<AssistantContentView>,
    pub usage: Usage,
    pub finish_reason: Option<FinishReasonView>,
    pub executable_tool_names: Seq<Seq<char>>,
    pub allowed_tool_names: Seq<Seq<char>>,
    pub internal_call_ids: Seq<(Seq<char>, Seq<char>)>,
}

impl DeepView for ModelTurn {
    type V = ModelTurnView;

    open spec fn deep_view(&self) -> ModelTurnView {
        ModelTurnView {
            message_id: self.message_id.deep_view(),
            choice: self.choice.deep_view(),
            usage: self.usage,
            finish_reason: self.finish_reason.deep_view(),
            executable_tool_names: self.executable_tool_names.deep_view(),
            allowed_tool_names: self.allowed_tool_names.deep_view(),
            internal_call_ids: deep(self.internal_call_ids@),
        }
    }
}

impl Clone for ModelTurn {
    fn clone(&self) -> (copy: Self)
        ensures
            copy.deep_view() == self.deep_view(),
    {
        let copy = ModelTurn {
            message_id: self.message_id.clone(),
            choice: self.choice.clone(),
            usage: self.usage,
            finish_reason: self.finish_reason.clone(),
            executable_tool_names: self.executable_tool_names.clone(),
            allowed_tool_names: self.allowed_tool_names.clone(),
            internal_call_ids: copy_pairs(&self.internal_call_ids),
        };
        assert(copy.choice.deep_view() =~= self.choice.deep_view());
        copy
    }
}

impl ModelTurnView {
    /// Whether there is a tool call in the turn.
    pub open spec fn carries_tools(self) -> bool {
        exists|i: int| 0 <= i < self.choice.len() && (#[trigger] self.choice[i]) is ToolCall
    }

    /// The message under which the turn goes into the history.
    pub open spec fn message(self) -> MessageView {
        MessageView::Assistant { id: self.message_id, content: self.choice }
    }
}

/// A turn has a tool call exactly where its list of tool calls is not empty.
pub proof fn lemma_calls_in_is_empty(content: Seq<AssistantContentView>)
    ensures
        calls_in(content).len() > 0 <==> exists|i: int|
            0 <= i < content.len() && (#[trigger] content[i]) is ToolCall,
    decreases content.len(),
{
    if content.len() > 0 {
        let earlier = content.drop_last();
        lemma_calls_in_is_empty(earlier);
        if exists|i: int| 0 <= i < content.len() && (#[trigger] content[i]) is ToolCall {
            let i = choose|i: int| 0 <= i < content.len() && (#[trigger] content[i]) is ToolCall;
            if i < earlier.len() {
                assert(earlier[i] is ToolCall);
            }
        }
        if calls_in(content).len() > 0 {
            if content.last() is ToolCall {
                assert(content[content.len() - 1] is ToolCall);
            } else {
                let i = choose|i: int| 0 <= i < earlier.len() && (#[trigger] earlier[i]) is ToolCall;
                assert(content[i] is ToolCall);
            }
        }
    }
}

impl ModelTurn {
    /// A turn whose tool calls were not streamed.
    pub fn new(
        message_id: Option<String>,
        choice: OneOrMany<AssistantContent>,
        usage: Usage,
        finish_reason: Option<FinishReason>,
        executable_tool_names: ToolNames,
        allowed_tool_names: ToolNames,
    ) -> (turn: Self)
        ensures
            turn.deep_view() == (ModelTurnView {
                message_id: message_id.deep_view(),
                choice: choice.deep_view(),
                usage,
                finish_reason: finish_reason.deep_view(),
                executable_tool_names: executable_tool_names.deep_view(),
                allowed_tool_names: allowed_tool_names.deep_view(),
                internal_call_ids: Seq::empty(),
            }),
    {
        ModelTurn {
            message_id,
            choice,
            usage,
            finish_reason,
            executable_tool_names,
            allowed_tool_names,
            internal_call_ids: Vec::new(),
        }
    }

    /// Whether there is a tool call in the turn.
    pub fn carries_tools(&self) -> (carries: bool)
        ensures
            carries == self.deep_view().carries_tools(),
    {
        proof {
            lemma_calls_in_is_empty(self.choice.deep_view());
        }
        tool_calls(&self.choice).len() > 0
    }
}

/// A tool call that awaits execution.
#[derive(Debug, PartialEq, Eq)]
#[non_exhaustive]
pub struct PendingToolCall {
    /// The call that the model emitted.
    pub tool_call: ToolCall,
    /// The result of a call that was not admitted: it stands as it is, and the
    /// tool does not run.
    pub preresolved_result: Option<UserContent>,
    /// The id under which the call's stream items went out.
    pub internal_call_id: Option<String>,
}

pub struct PendingToolCallView {
    pub tool_call: ToolCallView,
    pub preresolved_result: Option<UserContentView>,
    pub internal_call_id: Option<Seq<char>>,
}

impl DeepView for PendingToolCall {
    type V = PendingToolCallView;

    open spec fn deep_view(&self) -> PendingToolCallView {
        PendingToolCallView {
            tool_call: self.tool_call.deep_view(),
            preresolved_result: self.preresolved_result.deep_view(),
            internal_call_id: self.internal_call_id.deep_view(),
        }
    }
}

/// The second half of the first pair whose first half is `id`.
pub open spec fn first_paired_with(
    pairs: Seq<(Seq<char>, Seq<char>)>,
    id: Seq<char>,
) -> Option<Seq<char>>
    decreases pairs.len(),
{
    if pairs.len() == 0 {
        None
    } else if pairs[0].0 == id {
        Some(pairs[0].1)
    } else {
        first_paired_with(pairs.skip(1), id)
    }
}

/// What the model is told of a call of a tool that it was not to call.
pub open spec fn rejection(name: Seq<char>, available: Seq<Seq<char>>) -> Seq<char> {
    "unknown or disallowed tool `"@ + name
        + "`: it was not offered to the model. Available tools: "@ + joined(available, ", "@)
        + ". Call one of the available tools instead."@
}

/// The result that stands for a call in place of running it, if any: a call of a
/// tool outside the allowed ones is answered with the tools that exist.
pub open spec fn preresolved(
    call: ToolCallView,
    executable: Seq<Seq<char>>,
    allowed: Seq<Seq<char>>,
) -> Option<UserContentView> {
    if allowed.contains(call.function.name) {
        None
    } else {
        Some(
            UserContentView::ToolResult(
                failure_result(call.id, call.call_id, rejection(call.function.name, executable)),
            ),
        )
    }
}

/// A tool call of the turn, admitted or answered.
pub open spec fn admitted(turn: ModelTurnView, call: ToolCallView) -> PendingToolCallView {
    PendingToolCallView {
        tool_call: call,
        preresolved_result: preresolved(
            call,
            turn.executable_tool_names,
            turn.allowed_tool_names,
        ),
        internal_call_id: first_paired_with(turn.internal_call_ids, call.id),
    }
}

/// The tool calls of the turn, each admitted or answered.
pub open spec fn admission(turn: ModelTurnView) -> Seq<PendingToolCallView> {
    calls_in(turn.choice).map_values(|call: ToolCallView| admitted(turn, call))
}

/// What the model is told of a call that is not admitted; `None` where it is.
fn tool_rejected(
    tool_call: &ToolCall,
    executable_tool_names: &ToolNames,
    allowed_tool_names: &ToolNames,
) -> (told: Option<String>)
    ensures
        told.deep_view() == (if allowed_tool_names.deep_view().contains(tool_call.function.name@) {
            None
        } else {
            Some(rejection(tool_call.function.name@, executable_tool_names.deep_view()))
        }),
{
    if allowed_tool_names.contains(&tool_call.function.name) {
        return None;
    }
    let mut told = "unknown or disallowed tool `".to_owned();
    told.append(tool_call.function.name.as_str());
    told.append("`: it was not offered to the model. Available tools: ");
    told.append(join(executable_tool_names.names(), ", ").as_str());
    told.append(". Call one of the available tools instead.");
    Some(told)
}

/// The id under which the stream items of the call `id` went out.
fn internal_id(pairs: &Vec<(String, String)>, id: &String) -> (internal: Option<String>)
    ensures
        internal.deep_view() == first_paired_with(deep(pairs@), id@),
{
    let ghost all = deep(pairs@);
    let mut i: usize = 0;
    assert(all.skip(0) =~= all);
    while i < pairs.len()
        invariant
            i <= pairs@.len(),
            all == deep(pairs@),
            first_paired_with(all, id@) == first_paired_with(all.skip(i as int), id@),
        decreases pairs@.len() - i,
    {
        assert(all.skip(i as int)[0] == pairs@[i as int].deep_view());
        assert(all.skip(i as int).skip(1) =~= all.skip(i + 1));
        if pairs[i].0 == *id {
            return Some(pairs[i].1.clone());
        }
        i = i + 1;
    }
    None
}

/// The admission of a turn's tool calls. A call of a tool that the model was not
/// to call never runs: the model is told so in the call's result.
pub fn admit_tool_calls(turn: &ModelTurn) -> (calls: Vec<PendingToolCall>)
    ensures
        deep(calls@) == admission(turn.deep_view()),
        forall|i: int|
            0 <= i < calls@.len() ==> ((#[trigger] calls@[i]).deep_view().preresolved_result is None
                <==> turn.deep_view().allowed_tool_names.contains(
                calls@[i].deep_view().tool_call.function.name,
            )),
{
    let emitted = tool_calls(&turn.choice);
    let mut calls: Vec<PendingToolCall> = Vec::new();
    let mut i: usize = 0;
    while i < emitted.len()
        invariant
            i <= emitted@.len(),
            calls@.len() == i,
            forall|k: int|
                0 <= k < i ==> (#[trigger] calls@[k]).deep_view() == admitted(
                    turn.deep_view(),
                    emitted@[k].deep_view(),
                ),
        decreases emitted@.len() - i,
    {
        let tool_call = emitted[i];
        let internal_call_id = internal_id(&turn.internal_call_ids, &tool_call.id);
        let preresolved_result = match tool_rejected(
            tool_call,
            &turn.executable_tool_names,
            &turn.allowed_tool_names,
        ) {
            Some(text) => Some(
                tool_result_message(tool_call.id.clone(), tool_call.call_id.clone(), text),
            ),
            None => None,
        };
        calls.push(
            PendingToolCall { tool_call: tool_call.clone(), preresolved_result, internal_call_id },
        );
        i = i + 1;
    }
    assert(deep(calls@) =~= admission(turn.deep_view()));
    calls
}

/// The provider calls of a run and what they used in all.
#[derive(Debug)]
pub struct RunLedger {
    calls: Vec<CompletionCall>,
    usage: Usage,
}

pub struct RunLedgerView {
    pub calls: Seq<CompletionCallView>,
    pub usage: Usage,
}

impl DeepView for RunLedger {
    type V = RunLedgerView;

    closed spec fn deep_view(&self) -> RunLedgerView {
        RunLedgerView { calls: deep(self.calls@), usage: self.usage }
    }
}

/// What the calls used in all.
pub open spec fn total_usage(calls: Seq<CompletionCallView>) -> Usage
    decreases calls.len(),
{
    if calls.len() == 0 {
        zero_usage()
    } else {
        sum_usage(total_usage(calls.drop_last()), calls.last().usage)
    }
}

impl RunLedgerView {
    /// The ledger of no calls.
    pub open spec fn empty() -> Self {
        RunLedgerView { calls: Seq::empty(), usage: zero_usage() }
    }

    /// The entry that the next call gets.
    pub open spec fn next_entry(
        self,
        usage: Usage,
        finish_reason: Option<FinishReasonView>,
    ) -> CompletionCallView {
        CompletionCallView { call_index: self.calls.len(), usage, finish_reason }
    }

    /// The ledger with one more call.
    pub open spec fn recording(
        self,
        usage: Usage,
        finish_reason: Option<FinishReasonView>,
    ) -> Self {
        RunLedgerView {
            calls: self.calls.push(self.next_entry(usage, finish_reason)),
            usage: sum_usage(self.usage, usage),
        }
    }

    /// The calls are numbered in order, and the usage is the sum of theirs.
    pub open spec fn balanced(self) -> bool {
        &&& forall|i: int|
            0 <= i < self.calls.len() ==> (#[trigger] self.calls[i]).call_index == i
        &&& self.usage == total_usage(self.calls)
    }
}

/// A ledger balances from the first call on: the calls are numbered in order from
/// zero, and the usage is the sum of theirs.
pub proof fn law_ledger_stays_balanced(
    ledger: RunLedgerView,
    usage: Usage,
    finish_reason: Option<FinishReasonView>,
)
    requires
        ledger.balanced(),
    ensures
        RunLedgerView::empty().balanced(),
        ledger.recording(usage, finish_reason).balanced(),
{
    let after = ledger.recording(usage, finish_reason);
    assert(after.calls.drop_last() =~= ledger.calls);
}

impl RunLedger {
    /// The ledger of no calls.
    pub fn new() -> (ledger: Self)
        ensures
            ledger.deep_view() == RunLedgerView::empty(),
    {
        RunLedger { calls: Vec::new(), usage: Usage::new() }
    }

    /// Enters a provider call under the next number.
    pub fn record(
        &mut self,
        usage: Usage,
        finish_reason: Option<FinishReason>,
    ) -> (call: CompletionCall)
        requires
            addable(old(self).deep_view().usage, usage),
        ensures
            final(self).deep_view() == old(self).deep_view().recording(
                usage,
                finish_reason.deep_view(),
            ),
            call.deep_view() == old(self).deep_view().next_entry(usage, finish_reason.deep_view()),
    {
        let call = CompletionCall::new(self.calls.len(), usage, finish_reason);
        self.calls.push(call.clone());
        self.usage.accumulate(usage);
        call
    }

    /// The provider calls.
    pub fn calls(&self) -> (calls: &Vec<CompletionCall>)
        ensures
            deep(calls@) == self.deep_view().calls,
    {
        &self.calls
    }

    /// What the calls used in all.
    pub fn usage(&self) -> (usage: Usage)
        ensures
            usage == self.deep_view().usage,
    {
        self.usage
    }
}

} // verus!
