//! The tool calls of a turn as one batch: they start together, and they settle
//! together.

use vstd::prelude::*;
use crate::completion::{CompletionError, CompletionErrorView, PromptError, PromptErrorView};
use crate::deep::{deep, group_deep};
use crate::message::{ToolCall, ToolCallView, ToolResult, UserContent, UserContentView};
use crate::stream_item::{
    MultiTurnStreamItem, MultiTurnStreamItemView, StreamingError, StreamingErrorView,
};
use crate::streaming::{
    StreamedAssistantContent, StreamedAssistantContentView, StreamedUserContent,
    StreamedUserContentView,
};
use crate::tool_run::{ToolCallOutcome, ToolCallOutcomeView, ToolExecution, ToolExecutionView};
use crate::turn::{PendingToolCall, PendingToolCallView};

verus! {

broadcast use group_deep;

/// A tool call that is ready to run, or to be answered without running.
#[derive(Debug, PartialEq, Eq)]
pub struct PreparedToolCall {
    pub tool_call: ToolCall,
    /// The result that stands in place of running the tool.
    pub preresolved_result: Option<UserContent>,
    /// The id under which the call's stream items go out.
    pub internal_call_id: String,
}

pub struct PreparedToolCallView {
    pub tool_call: ToolCallView,
    pub preresolved_result: Option<UserContentView>,
    pub internal_call_id: Seq<char>,
}

impl DeepView for PreparedToolCall {
    type V = PreparedToolCallView;

    open spec fn deep_view(&self) -> PreparedToolCallView {
        PreparedToolCallView {
            tool_call: self.tool_call.deep_view(),
            preresolved_result: self.preresolved_result.deep_view(),
            internal_call_id: self.internal_call_id@,
        }
    }
}

/// A tool call made ready: it keeps the id under which its stream items went out,
/// or gets a fresh one.
pub open spec fn prepared(call: PendingToolCallView, fresh_id: Seq<char>) -> PreparedToolCallView {
    PreparedToolCallView {
        tool_call: call.tool_call,
        preresolved_result: call.preresolved_result,
        internal_call_id: match call.internal_call_id {
            Some(id) => id,
            None => fresh_id,
        },
    }
}

/// The items that announce the calls that are going to run, in order.
pub open spec fn call_items(calls: Seq<PreparedToolCallView>) -> Seq<MultiTurnStreamItemView>
    decreases calls.len(),
{
    if calls.len() == 0 {
        Seq::empty()
    } else {
        let before = call_items(calls.drop_last());
        let call = calls.last();
        if call.preresolved_result is Some {
            before
        } else {
            before.push(
                MultiTurnStreamItemView::StreamAssistantItem(
                    StreamedAssistantContentView::ToolCall {
                        tool_call: call.tool_call,
                        internal_call_id: call.internal_call_id,
                    },
                ),
            )
        }
    }
}

/// Makes the calls of a turn ready, with a fresh id at hand for each, and announces
/// those that are going to run.
pub fn prepare_tool_calls(
    calls: Vec<PendingToolCall>,
    fresh_ids: Vec<String>,
    forward_items: bool,
) -> (result: (Vec<PreparedToolCall>, Vec<MultiTurnStreamItem>))
    requires
        fresh_ids@.len() == calls@.len(),
    ensures
        result.0@.len() == calls@.len(),
        forall|i: int|
            0 <= i < calls@.len() ==> (#[trigger] result.0@[i]).deep_view() == prepared(
                calls@[i].deep_view(),
                fresh_ids@[i]@,
            ),
        deep(result.1@) == (if forward_items {
            call_items(deep(result.0@))
        } else {
            Seq::empty()
        }),
{
    let ghost all = calls@;
    let mut rest = calls;
    let mut ready: Vec<PreparedToolCall> = Vec::new();
    let mut items: Vec<MultiTurnStreamItem> = Vec::new();
    while rest.len() > 0
        invariant
            fresh_ids@.len() == all.len(),
            ready@.len() + rest@.len() == all.len(),
            rest@ == all.skip(ready@.len() as int),
            forall|i: int|
                0 <= i < ready@.len() ==> (#[trigger] ready@[i]).deep_view() == prepared(
                    all[i].deep_view(),
                    fresh_ids@[i]@,
                ),
            deep(items@) == (if forward_items {
                call_items(deep(ready@))
            } else {
                Seq::empty()
            }),
        decreases rest@.len(),
    {
        let ghost before = deep(ready@);
        let call = rest.remove(0);
        let internal_call_id = match call.internal_call_id {
            Some(id) => id,
            None => fresh_ids[ready.len()].clone(),
        };
        if forward_items && call.preresolved_result.is_none() {
            items.push(
                MultiTurnStreamItem::stream_item(
                    StreamedAssistantContent::ToolCall {
                        tool_call: call.tool_call.clone(),
                        internal_call_id: internal_call_id.clone(),
                    },
                ),
            );
        }
        ready.push(
            PreparedToolCall {
                tool_call: call.tool_call,
                preresolved_result: call.preresolved_result,
                internal_call_id,
            },
        );
        assert(rest@ =~= all.skip(ready@.len() as int));
        assert(deep(ready@).drop_last() =~= before);
    }
    (ready, items)
}

/// How the outcome of a tool call shows in the run's stream.
#[derive(Debug, PartialEq, Eq)]
pub enum ToolSurface {
    /// The call ran: it shows as it ran, and so does its result.
    Executed(Box<ToolCall>),
    /// The call was skipped: its result shows.
    Skipped,
    /// The call was answered in the model's turn already: nothing shows.
    Preresolved,
}

pub enum ToolSurfaceView {
    Executed(ToolCallView),
    Skipped,
    Preresolved,
}

impl DeepView for ToolSurface {
    type V = ToolSurfaceView;

    open spec fn deep_view(&self) -> ToolSurfaceView {
        match self {
            ToolSurface::Executed(call) => ToolSurfaceView::Executed(call.deep_view()),
            ToolSurface::Skipped => ToolSurfaceView::Skipped,
            ToolSurface::Preresolved => ToolSurfaceView::Preresolved,
        }
    }
}

/// The outcome of a tool call, held back until the whole batch settles.
#[derive(Debug, PartialEq, Eq)]
pub struct CollectedToolResult {
    pub content: UserContent,
    pub internal_call_id: String,
    pub surface: ToolSurface,
}

pub struct CollectedToolResultView {
    pub content: UserContentView,
    pub internal_call_id: Seq<char>,
    pub surface: ToolSurfaceView,
}

impl DeepView for CollectedToolResult {
    type V = CollectedToolResultView;

    open spec fn deep_view(&self) -> CollectedToolResultView {
        CollectedToolResultView {
            content: self.content.deep_view(),
            internal_call_id: self.internal_call_id@,
            surface: self.surface.deep_view(),
        }
    }
}

/// The outcome of a call that ran or was skipped.
pub open spec fn collected(outcome: ToolCallOutcomeView, internal_call_id: Seq<char>) -> CollectedToolResultView {
    CollectedToolResultView {
        content: outcome.content,
        internal_call_id,
        surface: match outcome.execution {
            ToolExecutionView::Executed(call) => ToolSurfaceView::Executed(call),
            ToolExecutionView::Skipped => ToolSurfaceView::Skipped,
        },
    }
}

/// The tool calls of a turn while they run.
#[derive(Debug)]
pub struct ToolBatch {
    slots: Vec<Option<CollectedToolResult>>,
    stop: Option<(usize, String)>,
}

pub struct ToolBatchView {
    /// For each call its outcome, once it is there.
    pub slots: Seq<Option<CollectedToolResultView>>,
    /// Why the run is not to go on, and the place of the call whose result said so.
    pub stop: Option<(usize, Seq<char>)>,
}

impl DeepView for ToolBatch {
    type V = ToolBatchView;

    closed spec fn deep_view(&self) -> ToolBatchView {
        ToolBatchView { slots: deep(self.slots@), stop: self.stop.deep_view() }
    }
}

/// The items with which the outcome of a call shows in the run's stream.
pub open spec fn surface_items(result: CollectedToolResultView) -> Seq<MultiTurnStreamItemView> {
    let executed = match result.surface {
        ToolSurfaceView::Executed(tool_call) => seq![
            MultiTurnStreamItemView::ToolExecutionCommitted {
                tool_call,
                internal_call_id: result.internal_call_id,
            },
        ],
        _ => Seq::empty(),
    };
    match (result.surface, result.content) {
        (ToolSurfaceView::Preresolved, _) => Seq::empty(),
        (_, UserContentView::ToolResult(tool_result)) => executed.push(
            MultiTurnStreamItemView::StreamUserItem(
                StreamedUserContentView::ToolResult {
                    tool_result,
                    internal_call_id: result.internal_call_id,
                },
            ),
        ),
        _ => executed,
    }
}

/// The items with which the outcomes show in the run's stream, in call order.
pub open spec fn all_surface_items(results: Seq<CollectedToolResultView>) -> Seq<
    MultiTurnStreamItemView,
>
    decreases results.len(),
{
    if results.len() == 0 {
        Seq::empty()
    } else {
        all_surface_items(results.drop_last()) + surface_items(results.last())
    }
}

/// The error of a batch in which an outcome is missing.
pub open spec fn missing_result() -> StreamingErrorView {
    StreamingErrorView::Prompt(
        PromptErrorView::CompletionError(
            CompletionErrorView::ResponseError(
                "tool execution finished without producing every result"@,
            ),
        ),
    )
}

impl ToolBatchView {
    /// A batch of so many calls, none of which has its outcome.
    pub open spec fn start(n: nat) -> Self {
        ToolBatchView { slots: Seq::new(n, |i: int| None), stop: None }
    }

    /// The batch once the call at `index` has its outcome. Of several reasons not to
    /// go on with the run, that of the first call counts.
    pub open spec fn recording(
        self,
        index: usize,
        result: CollectedToolResultView,
        stop: Option<Seq<char>>,
    ) -> Self {
        ToolBatchView {
            slots: if index < self.slots.len() {
                self.slots.update(index as int, Some(result))
            } else {
                self.slots
            },
            stop: match (stop, self.stop) {
                (Some(reason), None) => Some((index, reason)),
                (Some(reason), Some((first, earlier))) => if index < first {
                    Some((index, reason))
                } else {
                    Some((first, earlier))
                },
                (None, earlier) => earlier,
            },
        }
    }

    /// Whether every call has its outcome.
    pub open spec fn complete(self) -> bool {
        forall|i: int| 0 <= i < self.slots.len() ==> (#[trigger] self.slots[i]) is Some
    }

    /// The outcomes in call order.
    pub open spec fn results(self) -> Seq<CollectedToolResultView> {
        self.slots.map_values(|slot: Option<CollectedToolResultView>| slot->0)
    }

    /// What goes into the history, in call order.
    pub open spec fn committed(self) -> Seq<UserContentView> {
        self.results().map_values(|result: CollectedToolResultView| result.content)
    }

    /// What goes into the run's stream.
    pub open spec fn items(self, forward_items: bool) -> Seq<MultiTurnStreamItemView> {
        if forward_items {
            all_surface_items(self.results())
        } else {
            Seq::empty()
        }
    }
}

/// A batch that has settled.
#[derive(Debug)]
pub struct SettledBatch {
    /// What goes into the history, in call order.
    pub committed: Vec<UserContent>,
    /// What goes into the run's stream.
    pub items: Vec<MultiTurnStreamItem>,
    /// Why the run is not to go on, if it is not.
    pub stop_reason: Option<String>,
}

impl ToolBatch {
    /// A batch of so many calls, none of which has its outcome.
    pub fn new(call_count: usize) -> (batch: Self)
        ensures
            batch.deep_view() == ToolBatchView::start(call_count as nat),
    {
        let mut slots: Vec<Option<CollectedToolResult>> = Vec::new();
        let mut i: usize = 0;
        while i < call_count
            invariant
                i <= call_count,
                slots@.len() == i,
                forall|k: int| 0 <= k < i ==> (#[trigger] slots@[k]) is None,
            decreases call_count - i,
        {
            slots.push(None);
            i = i + 1;
        }
        assert(deep(slots@) =~= ToolBatchView::start(call_count as nat).slots);
        ToolBatch { slots, stop: None }
    }

    /// Takes the outcome of a call.
    fn record(&mut self, index: usize, result: CollectedToolResult, stop: Option<String>)
        ensures
            final(self).deep_view() == old(self).deep_view().recording(
                index,
                result.deep_view(),
                stop.deep_view(),
            ),
    {
        let ghost before = deep(self.slots@);
        if index < self.slots.len() {
            self.slots.set(index, Some(result));
        }
        assert(deep(self.slots@) =~= old(self).deep_view().recording(
            index,
            result.deep_view(),
            stop.deep_view(),
        ).slots);
        if let Some(reason) = stop {
            let is_first = match &self.stop {
                Some((first, _)) => index < *first,
                None => true,
            };
            if is_first {
                self.stop = Some((index, reason));
            }
        }
    }

    /// Takes the outcome of a call that ran or was skipped.
    pub fn record_outcome(
        &mut self,
        index: usize,
        internal_call_id: String,
        outcome: ToolCallOutcome,
    )
        ensures
            final(self).deep_view() == old(self).deep_view().recording(
                index,
                collected(outcome.deep_view(), internal_call_id@),
                outcome.deep_view().stop_reason,
            ),
    {
        let surface = match outcome.execution {
            ToolExecution::Executed(call) => ToolSurface::Executed(call),
            ToolExecution::Skipped => ToolSurface::Skipped,
        };
        self.record(
            index,
            CollectedToolResult { content: outcome.content, internal_call_id, surface },
            outcome.stop_reason,
        );
    }

    /// Takes the result that stands in place of running a call.
    pub fn record_preresolved(
        &mut self,
        index: usize,
        internal_call_id: String,
        content: UserContent,
    )
        ensures
            final(self).deep_view() == old(self).deep_view().recording(
                index,
                CollectedToolResultView {
                    content: content.deep_view(),
                    internal_call_id: internal_call_id@,
                    surface: ToolSurfaceView::Preresolved,
                },
                None,
            ),
    {
        self.record(
            index,
            CollectedToolResult { content, internal_call_id, surface: ToolSurface::Preresolved },
            None,
        );
    }

    /// Settles the batch: what goes into the history and into the run's stream, all
    /// in call order. Fails exactly where an outcome is missing.
    pub fn settle(self, forward_items: bool) -> (result: Result<SettledBatch, StreamingError>)
        ensures
            result is Ok <==> self.deep_view().complete(),
            match result {
                Ok(settled) => {
                    &&& deep(settled.committed@) == self.deep_view().committed()
                    &&& deep(settled.items@) == self.deep_view().items(forward_items)
                    &&& settled.stop_reason.deep_view() == (match self.deep_view().stop {
                        Some((_, reason)) => Some(reason),
                        None => None,
                    })
                },
                Err(error) => error.deep_view() == missing_result(),
            },
    {
        let ghost view = self.deep_view();
        let ghost n = self.slots@.len();
        let mut rest = self.slots;
        let mut committed: Vec<UserContent> = Vec::new();
        let mut items: Vec<MultiTurnStreamItem> = Vec::new();
        let ghost results = view.results();
        assert(results.take(0) =~= Seq::empty());
        while rest.len() > 0
            invariant
                n == view.slots.len(),
                view == self.deep_view(),
                results == view.results(),
                committed@.len() + rest@.len() == n,
                deep(rest@) == view.slots.skip(committed@.len() as int),
                forall|i: int|
                    0 <= i < committed@.len() ==> (#[trigger] view.slots[i]) is Some
                        && committed@[i].deep_view() == results[i].content,
                deep(items@) == (if forward_items {
                    all_surface_items(results.take(committed@.len() as int))
                } else {
                    Seq::empty()
                }),
            decreases rest@.len(),
        {
            let ghost before = deep(rest@);
            let ghost k = committed@.len() as int;
            let ghost shown = deep(items@);
            let slot = rest.remove(0);
            assert(before[0] == slot.deep_view());
            assert(view.slots[k] == slot.deep_view());
            assert(deep(rest@) =~= before.skip(1));
            let collected = match slot {
                Some(collected) => collected,
                None => {
                    return Err(
                        StreamingError::Prompt(
                            Box::new(
                                PromptError::CompletionError(
                                    CompletionError::ResponseError(
                                        "tool execution finished without producing every result".to_owned(),
                                    ),
                                ),
                            ),
                        ),
                    );
                },
            };
            let ghost result = collected.deep_view();
            assert(results[k] == result);
            assert(results.take(k + 1).drop_last() =~= results.take(k));
            if forward_items {
                let shows_result = match collected.surface {
                    ToolSurface::Executed(tool_call) => {
                        items.push(
                            MultiTurnStreamItem::ToolExecutionCommitted {
                                tool_call: *tool_call,
                                internal_call_id: collected.internal_call_id.clone(),
                            },
                        );
                        true
                    },
                    ToolSurface::Skipped => true,
                    ToolSurface::Preresolved => false,
                };
                if shows_result {
                    if let UserContent::ToolResult(tool_result) = &collected.content {
                        items.push(
                            MultiTurnStreamItem::StreamUserItem(
                                StreamedUserContent::ToolResult {
                                    tool_result: tool_result.clone(),
                                    internal_call_id: collected.internal_call_id,
                                },
                            ),
                        );
                    }
                }
                assert(deep(items@) =~= shown + surface_items(result));
            }
            committed.push(collected.content);
            assert(deep(rest@) =~= view.slots.skip(committed@.len() as int));
        }
        assert(results.take(n as int) =~= results);
        assert(deep(committed@) =~= view.committed());
        let stop_reason = match self.stop {
            Some((_, reason)) => Some(reason),
            None => None,
        };
        Ok(SettledBatch { committed, items, stop_reason })
    }
}

/// The order in which the calls of a batch get their outcomes does not matter.
pub proof fn law_completion_order_does_not_matter(
    batch: ToolBatchView,
    i: usize,
    a: CollectedToolResultView,
    a_stop: Option<Seq<char>>,
    j: usize,
    b: CollectedToolResultView,
    b_stop: Option<Seq<char>>,
)
    requires
        i != j,
    ensures
        batch.recording(i, a, a_stop).recording(j, b, b_stop) == batch.recording(
            j,
            b,
            b_stop,
        ).recording(i, a, a_stop),
{
    let one = batch.recording(i, a, a_stop).recording(j, b, b_stop);
    let other = batch.recording(j, b, b_stop).recording(i, a, a_stop);
    assert(one.slots =~= other.slots);
}

/// The outcome of a call as it comes in: the place of the call, its outcome, and why
/// the run is not to go on, if it is not.
pub type BatchRecord = (usize, CollectedToolResultView, Option<Seq<char>>);

/// The batch once several calls have their outcomes.
pub open spec fn after_records(batch: ToolBatchView, records: Seq<BatchRecord>) -> ToolBatchView
    decreases records.len(),
{
    if records.len() == 0 {
        batch
    } else {
        let last = records.last();
        after_records(batch, records.drop_last()).recording(last.0, last.1, last.2)
    }
}

/// The reason not to go on that counts is that of the first call in call order that
/// has one, whatever order the calls end in.
pub proof fn law_first_stop_counts(n: nat, records: Seq<BatchRecord>)
    ensures
        match after_records(ToolBatchView::start(n), records).stop {
            None => forall|i: int| 0 <= i < records.len() ==> (#[trigger] records[i]).2 is None,
            Some((first, reason)) => {
                &&& exists|i: int|
                    0 <= i < records.len() && (#[trigger] records[i]).0 == first && records[i].2
                        == Some(reason)
                &&& forall|i: int|
                    0 <= i < records.len() && (#[trigger] records[i]).2 is Some ==> first
                        <= records[i].0
            },
        },
    decreases records.len(),
{
    if records.len() > 0 {
        let earlier = records.drop_last();
        let last = records.len() - 1;
        law_first_stop_counts(n, earlier);
        assert(forall|i: int| 0 <= i < earlier.len() ==> earlier[i] == records[i]);
        let before = after_records(ToolBatchView::start(n), earlier).stop;
        let after = after_records(ToolBatchView::start(n), records).stop;
        if let Some((first, reason)) = after {
            if after == before {
                let i = choose|i: int|
                    0 <= i < earlier.len() && (#[trigger] earlier[i]).0 == first && earlier[i].2
                        == Some(reason);
                assert(records[i].0 == first && records[i].2 == Some(reason));
            } else {
                assert(records[last].0 == first && records[last].2 == Some(reason));
            }
        }
    }
}

} // verus!
