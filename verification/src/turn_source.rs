//! Reading a streamed model turn on behalf of a run.

use vstd::prelude::*;
use crate::assembler::{AssemblerView, StreamedTurnAssembler, StreamedTurnEvent, StreamedTurnEventView};
use crate::attempt::{
    classified, content_after_final, content_after_final_error, forward, forwarded, into_model_turn,
    model_turn, reading_error, take_in, truncated_stream, truncated_stream_error,
    AttemptOutcomeView, AttemptView,
};
use crate::completion::{CompletionError, CompletionErrorView, FinishReason, FinishReasonView};
use crate::deep::{deep, group_deep};
use crate::message::{AssistantContent, AssistantContentView};
use crate::names::ToolNames;
use crate::one_or_many::OneOrMany;
use crate::prompt_response::{is_empty_assistant_turn, says_nothing, text_content, PromptResponse};
use crate::run::{AgentRun, RunView};
use crate::stream_item::{
    final_response_view, MultiTurnStreamItem, MultiTurnStreamItemView,
};
use crate::streaming::{StreamedAssistantContent, StreamedAssistantContentView};
use crate::turn::{ModelTurn, ModelTurnView};
use crate::usage::{addable, zero_usage, Usage};

verus! {

broadcast use group_deep;

/// A streamed model turn of a run, as far as it has been read.
#[derive(Debug)]
pub struct StreamedModelTurn {
    assembler: StreamedTurnAssembler,
    last_usage: Usage,
    finish_reason: Option<FinishReason>,
    provider_final_seen: bool,
    pending_final: Option<StreamedAssistantContent>,
}

pub struct StreamedModelTurnView {
    pub assembler: AssemblerView,
    pub last_usage: Usage,
    /// Why the provider stopped, where it said.
    pub finish_reason: Option<FinishReasonView>,
    /// Whether the closing record has come in.
    pub closed: bool,
    /// The closing record, where it is to be handed on at the end.
    pub pending_final: Option<StreamedAssistantContentView>,
}

impl DeepView for StreamedModelTurn {
    type V = StreamedModelTurnView;

    closed spec fn deep_view(&self) -> StreamedModelTurnView {
        StreamedModelTurnView {
            assembler: self.assembler.deep_view(),
            last_usage: self.last_usage,
            finish_reason: self.finish_reason.deep_view(),
            closed: self.provider_final_seen,
            pending_final: self.pending_final.deep_view(),
        }
    }
}

/// The items of a run's stream for what the model emitted.
pub open spec fn assistant_items(items: Seq<StreamedAssistantContentView>) -> Seq<
    MultiTurnStreamItemView,
> {
    items.map_values(
        |item: StreamedAssistantContentView| MultiTurnStreamItemView::StreamAssistantItem(item),
    )
}

/// The outcome of taking in an item, by view.
pub open spec fn items_outcome(
    result: Result<Vec<MultiTurnStreamItem>, CompletionError>,
) -> Result<Seq<MultiTurnStreamItemView>, CompletionErrorView> {
    match result {
        Ok(items) => Ok(deep(items@)),
        Err(error) => Err(error.deep_view()),
    }
}

/// The run once an item of its stream has been taken in: a closing record enters the
/// model call in the ledger.
pub open spec fn run_after_item(
    turn: StreamedModelTurnView,
    run: RunView,
    item: StreamedAssistantContentView,
) -> RunView {
    match item {
        StreamedAssistantContentView::Final(record) => if turn.failure(item) is None
            && run.unrecorded() {
            run.recording(record.usage, record.finish_reason)
        } else {
            run
        },
        _ => run,
    }
}

impl StreamedModelTurnView {
    /// Before the stream.
    pub open spec fn start(executable: Seq<Seq<char>>, allowed: Seq<Seq<char>>) -> Self {
        StreamedModelTurnView {
            assembler: AssemblerView::start(executable, allowed),
            last_usage: zero_usage(),
            finish_reason: None,
            closed: false,
            pending_final: None,
        }
    }

    /// The error that an item is, if it is one.
    pub open spec fn failure(self, item: StreamedAssistantContentView) -> Option<
        CompletionErrorView,
    > {
        if self.closed {
            Some(content_after_final())
        } else {
            reading_error(self.assembler, item)
        }
    }

    /// The items of the run's stream for an item of the turn's stream. For a
    /// closing record it is the provider call, where that was not entered before.
    pub open spec fn items(self, run: RunView, item: StreamedAssistantContentView) -> Result<
        Seq<MultiTurnStreamItemView>,
        CompletionErrorView,
    > {
        match self.failure(item) {
            Some(error) => Err(error),
            None => match item {
                StreamedAssistantContentView::Final(record) => Ok(
                    if run.unrecorded() {
                        seq![
                            MultiTurnStreamItemView::CompletionCall(
                                run.ledger.next_entry(record.usage, record.finish_reason),
                            ),
                        ]
                    } else {
                        Seq::empty()
                    },
                ),
                _ => Ok(
                    assistant_items(forwarded(self.assembler.events(item)->Ok_0, item, true)),
                ),
            },
        }
    }

    /// The turn once an item has been taken in.
    pub open spec fn after_item(self, item: StreamedAssistantContentView) -> Self {
        if self.failure(item) is Some {
            self
        } else {
            let assembler = self.assembler.after_item(item);
            match item {
                StreamedAssistantContentView::Final(record) => StreamedModelTurnView {
                    assembler,
                    last_usage: record.usage,
                    finish_reason: record.finish_reason,
                    closed: true,
                    pending_final: if self.assembler.saw_text {
                        Some(item)
                    } else {
                        self.pending_final
                    },
                },
                _ => StreamedModelTurnView { assembler, ..self },
            }
        }
    }

    /// The error that the end of the stream is, if it is one.
    pub open spec fn end_failure(self) -> Option<CompletionErrorView> {
        if !self.closed {
            Some(truncated_stream())
        } else {
            self.assembler.defect()
        }
    }

    /// The items of the run's stream for the end of the turn's stream: a closing
    /// record that was held back.
    pub open spec fn end_items(self) -> Seq<MultiTurnStreamItemView> {
        match self.pending_final {
            Some(record) => seq![MultiTurnStreamItemView::StreamAssistantItem(record)],
            None => Seq::empty(),
        }
    }

    /// The turn that the stream comes to.
    pub open spec fn turn(
        self,
        message_id: Option<Seq<char>>,
        choice: Seq<AssistantContentView>,
    ) -> ModelTurnView {
        model_turn(
            self.assembler.finished(message_id, choice),
            self.last_usage,
            self.finish_reason,
        )
    }
}

/// The turn that a stream comes to on behalf of a run, or its error: what reading its items
/// one by one, and then its end, gives.
pub open spec fn streamed_turn(
    turn: StreamedModelTurnView,
    items: Seq<Result<StreamedAssistantContentView, CompletionErrorView>>,
    message_id: Option<Seq<char>>,
    choice: Seq<AssistantContentView>,
) -> Result<ModelTurnView, CompletionErrorView>
    decreases items.len(),
{
    if items.len() == 0 {
        match turn.end_failure() {
            Some(error) => Err(error),
            None => Ok(turn.turn(message_id, choice)),
        }
    } else {
        match items[0] {
            Err(error) => Err(error),
            Ok(item) => match turn.failure(item) {
                Some(error) => Err(error),
                None => streamed_turn(turn.after_item(item), items.skip(1), message_id, choice),
            },
        }
    }
}

/// Whether a run and an attempt of its own have read the same of a stream.
pub open spec fn read_alike(turn: StreamedModelTurnView, attempt: AttemptView) -> bool {
    &&& turn.assembler == attempt.assembler
    &&& turn.last_usage == attempt.usage
    &&& turn.finish_reason == attempt.finish_reason
    &&& turn.closed == attempt.closed
}

/// A stream is classified in one way, whoever reads it: a run and an attempt of its own
/// take the same streams for complete, and come to the same turn. The errors are the same
/// too.
pub proof fn law_all_readers_agree(
    turn: StreamedModelTurnView,
    attempt: AttemptView,
    items: Seq<Result<StreamedAssistantContentView, CompletionErrorView>>,
    message_id: Option<Seq<char>>,
    choice: Seq<AssistantContentView>,
)
    requires
        read_alike(turn, attempt),
    ensures
        match streamed_turn(turn, items, message_id, choice) {
            Err(error) => attempt.consumed(items, message_id, choice).1 == classified(error),
            Ok(read) => attempt.consumed(items, message_id, choice).1 == (
            AttemptOutcomeView::Completed { turn: read, finish_reason: read.finish_reason }),
        },
    decreases items.len(),
{
    if items.len() > 0 {
        if let Ok(item) = items[0] {
            if turn.failure(item) is None {
                law_all_readers_agree(
                    turn.after_item(item),
                    attempt.after_item(item),
                    items.skip(1),
                    message_id,
                    choice,
                );
            }
        }
    }
}

/// Wraps what the model emitted as items of the run's stream.
fn wrap_items(items: Vec<StreamedAssistantContent>) -> (wrapped: Vec<MultiTurnStreamItem>)
    ensures
        deep(wrapped@) == assistant_items(deep(items@)),
{
    let ghost all = deep(items@);
    let ghost n = items@.len();
    let mut rest = items;
    let mut wrapped: Vec<MultiTurnStreamItem> = Vec::new();
    while rest.len() > 0
        invariant
            wrapped@.len() + rest@.len() == n,
            n == all.len(),
            deep(rest@) == all.skip(wrapped@.len() as int),
            forall|k: int|
                0 <= k < wrapped@.len() ==> (#[trigger] wrapped@[k]).deep_view()
                    == MultiTurnStreamItemView::StreamAssistantItem(all[k]),
        decreases rest@.len(),
    {
        let ghost before = deep(rest@);
        let item = rest.remove(0);
        assert(before[0] == item.deep_view());
        assert(deep(rest@) =~= before.skip(1));
        wrapped.push(MultiTurnStreamItem::stream_item(item));
        assert(deep(rest@) =~= all.skip(wrapped@.len() as int));
    }
    assert(deep(wrapped@) =~= assistant_items(all));
    wrapped
}

impl StreamedModelTurn {
    /// Before the stream of a turn for which the given tools were offered.
    pub fn new(executable_tool_names: ToolNames, allowed_tool_names: ToolNames) -> (turn: Self)
        ensures
            turn.deep_view() == StreamedModelTurnView::start(
                executable_tool_names.deep_view(),
                allowed_tool_names.deep_view(),
            ),
    {
        StreamedModelTurn {
            assembler: StreamedTurnAssembler::new(executable_tool_names, allowed_tool_names),
            last_usage: Usage::new(),
            finish_reason: None,
            provider_final_seen: false,
            pending_final: None,
        }
    }

    /// Takes in the next item of the stream and gives out what goes into the run's
    /// stream for it. The closing record enters the model call in the run's ledger.
    pub fn on_item(
        &mut self,
        run: &mut AgentRun,
        item: StreamedAssistantContent,
    ) -> (result: Result<Vec<MultiTurnStreamItem>, CompletionError>)
        requires
            old(run).wf(),
            item.deep_view() matches StreamedAssistantContentView::Final(record) ==> addable(
                old(run).deep_view().ledger.usage,
                record.usage,
            ),
        ensures
            final(run).wf(),
            final(self).deep_view() == old(self).deep_view().after_item(item.deep_view()),
            final(run).deep_view() == run_after_item(
                old(self).deep_view(),
                old(run).deep_view(),
                item.deep_view(),
            ),
            items_outcome(result) == old(self).deep_view().items(
                old(run).deep_view(),
                item.deep_view(),
            ),
    {
        if self.provider_final_seen {
            return Err(content_after_final_error());
        }
        let events = match take_in(&mut self.assembler, &item) {
            Ok(events) => events,
            Err(error) => {
                return Err(error);
            },
        };
        if let StreamedAssistantContent::Final(record) = &item {
            let mut items: Vec<MultiTurnStreamItem> = Vec::new();
            self.last_usage = record.usage;
            self.finish_reason = record.finish_reason.clone();
            if let Some(call) = run.record_completion_call(
                record.usage,
                record.finish_reason.clone(),
            ) {
                items.push(MultiTurnStreamItem::CompletionCall(call));
            }
            self.provider_final_seen = true;
            assert(deep(events@) == seq![
                StreamedTurnEventView::Completed {
                    usage: record.usage,
                    finish_reason: record.finish_reason.deep_view(),
                    emit_final: old(self).deep_view().assembler.saw_text,
                },
            ]);
            assert(deep(events@)[0] == events@[0].deep_view());
            if let StreamedTurnEvent::Completed { emit_final: true, .. } = &events[0] {
                self.pending_final = Some(item);
            }
            assert(Ok::<Seq<MultiTurnStreamItemView>, CompletionErrorView>(deep(items@)) == old(
                self,
            ).deep_view().items(old(run).deep_view(), item.deep_view())) by {
                if let Ok(wanted) = old(self).deep_view().items(
                    old(run).deep_view(),
                    item.deep_view(),
                ) {
                    assert(deep(items@) =~= wanted);
                }
            }
            return Ok(items);
        }
        Ok(wrap_items(forward(events, item)))
    }

    /// The stream has ended; `choice` is the turn as the provider has it.
    pub fn on_end(
        self,
        message_id: Option<String>,
        choice: &OneOrMany<AssistantContent>,
    ) -> (result: Result<(Vec<MultiTurnStreamItem>, ModelTurn), CompletionError>)
        ensures
            match self.deep_view().end_failure() {
                Some(error) => result matches Err(given) && given.deep_view() == error,
                None => {
                    &&& result matches Ok(given)
                    &&& deep(given.0@) == self.deep_view().end_items()
                    &&& given.1.deep_view() == self.deep_view().turn(
                        message_id.deep_view(),
                        choice.deep_view(),
                    )
                },
            },
    {
        if !self.provider_final_seen {
            return Err(truncated_stream_error());
        }
        if let Some(error) = self.assembler.pending_defect() {
            return Err(error);
        }
        let turn = self.assembler.finish(message_id, choice);
        let mut items: Vec<MultiTurnStreamItem> = Vec::new();
        if let Some(record) = self.pending_final {
            items.push(MultiTurnStreamItem::stream_item(record));
        }
        assert(deep(items@) =~= self.deep_view().end_items());
        Ok((items, into_model_turn(turn, self.last_usage, self.finish_reason)))
    }
}

/// What a streaming run keeps of its last turn: the turn as the provider had it.
#[derive(Debug)]
pub struct StreamingTurnSource {
    last_final_choice: OneOrMany<AssistantContent>,
    last_message_id: Option<String>,
}

pub struct StreamingTurnSourceView {
    pub last_final_choice: Seq<AssistantContentView>,
    pub last_message_id: Option<Seq<char>>,
}

impl DeepView for StreamingTurnSource {
    type V = StreamingTurnSourceView;

    closed spec fn deep_view(&self) -> StreamingTurnSourceView {
        StreamingTurnSourceView {
            last_final_choice: self.last_final_choice.deep_view(),
            last_message_id: self.last_message_id.deep_view(),
        }
    }
}

impl StreamingTurnSource {
    /// Before the first turn.
    pub fn new() -> (source: Self)
        ensures
            source.deep_view() == (StreamingTurnSourceView {
                last_final_choice: text_content(Seq::empty()),
                last_message_id: None,
            }),
    {
        let part = AssistantContent::text(String::new());
        let content = OneOrMany::one(part);
        assert(content.deep_view() =~= text_content(Seq::empty()));
        StreamingTurnSource { last_final_choice: content, last_message_id: None }
    }

    /// Notes a turn that is complete.
    pub fn turn_completed(
        &mut self,
        message_id: Option<String>,
        choice: OneOrMany<AssistantContent>,
    )
        ensures
            final(self).deep_view() == (StreamingTurnSourceView {
                last_final_choice: choice.deep_view(),
                last_message_id: message_id.deep_view(),
            }),
    {
        self.last_message_id = message_id;
        self.last_final_choice = choice;
    }

    /// Whether the last turn said nothing.
    pub fn ended_without_text(&self) -> (silent: bool)
        ensures
            silent == says_nothing(self.deep_view().last_final_choice),
    {
        is_empty_assistant_turn(&self.last_final_choice)
    }

    /// The provider's id of the last message.
    pub fn last_message_id(&self) -> (id: Option<String>)
        ensures
            id.deep_view() == self.deep_view().last_message_id,
    {
        self.last_message_id.clone()
    }

    /// The last item of the run's stream: the outcome of the run, with the last turn
    /// as the provider had it.
    pub fn final_item(&self, response: &PromptResponse) -> (item: MultiTurnStreamItem)
        ensures
            item.deep_view() == MultiTurnStreamItemView::FinalResponse(
                final_response_view(
                    self.deep_view().last_final_choice,
                    response.deep_view().usage,
                    response.deep_view().completion_calls,
                ),
            ),
    {
        let content = self.last_final_choice.clone();
        assert(content.deep_view() =~= self.last_final_choice.deep_view());
        let calls = response.completion_calls.clone();
        assert(deep(calls@) =~= deep(response.completion_calls@));
        MultiTurnStreamItem::final_response_with_completion_calls(content, response.usage, calls)
    }
}

} // verus!
