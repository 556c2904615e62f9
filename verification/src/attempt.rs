//! One attempt at a model turn: reading its stream, and what it comes to.

use vstd::prelude::*;
use crate::assembler::{
    AssemblerView, StreamedTurn, StreamedTurnAssembler, StreamedTurnEvent, StreamedTurnEventView,
    StreamedTurnView,
};
use crate::completion::{CompletionError, CompletionErrorView, FinishReason, FinishReasonView};
use crate::deep::{deep, group_deep};
use crate::message::{AssistantContent, AssistantContentView};
use crate::names::ToolNames;
use crate::one_or_many::OneOrMany;
use crate::streaming::{StreamedAssistantContent, StreamedAssistantContentView};
use crate::turn::{ModelTurn, ModelTurnView};
use crate::usage::{zero_usage, Usage};

verus! {

broadcast use group_deep;

/// The error of a stream that goes on behind its closing record.
pub open spec fn content_after_final() -> CompletionErrorView {
    CompletionErrorView::ResponseError(
        "provider stream emitted visible assistant content after its final response"@,
    )
}

/// The error of a stream that ends without its closing record.
pub open spec fn truncated_stream() -> CompletionErrorView {
    CompletionErrorView::ResponseError(
        "provider stream ended without a terminal record; treating the turn as truncated"@,
    )
}

pub(crate) fn content_after_final_error() -> (error: CompletionError)
    ensures
        error.deep_view() == content_after_final(),
{
    CompletionError::ResponseError(
        "provider stream emitted visible assistant content after its final response".to_owned(),
    )
}

pub(crate) fn truncated_stream_error() -> (error: CompletionError)
    ensures
        error.deep_view() == truncated_stream(),
{
    CompletionError::ResponseError(
        "provider stream ended without a terminal record; treating the turn as truncated".to_owned(),
    )
}

/// The items that are handed on for the events of an item: the item itself once at
/// most, and the pieces of tool calls.
pub open spec fn forwarded(
    events: Seq<StreamedTurnEventView>,
    item: StreamedAssistantContentView,
    unspent: bool,
) -> Seq<StreamedAssistantContentView>
    decreases events.len(),
{
    if events.len() == 0 {
        Seq::empty()
    } else {
        let rest = events.skip(1);
        match events[0] {
            StreamedTurnEventView::EmitIngested => if unspent {
                seq![item] + forwarded(rest, item, false)
            } else {
                forwarded(rest, item, false)
            },
            StreamedTurnEventView::EmitToolCallDelta { id, internal_call_id, content } => seq![
                StreamedAssistantContentView::ToolCallDelta { id, internal_call_id, content },
            ] + forwarded(rest, item, unspent),
            _ => forwarded(rest, item, unspent),
        }
    }
}

/// The items that are handed on for the events of an item.
pub(crate) fn forward(
    events: Vec<StreamedTurnEvent>,
    item: StreamedAssistantContent,
) -> (items: Vec<StreamedAssistantContent>)
    ensures
        deep(items@) == forwarded(deep(events@), item.deep_view(), true),
{
    let ghost all = deep(events@);
    let ghost whole = item.deep_view();
    let mut rest = events;
    let mut slot = Some(item);
    let mut items: Vec<StreamedAssistantContent> = Vec::new();
    assert(Seq::<StreamedAssistantContentView>::empty() + forwarded(all, whole, true) =~= forwarded(
        all,
        whole,
        true,
    ));
    while rest.len() > 0
        invariant
            slot matches Some(item) ==> item.deep_view() == whole,
            deep(items@) + forwarded(deep(rest@), whole, slot is Some) == forwarded(
                all,
                whole,
                true,
            ),
        decreases rest@.len(),
    {
        let ghost before = deep(rest@);
        let ghost done = deep(items@);
        let ghost unspent = slot is Some;
        let event = rest.remove(0);
        assert(before[0] == event.deep_view());
        assert(deep(rest@) =~= before.skip(1));
        match event {
            StreamedTurnEvent::EmitIngested => {
                if let Some(item) = slot.take() {
                    items.push(item);
                    assert(done + (seq![whole] + forwarded(before.skip(1), whole, false))
                        =~= done.push(whole) + forwarded(before.skip(1), whole, false));
                }
            },
            StreamedTurnEvent::EmitToolCallDelta { id, internal_call_id, content } => {
                let piece = StreamedAssistantContent::ToolCallDelta { id, internal_call_id, content };
                items.push(piece);
                assert(done + (seq![piece.deep_view()] + forwarded(before.skip(1), whole, unspent))
                    =~= done.push(piece.deep_view()) + forwarded(before.skip(1), whole, unspent));
            },
            _ => {},
        }
    }
    assert(deep(rest@) =~= Seq::empty());
    assert(deep(items@) + Seq::<StreamedAssistantContentView>::empty() =~= deep(items@));
    items
}

/// The turn that a streamed turn comes to.
pub open spec fn model_turn(
    turn: StreamedTurnView,
    usage: Usage,
    finish_reason: Option<FinishReasonView>,
) -> ModelTurnView {
    ModelTurnView {
        message_id: turn.message_id,
        choice: turn.choice,
        usage,
        finish_reason,
        executable_tool_names: turn.executable_tool_names,
        allowed_tool_names: turn.allowed_tool_names,
        internal_call_ids: turn.internal_call_ids,
    }
}

/// The turn that a streamed turn comes to.
pub(crate) fn into_model_turn(
    turn: StreamedTurn,
    usage: Usage,
    finish_reason: Option<FinishReason>,
) -> (model_turn_made: ModelTurn)
    ensures
        model_turn_made.deep_view() == model_turn(
            turn.deep_view(),
            usage,
            finish_reason.deep_view(),
        ),
{
    let mut made = ModelTurn::new(
        turn.message_id,
        turn.choice,
        usage,
        finish_reason,
        turn.executable_tool_names,
        turn.allowed_tool_names,
    );
    made.internal_call_ids = turn.internal_call_ids;
    made
}

/// What an attempt at a model turn comes to.
#[derive(Debug, PartialEq, Eq)]
pub enum AttemptOutcome {
    /// The turn is complete.
    Completed {
        turn: ModelTurn,
        /// Why the provider stopped, where it said.
        finish_reason: Option<FinishReason>,
    },
    /// The model emitted a tool call whose arguments cannot be read.
    MalformedToolCall { tool: String, reason: String },
    /// The provider or the transport failed.
    Failed(CompletionError),
    /// The attempt was given up.
    Cancelled,
}

pub enum AttemptOutcomeView {
    Completed { turn: ModelTurnView, finish_reason: Option<FinishReasonView> },
    MalformedToolCall { tool: Seq<char>, reason: Seq<char> },
    Failed(CompletionErrorView),
    Cancelled,
}

impl DeepView for AttemptOutcome {
    type V = AttemptOutcomeView;

    open spec fn deep_view(&self) -> AttemptOutcomeView {
        match self {
            AttemptOutcome::Completed { turn, finish_reason } => AttemptOutcomeView::Completed {
                turn: turn.deep_view(),
                finish_reason: finish_reason.deep_view(),
            },
            AttemptOutcome::MalformedToolCall { tool, reason } =>
                AttemptOutcomeView::MalformedToolCall { tool: tool@, reason: reason@ },
            AttemptOutcome::Failed(error) => AttemptOutcomeView::Failed(error.deep_view()),
            AttemptOutcome::Cancelled => AttemptOutcomeView::Cancelled,
        }
    }
}

impl AttemptOutcome {
    /// Whether the attempt came to a turn with a tool call.
    pub fn carries_tools(&self) -> (carries: bool)
        ensures
            carries == (self.deep_view() matches AttemptOutcomeView::Completed { turn, .. }
                && turn.carries_tools()),
    {
        match self {
            AttemptOutcome::Completed { turn, .. } => turn.carries_tools(),
            _ => false,
        }
    }
}

/// What an error makes of an attempt: a tool call that cannot be read is the
/// model's fault, everything else is a failure.
pub open spec fn classified(error: CompletionErrorView) -> AttemptOutcomeView {
    match error {
        CompletionErrorView::MalformedToolCall { tool, reason } =>
            AttemptOutcomeView::MalformedToolCall { tool, reason },
        other => AttemptOutcomeView::Failed(other),
    }
}

/// What an error makes of an attempt.
pub fn classify_error(error: CompletionError) -> (made: AttemptOutcome)
    ensures
        made.deep_view() == classified(error.deep_view()),
{
    match error {
        CompletionError::MalformedToolCall { tool, reason } => AttemptOutcome::MalformedToolCall {
            tool,
            reason,
        },
        other => AttemptOutcome::Failed(other),
    }
}

/// The error of an item that cannot be taken in. A closing record that leaves arguments
/// without a tool's name shows a defect of the model.
pub open spec fn reading_error(
    assembler: AssemblerView,
    item: StreamedAssistantContentView,
) -> Option<CompletionErrorView> {
    if item is Final && assembler.defect() is Some {
        assembler.defect()
    } else {
        match assembler.events(item) {
            Err(error) => Some(error),
            Ok(_) => None,
        }
    }
}

/// Takes an item into a turn, for whoever reads the stream.
pub(crate) fn take_in(
    assembler: &mut StreamedTurnAssembler,
    item: &StreamedAssistantContent,
) -> (result: Result<Vec<StreamedTurnEvent>, CompletionError>)
    ensures
        match reading_error(old(assembler).deep_view(), item.deep_view()) {
            Some(error) => {
                &&& result matches Err(given)
                &&& given.deep_view() == error
                &&& final(assembler).deep_view() == old(assembler).deep_view()
            },
            None => {
                &&& result matches Ok(events)
                &&& old(assembler).deep_view().events(item.deep_view()) == Ok::<
                    Seq<StreamedTurnEventView>,
                    CompletionErrorView,
                >(deep(events@))
                &&& final(assembler).deep_view() == old(assembler).deep_view().after_item(
                    item.deep_view(),
                )
            },
        },
{
    if let StreamedAssistantContent::Final(_) = item {
        if let Some(defect) = assembler.pending_defect() {
            return Err(defect);
        }
    }
    assembler.ingest(item)
}

/// An attempt at a model turn whose stream is being read.
#[derive(Debug)]
pub struct Attempt {
    assembler: StreamedTurnAssembler,
    usage: Usage,
    finish_reason: Option<FinishReason>,
    provider_final_seen: bool,
}

pub struct AttemptView {
    pub assembler: AssemblerView,
    pub usage: Usage,
    pub finish_reason: Option<FinishReasonView>,
    /// Whether the closing record has come in.
    pub closed: bool,
}

impl DeepView for Attempt {
    type V = AttemptView;

    closed spec fn deep_view(&self) -> AttemptView {
        AttemptView {
            assembler: self.assembler.deep_view(),
            usage: self.usage,
            finish_reason: self.finish_reason.deep_view(),
            closed: self.provider_final_seen,
        }
    }
}

/// An item of a stream, or the error in its place, by view.
pub open spec fn received(
    item: Result<StreamedAssistantContent, CompletionError>,
) -> Result<StreamedAssistantContentView, CompletionErrorView> {
    match item {
        Ok(item) => Ok(item.deep_view()),
        Err(error) => Err(error.deep_view()),
    }
}

impl AttemptView {
    /// Before the stream.
    pub open spec fn start(executable: Seq<Seq<char>>, allowed: Seq<Seq<char>>) -> Self {
        AttemptView {
            assembler: AssemblerView::start(executable, allowed),
            usage: zero_usage(),
            finish_reason: None,
            closed: false,
        }
    }

    /// The error with which an item ends the attempt, if it does.
    pub open spec fn failure(
        self,
        item: Result<StreamedAssistantContentView, CompletionErrorView>,
    ) -> Option<AttemptOutcomeView> {
        match item {
            Err(error) => Some(classified(error)),
            Ok(item) => if self.closed {
                Some(AttemptOutcomeView::Failed(content_after_final()))
            } else {
                match reading_error(self.assembler, item) {
                    Some(error) => Some(classified(error)),
                    None => None,
                }
            },
        }
    }

    /// The items that are handed on for an item that does not end the attempt.
    pub open spec fn handed_on(self, item: StreamedAssistantContentView) -> Seq<
        StreamedAssistantContentView,
    > {
        match self.assembler.events(item) {
            Ok(events) => forwarded(events, item, true),
            Err(_) => Seq::empty(),
        }
    }

    /// The attempt behind an item that does not end it.
    pub open spec fn after_item(self, item: StreamedAssistantContentView) -> Self {
        let assembler = self.assembler.after_item(item);
        match item {
            StreamedAssistantContentView::Final(record) => AttemptView {
                assembler,
                usage: record.usage,
                finish_reason: record.finish_reason,
                closed: true,
            },
            _ => AttemptView { assembler, ..self },
        }
    }

    /// What the attempt comes to where its stream ends here.
    pub open spec fn settled(
        self,
        message_id: Option<Seq<char>>,
        choice: Seq<AssistantContentView>,
    ) -> AttemptOutcomeView {
        if !self.closed {
            AttemptOutcomeView::Failed(truncated_stream())
        } else {
            match self.assembler.defect() {
                Some(error) => classified(error),
                None => AttemptOutcomeView::Completed {
                    turn: model_turn(
                        self.assembler.finished(message_id, choice),
                        self.usage,
                        self.finish_reason,
                    ),
                    finish_reason: self.finish_reason,
                },
            }
        }
    }

    /// What is handed on, and what the attempt comes to, where its stream goes on
    /// with the given items and then ends.
    pub open spec fn consumed(
        self,
        items: Seq<Result<StreamedAssistantContentView, CompletionErrorView>>,
        message_id: Option<Seq<char>>,
        choice: Seq<AssistantContentView>,
    ) -> (Seq<StreamedAssistantContentView>, AttemptOutcomeView)
        decreases items.len(),
    {
        if items.len() == 0 {
            (Seq::empty(), self.settled(message_id, choice))
        } else {
            match self.failure(items[0]) {
                Some(outcome) => (Seq::empty(), outcome),
                None => {
                    let item = items[0]->Ok_0;
                    let rest = self.after_item(item).consumed(items.skip(1), message_id, choice);
                    (self.handed_on(item) + rest.0, rest.1)
                },
            }
        }
    }
}

/// What an item makes of an attempt.
#[derive(Debug)]
pub enum AttemptStep {
    /// The attempt goes on; these items are handed on.
    Forward(Vec<StreamedAssistantContent>),
    /// The attempt is at its end.
    Settled(AttemptOutcome),
}

impl Attempt {
    /// Before the stream of a turn for which the given tools were offered.
    pub fn new(executable_tool_names: ToolNames, allowed_tool_names: ToolNames) -> (attempt: Self)
        ensures
            attempt.deep_view() == AttemptView::start(
                executable_tool_names.deep_view(),
                allowed_tool_names.deep_view(),
            ),
    {
        Attempt {
            assembler: StreamedTurnAssembler::new(executable_tool_names, allowed_tool_names),
            usage: Usage::new(),
            finish_reason: None,
            provider_final_seen: false,
        }
    }

    /// Takes the next item of the stream, or the error in its place.
    pub fn on_item(&mut self, item: Result<StreamedAssistantContent, CompletionError>) -> (step: AttemptStep)
        ensures
            match old(self).deep_view().failure(received(item)) {
                Some(outcome) => {
                    &&& step matches AttemptStep::Settled(settled)
                    &&& settled.deep_view() == outcome
                    &&& final(self).deep_view() == old(self).deep_view()
                },
                None => {
                    &&& step matches AttemptStep::Forward(items)
                    &&& deep(items@) == old(self).deep_view().handed_on(item->Ok_0.deep_view())
                    &&& final(self).deep_view() == old(self).deep_view().after_item(
                        item->Ok_0.deep_view(),
                    )
                },
            },
    {
        let item = match item {
            Ok(item) => item,
            Err(error) => {
                return AttemptStep::Settled(classify_error(error));
            },
        };
        if self.provider_final_seen {
            return AttemptStep::Settled(AttemptOutcome::Failed(content_after_final_error()));
        }
        let events = match take_in(&mut self.assembler, &item) {
            Ok(events) => events,
            Err(error) => {
                return AttemptStep::Settled(classify_error(error));
            },
        };
        if let StreamedAssistantContent::Final(record) = &item {
            self.usage = record.usage;
            self.finish_reason = record.finish_reason.clone();
            self.provider_final_seen = true;
        }
        AttemptStep::Forward(forward(events, item))
    }

    /// The stream has ended; `choice` is the turn as the provider has it.
    pub fn on_end(
        self,
        message_id: Option<String>,
        choice: &OneOrMany<AssistantContent>,
    ) -> (outcome: AttemptOutcome)
        ensures
            outcome.deep_view() == self.deep_view().settled(
                message_id.deep_view(),
                choice.deep_view(),
            ),
    {
        if !self.provider_final_seen {
            return AttemptOutcome::Failed(truncated_stream_error());
        }
        if let Some(error) = self.assembler.pending_defect() {
            return classify_error(error);
        }
        let finish_reason = self.finish_reason.clone();
        let turn = self.assembler.finish(message_id, choice);
        AttemptOutcome::Completed {
            turn: into_model_turn(turn, self.usage, self.finish_reason),
            finish_reason,
        }
    }
}

/// A whole stream by view.
pub open spec fn all_received(
    items: Seq<Result<StreamedAssistantContent, CompletionError>>,
) -> Seq<Result<StreamedAssistantContentView, CompletionErrorView>> {
    items.map_values(|item: Result<StreamedAssistantContent, CompletionError>| received(item))
}

/// Reads a whole stream: what is handed on of it, and what it comes to. A stream
/// that ends without its closing record has been cut off, one that goes on behind
/// it is at fault, and in one that leaves arguments without a tool's name the model is.
pub fn consume_completion_stream(
    items: Vec<Result<StreamedAssistantContent, CompletionError>>,
    message_id: Option<String>,
    choice: &OneOrMany<AssistantContent>,
    executable_tool_names: ToolNames,
    allowed_tool_names: ToolNames,
) -> (result: (Vec<StreamedAssistantContent>, AttemptOutcome))
    ensures
        (deep(result.0@), result.1.deep_view()) == AttemptView::start(
            executable_tool_names.deep_view(),
            allowed_tool_names.deep_view(),
        ).consumed(all_received(items@), message_id.deep_view(), choice.deep_view()),
{
    let ghost start = AttemptView::start(
        executable_tool_names.deep_view(),
        allowed_tool_names.deep_view(),
    );
    let ghost whole = start.consumed(
        all_received(items@),
        message_id.deep_view(),
        choice.deep_view(),
    );
    let mut attempt = Attempt::new(executable_tool_names, allowed_tool_names);
    let mut rest = items;
    let mut out: Vec<StreamedAssistantContent> = Vec::new();
    assert(Seq::<StreamedAssistantContentView>::empty() + whole.0 =~= whole.0);
    while rest.len() > 0
        invariant
            ({
                let remaining = attempt.deep_view().consumed(
                    all_received(rest@),
                    message_id.deep_view(),
                    choice.deep_view(),
                );
                whole == (deep(out@) + remaining.0, remaining.1)
            }),
            whole == start.consumed(
                all_received(items@),
                message_id.deep_view(),
                choice.deep_view(),
            ),
            start == AttemptView::start(
                executable_tool_names.deep_view(),
                allowed_tool_names.deep_view(),
            ),
        decreases rest@.len(),
    {
        let ghost before = all_received(rest@);
        let ghost was = attempt.deep_view();
        let ghost done = deep(out@);
        let item = rest.remove(0);
        assert(before[0] == received(item));
        assert(all_received(rest@) =~= before.skip(1));
        match attempt.on_item(item) {
            AttemptStep::Forward(items) => {
                let mut items = items;
                let ghost handed = deep(items@);
                out.append(&mut items);
                proof {
                    let remaining = attempt.deep_view().consumed(
                        before.skip(1),
                        message_id.deep_view(),
                        choice.deep_view(),
                    );
                    assert(done + (handed + remaining.0) =~= (done + handed) + remaining.0);
                }
            },
            AttemptStep::Settled(outcome) => {
                assert(done + Seq::<StreamedAssistantContentView>::empty() =~= done);
                return (out, outcome);
            },
        }
    }
    assert(all_received(rest@) =~= Seq::empty());
    assert(deep(out@) + Seq::<StreamedAssistantContentView>::empty() =~= deep(out@));
    let outcome = attempt.on_end(message_id, choice);
    (out, outcome)
}

/// Whether an item is the closing record.
pub open spec fn is_closing(
    item: Result<StreamedAssistantContentView, CompletionErrorView>,
) -> bool {
    item matches Ok(StreamedAssistantContentView::Final(_))
}

/// A stream comes to a complete turn only if it ends with its closing record, and
/// has no second one and no error: a stream that was cut off is never taken for a
/// complete one. The usage and the reason for stopping are those of the record.
pub proof fn law_only_closed_streams_complete(
    attempt: AttemptView,
    items: Seq<Result<StreamedAssistantContentView, CompletionErrorView>>,
    message_id: Option<Seq<char>>,
    choice: Seq<AssistantContentView>,
)
    requires
        !attempt.closed,
    ensures
        attempt.consumed(items, message_id, choice).1 matches AttemptOutcomeView::Completed {
            turn,
            finish_reason,
        } ==> {
            &&& items.len() > 0
            &&& items.last() matches Ok(StreamedAssistantContentView::Final(record))
            &&& turn.usage == record.usage
            &&& finish_reason == record.finish_reason
            &&& turn.finish_reason == record.finish_reason
            &&& forall|i: int|
                0 <= i < items.len() - 1 ==> (#[trigger] items[i]) is Ok && !is_closing(items[i])
        },
    decreases items.len(),
{
    if items.len() > 0 && attempt.failure(items[0]) is None {
        let next = attempt.after_item(items[0]->Ok_0);
        let rest = items.skip(1);
        if next.closed {
            if rest.len() > 0 {
                assert(next.failure(rest[0]) is Some);
                if let Err(error) = rest[0] {
                    assert(!(classified(error) is Completed));
                }
            }
        } else {
            law_only_closed_streams_complete(next, rest, message_id, choice);
            if attempt.consumed(items, message_id, choice).1 is Completed {
                assert(items.last() == rest.last());
                assert forall|i: int| 0 <= i < items.len() - 1 implies (#[trigger] items[i]) is Ok
                    && !is_closing(items[i]) by {
                    if i > 0 {
                        assert(items[i] == rest[i - 1]);
                    }
                }
            }
        }
    }
}

} // verus!
