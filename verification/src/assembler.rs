//! The accumulator that turns the items of a stream into a turn.

use vstd::prelude::*;
use crate::completion::{CompletionError, CompletionErrorView, FinishReason, FinishReasonView};
use crate::deep::{deep, group_deep};
use crate::json::{json_compact, parsed_or_null, Json};
use crate::message::{
    bare_call, unsigned_reasoning, AssistantContent, AssistantContentView, Reasoning,
    ReasoningView, ToolCall, ToolCallView, ToolFunction, ToolFunctionView, ToolResult,
    ToolResultView,
};
use crate::names::ToolNames;
use crate::one_or_many::{lemma_never_empty, OneOrMany};
use crate::streamed::{
    assistant_text_items_from_choice, call_parts, in_replay_order, kept_texts,
    merge_reasoning_blocks, merged_reasoning, ordered_streaming_assistant_content,
    PartialStreamedTurn, PartialStreamedTurnView, StreamedInvalidToolCall,
    StreamedInvalidToolCallView,
};
use crate::streaming::{
    StreamedAssistantContent, StreamedAssistantContentView, ToolCallDeltaContent,
    ToolCallDeltaContentView,
};
use crate::strings::{concatenate, concatenated, decimal, spell};
use crate::usage::Usage;

verus! {

broadcast use {group_deep, lemma_never_empty};

/// A streamed turn, put together.
#[derive(Debug, PartialEq, Eq)]
#[non_exhaustive]
pub struct StreamedTurn {
    pub message_id: Option<String>,
    /// What goes into the history.
    pub choice: OneOrMany<AssistantContent>,
    pub executable_tool_names: ToolNames,
    pub allowed_tool_names: ToolNames,
    /// For each tool call its id, and the id under which its stream items went
    /// out.
    pub internal_call_ids: Vec<(String, String)>,
}

pub struct StreamedTurnView {
    pub message_id: Option<Seq<char>>,
    pub choice: Seq<AssistantContentView>,
    pub executable_tool_names: Seq<Seq<char>>,
    pub allowed_tool_names: Seq<Seq<char>>,
    pub internal_call_ids: Seq<(Seq<char>, Seq<char>)>,
}

impl DeepView for StreamedTurn {
    type V = StreamedTurnView;

    open spec fn deep_view(&self) -> StreamedTurnView {
        StreamedTurnView {
            message_id: self.message_id.deep_view(),
            choice: self.choice.deep_view(),
            executable_tool_names: self.executable_tool_names.deep_view(),
            allowed_tool_names: self.allowed_tool_names.deep_view(),
            internal_call_ids: deep(self.internal_call_ids@),
        }
    }
}

/// What becomes of a tool call that the model was not to make.
#[derive(Debug)]
pub enum StreamedResolution {
    /// The call goes on under the name of another tool.
    Repaired { tool_name: String },
    /// The turn is given up; the rest of its stream is only read to the end.
    TurnAbandoned {
        /// The result to show for a call that was skipped.
        skipped_tool_result: Option<ToolResult>,
    },
}

pub enum StreamedResolutionView {
    Repaired { tool_name: Seq<char> },
    TurnAbandoned { skipped_tool_result: Option<ToolResultView> },
}

impl DeepView for StreamedResolution {
    type V = StreamedResolutionView;

    open spec fn deep_view(&self) -> StreamedResolutionView {
        match self {
            StreamedResolution::Repaired { tool_name } => StreamedResolutionView::Repaired {
                tool_name: tool_name@,
            },
            StreamedResolution::TurnAbandoned { skipped_tool_result } =>
                StreamedResolutionView::TurnAbandoned {
                    skipped_tool_result: skipped_tool_result.deep_view(),
                },
        }
    }
}

/// What is to be done with an item of the stream.
#[derive(Debug)]
pub enum StreamedTurnEvent {
    /// Hand the item on as it is.
    EmitIngested,
    /// Hand on this piece of a tool call.
    EmitToolCallDelta { id: String, internal_call_id: String, content: ToolCallDeltaContent },
    /// The model calls a tool that it was not to call.
    InvalidToolCall(Box<StreamedInvalidToolCall>),
    /// The closing record is there.
    Completed {
        usage: Usage,
        finish_reason: Option<FinishReason>,
        /// Whether the record is to be handed on once the stream has ended.
        emit_final: bool,
    },
}

pub enum StreamedTurnEventView {
    EmitIngested,
    EmitToolCallDelta {
        id: Seq<char>,
        internal_call_id: Seq<char>,
        content: ToolCallDeltaContentView,
    },
    InvalidToolCall(StreamedInvalidToolCallView),
    Completed { usage: Usage, finish_reason: Option<FinishReasonView>, emit_final: bool },
}

impl DeepView for StreamedTurnEvent {
    type V = StreamedTurnEventView;

    open spec fn deep_view(&self) -> StreamedTurnEventView {
        match self {
            StreamedTurnEvent::EmitIngested => StreamedTurnEventView::EmitIngested,
            StreamedTurnEvent::EmitToolCallDelta { id, internal_call_id, content } =>
                StreamedTurnEventView::EmitToolCallDelta {
                    id: id@,
                    internal_call_id: internal_call_id@,
                    content: content.deep_view(),
                },
            StreamedTurnEvent::InvalidToolCall(invalid) => StreamedTurnEventView::InvalidToolCall(
                invalid.deep_view(),
            ),
            StreamedTurnEvent::Completed { usage, finish_reason, emit_final } =>
                StreamedTurnEventView::Completed {
                    usage: *usage,
                    finish_reason: finish_reason.deep_view(),
                    emit_final: *emit_final,
                },
        }
    }
}

/// What is known of a tool call that comes in pieces.
#[derive(Debug)]
struct ToolCallDeltaState {
    id: String,
    internal_call_id: String,
    name_validated: bool,
    buffered_arguments: Vec<String>,
}

pub struct DeltaStateView {
    pub id: Seq<char>,
    pub internal_call_id: Seq<char>,
    /// Whether the name has come in and been handed on.
    pub name_validated: bool,
    /// The arguments that wait for the name.
    pub buffered: Seq<Seq<char>>,
}

impl DeepView for ToolCallDeltaState {
    type V = DeltaStateView;

    closed spec fn deep_view(&self) -> DeltaStateView {
        DeltaStateView {
            id: self.id@,
            internal_call_id: self.internal_call_id@,
            name_validated: self.name_validated,
            buffered: deep(self.buffered_arguments@),
        }
    }
}

/// A tool call that the model was not to make, and of which it is not known yet
/// what becomes of it.
#[derive(Debug)]
enum PendingInvalid {
    FullCall { tool_call: ToolCall, internal_call_id: String },
    NameDelta { id: String, internal_call_id: String },
}

pub enum PendingInvalidView {
    FullCall { tool_call: ToolCallView, internal_call_id: Seq<char> },
    NameDelta { id: Seq<char>, internal_call_id: Seq<char> },
}

impl DeepView for PendingInvalid {
    type V = PendingInvalidView;

    closed spec fn deep_view(&self) -> PendingInvalidView {
        match self {
            PendingInvalid::FullCall { tool_call, internal_call_id } =>
                PendingInvalidView::FullCall {
                    tool_call: tool_call.deep_view(),
                    internal_call_id: internal_call_id@,
                },
            PendingInvalid::NameDelta { id, internal_call_id } => PendingInvalidView::NameDelta {
                id: id@,
                internal_call_id: internal_call_id@,
            },
        }
    }
}

/// Puts one streamed model turn together.
#[derive(Debug)]
pub struct StreamedTurnAssembler {
    executable_tool_names: ToolNames,
    allowed_tool_names: ToolNames,
    text: String,
    saw_text: bool,
    accumulated_reasoning: Vec<Reasoning>,
    pending_reasoning_delta_text: String,
    pending_reasoning_delta_id: Option<String>,
    pending_tool_calls: Vec<(ToolCall, String)>,
    delta_states: Vec<ToolCallDeltaState>,
    pending_invalid: Option<PendingInvalid>,
}

pub struct AssemblerView {
    pub executable_tool_names: Seq<Seq<char>>,
    pub allowed_tool_names: Seq<Seq<char>>,
    /// The text so far.
    pub text: Seq<char>,
    /// Whether any text came in since the last closing record.
    pub saw_text: bool,
    /// The complete blocks of reasoning so far.
    pub reasoning: Seq<ReasoningView>,
    /// The pieces of reasoning so far.
    pub delta_text: Seq<char>,
    /// The id of the first of them.
    pub delta_id: Option<Seq<char>>,
    /// The complete tool calls so far, each with the id under which its stream
    /// items go out.
    pub calls: Seq<(ToolCallView, Seq<char>)>,
    /// The tool calls that come in pieces, in the order of their first pieces.
    pub deltas: Seq<DeltaStateView>,
    pub pending_invalid: Option<PendingInvalidView>,
}

impl DeepView for StreamedTurnAssembler {
    type V = AssemblerView;

    closed spec fn deep_view(&self) -> AssemblerView {
        AssemblerView {
            executable_tool_names: self.executable_tool_names.deep_view(),
            allowed_tool_names: self.allowed_tool_names.deep_view(),
            text: self.text@,
            saw_text: self.saw_text,
            reasoning: deep(self.accumulated_reasoning@),
            delta_text: self.pending_reasoning_delta_text@,
            delta_id: self.pending_reasoning_delta_id.deep_view(),
            calls: deep(self.pending_tool_calls@),
            deltas: deep(self.delta_states@),
            pending_invalid: self.pending_invalid.deep_view(),
        }
    }
}

/// The place of a tool call among those that come in pieces; their number where it
/// is not there.
pub open spec fn delta_place(
    deltas: Seq<DeltaStateView>,
    id: Seq<char>,
    internal_call_id: Seq<char>,
) -> nat
    decreases deltas.len(),
{
    if deltas.len() == 0 {
        0
    } else if deltas[0].id == id && deltas[0].internal_call_id == internal_call_id {
        0
    } else {
        1 + delta_place(deltas.skip(1), id, internal_call_id)
    }
}

/// What is known of a tool call that comes in pieces: nothing, where none of its
/// pieces has come in.
pub open spec fn delta_state(
    deltas: Seq<DeltaStateView>,
    id: Seq<char>,
    internal_call_id: Seq<char>,
) -> DeltaStateView {
    let place = delta_place(deltas, id, internal_call_id);
    if place < deltas.len() {
        deltas[place as int]
    } else {
        DeltaStateView { id, internal_call_id, name_validated: false, buffered: Seq::empty() }
    }
}

/// The tool calls that come in pieces, with another state for one of them.
pub open spec fn with_delta_state(
    deltas: Seq<DeltaStateView>,
    state: DeltaStateView,
) -> Seq<DeltaStateView> {
    let place = delta_place(deltas, state.id, state.internal_call_id);
    if place < deltas.len() {
        deltas.update(place as int, state)
    } else {
        deltas.push(state)
    }
}

/// The tool calls that come in pieces, without one of them.
pub open spec fn without_delta_state(
    deltas: Seq<DeltaStateView>,
    id: Seq<char>,
    internal_call_id: Seq<char>,
) -> Seq<DeltaStateView> {
    let place = delta_place(deltas, id, internal_call_id);
    if place < deltas.len() {
        deltas.remove(place as int)
    } else {
        deltas
    }
}

/// Whether arguments wait for a name.
pub open spec fn waits_for_name(state: DeltaStateView) -> bool {
    !state.name_validated && state.buffered.len() > 0
}

/// The first tool call whose arguments wait for a name; the number of calls where
/// there is none.
pub open spec fn first_waiting(deltas: Seq<DeltaStateView>) -> nat
    decreases deltas.len(),
{
    if deltas.len() == 0 || waits_for_name(deltas[0]) {
        0
    } else {
        1 + first_waiting(deltas.skip(1))
    }
}

/// What is said of arguments without a name.
pub open spec fn nameless_text(state: DeltaStateView) -> Seq<char> {
    "streamed tool call arguments received before a validated tool name for id `"@ + state.id
        + "` and internal_call_id `"@ + state.internal_call_id + "` ("@ + decimal(
        state.buffered.len(),
    ) + " buffered argument delta(s))"@
}

/// The error of a stream that leaves arguments without a name.
pub open spec fn nameless_arguments(state: DeltaStateView) -> CompletionErrorView {
    CompletionErrorView::ResponseError(nameless_text(state))
}

/// Arguments without a name, as a defect of the model: a tool call that cannot be read. As
/// it has no name, it goes by its id.
pub open spec fn nameless_call(state: DeltaStateView) -> CompletionErrorView {
    CompletionErrorView::MalformedToolCall { tool: state.id, reason: nameless_text(state) }
}

/// A piece of arguments to be handed on.
pub open spec fn argument_event(
    id: Seq<char>,
    internal_call_id: Seq<char>,
    arguments: Seq<char>,
) -> StreamedTurnEventView {
    StreamedTurnEventView::EmitToolCallDelta {
        id,
        internal_call_id,
        content: ToolCallDeltaContentView::Delta(arguments),
    }
}

/// The error of an item that comes in before it is known what becomes of an invalid
/// call.
pub open spec fn unresolved_call() -> CompletionErrorView {
    CompletionErrorView::ResponseError(
        "streamed turn ingested while an invalid tool call awaits resolution"@,
    )
}

/// The outcome of taking in an item, by view.
pub open spec fn events_outcome(
    result: Result<Vec<StreamedTurnEvent>, CompletionError>,
) -> Result<Seq<StreamedTurnEventView>, CompletionErrorView> {
    match result {
        Ok(events) => Ok(deep(events@)),
        Err(error) => Err(error.deep_view()),
    }
}

/// The id of each call, with the id under which its stream items go out.
pub open spec fn call_id_pairs(pairs: Seq<(ToolCallView, Seq<char>)>) -> Seq<
    (Seq<char>, Seq<char>),
> {
    pairs.map_values(|pair: (ToolCallView, Seq<char>)| (pair.0.id, pair.1))
}

/// The calls of the pairs.
pub open spec fn calls_of_pairs(pairs: Seq<(ToolCallView, Seq<char>)>) -> Seq<ToolCallView> {
    pairs.map_values(|pair: (ToolCallView, Seq<char>)| pair.0)
}

impl AssemblerView {
    /// At the start of a turn.
    pub open spec fn start(executable: Seq<Seq<char>>, allowed: Seq<Seq<char>>) -> Self {
        AssemblerView {
            executable_tool_names: executable,
            allowed_tool_names: allowed,
            text: Seq::empty(),
            saw_text: false,
            reasoning: Seq::empty(),
            delta_text: Seq::empty(),
            delta_id: None,
            calls: Seq::empty(),
            deltas: Seq::empty(),
            pending_invalid: None,
        }
    }

    /// Once the name of a tool call has come in: the name is handed on, and behind
    /// it the arguments that waited for it.
    pub open spec fn naming_events(
        self,
        id: Seq<char>,
        internal_call_id: Seq<char>,
        name: Seq<char>,
    ) -> Seq<StreamedTurnEventView> {
        seq![
            StreamedTurnEventView::EmitToolCallDelta {
                id,
                internal_call_id,
                content: ToolCallDeltaContentView::Name(name),
            },
        ] + delta_state(self.deltas, id, internal_call_id).buffered.map_values(
            |arguments: Seq<char>| argument_event(id, internal_call_id, arguments),
        )
    }

    /// The turn once the name of a tool call has been handed on.
    pub open spec fn after_naming(self, id: Seq<char>, internal_call_id: Seq<char>) -> Self {
        AssemblerView {
            deltas: with_delta_state(
                self.deltas,
                DeltaStateView { id, internal_call_id, name_validated: true, buffered: Seq::empty() },
            ),
            ..self
        }
    }

    /// The error of a turn that leaves arguments without a name, if it does.
    pub open spec fn delta_error(self) -> Option<CompletionErrorView> {
        if first_waiting(self.deltas) < self.deltas.len() {
            Some(nameless_arguments(self.deltas[first_waiting(self.deltas) as int]))
        } else {
            None
        }
    }

    /// The defect of a turn that leaves arguments without a name, if it does.
    pub open spec fn defect(self) -> Option<CompletionErrorView> {
        if first_waiting(self.deltas) < self.deltas.len() {
            Some(nameless_call(self.deltas[first_waiting(self.deltas) as int]))
        } else {
            None
        }
    }

    /// What is to be done with an item.
    pub open spec fn events(self, item: StreamedAssistantContentView) -> Result<
        Seq<StreamedTurnEventView>,
        CompletionErrorView,
    > {
        if self.pending_invalid is Some {
            Err(unresolved_call())
        } else {
            match item {
                StreamedAssistantContentView::ToolCall { .. } => Ok(Seq::empty()),
                StreamedAssistantContentView::ToolCallDelta { id, internal_call_id, content } =>
                    match content {
                        ToolCallDeltaContentView::Name(name) => Ok(
                            self.naming_events(id, internal_call_id, name),
                        ),
                        ToolCallDeltaContentView::Delta(arguments) => Ok(
                            if delta_state(self.deltas, id, internal_call_id).name_validated {
                                seq![argument_event(id, internal_call_id, arguments)]
                            } else {
                                Seq::empty()
                            },
                        ),
                    },
                StreamedAssistantContentView::Final(record) => match self.delta_error() {
                    Some(error) => Err(error),
                    None => Ok(
                        seq![
                            StreamedTurnEventView::Completed {
                                usage: record.usage,
                                finish_reason: record.finish_reason,
                                emit_final: self.saw_text,
                            },
                        ],
                    ),
                },
                _ => Ok(seq![StreamedTurnEventView::EmitIngested]),
            }
        }
    }

    /// The turn once an item is taken in.
    pub open spec fn after_item(self, item: StreamedAssistantContentView) -> Self {
        if self.pending_invalid is Some {
            self
        } else {
            match item {
                StreamedAssistantContentView::Text(text) => AssemblerView {
                    text: if self.saw_text {
                        self.text + text.text
                    } else {
                        text.text
                    },
                    saw_text: true,
                    ..self
                },
                StreamedAssistantContentView::Reasoning(block) => AssemblerView {
                    reasoning: merged_reasoning(self.reasoning, block),
                    ..self
                },
                StreamedAssistantContentView::ReasoningDelta { id, reasoning } => AssemblerView {
                    delta_text: self.delta_text + reasoning,
                    delta_id: match self.delta_id {
                        Some(first) => Some(first),
                        None => Some(id),
                    },
                    ..self
                },
                StreamedAssistantContentView::ToolCall { tool_call, internal_call_id } =>
                    AssemblerView {
                        calls: self.calls.push((tool_call, internal_call_id)),
                        ..self
                    },
                StreamedAssistantContentView::ToolCallDelta { id, internal_call_id, content } =>
                    match content {
                        ToolCallDeltaContentView::Name(_) => self.after_naming(
                            id,
                            internal_call_id,
                        ),
                        ToolCallDeltaContentView::Delta(arguments) => {
                            let state = delta_state(self.deltas, id, internal_call_id);
                            AssemblerView {
                                deltas: if state.name_validated {
                                    self.deltas
                                } else {
                                    with_delta_state(
                                        self.deltas,
                                        DeltaStateView {
                                            buffered: state.buffered.push(arguments),
                                            ..state
                                        },
                                    )
                                },
                                ..self
                            }
                        },
                    },
                StreamedAssistantContentView::Final(_) => if self.delta_error() is Some {
                    self
                } else {
                    AssemblerView { saw_text: false, ..self }
                },
                StreamedAssistantContentView::Unknown(_) => self,
            }
        }
    }

    /// The name of a tool that the item calls although the model was not to call
    /// it.
    pub open spec fn disallowed(self, item: StreamedAssistantContentView) -> bool {
        match item {
            StreamedAssistantContentView::ToolCall { tool_call, .. } =>
                !self.allowed_tool_names.contains(tool_call.function.name),
            StreamedAssistantContentView::ToolCallDelta {
                content: ToolCallDeltaContentView::Name(name),
                ..
            } => !self.allowed_tool_names.contains(name),
            _ => false,
        }
    }

    /// The arguments of a tool call that wait for its name, in one piece.
    pub open spec fn waiting_arguments(
        self,
        id: Seq<char>,
        internal_call_id: Seq<char>,
    ) -> Seq<char> {
        concatenated(delta_state(self.deltas, id, internal_call_id).buffered)
    }

    /// What is told of an item with a tool that the model was not to call.
    pub open spec fn invalid_call(
        self,
        item: StreamedAssistantContentView,
    ) -> StreamedInvalidToolCallView {
        match item {
            StreamedAssistantContentView::ToolCall { tool_call, internal_call_id } =>
                StreamedInvalidToolCallView {
                    tool_call,
                    internal_call_id,
                    args: Some(tool_call.function.arguments),
                    executable_tool_names: self.executable_tool_names,
                    allowed_tool_names: self.allowed_tool_names,
                },
            StreamedAssistantContentView::ToolCallDelta {
                id,
                internal_call_id,
                content: ToolCallDeltaContentView::Name(name),
            } => StreamedInvalidToolCallView {
                tool_call: bare_call(
                    id,
                    ToolFunctionView {
                        name,
                        arguments: parsed_or_null(
                            json_compact(self.waiting_arguments(id, internal_call_id)),
                        ),
                    },
                ),
                internal_call_id,
                args: Some(self.waiting_arguments(id, internal_call_id)),
                executable_tool_names: self.executable_tool_names,
                allowed_tool_names: self.allowed_tool_names,
            },
            _ => arbitrary(),
        }
    }

    /// The turn once an item with a tool that the model was not to call is put
    /// aside.
    pub open spec fn after_invalid(self, item: StreamedAssistantContentView) -> Self {
        AssemblerView {
            pending_invalid: match item {
                StreamedAssistantContentView::ToolCall { tool_call, internal_call_id } => Some(
                    PendingInvalidView::FullCall { tool_call, internal_call_id },
                ),
                StreamedAssistantContentView::ToolCallDelta { id, internal_call_id, .. } => Some(
                    PendingInvalidView::NameDelta { id, internal_call_id },
                ),
                _ => self.pending_invalid,
            },
            ..self
        }
    }

    /// What is to be done with an item where calls of other tools are put aside.
    pub open spec fn checked_events(self, item: StreamedAssistantContentView) -> Result<
        Seq<StreamedTurnEventView>,
        CompletionErrorView,
    > {
        if self.pending_invalid is None && self.disallowed(item) {
            Ok(seq![StreamedTurnEventView::InvalidToolCall(self.invalid_call(item))])
        } else {
            self.events(item)
        }
    }

    /// The turn once an item is taken in where calls of other tools are put aside.
    pub open spec fn after_checked_item(self, item: StreamedAssistantContentView) -> Self {
        if self.pending_invalid is None && self.disallowed(item) {
            self.after_invalid(item)
        } else {
            self.after_item(item)
        }
    }

    /// What is to be done once it is known what becomes of an invalid call.
    pub open spec fn resolution_events(self, resolution: StreamedResolutionView) -> Seq<
        StreamedTurnEventView,
    > {
        match (self.pending_invalid, resolution) {
            (
                Some(PendingInvalidView::NameDelta { id, internal_call_id }),
                StreamedResolutionView::Repaired { tool_name },
            ) => self.naming_events(id, internal_call_id, tool_name),
            _ => Seq::empty(),
        }
    }

    /// The turn once it is known what becomes of an invalid call. A repaired call
    /// goes on under its new name; nothing is kept of a name whose turn is given
    /// up.
    pub open spec fn after_resolution(self, resolution: StreamedResolutionView) -> Self {
        let settled = AssemblerView { pending_invalid: None, ..self };
        match (self.pending_invalid, resolution) {
            (
                Some(PendingInvalidView::FullCall { tool_call, internal_call_id }),
                StreamedResolutionView::Repaired { tool_name },
            ) => AssemblerView {
                calls: self.calls.push(
                    (
                        ToolCallView {
                            function: ToolFunctionView { name: tool_name, ..tool_call.function },
                            ..tool_call
                        },
                        internal_call_id,
                    ),
                ),
                ..settled
            },
            (
                Some(PendingInvalidView::NameDelta { id, internal_call_id }),
                StreamedResolutionView::Repaired { tool_name },
            ) => settled.after_naming(id, internal_call_id),
            (
                Some(PendingInvalidView::NameDelta { id, internal_call_id }),
                StreamedResolutionView::TurnAbandoned { .. },
            ) => AssemblerView {
                deltas: without_delta_state(self.deltas, id, internal_call_id),
                ..settled
            },
            _ => settled,
        }
    }

    /// The reasoning so far. Pieces count only where no complete block came in.
    pub open spec fn all_reasoning(self) -> Seq<ReasoningView> {
        if self.reasoning.len() == 0 && self.delta_text.len() > 0 {
            seq![unsigned_reasoning(self.delta_text, self.delta_id)]
        } else {
            self.reasoning
        }
    }

    /// What goes into the history for a turn of which the provider says that it is
    /// `choice`.
    pub open spec fn canonical_choice(
        self,
        choice: Seq<AssistantContentView>,
    ) -> Seq<AssistantContentView> {
        if self.calls.len() > 0 || self.all_reasoning().len() > 0 {
            in_replay_order(
                self.all_reasoning(),
                kept_texts(choice),
                call_parts(calls_of_pairs(self.calls)),
            )
        } else {
            choice
        }
    }

    /// The turn as far as it has come.
    pub open spec fn partial(self, message_id: Option<Seq<char>>) -> PartialStreamedTurnView {
        PartialStreamedTurnView {
            message_id,
            text: if self.saw_text {
                Some(self.text)
            } else {
                None
            },
            reasoning: self.all_reasoning(),
            pending_tool_calls: calls_of_pairs(self.calls),
        }
    }

    /// The turn, put together.
    pub open spec fn finished(
        self,
        message_id: Option<Seq<char>>,
        choice: Seq<AssistantContentView>,
    ) -> StreamedTurnView {
        StreamedTurnView {
            message_id,
            choice: self.canonical_choice(choice),
            executable_tool_names: self.executable_tool_names,
            allowed_tool_names: self.allowed_tool_names,
            internal_call_ids: call_id_pairs(self.calls),
        }
    }
}

/// A tool call of which only the name is known, and what came in of its arguments.
pub fn name_delta_diagnostic_tool_call(id: &String, name: &String, arguments: Json) -> (call: ToolCall)
    ensures
        call.deep_view() == bare_call(
            id@,
            ToolFunctionView { name: name@, arguments: arguments.deep_view() },
        ),
{
    ToolCall::new(id.clone(), ToolFunction::new(name.clone(), arguments))
}

impl StreamedTurnAssembler {
    /// At the start of a turn for which the given tools were offered.
    pub fn new(executable_tool_names: ToolNames, allowed_tool_names: ToolNames) -> (assembler: Self)
        ensures
            assembler.deep_view() == AssemblerView::start(
                executable_tool_names.deep_view(),
                allowed_tool_names.deep_view(),
            ),
    {
        StreamedTurnAssembler {
            executable_tool_names,
            allowed_tool_names,
            text: String::new(),
            saw_text: false,
            accumulated_reasoning: Vec::new(),
            pending_reasoning_delta_text: String::new(),
            pending_reasoning_delta_id: None,
            pending_tool_calls: Vec::new(),
            delta_states: Vec::new(),
            pending_invalid: None,
        }
    }

    /// The text so far.
    pub fn aggregated_text(&self) -> (text: &str)
        ensures
            text@ == self.deep_view().text,
    {
        self.text.as_str()
    }

    /// The place of a tool call among those that come in pieces.
    fn find_delta(&self, id: &String, internal_call_id: &String) -> (place: usize)
        ensures
            place == delta_place(deep(self.delta_states@), id@, internal_call_id@),
            place <= self.delta_states@.len(),
            place < self.delta_states@.len() ==> self.delta_states@[place as int].id@ == id@
                && self.delta_states@[place as int].internal_call_id@ == internal_call_id@,
    {
        let ghost all = deep(self.delta_states@);
        let mut i: usize = 0;
        assert(all.skip(0) =~= all);
        while i < self.delta_states.len()
            invariant
                i <= self.delta_states@.len(),
                all == deep(self.delta_states@),
                delta_place(all, id@, internal_call_id@) == i + delta_place(
                    all.skip(i as int),
                    id@,
                    internal_call_id@,
                ),
            decreases self.delta_states@.len() - i,
        {
            assert(all.skip(i as int)[0] == self.delta_states@[i as int].deep_view());
            assert(all.skip(i as int).skip(1) =~= all.skip(i + 1));
            if self.delta_states[i].id == *id && self.delta_states[i].internal_call_id
                == *internal_call_id {
                return i;
            }
            i = i + 1;
        }
        i
    }

    /// Notes that a name has come in, and gives out what waited for it.
    fn validate_delta_name(
        &mut self,
        id: &String,
        internal_call_id: &String,
        name: String,
    ) -> (events: Vec<StreamedTurnEvent>)
        ensures
            final(self).deep_view() == old(self).deep_view().after_naming(id@, internal_call_id@),
            deep(events@) == old(self).deep_view().naming_events(id@, internal_call_id@, name@),
    {
        let ghost before = deep(self.delta_states@);
        let place = self.find_delta(id, internal_call_id);
        let mut buffered: Vec<String> = Vec::new();
        let mut named = ToolCallDeltaState {
            id: id.clone(),
            internal_call_id: internal_call_id.clone(),
            name_validated: true,
            buffered_arguments: Vec::new(),
        };
        let ghost state = named.deep_view();
        assert(state.buffered =~= Seq::empty());
        if place < self.delta_states.len() {
            let mut was = self.delta_states.remove(place);
            std::mem::swap(&mut buffered, &mut was.buffered_arguments);
            self.delta_states.insert(place, named);
            assert(deep(self.delta_states@) =~= before.update(place as int, state));
        } else {
            self.delta_states.push(named);
        }
        let ghost waiting = deep(buffered@);
        assert(waiting =~= delta_state(before, id@, internal_call_id@).buffered);
        let mut events: Vec<StreamedTurnEvent> = Vec::new();
        events.push(
            StreamedTurnEvent::EmitToolCallDelta {
                id: id.clone(),
                internal_call_id: internal_call_id.clone(),
                content: ToolCallDeltaContent::Name(name),
            },
        );
        let ghost first = events@[0].deep_view();
        let mut i: usize = 0;
        while i < buffered.len()
            invariant
                i <= buffered@.len(),
                events@.len() == i + 1,
                waiting == deep(buffered@),
                events@[0].deep_view() == first,
                forall|k: int|
                    0 <= k < i ==> (#[trigger] events@[k + 1]).deep_view() == argument_event(
                        id@,
                        internal_call_id@,
                        waiting[k],
                    ),
            decreases buffered@.len() - i,
        {
            let ghost so_far = events@;
            events.push(
                StreamedTurnEvent::EmitToolCallDelta {
                    id: id.clone(),
                    internal_call_id: internal_call_id.clone(),
                    content: ToolCallDeltaContent::Delta(buffered[i].clone()),
                },
            );
            assert forall|k: int| 0 <= k < i + 1 implies (#[trigger] events@[k + 1]).deep_view()
                == argument_event(id@, internal_call_id@, waiting[k]) by {
                if k < i {
                    assert(events@[k + 1] == so_far[k + 1]);
                }
            }
            i = i + 1;
        }
        assert(deep(events@) =~= old(self).deep_view().naming_events(
            id@,
            internal_call_id@,
            name@,
        )) by {
            let wanted = old(self).deep_view().naming_events(id@, internal_call_id@, name@);
            assert forall|k: int| 0 <= k < wanted.len() implies deep(events@)[k] == wanted[k] by {
                if k > 0 {
                    assert(events@[(k - 1) + 1].deep_view() == argument_event(
                        id@,
                        internal_call_id@,
                        waiting[k - 1],
                    ));
                }
            }
        }
        events
    }

    /// Takes in a piece of arguments: true where it can be handed on at once, false
    /// where it waits for the name.
    fn take_arguments(
        &mut self,
        id: &String,
        internal_call_id: &String,
        arguments: &String,
    ) -> (handed_on: bool)
        ensures
            ({
                let state = delta_state(old(self).deep_view().deltas, id@, internal_call_id@);
                &&& handed_on == state.name_validated
                &&& final(self).deep_view() == (AssemblerView {
                    deltas: if state.name_validated {
                        old(self).deep_view().deltas
                    } else {
                        with_delta_state(
                            old(self).deep_view().deltas,
                            DeltaStateView { buffered: state.buffered.push(arguments@), ..state },
                        )
                    },
                    ..old(self).deep_view()
                })
            }),
    {
        let ghost before = deep(self.delta_states@);
        let place = self.find_delta(id, internal_call_id);
        if place < self.delta_states.len() {
            if self.delta_states[place].name_validated {
                return true;
            }
            let mut state = self.delta_states.remove(place);
            state.buffered_arguments.push(arguments.clone());
            let ghost now = state.deep_view();
            self.delta_states.insert(place, state);
            assert(deep(self.delta_states@) =~= before.update(place as int, now));
        } else {
            let mut buffered_arguments: Vec<String> = Vec::new();
            buffered_arguments.push(arguments.clone());
            self.delta_states.push(
                ToolCallDeltaState {
                    id: id.clone(),
                    internal_call_id: internal_call_id.clone(),
                    name_validated: false,
                    buffered_arguments,
                },
            );
        }
        false
    }

    /// The id of the first call whose arguments wait for a name, where there is one, and
    /// what is said of it.
    fn nameless(&self) -> (found: Option<(String, String)>)
        ensures
            ({
                let all = self.deep_view().deltas;
                let first = first_waiting(all);
                match found {
                    Some(said) => {
                        &&& first < all.len()
                        &&& said.0@ == all[first as int].id
                        &&& said.1@ == nameless_text(all[first as int])
                    },
                    None => first >= all.len(),
                }
            }),
    {
        let ghost all = deep(self.delta_states@);
        let mut i: usize = 0;
        assert(all.skip(0) =~= all);
        while i < self.delta_states.len()
            invariant
                i <= self.delta_states@.len(),
                all == deep(self.delta_states@),
                all == self.deep_view().deltas,
                first_waiting(all) == i + first_waiting(all.skip(i as int)),
            decreases self.delta_states@.len() - i,
        {
            let state = &self.delta_states[i];
            assert(all.skip(i as int)[0] == state.deep_view());
            assert(all.skip(i as int).skip(1) =~= all.skip(i + 1));
            if !state.name_validated && state.buffered_arguments.len() > 0 {
                let mut message = "streamed tool call arguments received before a validated tool name for id `".to_owned();
                message.append(state.id.as_str());
                message.append("` and internal_call_id `");
                message.append(state.internal_call_id.as_str());
                message.append("` (");
                message.append(spell(state.buffered_arguments.len()).as_str());
                message.append(" buffered argument delta(s))");
                return Some((state.id.clone(), message));
            }
            i = i + 1;
        }
        None
    }

    /// The error of a turn that leaves arguments without a name, if it does.
    pub fn pending_delta_error(&self) -> (error: Option<CompletionError>)
        ensures
            error.deep_view() == self.deep_view().delta_error(),
    {
        match self.nameless() {
            Some((_, message)) => Some(CompletionError::ResponseError(message)),
            None => None,
        }
    }

    /// The defect of a turn that leaves arguments without a name, if it does.
    pub fn pending_defect(&self) -> (defect: Option<CompletionError>)
        ensures
            defect.deep_view() == self.deep_view().defect(),
    {
        match self.nameless() {
            Some((tool, reason)) => Some(CompletionError::MalformedToolCall { tool, reason }),
            None => None,
        }
    }

    /// Takes in an item of the stream. Tool calls are taken in whatever they call.
    pub fn ingest(&mut self, item: &StreamedAssistantContent) -> (result: Result<
        Vec<StreamedTurnEvent>,
        CompletionError,
    >)
        ensures
            final(self).deep_view() == old(self).deep_view().after_item(item.deep_view()),
            events_outcome(result) == old(self).deep_view().events(item.deep_view()),
    {
        if self.pending_invalid.is_some() {
            return Err(
                CompletionError::ResponseError(
                    "streamed turn ingested while an invalid tool call awaits resolution".to_owned(),
                ),
            );
        }
        let mut events: Vec<StreamedTurnEvent> = Vec::new();
        match item {
            StreamedAssistantContent::Text(text) => {
                if !self.saw_text {
                    self.text = String::new();
                    self.saw_text = true;
                }
                self.text.append(text.text.as_str());
                assert(self.text@ =~= old(self).deep_view().after_item(item.deep_view()).text);
                events.push(StreamedTurnEvent::EmitIngested);
            },
            StreamedAssistantContent::Reasoning(reasoning) => {
                merge_reasoning_blocks(&mut self.accumulated_reasoning, reasoning);
                events.push(StreamedTurnEvent::EmitIngested);
            },
            StreamedAssistantContent::ReasoningDelta { reasoning, id } => {
                self.pending_reasoning_delta_text.append(reasoning.as_str());
                if self.pending_reasoning_delta_id.is_none() {
                    self.pending_reasoning_delta_id = Some(id.clone());
                }
                events.push(StreamedTurnEvent::EmitIngested);
            },
            StreamedAssistantContent::ToolCall { tool_call, internal_call_id } => {
                self.pending_tool_calls.push((tool_call.clone(), internal_call_id.clone()));
            },
            StreamedAssistantContent::ToolCallDelta { id, internal_call_id, content } => {
                match content {
                    ToolCallDeltaContent::Name(name) => {
                        return Ok(self.validate_delta_name(id, internal_call_id, name.clone()));
                    },
                    ToolCallDeltaContent::Delta(arguments) => {
                        if self.take_arguments(id, internal_call_id, arguments) {
                            events.push(
                                StreamedTurnEvent::EmitToolCallDelta {
                                    id: id.clone(),
                                    internal_call_id: internal_call_id.clone(),
                                    content: ToolCallDeltaContent::Delta(arguments.clone()),
                                },
                            );
                        }
                    },
                }
            },
            StreamedAssistantContent::Final(record) => {
                if let Some(error) = self.pending_delta_error() {
                    return Err(error);
                }
                let emit_final = self.saw_text;
                self.saw_text = false;
                events.push(
                    StreamedTurnEvent::Completed {
                        usage: record.usage,
                        finish_reason: record.finish_reason.clone(),
                        emit_final,
                    },
                );
            },
            StreamedAssistantContent::Unknown(_) => {
                events.push(StreamedTurnEvent::EmitIngested);
            },
        }
        assert(Ok::<Seq<StreamedTurnEventView>, CompletionErrorView>(deep(events@)) == old(
            self,
        ).deep_view().events(item.deep_view())) by {
            if let Ok(wanted) = old(self).deep_view().events(item.deep_view()) {
                assert(deep(events@) =~= wanted);
            }
        }
        Ok(events)
    }

    /// The arguments of a tool call that wait for its name, in one piece.
    fn waiting_arguments(&self, id: &String, internal_call_id: &String) -> (arguments: String)
        ensures
            arguments@ == self.deep_view().waiting_arguments(id@, internal_call_id@),
    {
        let place = self.find_delta(id, internal_call_id);
        if place < self.delta_states.len() {
            concatenate(&self.delta_states[place].buffered_arguments)
        } else {
            String::new()
        }
    }

    /// Takes in an item of the stream. A call of a tool that the model was not to
    /// call is put aside and reported; nothing more is taken in until it is known
    /// what becomes of it.
    pub fn ingest_checked(&mut self, item: &StreamedAssistantContent) -> (result: Result<
        Vec<StreamedTurnEvent>,
        CompletionError,
    >)
        ensures
            final(self).deep_view() == old(self).deep_view().after_checked_item(item.deep_view()),
            events_outcome(result) == old(self).deep_view().checked_events(item.deep_view()),
    {
        if self.pending_invalid.is_some() {
            return self.ingest(item);
        }
        let invalid = match item {
            StreamedAssistantContent::ToolCall { tool_call, internal_call_id } => {
                if self.allowed_tool_names.contains(&tool_call.function.name) {
                    return self.ingest(item);
                }
                self.pending_invalid = Some(
                    PendingInvalid::FullCall {
                        tool_call: tool_call.clone(),
                        internal_call_id: internal_call_id.clone(),
                    },
                );
                StreamedInvalidToolCall {
                    tool_call: tool_call.clone(),
                    internal_call_id: internal_call_id.clone(),
                    args: Some(tool_call.function.arguments.as_text().to_owned()),
                    executable_tool_names: self.executable_tool_names.clone(),
                    allowed_tool_names: self.allowed_tool_names.clone(),
                }
            },
            StreamedAssistantContent::ToolCallDelta {
                id,
                internal_call_id,
                content: ToolCallDeltaContent::Name(name),
            } => {
                if self.allowed_tool_names.contains(name) {
                    return self.ingest(item);
                }
                let arguments = self.waiting_arguments(id, internal_call_id);
                self.pending_invalid = Some(
                    PendingInvalid::NameDelta {
                        id: id.clone(),
                        internal_call_id: internal_call_id.clone(),
                    },
                );
                StreamedInvalidToolCall {
                    tool_call: name_delta_diagnostic_tool_call(
                        id,
                        name,
                        Json::parse_or_null(arguments.as_str()),
                    ),
                    internal_call_id: internal_call_id.clone(),
                    args: Some(arguments),
                    executable_tool_names: self.executable_tool_names.clone(),
                    allowed_tool_names: self.allowed_tool_names.clone(),
                }
            },
            _ => {
                return self.ingest(item);
            },
        };
        let mut events: Vec<StreamedTurnEvent> = Vec::new();
        events.push(StreamedTurnEvent::InvalidToolCall(Box::new(invalid)));
        assert(deep(events@) =~= seq![
            StreamedTurnEventView::InvalidToolCall(
                old(self).deep_view().invalid_call(item.deep_view()),
            ),
        ]);
        Ok(events)
    }

    /// Says what becomes of the call that was put aside, and gives out what is to
    /// be handed on. Does nothing where no call was put aside.
    pub fn resolve_pending_invalid(&mut self, resolution: &StreamedResolution) -> (events: Vec<
        StreamedTurnEvent,
    >)
        ensures
            final(self).deep_view() == old(self).deep_view().after_resolution(
                resolution.deep_view(),
            ),
            deep(events@) == old(self).deep_view().resolution_events(resolution.deep_view()),
    {
        match self.pending_invalid.take() {
            None => Vec::new(),
            Some(PendingInvalid::FullCall { tool_call, internal_call_id }) => {
                if let StreamedResolution::Repaired { tool_name } = resolution {
                    let mut tool_call = tool_call;
                    tool_call.function.name = tool_name.clone();
                    self.pending_tool_calls.push((tool_call, internal_call_id));
                }
                Vec::new()
            },
            Some(PendingInvalid::NameDelta { id, internal_call_id }) => match resolution {
                StreamedResolution::Repaired { tool_name } => self.validate_delta_name(
                    &id,
                    &internal_call_id,
                    tool_name.clone(),
                ),
                StreamedResolution::TurnAbandoned { .. } => {
                    let ghost before = deep(self.delta_states@);
                    let place = self.find_delta(&id, &internal_call_id);
                    if place < self.delta_states.len() {
                        let _ = self.delta_states.remove(place);
                        assert(deep(self.delta_states@) =~= before.remove(place as int));
                    }
                    Vec::new()
                },
            },
        }
    }

    /// The reasoning so far.
    fn all_reasoning(&self) -> (blocks: Vec<Reasoning>)
        ensures
            deep(blocks@) == self.deep_view().all_reasoning(),
    {
        let mut blocks = self.accumulated_reasoning.clone();
        assert(deep(blocks@) =~= deep(self.accumulated_reasoning@));
        if blocks.len() == 0 && !self.pending_reasoning_delta_text.as_str().is_empty() {
            let mut assembled = Reasoning::new(self.pending_reasoning_delta_text.as_str());
            if let Some(id) = &self.pending_reasoning_delta_id {
                assembled = assembled.with_id(id.clone());
            }
            blocks.push(assembled);
            assert(deep(blocks@) =~= seq![assembled.deep_view()]);
        }
        blocks
    }

    /// The tool calls so far.
    fn all_calls(&self) -> (calls: Vec<ToolCall>)
        ensures
            deep(calls@) == calls_of_pairs(self.deep_view().calls),
    {
        let mut calls: Vec<ToolCall> = Vec::new();
        let mut i: usize = 0;
        while i < self.pending_tool_calls.len()
            invariant
                i <= self.pending_tool_calls@.len(),
                calls@.len() == i,
                forall|k: int|
                    0 <= k < i ==> (#[trigger] calls@[k]).deep_view()
                        == self.pending_tool_calls@[k].0.deep_view(),
            decreases self.pending_tool_calls@.len() - i,
        {
            calls.push(self.pending_tool_calls[i].0.clone());
            i = i + 1;
        }
        assert(deep(calls@) =~= calls_of_pairs(self.deep_view().calls));
        calls
    }

    /// What goes into the history for a turn of which the provider says that it is
    /// `provider_choice`.
    fn canonical_choice(&self, provider_choice: &OneOrMany<AssistantContent>) -> (choice: OneOrMany<
        AssistantContent,
    >)
        ensures
            choice.deep_view() == self.deep_view().canonical_choice(provider_choice.deep_view()),
    {
        let reasoning = self.all_reasoning();
        if self.pending_tool_calls.len() > 0 || reasoning.len() > 0 {
            let text_items = assistant_text_items_from_choice(provider_choice);
            let calls = self.all_calls();
            let mut tool_items: Vec<AssistantContent> = Vec::new();
            let mut i: usize = 0;
            while i < calls.len()
                invariant
                    i <= calls@.len(),
                    tool_items@.len() == i,
                    forall|k: int|
                        0 <= k < i ==> (#[trigger] tool_items@[k]).deep_view()
                            == AssistantContentView::ToolCall(calls@[k].deep_view()),
                decreases calls@.len() - i,
            {
                tool_items.push(AssistantContent::ToolCall(calls[i].clone()));
                i = i + 1;
            }
            assert(deep(tool_items@) =~= call_parts(deep(calls@)));
            if let Some(choice) = ordered_streaming_assistant_content(
                reasoning,
                text_items,
                tool_items,
            ) {
                return choice;
            }
        }
        let choice = provider_choice.clone();
        assert(choice.deep_view() =~= provider_choice.deep_view());
        choice
    }

    /// The turn as far as it has come.
    pub fn partial_turn(&self, message_id: Option<String>) -> (turn: PartialStreamedTurn)
        ensures
            turn.deep_view() == self.deep_view().partial(message_id.deep_view()),
    {
        let text = if self.saw_text {
            Some(self.text.clone())
        } else {
            None
        };
        PartialStreamedTurn {
            message_id,
            text,
            reasoning: self.all_reasoning(),
            pending_tool_calls: self.all_calls(),
        }
    }

    /// Puts the turn together; `final_choice` is the turn as the provider has it.
    pub fn finish(
        self,
        message_id: Option<String>,
        final_choice: &OneOrMany<AssistantContent>,
    ) -> (turn: StreamedTurn)
        ensures
            turn.deep_view() == self.deep_view().finished(
                message_id.deep_view(),
                final_choice.deep_view(),
            ),
    {
        let choice = self.canonical_choice(final_choice);
        let mut internal_call_ids: Vec<(String, String)> = Vec::new();
        let mut i: usize = 0;
        while i < self.pending_tool_calls.len()
            invariant
                i <= self.pending_tool_calls@.len(),
                internal_call_ids@.len() == i,
                forall|k: int|
                    0 <= k < i ==> (#[trigger] internal_call_ids@[k]).deep_view() == (
                        self.pending_tool_calls@[k].0.id@,
                        self.pending_tool_calls@[k].1@,
                    ),
            decreases self.pending_tool_calls@.len() - i,
        {
            internal_call_ids.push(
                (
                    self.pending_tool_calls[i].0.id.clone(),
                    self.pending_tool_calls[i].1.clone(),
                ),
            );
            i = i + 1;
        }
        assert(deep(internal_call_ids@) =~= call_id_pairs(self.deep_view().calls));
        StreamedTurn {
            message_id,
            choice,
            executable_tool_names: self.executable_tool_names,
            allowed_tool_names: self.allowed_tool_names,
            internal_call_ids,
        }
    }
}

} // verus!
