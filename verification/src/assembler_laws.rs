//! What holds of every streamed turn.

use vstd::prelude::*;
use crate::assembler::{
    argument_event, call_id_pairs, calls_of_pairs, delta_place, delta_state, first_waiting,
    waits_for_name, with_delta_state, without_delta_state, AssemblerView, DeltaStateView, PendingInvalidView,
    StreamedResolutionView, StreamedTurnEventView,
};
use crate::message::{
    calls_in, AssistantContentView, ReasoningView, ToolCallView, ToolResultView,
};
use crate::streamed::{
    call_parts, in_replay_order, kept_texts, last_with_id, merged_reasoning,
    PartialStreamedTurnView,
};
use crate::streaming::{StreamFinalView, StreamedAssistantContentView, ToolCallDeltaContentView};
use crate::turn::first_paired_with;

verus! {

/// The state of the last call is what was set, and that of every other call is as
/// before.
proof fn lemma_delta_state_after(
    deltas: Seq<DeltaStateView>,
    state: DeltaStateView,
    id: Seq<char>,
    internal_call_id: Seq<char>,
)
    ensures
        delta_state(with_delta_state(deltas, state), id, internal_call_id) == (if state.id == id
            && state.internal_call_id == internal_call_id {
            state
        } else {
            delta_state(deltas, id, internal_call_id)
        }),
    decreases deltas.len(),
{
    let after = with_delta_state(deltas, state);
    let first = deltas[0];
    if deltas.len() == 0 {
        assert(after =~= seq![state]);
        assert(after.skip(1) =~= Seq::empty());
    } else if first.id == state.id && first.internal_call_id == state.internal_call_id {
        assert(after =~= deltas.update(0, state));
        assert(after.skip(1) =~= deltas.skip(1));
        if !(state.id == id && state.internal_call_id == internal_call_id) {
            let place = delta_place(deltas.skip(1), id, internal_call_id);
            assert(delta_place(after, id, internal_call_id) == 1 + place);
            assert(delta_place(deltas, id, internal_call_id) == 1 + place);
        }
    } else {
        let rest = deltas.skip(1);
        lemma_delta_state_after(rest, state, id, internal_call_id);
        let after_rest = with_delta_state(rest, state);
        assert(after[0] == first);
        assert(after.skip(1) =~= after_rest);
        let place = delta_place(rest, id, internal_call_id);
        let place_after = delta_place(after_rest, id, internal_call_id);
        if first.id == id && first.internal_call_id == internal_call_id {
            assert(delta_place(after, id, internal_call_id) == 0);
        } else {
            assert(delta_place(after, id, internal_call_id) == 1 + place_after);
            assert(delta_place(deltas, id, internal_call_id) == 1 + place);
            if place_after < after_rest.len() {
                assert(after_rest[place_after as int] == after[1 + place_after as int]);
            }
            if place < rest.len() {
                assert(rest[place as int] == deltas[1 + place as int]);
            }
        }
    }
}

/// The piece of arguments of the given call that an item brings.
pub open spec fn arguments_brought(
    item: StreamedAssistantContentView,
    id: Seq<char>,
    internal_call_id: Seq<char>,
) -> Seq<Seq<char>> {
    match item {
        StreamedAssistantContentView::ToolCallDelta {
            id: its_id,
            internal_call_id: its_internal_id,
            content: ToolCallDeltaContentView::Delta(arguments),
        } => if its_id == id && its_internal_id == internal_call_id {
            seq![arguments]
        } else {
            Seq::empty()
        },
        _ => Seq::empty(),
    }
}

/// The pieces of arguments of the given call that a sequence of items brings.
pub open spec fn all_arguments_brought(
    items: Seq<StreamedAssistantContentView>,
    id: Seq<char>,
    internal_call_id: Seq<char>,
) -> Seq<Seq<char>>
    decreases items.len(),
{
    if items.len() == 0 {
        Seq::empty()
    } else {
        all_arguments_brought(items.drop_last(), id, internal_call_id) + arguments_brought(
            items.last(),
            id,
            internal_call_id,
        )
    }
}

/// The pieces of arguments of the given call among events.
pub open spec fn arguments_handed_on(
    events: Seq<StreamedTurnEventView>,
    id: Seq<char>,
    internal_call_id: Seq<char>,
) -> Seq<Seq<char>>
    decreases events.len(),
{
    if events.len() == 0 {
        Seq::empty()
    } else {
        let before = arguments_handed_on(events.drop_last(), id, internal_call_id);
        match events.last() {
            StreamedTurnEventView::EmitToolCallDelta {
                id: its_id,
                internal_call_id: its_internal_id,
                content: ToolCallDeltaContentView::Delta(arguments),
            } => if its_id == id && its_internal_id == internal_call_id {
                before.push(arguments)
            } else {
                before
            },
            _ => before,
        }
    }
}

/// The pieces of arguments of the given call that taking in an item hands on.
pub open spec fn arguments_out(
    turn: AssemblerView,
    item: StreamedAssistantContentView,
    id: Seq<char>,
    internal_call_id: Seq<char>,
) -> Seq<Seq<char>> {
    match turn.events(item) {
        Ok(events) => arguments_handed_on(events, id, internal_call_id),
        Err(_) => Seq::empty(),
    }
}

/// The turn once all items are taken in.
pub open spec fn after_items(turn: AssemblerView, items: Seq<StreamedAssistantContentView>) -> AssemblerView
    decreases items.len(),
{
    if items.len() == 0 {
        turn
    } else {
        after_items(turn, items.drop_last()).after_item(items.last())
    }
}

/// The pieces of arguments of the given call that taking in all items hands on.
pub open spec fn all_arguments_out(
    turn: AssemblerView,
    items: Seq<StreamedAssistantContentView>,
    id: Seq<char>,
    internal_call_id: Seq<char>,
) -> Seq<Seq<char>>
    decreases items.len(),
{
    if items.len() == 0 {
        Seq::empty()
    } else {
        all_arguments_out(turn, items.drop_last(), id, internal_call_id) + arguments_out(
            after_items(turn, items.drop_last()),
            items.last(),
            id,
            internal_call_id,
        )
    }
}

proof fn lemma_handed_on_by_one_event(
    event: StreamedTurnEventView,
    id: Seq<char>,
    internal_call_id: Seq<char>,
)
    ensures
        arguments_handed_on(seq![event], id, internal_call_id) == (match event {
            StreamedTurnEventView::EmitToolCallDelta {
                id: its_id,
                internal_call_id: its_internal_id,
                content: ToolCallDeltaContentView::Delta(arguments),
            } => if its_id == id && its_internal_id == internal_call_id {
                seq![arguments]
            } else {
                Seq::empty()
            },
            _ => Seq::empty(),
        }),
{
    let events = seq![event];
    assert(events.drop_last() =~= Seq::empty());
    let before = arguments_handed_on(events.drop_last(), id, internal_call_id);
    assert(before =~= Seq::empty());
    if let StreamedTurnEventView::EmitToolCallDelta {
        content: ToolCallDeltaContentView::Delta(arguments),
        ..
    } = event {
        assert(before.push(arguments) =~= seq![arguments]);
    }
}

proof fn lemma_replayed_arguments(
    id: Seq<char>,
    internal_call_id: Seq<char>,
    name: Seq<char>,
    buffered: Seq<Seq<char>>,
    other_id: Seq<char>,
    other_internal_id: Seq<char>,
)
    ensures
        ({
            let events = seq![
                StreamedTurnEventView::EmitToolCallDelta {
                    id,
                    internal_call_id,
                    content: ToolCallDeltaContentView::Name(name),
                },
            ] + buffered.map_values(
                |arguments: Seq<char>| argument_event(id, internal_call_id, arguments),
            );
            arguments_handed_on(events, other_id, other_internal_id) == (if id == other_id
                && internal_call_id == other_internal_id {
                buffered
            } else {
                Seq::empty()
            })
        }),
    decreases buffered.len(),
{
    let named = StreamedTurnEventView::EmitToolCallDelta {
        id,
        internal_call_id,
        content: ToolCallDeltaContentView::Name(name),
    };
    let replayed = buffered.map_values(
        |arguments: Seq<char>| argument_event(id, internal_call_id, arguments),
    );
    let events = seq![named] + replayed;
    if buffered.len() == 0 {
        assert(events =~= seq![named]);
        lemma_handed_on_by_one_event(named, other_id, other_internal_id);
        assert(buffered =~= Seq::empty());
    } else {
        let earlier = buffered.drop_last();
        lemma_replayed_arguments(
            id,
            internal_call_id,
            name,
            earlier,
            other_id,
            other_internal_id,
        );
        assert(events.drop_last() =~= seq![named] + earlier.map_values(
            |arguments: Seq<char>| argument_event(id, internal_call_id, arguments),
        ));
        assert(events.last() == argument_event(id, internal_call_id, buffered.last()));
        assert(earlier.push(buffered.last()) =~= buffered);
    }
}

proof fn lemma_arguments_of_one_item(
    turn: AssemblerView,
    item: StreamedAssistantContentView,
    id: Seq<char>,
    internal_call_id: Seq<char>,
)
    requires
        turn.pending_invalid is None,
        delta_state(turn.deltas, id, internal_call_id).name_validated ==> delta_state(
            turn.deltas,
            id,
            internal_call_id,
        ).buffered.len() == 0,
    ensures
        turn.after_item(item).pending_invalid is None,
        ({
            let before = delta_state(turn.deltas, id, internal_call_id);
            let after = delta_state(turn.after_item(item).deltas, id, internal_call_id);
            &&& after.name_validated ==> after.buffered.len() == 0
            &&& arguments_out(turn, item, id, internal_call_id) + after.buffered
                == before.buffered + arguments_brought(item, id, internal_call_id)
        }),
{
    let before = delta_state(turn.deltas, id, internal_call_id);
    let after = delta_state(turn.after_item(item).deltas, id, internal_call_id);
    let out = arguments_out(turn, item, id, internal_call_id);
    match item {
        StreamedAssistantContentView::ToolCallDelta {
            id: its_id,
            internal_call_id: its_internal_id,
            content,
        } => {
            let state = delta_state(turn.deltas, its_id, its_internal_id);
            match content {
                ToolCallDeltaContentView::Name(name) => {
                    lemma_replayed_arguments(
                        its_id,
                        its_internal_id,
                        name,
                        state.buffered,
                        id,
                        internal_call_id,
                    );
                    lemma_delta_state_after(
                        turn.deltas,
                        DeltaStateView {
                            id: its_id,
                            internal_call_id: its_internal_id,
                            name_validated: true,
                            buffered: Seq::empty(),
                        },
                        id,
                        internal_call_id,
                    );
                },
                ToolCallDeltaContentView::Delta(arguments) => {
                    lemma_delta_state_key(turn.deltas, its_id, its_internal_id);
                    if state.name_validated {
                        lemma_handed_on_by_one_event(
                            argument_event(its_id, its_internal_id, arguments),
                            id,
                            internal_call_id,
                        );
                    } else {
                        lemma_delta_state_after(
                            turn.deltas,
                            DeltaStateView { buffered: state.buffered.push(arguments), ..state },
                            id,
                            internal_call_id,
                        );
                    }
                },
            }
        },
        StreamedAssistantContentView::Final(record) => {
            if let Ok(events) = turn.events(item) {
                lemma_handed_on_by_one_event(events[0], id, internal_call_id);
                assert(events =~= seq![events[0]]);
            }
        },
        StreamedAssistantContentView::ToolCall { .. } => {},
        _ => {
            lemma_handed_on_by_one_event(
                StreamedTurnEventView::EmitIngested,
                id,
                internal_call_id,
            );
        },
    }
    assert(out + after.buffered =~= before.buffered + arguments_brought(
        item,
        id,
        internal_call_id,
    ));
}

proof fn lemma_delta_state_key(
    deltas: Seq<DeltaStateView>,
    id: Seq<char>,
    internal_call_id: Seq<char>,
)
    ensures
        delta_state(deltas, id, internal_call_id).id == id,
        delta_state(deltas, id, internal_call_id).internal_call_id == internal_call_id,
    decreases deltas.len(),
{
    if deltas.len() > 0 && !(deltas[0].id == id && deltas[0].internal_call_id
        == internal_call_id) {
        let rest = deltas.skip(1);
        lemma_delta_state_key(rest, id, internal_call_id);
        let place = delta_place(rest, id, internal_call_id);
        if place < rest.len() {
            assert(rest[place as int] == deltas[1 + place as int]);
        }
    }
}

/// No piece of a tool call's arguments is lost, doubled or moved: whatever order a
/// stream brings names and arguments in, what has been handed on and what still
/// waits for a name are together, in order, what has come in.
pub proof fn law_arguments_come_through_in_order(
    executable: Seq<Seq<char>>,
    allowed: Seq<Seq<char>>,
    items: Seq<StreamedAssistantContentView>,
    id: Seq<char>,
    internal_call_id: Seq<char>,
)
    ensures
        ({
            let start = AssemblerView::start(executable, allowed);
            let state = delta_state(after_items(start, items).deltas, id, internal_call_id);
            &&& all_arguments_out(start, items, id, internal_call_id) + state.buffered
                == all_arguments_brought(items, id, internal_call_id)
            &&& state.name_validated ==> state.buffered.len() == 0
            &&& after_items(start, items).pending_invalid is None
        }),
    decreases items.len(),
{
    let start = AssemblerView::start(executable, allowed);
    if items.len() == 0 {
        assert(all_arguments_out(start, items, id, internal_call_id) + Seq::<Seq<char>>::empty()
            =~= Seq::empty());
    } else {
        let earlier = items.drop_last();
        law_arguments_come_through_in_order(executable, allowed, earlier, id, internal_call_id);
        let turn = after_items(start, earlier);
        lemma_arguments_of_one_item(turn, items.last(), id, internal_call_id);
        let before = delta_state(turn.deltas, id, internal_call_id);
        let after = delta_state(turn.after_item(items.last()).deltas, id, internal_call_id);
        let out = all_arguments_out(start, earlier, id, internal_call_id);
        let more = arguments_out(turn, items.last(), id, internal_call_id);
        let brought = arguments_brought(items.last(), id, internal_call_id);
        assert(out + more + after.buffered =~= out + (more + after.buffered));
        assert(out + (before.buffered + brought) =~= (out + before.buffered) + brought);
    }
}

/// The two ways of taking in an item differ only in calls of tools that the model
/// was not to call.
pub proof fn law_checks_change_nothing_else(
    turn: AssemblerView,
    item: StreamedAssistantContentView,
)
    requires
        !turn.disallowed(item),
    ensures
        turn.checked_events(item) == turn.events(item),
        turn.after_checked_item(item) == turn.after_item(item),
{
}

/// A call that was put aside and goes on under the name of an allowed tool ends up
/// as if the model had called that tool at once.
pub proof fn law_repaired_call_counts(
    turn: AssemblerView,
    tool_call: ToolCallView,
    internal_call_id: Seq<char>,
    tool_name: Seq<char>,
)
    requires
        turn.pending_invalid is None,
        !turn.allowed_tool_names.contains(tool_call.function.name),
    ensures
        ({
            let item = StreamedAssistantContentView::ToolCall { tool_call, internal_call_id };
            let repaired = ToolCallView {
                function: crate::message::ToolFunctionView {
                    name: tool_name,
                    ..tool_call.function
                },
                ..tool_call
            };
            turn.after_checked_item(item).after_resolution(
                crate::assembler::StreamedResolutionView::Repaired { tool_name },
            ) == turn.after_item(
                StreamedAssistantContentView::ToolCall { tool_call: repaired, internal_call_id },
            )
        }),
{
}

proof fn lemma_calls_in_concatenation(
    front: Seq<AssistantContentView>,
    back: Seq<AssistantContentView>,
)
    ensures
        calls_in(front + back) == calls_in(front) + calls_in(back),
    decreases back.len(),
{
    if back.len() == 0 {
        assert(front + back =~= front);
        assert(calls_in(front) + calls_in(back) =~= calls_in(front));
    } else {
        lemma_calls_in_concatenation(front, back.drop_last());
        assert((front + back).drop_last() =~= front + back.drop_last());
        assert((front + back).last() == back.last());
        assert(calls_in(front + back) =~= calls_in(front) + calls_in(back));
    }
}

proof fn lemma_calls_in_call_parts(calls: Seq<ToolCallView>)
    ensures
        calls_in(call_parts(calls)) == calls,
    decreases calls.len(),
{
    if calls.len() == 0 {
        assert(calls_in(call_parts(calls)) =~= calls);
    } else {
        lemma_calls_in_call_parts(calls.drop_last());
        assert(call_parts(calls).drop_last() =~= call_parts(calls.drop_last()));
        assert(call_parts(calls).last() == AssistantContentView::ToolCall(calls.last()));
        assert(calls.drop_last().push(calls.last()) =~= calls);
    }
}

proof fn lemma_no_calls_in(parts: Seq<AssistantContentView>)
    requires
        forall|i: int| 0 <= i < parts.len() ==> !((#[trigger] parts[i]) is ToolCall),
    ensures
        calls_in(parts) == Seq::<ToolCallView>::empty(),
    decreases parts.len(),
{
    if parts.len() > 0 {
        assert forall|i: int| 0 <= i < parts.drop_last().len() implies !((
        #[trigger] parts.drop_last()[i]) is ToolCall) by {
            assert(parts.drop_last()[i] == parts[i]);
        }
        lemma_no_calls_in(parts.drop_last());
        assert(!(parts[parts.len() - 1] is ToolCall));
    }
}

proof fn lemma_kept_texts_are_texts(choice: Seq<AssistantContentView>)
    ensures
        forall|i: int|
            0 <= i < kept_texts(choice).len() ==> (#[trigger] kept_texts(choice)[i]) is Text,
    decreases choice.len(),
{
    if choice.len() > 0 {
        lemma_kept_texts_are_texts(choice.drop_last());
        let before = kept_texts(choice.drop_last());
        assert forall|i: int| 0 <= i < kept_texts(choice).len() implies (
        #[trigger] kept_texts(choice)[i]) is Text by {
            if i < before.len() {
                assert(kept_texts(choice)[i] == before[i]);
            }
        }
    }
}

proof fn lemma_calls_in_replay_order(
    reasoning: Seq<ReasoningView>,
    text: Seq<AssistantContentView>,
    calls: Seq<ToolCallView>,
)
    requires
        forall|i: int| 0 <= i < text.len() ==> (#[trigger] text[i]) is Text,
    ensures
        calls_in(in_replay_order(reasoning, text, call_parts(calls))) == calls,
{
    let blocks = reasoning.map_values(
        |block: ReasoningView| AssistantContentView::Reasoning(block),
    );
    assert forall|i: int| 0 <= i < (blocks + text).len() implies !((
    #[trigger] (blocks + text)[i]) is ToolCall) by {
        if i >= blocks.len() {
            assert((blocks + text)[i] == text[i - blocks.len()]);
        }
    }
    lemma_no_calls_in(blocks + text);
    lemma_calls_in_concatenation(blocks + text, call_parts(calls));
    lemma_calls_in_call_parts(calls);
    assert(Seq::<ToolCallView>::empty() + calls =~= calls);
}

/// The tool calls of a turn, put together, are the complete calls of its stream, in
/// order.
pub proof fn law_turn_has_the_streamed_calls(
    turn: AssemblerView,
    message_id: Option<Seq<char>>,
    choice: Seq<AssistantContentView>,
)
    requires
        turn.calls.len() > 0,
    ensures
        calls_in(turn.finished(message_id, choice).choice) == calls_of_pairs(turn.calls),
{
    lemma_kept_texts_are_texts(choice);
    lemma_calls_in_replay_order(
        turn.all_reasoning(),
        kept_texts(choice),
        calls_of_pairs(turn.calls),
    );
}

/// The stream items of a call can be found again: the id under which they went out
/// stands behind the id of the call, where no two calls share an id.
pub proof fn law_stream_items_can_be_found_again(
    pairs: Seq<(ToolCallView, Seq<char>)>,
    i: int,
)
    requires
        0 <= i < pairs.len(),
        forall|j: int, k: int|
            0 <= j < k < pairs.len() ==> (#[trigger] pairs[j]).0.id != (#[trigger] pairs[k]).0.id,
    ensures
        first_paired_with(call_id_pairs(pairs), pairs[i].0.id) == Some(pairs[i].1),
    decreases pairs.len(),
{
    let ids = call_id_pairs(pairs);
    if i > 0 {
        let rest = pairs.skip(1);
        assert(pairs[0].0.id != pairs[i].0.id);
        assert(rest[i - 1] == pairs[i]);
        assert forall|j: int, k: int| 0 <= j < k < rest.len() implies (#[trigger] rest[j]).0.id != (
        #[trigger] rest[k]).0.id by {
            assert(rest[j] == pairs[j + 1] && rest[k] == pairs[k + 1]);
        }
        law_stream_items_can_be_found_again(rest, i - 1);
        assert(ids.skip(1) =~= call_id_pairs(rest));
    }
}

/// A turn that is taken back answers each of its calls, in order: with the invalid
/// call there are as many results as calls, under the same ids.
pub proof fn law_rollback_answers_every_call(
    turn: PartialStreamedTurnView,
    invalid: ToolCallView,
    feedback: Seq<char>,
)
    ensures
        calls_in(turn.content(Some(invalid))) == turn.pending_tool_calls.push(invalid),
        turn.rollback_results(invalid, feedback).len() == turn.pending_tool_calls.len() + 1,
        forall|i: int|
            0 <= i < turn.rollback_results(invalid, feedback).len() ==> {
                &&& (#[trigger] turn.rollback_results(invalid, feedback)[i]) is ToolResult
                &&& turn.rollback_results(invalid, feedback)[i]->ToolResult_0.id
                    == turn.pending_tool_calls.push(invalid)[i].id
            },
{
    lemma_calls_in_replay_order(
        turn.reasoning,
        turn.text_parts(),
        turn.pending_tool_calls.push(invalid),
    );
}

/// Whether no two named blocks share a name.
pub open spec fn names_are_distinct(blocks: Seq<ReasoningView>) -> bool {
    forall|i: int, j: int|
        0 <= i < j < blocks.len() && (#[trigger] blocks[i]).id is Some ==> blocks[i].id != (
        #[trigger] blocks[j]).id
}

proof fn lemma_last_with_id(blocks: Seq<ReasoningView>, id: Seq<char>)
    ensures
        match last_with_id(blocks, id) {
            Some(i) => 0 <= i < blocks.len() && blocks[i].id == Some(id),
            None => forall|i: int| 0 <= i < blocks.len() ==> (#[trigger] blocks[i]).id != Some(id),
        },
    decreases blocks.len(),
{
    if blocks.len() > 0 && blocks.last().id != Some(id) {
        lemma_last_with_id(blocks.drop_last(), id);
        if last_with_id(blocks, id) is None {
            assert forall|i: int| 0 <= i < blocks.len() implies (#[trigger] blocks[i]).id != Some(
                id,
            ) by {
                if i < blocks.len() - 1 {
                    assert(blocks.drop_last()[i] == blocks[i]);
                }
            }
        }
    }
}

/// Blocks of reasoning of the same name end up in one block, in the order in which
/// they came in.
pub proof fn law_reasoning_merges_by_name(blocks: Seq<ReasoningView>, incoming: ReasoningView)
    requires
        names_are_distinct(blocks),
    ensures
        names_are_distinct(merged_reasoning(blocks, incoming)),
{
    if let Some(id) = incoming.id {
        lemma_last_with_id(blocks, id);
    }
    let after = merged_reasoning(blocks, incoming);
    assert forall|i: int, j: int|
        0 <= i < j < after.len() && (#[trigger] after[i]).id is Some implies after[i].id != (
    #[trigger] after[j]).id by {
        if j < blocks.len() {
            assert(after[i].id == blocks[i].id && after[j].id == blocks[j].id);
        }
    }
}

/// Whether no tool call is kept twice among those that come in pieces.
pub open spec fn kept_once(deltas: Seq<DeltaStateView>) -> bool {
    forall|i: int, j: int|
        0 <= i < j < deltas.len() ==> !same_call(#[trigger] deltas[i], #[trigger] deltas[j])
}

/// Whether two states are of the same tool call.
pub open spec fn same_call(one: DeltaStateView, other: DeltaStateView) -> bool {
    one.id == other.id && one.internal_call_id == other.internal_call_id
}

/// A tool call is at its place, and nowhere where it has none.
proof fn lemma_delta_place(
    deltas: Seq<DeltaStateView>,
    id: Seq<char>,
    internal_call_id: Seq<char>,
)
    ensures
        ({
            let place = delta_place(deltas, id, internal_call_id);
            &&& place < deltas.len() ==> deltas[place as int].id == id
                && deltas[place as int].internal_call_id == internal_call_id
            &&& place >= deltas.len() ==> forall|i: int|
                0 <= i < deltas.len() ==> !((#[trigger] deltas[i]).id == id
                    && deltas[i].internal_call_id == internal_call_id)
        }),
    decreases deltas.len(),
{
    if deltas.len() > 0 && !(deltas[0].id == id && deltas[0].internal_call_id
        == internal_call_id) {
        let rest = deltas.skip(1);
        lemma_delta_place(rest, id, internal_call_id);
        if delta_place(rest, id, internal_call_id) >= rest.len() {
            assert forall|i: int| 0 <= i < deltas.len() implies !((#[trigger] deltas[i]).id == id
                && deltas[i].internal_call_id == internal_call_id) by {
                if i > 0 {
                    assert(rest[i - 1] == deltas[i]);
                }
            }
        }
    }
}

/// Setting the state of a tool call keeps no call twice.
proof fn lemma_set_state_keeps_once(deltas: Seq<DeltaStateView>, state: DeltaStateView)
    requires
        kept_once(deltas),
    ensures
        kept_once(with_delta_state(deltas, state)),
{
    lemma_delta_place(deltas, state.id, state.internal_call_id);
}

/// No tool call that comes in pieces is kept twice: not at the start of a turn, and not
/// behind anything that can happen to it.
pub proof fn law_calls_in_pieces_are_kept_once(
    executable: Seq<Seq<char>>,
    allowed: Seq<Seq<char>>,
    turn: AssemblerView,
    item: StreamedAssistantContentView,
    resolution: StreamedResolutionView,
)
    requires
        kept_once(turn.deltas),
    ensures
        kept_once(AssemblerView::start(executable, allowed).deltas),
        kept_once(turn.after_item(item).deltas),
        kept_once(turn.after_checked_item(item).deltas),
        kept_once(turn.after_resolution(resolution).deltas),
{
    if let StreamedAssistantContentView::ToolCallDelta { id, internal_call_id, content } = item {
        let state = delta_state(turn.deltas, id, internal_call_id);
        match content {
            ToolCallDeltaContentView::Name(_) => {
                let named = DeltaStateView {
                    id,
                    internal_call_id,
                    name_validated: true,
                    buffered: Seq::empty(),
                };
                lemma_set_state_keeps_once(turn.deltas, named);
            },
            ToolCallDeltaContentView::Delta(arguments) => {
                let grown = DeltaStateView { buffered: state.buffered.push(arguments), ..state };
                lemma_set_state_keeps_once(turn.deltas, grown);
            },
        }
    }
    if let Some(PendingInvalidView::NameDelta { id, internal_call_id }) = turn.pending_invalid {
        let named = DeltaStateView {
            id,
            internal_call_id,
            name_validated: true,
            buffered: Seq::empty(),
        };
        lemma_set_state_keeps_once(turn.deltas, named);
    }
}

/// Nothing is left of a call that was given up at its name: the check for arguments
/// without a name never reports it.
pub proof fn law_abandoned_call_is_never_reported(
    turn: AssemblerView,
    id: Seq<char>,
    internal_call_id: Seq<char>,
    skipped_tool_result: Option<ToolResultView>,
)
    requires
        kept_once(turn.deltas),
        turn.pending_invalid == Some(PendingInvalidView::NameDelta { id, internal_call_id }),
    ensures
        ({
            let deltas = turn.after_resolution(
                StreamedResolutionView::TurnAbandoned { skipped_tool_result },
            ).deltas;
            &&& forall|i: int|
                0 <= i < deltas.len() ==> !((#[trigger] deltas[i]).id == id
                    && deltas[i].internal_call_id == internal_call_id)
            &&& first_waiting(deltas) < deltas.len() ==> !(deltas[first_waiting(deltas) as int].id
                == id && deltas[first_waiting(deltas) as int].internal_call_id
                == internal_call_id)
        }),
{
    lemma_delta_place(turn.deltas, id, internal_call_id);
    let place = delta_place(turn.deltas, id, internal_call_id);
    let left = without_delta_state(turn.deltas, id, internal_call_id);
    assert forall|i: int| 0 <= i < left.len() implies !((#[trigger] left[i]).id == id
        && left[i].internal_call_id == internal_call_id) by {
        if place < turn.deltas.len() {
            let was = if i < place { i } else { i + 1 };
            assert(left[i] == turn.deltas[was]);
            assert(!same_call(turn.deltas[was], turn.deltas[place as int])) by {
                if was < place {
                    assert(!same_call(turn.deltas[was], turn.deltas[place as int]));
                } else {
                    assert(!same_call(turn.deltas[place as int], turn.deltas[was]));
                }
            }
        }
    }
}

/// What can happen to a turn that is put together.
pub enum TurnStep {
    /// An item is taken in.
    Item(StreamedAssistantContentView),
    /// An item is taken in where calls of other tools are put aside.
    CheckedItem(StreamedAssistantContentView),
    /// It is known what becomes of an invalid call.
    Resolution(StreamedResolutionView),
}

/// What a step can mean for a tool call that comes in pieces.
pub enum CallEvent {
    /// A piece of its arguments is taken in.
    Arguments,
    /// Its name is accepted, or replaced by another.
    Name,
    /// It is given up at its name.
    GivenUp,
}

/// The turn behind a step.
pub open spec fn after_step(turn: AssemblerView, step: TurnStep) -> AssemblerView {
    match step {
        TurnStep::Item(item) => turn.after_item(item),
        TurnStep::CheckedItem(item) => turn.after_checked_item(item),
        TurnStep::Resolution(resolution) => turn.after_resolution(resolution),
    }
}

/// The turn behind all steps.
pub open spec fn after_steps(turn: AssemblerView, steps: Seq<TurnStep>) -> AssemblerView
    decreases steps.len(),
{
    if steps.len() == 0 {
        turn
    } else {
        after_step(after_steps(turn, steps.drop_last()), steps.last())
    }
}

/// Whether the item is the name of the given call.
pub open spec fn names_call(
    item: StreamedAssistantContentView,
    id: Seq<char>,
    internal_call_id: Seq<char>,
) -> bool {
    item matches StreamedAssistantContentView::ToolCallDelta {
        id: its_id,
        internal_call_id: its_internal_id,
        content: ToolCallDeltaContentView::Name(_),
    } && its_id == id && its_internal_id == internal_call_id
}

/// Whether a step means the given thing for the given call. While an invalid call waits for
/// its resolution, items are refused and mean nothing.
pub open spec fn means(
    turn: AssemblerView,
    step: TurnStep,
    event: CallEvent,
    id: Seq<char>,
    internal_call_id: Seq<char>,
) -> bool {
    let named_and_waiting = turn.pending_invalid == Some(
        PendingInvalidView::NameDelta { id, internal_call_id },
    );
    match (event, step) {
        (CallEvent::Arguments, TurnStep::Item(item)) => turn.pending_invalid is None
            && arguments_brought(item, id, internal_call_id).len() > 0,
        (CallEvent::Arguments, TurnStep::CheckedItem(item)) => turn.pending_invalid is None
            && arguments_brought(item, id, internal_call_id).len() > 0,
        (CallEvent::Name, TurnStep::Item(item)) => turn.pending_invalid is None && names_call(
            item,
            id,
            internal_call_id,
        ),
        (CallEvent::Name, TurnStep::CheckedItem(item)) => turn.pending_invalid is None
            && names_call(item, id, internal_call_id) && !turn.disallowed(item),
        (CallEvent::Name, TurnStep::Resolution(StreamedResolutionView::Repaired { .. })) =>
            named_and_waiting,
        (
            CallEvent::GivenUp,
            TurnStep::Resolution(StreamedResolutionView::TurnAbandoned { .. }),
        ) => named_and_waiting,
        _ => false,
    }
}

/// Whether the step at a place means the given thing for the given call.
pub open spec fn happens_at(
    start: AssemblerView,
    steps: Seq<TurnStep>,
    event: CallEvent,
    i: int,
    id: Seq<char>,
    internal_call_id: Seq<char>,
) -> bool {
    means(after_steps(start, steps.take(i)), steps[i], event, id, internal_call_id)
}

/// Whether the given thing has happened to the given call, and the call has not been given
/// up since.
pub open spec fn has_happened(
    start: AssemblerView,
    steps: Seq<TurnStep>,
    event: CallEvent,
    id: Seq<char>,
    internal_call_id: Seq<char>,
) -> bool {
    exists|i: int|
        {
            &&& 0 <= i < steps.len()
            &&& #[trigger] happens_at(start, steps, event, i, id, internal_call_id)
            &&& forall|k: int|
                i < k < steps.len() ==> !#[trigger] happens_at(
                    start,
                    steps,
                    CallEvent::GivenUp,
                    k,
                    id,
                    internal_call_id,
                )
        }
}

/// Whether the given call got arguments and no name: none that was accepted, and none in
/// the place of another. What was before the call was given up does not count.
pub open spec fn lacks_name(
    start: AssemblerView,
    steps: Seq<TurnStep>,
    id: Seq<char>,
    internal_call_id: Seq<char>,
) -> bool {
    &&& has_happened(start, steps, CallEvent::Arguments, id, internal_call_id)
    &&& !has_happened(start, steps, CallEvent::Name, id, internal_call_id)
}

/// What has happened behind one more step.
proof fn lemma_has_happened(
    start: AssemblerView,
    steps: Seq<TurnStep>,
    event: CallEvent,
    id: Seq<char>,
    internal_call_id: Seq<char>,
)
    requires
        steps.len() > 0,
        !(event is GivenUp),
    ensures
        ({
            let before = after_steps(start, steps.drop_last());
            has_happened(start, steps, event, id, internal_call_id) == (!means(
                before,
                steps.last(),
                CallEvent::GivenUp,
                id,
                internal_call_id,
            ) && (means(before, steps.last(), event, id, internal_call_id) || has_happened(
                start,
                steps.drop_last(),
                event,
                id,
                internal_call_id,
            )))
        }),
{
    let earlier = steps.drop_last();
    let n = steps.len() - 1;
    let before = after_steps(start, earlier);
    assert(steps.take(n) =~= earlier);
    assert forall|what: CallEvent, k: int| 0 <= k < n implies #[trigger] happens_at(
        start,
        steps,
        what,
        k,
        id,
        internal_call_id,
    ) == happens_at(start, earlier, what, k, id, internal_call_id) by {
        assert(steps.take(k) =~= earlier.take(k));
    }
    assert(happens_at(start, steps, CallEvent::GivenUp, n, id, internal_call_id) == means(
        before,
        steps.last(),
        CallEvent::GivenUp,
        id,
        internal_call_id,
    ));
    assert(happens_at(start, steps, event, n, id, internal_call_id) == means(
        before,
        steps.last(),
        event,
        id,
        internal_call_id,
    ));
    if has_happened(start, steps, event, id, internal_call_id) {
        let i = choose|i: int|
            {
                &&& 0 <= i < steps.len()
                &&& #[trigger] happens_at(start, steps, event, i, id, internal_call_id)
                &&& forall|k: int|
                    i < k < steps.len() ==> !#[trigger] happens_at(
                        start,
                        steps,
                        CallEvent::GivenUp,
                        k,
                        id,
                        internal_call_id,
                    )
            };
        if i < n {
            assert(happens_at(start, earlier, event, i, id, internal_call_id));
            assert forall|k: int| i < k < earlier.len() implies !#[trigger] happens_at(
                start,
                earlier,
                CallEvent::GivenUp,
                k,
                id,
                internal_call_id,
            ) by {
                assert(!happens_at(start, steps, CallEvent::GivenUp, k, id, internal_call_id));
            }
        }
    }
    if has_happened(start, earlier, event, id, internal_call_id) && !means(
        before,
        steps.last(),
        CallEvent::GivenUp,
        id,
        internal_call_id,
    ) {
        let i = choose|i: int|
            {
                &&& 0 <= i < earlier.len()
                &&& #[trigger] happens_at(start, earlier, event, i, id, internal_call_id)
                &&& forall|k: int|
                    i < k < earlier.len() ==> !#[trigger] happens_at(
                        start,
                        earlier,
                        CallEvent::GivenUp,
                        k,
                        id,
                        internal_call_id,
                    )
            };
        assert(happens_at(start, steps, event, i, id, internal_call_id));
        assert forall|k: int| i < k < steps.len() implies !#[trigger] happens_at(
            start,
            steps,
            CallEvent::GivenUp,
            k,
            id,
            internal_call_id,
        ) by {
            if k < n {
                assert(!happens_at(start, earlier, CallEvent::GivenUp, k, id, internal_call_id));
            }
        }
    }
}

/// Where no call is kept twice, each is at its own place.
proof fn lemma_own_place(deltas: Seq<DeltaStateView>, i: int)
    requires
        kept_once(deltas),
        0 <= i < deltas.len(),
    ensures
        delta_state(deltas, deltas[i].id, deltas[i].internal_call_id) == deltas[i],
{
    lemma_delta_place(deltas, deltas[i].id, deltas[i].internal_call_id);
    let place = delta_place(deltas, deltas[i].id, deltas[i].internal_call_id);
    assert(place < deltas.len());
    if place < i {
        assert(!same_call(deltas[place as int], deltas[i]));
    } else if i < place {
        assert(!same_call(deltas[i], deltas[place as int]));
    }
}

/// Nothing is known of a call that was taken out, and of every other the same as before.
proof fn lemma_delta_state_without(
    deltas: Seq<DeltaStateView>,
    gone_id: Seq<char>,
    gone_internal_id: Seq<char>,
    id: Seq<char>,
    internal_call_id: Seq<char>,
)
    requires
        kept_once(deltas),
    ensures
        delta_state(
            without_delta_state(deltas, gone_id, gone_internal_id),
            id,
            internal_call_id,
        ) == (if gone_id == id && gone_internal_id == internal_call_id {
            DeltaStateView { id, internal_call_id, name_validated: false, buffered: Seq::empty() }
        } else {
            delta_state(deltas, id, internal_call_id)
        }),
        kept_once(without_delta_state(deltas, gone_id, gone_internal_id)),
{
    let left = without_delta_state(deltas, gone_id, gone_internal_id);
    let gone = delta_place(deltas, gone_id, gone_internal_id);
    lemma_delta_place(deltas, gone_id, gone_internal_id);
    lemma_delta_place(deltas, id, internal_call_id);
    lemma_delta_place(left, id, internal_call_id);
    let place = delta_place(deltas, id, internal_call_id);
    let now = delta_place(left, id, internal_call_id);
    assert(kept_once(left));
    if gone < deltas.len() {
        if now < left.len() {
            let was: int = if now < gone { now as int } else { now as int + 1 };
            assert(left[now as int] == deltas[was]);
            lemma_own_place(deltas, was);
            if gone_id == id && gone_internal_id == internal_call_id {
                if was < gone {
                    assert(!same_call(deltas[was], deltas[gone as int]));
                } else {
                    assert(!same_call(deltas[gone as int], deltas[was]));
                }
            }
        } else if place < deltas.len() && place != gone {
            let moved: int = if place < gone { place as int } else { place as int - 1 };
            assert(left[moved] == deltas[place as int]);
        }
    }
}

/// What is known of a call is what has happened to it.
proof fn lemma_known_is_what_happened(
    executable: Seq<Seq<char>>,
    allowed: Seq<Seq<char>>,
    steps: Seq<TurnStep>,
    id: Seq<char>,
    internal_call_id: Seq<char>,
)
    ensures
        ({
            let start = AssemblerView::start(executable, allowed);
            let deltas = after_steps(start, steps).deltas;
            let state = delta_state(deltas, id, internal_call_id);
            &&& kept_once(deltas)
            &&& state.name_validated == has_happened(
                start,
                steps,
                CallEvent::Name,
                id,
                internal_call_id,
            )
            &&& !state.name_validated ==> (state.buffered.len() > 0) == has_happened(
                start,
                steps,
                CallEvent::Arguments,
                id,
                internal_call_id,
            )
        }),
    decreases steps.len(),
{
    let start = AssemblerView::start(executable, allowed);
    if steps.len() > 0 {
        let before = after_steps(start, steps.drop_last());
        lemma_known_is_what_happened(executable, allowed, steps.drop_last(), id, internal_call_id);
        lemma_has_happened(start, steps, CallEvent::Name, id, internal_call_id);
        lemma_has_happened(start, steps, CallEvent::Arguments, id, internal_call_id);
        match steps.last() {
            TurnStep::Item(item) => lemma_state_after_item(before, item, id, internal_call_id),
            TurnStep::CheckedItem(item) => lemma_state_after_item(
                before,
                item,
                id,
                internal_call_id,
            ),
            TurnStep::Resolution(resolution) => {
                if let Some(
                    PendingInvalidView::NameDelta { id: its_id, internal_call_id: its_internal_id },
                ) = before.pending_invalid {
                    let named = DeltaStateView {
                        id: its_id,
                        internal_call_id: its_internal_id,
                        name_validated: true,
                        buffered: Seq::empty(),
                    };
                    lemma_set_state_keeps_once(before.deltas, named);
                    lemma_delta_state_after(before.deltas, named, id, internal_call_id);
                    lemma_delta_state_without(
                        before.deltas,
                        its_id,
                        its_internal_id,
                        id,
                        internal_call_id,
                    );
                }
            },
        }
    }
}

/// What is known of a call once an item is taken in.
proof fn lemma_state_after_item(
    turn: AssemblerView,
    item: StreamedAssistantContentView,
    id: Seq<char>,
    internal_call_id: Seq<char>,
)
    requires
        kept_once(turn.deltas),
    ensures
        kept_once(turn.after_item(item).deltas),
        ({
            let state = delta_state(turn.deltas, id, internal_call_id);
            let after = delta_state(turn.after_item(item).deltas, id, internal_call_id);
            if turn.pending_invalid is Some {
                after == state
            } else if names_call(item, id, internal_call_id) {
                after.name_validated
            } else if arguments_brought(item, id, internal_call_id).len() > 0 {
                after.name_validated == state.name_validated && (!after.name_validated
                    ==> after.buffered.len() > 0)
            } else {
                after == state
            }
        }),
{
    if let StreamedAssistantContentView::ToolCallDelta {
        id: its_id,
        internal_call_id: its_internal_id,
        content,
    } = item {
        let known = delta_state(turn.deltas, its_id, its_internal_id);
        lemma_delta_state_key(turn.deltas, its_id, its_internal_id);
        match content {
            ToolCallDeltaContentView::Name(_) => {
                let named = DeltaStateView {
                    id: its_id,
                    internal_call_id: its_internal_id,
                    name_validated: true,
                    buffered: Seq::empty(),
                };
                lemma_set_state_keeps_once(turn.deltas, named);
                lemma_delta_state_after(turn.deltas, named, id, internal_call_id);
            },
            ToolCallDeltaContentView::Delta(arguments) => {
                let grown = DeltaStateView { buffered: known.buffered.push(arguments), ..known };
                lemma_set_state_keeps_once(turn.deltas, grown);
                lemma_delta_state_after(turn.deltas, grown, id, internal_call_id);
            },
        }
    }
}

/// The first call whose arguments wait for a name is one of those that wait, and there is
/// one where any waits.
proof fn lemma_first_waiting(deltas: Seq<DeltaStateView>)
    ensures
        first_waiting(deltas) < deltas.len() ==> waits_for_name(
            deltas[first_waiting(deltas) as int],
        ),
        forall|i: int|
            0 <= i < deltas.len() && waits_for_name(#[trigger] deltas[i]) ==> first_waiting(deltas)
                <= i,
    decreases deltas.len(),
{
    if deltas.len() > 0 && !waits_for_name(deltas[0]) {
        let rest = deltas.skip(1);
        lemma_first_waiting(rest);
        assert forall|i: int| 0 <= i < deltas.len() && waits_for_name(
            #[trigger] deltas[i],
        ) implies first_waiting(deltas) <= i by {
            if i > 0 {
                assert(rest[i - 1] == deltas[i]);
            }
        }
    }
}

/// The closing record is refused exactly where some call got arguments and never a name
/// that was accepted or put in the place of another, and was not given up: whatever items
/// came in, whichever of them were checked, and whatever became of invalid calls. The
/// refusal is the error of arguments without a name, and changes nothing.
pub proof fn law_closing_record_fails_where_a_name_is_missing(
    executable: Seq<Seq<char>>,
    allowed: Seq<Seq<char>>,
    steps: Seq<TurnStep>,
    record: StreamFinalView,
)
    ensures
        ({
            let start = AssemblerView::start(executable, allowed);
            let turn = after_steps(start, steps);
            let closing = StreamedAssistantContentView::Final(record);
            &&& turn.delta_error() is Some <==> exists|id: Seq<char>, internal_call_id: Seq<char>|
                #[trigger] lacks_name(start, steps, id, internal_call_id)
            &&& turn.pending_invalid is None ==> {
                &&& turn.events(closing) is Err <==> exists|
                    id: Seq<char>,
                    internal_call_id: Seq<char>,
                | #[trigger] lacks_name(start, steps, id, internal_call_id)
                &&& turn.events(closing) matches Err(error) ==> {
                    &&& error is ResponseError
                    &&& turn.delta_error() == Some(error)
                    &&& turn.after_item(closing) == turn
                }
                &&& turn.checked_events(closing) == turn.events(closing)
                &&& turn.after_checked_item(closing) == turn.after_item(closing)
            }
        }),
{
    let start = AssemblerView::start(executable, allowed);
    let deltas = after_steps(start, steps).deltas;
    lemma_first_waiting(deltas);
    let first = first_waiting(deltas);
    if first < deltas.len() {
        let id = deltas[first as int].id;
        let internal_call_id = deltas[first as int].internal_call_id;
        lemma_known_is_what_happened(executable, allowed, steps, id, internal_call_id);
        lemma_own_place(deltas, first as int);
        assert(lacks_name(start, steps, id, internal_call_id));
    }
    if exists|id: Seq<char>, internal_call_id: Seq<char>| #[trigger]
        lacks_name(start, steps, id, internal_call_id) {
        let (id, internal_call_id) = choose|id: Seq<char>, internal_call_id: Seq<char>| #[trigger]
            lacks_name(start, steps, id, internal_call_id);
        lemma_known_is_what_happened(executable, allowed, steps, id, internal_call_id);
        let place = delta_place(deltas, id, internal_call_id);
        assert(place < deltas.len());
        assert(waits_for_name(deltas[place as int]));
    }
}

} // verus!
