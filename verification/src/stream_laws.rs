//! What a streamed turn comes to, in terms of what the stream brought.

use vstd::prelude::*;
use crate::assembler::{
    call_id_pairs, calls_of_pairs, delta_state, first_waiting, waits_for_name, AssemblerView,
    DeltaStateView, StreamedResolutionView, StreamedTurnEventView,
};
use crate::assembler_laws::{after_items, names_are_distinct};
use crate::completion::CompletionErrorView;
use crate::json::json_compact;
use crate::message::{
    AssistantContentView, ReasoningContentView, ReasoningView, ToolCallView, ToolResultView,
};
use crate::streamed::{
    call_parts, in_replay_order, kept_texts, last_with_id, merged_reasoning,
    PartialStreamedTurnView,
};
use crate::streaming::{StreamedAssistantContentView, ToolCallDeltaContentView};
use crate::strings::decimal;
use crate::text_laws::law_nothing_stands_between;
use crate::turn_laws::{lemma_filter_map_last, mentions};

verus! {

/// The text that an item brings.
pub open spec fn text_of_item(item: StreamedAssistantContentView) -> Option<Seq<char>> {
    match item {
        StreamedAssistantContentView::Text(text) => Some(text.text),
        _ => None,
    }
}

/// The piece of reasoning that an item brings.
pub open spec fn piece_of_item(item: StreamedAssistantContentView) -> Option<Seq<char>> {
    match item {
        StreamedAssistantContentView::ReasoningDelta { reasoning, .. } => Some(reasoning),
        _ => None,
    }
}

/// The id that a piece of reasoning has.
pub open spec fn piece_id_of_item(item: StreamedAssistantContentView) -> Option<Seq<char>> {
    match item {
        StreamedAssistantContentView::ReasoningDelta { id, .. } => Some(id),
        _ => None,
    }
}

/// The complete block of reasoning that an item brings.
pub open spec fn block_of_item(item: StreamedAssistantContentView) -> Option<ReasoningView> {
    match item {
        StreamedAssistantContentView::Reasoning(block) => Some(block),
        _ => None,
    }
}

/// The complete tool call that an item brings, with the id of its stream items.
pub open spec fn call_of_item(item: StreamedAssistantContentView) -> Option<
    (ToolCallView, Seq<char>),
> {
    match item {
        StreamedAssistantContentView::ToolCall { tool_call, internal_call_id } => Some(
            (tool_call, internal_call_id),
        ),
        _ => None,
    }
}

/// The block of reasoning that a part of a turn is.
pub open spec fn block_of_part(part: AssistantContentView) -> Option<ReasoningView> {
    match part {
        AssistantContentView::Reasoning(block) => Some(block),
        _ => None,
    }
}

/// What a block says, where it has the given id.
pub open spec fn said_under(block: ReasoningView, id: Option<Seq<char>>) -> Option<
    Seq<ReasoningContentView>,
> {
    if block.id == id {
        Some(block.content)
    } else {
        None
    }
}

/// What blocks say under the given id, one behind the other.
pub open spec fn all_said_under(blocks: Seq<ReasoningView>, id: Option<Seq<char>>) -> Seq<
    ReasoningContentView,
> {
    blocks.filter_map(|block: ReasoningView| said_under(block, id)).flatten()
}

/// Whether a part of a turn is a text that says something or has something added to it.
pub open spec fn says_something(part: AssistantContentView) -> bool {
    part matches AssistantContentView::Text(text) && (text.text.len() > 0
        || text.additional_params is Some)
}

/// All texts, pieces of reasoning and calls of a stream are kept, in order and once.
pub proof fn law_nothing_of_a_stream_is_lost(
    executable: Seq<Seq<char>>,
    allowed: Seq<Seq<char>>,
    items: Seq<StreamedAssistantContentView>,
)
    ensures
        ({
            let turn = after_items(AssemblerView::start(executable, allowed), items);
            let ids = items.filter_map(|item: StreamedAssistantContentView| piece_id_of_item(item));
            &&& turn.pending_invalid is None
            &&& turn.executable_tool_names == executable
            &&& turn.allowed_tool_names == allowed
            &&& turn.calls == items.filter_map(
                |item: StreamedAssistantContentView| call_of_item(item),
            )
            &&& turn.delta_text == items.filter_map(
                |item: StreamedAssistantContentView| piece_of_item(item),
            ).flatten()
            &&& turn.delta_id == (if ids.len() == 0 {
                None
            } else {
                Some(ids[0])
            })
            &&& (forall|i: int| 0 <= i < items.len() ==> !((#[trigger] items[i]) is Final)) ==> {
                &&& turn.text == items.filter_map(
                    |item: StreamedAssistantContentView| text_of_item(item),
                ).flatten()
                &&& turn.saw_text <==> exists|i: int|
                    0 <= i < items.len() && (#[trigger] items[i]) is Text
            }
        }),
    decreases items.len(),
{
    let start = AssemblerView::start(executable, allowed);
    let call = |item: StreamedAssistantContentView| call_of_item(item);
    let piece = |item: StreamedAssistantContentView| piece_of_item(item);
    let piece_id = |item: StreamedAssistantContentView| piece_id_of_item(item);
    let text = |item: StreamedAssistantContentView| text_of_item(item);
    if items.len() == 0 {
        assert(start.calls =~= items.filter_map(call));
        assert(start.delta_text =~= items.filter_map(piece).flatten());
        assert(start.text =~= items.filter_map(text).flatten());
    } else {
        let earlier = items.drop_last();
        let last = items.last();
        let before = after_items(start, earlier);
        law_nothing_of_a_stream_is_lost(executable, allowed, earlier);
        lemma_filter_map_last(items, call);
        lemma_filter_map_last(items, piece);
        lemma_filter_map_last(items, piece_id);
        lemma_filter_map_last(items, text);
        if let Some(said) = piece(last) {
            earlier.filter_map(piece).lemma_flatten_push(said);
        }
        if let Some(said) = text(last) {
            earlier.filter_map(text).lemma_flatten_push(said);
        }
        if forall|i: int| 0 <= i < items.len() ==> !((#[trigger] items[i]) is Final) {
            assert forall|i: int| 0 <= i < earlier.len() implies !((#[trigger] earlier[i]) is Final) by {
                assert(earlier[i] == items[i]);
            }
            assert(!(items[items.len() - 1] is Final));
            if last is Text {
                assert(items[items.len() - 1] is Text);
                if !before.saw_text {
                    lemma_no_texts(earlier);
                    assert(before.text =~= Seq::empty());
                    assert(before.text + last->Text_0.text =~= last->Text_0.text);
                }
            } else {
                if before.saw_text {
                    let i = choose|i: int| 0 <= i < earlier.len() && (#[trigger] earlier[i]) is Text;
                    assert(items[i] is Text);
                }
                if exists|i: int| 0 <= i < items.len() && (#[trigger] items[i]) is Text {
                    let i = choose|i: int| 0 <= i < items.len() && (#[trigger] items[i]) is Text;
                    assert(earlier[i] is Text);
                }
            }
        }
    }
}

/// A stream without texts brings no text.
proof fn lemma_no_texts(items: Seq<StreamedAssistantContentView>)
    requires
        forall|i: int| 0 <= i < items.len() ==> !((#[trigger] items[i]) is Text),
    ensures
        items.filter_map(|item: StreamedAssistantContentView| text_of_item(item)).flatten()
            == Seq::<char>::empty(),
    decreases items.len(),
{
    let text = |item: StreamedAssistantContentView| text_of_item(item);
    if items.len() == 0 {
        assert(items.filter_map(text).flatten() =~= Seq::empty());
    } else {
        let earlier = items.drop_last();
        assert forall|i: int| 0 <= i < earlier.len() implies !((#[trigger] earlier[i]) is Text) by {
            assert(earlier[i] == items[i]);
        }
        lemma_no_texts(earlier);
        lemma_filter_map_last(items, text);
        assert(!(items[items.len() - 1] is Text));
    }
}

/// The texts that are kept of a turn are those that say something, in order.
pub proof fn law_texts_are_kept_in_order(choice: Seq<AssistantContentView>)
    ensures
        kept_texts(choice) == choice.filter(|part: AssistantContentView| says_something(part)),
    decreases choice.len(),
{
    reveal(Seq::filter);
    let kept = |part: AssistantContentView| says_something(part);
    if choice.len() > 0 {
        law_texts_are_kept_in_order(choice.drop_last());
    } else {
        assert(kept_texts(choice) =~= choice.filter(kept));
    }
}

/// A turn without complete blocks of reasoning is put together from what the stream brought:
/// first its pieces of reasoning, joined into one block under the id of the first, then the
/// texts of the provider's turn, then the complete tool calls, in order. Where there is
/// neither reasoning nor a call, the turn is the provider's.
pub proof fn law_turn_is_what_the_stream_brought(
    executable: Seq<Seq<char>>,
    allowed: Seq<Seq<char>>,
    items: Seq<StreamedAssistantContentView>,
    message_id: Option<Seq<char>>,
    choice: Seq<AssistantContentView>,
)
    requires
        forall|i: int| 0 <= i < items.len() ==> !((#[trigger] items[i]) is Reasoning),
    ensures
        ({
            let turn = after_items(AssemblerView::start(executable, allowed), items).finished(
                message_id,
                choice,
            );
            let calls = items.filter_map(
                |item: StreamedAssistantContentView| call_of_item(item),
            );
            let pieces = items.filter_map(
                |item: StreamedAssistantContentView| piece_of_item(item),
            ).flatten();
            let ids = items.filter_map(
                |item: StreamedAssistantContentView| piece_id_of_item(item),
            );
            let texts = choice.filter(|part: AssistantContentView| says_something(part));
            let parts = calls.map_values(
                |call: (ToolCallView, Seq<char>)| AssistantContentView::ToolCall(call.0),
            );
            let reasoning = seq![
                AssistantContentView::Reasoning(
                    ReasoningView {
                        id: Some(ids[0]),
                        content: seq![
                            ReasoningContentView::Text { text: pieces, signature: None },
                        ],
                    },
                ),
            ];
            &&& turn.message_id == message_id
            &&& turn.executable_tool_names == executable
            &&& turn.allowed_tool_names == allowed
            &&& turn.internal_call_ids == calls.map_values(
                |call: (ToolCallView, Seq<char>)| (call.0.id, call.1),
            )
            &&& pieces.len() > 0 ==> ids.len() > 0 && turn.choice == reasoning + texts + parts
            &&& pieces.len() == 0 && calls.len() > 0 ==> turn.choice == texts + parts
            &&& pieces.len() == 0 && calls.len() == 0 ==> turn.choice == choice
        }),
{
    let start = AssemblerView::start(executable, allowed);
    let turn = after_items(start, items);
    law_nothing_of_a_stream_is_lost(executable, allowed, items);
    law_texts_are_kept_in_order(choice);
    lemma_no_blocks(start, items);
    lemma_pieces_have_ids(items);
    let calls = items.filter_map(|item: StreamedAssistantContentView| call_of_item(item));
    let pieces = items.filter_map(|item: StreamedAssistantContentView| piece_of_item(item)).flatten();
    let ids = items.filter_map(|item: StreamedAssistantContentView| piece_id_of_item(item));
    let texts = choice.filter(|part: AssistantContentView| says_something(part));
    let parts = calls.map_values(
        |call: (ToolCallView, Seq<char>)| AssistantContentView::ToolCall(call.0),
    );
    assert(call_parts(calls_of_pairs(calls)) =~= parts);
    assert(call_id_pairs(calls) =~= calls.map_values(
        |call: (ToolCallView, Seq<char>)| (call.0.id, call.1),
    ));
    if pieces.len() > 0 {
        let block = ReasoningView {
            id: Some(ids[0]),
            content: seq![ReasoningContentView::Text { text: pieces, signature: None }],
        };
        assert(turn.all_reasoning() =~= seq![block]);
        assert(in_replay_order(seq![block], texts, parts) =~= seq![
            AssistantContentView::Reasoning(block),
        ] + texts + parts);
    } else if calls.len() > 0 {
        assert(turn.all_reasoning() =~= Seq::empty());
        assert(in_replay_order(Seq::empty(), texts, parts) =~= texts + parts);
    }
}

/// A stream without complete blocks of reasoning leaves none.
proof fn lemma_no_blocks(start: AssemblerView, items: Seq<StreamedAssistantContentView>)
    requires
        forall|i: int| 0 <= i < items.len() ==> !((#[trigger] items[i]) is Reasoning),
    ensures
        after_items(start, items).reasoning == start.reasoning,
    decreases items.len(),
{
    if items.len() > 0 {
        let earlier = items.drop_last();
        assert forall|i: int| 0 <= i < earlier.len() implies !((#[trigger] earlier[i]) is Reasoning) by {
            assert(earlier[i] == items[i]);
        }
        lemma_no_blocks(start, earlier);
        assert(!(items[items.len() - 1] is Reasoning));
    }
}

/// Where pieces of reasoning say something, the first of them has an id.
proof fn lemma_pieces_have_ids(items: Seq<StreamedAssistantContentView>)
    ensures
        items.filter_map(
            |item: StreamedAssistantContentView| piece_of_item(item),
        ).flatten().len() > 0 ==> items.filter_map(
            |item: StreamedAssistantContentView| piece_id_of_item(item),
        ).len() > 0,
    decreases items.len(),
{
    let piece = |item: StreamedAssistantContentView| piece_of_item(item);
    let piece_id = |item: StreamedAssistantContentView| piece_id_of_item(item);
    if items.len() == 0 {
        assert(items.filter_map(piece).flatten() =~= Seq::empty());
    } else {
        lemma_pieces_have_ids(items.drop_last());
        lemma_filter_map_last(items, piece);
        lemma_filter_map_last(items, piece_id);
    }
}

/// Extending a block by what comes in under its id says, under every id, what was said and
/// then what comes in.
proof fn lemma_extended_block(
    blocks: Seq<ReasoningView>,
    i: int,
    more: Seq<ReasoningContentView>,
    id: Option<Seq<char>>,
)
    requires
        0 <= i < blocks.len(),
        forall|j: int| i < j < blocks.len() ==> (#[trigger] blocks[j]).id != blocks[i].id,
    ensures
        all_said_under(
            blocks.update(i, ReasoningView { id: blocks[i].id, content: blocks[i].content + more }),
            id,
        ) == (if blocks[i].id == id {
            all_said_under(blocks, id) + more
        } else {
            all_said_under(blocks, id)
        }),
    decreases blocks.len(),
{
    let f = |block: ReasoningView| said_under(block, id);
    let longer = ReasoningView { id: blocks[i].id, content: blocks[i].content + more };
    let after = blocks.update(i, longer);
    let earlier = blocks.drop_last();
    lemma_filter_map_last(blocks, f);
    lemma_filter_map_last(after, f);
    if i == blocks.len() - 1 {
        assert(after.drop_last() =~= earlier);
        if blocks[i].id == id {
            let said = earlier.filter_map(f);
            said.lemma_flatten_push(blocks[i].content);
            said.lemma_flatten_push(longer.content);
            assert(said.flatten() + (blocks[i].content + more) =~= said.flatten()
                + blocks[i].content + more);
        }
    } else {
        assert(after.drop_last() =~= earlier.update(i, longer));
        assert(earlier[i] == blocks[i]);
        assert forall|j: int| i < j < earlier.len() implies (#[trigger] earlier[j]).id
            != earlier[i].id by {
            assert(earlier[j] == blocks[j]);
        }
        lemma_extended_block(earlier, i, more, id);
        let last = blocks.last();
        assert(blocks[blocks.len() - 1].id != blocks[i].id);
        if last.id == id {
            earlier.filter_map(f).lemma_flatten_push(last.content);
            earlier.update(i, longer).filter_map(f).lemma_flatten_push(last.content);
        }
    }
}

/// The last block with an id is the last.
proof fn lemma_last_with_id_is_last(blocks: Seq<ReasoningView>, id: Seq<char>)
    ensures
        match last_with_id(blocks, id) {
            Some(i) => {
                &&& 0 <= i < blocks.len()
                &&& blocks[i].id == Some(id)
                &&& forall|j: int| i < j < blocks.len() ==> (#[trigger] blocks[j]).id != Some(id)
            },
            None => forall|j: int| 0 <= j < blocks.len() ==> (#[trigger] blocks[j]).id != Some(id),
        },
    decreases blocks.len(),
{
    if blocks.len() > 0 && blocks.last().id != Some(id) {
        let earlier = blocks.drop_last();
        lemma_last_with_id_is_last(earlier, id);
        assert forall|j: int|
            (match last_with_id(earlier, id) {
                Some(i) => i,
                None => -1,
            }) < j < blocks.len() implies (#[trigger] blocks[j]).id != Some(id) by {
            if j < earlier.len() {
                assert(earlier[j] == blocks[j]);
            }
        }
        if let Some(i) = last_with_id(earlier, id) {
            assert(earlier[i] == blocks[i]);
        }
    }
}

/// A block of reasoning goes into the block of its id, behind what that says, and stands on
/// its own where there is none: under every id the blocks say what they said, and then what
/// the new block says, if it is its id. A block without an id always stands on its own, at
/// the end.
pub proof fn law_reasoning_keeps_every_part(
    blocks: Seq<ReasoningView>,
    incoming: ReasoningView,
    id: Option<Seq<char>>,
)
    ensures
        all_said_under(merged_reasoning(blocks, incoming), id) == (if incoming.id == id {
            all_said_under(blocks, id) + incoming.content
        } else {
            all_said_under(blocks, id)
        }),
        incoming.id is None ==> merged_reasoning(blocks, incoming) == blocks.push(incoming),
        (forall|j: int| 0 <= j < blocks.len() ==> (#[trigger] blocks[j]).id != incoming.id)
            ==> merged_reasoning(blocks, incoming) == blocks.push(incoming),
        incoming.id is Some && (exists|j: int|
            0 <= j < blocks.len() && (#[trigger] blocks[j]).id == incoming.id)
            ==> merged_reasoning(blocks, incoming).len() == blocks.len() && forall|j: int|
            0 <= j < blocks.len() ==> (#[trigger] merged_reasoning(blocks, incoming)[j]).id
                == blocks[j].id,
{
    let f = |block: ReasoningView| said_under(block, id);
    let after = merged_reasoning(blocks, incoming);
    if let Some(name) = incoming.id {
        lemma_last_with_id_is_last(blocks, name);
        if let Some(i) = last_with_id(blocks, name) {
            lemma_extended_block(blocks, i, incoming.content, id);
        }
    }
    if after == blocks.push(incoming) {
        assert(after.drop_last() =~= blocks);
        lemma_filter_map_last(after, f);
        if incoming.id == id {
            blocks.filter_map(f).lemma_flatten_push(incoming.content);
        }
    }
}

/// Under every id the blocks of a turn say what the stream's blocks of that id said, in
/// order.
proof fn lemma_blocks_say_what_came_in(
    start: AssemblerView,
    items: Seq<StreamedAssistantContentView>,
    id: Option<Seq<char>>,
)
    requires
        start.pending_invalid is None,
        start.reasoning.len() == 0,
    ensures
        all_said_under(after_items(start, items).reasoning, id) == all_said_under(
            items.filter_map(|item: StreamedAssistantContentView| block_of_item(item)),
            id,
        ),
        after_items(start, items).pending_invalid is None,
        after_items(start, items).reasoning.len() == 0 <==> items.filter_map(
            |item: StreamedAssistantContentView| block_of_item(item),
        ).len() == 0,
    decreases items.len(),
{
    let block = |item: StreamedAssistantContentView| block_of_item(item);
    let f = |block: ReasoningView| said_under(block, id);
    if items.len() == 0 {
        assert(items.filter_map(block) =~= start.reasoning);
    } else {
        let earlier = items.drop_last();
        let before = after_items(start, earlier).reasoning;
        lemma_blocks_say_what_came_in(start, earlier, id);
        lemma_filter_map_last(items, block);
        if let Some(incoming) = block(items.last()) {
            law_reasoning_keeps_every_part(before, incoming, id);
            let brought = earlier.filter_map(block);
            assert(brought.push(incoming).drop_last() =~= brought);
            lemma_filter_map_last(brought.push(incoming), f);
            if incoming.id == id {
                brought.filter_map(f).lemma_flatten_push(incoming.content);
            }
        }
    }
}

/// The blocks of a turn in replay order are its blocks of reasoning.
proof fn lemma_blocks_in_replay_order(
    blocks: Seq<ReasoningView>,
    rest: Seq<AssistantContentView>,
)
    requires
        forall|i: int| 0 <= i < rest.len() ==> !((#[trigger] rest[i]) is Reasoning),
    ensures
        (blocks.map_values(|block: ReasoningView| AssistantContentView::Reasoning(block))
            + rest).filter_map(|part: AssistantContentView| block_of_part(part)) == blocks,
    decreases blocks.len() + rest.len(),
{
    let f = |part: AssistantContentView| block_of_part(part);
    let wrap = |block: ReasoningView| AssistantContentView::Reasoning(block);
    let all = blocks.map_values(wrap) + rest;
    if rest.len() > 0 {
        assert(all.drop_last() =~= blocks.map_values(wrap) + rest.drop_last());
        assert forall|i: int| 0 <= i < rest.drop_last().len() implies !((
        #[trigger] rest.drop_last()[i]) is Reasoning) by {
            assert(rest.drop_last()[i] == rest[i]);
        }
        lemma_blocks_in_replay_order(blocks, rest.drop_last());
        lemma_filter_map_last(all, f);
        assert(all.last() == rest[rest.len() - 1]);
    } else if blocks.len() > 0 {
        assert(all.drop_last() =~= blocks.drop_last().map_values(wrap) + rest);
        lemma_blocks_in_replay_order(blocks.drop_last(), rest);
        lemma_filter_map_last(all, f);
        assert(all.last() == wrap(blocks.last()));
        assert(blocks.drop_last().push(blocks.last()) =~= blocks);
    } else {
        assert(all.filter_map(f) =~= blocks);
    }
}

/// A turn with complete blocks of reasoning is put together from these blocks, then the
/// texts of the provider's turn, then the complete tool calls, in order. Under every id its
/// blocks say what the stream's blocks of that id said, in order; loose pieces of reasoning
/// do not count.
pub proof fn law_turn_has_the_streamed_reasoning(
    executable: Seq<Seq<char>>,
    allowed: Seq<Seq<char>>,
    items: Seq<StreamedAssistantContentView>,
    message_id: Option<Seq<char>>,
    choice: Seq<AssistantContentView>,
    id: Option<Seq<char>>,
)
    requires
        exists|i: int| 0 <= i < items.len() && (#[trigger] items[i]) is Reasoning,
    ensures
        ({
            let turn = after_items(AssemblerView::start(executable, allowed), items).finished(
                message_id,
                choice,
            );
            let shown = turn.choice.filter_map(|part: AssistantContentView| block_of_part(part));
            let calls = items.filter_map(
                |item: StreamedAssistantContentView| call_of_item(item),
            );
            &&& turn.choice == shown.map_values(
                |block: ReasoningView| AssistantContentView::Reasoning(block),
            ) + choice.filter(|part: AssistantContentView| says_something(part))
                + calls.map_values(
                |call: (ToolCallView, Seq<char>)| AssistantContentView::ToolCall(call.0),
            )
            &&& shown.len() > 0
            &&& all_said_under(shown, id) == all_said_under(
                items.filter_map(|item: StreamedAssistantContentView| block_of_item(item)),
                id,
            )
            &&& names_are_distinct(shown)
        }),
{
    let start = AssemblerView::start(executable, allowed);
    let turn = after_items(start, items);
    let block = |item: StreamedAssistantContentView| block_of_item(item);
    law_nothing_of_a_stream_is_lost(executable, allowed, items);
    law_texts_are_kept_in_order(choice);
    lemma_blocks_say_what_came_in(start, items, id);
    lemma_some_block(items);
    lemma_distinct_blocks(start, items);
    let texts = choice.filter(|part: AssistantContentView| says_something(part));
    let calls = items.filter_map(|item: StreamedAssistantContentView| call_of_item(item));
    let parts = calls.map_values(
        |call: (ToolCallView, Seq<char>)| AssistantContentView::ToolCall(call.0),
    );
    assert(call_parts(calls_of_pairs(calls)) =~= parts);
    assert forall|i: int| 0 <= i < (texts + parts).len() implies !((
    #[trigger] (texts + parts)[i]) is Reasoning) by {
        if i < texts.len() {
            choice.lemma_filter_pred(|part: AssistantContentView| says_something(part), i);
        }
    }
    lemma_blocks_in_replay_order(turn.reasoning, texts + parts);
    let wrapped = turn.reasoning.map_values(
        |block: ReasoningView| AssistantContentView::Reasoning(block),
    );
    assert(wrapped + texts + parts =~= wrapped + (texts + parts));
}

/// A stream with a complete block of reasoning brings one.
proof fn lemma_some_block(items: Seq<StreamedAssistantContentView>)
    requires
        exists|i: int| 0 <= i < items.len() && (#[trigger] items[i]) is Reasoning,
    ensures
        items.filter_map(|item: StreamedAssistantContentView| block_of_item(item)).len() > 0,
    decreases items.len(),
{
    let block = |item: StreamedAssistantContentView| block_of_item(item);
    lemma_filter_map_last(items, block);
    if !(items.last() is Reasoning) {
        let i = choose|i: int| 0 <= i < items.len() && (#[trigger] items[i]) is Reasoning;
        assert(items.drop_last()[i] is Reasoning);
        lemma_some_block(items.drop_last());
    }
}

/// No two named blocks of a turn share a name.
proof fn lemma_distinct_blocks(start: AssemblerView, items: Seq<StreamedAssistantContentView>)
    requires
        start.pending_invalid is None,
        names_are_distinct(start.reasoning),
    ensures
        names_are_distinct(after_items(start, items).reasoning),
    decreases items.len(),
{
    if items.len() > 0 {
        let before = after_items(start, items.drop_last());
        lemma_distinct_blocks(start, items.drop_last());
        if let StreamedAssistantContentView::Reasoning(incoming) = items.last() {
            crate::assembler_laws::law_reasoning_merges_by_name(before.reasoning, incoming);
        }
    }
}

/// Texts, reasoning and what is the provider's own are handed on as they are. A complete tool
/// call is kept for the turn. A closing record that is taken in is told with what it says,
/// and with whether any text came before it.
pub proof fn law_items_are_handed_on(turn: AssemblerView, item: StreamedAssistantContentView)
    requires
        turn.pending_invalid is None,
    ensures
        item is Text || item is Reasoning || item is ReasoningDelta || item is Unknown
            ==> turn.events(item) == Ok::<Seq<StreamedTurnEventView>, CompletionErrorView>(
            seq![StreamedTurnEventView::EmitIngested],
        ),
        item is ToolCall ==> turn.events(item) == Ok::<
            Seq<StreamedTurnEventView>,
            CompletionErrorView,
        >(Seq::empty()),
        item matches StreamedAssistantContentView::Final(record) ==> turn.delta_error() is None
            ==> turn.events(item) == Ok::<Seq<StreamedTurnEventView>, CompletionErrorView>(
            seq![
                StreamedTurnEventView::Completed {
                    usage: record.usage,
                    finish_reason: record.finish_reason,
                    emit_final: turn.saw_text,
                },
            ],
        ),
        item matches StreamedAssistantContentView::ToolCallDelta {
            id,
            internal_call_id,
            content: ToolCallDeltaContentView::Name(name),
        } ==> {
            &&& turn.events(item) matches Ok(events)
            &&& events.len() > 0
            &&& events[0] == (StreamedTurnEventView::EmitToolCallDelta {
                id,
                internal_call_id,
                content: ToolCallDeltaContentView::Name(name),
            })
            &&& events.len() == 1 + delta_state(turn.deltas, id, internal_call_id).buffered.len()
            &&& forall|k: int|
                1 <= k < events.len() ==> (#[trigger] events[k])
                    == (StreamedTurnEventView::EmitToolCallDelta {
                    id,
                    internal_call_id,
                    content: ToolCallDeltaContentView::Delta(
                        delta_state(turn.deltas, id, internal_call_id).buffered[k - 1],
                    ),
                })
        },
{
}

/// A turn as far as it has come shows the text since the last closing record, where any came
/// in, the reasoning and the complete calls, in order.
pub proof fn law_partial_turn_shows_what_came_in(
    executable: Seq<Seq<char>>,
    allowed: Seq<Seq<char>>,
    items: Seq<StreamedAssistantContentView>,
    message_id: Option<Seq<char>>,
)
    requires
        forall|i: int| 0 <= i < items.len() ==> !((#[trigger] items[i]) is Final),
    ensures
        ({
            let shown = after_items(AssemblerView::start(executable, allowed), items).partial(
                message_id,
            );
            &&& shown.message_id == message_id
            &&& shown.text is Some <==> exists|i: int|
                0 <= i < items.len() && (#[trigger] items[i]) is Text
            &&& shown.text matches Some(text) ==> text == items.filter_map(
                |item: StreamedAssistantContentView| text_of_item(item),
            ).flatten()
            &&& shown.pending_tool_calls == items.filter_map(
                |item: StreamedAssistantContentView| call_of_item(item),
            ).map_values(|call: (ToolCallView, Seq<char>)| call.0)
            &&& shown.reasoning == after_items(
                AssemblerView::start(executable, allowed),
                items,
            ).finished(message_id, Seq::empty()).choice.filter_map(
                |part: AssistantContentView| block_of_part(part),
            )
        }),
{
    law_nothing_of_a_stream_is_lost(executable, allowed, items);
    let turn = after_items(AssemblerView::start(executable, allowed), items);
    let shown = turn.partial(message_id);
    assert(shown.pending_tool_calls =~= turn.calls.map_values(
        |call: (ToolCallView, Seq<char>)| call.0,
    ));
    let nothing = Seq::<AssistantContentView>::empty();
    let parts = call_parts(calls_of_pairs(turn.calls));
    law_texts_are_kept_in_order(nothing);
    assert(kept_texts(nothing) =~= nothing);
    lemma_blocks_in_replay_order(shown.reasoning, parts);
    let wrapped = shown.reasoning.map_values(
        |block: ReasoningView| AssistantContentView::Reasoning(block),
    );
    assert(wrapped + nothing + parts =~= wrapped + parts);
    if turn.calls.len() == 0 && shown.reasoning.len() == 0 {
        assert(wrapped + parts =~= nothing);
    }
}

/// A turn that is taken back shows its reasoning, then its text, then its calls with the
/// invalid one last. Each call is answered under its own ids as failed: the invalid one with
/// the feedback, word for word, the others with the notice for calls that did not run.
pub proof fn law_rollback_tells_why(
    turn: PartialStreamedTurnView,
    invalid: ToolCallView,
    feedback: Seq<char>,
)
    ensures
        ({
            let calls = turn.pending_tool_calls.push(invalid);
            let results = turn.rollback_results(invalid, feedback);
            let content = turn.content(Some(invalid));
            &&& results.len() == calls.len()
            &&& forall|i: int|
                0 <= i < calls.len() ==> {
                    &&& (#[trigger] results[i]) matches
                        crate::message::UserContentView::ToolResult(told)
                    &&& told.id == calls[i].id
                    &&& told.call_id == calls[i].call_id
                    &&& told.status == Some(
                        crate::message::ToolResultStatusView::Failed { code: None },
                    )
                    &&& told.content.len() == 1
                    &&& told.content[0] matches crate::message::ToolResultContentView::Text(text)
                    &&& text.text == (if i == calls.len() - 1 {
                        feedback
                    } else {
                        crate::streamed::invalid_peer_notice()
                    })
                }
            &&& content == turn.reasoning.map_values(
                |block: ReasoningView| AssistantContentView::Reasoning(block),
            ) + turn.text_parts() + calls.map_values(
                |call: ToolCallView| AssistantContentView::ToolCall(call),
            )
            &&& turn.text_parts().len() <= 1
            &&& turn.text matches Some(text) ==> text.len() > 0 ==> turn.text_parts() == seq![
                AssistantContentView::Text(
                    crate::message::TextView { text, additional_params: None },
                ),
            ]
        }),
{
}

/// The words of a turn end with its closing record: behind it there are none, and words that
/// come after it start anew.
pub proof fn law_words_end_with_the_record(
    turn: AssemblerView,
    record: StreamedAssistantContentView,
    words: StreamedAssistantContentView,
    message_id: Option<Seq<char>>,
)
    requires
        turn.pending_invalid is None,
        turn.delta_error() is None,
        record is Final,
        words is Text,
    ensures
        turn.after_item(record).partial(message_id).text is None,
        turn.after_item(record).after_item(words).partial(message_id).text == text_of_item(words),
        turn.after_item(record).reasoning == turn.reasoning,
        turn.after_item(record).calls == turn.calls,
        turn.after_item(record).deltas == turn.deltas,
{
}

/// A call of a tool that the model was not to call is put aside before anything of it is
/// taken in: it is told with its name, its arguments as far as they came, with null in place
/// of what is no JSON yet, and what the model could have called. Until it is settled nothing
/// more is read.
pub proof fn law_call_of_another_tool_is_put_aside(
    turn: AssemblerView,
    item: StreamedAssistantContentView,
    next: StreamedAssistantContentView,
)
    requires
        turn.pending_invalid is None,
        match item {
            StreamedAssistantContentView::ToolCall { tool_call, .. } =>
                !turn.allowed_tool_names.contains(tool_call.function.name),
            StreamedAssistantContentView::ToolCallDelta {
                content: ToolCallDeltaContentView::Name(name),
                ..
            } => !turn.allowed_tool_names.contains(name),
            _ => false,
        },
    ensures
        ({
            let after = turn.after_checked_item(item);
            &&& after.calls == turn.calls
            &&& after.deltas == turn.deltas
            &&& after.reasoning == turn.reasoning
            &&& after.delta_text == turn.delta_text
            &&& after.text == turn.text
            &&& after.pending_invalid is Some
            &&& after.events(next) is Err
            &&& after.after_item(next) == after
            &&& turn.checked_events(item) matches Ok(events)
            &&& events.len() == 1
            &&& events[0] matches StreamedTurnEventView::InvalidToolCall(told)
            &&& told.executable_tool_names == turn.executable_tool_names
            &&& told.allowed_tool_names == turn.allowed_tool_names
            &&& match item {
                StreamedAssistantContentView::ToolCall { tool_call, internal_call_id } => {
                    &&& told.tool_call == tool_call
                    &&& told.internal_call_id == internal_call_id
                    &&& told.args == Some(tool_call.function.arguments)
                },
                StreamedAssistantContentView::ToolCallDelta {
                    id,
                    internal_call_id,
                    content: ToolCallDeltaContentView::Name(name),
                } => {
                    &&& told.tool_call.id == id
                    &&& told.tool_call.function.name == name
                    &&& told.internal_call_id == internal_call_id
                    &&& told.args == Some(
                        delta_state(turn.deltas, id, internal_call_id).buffered.flatten(),
                    )
                    &&& match json_compact(told.args->0) {
                        Some(read) => told.tool_call.function.arguments == read,
                        None => told.tool_call.function.arguments == "null"@,
                    }
                },
                _ => true,
            }
        }),
{
    if let StreamedAssistantContentView::ToolCallDelta { id, internal_call_id, .. } = item {
        law_nothing_stands_between(delta_state(turn.deltas, id, internal_call_id).buffered);
    }
}

/// A complete call that was put aside leaves nothing behind where its turn is given up.
pub proof fn law_abandoned_call_leaves_nothing(
    turn: AssemblerView,
    tool_call: ToolCallView,
    internal_call_id: Seq<char>,
    skipped_tool_result: Option<ToolResultView>,
)
    requires
        turn.pending_invalid is None,
        !turn.allowed_tool_names.contains(tool_call.function.name),
    ensures
        ({
            let item = StreamedAssistantContentView::ToolCall { tool_call, internal_call_id };
            let given_up = StreamedResolutionView::TurnAbandoned { skipped_tool_result };
            &&& turn.after_checked_item(item).after_resolution(given_up) == turn
            &&& turn.after_checked_item(item).resolution_events(given_up).len() == 0
        }),
{
}

/// A name that was put aside and repaired is handed on under the new name, and the arguments
/// that waited for it behind it, in order.
pub proof fn law_repaired_name_is_handed_on(
    turn: AssemblerView,
    id: Seq<char>,
    internal_call_id: Seq<char>,
    name: Seq<char>,
    tool_name: Seq<char>,
)
    requires
        turn.pending_invalid is None,
        !turn.allowed_tool_names.contains(name),
    ensures
        ({
            let named = StreamedAssistantContentView::ToolCallDelta {
                id,
                internal_call_id,
                content: ToolCallDeltaContentView::Name(name),
            };
            let repaired = StreamedAssistantContentView::ToolCallDelta {
                id,
                internal_call_id,
                content: ToolCallDeltaContentView::Name(tool_name),
            };
            let repair = StreamedResolutionView::Repaired { tool_name };
            let aside = turn.after_checked_item(named);
            &&& turn.events(repaired) == Ok::<Seq<StreamedTurnEventView>, CompletionErrorView>(
                aside.resolution_events(repair),
            )
            &&& aside.after_resolution(repair) == turn.after_item(repaired)
        }),
{
}

proof fn lemma_first_waiting(deltas: Seq<DeltaStateView>)
    ensures
        first_waiting(deltas) <= deltas.len(),
        first_waiting(deltas) < deltas.len() ==> waits_for_name(
            deltas[first_waiting(deltas) as int],
        ),
        forall|i: int| 0 <= i < first_waiting(deltas) ==> !waits_for_name(#[trigger] deltas[i]),
    decreases deltas.len(),
{
    if deltas.len() > 0 && !waits_for_name(deltas[0]) {
        lemma_first_waiting(deltas.skip(1));
        assert forall|i: int| 0 <= i < first_waiting(deltas) implies !waits_for_name(
            #[trigger] deltas[i],
        ) by {
            if i > 0 {
                assert(deltas.skip(1)[i - 1] == deltas[i]);
            }
        }
    }
}

/// A turn is defective exactly where arguments of a call came in and its name did not. The
/// defect is that of the first such call: it goes by the id of the call, and says its two ids
/// and how many pieces wait. The closing record is refused with the same words.
pub proof fn law_nameless_arguments_are_a_defect(turn: AssemblerView)
    ensures
        turn.defect() is Some <==> exists|i: int|
            0 <= i < turn.deltas.len() && !(#[trigger] turn.deltas[i]).name_validated
                && turn.deltas[i].buffered.len() > 0,
        turn.delta_error() is Some <==> turn.defect() is Some,
        turn.defect() matches Some(defect) ==> exists|i: int|
            {
                &&& 0 <= i < turn.deltas.len()
                &&& !(#[trigger] turn.deltas[i]).name_validated
                &&& turn.deltas[i].buffered.len() > 0
                &&& forall|k: int|
                    0 <= k < i ==> (#[trigger] turn.deltas[k]).name_validated
                        || turn.deltas[k].buffered.len() == 0
                &&& defect matches CompletionErrorView::MalformedToolCall { tool, reason }
                &&& tool == turn.deltas[i].id
                &&& mentions(reason, turn.deltas[i].id)
                &&& mentions(reason, turn.deltas[i].internal_call_id)
                &&& mentions(reason, decimal(turn.deltas[i].buffered.len()))
                &&& turn.delta_error() == Some(CompletionErrorView::ResponseError(reason))
            },
{
    let first = first_waiting(turn.deltas) as int;
    lemma_first_waiting(turn.deltas);
    if first < turn.deltas.len() {
        let state = turn.deltas[first];
        let a = "streamed tool call arguments received before a validated tool name for id `"@;
        let b = "` and internal_call_id `"@;
        let c = "` ("@;
        let n = decimal(state.buffered.len());
        let d = " buffered argument delta(s))"@;
        let text = a + state.id + b + state.internal_call_id + c + n + d;
        assert(a + state.id + (b + state.internal_call_id + c + n + d) =~= text);
        assert((a + state.id + b) + state.internal_call_id + (c + n + d) =~= text);
        assert((a + state.id + b + state.internal_call_id + c) + n + d =~= text);
        assert(waits_for_name(state));
    }
}

} // verus!
