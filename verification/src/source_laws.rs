//! What reading a model's stream comes to, in terms of what the stream brought.

use vstd::prelude::*;
use crate::assembler::{AssemblerView, StreamedTurnEventView, StreamedTurnView};
use crate::assembler_laws::after_items;
use crate::attempt::{
    classified, content_after_final, forwarded, is_closing, model_turn, truncated_stream,
    AttemptOutcomeView, AttemptView,
};
use crate::completion::{CompletionErrorView, FinishReasonView};
use crate::message::AssistantContentView;
use crate::prompt_response::CompletionCallView;
use crate::run::RunView;
use crate::stream_item::MultiTurnStreamItemView;
use crate::stream_laws::law_nameless_arguments_are_a_defect;
use crate::streaming::StreamedAssistantContentView;
use crate::turn_laws::{lemma_filter_map_last, lemma_filter_map_of_concatenation};
use crate::turn_source::{read_alike, run_after_item, StreamedModelTurnView};
use crate::usage::{sum_usage, Usage};

verus! {

/// What reading a stream gives for each place: an item, or an error.
pub type StreamEntry = Result<StreamedAssistantContentView, CompletionErrorView>;

/// The items of a stream that brought no error.
pub open spec fn items_of(entries: Seq<StreamEntry>) -> Seq<StreamedAssistantContentView> {
    entries.map_values(|entry: StreamEntry| entry->Ok_0)
}

proof fn lemma_first_item_first(turn: AssemblerView, items: Seq<StreamedAssistantContentView>)
    requires
        items.len() > 0,
    ensures
        after_items(turn, items) == after_items(turn.after_item(items[0]), items.skip(1)),
    decreases items.len(),
{
    reveal_with_fuel(after_items, 2);
    let rest = items.skip(1);
    if items.len() == 1 {
        assert(items.drop_last() =~= Seq::empty());
        assert(rest =~= Seq::empty());
    } else {
        lemma_first_item_first(turn, items.drop_last());
        assert(items.drop_last().skip(1) =~= rest.drop_last());
        assert(items.last() == rest.last());
    }
}

/// A turn that is complete is what its stream brought, all of it: the content, the id of the
/// message, the tools and the ids of its calls are those that reading the items one behind
/// the other gives.
pub proof fn law_complete_turn_is_what_was_read(
    attempt: AttemptView,
    entries: Seq<StreamEntry>,
    message_id: Option<Seq<char>>,
    choice: Seq<AssistantContentView>,
)
    ensures
        attempt.consumed(entries, message_id, choice).1 matches AttemptOutcomeView::Completed {
            turn,
            ..
        } ==> {
            let read = after_items(attempt.assembler, items_of(entries)).finished(
                message_id,
                choice,
            );
            &&& turn.message_id == read.message_id
            &&& turn.choice == read.choice
            &&& turn.executable_tool_names == read.executable_tool_names
            &&& turn.allowed_tool_names == read.allowed_tool_names
            &&& turn.internal_call_ids == read.internal_call_ids
        },
    decreases entries.len(),
{
    if entries.len() == 0 {
        assert(items_of(entries) =~= Seq::empty());
    } else if attempt.failure(entries[0]) is None {
        let item = entries[0]->Ok_0;
        law_complete_turn_is_what_was_read(
            attempt.after_item(item),
            entries.skip(1),
            message_id,
            choice,
        );
        lemma_first_item_first(attempt.assembler, items_of(entries));
        assert(items_of(entries)[0] == item);
        assert(items_of(entries).skip(1) =~= items_of(entries.skip(1)));
    } else if let Err(error) = entries[0] {
        assert(!(classified(error) is Completed));
    }
}

/// A turn takes over what was read, with the usage and the reason for stopping beside it.
pub proof fn law_turn_takes_over_what_was_read(
    read: StreamedTurnView,
    usage: Usage,
    finish_reason: Option<FinishReasonView>,
)
    ensures
        model_turn(read, usage, finish_reason).message_id == read.message_id,
        model_turn(read, usage, finish_reason).choice == read.choice,
        model_turn(read, usage, finish_reason).usage == usage,
        model_turn(read, usage, finish_reason).finish_reason == finish_reason,
        model_turn(read, usage, finish_reason).executable_tool_names == read.executable_tool_names,
        model_turn(read, usage, finish_reason).allowed_tool_names == read.allowed_tool_names,
        model_turn(read, usage, finish_reason).internal_call_ids == read.internal_call_ids,
{
}

/// What an event hands on of the item that it belongs to.
pub open spec fn handed_on_by(
    event: StreamedTurnEventView,
    item: StreamedAssistantContentView,
) -> Option<StreamedAssistantContentView> {
    match event {
        StreamedTurnEventView::EmitIngested => Some(item),
        StreamedTurnEventView::EmitToolCallDelta { id, internal_call_id, content } => Some(
            StreamedAssistantContentView::ToolCallDelta { id, internal_call_id, content },
        ),
        _ => None,
    }
}

/// Whether an event at or behind a place hands on the item itself.
pub open spec fn hands_on_the_item(events: Seq<StreamedTurnEventView>, from: int) -> bool {
    exists|i: int| from <= i < events.len() && (#[trigger] events[i]) is EmitIngested
}

proof fn lemma_filter_map_first<A, B>(all: Seq<A>, f: spec_fn(A) -> Option<B>)
    requires
        all.len() > 0,
    ensures
        all.filter_map(f) == (match f(all[0]) {
            Some(b) => seq![b] + all.skip(1).filter_map(f),
            None => all.skip(1).filter_map(f),
        }),
    decreases all.len(),
{
    lemma_filter_map_last(all, f);
    let rest = all.skip(1);
    if all.len() == 1 {
        assert(all.drop_last() =~= Seq::empty());
        assert(rest =~= Seq::empty());
        if let Some(b) = f(all[0]) {
            assert(Seq::<B>::empty().push(b) =~= seq![b] + Seq::<B>::empty());
        }
    } else {
        lemma_filter_map_first(all.drop_last(), f);
        lemma_filter_map_last(rest, f);
        assert(all.drop_last().skip(1) =~= rest.drop_last());
        assert(all.last() == rest.last());
        if let Some(a) = f(all[0]) {
            if let Some(b) = f(all.last()) {
                let middle = rest.drop_last().filter_map(f);
                assert((seq![a] + middle).push(b) =~= seq![a] + middle.push(b));
            }
        }
    }
}

proof fn lemma_forwarded(
    events: Seq<StreamedTurnEventView>,
    item: StreamedAssistantContentView,
    unspent: bool,
)
    requires
        unspent || !hands_on_the_item(events, 0),
        forall|i: int|
            0 <= i < events.len() && (#[trigger] events[i]) is EmitIngested
                ==> !hands_on_the_item(events, i + 1),
    ensures
        forwarded(events, item, unspent) == events.filter_map(
            |event: StreamedTurnEventView| handed_on_by(event, item),
        ),
    decreases events.len(),
{
    let f = |event: StreamedTurnEventView| handed_on_by(event, item);
    if events.len() > 0 {
        let rest = events.skip(1);
        lemma_filter_map_first(events, f);
        assert(!unspent || events[0] is EmitIngested ==> !hands_on_the_item(rest, 0)) by {
            if hands_on_the_item(rest, 0) {
                let i = choose|i: int| 0 <= i < rest.len() && (#[trigger] rest[i]) is EmitIngested;
                assert(events[i + 1] is EmitIngested);
                assert(hands_on_the_item(events, 0));
                assert(hands_on_the_item(events, 1));
            }
        }
        assert forall|i: int|
            0 <= i < rest.len() && (#[trigger] rest[i]) is EmitIngested implies !hands_on_the_item(
            rest,
            i + 1,
        ) by {
            assert(events[i + 1] is EmitIngested);
            if hands_on_the_item(rest, i + 1) {
                let k = choose|k: int|
                    i + 1 <= k < rest.len() && (#[trigger] rest[k]) is EmitIngested;
                assert(events[k + 1] is EmitIngested);
                assert(hands_on_the_item(events, i + 2));
            }
        }
        if events[0] is EmitIngested {
            assert(!(!unspent)) by {
                assert(!unspent ==> !hands_on_the_item(events, 0));
            }
            lemma_forwarded(rest, item, false);
        } else {
            lemma_forwarded(rest, item, unspent);
        }
    } else {
        assert(forwarded(events, item, unspent) =~= events.filter_map(f));
    }
}

/// What the events of an item say is handed on is handed on, in their order: the item itself
/// where they say so, and each piece of a call that they name.
pub proof fn law_events_are_carried_out(
    events: Seq<StreamedTurnEventView>,
    item: StreamedAssistantContentView,
)
    requires
        forall|i: int|
            0 <= i < events.len() && (#[trigger] events[i]) is EmitIngested
                ==> !hands_on_the_item(events, i + 1),
    ensures
        forwarded(events, item, true) == events.filter_map(
            |event: StreamedTurnEventView| handed_on_by(event, item),
        ),
{
    lemma_forwarded(events, item, true);
}

/// An item that readers of the stream see as it came in.
pub open spec fn seen_as_it_is(item: StreamedAssistantContentView) -> Option<
    StreamedAssistantContentView,
> {
    match item {
        StreamedAssistantContentView::Text(_) => Some(item),
        StreamedAssistantContentView::Reasoning(_) => Some(item),
        StreamedAssistantContentView::ReasoningDelta { .. } => Some(item),
        StreamedAssistantContentView::Unknown(_) => Some(item),
        _ => None,
    }
}

proof fn lemma_handed_on(attempt: AttemptView, item: StreamedAssistantContentView)
    requires
        attempt.failure(Ok(item)) is None,
    ensures
        attempt.handed_on(item).filter_map(
            |item: StreamedAssistantContentView| seen_as_it_is(item),
        ) == (match seen_as_it_is(item) {
            Some(seen) => seq![seen],
            None => Seq::empty(),
        }),
{
    let seen = |item: StreamedAssistantContentView| seen_as_it_is(item);
    let events = attempt.assembler.events(item)->Ok_0;
    let handed = attempt.handed_on(item);
    reveal_with_fuel(forwarded, 2);
    if seen_as_it_is(item) is Some {
        assert(events == seq![StreamedTurnEventView::EmitIngested]);
        assert(events.skip(1) =~= Seq::empty());
        assert(handed =~= seq![item]);
        lemma_filter_map_last(handed, seen);
        assert(handed.drop_last() =~= Seq::empty());
        assert(handed.filter_map(seen) =~= seq![item]);
    } else {
        assert(forall|i: int| 0 <= i < events.len() ==> !((#[trigger] events[i]) is EmitIngested));
        lemma_only_pieces(events, item);
        lemma_nothing_seen(handed);
    }
}

proof fn lemma_only_pieces(
    events: Seq<StreamedTurnEventView>,
    item: StreamedAssistantContentView,
)
    requires
        forall|i: int| 0 <= i < events.len() ==> !((#[trigger] events[i]) is EmitIngested),
    ensures
        forall|i: int|
            0 <= i < forwarded(events, item, true).len() ==> (#[trigger] forwarded(
                events,
                item,
                true,
            )[i]) is ToolCallDelta,
    decreases events.len(),
{
    if events.len() > 0 {
        let rest = events.skip(1);
        assert forall|i: int| 0 <= i < rest.len() implies !((#[trigger] rest[i]) is EmitIngested) by {
            assert(rest[i] == events[i + 1]);
        }
        assert(!(events[0] is EmitIngested));
        lemma_only_pieces(rest, item);
        assert forall|i: int| 0 <= i < forwarded(events, item, true).len() implies (
        #[trigger] forwarded(events, item, true)[i]) is ToolCallDelta by {
            if events[0] is EmitToolCallDelta {
                if i > 0 {
                    assert(forwarded(events, item, true)[i] == forwarded(rest, item, true)[i - 1]);
                }
            } else {
                assert(forwarded(events, item, true)[i] == forwarded(rest, item, true)[i]);
            }
        }
    }
}

proof fn lemma_nothing_seen(items: Seq<StreamedAssistantContentView>)
    requires
        forall|i: int| 0 <= i < items.len() ==> (#[trigger] items[i]) is ToolCallDelta,
    ensures
        items.filter_map(|item: StreamedAssistantContentView| seen_as_it_is(item)) == Seq::<
            StreamedAssistantContentView,
        >::empty(),
    decreases items.len(),
{
    let seen = |item: StreamedAssistantContentView| seen_as_it_is(item);
    if items.len() > 0 {
        let before = items.drop_last();
        assert forall|i: int| 0 <= i < before.len() implies (
        #[trigger] before[i]) is ToolCallDelta by {
            assert(before[i] == items[i]);
        }
        lemma_nothing_seen(before);
        lemma_filter_map_last(items, seen);
        assert(items[items.len() - 1] is ToolCallDelta);
    } else {
        assert(items.filter_map(seen) =~= Seq::empty());
    }
}

/// Texts, reasoning and what is the provider's own reach those who listen to a stream that
/// comes to a complete turn: all of it, as it is, in order and once.
pub proof fn law_listeners_see_the_stream(
    attempt: AttemptView,
    entries: Seq<StreamEntry>,
    message_id: Option<Seq<char>>,
    choice: Seq<AssistantContentView>,
)
    requires
        attempt.consumed(entries, message_id, choice).1 is Completed,
    ensures
        attempt.consumed(entries, message_id, choice).0.filter_map(
            |item: StreamedAssistantContentView| seen_as_it_is(item),
        ) == items_of(entries).filter_map(
            |item: StreamedAssistantContentView| seen_as_it_is(item),
        ),
    decreases entries.len(),
{
    let seen = |item: StreamedAssistantContentView| seen_as_it_is(item);
    if entries.len() == 0 {
        assert(items_of(entries) =~= Seq::empty());
    } else {
        if let Err(error) = entries[0] {
            assert(!(classified(error) is Completed));
        }
        assert(attempt.failure(entries[0]) is None);
        let item = entries[0]->Ok_0;
        let next = attempt.after_item(item);
        let rest = entries.skip(1);
        law_listeners_see_the_stream(next, rest, message_id, choice);
        lemma_handed_on(attempt, item);
        lemma_filter_map_of_concatenation(
            attempt.handed_on(item),
            next.consumed(rest, message_id, choice).0,
            seen,
        );
        assert(items_of(entries).skip(1) =~= items_of(rest));
        lemma_filter_map_first(items_of(entries), seen);
        assert(items_of(entries)[0] == item);
        if seen_as_it_is(item) is None {
            assert(Seq::<StreamedAssistantContentView>::empty() + items_of(rest).filter_map(seen)
                =~= items_of(rest).filter_map(seen));
        }
    }
}

/// An error in a stream is what the attempt comes to, where nothing went wrong before it: a
/// call that could not be read is told as such, and everything else as it is.
pub proof fn law_first_error_is_told(
    attempt: AttemptView,
    error: CompletionErrorView,
    rest: Seq<StreamEntry>,
    message_id: Option<Seq<char>>,
    choice: Seq<AssistantContentView>,
)
    ensures
        ({
            let told = attempt.consumed(
                seq![Err::<StreamedAssistantContentView, CompletionErrorView>(error)] + rest,
                message_id,
                choice,
            );
            &&& told.0.len() == 0
            &&& match error {
                CompletionErrorView::MalformedToolCall { tool, reason } => told.1
                    == (AttemptOutcomeView::MalformedToolCall { tool, reason }),
                _ => told.1 == AttemptOutcomeView::Failed(error),
            }
        }),
{
    let entries = seq![Err::<StreamedAssistantContentView, CompletionErrorView>(error)] + rest;
    assert(entries[0] == Err::<StreamedAssistantContentView, CompletionErrorView>(error));
}

/// A stream that ends without its closing record was cut off, and nothing may follow that
/// record.
pub proof fn law_closing_record_comes_last(
    attempt: AttemptView,
    item: StreamedAssistantContentView,
    message_id: Option<Seq<char>>,
    choice: Seq<AssistantContentView>,
)
    ensures
        !attempt.closed ==> attempt.consumed(Seq::empty(), message_id, choice).1
            == AttemptOutcomeView::Failed(truncated_stream()),
        attempt.closed ==> attempt.failure(Ok(item)) == Some(
            AttemptOutcomeView::Failed(content_after_final()),
        ),
        !attempt.closed && attempt.failure(Ok(item)) is None ==> attempt.after_item(item).closed
            == is_closing(Ok(item)),
{
}

/// Before the closing record everything is read, and the record itself is read too, unless
/// arguments of a call came in and its name did not: then the turn cannot be read, and the
/// attempt comes to a call that could not be read, by its id.
pub proof fn law_only_a_nameless_call_spoils_a_turn(
    attempt: AttemptView,
    item: StreamedAssistantContentView,
)
    requires
        !attempt.closed,
        attempt.assembler.pending_invalid is None,
    ensures
        attempt.failure(Ok(item)) is Some <==> item is Final && exists|i: int|
            0 <= i < attempt.assembler.deltas.len() && !(
            #[trigger] attempt.assembler.deltas[i]).name_validated
                && attempt.assembler.deltas[i].buffered.len() > 0,
        attempt.failure(Ok(item)) matches Some(outcome) ==> outcome is MalformedToolCall && exists|
            i: int,
        |
            0 <= i < attempt.assembler.deltas.len() && (#[trigger] attempt.assembler.deltas[i]).id
                == outcome->tool,
{
    law_nameless_arguments_are_a_defect(attempt.assembler);
}

/// The loop of a run hands on what an attempt hands on, item by item. The closing record is
/// billed instead: under the next number, with its own usage and reason for stopping, and
/// added to the usage so far, unless the call was billed before.
pub proof fn law_run_hands_on_what_it_reads(
    turn: StreamedModelTurnView,
    attempt: AttemptView,
    run: RunView,
    item: StreamedAssistantContentView,
)
    requires
        read_alike(turn, attempt),
        turn.failure(item) is None,
    ensures
        turn.items(run, item) matches Ok(items) && match item {
            StreamedAssistantContentView::Final(record) => {
                let entry = CompletionCallView {
                    call_index: run.ledger.calls.len(),
                    usage: record.usage,
                    finish_reason: record.finish_reason,
                };
                if run.unrecorded() {
                    &&& items == seq![MultiTurnStreamItemView::CompletionCall(entry)]
                    &&& run_after_item(turn, run, item).ledger.calls == run.ledger.calls.push(entry)
                    &&& run_after_item(turn, run, item).ledger.usage == sum_usage(
                        run.ledger.usage,
                        record.usage,
                    )
                } else {
                    &&& items.len() == 0
                    &&& run_after_item(turn, run, item) == run
                }
            },
            _ => {
                &&& run_after_item(turn, run, item) == run
                &&& items.len() == attempt.handed_on(item).len()
                &&& forall|k: int|
                    0 <= k < items.len() ==> #[trigger] items[k]
                        == MultiTurnStreamItemView::StreamAssistantItem(
                        attempt.handed_on(item)[k],
                    )
            },
        },
{
}

/// An item that cannot be taken in changes nothing: neither the turn nor the run.
pub proof fn law_refused_item_changes_nothing(
    turn: StreamedModelTurnView,
    run: RunView,
    item: StreamedAssistantContentView,
)
    requires
        turn.failure(item) is Some,
    ensures
        turn.after_item(item) == turn,
        run_after_item(turn, run, item) == run,
        turn.items(run, item) is Err,
        turn.closed ==> turn.failure(item) == Some(content_after_final()),
{
}

/// At the end of a turn that said something in words its closing record goes out, and where
/// it said nothing no record does.
pub proof fn law_closing_record_follows_the_words(
    turn: StreamedModelTurnView,
    item: StreamedAssistantContentView,
)
    requires
        item is Final,
        turn.failure(item) is None,
        turn.pending_final is None,
    ensures
        turn.after_item(item).end_items() == (if turn.assembler.saw_text {
            seq![MultiTurnStreamItemView::StreamAssistantItem(item)]
        } else {
            Seq::empty()
        }),
        turn.after_item(item).closed,
{
}

} // verus!
