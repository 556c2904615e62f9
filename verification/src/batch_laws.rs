//! What holds of every batch of tool calls: what goes out, what goes into the history, in
//! which order.

use vstd::prelude::*;
use crate::message::{ToolCallView, ToolResultView, UserContentView};
use crate::stream_item::MultiTurnStreamItemView;
use crate::streaming::{StreamedAssistantContentView, StreamedUserContentView};
use crate::tool_batch::{
    after_records, all_surface_items, call_items, collected, prepared, surface_items, BatchRecord,
    CollectedToolResultView, PreparedToolCallView, ToolBatchView, ToolSurfaceView,
};
use crate::tool_run::{ToolCallOutcomeView, ToolExecutionView};
use crate::turn::PendingToolCallView;
use crate::turn_laws::{lemma_filter_map_last, lemma_filter_map_of_concatenation};

verus! {

/// A call is made ready as it is: it keeps its id where it has one, and only where it has
/// none gets a fresh one.
pub proof fn law_ready_call_is_the_call(call: PendingToolCallView, fresh_id: Seq<char>)
    ensures
        prepared(call, fresh_id).tool_call == call.tool_call,
        prepared(call, fresh_id).preresolved_result == call.preresolved_result,
        call.internal_call_id is None ==> prepared(call, fresh_id).internal_call_id == fresh_id,
        call.internal_call_id is Some ==> Some(prepared(call, fresh_id).internal_call_id)
            == call.internal_call_id,
{
}

/// The call that an item announces, with the id it goes by.
pub open spec fn announced_call(item: MultiTurnStreamItemView) -> Option<(ToolCallView, Seq<char>)> {
    match item {
        MultiTurnStreamItemView::StreamAssistantItem(
            StreamedAssistantContentView::ToolCall { tool_call, internal_call_id },
        ) => Some((tool_call, internal_call_id)),
        _ => None,
    }
}

/// A call that is to run, with the id it goes by.
pub open spec fn call_to_run(call: PreparedToolCallView) -> Option<(ToolCallView, Seq<char>)> {
    if call.preresolved_result is None {
        Some((call.tool_call, call.internal_call_id))
    } else {
        None
    }
}

/// The calls that are to run are announced, each once and in their order, and nothing else
/// is.
pub proof fn law_calls_to_run_are_announced(calls: Seq<PreparedToolCallView>)
    ensures
        call_items(calls).map_values(|item: MultiTurnStreamItemView| announced_call(item))
            == calls.filter_map(|call: PreparedToolCallView| call_to_run(call)).map_values(
            |call: (ToolCallView, Seq<char>)| Some(call),
        ),
    decreases calls.len(),
{
    let announced = |item: MultiTurnStreamItemView| announced_call(item);
    let to_run = |call: PreparedToolCallView| call_to_run(call);
    let wrap = |call: (ToolCallView, Seq<char>)| Some(call);
    if calls.len() > 0 {
        law_calls_to_run_are_announced(calls.drop_last());
        lemma_filter_map_last(calls, to_run);
        let before = call_items(calls.drop_last());
        let run_before = calls.drop_last().filter_map(to_run);
        if let Some(call) = call_to_run(calls.last()) {
            assert(call_items(calls).map_values(announced) =~= before.map_values(announced).push(
                Some(call),
            ));
            assert(run_before.push(call).map_values(wrap) =~= run_before.map_values(wrap).push(
                Some(call),
            ));
        }
    } else {
        assert(call_items(calls).map_values(announced) =~= calls.filter_map(to_run).map_values(
            wrap,
        ));
    }
}

/// The call that an item says has run, with the id it goes by.
pub open spec fn call_run(item: MultiTurnStreamItemView) -> Option<(ToolCallView, Seq<char>)> {
    match item {
        MultiTurnStreamItemView::ToolExecutionCommitted { tool_call, internal_call_id } => Some(
            (tool_call, internal_call_id),
        ),
        _ => None,
    }
}

/// The result that an item shows, with the id its call goes by.
pub open spec fn result_shown(item: MultiTurnStreamItemView) -> Option<
    (ToolResultView, Seq<char>),
> {
    match item {
        MultiTurnStreamItemView::StreamUserItem(
            StreamedUserContentView::ToolResult { tool_result, internal_call_id },
        ) => Some((tool_result, internal_call_id)),
        _ => None,
    }
}

/// The call that came to a result by running, with the id it goes by.
pub open spec fn call_behind(result: CollectedToolResultView) -> Option<(ToolCallView, Seq<char>)> {
    match result.surface {
        ToolSurfaceView::Executed(call) => Some((call, result.internal_call_id)),
        _ => None,
    }
}

/// A result that the hooks had a say in, with the id its call goes by. One that stood in
/// place of running the call is none.
pub open spec fn result_to_show(result: CollectedToolResultView) -> Option<
    (ToolResultView, Seq<char>),
> {
    match (result.surface, result.content) {
        (ToolSurfaceView::Preresolved, _) => None,
        (_, UserContentView::ToolResult(told)) => Some((told, result.internal_call_id)),
        _ => None,
    }
}

proof fn lemma_items_of_one(result: CollectedToolResultView)
    ensures
        surface_items(result).filter_map(|item: MultiTurnStreamItemView| call_run(item)) == (
        match call_behind(result) {
            Some(call) => seq![call],
            None => Seq::empty(),
        }),
        surface_items(result).filter_map(|item: MultiTurnStreamItemView| result_shown(item)) == (
        match result_to_show(result) {
            Some(told) => seq![told],
            None => Seq::empty(),
        }),
{
    let run = |item: MultiTurnStreamItemView| call_run(item);
    let shown = |item: MultiTurnStreamItemView| result_shown(item);
    let items = surface_items(result);
    assert(items.len() <= 2);
    if items.len() > 0 {
        lemma_filter_map_last(items, run);
        lemma_filter_map_last(items, shown);
        let before = items.drop_last();
        if before.len() > 0 {
            lemma_filter_map_last(before, run);
            lemma_filter_map_last(before, shown);
            assert(before.drop_last() =~= Seq::empty());
        } else {
            assert(before =~= Seq::empty());
        }
    }
    assert(items.filter_map(run) =~= match call_behind(result) {
        Some(call) => seq![call],
        None => Seq::empty(),
    });
    assert(items.filter_map(shown) =~= match result_to_show(result) {
        Some(told) => seq![told],
        None => Seq::empty(),
    });
}

/// Of a settled batch go out the calls that ran and the results that the hooks had a say in,
/// each once and in call order, and nothing of a result that stood in place of a call.
pub proof fn law_batch_shows_what_happened(results: Seq<CollectedToolResultView>)
    ensures
        all_surface_items(results).filter_map(|item: MultiTurnStreamItemView| call_run(item))
            == results.filter_map(|result: CollectedToolResultView| call_behind(result)),
        all_surface_items(results).filter_map(|item: MultiTurnStreamItemView| result_shown(item))
            == results.filter_map(|result: CollectedToolResultView| result_to_show(result)),
        forall|i: int|
            0 <= i < all_surface_items(results).len() ==> call_run(
                #[trigger] all_surface_items(results)[i],
            ) is Some || result_shown(all_surface_items(results)[i]) is Some,
    decreases results.len(),
{
    let run = |item: MultiTurnStreamItemView| call_run(item);
    let shown = |item: MultiTurnStreamItemView| result_shown(item);
    let behind = |result: CollectedToolResultView| call_behind(result);
    let to_show = |result: CollectedToolResultView| result_to_show(result);
    if results.len() > 0 {
        let before = all_surface_items(results.drop_last());
        let last = surface_items(results.last());
        law_batch_shows_what_happened(results.drop_last());
        lemma_items_of_one(results.last());
        lemma_filter_map_of_concatenation(before, last, run);
        lemma_filter_map_of_concatenation(before, last, shown);
        lemma_filter_map_last(results, behind);
        lemma_filter_map_last(results, to_show);
        assert(all_surface_items(results).filter_map(run) =~= results.filter_map(behind));
        assert(all_surface_items(results).filter_map(shown) =~= results.filter_map(to_show));
        assert forall|i: int| 0 <= i < all_surface_items(results).len() implies call_run(
            #[trigger] all_surface_items(results)[i],
        ) is Some || result_shown(all_surface_items(results)[i]) is Some by {
            if i < before.len() {
                assert(all_surface_items(results)[i] == before[i]);
            } else {
                assert(all_surface_items(results)[i] == last[i - before.len()]);
            }
        }
    } else {
        assert(all_surface_items(results).filter_map(run) =~= results.filter_map(behind));
        assert(all_surface_items(results).filter_map(shown) =~= results.filter_map(to_show));
    }
}

/// A call is said to have run before its result is shown.
pub proof fn law_run_comes_before_the_result(result: CollectedToolResultView)
    ensures
        result.surface is Executed ==> surface_items(result).len() > 0 && call_run(
            surface_items(result)[0],
        ) == call_behind(result),
        surface_items(result).len() <= 2,
{
}

/// What is kept of an outcome: what the model is told, and the call where it ran.
pub proof fn law_outcome_is_kept(outcome: ToolCallOutcomeView, internal_call_id: Seq<char>)
    ensures
        collected(outcome, internal_call_id).content == outcome.content,
        collected(outcome, internal_call_id).internal_call_id == internal_call_id,
        call_behind(collected(outcome, internal_call_id)) == (match outcome.execution {
            ToolExecutionView::Executed(call) => Some((call, internal_call_id)),
            ToolExecutionView::Skipped => None,
        }),
        outcome.content matches UserContentView::ToolResult(told) ==> result_to_show(
            collected(outcome, internal_call_id),
        ) == Some((told, internal_call_id)),
{
}

/// Whether there is an outcome for a call.
pub open spec fn has_record(records: Seq<BatchRecord>, place: int) -> bool {
    exists|i: int| 0 <= i < records.len() && (#[trigger] records[i]).0 == place
}

proof fn lemma_slots(n: nat, records: Seq<BatchRecord>)
    ensures
        after_records(ToolBatchView::start(n), records).slots.len() == n,
    decreases records.len(),
{
    if records.len() > 0 {
        lemma_slots(n, records.drop_last());
    }
}

proof fn lemma_filled_slots(n: nat, records: Seq<BatchRecord>, place: int)
    requires
        0 <= place < n,
    ensures
        after_records(ToolBatchView::start(n), records).slots[place] is Some <==> has_record(
            records,
            place,
        ),
    decreases records.len(),
{
    if records.len() > 0 {
        let earlier = records.drop_last();
        let last = records.len() - 1;
        lemma_slots(n, earlier);
        lemma_filled_slots(n, earlier, place);
        if has_record(earlier, place) {
            let i = choose|i: int| 0 <= i < earlier.len() && (#[trigger] earlier[i]).0 == place;
            assert(records[i].0 == place);
        }
        if records[last].0 == place {
            assert(has_record(records, place));
        } else if has_record(records, place) {
            let i = choose|i: int| 0 <= i < records.len() && (#[trigger] records[i]).0 == place;
            assert(earlier[i].0 == place);
        }
    }
}

proof fn lemma_slot_holds_its_result(n: nat, records: Seq<BatchRecord>, i: int)
    requires
        0 <= i < records.len(),
        records[i].0 < n,
        forall|j: int| i < j < records.len() ==> (#[trigger] records[j]).0 != records[i].0,
    ensures
        after_records(ToolBatchView::start(n), records).slots[records[i].0 as int] == Some(
            records[i].1,
        ),
    decreases records.len(),
{
    let earlier = records.drop_last();
    let last = records.len() - 1;
    lemma_slots(n, earlier);
    if i < last {
        assert(records[last].0 != records[i].0);
        assert(earlier[i] == records[i]);
        assert forall|j: int| i < j < earlier.len() implies (#[trigger] earlier[j]).0
            != earlier[i].0 by {
            assert(earlier[j] == records[j]);
        }
        lemma_slot_holds_its_result(n, earlier, i);
    }
}

/// A batch is complete once each of its calls has an outcome. What then goes into the history
/// is one result for each call, at the place of the call, and it is the one that came in for
/// that call, in whatever order they came in.
pub proof fn law_results_stand_in_call_order(n: nat, records: Seq<BatchRecord>)
    requires
        forall|i: int, j: int|
            0 <= i < j < records.len() ==> (#[trigger] records[i]).0 != (#[trigger] records[j]).0,
        forall|i: int| 0 <= i < records.len() ==> (#[trigger] records[i]).0 < n,
    ensures
        ({
            let batch = after_records(ToolBatchView::start(n), records);
            &&& batch.complete() <==> forall|place: int|
                0 <= place < n ==> #[trigger] has_record(records, place)
            &&& batch.committed().len() == n
            &&& batch.results().len() == n
            &&& forall|i: int|
                0 <= i < records.len() ==> batch.committed()[(#[trigger] records[i]).0 as int]
                    == records[i].1.content && batch.results()[records[i].0 as int] == records[i].1
        }),
{
    let batch = after_records(ToolBatchView::start(n), records);
    lemma_slots(n, records);
    assert forall|place: int| 0 <= place < n implies (batch.slots[place] is Some <==>
        #[trigger] has_record(records, place)) by {
        lemma_filled_slots(n, records, place);
    }
    if batch.complete() {
        assert forall|place: int| 0 <= place < n implies #[trigger] has_record(records, place) by {
            assert(batch.slots[place] is Some);
        }
    }
    if forall|place: int| 0 <= place < n ==> #[trigger] has_record(records, place) {
        assert forall|i: int| 0 <= i < batch.slots.len() implies (
        #[trigger] batch.slots[i]) is Some by {
            assert(has_record(records, i));
        }
    }
    assert forall|i: int| 0 <= i < records.len() implies batch.committed()[(
    #[trigger] records[i]).0 as int] == records[i].1.content && batch.results()[records[i].0 as int]
        == records[i].1 by {
        lemma_slot_holds_its_result(n, records, i);
    }
}

/// Nothing of a settled batch goes out where nobody listens, and otherwise all of it does.
pub proof fn law_items_go_out_where_someone_listens(batch: ToolBatchView)
    ensures
        batch.items(false).len() == 0,
        batch.items(true) == all_surface_items(batch.results()),
{
}

} // verus!
