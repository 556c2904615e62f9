//! What holds of every turn: its calls, its answer, what it uses.

use vstd::prelude::*;
use crate::completion::FinishReasonView;
use crate::message::{
    calls_in, AssistantContentView, TextView, ToolCallView, ToolResultContentView,
    ToolResultStatusView, UserContentView,
};
use crate::prompt_response::{
    failure_result, says_nothing, text_content, turn_text, unmarked_result, CompletionCallView,
};
use crate::strings::joined;
use crate::turn::{
    admission, first_paired_with, rejection, ModelTurnView, RunLedgerView,
};
use crate::usage::{addable, sum_usage, zero_usage, Usage};

verus! {

/// What a sequence has of one more element at its end.
pub proof fn lemma_filter_map_last<A, B>(all: Seq<A>, f: spec_fn(A) -> Option<B>)
    requires
        all.len() > 0,
    ensures
        all.filter_map(f) == (match f(all.last()) {
            Some(b) => all.drop_last().filter_map(f).push(b),
            None => all.drop_last().filter_map(f),
        }),
{
    if let Some(b) = f(all.last()) {
        assert(all.drop_last().filter_map(f) + seq![b] =~= all.drop_last().filter_map(f).push(b));
    }
}

/// What two sequences have, one behind the other.
pub proof fn lemma_filter_map_of_concatenation<A, B>(
    front: Seq<A>,
    back: Seq<A>,
    f: spec_fn(A) -> Option<B>,
)
    ensures
        (front + back).filter_map(f) == front.filter_map(f) + back.filter_map(f),
    decreases back.len(),
{
    if back.len() == 0 {
        assert(front + back =~= front);
        assert(front.filter_map(f) + back.filter_map(f) =~= front.filter_map(f));
    } else {
        let all = front + back;
        assert(all.drop_last() =~= front + back.drop_last());
        lemma_filter_map_of_concatenation(front, back.drop_last(), f);
        lemma_filter_map_last(all, f);
        lemma_filter_map_last(back, f);
        assert(all.filter_map(f) =~= front.filter_map(f) + back.filter_map(f));
    }
}

/// The calls of a turn, part by part.
pub open spec fn call_of_part(part: AssistantContentView) -> Option<ToolCallView> {
    match part {
        AssistantContentView::ToolCall(call) => Some(call),
        _ => None,
    }
}

/// The texts of a turn, part by part.
pub open spec fn text_of_part(part: AssistantContentView) -> Option<Seq<char>> {
    match part {
        AssistantContentView::Text(text) => Some(text.text),
        _ => None,
    }
}

/// Whether `part` stands somewhere in `whole`.
pub open spec fn mentions(whole: Seq<char>, part: Seq<char>) -> bool {
    exists|front: Seq<char>, back: Seq<char>| #[trigger] (front + part + back) == whole
}

/// What stands in a part stands in the whole.
proof fn lemma_mentions_in_part(
    front: Seq<char>,
    part: Seq<char>,
    back: Seq<char>,
    needle: Seq<char>,
)
    requires
        mentions(part, needle),
    ensures
        mentions(front + part + back, needle),
{
    let (a, b) = choose|a: Seq<char>, b: Seq<char>| #[trigger] (a + needle + b) == part;
    assert((front + a) + needle + (b + back) =~= front + part + back);
}

/// The tool calls of a turn are its parts that are tool calls, in order.
pub proof fn law_calls_are_the_call_parts(choice: Seq<AssistantContentView>)
    ensures
        calls_in(choice) == choice.filter_map(|part: AssistantContentView| call_of_part(part)),
    decreases choice.len(),
{
    let f = |part: AssistantContentView| call_of_part(part);
    if choice.len() > 0 {
        law_calls_are_the_call_parts(choice.drop_last());
        lemma_filter_map_last(choice, f);
    } else {
        assert(calls_in(choice) =~= choice.filter_map(f));
    }
}

/// What a turn says is what its texts say, one behind the other: nothing else of the turn,
/// and nothing in between.
pub proof fn law_output_is_the_texts(choice: Seq<AssistantContentView>)
    ensures
        turn_text(choice) == choice.filter_map(
            |part: AssistantContentView| text_of_part(part),
        ).flatten(),
    decreases choice.len(),
{
    let f = |part: AssistantContentView| text_of_part(part);
    if choice.len() > 0 {
        let earlier = choice.drop_last();
        law_output_is_the_texts(earlier);
        lemma_filter_map_last(choice, f);
        if let Some(text) = f(choice.last()) {
            earlier.filter_map(f).lemma_flatten_push(text);
        }
    } else {
        assert(turn_text(choice) =~= choice.filter_map(f).flatten());
    }
}

/// A text that is made into a turn says just that text.
pub proof fn law_text_says_itself(text: Seq<char>)
    ensures
        text_content(text) == seq![
            AssistantContentView::Text(TextView { text, additional_params: None }),
        ],
        turn_text(text_content(text)) == text,
{
    let content = text_content(text);
    assert(turn_text(content.drop_last()) =~= Seq::empty());
    assert(content.last() == AssistantContentView::Text(TextView { text, additional_params: None }));
    assert(Seq::<char>::empty() + text =~= text);
}

proof fn lemma_joined_mentions(items: Seq<Seq<char>>, separator: Seq<char>, i: int)
    requires
        0 <= i < items.len(),
    ensures
        mentions(joined(items, separator), items[i]),
    decreases items.len(),
{
    let none = Seq::<char>::empty();
    if items.len() == 1 {
        assert(none + items[0] + none =~= items[0]);
    } else {
        let before = joined(items.drop_last(), separator);
        if i == items.len() - 1 {
            assert(before + separator + items.last() + none =~= before + separator + items.last());
        } else {
            assert(items.drop_last()[i] == items[i]);
            lemma_joined_mentions(items.drop_last(), separator, i);
            lemma_mentions_in_part(none, before, separator + items.last(), items[i]);
            assert(none + before + (separator + items.last()) =~= before + separator
                + items.last());
        }
    }
}

/// A call that is turned down is told so by name, and told which tools there are.
pub proof fn law_rejection_names_the_tools(name: Seq<char>, available: Seq<Seq<char>>)
    ensures
        mentions(rejection(name, available), name),
        forall|i: int|
            0 <= i < available.len() ==> mentions(
                rejection(name, available),
                #[trigger] available[i],
            ),
{
    let front = "unknown or disallowed tool `"@;
    let middle = "`: it was not offered to the model. Available tools: "@;
    let back = ". Call one of the available tools instead."@;
    let list = joined(available, ", "@);
    assert(front + name + (middle + list + back) =~= rejection(name, available));
    assert forall|i: int| 0 <= i < available.len() implies mentions(
        rejection(name, available),
        #[trigger] available[i],
    ) by {
        lemma_joined_mentions(available, ", "@, i);
        lemma_mentions_in_part(front + name + middle, list, back, available[i]);
        assert(front + name + middle + list + back =~= rejection(name, available));
    }
}

/// A pair found for an id is the first of that id.
proof fn lemma_first_paired_with(pairs: Seq<(Seq<char>, Seq<char>)>, id: Seq<char>)
    ensures
        match first_paired_with(pairs, id) {
            Some(found) => exists|i: int|
                {
                    &&& 0 <= i < pairs.len()
                    &&& #[trigger] pairs[i] == (id, found)
                    &&& forall|j: int| 0 <= j < i ==> (#[trigger] pairs[j]).0 != id
                },
            None => forall|i: int| 0 <= i < pairs.len() ==> (#[trigger] pairs[i]).0 != id,
        },
    decreases pairs.len(),
{
    if pairs.len() > 0 {
        if pairs[0].0 == id {
            assert(pairs[0] == (id, pairs[0].1));
        } else {
            let rest = pairs.skip(1);
            lemma_first_paired_with(rest, id);
            match first_paired_with(rest, id) {
                Some(found) => {
                    let i = choose|i: int|
                        {
                            &&& 0 <= i < rest.len()
                            &&& #[trigger] rest[i] == (id, found)
                            &&& forall|j: int| 0 <= j < i ==> (#[trigger] rest[j]).0 != id
                        };
                    assert(pairs[i + 1] == (id, found));
                    assert forall|j: int| 0 <= j < i + 1 implies (#[trigger] pairs[j]).0 != id by {
                        if j > 0 {
                            assert(rest[j - 1] == pairs[j]);
                        }
                    }
                },
                None => {
                    assert forall|i: int| 0 <= i < pairs.len() implies (#[trigger] pairs[i]).0
                        != id by {
                        if i > 0 {
                            assert(rest[i - 1] == pairs[i]);
                        }
                    }
                },
            }
        }
    }
}

/// Every tool call of a turn, in order, is either run or answered. It is run exactly where
/// the turn left the model free to call the tool. Where it is not, it has a failed result
/// under its own ids that names the tool. What ties it to its stream items is the first
/// entry of its id.
pub proof fn law_only_allowed_calls_run(turn: ModelTurnView)
    ensures
        ({
            let calls = turn.choice.filter_map(|part: AssistantContentView| call_of_part(part));
            let pending = admission(turn);
            &&& pending.len() == calls.len()
            &&& forall|k: int|
                0 <= k < calls.len() ==> {
                    &&& (#[trigger] pending[k]).tool_call == calls[k]
                    &&& pending[k].preresolved_result is None
                        <==> turn.allowed_tool_names.contains(calls[k].function.name)
                    &&& pending[k].preresolved_result matches Some(answer) ==> {
                        &&& answer matches UserContentView::ToolResult(told)
                        &&& told.id == calls[k].id
                        &&& told.call_id == calls[k].call_id
                        &&& told.status == Some(ToolResultStatusView::Failed { code: None })
                        &&& told.content.len() == 1
                        &&& told.content[0] matches ToolResultContentView::Text(text)
                        &&& text.additional_params is None
                        &&& mentions(text.text, calls[k].function.name)
                        &&& forall|j: int|
                            0 <= j < turn.executable_tool_names.len() ==> mentions(
                                text.text,
                                #[trigger] turn.executable_tool_names[j],
                            )
                    }
                    &&& match pending[k].internal_call_id {
                        Some(found) => exists|i: int|
                            {
                                &&& 0 <= i < turn.internal_call_ids.len()
                                &&& #[trigger] turn.internal_call_ids[i] == (calls[k].id, found)
                                &&& forall|j: int|
                                    0 <= j < i ==> (#[trigger] turn.internal_call_ids[j]).0
                                        != calls[k].id
                            },
                        None => forall|i: int|
                            0 <= i < turn.internal_call_ids.len() ==> (
                            #[trigger] turn.internal_call_ids[i]).0 != calls[k].id,
                    }
                }
        }),
{
    law_calls_are_the_call_parts(turn.choice);
    let calls = calls_in(turn.choice);
    assert forall|k: int| 0 <= k < calls.len() implies (#[trigger] admission(turn)[k]).tool_call
        == calls[k] by {
    }
    assert forall|k: int| 0 <= k < calls.len() implies match (
    #[trigger] admission(turn)[k]).internal_call_id {
        Some(found) => exists|i: int|
            {
                &&& 0 <= i < turn.internal_call_ids.len()
                &&& #[trigger] turn.internal_call_ids[i] == (calls[k].id, found)
                &&& forall|j: int|
                    0 <= j < i ==> (#[trigger] turn.internal_call_ids[j]).0 != calls[k].id
            },
        None => forall|i: int|
            0 <= i < turn.internal_call_ids.len() ==> (#[trigger] turn.internal_call_ids[i]).0
                != calls[k].id,
    } by {
        lemma_first_paired_with(turn.internal_call_ids, calls[k].id);
    }
    assert forall|k: int| 0 <= k < calls.len() && (
    #[trigger] admission(turn)[k]).preresolved_result is Some implies {
        let told = admission(turn)[k].preresolved_result->0->ToolResult_0;
        let text = told.content[0]->Text_0.text;
        &&& mentions(text, calls[k].function.name)
        &&& forall|j: int|
            0 <= j < turn.executable_tool_names.len() ==> mentions(
                text,
                #[trigger] turn.executable_tool_names[j],
            )
    } by {
        law_rejection_names_the_tools(calls[k].function.name, turn.executable_tool_names);
    }
}

/// Usage is added up figure by figure.
pub proof fn law_usage_adds_up(a: Usage, b: Usage)
    requires
        addable(a, b),
    ensures
        sum_usage(a, b).input_tokens == a.input_tokens + b.input_tokens,
        sum_usage(a, b).output_tokens == a.output_tokens + b.output_tokens,
        sum_usage(a, b).total_tokens == a.total_tokens + b.total_tokens,
        sum_usage(a, b).cached_input_tokens == a.cached_input_tokens + b.cached_input_tokens,
        sum_usage(a, b).cache_creation_input_tokens == a.cache_creation_input_tokens
            + b.cache_creation_input_tokens,
        sum_usage(a, b).cache_creation_1h_input_tokens == a.cache_creation_1h_input_tokens
            + b.cache_creation_1h_input_tokens,
        sum_usage(a, b).tool_use_prompt_tokens == a.tool_use_prompt_tokens
            + b.tool_use_prompt_tokens,
        sum_usage(a, b).reasoning_tokens == a.reasoning_tokens + b.reasoning_tokens,
        sum_usage(a, b) == sum_usage(b, a),
        sum_usage(a, zero_usage()) == a,
{
}

/// Usage can be added up exactly where no figure runs over, so that nothing always can.
pub proof fn law_usage_that_can_be_added(a: Usage, b: Usage)
    ensures
        addable(a, zero_usage()),
        addable(a, b) == addable(b, a),
        !addable(a, b) <==> {
            ||| a.input_tokens + b.input_tokens > u64::MAX
            ||| a.output_tokens + b.output_tokens > u64::MAX
            ||| a.total_tokens + b.total_tokens > u64::MAX
            ||| a.cached_input_tokens + b.cached_input_tokens > u64::MAX
            ||| a.cache_creation_input_tokens + b.cache_creation_input_tokens > u64::MAX
            ||| a.cache_creation_1h_input_tokens + b.cache_creation_1h_input_tokens > u64::MAX
            ||| a.tool_use_prompt_tokens + b.tool_use_prompt_tokens > u64::MAX
            ||| a.reasoning_tokens + b.reasoning_tokens > u64::MAX
        },
{
}

/// A call goes into the ledger behind the others, under the next number, with what it used
/// and why it stopped, and what it used is added to the total. The calls that were there
/// stay as they are.
pub proof fn law_ledger_takes_calls_in_order(
    ledger: RunLedgerView,
    usage: Usage,
    finish_reason: Option<FinishReasonView>,
)
    requires
        addable(ledger.usage, usage),
    ensures
        ({
            let after = ledger.recording(usage, finish_reason);
            &&& after.calls.len() == ledger.calls.len() + 1
            &&& after.calls.drop_last() == ledger.calls
            &&& after.calls.last() == (CompletionCallView {
                call_index: ledger.calls.len(),
                usage,
                finish_reason,
            })
            &&& after.calls.last() == ledger.next_entry(usage, finish_reason)
            &&& after.usage.total_tokens == ledger.usage.total_tokens + usage.total_tokens
            &&& after.usage.input_tokens == ledger.usage.input_tokens + usage.input_tokens
            &&& after.usage.output_tokens == ledger.usage.output_tokens + usage.output_tokens
        }),
        RunLedgerView::empty().calls.len() == 0,
        RunLedgerView::empty().usage.total_tokens == 0,
        RunLedgerView::empty().usage.input_tokens == 0,
        RunLedgerView::empty().usage.output_tokens == 0,
{
    assert(ledger.recording(usage, finish_reason).calls.drop_last() =~= ledger.calls);
}

/// A turn says nothing exactly where it is one text without words and without anything added.
pub proof fn law_when_a_turn_says_nothing(choice: Seq<AssistantContentView>)
    ensures
        says_nothing(choice) <==> {
            &&& choice.len() == 1
            &&& choice[0] matches AssistantContentView::Text(text)
            &&& text.text.len() == 0
            &&& text.additional_params is None
        },
        says_nothing(choice) ==> turn_text(choice).len() == 0,
{
    let empty = text_content(Seq::empty());
    if choice.len() == 1 {
        if let AssistantContentView::Text(text) = choice[0] {
            if text.text.len() == 0 && text.additional_params is None {
                assert(text.text =~= Seq::empty());
                assert(choice =~= empty);
            }
        }
    }
    if says_nothing(choice) {
        law_text_says_itself(Seq::empty());
    }
}

/// A result is told under the ids of its call: an output as it is, with how it ended left
/// open, and a failure as one text of its words.
pub proof fn law_results_go_by_the_ids_of_their_call(
    id: Seq<char>,
    call_id: Option<Seq<char>>,
    content: Seq<ToolResultContentView>,
    message: Seq<char>,
)
    ensures
        unmarked_result(id, call_id, content).id == id,
        unmarked_result(id, call_id, content).call_id == call_id,
        unmarked_result(id, call_id, content).content == content,
        unmarked_result(id, call_id, content).status is None,
        failure_result(id, call_id, message).id == id,
        failure_result(id, call_id, message).call_id == call_id,
        failure_result(id, call_id, message).content == seq![
            ToolResultContentView::Text(TextView { text: message, additional_params: None }),
        ],
        failure_result(id, call_id, message).status == Some(
            ToolResultStatusView::Failed { code: None },
        ),
{
}

} // verus!
