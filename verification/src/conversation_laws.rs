//! What holds of every conversation: what it reads as, and which calls are open.

use vstd::prelude::*;
use crate::conversation::{
    adopted, interrupted_notice, interrupted_result, lemma_adopted_reads_as_given,
    lemma_after_results, lemma_filter_keeps_all, ConversationView,
};
use crate::message::{
    AssistantContentView, MessageView, TextView, ToolCallView, ToolResultContentView,
    ToolResultStatusView, ToolResultView, UserContentView,
};
use crate::turn_laws::{call_of_part, law_calls_are_the_call_parts};

verus! {

/// Results that come in one at a time are read as one user message behind everything else:
/// it holds the results that had been waiting and then the new ones, each in its turn. The
/// messages in front of it stay as they are.
pub proof fn law_results_are_read_together(
    before: ConversationView,
    results: Seq<ToolResultView>,
)
    requires
        results.len() > 0,
    ensures
        ({
            let read = before.after_results(results).readable();
            let waiting = before.pending.len() as int;
            &&& read.len() == before.messages.len() + 1
            &&& forall|i: int|
                0 <= i < before.messages.len() ==> #[trigger] read[i] == before.messages[i]
            &&& read.last() matches MessageView::User { content }
            &&& content.len() == waiting + results.len()
            &&& forall|k: int|
                0 <= k < waiting ==> #[trigger] content[k] == UserContentView::ToolResult(
                    before.pending[k],
                )
            &&& forall|k: int|
                waiting <= k < content.len() ==> #[trigger] content[k]
                    == UserContentView::ToolResult(results[k - waiting])
        }),
{
    lemma_after_results(before, results);
}

/// A list of messages that is adopted reads as it was given.
pub proof fn law_adopted_list_reads_as_given(messages: Seq<MessageView>)
    ensures
        adopted(messages).readable() == messages,
{
    lemma_adopted_reads_as_given(messages);
}

/// A result answers the calls that share an id with it, the provider's own id counted in, and
/// no other call.
pub proof fn law_result_answers_by_its_ids(
    before: ConversationView,
    result: ToolResultView,
    call: ToolCallView,
)
    ensures
        before.after_result(result).has_answered(call) <==> {
            ||| before.has_answered(call)
            ||| call.id == result.id
            ||| result.call_id == Some(call.id)
            ||| call.call_id == Some(result.id)
            ||| call.call_id is Some && call.call_id == result.call_id
        },
{
}

/// The calls of an assistant turn are open behind it, all of them, in order.
pub proof fn law_calls_of_a_turn_are_open(
    before: ConversationView,
    id: Option<Seq<char>>,
    content: Seq<AssistantContentView>,
)
    ensures
        before.after_assistant(MessageView::Assistant { id, content }).unanswered()
            == content.filter_map(|part: AssistantContentView| call_of_part(part)),
{
    let after = before.after_assistant(MessageView::Assistant { id, content });
    law_calls_are_the_call_parts(content);
    lemma_filter_keeps_all(after.trailing, |call: ToolCallView| !after.has_answered(call));
}

/// The open calls are the calls of the last turn that no result has answered.
pub proof fn law_open_calls_are_the_unanswered_ones(
    conversation: ConversationView,
    call: ToolCallView,
)
    ensures
        conversation.unanswered().contains(call) <==> {
            &&& conversation.trailing.contains(call)
            &&& !conversation.answered.contains(call.id)
            &&& call.call_id matches Some(call_id) ==> !conversation.answered.contains(call_id)
        },
{
    let open = |call: ToolCallView| !conversation.has_answered(call);
    let left = conversation.trailing.filter(open);
    if left.contains(call) {
        conversation.trailing.lemma_filter_contains_rev(open, call);
        let i = choose|i: int| 0 <= i < left.len() && left[i] == call;
        conversation.trailing.lemma_filter_pred(open, i);
    }
    if conversation.trailing.contains(call) && open(call) {
        let i = choose|i: int|
            0 <= i < conversation.trailing.len() && conversation.trailing[i] == call;
        conversation.trailing.lemma_filter_contains(open, i);
    }
}

/// A call that was cut off is answered under its own ids, as a failure, with the notice that
/// it was cut off and nothing else.
pub proof fn law_cut_off_call_failed(call: ToolCallView)
    ensures
        interrupted_result(call).id == call.id,
        interrupted_result(call).call_id == call.call_id,
        interrupted_result(call).status == Some(ToolResultStatusView::Failed { code: None }),
        interrupted_result(call).content == seq![
            ToolResultContentView::Text(
                TextView { text: interrupted_notice(), additional_params: None },
            ),
        ],
{
}

/// Dropping the last assistant turn drops one message, and only where the list ends in such a
/// turn. Everything in front of it stays.
pub proof fn law_only_an_assistant_turn_is_dropped(conversation: ConversationView)
    ensures
        conversation.messages.len() > 0 && conversation.messages.last() is Assistant
            ==> conversation.after_pop().messages == conversation.messages.take(
            conversation.messages.len() - 1,
        ) && conversation.after_pop().pending.len() == 0,
        conversation.messages.len() == 0 || !(conversation.messages.last() is Assistant)
            ==> conversation.after_pop() == conversation,
{
}

} // verus!
