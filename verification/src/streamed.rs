//! Putting a streamed model turn together.

use vstd::prelude::*;
use crate::deep::{deep, group_deep};
use crate::message::{
    plain_text, AssistantContent, AssistantContentView, Message, MessageView, Reasoning,
    ReasoningView, ToolCall, ToolCallView, ToolResult, UserContentView,
};
use crate::names::ToolNames;
use crate::one_or_many::{lemma_never_empty, OneOrMany};
use crate::prompt_response::{failure_result, tool_result_message};

verus! {

broadcast use {group_deep, lemma_never_empty};

/// The place of the last block with the given id.
pub open spec fn last_with_id(blocks: Seq<ReasoningView>, id: Seq<char>) -> Option<int>
    decreases blocks.len(),
{
    if blocks.len() == 0 {
        None
    } else if blocks.last().id == Some(id) {
        Some(blocks.len() - 1)
    } else {
        last_with_id(blocks.drop_last(), id)
    }
}

/// The blocks with one more: it extends the last block of the same id, and stands
/// on its own where there is none or where it has no id.
pub open spec fn merged_reasoning(
    blocks: Seq<ReasoningView>,
    incoming: ReasoningView,
) -> Seq<ReasoningView> {
    match incoming.id {
        None => blocks.push(incoming),
        Some(id) => match last_with_id(blocks, id) {
            None => blocks.push(incoming),
            Some(i) => blocks.update(
                i,
                ReasoningView {
                    id: blocks[i].id,
                    content: blocks[i].content + incoming.content,
                },
            ),
        },
    }
}

/// The place of the last block with the given id.
fn find_last_with_id(blocks: &Vec<Reasoning>, id: &String) -> (place: Option<usize>)
    ensures
        match (place, last_with_id(deep(blocks@), id@)) {
            (Some(i), Some(k)) => i == k && i < blocks@.len(),
            (None, None) => true,
            _ => false,
        },
{
    let ghost all = deep(blocks@);
    let mut i: usize = blocks.len();
    assert(all.take(i as int) =~= all);
    while i > 0
        invariant
            i <= blocks@.len(),
            all == deep(blocks@),
            last_with_id(all, id@) == last_with_id(all.take(i as int), id@),
        decreases i,
    {
        assert(all.take(i as int).drop_last() =~= all.take(i - 1));
        assert(all.take(i as int).last() == blocks@[i - 1].deep_view());
        i = i - 1;
        match &blocks[i].id {
            Some(existing) => {
                if *existing == *id {
                    return Some(i);
                }
            },
            None => {},
        }
    }
    None
}

/// Takes in a block of reasoning: it extends the last block of the same id.
pub fn merge_reasoning_blocks(accumulated: &mut Vec<Reasoning>, incoming: &Reasoning)
    ensures
        deep(final(accumulated)@) == merged_reasoning(
            deep(old(accumulated)@),
            incoming.deep_view(),
        ),
{
    let ghost before = deep(accumulated@);
    let place = match &incoming.id {
        Some(id) => find_last_with_id(accumulated, id),
        None => None,
    };
    match place {
        Some(i) => {
            let mut block = accumulated.remove(i);
            let ghost was = block.deep_view();
            let mut content = incoming.content.clone();
            assert(deep(content@) =~= deep(incoming.content@));
            block.content.append(&mut content);
            let ghost now = block.deep_view();
            assert(now == (ReasoningView {
                id: was.id,
                content: was.content + incoming.deep_view().content,
            }));
            accumulated.insert(i, block);
            assert(deep(accumulated@) =~= before.update(i as int, now));
        },
        None => {
            accumulated.push(incoming.clone());
        },
    }
}

/// A turn in the order in which it is replayed: reasoning, then text, then the
/// rest.
pub open spec fn in_replay_order(
    reasoning: Seq<ReasoningView>,
    text: Seq<AssistantContentView>,
    trailing: Seq<AssistantContentView>,
) -> Seq<AssistantContentView> {
    reasoning.map_values(|block: ReasoningView| AssistantContentView::Reasoning(block)) + text
        + trailing
}

/// Puts a turn into the order in which it is replayed; `None` where there is
/// nothing in it.
pub fn ordered_streaming_assistant_content(
    reasoning_items: Vec<Reasoning>,
    text_items: Vec<AssistantContent>,
    trailing_items: Vec<AssistantContent>,
) -> (content: Option<OneOrMany<AssistantContent>>)
    ensures
        content.deep_view() == ({
            let ordered = in_replay_order(
                deep(reasoning_items@),
                deep(text_items@),
                deep(trailing_items@),
            );
            if ordered.len() == 0 {
                None
            } else {
                Some(ordered)
            }
        }),
{
    let ghost blocks = deep(reasoning_items@);
    let mut items: Vec<AssistantContent> = Vec::new();
    let mut i: usize = 0;
    while i < reasoning_items.len()
        invariant
            i <= reasoning_items@.len(),
            items@.len() == i,
            blocks == deep(reasoning_items@),
            forall|k: int|
                0 <= k < i ==> (#[trigger] items@[k]).deep_view()
                    == AssistantContentView::Reasoning(blocks[k]),
        decreases reasoning_items@.len() - i,
    {
        items.push(AssistantContent::Reasoning(reasoning_items[i].clone()));
        i = i + 1;
    }
    assert(deep(items@) =~= blocks.map_values(
        |block: ReasoningView| AssistantContentView::Reasoning(block),
    ));
    let mut text_items = text_items;
    let mut trailing_items = trailing_items;
    items.append(&mut text_items);
    items.append(&mut trailing_items);
    OneOrMany::from_vec(items)
}

/// Whether a part of a turn is a text worth keeping: one that says something, or
/// has something added to it.
pub open spec fn is_kept_text(part: AssistantContentView) -> bool {
    part matches AssistantContentView::Text(text) && (text.text.len() > 0
        || text.additional_params is Some)
}

/// The texts of a turn that are worth keeping, in order.
pub open spec fn kept_texts(choice: Seq<AssistantContentView>) -> Seq<AssistantContentView>
    decreases choice.len(),
{
    if choice.len() == 0 {
        Seq::empty()
    } else {
        let before = kept_texts(choice.drop_last());
        if is_kept_text(choice.last()) {
            before.push(choice.last())
        } else {
            before
        }
    }
}

/// The texts of a turn that are worth keeping, in order.
pub fn assistant_text_items_from_choice(choice: &OneOrMany<AssistantContent>) -> (items: Vec<
    AssistantContent,
>)
    ensures
        deep(items@) == kept_texts(choice.deep_view()),
{
    let ghost whole = choice.deep_view();
    let parts = choice.iter();
    let mut items: Vec<AssistantContent> = Vec::new();
    let mut i: usize = 0;
    while i < parts.len()
        invariant
            i <= parts@.len(),
            whole == choice.deep_view(),
            parts@.len() == choice@.len(),
            forall|k: int| 0 <= k < parts@.len() ==> *(#[trigger] parts@[k]) == choice@[k],
            deep(items@) == kept_texts(whole.take(i as int)),
        decreases parts@.len() - i,
    {
        assert(whole.take(i + 1).drop_last() =~= whole.take(i as int));
        assert(whole.take(i + 1).last() == parts@[i as int].deep_view());
        match parts[i] {
            AssistantContent::Text(text) => {
                if !text.text.as_str().is_empty() || text.additional_params.is_some() {
                    items.push(AssistantContent::Text(text.clone()));
                }
            },
            _ => {},
        }
        i = i + 1;
    }
    assert(whole.take(i as int) =~= whole);
    items
}

/// A tool call that appeared in a stream although the model was not to call the
/// tool.
#[derive(Debug)]
#[non_exhaustive]
pub struct StreamedInvalidToolCall {
    /// The call. Where only the name had come in, it is put together from the name
    /// and the arguments so far.
    pub tool_call: ToolCall,
    /// The id under which the call's stream items go out.
    pub internal_call_id: String,
    /// The arguments as they came in.
    pub args: Option<String>,
    /// The tools that were offered to the model.
    pub executable_tool_names: ToolNames,
    /// The tools among them that the model was free to call.
    pub allowed_tool_names: ToolNames,
}

pub struct StreamedInvalidToolCallView {
    pub tool_call: ToolCallView,
    pub internal_call_id: Seq<char>,
    pub args: Option<Seq<char>>,
    pub executable_tool_names: Seq<Seq<char>>,
    pub allowed_tool_names: Seq<Seq<char>>,
}

impl DeepView for StreamedInvalidToolCall {
    type V = StreamedInvalidToolCallView;

    open spec fn deep_view(&self) -> StreamedInvalidToolCallView {
        StreamedInvalidToolCallView {
            tool_call: self.tool_call.deep_view(),
            internal_call_id: self.internal_call_id@,
            args: self.args.deep_view(),
            executable_tool_names: self.executable_tool_names.deep_view(),
            allowed_tool_names: self.allowed_tool_names.deep_view(),
        }
    }
}

/// A streamed turn as far as it has come.
#[derive(Debug)]
#[non_exhaustive]
pub struct PartialStreamedTurn {
    pub message_id: Option<String>,
    /// The text so far, where any came in.
    pub text: Option<String>,
    pub reasoning: Vec<Reasoning>,
    /// The tool calls so far.
    pub pending_tool_calls: Vec<ToolCall>,
}

pub struct PartialStreamedTurnView {
    pub message_id: Option<Seq<char>>,
    pub text: Option<Seq<char>>,
    pub reasoning: Seq<ReasoningView>,
    pub pending_tool_calls: Seq<ToolCallView>,
}

impl DeepView for PartialStreamedTurn {
    type V = PartialStreamedTurnView;

    open spec fn deep_view(&self) -> PartialStreamedTurnView {
        PartialStreamedTurnView {
            message_id: self.message_id.deep_view(),
            text: self.text.deep_view(),
            reasoning: deep(self.reasoning@),
            pending_tool_calls: deep(self.pending_tool_calls@),
        }
    }
}

/// What the model is told of a call that did not run because of another one.
pub open spec fn invalid_peer_notice() -> Seq<char> {
    "Tool was not executed because another tool call in the same assistant turn was invalid."@
}

/// Tool calls as parts of a turn.
pub open spec fn call_parts(calls: Seq<ToolCallView>) -> Seq<AssistantContentView> {
    calls.map_values(|call: ToolCallView| AssistantContentView::ToolCall(call))
}

impl PartialStreamedTurnView {
    /// The text as a part of a turn, where it says something.
    pub open spec fn text_parts(self) -> Seq<AssistantContentView> {
        match self.text {
            Some(text) => if text.len() > 0 {
                seq![AssistantContentView::Text(plain_text(text))]
            } else {
                Seq::empty()
            },
            None => Seq::empty(),
        }
    }

    /// The turn in the order in which it is replayed, with one more call at the
    /// end where there is one.
    pub open spec fn content(self, current: Option<ToolCallView>) -> Seq<AssistantContentView> {
        in_replay_order(
            self.reasoning,
            self.text_parts(),
            match current {
                Some(call) => call_parts(self.pending_tool_calls.push(call)),
                None => call_parts(self.pending_tool_calls),
            },
        )
    }

    /// The tool results with which the turn is taken back: none of its calls has
    /// run, the last because of what the feedback says.
    pub open spec fn rollback_results(
        self,
        invalid: ToolCallView,
        feedback: Seq<char>,
    ) -> Seq<UserContentView> {
        self.pending_tool_calls.map_values(
            |call: ToolCallView|
                UserContentView::ToolResult(
                    failure_result(call.id, call.call_id, invalid_peer_notice()),
                ),
        ).push(UserContentView::ToolResult(failure_result(invalid.id, invalid.call_id, feedback)))
    }
}

/// Tool calls as parts of a turn.
fn parts_of_calls(calls: &Vec<ToolCall>) -> (parts: Vec<AssistantContent>)
    ensures
        deep(parts@) == call_parts(deep(calls@)),
{
    let mut parts: Vec<AssistantContent> = Vec::new();
    let mut i: usize = 0;
    while i < calls.len()
        invariant
            i <= calls@.len(),
            parts@.len() == i,
            forall|k: int|
                0 <= k < i ==> (#[trigger] parts@[k]).deep_view() == AssistantContentView::ToolCall(
                    calls@[k].deep_view(),
                ),
        decreases calls@.len() - i,
    {
        parts.push(AssistantContent::ToolCall(calls[i].clone()));
        i = i + 1;
    }
    assert(deep(parts@) =~= call_parts(deep(calls@)));
    parts
}

impl PartialStreamedTurn {
    /// The text as a part of a turn, where it says something.
    fn text_items(&self) -> (items: Vec<AssistantContent>)
        ensures
            deep(items@) == self.deep_view().text_parts(),
    {
        let mut items: Vec<AssistantContent> = Vec::new();
        if let Some(text) = &self.text {
            if !text.as_str().is_empty() {
                items.push(AssistantContent::text(text.clone()));
            }
        }
        assert(deep(items@) =~= self.deep_view().text_parts());
        items
    }

    /// The blocks of reasoning.
    fn reasoning_items(&self) -> (blocks: Vec<Reasoning>)
        ensures
            deep(blocks@) == deep(self.reasoning@),
    {
        let blocks = self.reasoning.clone();
        assert(deep(blocks@) =~= deep(self.reasoning@));
        blocks
    }

    /// The turn as a message, with one more call where there is one; `None` where
    /// there is nothing in it.
    pub fn assistant_message(&self, current_tool_call: Option<ToolCall>) -> (message: Option<
        Message,
    >)
        ensures
            message.deep_view() == ({
                let content = self.deep_view().content(current_tool_call.deep_view());
                if content.len() == 0 {
                    None
                } else {
                    Some(MessageView::Assistant { id: self.deep_view().message_id, content })
                }
            }),
    {
        let mut tool_items = parts_of_calls(&self.pending_tool_calls);
        if let Some(tool_call) = current_tool_call {
            let ghost calls = deep(self.pending_tool_calls@);
            tool_items.push(AssistantContent::ToolCall(tool_call));
            assert(deep(tool_items@) =~= call_parts(calls.push(tool_call.deep_view())));
        }
        match ordered_streaming_assistant_content(
            self.reasoning_items(),
            self.text_items(),
            tool_items,
        ) {
            Some(content) => Some(Message::Assistant { id: self.message_id.clone(), content }),
            None => None,
        }
    }

    /// The two messages with which the turn is taken back: the turn with the
    /// invalid call, and a user message that says of each call why it did not run.
    pub fn rollback_messages(
        &self,
        invalid_tool_call: ToolCall,
        feedback: String,
    ) -> (messages: (Message, Message))
        ensures
            messages.0.deep_view() == (MessageView::Assistant {
                id: self.deep_view().message_id,
                content: self.deep_view().content(Some(invalid_tool_call.deep_view())),
            }),
            messages.1.deep_view() == (MessageView::User {
                content: self.deep_view().rollback_results(
                    invalid_tool_call.deep_view(),
                    feedback@,
                ),
            }),
    {
        let ghost calls = deep(self.pending_tool_calls@);
        let ghost invalid = invalid_tool_call.deep_view();
        let anchor = AssistantContent::ToolCall(invalid_tool_call.clone());
        let mut content = OneOrMany::one(anchor);
        assert(content.deep_view() =~= call_parts(calls.push(invalid)).skip(calls.len() as int));
        let mut i: usize = self.pending_tool_calls.len();
        while i > 0
            invariant
                i <= self.pending_tool_calls@.len(),
                calls == deep(self.pending_tool_calls@),
                content.deep_view() == call_parts(calls.push(invalid)).skip(i as int),
            decreases i,
        {
            let ghost before = content.deep_view();
            i = i - 1;
            let part = AssistantContent::ToolCall(self.pending_tool_calls[i].clone());
            content.push_front(part);
            assert(content.deep_view() =~= seq![part.deep_view()] + before);
            assert(content.deep_view() =~= call_parts(calls.push(invalid)).skip(i as int));
        }
        let ghost tools = call_parts(calls.push(invalid));
        assert(content.deep_view() =~= tools);
        if let Some(text) = &self.text {
            if !text.as_str().is_empty() {
                let part = AssistantContent::text(text.clone());
                content.push_front(part);
                assert(content.deep_view() =~= seq![part.deep_view()] + tools);
            }
        }
        let ghost text_parts = self.deep_view().text_parts();
        let ghost spoken = text_parts + tools;
        assert(content.deep_view() =~= spoken);
        let ghost blocks = deep(self.reasoning@).map_values(
            |block: ReasoningView| AssistantContentView::Reasoning(block),
        );
        let mut j: usize = self.reasoning.len();
        assert(blocks.skip(j as int) + spoken =~= spoken);
        while j > 0
            invariant
                j <= self.reasoning@.len(),
                blocks == deep(self.reasoning@).map_values(
                    |block: ReasoningView| AssistantContentView::Reasoning(block),
                ),
                content.deep_view() == blocks.skip(j as int) + spoken,
            decreases j,
        {
            let ghost before = content.deep_view();
            j = j - 1;
            let part = AssistantContent::Reasoning(self.reasoning[j].clone());
            content.push_front(part);
            assert(content.deep_view() =~= seq![part.deep_view()] + before);
            assert(content.deep_view() =~= blocks.skip(j as int) + spoken);
        }
        assert(content.deep_view() =~= in_replay_order(deep(self.reasoning@), text_parts, tools));

        let ghost results = self.deep_view().rollback_results(invalid, feedback@);
        let own = tool_result_message(invalid_tool_call.id, invalid_tool_call.call_id, feedback);
        let mut answers = OneOrMany::one(own);
        assert(answers.deep_view() =~= results.skip(calls.len() as int));
        let mut k: usize = self.pending_tool_calls.len();
        while k > 0
            invariant
                k <= self.pending_tool_calls@.len(),
                calls == deep(self.pending_tool_calls@),
                results == self.deep_view().rollback_results(invalid, feedback@),
                answers.deep_view() == results.skip(k as int),
            decreases k,
        {
            let ghost before = answers.deep_view();
            k = k - 1;
            let call = &self.pending_tool_calls[k];
            let part = tool_result_message(
                call.id.clone(),
                call.call_id.clone(),
                "Tool was not executed because another tool call in the same assistant turn was invalid.".to_owned(),
            );
            answers.push_front(part);
            assert(answers.deep_view() =~= seq![part.deep_view()] + before);
            assert(answers.deep_view() =~= results.skip(k as int));
        }
        assert(answers.deep_view() =~= results);
        (
            Message::Assistant { id: self.message_id.clone(), content },
            Message::User { content: answers },
        )
    }
}

} // verus!
