//! Building a conversation out of the events that extend it.

use vstd::prelude::*;
use vstd::slice::slice_subrange;
use crate::deep::{deep, group_deep};
use crate::message::{
    calls_in, tool_calls, Message, MessageView, ToolCall, ToolCallView, ToolResult,
    ToolResultContent, ToolResultStatus, ToolResultView, UserContent, UserContentView,
};
use crate::one_or_many::{lemma_never_empty, OneOrMany};
use crate::prompt_response::failure_result;
use crate::tool::text_output;

verus! {

broadcast use {group_deep, lemma_never_empty};

/// The tool calls of a last turn that were never answered.
#[derive(Debug, PartialEq, Eq)]
pub struct DanglingToolCalls {
    pub calls: Vec<ToolCall>,
}

impl DeepView for DanglingToolCalls {
    type V = Seq<ToolCallView>;

    open spec fn deep_view(&self) -> Seq<ToolCallView> {
        deep(self.calls@)
    }
}

/// A conversation that grows by user messages, assistant turns and tool results.
/// Tool results wait until the next message, or the next reading, and then go in
/// as one user message.
#[derive(Debug)]
pub struct Conversation {
    messages: Vec<Message>,
    pending_results: Vec<ToolResult>,
    /// The calls of the last assistant turn.
    trailing_calls: Vec<ToolCall>,
    /// The ids that results since then have answered.
    answered: Vec<String>,
    /// The roundtrips that the assistant turns at the end came behind, the last turn's last.
    earlier: Vec<Roundtrip>,
}

/// The calls of an assistant turn, and how far they are answered.
#[derive(Debug)]
struct Roundtrip {
    calls: Vec<ToolCall>,
    answered: Vec<String>,
}

pub struct RoundtripView {
    /// The calls of the turn.
    pub calls: Seq<ToolCallView>,
    /// The ids that results have answered.
    pub answered: Set<Seq<char>>,
}

impl DeepView for Roundtrip {
    type V = RoundtripView;

    closed spec fn deep_view(&self) -> RoundtripView {
        RoundtripView { calls: deep(self.calls@), answered: deep(self.answered@).to_set() }
    }
}

pub struct ConversationView {
    /// The messages that are in place.
    pub messages: Seq<MessageView>,
    /// The tool results that wait.
    pub pending: Seq<ToolResultView>,
    /// The calls of the last assistant turn.
    pub trailing: Seq<ToolCallView>,
    /// The ids that results since then have answered.
    pub answered: Set<Seq<char>>,
    /// The roundtrips that the assistant turns at the end came behind, the last turn's last.
    pub earlier: Seq<RoundtripView>,
}

impl DeepView for Conversation {
    type V = ConversationView;

    closed spec fn deep_view(&self) -> ConversationView {
        ConversationView {
            messages: deep(self.messages@),
            pending: deep(self.pending_results@),
            trailing: deep(self.trailing_calls@),
            answered: deep(self.answered@).to_set(),
            earlier: deep(self.earlier@),
        }
    }
}

/// The user message that holds the given tool results.
pub open spec fn results_message(results: Seq<ToolResultView>) -> MessageView {
    MessageView::User {
        content: results.map_values(|result: ToolResultView| UserContentView::ToolResult(result)),
    }
}

impl ConversationView {
    /// The conversation of nothing.
    pub open spec fn empty() -> Self {
        ConversationView {
            messages: Seq::empty(),
            pending: Seq::empty(),
            trailing: Seq::empty(),
            answered: Set::empty(),
            earlier: Seq::empty(),
        }
    }

    /// What a provider request carries: the messages, with waiting results put in
    /// place.
    pub open spec fn readable(self) -> Seq<MessageView> {
        if self.pending.len() == 0 {
            self.messages
        } else {
            self.messages.push(results_message(self.pending))
        }
    }

    /// The conversation with its waiting results put in place.
    pub open spec fn flushed(self) -> Self {
        ConversationView { messages: self.readable(), pending: Seq::empty(), ..self }
    }

    /// After a user message.
    pub open spec fn after_user(self, message: MessageView) -> Self {
        ConversationView {
            messages: self.readable().push(message),
            pending: Seq::empty(),
            trailing: Seq::empty(),
            answered: Set::empty(),
            earlier: Seq::empty(),
        }
    }

    /// After several user messages.
    pub open spec fn after_users(self, messages: Seq<MessageView>) -> Self
        decreases messages.len(),
    {
        if messages.len() == 0 {
            self
        } else {
            self.after_users(messages.drop_last()).after_user(messages.last())
        }
    }

    /// After an assistant turn.
    pub open spec fn after_assistant(self, message: MessageView) -> Self {
        ConversationView {
            messages: self.readable().push(message),
            pending: Seq::empty(),
            trailing: calls_of_message(message),
            answered: Set::empty(),
            earlier: self.earlier.push(
                RoundtripView { calls: self.trailing, answered: self.answered },
            ),
        }
    }

    /// After a tool result.
    pub open spec fn after_result(self, result: ToolResultView) -> Self {
        ConversationView {
            pending: self.pending.push(result),
            answered: match result.call_id {
                Some(call_id) => self.answered.insert(result.id).insert(call_id),
                None => self.answered.insert(result.id),
            },
            ..self
        }
    }

    /// After several tool results.
    pub open spec fn after_results(self, results: Seq<ToolResultView>) -> Self
        decreases results.len(),
    {
        if results.len() == 0 {
            self
        } else {
            self.after_results(results.drop_last()).after_result(results.last())
        }
    }

    /// After dropping a last assistant turn, with the results that wait for it: as before
    /// the turn.
    pub open spec fn after_pop(self) -> Self {
        if self.messages.len() > 0 && self.messages.last() is Assistant {
            let before = if self.earlier.len() == 0 {
                RoundtripView { calls: Seq::empty(), answered: Set::empty() }
            } else {
                self.earlier.last()
            };
            ConversationView {
                messages: self.messages.drop_last(),
                pending: Seq::empty(),
                trailing: before.calls,
                answered: before.answered,
                earlier: if self.earlier.len() == 0 {
                    Seq::empty()
                } else {
                    self.earlier.drop_last()
                },
            }
        } else {
            self
        }
    }

    /// Whether a result has answered the call, under one of its ids.
    pub open spec fn has_answered(self, call: ToolCallView) -> bool {
        self.answered.contains(call.id) || (call.call_id matches Some(call_id)
            && self.answered.contains(call_id))
    }

    /// The calls of the last assistant turn that no result has answered.
    pub open spec fn unanswered(self) -> Seq<ToolCallView> {
        self.trailing.filter(|call: ToolCallView| !self.has_answered(call))
    }
}

/// The tool calls that an assistant message carries; no other message has any.
pub open spec fn calls_of_message(message: MessageView) -> Seq<ToolCallView> {
    match message {
        MessageView::Assistant { content, .. } => calls_in(content),
        _ => Seq::empty(),
    }
}

/// The tool results of a user message that holds nothing else.
pub open spec fn results_alone(message: MessageView) -> Option<Seq<ToolResultView>> {
    match message {
        MessageView::User { content } => if content.len() > 0 && forall|i: int|
            0 <= i < content.len() ==> (#[trigger] content[i]) is ToolResult {
            Some(content.map_values(|part: UserContentView| part->ToolResult_0))
        } else {
            None
        },
        _ => None,
    }
}

/// The conversation that a list of messages is the record of: a message of tool results
/// alone answers the turn before it, and any other user message closes the roundtrip.
pub open spec fn adopted(messages: Seq<MessageView>) -> ConversationView
    decreases messages.len(),
{
    if messages.len() == 0 {
        ConversationView::empty()
    } else {
        let before = adopted(messages.drop_last());
        match messages.last() {
            MessageView::Assistant { .. } => before.after_assistant(messages.last()),
            _ => match results_alone(messages.last()) {
                Some(results) => before.after_results(results).flushed(),
                None => before.after_user(messages.last()),
            },
        }
    }
}

/// A message of tool results alone is the message that holds these results.
proof fn lemma_results_alone(message: MessageView)
    ensures
        results_alone(message) matches Some(results) ==> {
            &&& results.len() > 0
            &&& results_message(results) == message
        },
{
    if let Some(results) = results_alone(message) {
        let content = message->User_content;
        assert(results.map_values(|result: ToolResultView| UserContentView::ToolResult(result))
            =~= content);
    }
}

/// An adopted conversation reads as the list that it was adopted from, and nothing waits.
pub proof fn lemma_adopted_reads_as_given(messages: Seq<MessageView>)
    ensures
        adopted(messages).messages == messages,
        adopted(messages).pending == Seq::<ToolResultView>::empty(),
    decreases messages.len(),
{
    if messages.len() > 0 {
        let before = adopted(messages.drop_last());
        lemma_adopted_reads_as_given(messages.drop_last());
        lemma_results_alone(messages.last());
        assert(messages.drop_last().push(messages.last()) =~= messages);
        if let Some(results) = results_alone(messages.last()) {
            lemma_after_results(before, results);
            assert(before.pending + results =~= results);
        }
    }
}

/// Copies tool calls.
fn copy_calls(calls: Vec<&ToolCall>) -> (copy: Vec<ToolCall>)
    ensures
        deep(copy@) == deep(calls@),
{
    let mut copy: Vec<ToolCall> = Vec::new();
    let mut i: usize = 0;
    while i < calls.len()
        invariant
            i <= calls@.len(),
            copy@.len() == i,
            forall|k: int|
                0 <= k < i ==> (#[trigger] copy@[k]).deep_view() == calls@[k].deep_view(),
        decreases calls@.len() - i,
    {
        copy.push((*calls[i]).clone());
        i = i + 1;
    }
    assert(deep(copy@) =~= deep(calls@));
    copy
}

/// The tool calls that an assistant message carries.
fn calls_of(message: &Message) -> (calls: Vec<ToolCall>)
    ensures
        deep(calls@) == calls_of_message(message.deep_view()),
{
    match message {
        Message::Assistant { content, .. } => copy_calls(tool_calls(content)),
        _ => Vec::new(),
    }
}

/// The tool results of a message that holds nothing else.
fn only_results(message: &Message) -> (results: Option<Vec<ToolResult>>)
    ensures
        match results {
            Some(results) => results_alone(message.deep_view()) == Some(deep(results@)),
            None => results_alone(message.deep_view()) is None,
        },
{
    let content = match message {
        Message::User { content } => content,
        _ => {
            return None;
        },
    };
    let ghost parts = content.deep_view();
    let listed = content.iter();
    let mut results: Vec<ToolResult> = Vec::new();
    let mut i: usize = 0;
    while i < listed.len()
        invariant
            i <= listed@.len(),
            deep(listed@) == parts,
            message.deep_view() == (MessageView::User { content: parts }),
            results@.len() == i,
            forall|k: int|
                0 <= k < i ==> #[trigger] parts[k] == UserContentView::ToolResult(
                    results@[k].deep_view(),
                ),
        decreases listed@.len() - i,
    {
        assert(parts[i as int] == listed@[i as int].deep_view());
        match listed[i] {
            UserContent::ToolResult(result) => results.push(result.clone()),
            _ => {
                assert(!(parts[i as int] is ToolResult));
                return None;
            },
        }
        i = i + 1;
    }
    assert(deep(results@) =~= parts.map_values(|part: UserContentView| part->ToolResult_0));
    Some(results)
}

/// Whether `id` is among `ids`.
fn mentions(ids: &Vec<String>, id: &String) -> (found: bool)
    ensures
        found == deep(ids@).to_set().contains(id@),
{
    let ghost all = deep(ids@);
    let mut i: usize = 0;
    while i < ids.len()
        invariant
            i <= ids@.len(),
            all == deep(ids@),
            forall|k: int| 0 <= k < i ==> #[trigger] all[k] != id@,
        decreases ids@.len() - i,
    {
        if ids[i] == *id {
            assert(all[i as int] == id@);
            return true;
        }
        i = i + 1;
    }
    false
}

/// What the model is told of a call that was cut off.
pub open spec fn interrupted_notice() -> Seq<char> {
    "[tool execution was interrupted before completing — the call \"\n                 may have had partial effects; verify them before relying on \"\n                 anything it did]"@
}

/// The result that answers a call that was cut off.
pub open spec fn interrupted_result(call: ToolCallView) -> ToolResultView {
    failure_result(call.id, call.call_id, interrupted_notice())
}

/// Answers each dangling call with a result that says the call was cut off.
pub fn interrupted_results(dangling: &DanglingToolCalls) -> (results: Vec<ToolResult>)
    ensures
        deep(results@) == dangling.deep_view().map_values(
            |call: ToolCallView| interrupted_result(call),
        ),
{
    let mut results: Vec<ToolResult> = Vec::new();
    let mut i: usize = 0;
    while i < dangling.calls.len()
        invariant
            i <= dangling.calls@.len(),
            results@.len() == i,
            forall|k: int|
                0 <= k < i ==> (#[trigger] results@[k]).deep_view() == interrupted_result(
                    dangling.calls@[k].deep_view(),
                ),
        decreases dangling.calls@.len() - i,
    {
        let call = &dangling.calls[i];
        let notice = ToolResultContent::text(
            "[tool execution was interrupted before completing — the call \"\n                 may have had partial effects; verify them before relying on \"\n                 anything it did]".to_owned(),
        );
        let content = OneOrMany::one(notice);
        assert(content.deep_view() =~= text_output(interrupted_notice()));
        let result = ToolResult {
            id: call.id.clone(),
            call_id: call.call_id.clone(),
            content,
            status: Some(ToolResultStatus::Failed { code: None }),
        };
        results.push(result);
        i = i + 1;
    }
    assert(deep(results@) =~= dangling.deep_view().map_values(
        |call: ToolCallView| interrupted_result(call),
    ));
    results
}

impl Default for Conversation {
    fn default() -> (conversation: Self)
        ensures
            conversation.deep_view() == ConversationView::empty(),
    {
        Self::new()
    }
}

impl Conversation {
    /// The conversation of nothing.
    pub fn new() -> (conversation: Self)
        ensures
            conversation.deep_view() == ConversationView::empty(),
    {
        let answered: Vec<String> = Vec::new();
        assert(deep(answered@).to_set() =~= Set::empty());
        let conversation = Conversation {
            messages: Vec::new(),
            pending_results: Vec::new(),
            trailing_calls: Vec::new(),
            answered,
            earlier: Vec::new(),
        };
        assert(deep(conversation.messages@) =~= Seq::empty());
        assert(deep(conversation.pending_results@) =~= Seq::empty());
        assert(deep(conversation.trailing_calls@) =~= Seq::empty());
        assert(deep(conversation.earlier@) =~= Seq::empty());
        conversation
    }

    /// A conversation that goes on from the given messages. Where they end in the middle of
    /// a tool roundtrip, so does the conversation.
    pub fn from_messages(messages: Vec<Message>) -> (conversation: Self)
        ensures
            conversation.deep_view() == adopted(deep(messages@)),
            conversation.deep_view().messages == deep(messages@),
            conversation.deep_view().pending.len() == 0,
    {
        let ghost all = deep(messages@);
        let mut conversation = Self::new();
        let mut i: usize = 0;
        while i < messages.len()
            invariant
                i <= messages@.len(),
                all == deep(messages@),
                conversation.deep_view() == adopted(all.take(i as int)),
            decreases messages@.len() - i,
        {
            assert(all.take(i + 1).drop_last() =~= all.take(i as int));
            assert(all.take(i + 1).last() == messages@[i as int].deep_view());
            let message = messages[i].clone();
            if matches!(message, Message::Assistant { .. }) {
                conversation.assistant(message);
            } else {
                match only_results(&message) {
                    Some(results) => conversation.answer(results),
                    None => conversation.user(message),
                }
            }
            i = i + 1;
        }
        proof {
            assert(all.take(i as int) =~= all);
            lemma_adopted_reads_as_given(all);
        }
        conversation
    }

    /// Adds tool results, and puts them in place.
    fn answer(&mut self, results: Vec<ToolResult>)
        ensures
            final(self).deep_view() == old(self).deep_view().after_results(
                deep(results@),
            ).flushed(),
    {
        let ghost start = self.deep_view();
        let ghost all = deep(results@);
        let mut i: usize = 0;
        while i < results.len()
            invariant
                i <= results@.len(),
                all == deep(results@),
                self.deep_view() == start.after_results(all.take(i as int)),
            decreases results@.len() - i,
        {
            assert(all.take(i + 1).drop_last() =~= all.take(i as int));
            self.tool_result(results[i].clone());
            i = i + 1;
        }
        assert(all.take(i as int) =~= all);
        self.flush_results();
    }

    /// Puts waiting results in place.
    fn flush_results(&mut self)
        ensures
            final(self).deep_view() == old(self).deep_view().flushed(),
    {
        if self.pending_results.len() == 0 {
            assert(deep(self.pending_results@) =~= Seq::empty());
            return;
        }
        let mut results: Vec<ToolResult> = Vec::new();
        std::mem::swap(&mut results, &mut self.pending_results);
        let ghost waiting = deep(results@);
        let ghost n = results@.len();
        let mut content: Vec<UserContent> = Vec::new();
        while results.len() > 0
            invariant
                content@.len() + results@.len() == n,
                n == waiting.len(),
                deep(results@) == waiting.skip(content@.len() as int),
                forall|k: int|
                    0 <= k < content@.len() ==> (#[trigger] content@[k]).deep_view()
                        == UserContentView::ToolResult(waiting[k]),
            decreases results@.len(),
        {
            let ghost rest = deep(results@);
            let result = results.remove(0);
            assert(result.deep_view() == rest[0]);
            assert(deep(results@) =~= rest.skip(1));
            content.push(UserContent::ToolResult(result));
            assert(deep(results@) =~= waiting.skip(content@.len() as int));
        }
        let ghost parts = deep(content@);
        assert(parts =~= waiting.map_values(
            |result: ToolResultView| UserContentView::ToolResult(result),
        ));
        if let Some(content) = OneOrMany::from_vec(content) {
            self.messages.push(Message::User { content });
        }
    }

    /// Adds a user message. Waiting results go in before it, and the calls of the
    /// last turn are done with.
    pub fn user(&mut self, message: Message)
        ensures
            final(self).deep_view() == old(self).deep_view().after_user(message.deep_view()),
    {
        self.flush_results();
        self.trailing_calls.clear();
        self.answered.clear();
        self.earlier.clear();
        self.messages.push(message);
        assert(deep(self.answered@).to_set() =~= Set::empty());
        assert(deep(self.trailing_calls@) =~= Seq::empty());
        assert(deep(self.earlier@) =~= Seq::empty());
    }

    /// Adds an assistant turn. Waiting results go in before it.
    pub fn assistant(&mut self, message: Message)
        ensures
            final(self).deep_view() == old(self).deep_view().after_assistant(message.deep_view()),
    {
        self.flush_results();
        let mut calls = calls_of(&message);
        let mut answered: Vec<String> = Vec::new();
        assert(deep(answered@).to_set() =~= Set::empty());
        std::mem::swap(&mut calls, &mut self.trailing_calls);
        std::mem::swap(&mut answered, &mut self.answered);
        self.earlier.push(Roundtrip { calls, answered });
        self.messages.push(message);
    }

    /// Notes that results have answered `id`.
    fn mark_answered(&mut self, id: String)
        ensures
            final(self).deep_view() == (ConversationView {
                answered: old(self).deep_view().answered.insert(id@),
                ..old(self).deep_view()
            }),
    {
        if !mentions(&self.answered, &id) {
            let ghost before = deep(self.answered@);
            let ghost text = id@;
            self.answered.push(id);
            let ghost after = deep(self.answered@);
            assert(after == before.push(text));
            assert forall|other: Seq<char>|
                after.to_set().contains(other) <==> before.to_set().insert(text).contains(other) by {
                if before.contains(other) {
                    let k = choose|k: int| 0 <= k < before.len() && before[k] == other;
                    assert(after[k] == other);
                }
                assert(after[before.len() as int] == text);
                if after.contains(other) {
                    let k = choose|k: int| 0 <= k < after.len() && after[k] == other;
                    if k < before.len() {
                        assert(before[k] == other);
                    }
                }
            }
            assert(after.to_set() =~= before.to_set().insert(text));
        } else {
            assert(deep(self.answered@).to_set() =~= deep(self.answered@).to_set().insert(id@));
        }
    }

    /// Adds a tool result, which waits for the next message or reading.
    pub fn tool_result(&mut self, result: ToolResult)
        ensures
            final(self).deep_view() == old(self).deep_view().after_result(result.deep_view()),
    {
        self.mark_answered(result.id.clone());
        if let Some(call_id) = &result.call_id {
            self.mark_answered(call_id.clone());
        }
        self.pending_results.push(result);
    }

    /// Adds user messages, in order.
    pub fn extend_users(&mut self, messages: Vec<Message>)
        ensures
            final(self).deep_view() == old(self).deep_view().after_users(deep(messages@)),
    {
        let ghost start = self.deep_view();
        let ghost all = deep(messages@);
        let mut i: usize = 0;
        while i < messages.len()
            invariant
                i <= messages@.len(),
                all == deep(messages@),
                self.deep_view() == start.after_users(all.take(i as int)),
            decreases messages@.len() - i,
        {
            assert(all.take(i + 1).drop_last() =~= all.take(i as int));
            self.user(messages[i].clone());
            i = i + 1;
        }
        assert(all.take(i as int) =~= all);
    }

    /// Drops the last message where it is an assistant turn, with the results that wait for
    /// it. The conversation is then as it was before the turn.
    pub fn pop_last_assistant(&mut self)
        ensures
            final(self).deep_view() == old(self).deep_view().after_pop(),
    {
        let n = self.messages.len();
        if n > 0 {
            assert(deep(self.messages@).last() == self.messages@.last().deep_view());
            if matches!(self.messages[n - 1], Message::Assistant { .. }) {
                let ghost before = self.deep_view();
                let _ = self.messages.pop();
                assert(deep(self.messages@) =~= before.messages.drop_last());
                self.pending_results.clear();
                assert(deep(self.pending_results@) =~= Seq::empty());
                match self.earlier.pop() {
                    Some(roundtrip) => {
                        assert(roundtrip.deep_view() == before.earlier.last());
                        assert(deep(self.earlier@) =~= before.earlier.drop_last());
                        self.trailing_calls = roundtrip.calls;
                        self.answered = roundtrip.answered;
                    },
                    None => {
                        self.trailing_calls.clear();
                        self.answered.clear();
                        assert(deep(self.trailing_calls@) =~= Seq::empty());
                        assert(deep(self.answered@).to_set() =~= Set::empty());
                        assert(deep(self.earlier@) =~= Seq::empty());
                    },
                }
            }
        }
    }

    /// The messages that are in place, without the waiting results.
    pub fn committed(&self) -> (messages: &[Message])
        ensures
            deep(messages@) == self.deep_view().messages,
    {
        self.messages.as_slice()
    }

    /// The messages, waiting results put in place first.
    pub fn messages(&mut self) -> (messages: &[Message])
        ensures
            final(self).deep_view() == old(self).deep_view().flushed(),
            deep(messages@) == old(self).deep_view().readable(),
    {
        self.flush_results();
        self.messages.as_slice()
    }

    /// A copy of the messages, waiting results put in place first.
    pub fn messages_vec(&mut self) -> (messages: Vec<Message>)
        ensures
            final(self).deep_view() == old(self).deep_view().flushed(),
            deep(messages@) == old(self).deep_view().readable(),
    {
        self.flush_results();
        let copy = self.messages.clone();
        assert(deep(copy@) =~= deep(self.messages@));
        copy
    }

    /// The messages behind the first `entry_len`, waiting results put in place
    /// first.
    pub fn new_since(&mut self, entry_len: usize) -> (messages: &[Message])
        ensures
            final(self).deep_view() == old(self).deep_view().flushed(),
            deep(messages@) == (if entry_len <= old(self).deep_view().readable().len() {
                old(self).deep_view().readable().skip(entry_len as int)
            } else {
                Seq::empty()
            }),
    {
        self.flush_results();
        let n = self.messages.len();
        let start = if entry_len < n { entry_len } else { n };
        slice_subrange(self.messages.as_slice(), start, n)
    }

    /// How many messages there are, waiting results put in place first.
    pub fn len(&mut self) -> (n: usize)
        ensures
            final(self).deep_view() == old(self).deep_view().flushed(),
            n == old(self).deep_view().readable().len(),
    {
        self.flush_results();
        self.messages.len()
    }

    /// Whether there is no message, waiting results put in place first.
    pub fn is_empty(&mut self) -> (empty: bool)
        ensures
            final(self).deep_view() == old(self).deep_view().flushed(),
            empty == (old(self).deep_view().readable().len() == 0),
    {
        self.len() == 0
    }

    /// Whether a result has answered the call, under one of its ids.
    fn is_answered(&self, call: &ToolCall) -> (answered: bool)
        ensures
            answered == self.deep_view().has_answered(call.deep_view()),
    {
        if mentions(&self.answered, &call.id) {
            return true;
        }
        match &call.call_id {
            Some(call_id) => mentions(&self.answered, call_id),
            None => false,
        }
    }

    /// The calls of the last assistant turn that no result has answered, where
    /// there are any.
    pub fn dangling(&self) -> (dangling: Option<DanglingToolCalls>)
        ensures
            dangling.deep_view() == (if self.deep_view().unanswered().len() == 0 {
                None
            } else {
                Some(self.deep_view().unanswered())
            }),
    {
        let ghost trailing = deep(self.trailing_calls@);
        let ghost open = |call: ToolCallView| !self.deep_view().has_answered(call);
        let mut calls: Vec<ToolCall> = Vec::new();
        let mut i: usize = 0;
        assert(trailing.take(0).filter(open) =~= Seq::empty()) by {
            reveal(Seq::filter);
        }
        while i < self.trailing_calls.len()
            invariant
                i <= self.trailing_calls@.len(),
                trailing == deep(self.trailing_calls@),
                open == (|call: ToolCallView| !self.deep_view().has_answered(call)),
                deep(calls@) == trailing.take(i as int).filter(open),
            decreases self.trailing_calls@.len() - i,
        {
            assert(trailing.take(i + 1).drop_last() =~= trailing.take(i as int));
            assert(trailing.take(i + 1).filter(open) == if open(trailing[i as int]) {
                trailing.take(i as int).filter(open).push(trailing[i as int])
            } else {
                trailing.take(i as int).filter(open)
            }) by {
                reveal(Seq::filter);
            }
            if !self.is_answered(&self.trailing_calls[i]) {
                calls.push(self.trailing_calls[i].clone());
            }
            i = i + 1;
        }
        assert(trailing.take(i as int) =~= trailing);
        if calls.len() == 0 {
            None
        } else {
            Some(DanglingToolCalls { calls })
        }
    }
}

/// What tool results do to a conversation, taken one at a time.
pub proof fn lemma_after_results(before: ConversationView, results: Seq<ToolResultView>)
    ensures
        before.after_results(results).messages == before.messages,
        before.after_results(results).trailing == before.trailing,
        before.after_results(results).earlier == before.earlier,
        before.after_results(results).pending == before.pending + results,
        before.answered.subset_of(before.after_results(results).answered),
        forall|i: int|
            0 <= i < results.len() ==> before.after_results(results).answered.contains(
                (#[trigger] results[i]).id,
            ),
    decreases results.len(),
{
    if results.len() == 0 {
        assert(before.pending + results =~= before.pending);
    } else {
        lemma_after_results(before, results.drop_last());
        assert(before.pending + results =~= (before.pending + results.drop_last()).push(
            results.last(),
        ));
        assert forall|i: int| 0 <= i < results.len() implies before.after_results(
            results,
        ).answered.contains((#[trigger] results[i]).id) by {
            if i < results.len() - 1 {
                assert(results.drop_last()[i] == results[i]);
            }
        }
    }
}

/// User messages that come in together go in one behind the other, in order.
pub proof fn law_steered_messages_keep_their_order(
    before: ConversationView,
    messages: Seq<MessageView>,
)
    ensures
        before.after_users(messages).readable() == before.readable() + messages,
        messages.len() > 0 || before.pending.len() == 0 ==> {
            &&& before.after_users(messages).messages == before.readable() + messages
            &&& before.after_users(messages).pending.len() == 0
        },
    decreases messages.len(),
{
    if messages.len() == 0 {
        assert(before.readable() + messages =~= before.readable());
    } else {
        law_steered_messages_keep_their_order(before, messages.drop_last());
        assert(before.readable() + messages =~= (before.readable() + messages.drop_last()).push(
            messages.last(),
        ));
    }
}

/// A filter that nothing passes leaves nothing.
proof fn lemma_filter_leaves_nothing(
    calls: Seq<ToolCallView>,
    passes: spec_fn(ToolCallView) -> bool,
)
    requires
        forall|i: int| 0 <= i < calls.len() ==> !passes(#[trigger] calls[i]),
    ensures
        calls.filter(passes) == Seq::<ToolCallView>::empty(),
    decreases calls.len(),
{
    reveal(Seq::filter);
    if calls.len() > 0 {
        assert forall|i: int| 0 <= i < calls.drop_last().len() implies !passes(
            #[trigger] calls.drop_last()[i],
        ) by {
            assert(calls.drop_last()[i] == calls[i]);
        }
        lemma_filter_leaves_nothing(calls.drop_last(), passes);
        assert(!passes(calls[calls.len() - 1]));
    } else {
        assert(calls.filter(passes) =~= Seq::empty());
    }
}

/// A filter that everything passes leaves everything.
pub proof fn lemma_filter_keeps_all(
    calls: Seq<ToolCallView>,
    passes: spec_fn(ToolCallView) -> bool,
)
    requires
        forall|call: ToolCallView| #[trigger] passes(call),
    ensures
        calls.filter(passes) == calls,
    decreases calls.len(),
{
    reveal(Seq::filter);
    if calls.len() > 0 {
        lemma_filter_keeps_all(calls.drop_last(), passes);
        assert(passes(calls.last()));
        assert(calls.drop_last().push(calls.last()) =~= calls);
    } else {
        assert(calls.filter(passes) =~= calls);
    }
}

/// Filters that agree leave the same.
proof fn lemma_filter_agrees(
    calls: Seq<ToolCallView>,
    one: spec_fn(ToolCallView) -> bool,
    other: spec_fn(ToolCallView) -> bool,
)
    requires
        forall|call: ToolCallView| #[trigger] one(call) == other(call),
    ensures
        calls.filter(one) == calls.filter(other),
    decreases calls.len(),
{
    reveal(Seq::filter);
    if calls.len() > 0 {
        lemma_filter_agrees(calls.drop_last(), one, other);
        assert(one(calls.last()) == other(calls.last()));
    }
}

/// A message that holds tool results holds them alone.
proof fn lemma_results_message(results: Seq<ToolResultView>)
    requires
        results.len() > 0,
    ensures
        results_alone(results_message(results)) == Some(results),
{
    let content = results_message(results)->User_content;
    assert(content.map_values(|part: UserContentView| part->ToolResult_0) =~= results);
}

/// What passes a filter is left.
proof fn lemma_filter_keeps(
    calls: Seq<ToolCallView>,
    passes: spec_fn(ToolCallView) -> bool,
    i: int,
)
    requires
        0 <= i < calls.len(),
        passes(calls[i]),
    ensures
        calls.filter(passes).contains(calls[i]),
    decreases calls.len(),
{
    reveal(Seq::filter);
    let kept = calls.filter(passes);
    if i == calls.len() - 1 {
        assert(kept[kept.len() - 1] == calls[i]);
    } else {
        assert(calls.drop_last()[i] == calls[i]);
        lemma_filter_keeps(calls.drop_last(), passes, i);
        let earlier = calls.drop_last().filter(passes);
        let k = choose|k: int| 0 <= k < earlier.len() && earlier[k] == calls[i];
        assert(kept[k] == calls[i]);
    }
}

/// Tool results that come in one at a time end up as the same messages as the
/// one user message that holds them all.
pub proof fn law_single_results_fold_like_a_batch(
    before: ConversationView,
    results: Seq<ToolResultView>,
)
    requires
        before.pending.len() == 0,
        results.len() > 0,
    ensures
        before.after_results(results).readable() == before.after_user(
            results_message(results),
        ).readable(),
{
    lemma_after_results(before, results);
    assert(before.pending + results =~= results);
}

/// No message and no waiting result is lost or split by what comes next: a user
/// message or an assistant turn adds itself behind everything that was there to
/// read, and a reading changes nothing that is there to read.
pub proof fn law_nothing_is_lost(before: ConversationView, message: MessageView)
    ensures
        before.after_user(message).readable() == before.readable().push(message),
        before.after_assistant(message).readable() == before.readable().push(message),
        before.flushed().readable() == before.readable(),
        before.flushed().flushed() == before.flushed(),
{
}

/// Dropping the last assistant turn undoes adding it, and whatever results have come in
/// for it: the messages, and the calls that dangle, are those from before the turn.
pub proof fn law_pop_undoes_an_assistant_turn(
    before: ConversationView,
    message: MessageView,
    results: Seq<ToolResultView>,
)
    requires
        message is Assistant,
    ensures
        before.after_assistant(message).after_results(results).after_pop() == before.flushed(),
        before.after_assistant(message).after_results(results).after_pop().readable()
            == before.readable(),
        before.after_assistant(message).after_results(results).after_pop().unanswered()
            == before.unanswered(),
{
    let turn = before.after_assistant(message);
    lemma_after_results(turn, results);
    let back = turn.after_results(results).after_pop();
    assert(before.readable().push(message).drop_last() =~= before.readable());
    assert(turn.earlier.drop_last() =~= before.earlier);
    assert(back == before.flushed());
    lemma_filter_agrees(
        before.trailing,
        |call: ToolCallView| !back.has_answered(call),
        |call: ToolCallView| !before.has_answered(call),
    );
}

/// Whether a conversation can be read, put away and adopted again as it was.
pub open spec fn resumable(conversation: ConversationView) -> bool {
    conversation.flushed() == adopted(conversation.readable())
}

/// A conversation that was put away is resumed as it was: the same calls dangle. It stays
/// so through assistant turns, tool results that come in one at a time, and user messages
/// that hold more than tool results.
pub proof fn law_adopting_resumes(
    before: ConversationView,
    message: MessageView,
    result: ToolResultView,
)
    requires
        resumable(before),
    ensures
        resumable(ConversationView::empty()),
        adopted(before.readable()).unanswered() == before.unanswered(),
        message is Assistant ==> resumable(before.after_assistant(message)),
        !(message is Assistant) && results_alone(message) is None ==> resumable(
            before.after_user(message),
        ),
        resumable(before.after_result(result)),
        resumable(before.flushed()),
{
    let read = before.readable();
    assert(read.push(message).drop_last() =~= read);
    let resumed = adopted(read);
    lemma_filter_agrees(
        before.trailing,
        |call: ToolCallView| !resumed.has_answered(call),
        |call: ToolCallView| !before.has_answered(call),
    );
    let after = before.after_result(result);
    let last = results_message(after.pending);
    lemma_results_message(after.pending);
    assert(after.readable() == before.messages.push(last));
    assert(after.readable().drop_last() =~= before.messages);
    assert(after.pending.drop_last() =~= before.pending);
    let start = adopted(before.messages);
    lemma_adopted_reads_as_given(before.messages);
    if before.pending.len() == 0 {
        assert(start.after_results(before.pending) == start);
        assert(before.pending =~= Seq::empty());
    } else {
        lemma_results_message(before.pending);
        assert(read.drop_last() =~= before.messages);
    }
    lemma_after_results(start, before.pending);
    assert(start.pending + before.pending =~= before.pending);
    lemma_after_results(start, after.pending);
    assert(start.pending + after.pending =~= after.pending);
    assert(adopted(after.readable()) == start.after_results(after.pending).flushed());
}

/// A list that ends in an assistant turn ends in calls that nothing has answered.
pub proof fn law_adopted_turn_dangles(messages: Seq<MessageView>)
    requires
        messages.len() > 0,
        messages.last() is Assistant,
    ensures
        adopted(messages).unanswered() == calls_of_message(messages.last()),
{
    let conversation = adopted(messages);
    lemma_filter_keeps_all(
        conversation.trailing,
        |call: ToolCallView| !conversation.has_answered(call),
    );
}

/// A user message closes the roundtrip: no call dangles behind it.
pub proof fn law_user_message_closes_the_roundtrip(before: ConversationView, message: MessageView)
    ensures
        before.after_user(message).unanswered() == Seq::<ToolCallView>::empty(),
{
    let after = before.after_user(message);
    lemma_filter_leaves_nothing(after.trailing, |call: ToolCallView| !after.has_answered(call));
}

/// Once every call of the last turn has its result, no call dangles.
pub proof fn law_complete_roundtrip_does_not_dangle(
    before: ConversationView,
    results: Seq<ToolResultView>,
)
    requires
        forall|i: int|
            0 <= i < before.trailing.len() ==> before.has_answered(#[trigger] before.trailing[i])
                || exists|k: int|
                0 <= k < results.len() && (#[trigger] results[k]).id == before.trailing[i].id,
    ensures
        before.after_results(results).unanswered() == Seq::<ToolCallView>::empty(),
{
    lemma_after_results(before, results);
    let after = before.after_results(results);
    assert forall|i: int| 0 <= i < after.trailing.len() implies after.has_answered(
        #[trigger] after.trailing[i],
    ) by {
        let call = before.trailing[i];
        if !before.has_answered(call) {
            let k = choose|k: int| 0 <= k < results.len() && (#[trigger] results[k]).id == call.id;
            assert(after.answered.contains(results[k].id));
        }
    }
    lemma_filter_leaves_nothing(after.trailing, |call: ToolCallView| !after.has_answered(call));
}

/// The results made up for a turn that was cut off repair it: with them, no call
/// dangles.
pub proof fn law_interrupted_results_repair(before: ConversationView)
    ensures
        before.after_results(
            before.unanswered().map_values(|call: ToolCallView| interrupted_result(call)),
        ).unanswered() == Seq::<ToolCallView>::empty(),
{
    let open = |call: ToolCallView| !before.has_answered(call);
    let results = before.unanswered().map_values(|call: ToolCallView| interrupted_result(call));
    assert forall|i: int| 0 <= i < before.trailing.len() implies before.has_answered(
        #[trigger] before.trailing[i],
    ) || exists|k: int|
        0 <= k < results.len() && (#[trigger] results[k]).id == before.trailing[i].id by {
        if !before.has_answered(before.trailing[i]) {
            lemma_filter_keeps(before.trailing, open, i);
            let k = choose|k: int|
                0 <= k < before.unanswered().len() && before.unanswered()[k] == before.trailing[i];
            assert(results[k].id == before.trailing[i].id);
        }
    }
    law_complete_roundtrip_does_not_dangle(before, results);
}

} // verus!
