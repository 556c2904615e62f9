//! The committed conversation that models see.

use vstd::prelude::*;
use crate::deep::{deep, group_deep};
use crate::message::{Message, MessageView};

verus! {

broadcast use group_deep;

/// The committed messages, in the order in which they were committed. Messages
/// come in one at a time or a batch at a time, and are kept as they are: none is
/// inspected, merged, moved or made up.
#[derive(Debug, PartialEq, Eq)]
pub struct Context {
    messages: Vec<Message>,
}

impl DeepView for Context {
    type V = Seq<MessageView>;

    closed spec fn deep_view(&self) -> Seq<MessageView> {
        deep(self.messages@)
    }
}

impl Default for Context {
    fn default() -> (context: Self)
        ensures
            context.deep_view() == Seq::<MessageView>::empty(),
    {
        Self::new()
    }
}

impl Context {
    /// A context without messages.
    pub fn new() -> (context: Self)
        ensures
            context.deep_view() == Seq::<MessageView>::empty(),
    {
        Context { messages: Vec::new() }
    }

    /// Adds a committed message.
    pub fn fold(&mut self, message: Message)
        ensures
            final(self).deep_view() == old(self).deep_view().push(message.deep_view()),
    {
        self.messages.push(message);
    }

    /// Adds a committed batch of messages.
    pub fn fold_all(&mut self, messages: Vec<Message>)
        ensures
            final(self).deep_view() == old(self).deep_view() + deep(messages@),
    {
        let mut messages = messages;
        self.messages.append(&mut messages);
    }

    /// The committed messages.
    pub fn messages(&self) -> (messages: &[Message])
        ensures
            deep(messages@) == self.deep_view(),
    {
        self.messages.as_slice()
    }

    /// Hands the committed messages over.
    pub fn into_messages(self) -> (messages: Vec<Message>)
        ensures
            deep(messages@) == self.deep_view(),
    {
        self.messages
    }
}

/// The context after folding `messages` one at a time.
pub open spec fn folded(context: Seq<MessageView>, messages: Seq<MessageView>) -> Seq<MessageView>
    decreases messages.len(),
{
    if messages.len() == 0 {
        context
    } else {
        folded(context, messages.drop_last()).push(messages.last())
    }
}

/// Folding a batch is folding its messages one at a time.
pub proof fn law_batch_is_its_messages(context: Seq<MessageView>, messages: Seq<MessageView>)
    ensures
        context + messages == folded(context, messages),
    decreases messages.len(),
{
    if messages.len() == 0 {
        assert(context + messages =~= context);
    } else {
        law_batch_is_its_messages(context, messages.drop_last());
        assert(context + messages =~= (context + messages.drop_last()).push(messages.last()));
    }
}

} // verus!
