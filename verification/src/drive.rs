//! The decisions of the loop that drives a run.

use vstd::prelude::*;
use crate::completion::{CompletionError, CompletionErrorView, PromptError, PromptErrorView};
use crate::deep::{deep, group_deep};
use crate::message::{
    has_user_text, joined_user_text, Message, MessageView,
};
use crate::run::{outcome, AgentRun, ProviderErrorClass, RunView};
use crate::stream_item::{
    streaming_error_into_prompt, MultiTurnStreamItem, MultiTurnStreamItemView, StreamingError,
    StreamingErrorView,
};
use crate::strings::{contains, lowercase, occurs_in, to_lowercase};
use crate::tool_batch::{missing_result, ToolBatch, ToolBatchView};

verus! {

broadcast use group_deep;

/// What a failed turn is.
#[derive(Debug, PartialEq, Eq)]
pub enum TurnFailure {
    /// The model emitted a tool call whose arguments cannot be read.
    Defect(String),
    /// The provider failed.
    Provider(ProviderErrorClass),
    /// The run was stopped.
    Stop(String),
}

pub enum TurnFailureView {
    Defect(Seq<char>),
    Provider(ProviderErrorClass),
    Stop(Seq<char>),
}

impl DeepView for TurnFailure {
    type V = TurnFailureView;

    open spec fn deep_view(&self) -> TurnFailureView {
        match self {
            TurnFailure::Defect(reason) => TurnFailureView::Defect(reason@),
            TurnFailure::Provider(class) => TurnFailureView::Provider(*class),
            TurnFailure::Stop(reason) => TurnFailureView::Stop(reason@),
        }
    }
}

/// How a provider failure with the given status, and with the given words in lower
/// case, classifies: rate limits are worth another try, nothing else is.
pub open spec fn class_of(status: Option<u16>, lowered: Seq<char>) -> ProviderErrorClass {
    if status == Some(429u16) || occurs_in("rate limit"@, lowered) {
        ProviderErrorClass::Retryable
    } else {
        ProviderErrorClass::Terminal
    }
}

/// How a provider failure classifies.
pub open spec fn provider_class(error: CompletionErrorView) -> ProviderErrorClass {
    class_of(error.status(), lowercase(error.text()))
}

/// Classifies a provider failure by its status and its words in lower case.
pub fn classify_lowered(status: Option<u16>, lowered: &str) -> (class: ProviderErrorClass)
    ensures
        class == class_of(status, lowered@),
{
    let limited = match status {
        Some(code) => code == 429,
        None => false,
    };
    if limited || contains(lowered, "rate limit") {
        ProviderErrorClass::Retryable
    } else {
        ProviderErrorClass::Terminal
    }
}

/// Classifies a provider failure.
pub fn classify_provider_error(error: &CompletionError) -> (class: ProviderErrorClass)
    ensures
        class == provider_class(error.deep_view()),
{
    let lowered = to_lowercase(error.to_text().as_str());
    classify_lowered(error.provider_response_status(), lowered.as_str())
}

/// What an error of a turn's stream says of the turn.
pub open spec fn turn_failure(error: StreamingErrorView) -> TurnFailureView {
    match error {
        StreamingErrorView::Completion(CompletionErrorView::MalformedToolCall { tool, reason }) =>
            TurnFailureView::Defect("`"@ + tool + "`: "@ + reason),
        StreamingErrorView::Completion(other) => TurnFailureView::Provider(provider_class(other)),
        StreamingErrorView::Prompt(PromptErrorView::PromptCancelled { reason, .. }) =>
            TurnFailureView::Stop(reason),
        StreamingErrorView::Prompt(PromptErrorView::CompletionError(inner)) =>
            TurnFailureView::Provider(provider_class(inner)),
        StreamingErrorView::Prompt(_) => TurnFailureView::Provider(ProviderErrorClass::Terminal),
    }
}

/// Says what an error of a turn's stream says of the turn.
pub fn classify_turn_failure(error: &StreamingError) -> (failure: TurnFailure)
    ensures
        failure.deep_view() == turn_failure(error.deep_view()),
{
    match error {
        StreamingError::Completion(CompletionError::MalformedToolCall { tool, reason }) => {
            let mut text = "`".to_owned();
            text.append(tool.as_str());
            text.append("`: ");
            text.append(reason.as_str());
            TurnFailure::Defect(text)
        },
        StreamingError::Completion(other) => TurnFailure::Provider(classify_provider_error(other)),
        StreamingError::Prompt(boxed) => match &**boxed {
            PromptError::PromptCancelled { reason, .. } => TurnFailure::Stop(reason.clone()),
            PromptError::CompletionError(inner) => TurnFailure::Provider(
                classify_provider_error(inner),
            ),
            _ => TurnFailure::Provider(ProviderErrorClass::Terminal),
        },
    }
}

/// The run once it is told of a failed turn.
pub open spec fn run_after_failure(
    run: RunView,
    failure: TurnFailureView,
    error: PromptErrorView,
) -> RunView {
    match failure {
        TurnFailureView::Defect(reason) => run.after_broken(reason),
        TurnFailureView::Provider(class) => run.after_provider_error(class, error),
        TurnFailureView::Stop(reason) => run.after_terminate(reason),
    }
}

/// Whether the run takes the failure.
pub open spec fn failure_outcome(run: RunView, failure: TurnFailureView) -> Result<
    (),
    PromptErrorView,
> {
    match failure {
        TurnFailureView::Defect(_) => run.broken_outcome(),
        TurnFailureView::Provider(_) => run.provider_outcome(),
        TurnFailureView::Stop(_) => run.terminate_outcome(),
    }
}

/// Tells a run that its turn has failed with an error that was classified.
pub fn feed_classified_failure(
    run: &mut AgentRun,
    failure: TurnFailure,
    error: StreamingError,
) -> (result: Result<(), PromptError>)
    requires
        old(run).wf(),
    ensures
        final(run).wf(),
        final(run).deep_view() == run_after_failure(
            old(run).deep_view(),
            failure.deep_view(),
            error.deep_view().as_prompt_error(),
        ),
        outcome(result) == failure_outcome(old(run).deep_view(), failure.deep_view()),
{
    match failure {
        TurnFailure::Defect(reason) => run.broken(reason),
        TurnFailure::Provider(class) => run.provider_error(
            class,
            streaming_error_into_prompt(error),
        ),
        TurnFailure::Stop(reason) => run.terminate(reason.as_str()),
    }
}

/// The item that announces that a failed turn is discarded and tried again: there is
/// one for a turn that could not be read, and none otherwise.
pub fn retry_item(failure: &TurnFailure, turn: usize) -> (item: Option<MultiTurnStreamItem>)
    ensures
        item.deep_view() == (if failure.deep_view() is Defect {
            Some(MultiTurnStreamItemView::ModelTurnRetried { turn: turn as nat })
        } else {
            None
        }),
{
    match failure {
        TurnFailure::Defect(_) => Some(MultiTurnStreamItem::ModelTurnRetried { turn }),
        _ => None,
    }
}

/// The error with which the stream of a failed run ends. Where the provider was at
/// fault, its error comes out as it went in.
pub fn exit_error(error: PromptError, provider_failure: bool) -> (exit: StreamingError)
    ensures
        exit.deep_view() == (match error.deep_view() {
            PromptErrorView::CompletionError(completion) => if provider_failure {
                StreamingErrorView::Completion(completion)
            } else {
                StreamingErrorView::Prompt(error.deep_view())
            },
            other => StreamingErrorView::Prompt(other),
        }),
{
    match error {
        PromptError::CompletionError(completion) => if provider_failure {
            StreamingError::Completion(completion)
        } else {
            StreamingError::Prompt(Box::new(PromptError::CompletionError(completion)))
        },
        other => StreamingError::Prompt(Box::new(other)),
    }
}

/// The item that tells that a run has taken in the results of a turn's tools.
pub open spec fn closing_items(forward_items: bool, turn_id: Option<Seq<char>>) -> Seq<
    MultiTurnStreamItemView,
> {
    match turn_id {
        Some(turn_id) => if forward_items {
            seq![MultiTurnStreamItemView::RoundtripClosed { turn_id }]
        } else {
            Seq::empty()
        },
        None => Seq::empty(),
    }
}

/// The run once a batch has settled: the results are in the history, and only then a
/// reason not to go on takes effect.
pub open spec fn run_after_batch(run: RunView, batch: ToolBatchView) -> RunView {
    if !batch.complete() {
        run
    } else {
        let fed = run.after_results(batch.committed());
        match batch.stop {
            Some((_, reason)) => if run.results_outcome(batch.committed().len()) is Ok {
                fed.after_terminate(reason)
            } else {
                fed
            },
            None => fed,
        }
    }
}

/// The items or the error of a batch that settles.
pub open spec fn batch_outcome(
    run: RunView,
    batch: ToolBatchView,
    forward_items: bool,
    turn_id: Option<Seq<char>>,
) -> Result<Seq<MultiTurnStreamItemView>, StreamingErrorView> {
    if !batch.complete() {
        Err(missing_result())
    } else {
        match run.results_outcome(batch.committed().len()) {
            Ok(_) => Ok(batch.items(forward_items) + closing_items(forward_items, turn_id)),
            Err(error) => Err(StreamingErrorView::Prompt(error)),
        }
    }
}

/// Settles a batch into a run: its results go into the history, in call order, all
/// or none of them; only then the run learns of a reason not to go on. Gives out what
/// goes into the run's stream.
pub fn commit_tool_batch(
    run: &mut AgentRun,
    batch: ToolBatch,
    forward_items: bool,
    turn_id: Option<String>,
) -> (result: Result<Vec<MultiTurnStreamItem>, StreamingError>)
    requires
        old(run).wf(),
    ensures
        final(run).wf(),
        final(run).deep_view() == run_after_batch(old(run).deep_view(), batch.deep_view()),
        match batch_outcome(
            old(run).deep_view(),
            batch.deep_view(),
            forward_items,
            turn_id.deep_view(),
        ) {
            Ok(items) => result matches Ok(given) && deep(given@) == items,
            Err(error) => result matches Err(given) && given.deep_view() == error,
        },
{
    let settled = match batch.settle(forward_items) {
        Ok(settled) => settled,
        Err(error) => {
            return Err(error);
        },
    };
    if let Err(error) = run.tool_results(settled.committed) {
        return Err(StreamingError::Prompt(Box::new(error)));
    }
    let mut items = settled.items;
    if forward_items {
        if let Some(turn_id) = turn_id {
            items.push(MultiTurnStreamItem::RoundtripClosed { turn_id });
        }
    }
    assert(deep(items@) =~= batch.deep_view().items(forward_items) + closing_items(
        forward_items,
        turn_id.deep_view(),
    ));
    if let Some(reason) = settled.stop_reason {
        if let Err(error) = run.terminate(reason.as_str()) {
            return Err(StreamingError::Prompt(Box::new(error)));
        }
    }
    Ok(items)
}

/// Where queued user messages come from.
pub trait SteeringSource {
    /// Takes all queued messages, each with the id that it was given when it was
    /// queued, in the order in which they came in.
    fn drain(&self) -> Vec<(String, Message)>;

    /// Throws away what is queued: the run that it was meant for was stopped.
    fn discard_pending(&self) {
    }
}

/// The messages without their ids.
pub open spec fn drained_messages(drained: Seq<(Seq<char>, MessageView)>) -> Seq<MessageView> {
    drained.map_values(|entry: (Seq<char>, MessageView)| entry.1)
}

/// The text of a message, where it is a user message with text.
pub open spec fn steer_text(message: MessageView) -> Option<Seq<char>> {
    match message {
        MessageView::User { content } => if has_user_text(content) {
            Some(joined_user_text(content))
        } else {
            None
        },
        _ => None,
    }
}

/// The id and the text of each message that has a text.
pub open spec fn steer_batch(drained: Seq<(Seq<char>, MessageView)>) -> Seq<(Seq<char>, Seq<char>)>
    decreases drained.len(),
{
    if drained.len() == 0 {
        Seq::empty()
    } else {
        let before = steer_batch(drained.drop_last());
        match steer_text(drained.last().1) {
            Some(text) => before.push((drained.last().0, text)),
            None => before,
        }
    }
}

/// The item that announces messages that have joined the run: there is none where
/// there is nothing to show.
pub open spec fn steer_items(drained: Seq<(Seq<char>, MessageView)>) -> Seq<
    MultiTurnStreamItemView,
> {
    if steer_batch(drained).len() == 0 {
        Seq::empty()
    } else {
        seq![MultiTurnStreamItemView::Steer { batch: steer_batch(drained) }]
    }
}

/// Parts queued messages into the item that announces them and the messages themselves.
pub fn split_steers(drained: Vec<(String, Message)>) -> (parts: (
    Vec<MultiTurnStreamItem>,
    Vec<Message>,
))
    ensures
        deep(parts.0@) == steer_items(deep(drained@)),
        deep(parts.1@) == drained_messages(deep(drained@)),
{
    let ghost all = deep(drained@);
    let mut batch: Vec<(String, String)> = Vec::new();
    let mut messages: Vec<Message> = Vec::new();
    let mut i: usize = 0;
    while i < drained.len()
        invariant
            i <= drained@.len(),
            all == deep(drained@),
            messages@.len() == i,
            forall|k: int| 0 <= k < i ==> (#[trigger] messages@[k]).deep_view() == all[k].1,
            deep(batch@) == steer_batch(all.take(i as int)),
        decreases drained@.len() - i,
    {
        assert(all.take(i + 1).drop_last() =~= all.take(i as int));
        assert(all.take(i + 1).last() == drained@[i as int].deep_view());
        if let Some(text) = drained[i].1.user_text() {
            batch.push((drained[i].0.clone(), text));
        }
        messages.push(drained[i].1.clone());
        i = i + 1;
    }
    assert(all.take(i as int) =~= all);
    assert(deep(messages@) =~= drained_messages(all));
    let mut items: Vec<MultiTurnStreamItem> = Vec::new();
    if batch.len() > 0 {
        items.push(MultiTurnStreamItem::Steer { batch });
    }
    assert(deep(items@) =~= steer_items(all));
    (items, messages)
}

/// Hands the messages that were queued to a run at its drain. Gives out the item that
/// announces them.
pub fn feed_steers(run: &mut AgentRun, drained: Vec<(String, Message)>) -> (result: (
    Vec<MultiTurnStreamItem>,
    Result<(), PromptError>,
))
    requires
        old(run).wf(),
    ensures
        final(run).wf(),
        final(run).deep_view() == old(run).deep_view().after_steers(
            drained_messages(deep(drained@)),
        ),
        deep(result.0@) == steer_items(deep(drained@)),
        outcome(result.1) == old(run).deep_view().steer_outcome(
            drained_messages(deep(drained@)),
        ),
{
    let (items, messages) = split_steers(drained);
    let decided = run.steered(messages);
    (items, decided)
}

/// Whether the items go out changes nothing but the items: a batch settles, or fails, in the
/// same way where nobody listens.
pub proof fn law_listening_changes_nothing_else(
    run: RunView,
    batch: ToolBatchView,
    turn_id: Option<Seq<char>>,
)
    ensures
        match batch_outcome(run, batch, true, turn_id) {
            Ok(_) => batch_outcome(run, batch, false, turn_id) == Ok::<
                Seq<MultiTurnStreamItemView>,
                StreamingErrorView,
            >(Seq::empty()),
            Err(error) => batch_outcome(run, batch, false, turn_id) == Err::<
                Seq<MultiTurnStreamItemView>,
                StreamingErrorView,
            >(error),
        },
{
    let none = Seq::<MultiTurnStreamItemView>::empty();
    assert(none + none =~= none);
}

/// The results of a batch are in the history before a stop takes effect, and the run
/// fails at its next drain with the reason of the first call that gave one.
pub proof fn law_batch_commits_before_the_stop(run: RunView, batch: ToolBatchView)
    requires
        batch.complete(),
        run.stage == crate::run::StageView::ToolsRunning(batch.slots.len()),
        run.terminating is None,
        batch.stop is Some,
    ensures
        run_after_batch(run, batch).history == run.history.push(
            crate::run::tool_results_message(batch.committed()),
        ),
        run_after_batch(run, batch).steer_outcome(Seq::empty()) == Err::<(), PromptErrorView>(
            PromptErrorView::PromptCancelled {
                chat_history: run_after_batch(run, batch).history,
                reason: (batch.stop->0).1,
            },
        ),
{
}

} // verus!
