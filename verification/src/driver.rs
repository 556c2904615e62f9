//! The loop that drives a run: what to do next, and what comes of what was done.

use vstd::prelude::*;
use crate::completion::{CompletionError, CompletionErrorView, PromptError, PromptErrorView};
use crate::deep::{deep, group_deep};
use crate::drive::{
    batch_outcome, classify_turn_failure, commit_tool_batch, drained_messages, exit_error, failure_outcome, feed_classified_failure,
    feed_steers, provider_class, retry_item, run_after_batch, run_after_failure, steer_items, turn_failure,
    SteeringSource, TurnFailure,
};
use crate::message::{Message, MessageView};
use crate::prompt_response::{PromptResponse, PromptResponseView};
use crate::run::{outcome, AgentRun, AgentRunStep, AgentRunStepView, ProviderErrorClass, RunView};
use crate::stream_item::{
    MultiTurnStreamItem, MultiTurnStreamItemView, StreamingError, StreamingErrorView,
};
use crate::tool_batch::ToolBatch;
use crate::turn::{admission, ModelTurn, ModelTurnView, PendingToolCall, PendingToolCallView};
use crate::usage::addable;

verus! {

broadcast use group_deep;

/// What the loop is to do next. `T` stands for the tools that a turn was offered.
#[derive(Debug)]
pub enum DriveStep<T> {
    /// Call the model with this history. It is the turn of this number.
    CallModel { history: Vec<Message>, turn: usize },
    /// Run these tools, out of those that the turn was offered.
    CallTools { calls: Vec<PendingToolCall>, tools: T },
    /// Hand over the queued user messages.
    DrainSteers,
    /// The run has ended with this response.
    Done(Box<PromptResponse>),
    /// The run has failed.
    Failed(StreamingError),
}

pub enum DriveStepView<T> {
    CallModel { history: Seq<MessageView>, turn: nat },
    CallTools { calls: Seq<PendingToolCallView>, tools: T },
    DrainSteers,
    Done(PromptResponseView),
    Failed(StreamingErrorView),
}

impl<T> DeepView for DriveStep<T> {
    type V = DriveStepView<T>;

    open spec fn deep_view(&self) -> DriveStepView<T> {
        match self {
            DriveStep::CallModel { history, turn } => DriveStepView::CallModel {
                history: deep(history@),
                turn: *turn as nat,
            },
            DriveStep::CallTools { calls, tools } => DriveStepView::CallTools {
                calls: deep(calls@),
                tools: *tools,
            },
            DriveStep::DrainSteers => DriveStepView::DrainSteers,
            DriveStep::Done(response) => DriveStepView::Done(response.deep_view()),
            DriveStep::Failed(error) => DriveStepView::Failed(error.deep_view()),
        }
    }
}

/// A run that is being driven.
#[derive(Debug)]
pub struct AgentDriver<T> {
    /// The run.
    pub run: AgentRun,
    /// The tools that the turn which was committed last was offered, as long as they
    /// are not running.
    pub offered: Option<T>,
    /// Whether a provider has failed.
    pub provider_failure: bool,
    /// The id under which the turn was announced.
    pub turn_id: Option<String>,
}

pub struct DriverView<T> {
    pub run: RunView,
    pub offered: Option<T>,
    pub provider_failure: bool,
    pub turn_id: Option<Seq<char>>,
}

impl<T> DeepView for AgentDriver<T> {
    type V = DriverView<T>;

    open spec fn deep_view(&self) -> DriverView<T> {
        DriverView {
            run: self.run.deep_view(),
            offered: self.offered,
            provider_failure: self.provider_failure,
            turn_id: self.turn_id.deep_view(),
        }
    }
}

/// The error of a run that asks for tools before a turn was offered any.
pub open spec fn nothing_offered() -> StreamingErrorView {
    StreamingErrorView::Completion(
        CompletionErrorView::ResponseError(
            "agent requested tool execution without a prepared registry snapshot"@,
        ),
    )
}

/// The error with which the stream of a failed run ends. Where a provider has failed, its
/// error comes out as it went in.
pub open spec fn exit(error: PromptErrorView, provider_failure: bool) -> StreamingErrorView {
    match error {
        PromptErrorView::CompletionError(completion) => if provider_failure {
            StreamingErrorView::Completion(completion)
        } else {
            StreamingErrorView::Prompt(error)
        },
        other => StreamingErrorView::Prompt(other),
    }
}

/// The outcome of feeding the run, by view.
pub open spec fn fed(result: Result<(), StreamingError>) -> Result<(), StreamingErrorView> {
    match result {
        Ok(_) => Ok(()),
        Err(error) => Err(error.deep_view()),
    }
}

/// An error of the run's own, as the stream has it.
pub open spec fn as_streamed(result: Result<(), PromptErrorView>) -> Result<(), StreamingErrorView> {
    match result {
        Ok(_) => Ok(()),
        Err(error) => Err(StreamingErrorView::Prompt(error)),
    }
}

impl<T> DriverView<T> {
    /// What is to be done next.
    pub open spec fn step(self) -> DriveStepView<T> {
        match self.run.step() {
            Err(error) => DriveStepView::Failed(StreamingErrorView::Prompt(error)),
            Ok(AgentRunStepView::CallModel { history, turn }) => DriveStepView::CallModel {
                history,
                turn,
            },
            Ok(AgentRunStepView::CallTools { calls }) => match self.offered {
                Some(tools) => DriveStepView::CallTools { calls, tools },
                None => DriveStepView::Failed(nothing_offered()),
            },
            Ok(AgentRunStepView::DrainSteers) => DriveStepView::DrainSteers,
            Ok(AgentRunStepView::Done(response)) => DriveStepView::Done(response),
        }
    }

    /// The loop once it has been asked.
    pub open spec fn after_step(self) -> Self {
        DriverView {
            run: self.run.after_step(),
            offered: match self.run.step() {
                Ok(AgentRunStepView::CallModel { .. }) => None,
                Ok(AgentRunStepView::CallTools { .. }) => None,
                _ => self.offered,
            },
            turn_id: match self.run.step() {
                Ok(AgentRunStepView::CallModel { .. }) => None,
                _ => self.turn_id,
            },
            ..self
        }
    }

    /// The turn under the id under which it was announced. No id of a provider's enters
    /// the history.
    pub open spec fn announced(self, turn: ModelTurnView) -> ModelTurnView {
        ModelTurnView { message_id: self.turn_id, ..turn }
    }

    /// The loop once a turn is complete.
    pub open spec fn after_turn(self, turn: ModelTurnView, tools: T) -> Self {
        DriverView {
            run: self.run.after_commit(self.announced(turn)),
            offered: if self.run.commit_outcome() is Ok {
                Some(tools)
            } else {
                self.offered
            },
            ..self
        }
    }

    /// What comes of a complete turn: the item that announces its commit.
    pub open spec fn turn_outcome(self, turn: ModelTurnView) -> Result<
        Option<MultiTurnStreamItemView>,
        StreamingErrorView,
    > {
        match self.run.commit_outcome() {
            Err(error) => Err(StreamingErrorView::Prompt(error)),
            Ok(_) => Ok(
                match self.turn_id {
                    Some(id) => Some(
                        MultiTurnStreamItemView::TurnCommitted { id, content: turn.choice },
                    ),
                    None => None,
                },
            ),
        }
    }

    /// The loop once a turn, or the tools of a turn, have failed.
    pub open spec fn after_failure(self, error: StreamingErrorView) -> Self {
        DriverView {
            run: run_after_failure(self.run, turn_failure(error), error.as_prompt_error()),
            provider_failure: self.provider_failure || (turn_failure(error) is Provider
                && failure_outcome(self.run, turn_failure(error)) is Ok),
            ..self
        }
    }

    /// The loop once a request could not be put together.
    pub open spec fn after_unprepared(self, error: CompletionErrorView) -> Self {
        DriverView {
            run: self.run.after_provider_error(
                ProviderErrorClass::Terminal,
                PromptErrorView::CompletionError(error),
            ),
            provider_failure: self.provider_failure || self.run.provider_outcome() is Ok,
            ..self
        }
    }

    /// The loop once messages were handed over.
    pub open spec fn after_drain(self, drained: Seq<(Seq<char>, MessageView)>) -> Self {
        DriverView { run: self.run.after_steers(drained_messages(drained)), ..self }
    }

    /// What handing over messages comes to.
    pub open spec fn drain_outcome(self, drained: Seq<(Seq<char>, MessageView)>) -> Result<
        (),
        StreamingErrorView,
    > {
        match self.run.steer_outcome(drained_messages(drained)) {
            Ok(_) => Ok(()),
            Err(error) => Err(exit(error, self.provider_failure)),
        }
    }
}

/// Whether the loop goes through the drain with the given messages: it is none where nothing
/// can be queued, where the run is to be stopped and where a final turn waits.
pub open spec fn drains<T>(
    before: DriverView<T>,
    can_steer: bool,
    drained: Seq<(Seq<char>, MessageView)>,
    after: DriverView<T>,
    items: Seq<MultiTurnStreamItemView>,
    decided: Result<(), StreamingErrorView>,
) -> bool {
    &&& !can_steer || before.run.terminating is Some || before.run.finishing() ==> drained.len()
        == 0
    &&& after == before.after_drain(drained)
    &&& items == steer_items(drained)
    &&& decided == before.drain_outcome(drained)
}

/// An error of the run's own, as the stream has it.
fn into_streamed(result: Result<(), PromptError>) -> (streamed: Result<(), StreamingError>)
    ensures
        fed(streamed) == as_streamed(outcome(result)),
{
    match result {
        Ok(()) => Ok(()),
        Err(error) => Err(StreamingError::Prompt(Box::new(error))),
    }
}

impl<T> AgentDriver<T> {
    /// What holds between two calls.
    pub open spec fn wf(&self) -> bool {
        self.run.wf()
    }

    /// Starts to drive a run.
    pub fn new(run: AgentRun) -> (driver: Self)
        requires
            run.wf(),
        ensures
            driver.wf(),
            driver.deep_view() == (DriverView::<T> {
                run: run.deep_view(),
                offered: None,
                provider_failure: false,
                turn_id: None,
            }),
    {
        AgentDriver { run, offered: None, provider_failure: false, turn_id: None }
    }

    /// Asks what to do next.
    pub fn next_step(&mut self) -> (step: DriveStep<T>)
        requires
            old(self).wf(),
        ensures
            final(self).wf(),
            final(self).deep_view() == old(self).deep_view().after_step(),
            step.deep_view() == old(self).deep_view().step(),
    {
        match self.run.next_step() {
            Err(error) => DriveStep::Failed(StreamingError::Prompt(Box::new(error))),
            Ok(AgentRunStep::CallModel { history, turn }) => {
                self.offered = None;
                self.turn_id = None;
                DriveStep::CallModel { history, turn }
            },
            Ok(AgentRunStep::CallTools { calls }) => {
                let mut offered: Option<T> = None;
                std::mem::swap(&mut offered, &mut self.offered);
                match offered {
                    Some(tools) => DriveStep::CallTools { calls, tools },
                    None => DriveStep::Failed(
                        StreamingError::Completion(
                            CompletionError::ResponseError(
                                "agent requested tool execution without a prepared registry snapshot".to_owned(),
                            ),
                        ),
                    ),
                }
            },
            Ok(AgentRunStep::DrainSteers) => DriveStep::DrainSteers,
            Ok(AgentRunStep::Done(response)) => DriveStep::Done(response),
        }
    }

    /// The request for the turn could not be put together. That is not tried again.
    pub fn preparation_failed(&mut self, error: CompletionError) -> (result: Result<
        (),
        StreamingError,
    >)
        requires
            old(self).wf(),
        ensures
            final(self).wf(),
            final(self).deep_view() == old(self).deep_view().after_unprepared(error.deep_view()),
            fed(result) == as_streamed(old(self).deep_view().run.provider_outcome()),
    {
        let result = self.run.provider_error(
            ProviderErrorClass::Terminal,
            PromptError::CompletionError(error),
        );
        if result.is_ok() {
            self.provider_failure = true;
        }
        into_streamed(result)
    }

    /// The stream of the turn has failed. Gives out the item that announces another try.
    pub fn turn_failed(&mut self, error: StreamingError, turn: usize) -> (result: (
        Option<MultiTurnStreamItem>,
        Result<(), StreamingError>,
    ))
        requires
            old(self).wf(),
        ensures
            final(self).wf(),
            final(self).deep_view() == old(self).deep_view().after_failure(error.deep_view()),
            result.0.deep_view() == (if turn_failure(error.deep_view()) is Defect {
                Some(MultiTurnStreamItemView::ModelTurnRetried { turn: turn as nat })
            } else {
                None
            }),
            fed(result.1) == as_streamed(
                failure_outcome(old(self).deep_view().run, turn_failure(error.deep_view())),
            ),
    {
        let failure = classify_turn_failure(&error);
        let item = retry_item(&failure, turn);
        let provider = matches!(failure, TurnFailure::Provider(_));
        let result = feed_classified_failure(&mut self.run, failure, error);
        if provider && result.is_ok() {
            self.provider_failure = true;
        }
        (item, into_streamed(result))
    }

    /// The model is about to be called. Gives out the item that announces the turn, which
    /// comes in front of everything of the turn.
    pub fn turn_announced(&mut self, id: String) -> (item: MultiTurnStreamItem)
        requires
            old(self).wf(),
        ensures
            final(self).wf(),
            final(self).deep_view() == (DriverView {
                turn_id: Some(id@),
                ..old(self).deep_view()
            }),
            item.deep_view() == (MultiTurnStreamItemView::TurnStarted { id: id@ }),
    {
        self.turn_id = Some(id.clone());
        MultiTurnStreamItem::TurnStarted { id }
    }

    /// The turn is complete: it goes into the history, under the id under which it was
    /// announced. `tools` are those that it was offered. Gives out the item that
    /// announces the commit.
    pub fn turn_completed(&mut self, turn: ModelTurn, tools: T) -> (result: Result<
        Option<MultiTurnStreamItem>,
        StreamingError,
    >)
        requires
            old(self).wf(),
            old(self).deep_view().run.unrecorded() ==> addable(
                old(self).deep_view().run.ledger.usage,
                turn.usage,
            ),
        ensures
            final(self).wf(),
            final(self).deep_view() == old(self).deep_view().after_turn(turn.deep_view(), tools),
            match old(self).deep_view().turn_outcome(turn.deep_view()) {
                Ok(item) => result matches Ok(given) && given.deep_view() == item,
                Err(error) => result matches Err(given) && given.deep_view() == error,
            },
    {
        let content = turn.choice.clone();
        assert(content.deep_view() =~= turn.choice.deep_view());
        let mut turn = turn;
        turn.message_id = self.turn_id.clone();
        match self.run.turn_committed(turn) {
            Ok(()) => {
                self.offered = Some(tools);
                match &self.turn_id {
                    Some(id) => Ok(
                        Some(
                            MultiTurnStreamItem::TurnCommitted {
                                id: id.clone(),
                                content: Box::new(content),
                            },
                        ),
                    ),
                    None => Ok(None),
                }
            },
            Err(error) => Err(StreamingError::Prompt(Box::new(error))),
        }
    }

    /// The tools of the turn have run. Gives out what goes into the run's stream.
    pub fn tools_settled(&mut self, batch: ToolBatch, forward_items: bool) -> (result: Result<
        Vec<MultiTurnStreamItem>,
        StreamingError,
    >)
        requires
            old(self).wf(),
        ensures
            final(self).wf(),
            final(self).deep_view() == (DriverView {
                run: run_after_batch(old(self).deep_view().run, batch.deep_view()),
                ..old(self).deep_view()
            }),
            match batch_outcome(
                old(self).deep_view().run,
                batch.deep_view(),
                forward_items,
                old(self).deep_view().turn_id,
            ) {
                Ok(items) => result matches Ok(given) && deep(given@) == items,
                Err(error) => result matches Err(given) && given.deep_view() == error,
            },
    {
        let turn_id = self.turn_id.clone();
        commit_tool_batch(&mut self.run, batch, forward_items, turn_id)
    }

    /// The tools of the turn have failed as a whole.
    pub fn tools_failed(&mut self, error: StreamingError) -> (result: Result<(), StreamingError>)
        requires
            old(self).wf(),
        ensures
            final(self).wf(),
            final(self).deep_view() == old(self).deep_view().after_failure(error.deep_view()),
            fed(result) == as_streamed(
                failure_outcome(old(self).deep_view().run, turn_failure(error.deep_view())),
            ),
    {
        let (_, result) = self.turn_failed(error, 0);
        result
    }

    /// Hands the messages that were queued to the run. Gives out the item that announces
    /// them.
    pub fn steers_drained(&mut self, drained: Vec<(String, Message)>) -> (result: (
        Vec<MultiTurnStreamItem>,
        Result<(), StreamingError>,
    ))
        requires
            old(self).wf(),
        ensures
            final(self).wf(),
            final(self).deep_view() == old(self).deep_view().after_drain(deep(drained@)),
            deep(result.0@) == steer_items(deep(drained@)),
            fed(result.1) == old(self).deep_view().drain_outcome(deep(drained@)),
    {
        let (items, decided) = feed_steers(&mut self.run, drained);
        match decided {
            Ok(()) => (items, Ok(())),
            Err(error) => (items, Err(exit_error(error, self.provider_failure))),
        }
    }

    /// Takes the run through its drain. A run that is to be stopped takes no messages, and
    /// what is queued for it is thrown away; a final turn takes none either, and what is
    /// queued stays for the next run; every other run takes what the source gives out.
    pub fn drain_steering<S: SteeringSource>(&mut self, steering: Option<&S>) -> (result: (
        Vec<MultiTurnStreamItem>,
        Result<(), StreamingError>,
    ))
        requires
            old(self).wf(),
        ensures
            final(self).wf(),
            exists|drained: Vec<(String, Message)>|
                {
                    &&& #[trigger] drains(
                        old(self).deep_view(),
                        steering is Some,
                        deep(drained@),
                        final(self).deep_view(),
                        deep(result.0@),
                        fed(result.1),
                    )
                    &&& steering is Some && old(self).deep_view().run.terminating is None
                        && !old(self).deep_view().run.finishing() ==> call_ensures(
                        S::drain,
                        (steering->0,),
                        drained,
                    )
                },
            steering is Some && old(self).deep_view().run.terminating is Some ==> call_ensures(
                S::discard_pending,
                (steering->0,),
                (),
            ),
    {
        let drained: Vec<(String, Message)> = match steering {
            Some(source) => if self.run.is_terminating() {
                source.discard_pending();
                Vec::new()
            } else if self.run.is_finishing() {
                Vec::new()
            } else {
                source.drain()
            },
            None => Vec::new(),
        };
        let ghost taken = drained;
        let result = self.steers_drained(drained);
        assert(drains(
            old(self).deep_view(),
            steering is Some,
            deep(taken@),
            self.deep_view(),
            deep(result.0@),
            fed(result.1),
        ));
        result
    }
}

/// Tools run against what the model was offered: behind a turn with tool calls the loop asks
/// for exactly these calls, with the tools that the turn was offered.
pub proof fn law_tools_run_as_offered<T>(driver: DriverView<T>, turn: ModelTurnView, tools: T)
    requires
        driver.run.stage is Calling,
        turn.carries_tools(),
    ensures
        driver.after_turn(turn, tools).step() == (DriveStepView::CallTools {
            calls: admission(turn),
            tools,
        }),
        driver.after_turn(turn, tools).after_step().offered is None,
{
    assert(driver.announced(turn).carries_tools()) by {
        let i = choose|i: int| 0 <= i < turn.choice.len() && (#[trigger] turn.choice[i]) is ToolCall;
        assert(driver.announced(turn).choice[i] is ToolCall);
    }
    assert(admission(driver.announced(turn)) =~= admission(turn));
}

/// A turn has one id: the one under which it was announced is the one under which it
/// stands in the history, and the one that its commit is announced with.
pub proof fn law_a_turn_has_one_id<T>(
    driver: DriverView<T>,
    id: Seq<char>,
    turn: ModelTurnView,
    tools: T,
)
    requires
        driver.run.stage is Calling,
        driver.turn_id == Some(id),
    ensures
        driver.after_turn(turn, tools).run.history == driver.run.history.push(
            MessageView::Assistant { id: Some(id), content: turn.choice },
        ),
        driver.turn_outcome(turn) == Ok::<Option<MultiTurnStreamItemView>, StreamingErrorView>(
            Some(MultiTurnStreamItemView::TurnCommitted { id, content: turn.choice }),
        ),
{
}

/// A provider's error comes out as it went in: where a model call fails for good, and
/// nothing is queued, the stream ends with the very error.
pub proof fn law_provider_error_comes_out_unchanged<T>(
    driver: DriverView<T>,
    error: CompletionErrorView,
)
    requires
        driver.run.stage is Calling,
        driver.run.terminating is None,
        error !is MalformedToolCall,
        provider_class(error) == ProviderErrorClass::Terminal,
    ensures
        driver.after_failure(StreamingErrorView::Completion(error)).step()
            == DriveStepView::<T>::DrainSteers,
        driver.after_failure(StreamingErrorView::Completion(error)).after_step().drain_outcome(
            Seq::empty(),
        ) == Err::<(), StreamingErrorView>(StreamingErrorView::Completion(error)),
{
    assert(drained_messages(Seq::empty()) =~= Seq::empty());
}

/// A request that cannot be put together fails the run with the very error.
pub proof fn law_unprepared_request_fails_the_run<T>(
    driver: DriverView<T>,
    error: CompletionErrorView,
)
    requires
        driver.run.stage is Calling,
        driver.run.terminating is None,
    ensures
        driver.after_unprepared(error).drain_outcome(Seq::empty()) == Err::<
            (),
            StreamingErrorView,
        >(StreamingErrorView::Completion(error)),
{
    assert(drained_messages(Seq::empty()) =~= Seq::empty());
}

/// Whatever failed, the queue is offered before anything is decided: every failure that
/// the run takes leads to the drain.
pub proof fn law_every_failure_leads_to_the_drain<T>(
    driver: DriverView<T>,
    error: StreamingErrorView,
)
    requires
        driver.run.stage is Calling,
    ensures
        failure_outcome(driver.run, turn_failure(error)) is Ok,
        driver.after_failure(error).step() == DriveStepView::<T>::DrainSteers,
{
}

/// The response of a run whose stream has ended without an error.
pub fn last_response(response: Option<PromptResponse>) -> (result: Result<
    PromptResponse,
    PromptError,
>)
    ensures
        match response {
            Some(response) => result == Ok::<PromptResponse, PromptError>(response),
            None => result matches Err(error) && error.deep_view()
                == PromptErrorView::CompletionError(
                CompletionErrorView::ResponseError(
                    "internal invariant violated: the agent drive loop finished without yielding a final response"@,
                ),
            ),
        },
{
    match response {
        Some(response) => Ok(response),
        None => Err(
            PromptError::CompletionError(
                CompletionError::ResponseError(
                    "internal invariant violated: the agent drive loop finished without yielding a final response".to_owned(),
                ),
            ),
        ),
    }
}

} // verus!
