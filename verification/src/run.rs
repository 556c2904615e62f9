//! The turn machine of a run: what happens next, given what has happened.
//!
//! A run alternates between steps that it asks for (`next_step`) and outcomes that
//! it is told of. Every outcome leads to the drain, where queued user messages
//! join the history, and where it is decided whether the run goes on, is done, or
//! fails.

use vstd::prelude::*;
use crate::completion::{
    CompletionError, CompletionErrorView, FinishReason, FinishReasonView, PromptError,
    PromptErrorView,
};
use crate::conversation::{law_steered_messages_keep_their_order, Conversation};
use crate::deep::{deep, group_deep};
use crate::message::{
    user_message, AssistantContent, AssistantContentView, Message, MessageView, UserContent,
    UserContentView,
};
use crate::one_or_many::{lemma_never_empty, OneOrMany};
use crate::prompt_response::{
    assistant_text_from_choice, turn_text, CompletionCall, PromptResponse, PromptResponseView,
};
use crate::turn::{
    admission, admit_tool_calls, lemma_calls_in_is_empty, ModelTurn, ModelTurnView,
    PendingToolCall, PendingToolCallView, RunLedger, RunLedgerView,
};
use crate::usage::{addable, Usage};

verus! {

broadcast use {group_deep, lemma_never_empty};

/// How many failed turns in a row are retried, for each kind of failure that can
/// be retried, before the run fails.
pub const TURN_RETRY_CAP: usize = 1;

/// Whether a failure of the provider is worth another try.
#[derive(Debug, Clone, Copy, PartialEq, Eq, Structural)]
pub enum ProviderErrorClass {
    /// Rate limits and the like.
    Retryable,
    /// Everything else.
    Terminal,
}

/// What to do with a final turn that is not accepted.
#[derive(Debug, PartialEq, Eq)]
pub enum RetryRequest {
    /// Drop the turn and try again.
    Repeat,
    /// Keep the turn, tell the model what is wrong with it, and try again.
    Feedback(String),
}

pub enum RetryRequestView {
    Repeat,
    Feedback(Seq<char>),
}

impl DeepView for RetryRequest {
    type V = RetryRequestView;

    open spec fn deep_view(&self) -> RetryRequestView {
        match self {
            RetryRequest::Repeat => RetryRequestView::Repeat,
            RetryRequest::Feedback(text) => RetryRequestView::Feedback(text@),
        }
    }
}

/// What the run asks for.
#[derive(Debug, PartialEq, Eq)]
pub enum AgentRunStep {
    /// Call the model with the history.
    CallModel { history: Vec<Message>, turn: usize },
    /// Run the tool calls of the turn.
    CallTools { calls: Vec<PendingToolCall> },
    /// Hand over the queued user messages, none at all included.
    DrainSteers,
    /// The run is done.
    Done(Box<PromptResponse>),
}

pub enum AgentRunStepView {
    CallModel { history: Seq<MessageView>, turn: nat },
    CallTools { calls: Seq<PendingToolCallView> },
    DrainSteers,
    Done(PromptResponseView),
}

impl DeepView for AgentRunStep {
    type V = AgentRunStepView;

    open spec fn deep_view(&self) -> AgentRunStepView {
        match self {
            AgentRunStep::CallModel { history, turn } => AgentRunStepView::CallModel {
                history: deep(history@),
                turn: *turn as nat,
            },
            AgentRunStep::CallTools { calls } => AgentRunStepView::CallTools {
                calls: deep(calls@),
            },
            AgentRunStep::DrainSteers => AgentRunStepView::DrainSteers,
            AgentRunStep::Done(response) => AgentRunStepView::Done(response.deep_view()),
        }
    }
}

/// What the drain has to decide on.
#[derive(Debug)]
enum Pending {
    /// Nothing stands against going on.
    Continue,
    /// A turn without tool calls: the run is done unless a user message came in.
    Finish(OneOrMany<AssistantContent>),
    /// A turn with a tool call that cannot be read.
    Defect(String),
    /// The provider failed.
    Provider(ProviderErrorClass, PromptError),
}

pub enum PendingView {
    Continue,
    Finish(Seq<AssistantContentView>),
    Defect(Seq<char>),
    Provider(ProviderErrorClass, PromptErrorView),
}

impl DeepView for Pending {
    type V = PendingView;

    closed spec fn deep_view(&self) -> PendingView {
        match self {
            Pending::Continue => PendingView::Continue,
            Pending::Finish(content) => PendingView::Finish(content.deep_view()),
            Pending::Defect(reason) => PendingView::Defect(reason@),
            Pending::Provider(class, error) => PendingView::Provider(*class, error.deep_view()),
        }
    }
}

/// Where a run stands.
#[derive(Debug)]
enum Stage {
    /// The model is to be called.
    Ready,
    /// The model has been called.
    Calling,
    /// Tools are to be run.
    ToolsReady(Vec<PendingToolCall>),
    /// So many tools are running.
    ToolsRunning(usize),
    /// Queued user messages are to be handed over.
    Draining(Pending),
    /// The response is there.
    Finished(PromptResponse),
    /// Nothing is left to do.
    Over,
}

pub enum StageView {
    Ready,
    Calling,
    ToolsReady(Seq<PendingToolCallView>),
    ToolsRunning(nat),
    Draining(PendingView),
    Finished(PromptResponseView),
    Over,
}

impl DeepView for Stage {
    type V = StageView;

    closed spec fn deep_view(&self) -> StageView {
        match self {
            Stage::Ready => StageView::Ready,
            Stage::Calling => StageView::Calling,
            Stage::ToolsReady(calls) => StageView::ToolsReady(deep(calls@)),
            Stage::ToolsRunning(n) => StageView::ToolsRunning(*n as nat),
            Stage::Draining(pending) => StageView::Draining(pending.deep_view()),
            Stage::Finished(response) => StageView::Finished(response.deep_view()),
            Stage::Over => StageView::Over,
        }
    }
}

/// A run of an agent.
#[derive(Debug)]
pub struct AgentRun {
    conversation: Conversation,
    max_turns: usize,
    turn: usize,
    defects: usize,
    provider_failures: usize,
    terminating: Option<String>,
    call_recorded: bool,
    stage: Stage,
    ledger: RunLedger,
}

/// A run as far as its behaviour goes.
pub struct RunView {
    /// The messages so far.
    pub history: Seq<MessageView>,
    /// The budget of model calls.
    pub max_turns: nat,
    /// The model calls that count against the budget.
    pub turn: nat,
    /// Turns in a row with a tool call that cannot be read.
    pub defects: nat,
    /// Turns in a row at which the provider failed in a way worth another try.
    pub provider_failures: nat,
    /// Why the run is to be stopped, if it is.
    pub terminating: Option<Seq<char>>,
    /// Whether the ledger has the model call that is under way.
    pub call_recorded: bool,
    pub stage: StageView,
    pub ledger: RunLedgerView,
}

impl DeepView for AgentRun {
    type V = RunView;

    closed spec fn deep_view(&self) -> RunView {
        RunView {
            history: self.conversation.deep_view().messages,
            max_turns: self.max_turns as nat,
            turn: self.turn as nat,
            defects: self.defects as nat,
            provider_failures: self.provider_failures as nat,
            terminating: self.terminating.deep_view(),
            call_recorded: self.call_recorded,
            stage: self.stage.deep_view(),
            ledger: self.ledger.deep_view(),
        }
    }
}

/// What an error of this machine's own looks like.
pub open spec fn protocol_error(message: Seq<char>) -> PromptErrorView {
    PromptErrorView::CompletionError(CompletionErrorView::ResponseError(message))
}

/// The error of a run whose model keeps emitting tool calls that cannot be read.
pub open spec fn defect_error(reason: Seq<char>) -> PromptErrorView {
    protocol_error(
        "the model repeatedly emitted tool calls with malformed arguments ("@ + reason
            + "); resend the prompt to try again"@,
    )
}

/// The user message that holds a turn's tool results.
pub open spec fn tool_results_message(results: Seq<UserContentView>) -> MessageView {
    MessageView::User { content: results }
}

/// The outcome of a call, by view.
pub open spec fn outcome(result: Result<(), PromptError>) -> Result<(), PromptErrorView> {
    match result {
        Ok(_) => Ok(()),
        Err(error) => Err(error.deep_view()),
    }
}

/// The step that a call gives, by view.
pub open spec fn step_outcome(
    result: Result<AgentRunStep, PromptError>,
) -> Result<AgentRunStepView, PromptErrorView> {
    match result {
        Ok(step) => Ok(step.deep_view()),
        Err(error) => Err(error.deep_view()),
    }
}

impl RunView {
    /// A run on its way: what holds of every run between two calls.
    pub open spec fn valid(self) -> bool {
        &&& self.history.len() >= 1
        &&& self.turn < usize::MAX || !(self.stage is Ready)
        &&& self.defects <= TURN_RETRY_CAP + 1
        &&& self.provider_failures <= TURN_RETRY_CAP + 1
        &&& self.defects <= TURN_RETRY_CAP || self.stage is Over || self.draining_defect()
        &&& self.provider_failures <= TURN_RETRY_CAP || self.stage is Over
            || self.draining_failure()
        &&& self.stage is Calling ==> self.turn >= 1
        &&& self.stage matches StageView::ToolsReady(calls) ==> calls.len() >= 1
        &&& self.stage matches StageView::ToolsRunning(n) ==> n >= 1
        &&& self.stage matches StageView::Draining(PendingView::Finish(_)) ==> {
            &&& self.history.len() >= 2
            &&& self.history.last() is Assistant
        }
    }

    /// Whether a turn that cannot be read is to be decided on.
    pub open spec fn draining_defect(self) -> bool {
        self.stage matches StageView::Draining(PendingView::Defect(_))
    }

    /// Whether a failure of the provider is to be decided on.
    pub open spec fn draining_failure(self) -> bool {
        self.stage matches StageView::Draining(PendingView::Provider(_, _))
    }

    /// The run at its start.
    pub open spec fn start(history: Seq<MessageView>) -> Self {
        RunView {
            history,
            max_turns: 1,
            turn: 0,
            defects: 0,
            provider_failures: 0,
            terminating: None,
            call_recorded: false,
            stage: StageView::Ready,
            ledger: RunLedgerView::empty(),
        }
    }

    /// What the run asks for.
    pub open spec fn step(self) -> Result<AgentRunStepView, PromptErrorView> {
        match self.stage {
            StageView::Ready => Ok(
                AgentRunStepView::CallModel { history: self.history, turn: self.turn + 1 },
            ),
            StageView::Calling => Err(protocol_error("the model call is not settled yet"@)),
            StageView::ToolsReady(calls) => Ok(AgentRunStepView::CallTools { calls }),
            StageView::ToolsRunning(_) => Err(protocol_error("the tool calls are not settled yet"@)),
            StageView::Draining(_) => Ok(AgentRunStepView::DrainSteers),
            StageView::Finished(response) => Ok(AgentRunStepView::Done(response)),
            StageView::Over => Err(protocol_error("the run is over"@)),
        }
    }

    /// The run once it has asked.
    pub open spec fn after_step(self) -> Self {
        match self.stage {
            StageView::Ready => RunView {
                turn: self.turn + 1,
                call_recorded: false,
                stage: StageView::Calling,
                ..self
            },
            StageView::ToolsReady(calls) => RunView {
                stage: StageView::ToolsRunning(calls.len()),
                ..self
            },
            StageView::Finished(_) => RunView { stage: StageView::Over, ..self },
            _ => self,
        }
    }

    /// The run once the ledger has the model call under way.
    pub open spec fn recording(
        self,
        usage: Usage,
        finish_reason: Option<FinishReasonView>,
    ) -> Self {
        RunView {
            call_recorded: true,
            ledger: self.ledger.recording(usage, finish_reason),
            ..self
        }
    }

    /// Whether the model call under way is still to be entered in the ledger.
    pub open spec fn unrecorded(self) -> bool {
        self.stage is Calling && !self.call_recorded
    }

    /// The run once a model turn is committed: its message is in the history, its
    /// call in the ledger, and all failures are forgotten. Its tools are to be run
    /// next; without any, the run is done unless the drain says otherwise.
    pub open spec fn after_commit(self, turn: ModelTurnView) -> Self {
        if self.stage is Calling {
            RunView {
                history: self.history.push(turn.message()),
                defects: 0,
                provider_failures: 0,
                call_recorded: true,
                stage: if turn.carries_tools() {
                    StageView::ToolsReady(admission(turn))
                } else {
                    StageView::Draining(PendingView::Finish(turn.choice))
                },
                ledger: if self.call_recorded {
                    self.ledger
                } else {
                    self.ledger.recording(turn.usage, turn.finish_reason)
                },
                ..self
            }
        } else {
            self
        }
    }

    /// Whether a turn can be committed now.
    pub open spec fn commit_outcome(self) -> Result<(), PromptErrorView> {
        if self.stage is Calling {
            Ok(())
        } else {
            Err(protocol_error("a model turn was committed outside a model call"@))
        }
    }

    /// Whether so many tool results are what the run waits for.
    pub open spec fn results_outcome(self, n: nat) -> Result<(), PromptErrorView> {
        if self.stage == StageView::ToolsRunning(n) {
            Ok(())
        } else {
            Err(protocol_error("tool results were fed that no tool phase waits for"@))
        }
    }

    /// The run once its tools have answered: their results are in the history as
    /// one user message.
    pub open spec fn after_results(self, results: Seq<UserContentView>) -> Self {
        if self.results_outcome(results.len()) is Ok {
            RunView {
                history: self.history.push(tool_results_message(results)),
                stage: StageView::Draining(PendingView::Continue),
                ..self
            }
        } else {
            self
        }
    }

    /// The run once a turn is discarded for a tool call that cannot be read. The
    /// turn does not count against the budget, and nothing of it stays.
    pub open spec fn after_broken(self, reason: Seq<char>) -> Self {
        if self.stage is Calling {
            RunView {
                turn: (self.turn - 1) as nat,
                defects: self.defects + 1,
                stage: StageView::Draining(PendingView::Defect(reason)),
                ..self
            }
        } else {
            self
        }
    }

    /// Whether a turn can be discarded now.
    pub open spec fn broken_outcome(self) -> Result<(), PromptErrorView> {
        if self.stage is Calling {
            Ok(())
        } else {
            Err(protocol_error("a broken turn was reported outside a model call"@))
        }
    }

    /// The run once the provider has failed. A failed model call does not count
    /// against the budget; a failure behind a committed turn is never tried again.
    pub open spec fn after_provider_error(
        self,
        class: ProviderErrorClass,
        error: PromptErrorView,
    ) -> Self {
        match self.stage {
            StageView::Calling => RunView {
                turn: (self.turn - 1) as nat,
                provider_failures: if class == ProviderErrorClass::Retryable {
                    self.provider_failures + 1
                } else {
                    self.provider_failures
                },
                stage: StageView::Draining(PendingView::Provider(class, error)),
                ..self
            },
            StageView::ToolsRunning(_) => RunView {
                stage: StageView::Draining(
                    PendingView::Provider(ProviderErrorClass::Terminal, error),
                ),
                ..self
            },
            _ => self,
        }
    }

    /// Whether the provider can fail now.
    pub open spec fn provider_outcome(self) -> Result<(), PromptErrorView> {
        if self.stage is Calling || self.stage is ToolsRunning {
            Ok(())
        } else {
            Err(protocol_error("a provider failure was reported outside a call"@))
        }
    }

    /// The run once it is to be stopped: it goes to the drain and fails there. The
    /// first reason stands.
    pub open spec fn after_terminate(self, reason: Seq<char>) -> Self {
        if self.terminate_outcome() is Ok {
            RunView {
                terminating: match self.terminating {
                    Some(first) => Some(first),
                    None => Some(reason),
                },
                stage: if self.stage is Draining {
                    self.stage
                } else {
                    StageView::Draining(PendingView::Continue)
                },
                ..self
            }
        } else {
            self
        }
    }

    /// Whether the run can be stopped now.
    pub open spec fn terminate_outcome(self) -> Result<(), PromptErrorView> {
        if self.stage is Finished || self.stage is Over {
            Err(protocol_error("a stop was fed to a run that is over"@))
        } else {
            Ok(())
        }
    }

    /// Whether a final turn waits at the drain.
    pub open spec fn finishing(self) -> bool {
        self.stage matches StageView::Draining(PendingView::Finish(_))
    }

    /// The run once its final turn is not accepted.
    pub open spec fn after_rejection(self, request: RetryRequestView) -> Self {
        if self.finishing() {
            RunView {
                history: match request {
                    RetryRequestView::Repeat => self.history.drop_last(),
                    RetryRequestView::Feedback(text) => self.history.push(user_message(text)),
                },
                stage: StageView::Draining(PendingView::Continue),
                ..self
            }
        } else {
            self
        }
    }

    /// Whether a final turn can be rejected now.
    pub open spec fn rejection_outcome(self) -> Result<(), PromptErrorView> {
        if self.finishing() {
            Ok(())
        } else {
            Err(protocol_error("a final turn was rejected where there is none"@))
        }
    }

    /// The run with the queued user messages in its history. A user who steers
    /// clears all failures.
    pub open spec fn steered(self, messages: Seq<MessageView>) -> Self {
        if messages.len() == 0 {
            self
        } else {
            RunView {
                history: self.history + messages,
                defects: 0,
                provider_failures: 0,
                ..self
            }
        }
    }

    /// The response of a run that ends with the given turn.
    pub open spec fn response(self, content: Seq<AssistantContentView>) -> PromptResponseView {
        PromptResponseView {
            output: turn_text(content),
            usage: self.ledger.usage,
            completion_calls: self.ledger.calls,
            content,
        }
    }

    /// Whether going on is all that is left: nothing ends or fails the run but
    /// its budget.
    pub open spec fn goes_on(self, pending: PendingView, steered: bool) -> bool {
        match pending {
            PendingView::Continue => true,
            PendingView::Finish(_) => steered,
            PendingView::Defect(_) => self.defects <= TURN_RETRY_CAP,
            PendingView::Provider(class, _) => class == ProviderErrorClass::Retryable
                && self.provider_failures <= TURN_RETRY_CAP,
        }
    }

    /// What the drain decides, given the run with the queued messages in place.
    pub open spec fn decision(
        self,
        pending: PendingView,
        steered: bool,
    ) -> Result<StageView, PromptErrorView> {
        match self.terminating {
            Some(reason) => Err(
                PromptErrorView::PromptCancelled { chat_history: self.history, reason },
            ),
            None => if !self.goes_on(pending, steered) {
                match pending {
                    PendingView::Continue => Ok(StageView::Ready),
                    PendingView::Finish(content) => Ok(
                        StageView::Finished(self.response(content)),
                    ),
                    PendingView::Defect(reason) => Err(defect_error(reason)),
                    PendingView::Provider(_, error) => Err(error),
                }
            } else if self.turn < self.max_turns {
                Ok(StageView::Ready)
            } else {
                Err(
                    PromptErrorView::MaxTurnsError {
                        max_turns: self.max_turns,
                        chat_history: self.history,
                        prompt: self.history.last(),
                    },
                )
            },
        }
    }

    /// What handing over the queued messages gives.
    pub open spec fn steer_outcome(self, messages: Seq<MessageView>) -> Result<(), PromptErrorView> {
        match self.stage {
            StageView::Draining(pending) => match self.steered(messages).decision(
                pending,
                messages.len() > 0,
            ) {
                Ok(_) => Ok(()),
                Err(error) => Err(error),
            },
            _ => Err(protocol_error("steering messages were fed outside the drain point"@)),
        }
    }

    /// The run once the queued messages are handed over.
    pub open spec fn after_steers(self, messages: Seq<MessageView>) -> Self {
        match self.stage {
            StageView::Draining(pending) => {
                let steered = self.steered(messages);
                RunView {
                    stage: match steered.decision(pending, messages.len() > 0) {
                        Ok(stage) => stage,
                        Err(_) => StageView::Over,
                    },
                    ..steered
                }
            },
            _ => self,
        }
    }
}

/// An error of this machine's own.
fn violation(message: &str) -> (error: PromptError)
    ensures
        error.deep_view() == protocol_error(message@),
{
    PromptError::CompletionError(CompletionError::ResponseError(message.to_owned()))
}

impl AgentRun {
    /// What holds of a run between two calls.
    pub closed spec fn wf(&self) -> bool {
        &&& self.deep_view().valid()
        &&& self.conversation.deep_view().pending.len() == 0
    }

    /// Starts a run on a history whose last message is the one to answer. The
    /// budget is one model call.
    pub fn new(history: Vec<Message>) -> (run: Self)
        requires
            history@.len() > 0,
        ensures
            run.wf(),
            run.deep_view() == RunView::start(deep(history@)),
    {
        AgentRun {
            conversation: Conversation::from_messages(history),
            max_turns: 1,
            turn: 0,
            defects: 0,
            provider_failures: 0,
            terminating: None,
            call_recorded: false,
            stage: Stage::Ready,
            ledger: RunLedger::new(),
        }
    }

    /// Sets the budget of model calls. The first call is made whatever the budget.
    pub fn max_turns(self, max_turns: usize) -> (run: Self)
        requires
            self.wf(),
        ensures
            run.wf(),
            run.deep_view() == (RunView { max_turns: max_turns as nat, ..self.deep_view() }),
    {
        let mut run = self;
        run.max_turns = max_turns;
        run
    }

    /// The messages so far.
    pub fn messages(&self) -> (messages: &[Message])
        ensures
            deep(messages@) == self.deep_view().history,
    {
        self.conversation.committed()
    }

    /// What the provider calls used in all.
    pub fn usage(&self) -> (usage: Usage)
        ensures
            usage == self.deep_view().ledger.usage,
    {
        self.ledger.usage()
    }

    /// The provider calls so far.
    pub fn completion_calls(&self) -> (calls: &Vec<CompletionCall>)
        ensures
            deep(calls@) == self.deep_view().ledger.calls,
    {
        self.ledger.calls()
    }

    /// The model calls that count against the budget.
    pub fn turn(&self) -> (turn: usize)
        ensures
            turn == self.deep_view().turn,
    {
        self.turn
    }

    /// Whether a final turn waits at the drain.
    pub fn is_finishing(&self) -> (finishing: bool)
        ensures
            finishing == self.deep_view().finishing(),
    {
        matches!(self.stage, Stage::Draining(Pending::Finish(_)))
    }

    /// Whether the run is to be stopped.
    pub fn is_terminating(&self) -> (terminating: bool)
        ensures
            terminating == (self.deep_view().terminating is Some),
    {
        self.terminating.is_some()
    }

    /// A copy of the messages so far.
    fn history(&self) -> (history: Vec<Message>)
        requires
            self.conversation.deep_view().pending.len() == 0,
        ensures
            deep(history@) == self.deep_view().history,
    {
        let messages = self.conversation.committed();
        let mut history: Vec<Message> = Vec::new();
        let mut i: usize = 0;
        while i < messages.len()
            invariant
                i <= messages@.len(),
                history@.len() == i,
                forall|k: int|
                    0 <= k < i ==> (#[trigger] history@[k]).deep_view() == messages@[k].deep_view(),
            decreases messages@.len() - i,
        {
            history.push(messages[i].clone());
            i = i + 1;
        }
        assert(deep(history@) =~= deep(messages@));
        history
    }

    /// Asks what to do next.
    pub fn next_step(&mut self) -> (step: Result<AgentRunStep, PromptError>)
        requires
            old(self).wf(),
        ensures
            final(self).wf(),
            final(self).deep_view() == old(self).deep_view().after_step(),
            step_outcome(step) == old(self).deep_view().step(),
    {
        let mut stage = Stage::Over;
        std::mem::swap(&mut stage, &mut self.stage);
        match stage {
            Stage::Ready => {
                let history = self.history();
                self.turn = self.turn + 1;
                self.call_recorded = false;
                self.stage = Stage::Calling;
                Ok(AgentRunStep::CallModel { history, turn: self.turn })
            },
            Stage::Calling => {
                self.stage = Stage::Calling;
                Err(violation("the model call is not settled yet"))
            },
            Stage::ToolsReady(calls) => {
                self.stage = Stage::ToolsRunning(calls.len());
                Ok(AgentRunStep::CallTools { calls })
            },
            Stage::ToolsRunning(n) => {
                self.stage = Stage::ToolsRunning(n);
                Err(violation("the tool calls are not settled yet"))
            },
            Stage::Draining(pending) => {
                self.stage = Stage::Draining(pending);
                Ok(AgentRunStep::DrainSteers)
            },
            Stage::Finished(response) => Ok(AgentRunStep::Done(Box::new(response))),
            Stage::Over => Err(violation("the run is over")),
        }
    }

    /// Enters the model call under way in the ledger, before its turn is complete.
    /// `None` where no call is under way or it has been entered already.
    pub fn record_completion_call(
        &mut self,
        usage: Usage,
        finish_reason: Option<FinishReason>,
    ) -> (call: Option<CompletionCall>)
        requires
            old(self).wf(),
            addable(old(self).deep_view().ledger.usage, usage),
        ensures
            final(self).wf(),
            final(self).deep_view() == (if old(self).deep_view().unrecorded() {
                old(self).deep_view().recording(usage, finish_reason.deep_view())
            } else {
                old(self).deep_view()
            }),
            call.deep_view() == (if old(self).deep_view().unrecorded() {
                Some(
                    old(self).deep_view().ledger.next_entry(usage, finish_reason.deep_view()),
                )
            } else {
                None
            }),
    {
        if matches!(self.stage, Stage::Calling) && !self.call_recorded {
            self.call_recorded = true;
            Some(self.ledger.record(usage, finish_reason))
        } else {
            None
        }
    }

    /// Commits the turn of the model call under way.
    pub fn turn_committed(&mut self, turn: ModelTurn) -> (result: Result<(), PromptError>)
        requires
            old(self).wf(),
            old(self).deep_view().unrecorded() ==> addable(
                old(self).deep_view().ledger.usage,
                turn.usage,
            ),
        ensures
            final(self).wf(),
            final(self).deep_view() == old(self).deep_view().after_commit(turn.deep_view()),
            outcome(result) == old(self).deep_view().commit_outcome(),
    {
        if !matches!(self.stage, Stage::Calling) {
            return Err(violation("a model turn was committed outside a model call"));
        }
        if !self.call_recorded {
            let _ = self.ledger.record(turn.usage, turn.finish_reason.clone());
            self.call_recorded = true;
        }
        self.defects = 0;
        self.provider_failures = 0;
        let calls = admit_tool_calls(&turn);
        proof {
            lemma_calls_in_is_empty(turn.choice.deep_view());
            assert(turn.deep_view().carries_tools() == (deep(calls@).len() > 0));
        }
        if calls.len() > 0 {
            self.conversation.assistant(
                Message::Assistant { id: turn.message_id, content: turn.choice },
            );
            self.stage = Stage::ToolsReady(calls);
        } else {
            let content = turn.choice.clone();
            assert(content.deep_view() =~= turn.choice.deep_view());
            self.conversation.assistant(
                Message::Assistant { id: turn.message_id, content: turn.choice },
            );
            self.stage = Stage::Draining(Pending::Finish(content));
        }
        Ok(())
    }

    /// Feeds the results of the tool calls that the run asked for, in call order.
    pub fn tool_results(&mut self, results: Vec<UserContent>) -> (result: Result<(), PromptError>)
        requires
            old(self).wf(),
        ensures
            final(self).wf(),
            final(self).deep_view() == old(self).deep_view().after_results(deep(results@)),
            outcome(result) == old(self).deep_view().results_outcome(results@.len()),
    {
        let running: usize = match &self.stage {
            Stage::ToolsRunning(n) => *n,
            _ => 0,
        };
        if running == 0 || running != results.len() {
            return Err(violation("tool results were fed that no tool phase waits for"));
        }
        if let Some(content) = OneOrMany::from_vec(results) {
            self.conversation.user(Message::User { content });
        }
        self.stage = Stage::Draining(Pending::Continue);
        Ok(())
    }

    /// Discards the turn of the model call under way: a tool call in it cannot be
    /// read.
    pub fn broken(&mut self, reason: String) -> (result: Result<(), PromptError>)
        requires
            old(self).wf(),
        ensures
            final(self).wf(),
            final(self).deep_view() == old(self).deep_view().after_broken(reason@),
            outcome(result) == old(self).deep_view().broken_outcome(),
    {
        if !matches!(self.stage, Stage::Calling) {
            return Err(violation("a broken turn was reported outside a model call"));
        }
        self.turn = self.turn - 1;
        self.defects = self.defects + 1;
        self.stage = Stage::Draining(Pending::Defect(reason));
        Ok(())
    }

    /// Reports that the provider failed.
    pub fn provider_error(
        &mut self,
        class: ProviderErrorClass,
        error: PromptError,
    ) -> (result: Result<(), PromptError>)
        requires
            old(self).wf(),
        ensures
            final(self).wf(),
            final(self).deep_view() == old(self).deep_view().after_provider_error(
                class,
                error.deep_view(),
            ),
            outcome(result) == old(self).deep_view().provider_outcome(),
    {
        match &self.stage {
            Stage::Calling => {
                self.turn = self.turn - 1;
                if matches!(class, ProviderErrorClass::Retryable) {
                    self.provider_failures = self.provider_failures + 1;
                }
                self.stage = Stage::Draining(Pending::Provider(class, error));
                Ok(())
            },
            Stage::ToolsRunning(_) => {
                self.stage = Stage::Draining(
                    Pending::Provider(ProviderErrorClass::Terminal, error),
                );
                Ok(())
            },
            _ => Err(violation("a provider failure was reported outside a call")),
        }
    }

    /// Has the run stopped at the next drain.
    pub fn terminate(&mut self, reason: &str) -> (result: Result<(), PromptError>)
        requires
            old(self).wf(),
        ensures
            final(self).wf(),
            final(self).deep_view() == old(self).deep_view().after_terminate(reason@),
            outcome(result) == old(self).deep_view().terminate_outcome(),
    {
        match &self.stage {
            Stage::Finished(_) | Stage::Over => {
                return Err(violation("a stop was fed to a run that is over"));
            },
            Stage::Draining(_) => {},
            _ => {
                self.stage = Stage::Draining(Pending::Continue);
            },
        }
        if self.terminating.is_none() {
            self.terminating = Some(reason.to_owned());
        }
        Ok(())
    }

    /// Does not accept the final turn that waits at the drain.
    pub fn reject_final_turn(&mut self, request: RetryRequest) -> (result: Result<(), PromptError>)
        requires
            old(self).wf(),
        ensures
            final(self).wf(),
            final(self).deep_view() == old(self).deep_view().after_rejection(request.deep_view()),
            outcome(result) == old(self).deep_view().rejection_outcome(),
    {
        if !self.is_finishing() {
            return Err(violation("a final turn was rejected where there is none"));
        }
        match request {
            RetryRequest::Repeat => {
                self.conversation.pop_last_assistant();
            },
            RetryRequest::Feedback(text) => {
                self.conversation.user(Message::user(text.as_str()));
            },
        }
        self.stage = Stage::Draining(Pending::Continue);
        Ok(())
    }

    /// Hands over the queued user messages at the drain, none at all included, and
    /// decides how the run goes on.
    pub fn steered(&mut self, messages: Vec<Message>) -> (result: Result<(), PromptError>)
        requires
            old(self).wf(),
        ensures
            final(self).wf(),
            final(self).deep_view() == old(self).deep_view().after_steers(deep(messages@)),
            outcome(result) == old(self).deep_view().steer_outcome(deep(messages@)),
    {
        let mut stage = Stage::Over;
        std::mem::swap(&mut stage, &mut self.stage);
        let pending = match stage {
            Stage::Draining(pending) => pending,
            other => {
                self.stage = other;
                return Err(violation("steering messages were fed outside the drain point"));
            },
        };
        let steered = messages.len() > 0;
        if steered {
            proof {
                law_steered_messages_keep_their_order(
                    self.conversation.deep_view(),
                    deep(messages@),
                );
            }
            self.conversation.extend_users(messages);
            self.defects = 0;
            self.provider_failures = 0;
        }
        assert(RunView { stage: StageView::Over, ..self.deep_view() } == RunView {
            stage: StageView::Over,
            ..old(self).deep_view().steered(deep(messages@))
        });
        if let Some(reason) = &self.terminating {
            let reason = reason.clone();
            return Err(PromptError::PromptCancelled { chat_history: self.history(), reason });
        }
        let goes_on = match &pending {
            Pending::Continue => true,
            Pending::Finish(_) => steered,
            Pending::Defect(_) => self.defects <= TURN_RETRY_CAP,
            Pending::Provider(class, _) => matches!(class, ProviderErrorClass::Retryable)
                && self.provider_failures <= TURN_RETRY_CAP,
        };
        if goes_on {
            if self.turn < self.max_turns {
                self.stage = Stage::Ready;
                return Ok(());
            }
            let chat_history = self.history();
            let prompt = chat_history[chat_history.len() - 1].clone();
            return Err(
                PromptError::MaxTurnsError {
                    max_turns: self.max_turns,
                    chat_history,
                    prompt: Box::new(prompt),
                },
            );
        }
        match pending {
            Pending::Finish(content) => {
                self.stage = Stage::Finished(self.respond(content));
                Ok(())
            },
            Pending::Defect(reason) => {
                let mut message = "the model repeatedly emitted tool calls with malformed arguments (".to_owned();
                message.append(reason.as_str());
                message.append("); resend the prompt to try again");
                Err(violation(message.as_str()))
            },
            Pending::Provider(_, error) => Err(error),
            Pending::Continue => Ok(()),
        }
    }

    /// The response of a run that ends with the given turn.
    fn respond(&self, content: OneOrMany<AssistantContent>) -> (response: PromptResponse)
        ensures
            response.deep_view() == self.deep_view().response(content.deep_view()),
    {
        let calls = self.ledger.calls().clone();
        assert(deep(calls@) =~= self.ledger.deep_view().calls);
        PromptResponse::new(assistant_text_from_choice(&content), self.ledger.usage())
            .with_content(content)
            .with_completion_calls(calls)
    }
}

} // verus!
