//! Running an agent: what is sent, and with which settings.

use vstd::prelude::*;
use crate::agent::{or_else, unknown_agent_name, Agent, AgentView};
use crate::completion::{
    Document, DocumentView, PromptError, PromptErrorView, ToolChoice, ToolChoiceView,
};
use crate::deep::{deep, group_deep};
use crate::drive::{drained_messages, split_steers, steer_items};
use crate::hook::{copied_stack, with_hook, HookStack, StackedHookView};
use crate::message::{Message, MessageView};
use crate::params::{merge_params, merged_params, AdditionalParams, AdditionalParamsView, ParamMap};
use crate::run::{AgentRun, AgentRunStepView, RunView};
use crate::stream_item::MultiTurnStreamItem;
use crate::strings::decimal;

verus! {

broadcast use group_deep;

/// What a run is sent.
#[derive(Debug)]
pub enum RunInput {
    /// One new message.
    Prompt(Message),
    /// A whole conversation, whose last message is the one to answer.
    Conversation(Vec<Message>),
    /// What a conversation that is kept elsewhere holds.
    Cell(Vec<Message>),
}

pub enum RunInputView {
    Prompt(MessageView),
    Conversation(Seq<MessageView>),
    Cell(Seq<MessageView>),
}

impl DeepView for RunInput {
    type V = RunInputView;

    open spec fn deep_view(&self) -> RunInputView {
        match self {
            RunInput::Prompt(message) => RunInputView::Prompt(message.deep_view()),
            RunInput::Conversation(messages) => RunInputView::Conversation(deep(messages@)),
            RunInput::Cell(messages) => RunInputView::Cell(deep(messages@)),
        }
    }
}

/// The messages that precede a lone prompt.
pub open spec fn history_view(history: Option<Vec<Message>>) -> Option<Seq<MessageView>> {
    match history {
        Some(messages) => Some(deep(messages@)),
        None => None,
    }
}

/// A run that is about to start.
#[derive(Debug)]
#[non_exhaustive]
pub struct AgentRunner<M, S, H, C> {
    /// What is sent.
    pub input: RunInput,
    /// The messages that precede a lone prompt.
    pub chat_history: Option<Vec<Message>>,
    /// The budget of model calls.
    pub max_turns: usize,
    /// The model.
    pub model: M,
    /// The name of the agent.
    pub agent_name: Option<String>,
    /// The system prompt.
    pub preamble: Option<String>,
    /// Documents that go along with every request.
    pub static_context: Vec<Document>,
    /// The bits of the temperature, a floating-point number.
    pub temperature: Option<u64>,
    /// How many tokens a completion may have.
    pub max_tokens: Option<u64>,
    /// Provider-specific parameters.
    pub additional_params: Option<AdditionalParams>,
    /// Whether what is said may go into telemetry.
    pub record_telemetry_content: bool,
    /// Where the tools run.
    pub tool_server_handle: S,
    /// What every tool call is handed a copy of.
    pub tool_context: C,
    /// Which tools the model may or must call.
    pub tool_choice: Option<ToolChoice>,
    /// How many tools may run at once.
    pub concurrency: usize,
    /// The hooks of the run.
    pub hooks: HookStack<H>,
}

pub struct AgentRunnerView<M, S, H, C> {
    pub input: RunInputView,
    pub chat_history: Option<Seq<MessageView>>,
    pub max_turns: usize,
    pub model: M,
    pub agent_name: Option<Seq<char>>,
    pub preamble: Option<Seq<char>>,
    pub static_context: Seq<DocumentView>,
    pub temperature: Option<u64>,
    pub max_tokens: Option<u64>,
    pub additional_params: Option<AdditionalParamsView>,
    pub record_telemetry_content: bool,
    pub tool_server_handle: S,
    pub tool_context: C,
    pub tool_choice: Option<ToolChoiceView>,
    pub concurrency: usize,
    pub hooks: Seq<StackedHookView<H>>,
}

impl<M, S, H, C> DeepView for AgentRunner<M, S, H, C> {
    type V = AgentRunnerView<M, S, H, C>;

    open spec fn deep_view(&self) -> AgentRunnerView<M, S, H, C> {
        AgentRunnerView {
            input: self.input.deep_view(),
            chat_history: history_view(self.chat_history),
            max_turns: self.max_turns,
            model: self.model,
            agent_name: self.agent_name.deep_view(),
            preamble: self.preamble.deep_view(),
            static_context: deep(self.static_context@),
            temperature: self.temperature,
            max_tokens: self.max_tokens,
            additional_params: self.additional_params.deep_view(),
            record_telemetry_content: self.record_telemetry_content,
            tool_server_handle: self.tool_server_handle,
            tool_context: self.tool_context,
            tool_choice: self.tool_choice.deep_view(),
            concurrency: self.concurrency,
            hooks: self.hooks.deep_view(),
        }
    }
}

/// Whether `runner` is what an agent runs an input with. The model, the tool server and
/// the hooks are clones.
pub open spec fn runs<M: Clone, S: Clone, H: Clone, C>(
    agent: AgentView<M, S, H>,
    input: RunInputView,
    tool_context: C,
    runner: AgentRunnerView<M, S, H, C>,
) -> bool {
    &&& runner == (AgentRunnerView {
        input,
        chat_history: None,
        max_turns: match agent.default_max_turns {
            Some(turns) => turns,
            None => 1,
        },
        model: runner.model,
        agent_name: agent.name,
        preamble: agent.preamble,
        static_context: agent.static_context,
        temperature: agent.temperature,
        max_tokens: agent.max_tokens,
        additional_params: agent.additional_params,
        record_telemetry_content: agent.record_telemetry_content,
        tool_server_handle: runner.tool_server_handle,
        tool_context,
        tool_choice: agent.tool_choice,
        concurrency: 1,
        hooks: runner.hooks,
    })
    &&& cloned::<M>(agent.model, runner.model)
    &&& cloned::<S>(agent.tool_server_handle, runner.tool_server_handle)
    &&& copied_stack(agent.hooks, runner.hooks)
}

/// The history that a run starts with, or why it cannot start.
pub open spec fn opening<M, S, H, C>(runner: AgentRunnerView<M, S, H, C>) -> Result<
    Seq<MessageView>,
    PromptErrorView,
> {
    if runner.max_turns == 0 {
        Err(
            PromptErrorView::PromptCancelled {
                chat_history: Seq::empty(),
                reason: "max_turns must be at least 1 — a run always executes one turn"@,
            },
        )
    } else {
        match runner.input {
            RunInputView::Cell(messages) => Ok(messages),
            RunInputView::Prompt(message) => Ok(
                match runner.chat_history {
                    Some(history) => history.push(message),
                    None => seq![message],
                },
            ),
            RunInputView::Conversation(messages) => if messages.len() == 0 {
                Err(empty_conversation())
            } else {
                Ok(messages)
            },
        }
    }
}

/// The error on a conversation with nothing in it to answer.
pub open spec fn empty_conversation() -> PromptErrorView {
    PromptErrorView::PromptCancelled {
        chat_history: Seq::empty(),
        reason: "empty conversation: stream_chat history must end with the message being sent"@,
    }
}

/// The run that a runner starts once the messages that were queued for it have joined what
/// it is sent. There must be a message to answer then.
pub open spec fn converged<M, S, H, C>(
    runner: AgentRunnerView<M, S, H, C>,
    queued: Seq<MessageView>,
) -> Result<RunView, PromptErrorView> {
    match opening(runner) {
        Err(error) => Err(error),
        Ok(history) => if (history + queued).len() == 0 {
            Err(empty_conversation())
        } else {
            Ok(
                RunView {
                    max_turns: runner.max_turns as nat,
                    ..RunView::start(history + queued)
                },
            )
        },
    }
}

impl<M, S, H, C> AgentRunner<M, S, H, C> {
    /// What holds of every runner.
    pub open spec fn wf(&self) -> bool {
        self.hooks.wf()
    }

    /// Sets the budget of model calls.
    pub fn max_turns(self, max_turns: usize) -> (runner: Self)
        requires
            self.wf(),
        ensures
            runner.wf(),
            runner.deep_view() == (AgentRunnerView { max_turns: max_turns, ..self.deep_view() }),
    {
        let mut runner = self;
        runner.max_turns = max_turns;
        runner
    }

    /// Sets the model.
    pub fn using_model(self, model: M) -> (runner: Self)
        requires
            self.wf(),
        ensures
            runner.wf(),
            runner.deep_view() == (AgentRunnerView { model: model, ..self.deep_view() }),
    {
        let mut runner = self;
        runner.model = model;
        runner
    }

    /// Sets what every tool call is handed a copy of.
    pub fn tool_context(self, context: C) -> (runner: Self)
        requires
            self.wf(),
        ensures
            runner.wf(),
            runner.deep_view() == (AgentRunnerView { tool_context: context, ..self.deep_view() }),
    {
        let mut runner = self;
        runner.tool_context = context;
        runner
    }

    /// Sets the messages that precede a lone prompt.
    pub fn history(self, history: Vec<Message>) -> (runner: Self)
        requires
            self.wf(),
        ensures
            runner.wf(),
            runner.deep_view() == (AgentRunnerView { chat_history: Some(deep(history@)), ..self.deep_view() }),
    {
        let mut runner = self;
        runner.chat_history = Some(history);
        runner
    }

    /// Sets the system prompt.
    pub fn preamble(self, preamble: &str) -> (runner: Self)
        requires
            self.wf(),
        ensures
            runner.wf(),
            runner.deep_view() == (AgentRunnerView { preamble: Some(preamble@), ..self.deep_view() }),
    {
        let mut runner = self;
        runner.preamble = Some(preamble.to_owned());
        runner
    }

    /// Removes the system prompt.
    pub fn without_preamble(self) -> (runner: Self)
        requires
            self.wf(),
        ensures
            runner.wf(),
            runner.deep_view() == (AgentRunnerView { preamble: None, ..self.deep_view() }),
    {
        let mut runner = self;
        runner.preamble = None;
        runner
    }

    /// Adds a document that goes along with every request.
    pub fn document(self, document: Document) -> (runner: Self)
        requires
            self.wf(),
        ensures
            runner.wf(),
            runner.deep_view() == (AgentRunnerView {
                static_context: self.deep_view().static_context.push(document.deep_view()),
                ..self.deep_view()
            }),
    {
        let mut runner = self;
        runner.static_context.push(document);
        runner
    }

    /// Adds documents that go along with every request.
    pub fn documents(self, documents: Vec<Document>) -> (runner: Self)
        requires
            self.wf(),
        ensures
            runner.wf(),
            runner.deep_view() == (AgentRunnerView {
                static_context: self.deep_view().static_context + deep(documents@),
                ..self.deep_view()
            }),
    {
        let mut runner = self;
        let mut documents = documents;
        runner.static_context.append(&mut documents);
        runner
    }

    /// Sets the temperature, by the bits of the floating-point number.
    pub fn temperature(self, temperature: u64) -> (runner: Self)
        requires
            self.wf(),
        ensures
            runner.wf(),
            runner.deep_view() == (AgentRunnerView { temperature: Some(temperature), ..self.deep_view() }),
    {
        let mut runner = self;
        runner.temperature = Some(temperature);
        runner
    }

    /// Removes the temperature.
    pub fn without_temperature(self) -> (runner: Self)
        requires
            self.wf(),
        ensures
            runner.wf(),
            runner.deep_view() == (AgentRunnerView { temperature: None, ..self.deep_view() }),
    {
        let mut runner = self;
        runner.temperature = None;
        runner
    }

    /// Says how many tokens a completion may have.
    pub fn max_tokens(self, max_tokens: u64) -> (runner: Self)
        requires
            self.wf(),
        ensures
            runner.wf(),
            runner.deep_view() == (AgentRunnerView { max_tokens: Some(max_tokens), ..self.deep_view() }),
    {
        let mut runner = self;
        runner.max_tokens = Some(max_tokens);
        runner
    }

    /// Removes the bound on the tokens of a completion.
    pub fn without_max_tokens(self) -> (runner: Self)
        requires
            self.wf(),
        ensures
            runner.wf(),
            runner.deep_view() == (AgentRunnerView { max_tokens: None, ..self.deep_view() }),
    {
        let mut runner = self;
        runner.max_tokens = None;
        runner
    }

    /// Puts fields on top of the provider-specific parameters.
    pub fn merge_additional_params(self, params: ParamMap) -> (runner: Self)
        requires
            self.wf(),
        ensures
            runner.wf(),
            runner.deep_view() == (AgentRunnerView {
                additional_params: Some(
                    merged_params(self.deep_view().additional_params, params.deep_view()),
                ),
                ..self.deep_view()
            }),
    {
        let mut runner = self;
        runner.additional_params = Some(merge_params(runner.additional_params, params));
        runner
    }

    /// Sets the provider-specific parameters.
    pub fn replace_additional_params(self, params: AdditionalParams) -> (runner: Self)
        requires
            self.wf(),
        ensures
            runner.wf(),
            runner.deep_view() == (AgentRunnerView { additional_params: Some(params.deep_view()), ..self.deep_view() }),
    {
        let mut runner = self;
        runner.additional_params = Some(params);
        runner
    }

    /// Removes the provider-specific parameters.
    pub fn without_additional_params(self) -> (runner: Self)
        requires
            self.wf(),
        ensures
            runner.wf(),
            runner.deep_view() == (AgentRunnerView { additional_params: None, ..self.deep_view() }),
    {
        let mut runner = self;
        runner.additional_params = None;
        runner
    }

    /// Says which tools the model may or must call.
    pub fn tool_choice(self, tool_choice: ToolChoice) -> (runner: Self)
        requires
            self.wf(),
        ensures
            runner.wf(),
            runner.deep_view() == (AgentRunnerView { tool_choice: Some(tool_choice.deep_view()), ..self.deep_view() }),
    {
        let mut runner = self;
        runner.tool_choice = Some(tool_choice);
        runner
    }

    /// Leaves the choice of tools to the model.
    pub fn without_tool_choice(self) -> (runner: Self)
        requires
            self.wf(),
        ensures
            runner.wf(),
            runner.deep_view() == (AgentRunnerView { tool_choice: None, ..self.deep_view() }),
    {
        let mut runner = self;
        runner.tool_choice = None;
        runner
    }

    /// Says how many tools may run at once. None at all counts as one.
    pub fn tool_concurrency(self, concurrency: usize) -> (runner: Self)
        requires
            self.wf(),
        ensures
            runner.wf(),
            runner.deep_view() == (AgentRunnerView {
                concurrency: if concurrency == 0 {
                    1
                } else {
                    concurrency
                },
                ..self.deep_view()
            }),
    {
        let mut runner = self;
        runner.concurrency = if concurrency == 0 {
            1
        } else {
            concurrency
        };
        runner
    }

    /// Adds a hook, behind those of the same priority.
    pub fn add_hook(self, hook: H) -> (runner: Self)
        requires
            self.wf(),
        ensures
            runner.wf(),
            runner.deep_view() == (AgentRunnerView {
                hooks: with_hook(
                    self.deep_view().hooks,
                    "trait-"@ + decimal(self.deep_view().hooks.len()),
                    0,
                    hook,
                ),
                ..self.deep_view()
            }),
    {
        let mut runner = self;
        runner.hooks.push(hook);
        runner
    }

    /// The name of the agent, or what stands for a missing one.
    pub fn agent_name_or_default(&self) -> (name: &str)
        ensures
            name@ == or_else(self.deep_view().agent_name, unknown_agent_name()),
    {
        match &self.agent_name {
            Some(name) => name.as_str(),
            None => "Unnamed Agent",
        }
    }

    /// The history that the run starts with. What is kept elsewhere may be empty.
    pub fn build_run(&self) -> (history: Result<Vec<Message>, PromptError>)
        ensures
            match history {
                Ok(messages) => opening(self.deep_view()) == Ok::<
                    Seq<MessageView>,
                    PromptErrorView,
                >(deep(messages@)),
                Err(error) => opening(self.deep_view()) == Err::<
                    Seq<MessageView>,
                    PromptErrorView,
                >(error.deep_view()),
            },
    {
        if self.max_turns == 0 {
            return Err(
                PromptError::prompt_cancelled(
                    Vec::new(),
                    "max_turns must be at least 1 — a run always executes one turn",
                ),
            );
        }
        match &self.input {
            RunInput::Cell(messages) => {
                let history = messages.clone();
                assert(deep(history@) =~= deep(messages@));
                Ok(history)
            },
            RunInput::Prompt(message) => {
                let mut history = match &self.chat_history {
                    Some(messages) => messages.clone(),
                    None => Vec::new(),
                };
                proof {
                    if let Some(messages) = &self.chat_history {
                        assert(deep(history@) =~= deep(messages@));
                    }
                }
                history.push(message.clone());
                assert(self.chat_history is None ==> deep(history@) =~= seq![message.deep_view()]);
                Ok(history)
            },
            RunInput::Conversation(messages) => {
                if messages.len() == 0 {
                    return Err(
                        PromptError::prompt_cancelled(
                            Vec::new(),
                            "empty conversation: stream_chat history must end with the message being sent",
                        ),
                    );
                }
                let history = messages.clone();
                assert(deep(history@) =~= deep(messages@));
                Ok(history)
            },
        }
    }

    /// The run, ready for its first step. There must be a message to answer.
    pub fn start(&self) -> (run: Result<AgentRun, PromptError>)
        ensures
            match converged(self.deep_view(), Seq::empty()) {
                Err(expected) => run matches Err(error) && error.deep_view() == expected,
                Ok(expected) => run matches Ok(run) && run.wf() && run.deep_view() == expected,
            },
    {
        let nothing: Vec<(String, Message)> = Vec::new();
        assert(drained_messages(deep(nothing@)) =~= Seq::empty());
        self.converge(nothing).1
    }

    /// The run, with the messages that were queued for it behind what it is sent, and the
    /// item that announces them. A conversation that is kept elsewhere may be empty until
    /// they have joined it: its opening message comes in this way.
    pub fn converge(&self, drained: Vec<(String, Message)>) -> (started: (
        Vec<MultiTurnStreamItem>,
        Result<AgentRun, PromptError>,
    ))
        ensures
            match converged(self.deep_view(), drained_messages(deep(drained@))) {
                Err(expected) => {
                    &&& started.0@.len() == 0
                    &&& started.1 matches Err(error)
                    &&& error.deep_view() == expected
                },
                Ok(expected) => {
                    &&& deep(started.0@) == steer_items(deep(drained@))
                    &&& started.1 matches Ok(run)
                    &&& run.wf()
                    &&& run.deep_view() == expected
                },
            },
    {
        let mut history = match self.build_run() {
            Ok(history) => history,
            Err(error) => {
                return (Vec::new(), Err(error));
            },
        };
        let ghost sent = deep(history@);
        let (items, mut messages) = split_steers(drained);
        let ghost queued = deep(messages@);
        history.append(&mut messages);
        assert(deep(history@) =~= sent + queued);
        if history.len() == 0 {
            let error = PromptError::prompt_cancelled(
                Vec::new(),
                "empty conversation: stream_chat history must end with the message being sent",
            );
            return (Vec::new(), Err(error));
        }
        (items, Ok(AgentRun::new(history).max_turns(self.max_turns)))
    }
}

impl<M: Clone, S: Clone, H: Clone, C> AgentRunner<M, S, H, C> {
    /// Runs an agent on one new message.
    pub fn from_agent(agent: &Agent<M, S, H>, prompt: Message, tool_context: C) -> (runner: Self)
        requires
            agent.wf(),
        ensures
            runner.wf(),
            runs(
                agent.deep_view(),
                RunInputView::Prompt(prompt.deep_view()),
                tool_context,
                runner.deep_view(),
            ),
    {
        Self::from_input(agent, RunInput::Prompt(prompt), tool_context)
    }

    /// Runs an agent on a whole conversation.
    pub fn from_agent_conversation(
        agent: &Agent<M, S, H>,
        conversation: Vec<Message>,
        tool_context: C,
    ) -> (runner: Self)
        requires
            agent.wf(),
        ensures
            runner.wf(),
            runs(
                agent.deep_view(),
                RunInputView::Conversation(deep(conversation@)),
                tool_context,
                runner.deep_view(),
            ),
    {
        Self::from_input(agent, RunInput::Conversation(conversation), tool_context)
    }

    /// Runs an agent on a conversation that is kept elsewhere.
    pub fn from_agent_cell(
        agent: &Agent<M, S, H>,
        cell: Vec<Message>,
        tool_context: C,
    ) -> (runner: Self)
        requires
            agent.wf(),
        ensures
            runner.wf(),
            runs(
                agent.deep_view(),
                RunInputView::Cell(deep(cell@)),
                tool_context,
                runner.deep_view(),
            ),
    {
        Self::from_input(agent, RunInput::Cell(cell), tool_context)
    }

    fn from_input(agent: &Agent<M, S, H>, input: RunInput, tool_context: C) -> (runner: Self)
        requires
            agent.wf(),
        ensures
            runner.wf(),
            runs(agent.deep_view(), input.deep_view(), tool_context, runner.deep_view()),
    {
        let static_context = agent.static_context.clone();
        assert(deep(static_context@) =~= deep(agent.static_context@));
        AgentRunner {
            input,
            chat_history: None,
            max_turns: match agent.default_max_turns {
                Some(turns) => turns,
                None => 1,
            },
            model: agent.model.clone(),
            agent_name: agent.name.clone(),
            preamble: agent.preamble.clone(),
            static_context,
            temperature: agent.temperature,
            max_tokens: agent.max_tokens,
            additional_params: agent.additional_params.clone(),
            record_telemetry_content: agent.record_telemetry_content,
            tool_server_handle: agent.tool_server_handle.clone(),
            tool_context,
            tool_choice: agent.tool_choice.clone(),
            concurrency: 1,
            hooks: agent.hooks.clone(),
        }
    }
}

impl<M: Clone, S: Clone, H: Clone> Agent<M, S, H> {
    /// Runs the agent on one new message.
    pub fn runner<C>(&self, prompt: Message, tool_context: C) -> (runner: AgentRunner<M, S, H, C>)
        requires
            self.wf(),
        ensures
            runner.wf(),
            runs(
                self.deep_view(),
                RunInputView::Prompt(prompt.deep_view()),
                tool_context,
                runner.deep_view(),
            ),
    {
        AgentRunner::from_agent(self, prompt, tool_context)
    }

    /// Runs the agent on a conversation that is kept elsewhere.
    pub fn runner_over<C>(&self, cell: Vec<Message>, tool_context: C) -> (runner: AgentRunner<
        M,
        S,
        H,
        C,
    >)
        requires
            self.wf(),
        ensures
            runner.wf(),
            runs(
                self.deep_view(),
                RunInputView::Cell(deep(cell@)),
                tool_context,
                runner.deep_view(),
            ),
    {
        AgentRunner::from_agent_cell(self, cell, tool_context)
    }
}

/// A conversation can be sent again as it is: with the same budget, a lone prompt with its
/// history and the conversation that they make up start the same run.
pub proof fn law_prompt_is_the_last_message<M, S, H, C>(
    runner: AgentRunnerView<M, S, H, C>,
    history: Seq<MessageView>,
    prompt: MessageView,
)
    ensures
        opening(
            AgentRunnerView {
                input: RunInputView::Prompt(prompt),
                chat_history: Some(history),
                ..runner
            },
        ) == opening(
            AgentRunnerView {
                input: RunInputView::Conversation(history.push(prompt)),
                chat_history: None,
                ..runner
            },
        ),
{
}

/// Whatever is sent, a run without a budget does not start, and one with a budget starts
/// unless it is sent an empty conversation.
pub proof fn law_only_a_budget_and_a_message_are_needed<M, S, H, C>(
    runner: AgentRunnerView<M, S, H, C>,
)
    ensures
        opening(runner) is Ok <==> {
            &&& runner.max_turns > 0
            &&& runner.input != RunInputView::Conversation(Seq::empty())
        },
{
    if let RunInputView::Conversation(messages) = runner.input {
        if messages.len() == 0 {
            assert(messages =~= Seq::empty());
        }
    }
}

/// With a budget, a conversation that is kept elsewhere starts exactly where it holds a
/// message or one is queued, and its first call carries what it holds and then what is
/// queued, in that order.
pub proof fn law_cell_is_opened_by_the_queue<M, S, H, C>(
    runner: AgentRunnerView<M, S, H, C>,
    kept: Seq<MessageView>,
    queued: Seq<MessageView>,
)
    requires
        runner.max_turns > 0,
    ensures
        ({
            let started = converged(
                AgentRunnerView { input: RunInputView::Cell(kept), ..runner },
                queued,
            );
            &&& started is Ok <==> kept.len() > 0 || queued.len() > 0
            &&& started matches Ok(run) ==> run.step() == Ok::<AgentRunStepView, PromptErrorView>(
                AgentRunStepView::CallModel { history: kept + queued, turn: 1 },
            )
        }),
{
}

} // verus!
