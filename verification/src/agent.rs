//! Agents and how they are put together.

use vstd::prelude::*;
use crate::completion::{
    Document, DocumentView, ToolChoice, ToolChoiceView, ToolDefinition, ToolDefinitionView,
};
use crate::deep::{deep, group_deep};
use crate::hook::{copied_stack, with_hook, HookStack, StackedHookView};
use crate::json::Json;
use crate::params::{AdditionalParams, AdditionalParamsView};
use crate::strings::{decimal, spell};

verus! {

broadcast use group_deep;

/// The name that stands for an agent without one.
pub open spec fn unknown_agent_name() -> Seq<char> {
    "Unnamed Agent"@
}

/// The name of the tool that an agent without a name becomes.
pub open spec fn default_agent_tool_name() -> Seq<char> {
    "agent_tool"@
}

/// No tools have been set up.
#[derive(Debug, Default)]
pub struct NoToolConfig;

/// The tools come from a tool server that is there already.
#[derive(Debug)]
pub struct WithToolServerHandle<S> {
    pub handle: S,
}

/// Tools have been set up, and ways to find more of them.
#[derive(Debug)]
pub struct WithBuilderTools<T, I> {
    /// The tools, in the order in which they were set up.
    pub tools: Vec<T>,
    /// The indexes in which tools are looked up, each with how many to take.
    pub retrieval_indexes: Vec<(usize, I)>,
    /// The tools that are found by way of an index only.
    pub retrievable_tools: Vec<T>,
}

/// An agent that is being put together.
#[derive(Debug)]
pub struct AgentBuilder<M, H, ToolState> {
    name: Option<String>,
    description: Option<String>,
    model: M,
    preamble: Option<String>,
    static_context: Vec<Document>,
    additional_params: Option<AdditionalParams>,
    record_telemetry_content: bool,
    max_tokens: Option<u64>,
    temperature: Option<u64>,
    tool_choice: Option<ToolChoice>,
    default_max_turns: Option<usize>,
    tool_state: ToolState,
    hooks: HookStack<H>,
}

pub struct AgentBuilderView<M, H, ToolState> {
    pub name: Option<Seq<char>>,
    pub description: Option<Seq<char>>,
    pub model: M,
    pub preamble: Option<Seq<char>>,
    pub static_context: Seq<DocumentView>,
    pub additional_params: Option<AdditionalParamsView>,
    pub record_telemetry_content: bool,
    pub max_tokens: Option<u64>,
    pub temperature: Option<u64>,
    pub tool_choice: Option<ToolChoiceView>,
    pub default_max_turns: Option<usize>,
    pub tool_state: ToolState,
    pub hooks: Seq<StackedHookView<H>>,
}

impl<M, H, ToolState> DeepView for AgentBuilder<M, H, ToolState> {
    type V = AgentBuilderView<M, H, ToolState>;

    closed spec fn deep_view(&self) -> AgentBuilderView<M, H, ToolState> {
        AgentBuilderView {
            name: self.name.deep_view(),
            description: self.description.deep_view(),
            model: self.model,
            preamble: self.preamble.deep_view(),
            static_context: deep(self.static_context@),
            additional_params: self.additional_params.deep_view(),
            record_telemetry_content: self.record_telemetry_content,
            max_tokens: self.max_tokens,
            temperature: self.temperature,
            tool_choice: self.tool_choice.deep_view(),
            default_max_turns: self.default_max_turns,
            tool_state: self.tool_state,
            hooks: self.hooks.deep_view(),
        }
    }
}

/// The preamble with a document behind it, on a line of its own.
pub open spec fn appended_preamble(preamble: Option<Seq<char>>, doc: Seq<char>) -> Seq<char> {
    (match preamble {
        Some(preamble) => preamble,
        None => Seq::empty(),
    }) + "\n"@ + doc
}

/// The document that is the next to go along with every request.
pub open spec fn static_document(n: nat, text: Seq<char>) -> DocumentView {
    DocumentView { id: "static_doc_"@ + decimal(n), text, additional_props: Seq::empty() }
}

impl<M, H, ToolState> AgentBuilder<M, H, ToolState> {
    /// What holds of every builder.
    pub open spec fn wf(&self) -> bool {
        crate::hook::in_asking_order(self.deep_view().hooks)
    }

    /// Sets the name.
    pub fn name(self, name: &str) -> (builder: Self)
        requires
            self.wf(),
        ensures
            builder.wf(),
            builder.deep_view() == (AgentBuilderView { name: Some(name@), ..self.deep_view() }),
    {
        let mut builder = self;
        builder.name = Some(name.to_owned());
        builder
    }

    /// Says what the agent is for.
    pub fn description(self, description: &str) -> (builder: Self)
        requires
            self.wf(),
        ensures
            builder.wf(),
            builder.deep_view() == (AgentBuilderView { description: Some(description@), ..self.deep_view() }),
    {
        let mut builder = self;
        builder.description = Some(description.to_owned());
        builder
    }

    /// Sets the system prompt.
    pub fn preamble(self, preamble: &str) -> (builder: Self)
        requires
            self.wf(),
        ensures
            builder.wf(),
            builder.deep_view() == (AgentBuilderView { preamble: Some(preamble@), ..self.deep_view() }),
    {
        let mut builder = self;
        builder.preamble = Some(preamble.to_owned());
        builder
    }

    /// Removes the system prompt.
    pub fn without_preamble(self) -> (builder: Self)
        requires
            self.wf(),
        ensures
            builder.wf(),
            builder.deep_view() == (AgentBuilderView { preamble: None, ..self.deep_view() }),
    {
        let mut builder = self;
        builder.preamble = None;
        builder
    }

    /// Adds to the system prompt, on a line of its own.
    pub fn append_preamble(self, doc: &str) -> (builder: Self)
        requires
            self.wf(),
        ensures
            builder.wf(),
            builder.deep_view() == (AgentBuilderView {
                preamble: Some(appended_preamble(self.deep_view().preamble, doc@)),
                ..self.deep_view()
            }),
    {
        let mut builder = self;
        let mut preamble = match builder.preamble {
            Some(preamble) => preamble,
            None => String::new(),
        };
        preamble.append("\n");
        preamble.append(doc);
        builder.preamble = Some(preamble);
        builder
    }

    /// Adds a document that goes along with every request.
    pub fn context(self, doc: &str) -> (builder: Self)
        requires
            self.wf(),
        ensures
            builder.wf(),
            builder.deep_view() == (AgentBuilderView {
                static_context: self.deep_view().static_context.push(
                    static_document(self.deep_view().static_context.len(), doc@),
                ),
                ..self.deep_view()
            }),
    {
        let mut builder = self;
        let mut id = "static_doc_".to_owned();
        id.append(spell(builder.static_context.len()).as_str());
        builder.static_context.push(
            Document { id, text: doc.to_owned(), additional_props: Vec::new() },
        );
        builder
    }

    /// Says which tools the model may or must call.
    pub fn tool_choice(self, tool_choice: ToolChoice) -> (builder: Self)
        requires
            self.wf(),
        ensures
            builder.wf(),
            builder.deep_view() == (AgentBuilderView { tool_choice: Some(tool_choice.deep_view()), ..self.deep_view() }),
    {
        let mut builder = self;
        builder.tool_choice = Some(tool_choice);
        builder
    }

    /// Sets the budget of model calls of a run.
    pub fn default_max_turns(self, default_max_turns: usize) -> (builder: Self)
        requires
            self.wf(),
        ensures
            builder.wf(),
            builder.deep_view() == (AgentBuilderView { default_max_turns: Some(default_max_turns), ..self.deep_view() }),
    {
        let mut builder = self;
        builder.default_max_turns = Some(default_max_turns);
        builder
    }

    /// Sets the temperature, by the bits of the floating-point number.
    pub fn temperature(self, temperature: u64) -> (builder: Self)
        requires
            self.wf(),
        ensures
            builder.wf(),
            builder.deep_view() == (AgentBuilderView { temperature: Some(temperature), ..self.deep_view() }),
    {
        let mut builder = self;
        builder.temperature = Some(temperature);
        builder
    }

    /// Says how many tokens a completion may have.
    pub fn max_tokens(self, max_tokens: u64) -> (builder: Self)
        requires
            self.wf(),
        ensures
            builder.wf(),
            builder.deep_view() == (AgentBuilderView { max_tokens: Some(max_tokens), ..self.deep_view() }),
    {
        let mut builder = self;
        builder.max_tokens = Some(max_tokens);
        builder
    }

    /// Sets the provider-specific parameters.
    pub fn additional_params(self, params: AdditionalParams) -> (builder: Self)
        requires
            self.wf(),
        ensures
            builder.wf(),
            builder.deep_view() == (AgentBuilderView { additional_params: Some(params.deep_view()), ..self.deep_view() }),
    {
        let mut builder = self;
        builder.additional_params = Some(params);
        builder
    }

    /// Says whether what is said may be recorded in telemetry.
    pub fn record_content_telemetry(self, enabled: bool) -> (builder: Self)
        requires
            self.wf(),
        ensures
            builder.wf(),
            builder.deep_view() == (AgentBuilderView { record_telemetry_content: enabled, ..self.deep_view() }),
    {
        let mut builder = self;
        builder.record_telemetry_content = enabled;
        builder
    }

    /// Adds a hook, behind those of the same priority.
    pub fn add_hook(self, hook: H) -> (builder: Self)
        requires
            self.wf(),
        ensures
            builder.wf(),
            builder.deep_view() == (AgentBuilderView {
                hooks: with_hook(
                    self.deep_view().hooks,
                    "trait-"@ + decimal(self.deep_view().hooks.len()),
                    0,
                    hook,
                ),
                ..self.deep_view()
            }),
    {
        let mut builder = self;
        builder.hooks.push(hook);
        builder
    }

    /// The same builder in another tool state.
    fn with_tool_state<Other>(self, tool_state: Other) -> (builder: AgentBuilder<M, H, Other>)
        ensures
            builder.deep_view() == in_tool_state(self.deep_view(), tool_state),
    {
        AgentBuilder {
            name: self.name,
            description: self.description,
            model: self.model,
            preamble: self.preamble,
            static_context: self.static_context,
            additional_params: self.additional_params,
            record_telemetry_content: self.record_telemetry_content,
            max_tokens: self.max_tokens,
            temperature: self.temperature,
            tool_choice: self.tool_choice,
            default_max_turns: self.default_max_turns,
            tool_state,
            hooks: self.hooks,
        }
    }

    /// Puts the agent together, with a tool server.
    fn into_agent<S>(self, tool_server_handle: S) -> (agent: Agent<M, S, H>)
        ensures
            agent.deep_view() == built(self.deep_view(), tool_server_handle),
    {
        Agent {
            name: self.name,
            description: self.description,
            model: self.model,
            preamble: self.preamble,
            static_context: self.static_context,
            additional_params: self.additional_params,
            record_telemetry_content: self.record_telemetry_content,
            max_tokens: self.max_tokens,
            temperature: self.temperature,
            tool_choice: self.tool_choice,
            default_max_turns: self.default_max_turns,
            tool_server_handle,
            hooks: self.hooks,
        }
    }
}

/// The same builder in another tool state.
pub open spec fn in_tool_state<M, H, A, B>(
    builder: AgentBuilderView<M, H, A>,
    tool_state: B,
) -> AgentBuilderView<M, H, B> {
    AgentBuilderView {
        name: builder.name,
        description: builder.description,
        model: builder.model,
        preamble: builder.preamble,
        static_context: builder.static_context,
        additional_params: builder.additional_params,
        record_telemetry_content: builder.record_telemetry_content,
        max_tokens: builder.max_tokens,
        temperature: builder.temperature,
        tool_choice: builder.tool_choice,
        default_max_turns: builder.default_max_turns,
        tool_state,
        hooks: builder.hooks,
    }
}

/// The agent that a builder puts together with a tool server.
pub open spec fn built<M, H, ToolState, S>(
    builder: AgentBuilderView<M, H, ToolState>,
    tool_server_handle: S,
) -> AgentView<M, S, H> {
    AgentView {
        name: builder.name,
        description: builder.description,
        model: builder.model,
        preamble: builder.preamble,
        static_context: builder.static_context,
        additional_params: builder.additional_params,
        record_telemetry_content: builder.record_telemetry_content,
        max_tokens: builder.max_tokens,
        temperature: builder.temperature,
        tool_choice: builder.tool_choice,
        default_max_turns: builder.default_max_turns,
        tool_server_handle,
        hooks: builder.hooks,
    }
}

impl<M, H> AgentBuilder<M, H, NoToolConfig> {
    /// Starts with a model and nothing else.
    pub fn from_model_handle(model: M) -> (builder: Self)
        ensures
            builder.wf(),
            builder.deep_view() == (AgentBuilderView {
                name: None,
                description: None,
                model,
                preamble: None,
                static_context: Seq::empty(),
                additional_params: None,
                record_telemetry_content: false,
                max_tokens: None,
                temperature: None,
                tool_choice: None,
                default_max_turns: None,
                tool_state: NoToolConfig,
                hooks: Seq::<StackedHookView<H>>::empty(),
            }),
    {
        AgentBuilder {
            name: None,
            description: None,
            model,
            preamble: None,
            static_context: Vec::new(),
            additional_params: None,
            record_telemetry_content: false,
            max_tokens: None,
            temperature: None,
            tool_choice: None,
            default_max_turns: None,
            tool_state: NoToolConfig,
            hooks: HookStack::new(),
        }
    }

    /// Takes the tools from a tool server that is there already.
    pub fn tool_server_handle<S>(self, handle: S) -> (builder: AgentBuilder<
        M,
        H,
        WithToolServerHandle<S>,
    >)
        requires
            self.wf(),
        ensures
            builder.wf(),
            builder.deep_view() == in_tool_state(
                self.deep_view(),
                WithToolServerHandle { handle },
            ),
    {
        self.with_tool_state(WithToolServerHandle { handle })
    }

    /// Sets up the first tool.
    pub fn tool<T, I>(self, tool: T) -> (builder: AgentBuilder<M, H, WithBuilderTools<T, I>>)
        requires
            self.wf(),
        ensures
            builder.wf(),
            same_but_tools(self.deep_view(), builder.deep_view()),
            builder.deep_view().tool_state.tools@ == seq![tool],
            builder.deep_view().tool_state.retrieval_indexes@ == Seq::<(usize, I)>::empty(),
            builder.deep_view().tool_state.retrievable_tools@ == Seq::<T>::empty(),
    {
        let mut tools: Vec<T> = Vec::new();
        tools.push(tool);
        self.dynamic_tools(tools)
    }

    /// Sets up a tool that is made at run time.
    pub fn dynamic_tool<T, I>(self, tool: T) -> (builder: AgentBuilder<
        M,
        H,
        WithBuilderTools<T, I>,
    >)
        requires
            self.wf(),
        ensures
            builder.wf(),
            same_but_tools(self.deep_view(), builder.deep_view()),
            builder.deep_view().tool_state.tools@ == seq![tool],
            builder.deep_view().tool_state.retrieval_indexes@ == Seq::<(usize, I)>::empty(),
            builder.deep_view().tool_state.retrievable_tools@ == Seq::<T>::empty(),
    {
        self.tool(tool)
    }

    /// Sets up tools that are made at run time.
    pub fn dynamic_tools<T, I>(self, tools: Vec<T>) -> (builder: AgentBuilder<
        M,
        H,
        WithBuilderTools<T, I>,
    >)
        requires
            self.wf(),
        ensures
            builder.wf(),
            same_but_tools(self.deep_view(), builder.deep_view()),
            builder.deep_view().tool_state.tools@ == tools@,
            builder.deep_view().tool_state.retrieval_indexes@ == Seq::<(usize, I)>::empty(),
            builder.deep_view().tool_state.retrievable_tools@ == Seq::<T>::empty(),
    {
        self.with_tool_state(
            WithBuilderTools {
                tools,
                retrieval_indexes: Vec::new(),
                retrievable_tools: Vec::new(),
            },
        )
    }

    /// Sets up tools that are found by way of an index, `sample` of them at a time.
    pub fn retrieved_tools<T, I>(
        self,
        sample: usize,
        index: I,
        toolset: Vec<T>,
    ) -> (builder: AgentBuilder<M, H, WithBuilderTools<T, I>>)
        requires
            self.wf(),
        ensures
            builder.wf(),
            same_but_tools(self.deep_view(), builder.deep_view()),
            builder.deep_view().tool_state.tools@ == Seq::<T>::empty(),
            builder.deep_view().tool_state.retrieval_indexes@ == seq![(sample, index)],
            builder.deep_view().tool_state.retrievable_tools@ == toolset@,
    {
        let mut retrieval_indexes: Vec<(usize, I)> = Vec::new();
        retrieval_indexes.push((sample, index));
        self.with_tool_state(
            WithBuilderTools {
                tools: Vec::new(),
                retrieval_indexes,
                retrievable_tools: toolset,
            },
        )
    }

    /// Puts the agent together, with a tool server that has no tools.
    pub fn build<S>(self, empty_server: S) -> (agent: Agent<M, S, H>)
        requires
            self.wf(),
        ensures
            agent.wf(),
            agent.deep_view() == built(self.deep_view(), empty_server),
    {
        self.into_agent(empty_server)
    }
}

/// Whether two builders differ in their tool state only.
pub open spec fn same_but_tools<M, H, A, B>(
    before: AgentBuilderView<M, H, A>,
    after: AgentBuilderView<M, H, B>,
) -> bool {
    after == in_tool_state(before, after.tool_state)
}

impl<M, H, S> AgentBuilder<M, H, WithToolServerHandle<S>> {
    /// Puts the agent together, with its tool server.
    pub fn build(self) -> (agent: Agent<M, S, H>)
        requires
            self.wf(),
        ensures
            agent.wf(),
            agent.deep_view() == built(self.deep_view(), self.deep_view().tool_state.handle),
    {
        let AgentBuilder {
            name,
            description,
            model,
            preamble,
            static_context,
            additional_params,
            record_telemetry_content,
            max_tokens,
            temperature,
            tool_choice,
            default_max_turns,
            tool_state,
            hooks,
        } = self;
        Agent {
            name,
            description,
            model,
            preamble,
            static_context,
            additional_params,
            record_telemetry_content,
            max_tokens,
            temperature,
            tool_choice,
            default_max_turns,
            tool_server_handle: tool_state.handle,
            hooks,
        }
    }
}

impl<M, H, T, I> AgentBuilder<M, H, WithBuilderTools<T, I>> {
    /// Sets up another tool.
    pub fn tool(self, tool: T) -> (builder: Self)
        requires
            self.wf(),
        ensures
            builder.wf(),
            same_but_tools(self.deep_view(), builder.deep_view()),
            builder.deep_view().tool_state.tools@ == self.deep_view().tool_state.tools@.push(tool),
            builder.deep_view().tool_state.retrieval_indexes
                == self.deep_view().tool_state.retrieval_indexes,
            builder.deep_view().tool_state.retrievable_tools
                == self.deep_view().tool_state.retrievable_tools,
    {
        let mut builder = self;
        builder.tool_state.tools.push(tool);
        builder
    }

    /// Sets up another tool that is made at run time.
    pub fn dynamic_tool(self, tool: T) -> (builder: Self)
        requires
            self.wf(),
        ensures
            builder.wf(),
            same_but_tools(self.deep_view(), builder.deep_view()),
            builder.deep_view().tool_state.tools@ == self.deep_view().tool_state.tools@.push(tool),
            builder.deep_view().tool_state.retrieval_indexes
                == self.deep_view().tool_state.retrieval_indexes,
            builder.deep_view().tool_state.retrievable_tools
                == self.deep_view().tool_state.retrievable_tools,
    {
        self.tool(tool)
    }

    /// Sets up more tools that are made at run time.
    pub fn dynamic_tools(self, tools: Vec<T>) -> (builder: Self)
        requires
            self.wf(),
        ensures
            builder.wf(),
            same_but_tools(self.deep_view(), builder.deep_view()),
            builder.deep_view().tool_state.tools@ == self.deep_view().tool_state.tools@ + tools@,
            builder.deep_view().tool_state.retrieval_indexes
                == self.deep_view().tool_state.retrieval_indexes,
            builder.deep_view().tool_state.retrievable_tools
                == self.deep_view().tool_state.retrievable_tools,
    {
        let mut builder = self;
        let mut tools = tools;
        builder.tool_state.tools.append(&mut tools);
        builder
    }

    /// Sets up more tools that are found by way of an index.
    pub fn retrieved_tools(self, sample: usize, index: I, toolset: Vec<T>) -> (builder: Self)
        requires
            self.wf(),
        ensures
            builder.wf(),
            same_but_tools(self.deep_view(), builder.deep_view()),
            builder.deep_view().tool_state.tools == self.deep_view().tool_state.tools,
            builder.deep_view().tool_state.retrieval_indexes@
                == self.deep_view().tool_state.retrieval_indexes@.push((sample, index)),
            builder.deep_view().tool_state.retrievable_tools@
                == self.deep_view().tool_state.retrievable_tools@ + toolset@,
    {
        let mut builder = self;
        let mut toolset = toolset;
        builder.tool_state.retrieval_indexes.push((sample, index));
        builder.tool_state.retrievable_tools.append(&mut toolset);
        builder
    }

    /// Takes the tools out, for a tool server to be started with them.
    pub fn take_tools(self) -> (parts: (AgentBuilder<M, H, NoToolConfig>, WithBuilderTools<T, I>))
        requires
            self.wf(),
        ensures
            parts.0.wf(),
            parts.0.deep_view() == in_tool_state(self.deep_view(), NoToolConfig),
            parts.1 == self.deep_view().tool_state,
    {
        let AgentBuilder {
            name,
            description,
            model,
            preamble,
            static_context,
            additional_params,
            record_telemetry_content,
            max_tokens,
            temperature,
            tool_choice,
            default_max_turns,
            tool_state,
            hooks,
        } = self;
        let builder = AgentBuilder {
            name,
            description,
            model,
            preamble,
            static_context,
            additional_params,
            record_telemetry_content,
            max_tokens,
            temperature,
            tool_choice,
            default_max_turns,
            tool_state: NoToolConfig,
            hooks,
        };
        (builder, tool_state)
    }
}

/// An agent: a model, with what goes along with every request.
#[derive(Debug)]
#[non_exhaustive]
pub struct Agent<M, S, H> {
    /// The name of the agent.
    pub name: Option<String>,
    /// What the agent is for.
    pub description: Option<String>,
    /// The model.
    pub model: M,
    /// The system prompt.
    pub preamble: Option<String>,
    /// Documents that go along with every request.
    pub static_context: Vec<Document>,
    /// Provider-specific parameters.
    pub additional_params: Option<AdditionalParams>,
    /// Whether what is said may be recorded in telemetry.
    pub record_telemetry_content: bool,
    /// How many tokens a completion may have.
    pub max_tokens: Option<u64>,
    /// The bits of the temperature, a floating-point number.
    pub temperature: Option<u64>,
    /// Which tools the model may or must call.
    pub tool_choice: Option<ToolChoice>,
    /// The budget of model calls of a run.
    pub default_max_turns: Option<usize>,
    /// Where the tools run.
    pub tool_server_handle: S,
    /// The hooks of every run.
    pub hooks: HookStack<H>,
}

pub struct AgentView<M, S, H> {
    pub name: Option<Seq<char>>,
    pub description: Option<Seq<char>>,
    pub model: M,
    pub preamble: Option<Seq<char>>,
    pub static_context: Seq<DocumentView>,
    pub additional_params: Option<AdditionalParamsView>,
    pub record_telemetry_content: bool,
    pub max_tokens: Option<u64>,
    pub temperature: Option<u64>,
    pub tool_choice: Option<ToolChoiceView>,
    pub default_max_turns: Option<usize>,
    pub tool_server_handle: S,
    pub hooks: Seq<StackedHookView<H>>,
}

impl<M, S, H> DeepView for Agent<M, S, H> {
    type V = AgentView<M, S, H>;

    open spec fn deep_view(&self) -> AgentView<M, S, H> {
        AgentView {
            name: self.name.deep_view(),
            description: self.description.deep_view(),
            model: self.model,
            preamble: self.preamble.deep_view(),
            static_context: deep(self.static_context@),
            additional_params: self.additional_params.deep_view(),
            record_telemetry_content: self.record_telemetry_content,
            max_tokens: self.max_tokens,
            temperature: self.temperature,
            tool_choice: self.tool_choice.deep_view(),
            default_max_turns: self.default_max_turns,
            tool_server_handle: self.tool_server_handle,
            hooks: self.hooks.deep_view(),
        }
    }
}

/// The text of an option, or a text in its place.
pub open spec fn or_else(text: Option<Seq<char>>, other: Seq<char>) -> Seq<char> {
    match text {
        Some(text) => text,
        None => other,
    }
}

/// What another agent is told of the tool that an agent becomes.
pub open spec fn agent_tool_description(
    name: Seq<char>,
    description: Seq<char>,
    preamble: Seq<char>,
) -> Seq<char> {
    "\n            Prompt a sub-agent to do a task for you.\n\n            Agent name: "@ + name
        + "\n            Agent description: "@ + description
        + "\n            Agent system prompt: "@ + preamble + "\n            "@
}

/// Whether `copy` is a copy of `original`: all is the same, but for the model, the tool
/// server and the hooks, which are clones.
pub open spec fn copied_agent<M: Clone, S: Clone, H: Clone>(
    original: AgentView<M, S, H>,
    copy: AgentView<M, S, H>,
) -> bool {
    &&& copy == (AgentView {
        model: copy.model,
        tool_server_handle: copy.tool_server_handle,
        hooks: copy.hooks,
        ..original
    })
    &&& cloned::<M>(original.model, copy.model)
    &&& cloned::<S>(original.tool_server_handle, copy.tool_server_handle)
    &&& copied_stack(original.hooks, copy.hooks)
}

impl<M: Clone, S: Clone, H: Clone> Clone for Agent<M, S, H> {
    fn clone(&self) -> (copy: Self)
        ensures
            copied_agent(self.deep_view(), copy.deep_view()),
            self.wf() ==> copy.wf(),
    {
        let static_context = self.static_context.clone();
        assert(deep(static_context@) =~= deep(self.static_context@));
        Agent {
            name: self.name.clone(),
            description: self.description.clone(),
            model: self.model.clone(),
            preamble: self.preamble.clone(),
            static_context,
            additional_params: self.additional_params.clone(),
            record_telemetry_content: self.record_telemetry_content,
            max_tokens: self.max_tokens,
            temperature: self.temperature,
            tool_choice: self.tool_choice.clone(),
            default_max_turns: self.default_max_turns,
            tool_server_handle: self.tool_server_handle.clone(),
            hooks: self.hooks.clone(),
        }
    }
}

impl<M, S, H> Agent<M, S, H> {
    /// What holds of every agent.
    pub open spec fn wf(&self) -> bool {
        self.hooks.wf()
    }

    /// The name.
    pub fn name(&self) -> (name: Option<&str>)
        ensures
            name.deep_view() == self.deep_view().name,
    {
        match &self.name {
            Some(name) => Some(name.as_str()),
            None => None,
        }
    }

    /// What the agent is for.
    pub fn description(&self) -> (description: Option<&str>)
        ensures
            description.deep_view() == self.deep_view().description,
    {
        match &self.description {
            Some(description) => Some(description.as_str()),
            None => None,
        }
    }

    /// The name, or what stands for a missing one.
    pub fn name_or_default(&self) -> (name: &str)
        ensures
            name@ == or_else(self.deep_view().name, unknown_agent_name()),
    {
        match &self.name {
            Some(name) => name.as_str(),
            None => "Unnamed Agent",
        }
    }

    /// The model.
    pub fn model_handle(&self) -> (model: &M)
        ensures
            *model == self.deep_view().model,
    {
        &self.model
    }

    /// Sets the model of later runs.
    pub fn set_model_handle(&mut self, model: M)
        requires
            old(self).wf(),
        ensures
            final(self).wf(),
            final(self).deep_view() == (AgentView { model, ..old(self).deep_view() }),
    {
        self.model = model;
    }

    /// The agent with another model.
    pub fn with_model_handle(self, model: M) -> (agent: Self)
        requires
            self.wf(),
        ensures
            agent.wf(),
            agent.deep_view() == (AgentView { model, ..self.deep_view() }),
    {
        let mut agent = self;
        agent.set_model_handle(model);
        agent
    }

    /// The tool that the agent becomes, as other agents are told of it. It takes
    /// arguments of the given schema.
    pub fn tool_definition(&self, parameters: Json) -> (tool: ToolDefinition)
        ensures
            ({
                let name = or_else(self.deep_view().name, default_agent_tool_name());
                tool.deep_view() == (ToolDefinitionView {
                    name,
                    description: agent_tool_description(
                        name,
                        or_else(self.deep_view().description, Seq::empty()),
                        or_else(self.deep_view().preamble, Seq::empty()),
                    ),
                    parameters: parameters.deep_view(),
                })
            }),
    {
        let name = match &self.name {
            Some(name) => name.clone(),
            None => "agent_tool".to_owned(),
        };
        let mut description = "\n            Prompt a sub-agent to do a task for you.\n\n            Agent name: ".to_owned();
        description.append(name.as_str());
        description.append("\n            Agent description: ");
        if let Some(text) = &self.description {
            description.append(text.as_str());
        }
        description.append("\n            Agent system prompt: ");
        if let Some(text) = &self.preamble {
            description.append(text.as_str());
        }
        description.append("\n            ");
        assert(description@ =~= agent_tool_description(
            name@,
            or_else(self.deep_view().description, Seq::empty()),
            or_else(self.deep_view().preamble, Seq::empty()),
        ));
        ToolDefinition { name, description, parameters }
    }
}

} // verus!
