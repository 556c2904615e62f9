//! Agents, how they are put together and how they are run.

use rig_agent::agent::{Agent, AgentBuilder, NoToolConfig};
use rig_agent::completion::{Document, PromptError, ToolChoice};
use rig_agent::json::Json;
use rig_agent::message::Message;
use rig_agent::params::{AdditionalParams, ParamMap};
use rig_agent::run::AgentRunStep;
use rig_agent::runner::AgentRunner;
use rig_agent::services::{
    InteractionOutcome, ModelPromptOk, ModelPromptRequest, ServiceUsage,
};
use rig_agent::stream_item::MultiTurnStreamItem;

#[derive(Clone, Debug, PartialEq)]
struct Model {
    label: Option<&'static str>,
    text: &'static str,
}

fn model(text: &'static str) -> Model {
    Model { label: None, text }
}

#[derive(Clone, Debug, PartialEq)]
struct BuilderHook;

fn builder(text: &'static str) -> AgentBuilder<Model, BuilderHook, NoToolConfig> {
    AgentBuilder::from_model_handle(model(text))
}

fn plain() -> Agent<Model, &'static str, BuilderHook> {
    builder("ok").build("empty")
}

fn params(name: &str, value: &str) -> ParamMap {
    ParamMap::new().with(name.to_string(), Json::parse(value).expect("json"))
}

#[test]
fn hook_can_be_set_after_tool_configuration() {
    let (rest, tools) = builder("ok")
        .tool::<&str, ()>("add")
        .add_hook(BuilderHook)
        .take_tools();
    let agent = rest.build(tools.tools);
    assert_eq!(agent.hooks.len(), 1);
    assert_eq!(agent.tool_server_handle, vec!["add"]);
}

#[test]
fn without_preamble_clears_a_configured_preamble() {
    let agent = builder("ok")
        .preamble("system prompt")
        .without_preamble()
        .build(());
    assert_eq!(agent.preamble, None);
}

#[test]
fn model_handle_set_and_with_model_replace_the_default() {
    let mut agent = builder("first").build(());
    assert!(
        agent.model_handle().label.is_none(),
        "an erased unnamed handle carries no label"
    );

    agent.set_model_handle(model("second"));
    assert_eq!(agent.model_handle().text, "second");
    let replaced = agent
        .with_model_handle(model("third"))
        .with_model_handle(Model {
            label: Some("named"),
            text: "fourth",
        });
    assert_eq!(replaced.model_handle().label, Some("named"));
}

#[test]
fn agent_exposes_read_only_name_and_description() {
    let named = builder("done")
        .name("researcher")
        .description("Finds evidence")
        .build(());
    assert_eq!(named.name(), Some("researcher"));
    assert_eq!(named.description(), Some("Finds evidence"));

    let unnamed = builder("done").build(());
    assert_eq!(unnamed.name(), None);
    assert_eq!(unnamed.description(), None);
    assert_eq!(unnamed.name_or_default(), "Unnamed Agent");
}

#[test]
fn builder_settings_reach_the_agent() {
    let agent = builder("ok")
        .append_preamble("one")
        .append_preamble("two")
        .context("a")
        .context("b")
        .tool_choice(ToolChoice::Required)
        .default_max_turns(3)
        .temperature(0.8f64.to_bits())
        .max_tokens(64)
        .additional_params(AdditionalParams::Object(params("seed", "1")))
        .record_content_telemetry(true)
        .tool_server_handle("shared")
        .build();
    assert_eq!(agent.preamble.as_deref(), Some("\none\ntwo"));
    let ids: Vec<&str> = agent
        .static_context
        .iter()
        .map(|document| document.id.as_str())
        .collect();
    assert_eq!(ids, ["static_doc_0", "static_doc_1"]);
    assert_eq!(agent.static_context[1].text, "b");
    assert_eq!(agent.tool_choice, Some(ToolChoice::Required));
    assert_eq!(agent.default_max_turns, Some(3));
    assert_eq!(agent.temperature, Some(0.8f64.to_bits()));
    assert_eq!(agent.max_tokens, Some(64));
    assert!(agent.record_telemetry_content);
    assert!(agent.runner(Message::user("go"), ()).record_telemetry_content);
    assert!(!plain().runner(Message::user("go"), ()).record_telemetry_content);
    assert_eq!(agent.tool_server_handle, "shared");
    let copy = agent.clone();
    assert_eq!(copy.static_context, agent.static_context);
    assert_eq!(copy.model_handle(), agent.model_handle());
}

#[test]
fn tools_are_taken_out_in_the_order_set_up() {
    let (_, tools) = builder("ok")
        .tool::<&str, &str>("add")
        .dynamic_tool("dyn_one")
        .dynamic_tools(vec!["dyn_two_a", "dyn_two_b"])
        .retrieved_tools(1, "index", vec!["found"])
        .take_tools();
    assert_eq!(tools.tools, ["add", "dyn_one", "dyn_two_a", "dyn_two_b"]);
    assert_eq!(tools.retrieval_indexes, [(1, "index")]);
    assert_eq!(tools.retrievable_tools, ["found"]);
    let (_, only_found) = builder("ok")
        .retrieved_tools::<&str, &str>(2, "index", vec!["found"])
        .take_tools();
    assert!(only_found.tools.is_empty());
    assert_eq!(only_found.retrieval_indexes, [(2, "index")]);
}

#[test]
fn an_agent_describes_itself_as_a_tool() {
    let agent = builder("ok")
        .name("researcher")
        .description("Finds evidence")
        .preamble("be brief")
        .build(());
    let tool = agent.tool_definition(Json::parse("{}").expect("json"));
    assert_eq!(tool.name, "researcher");
    assert_eq!(
        tool.description,
        "
            Prompt a sub-agent to do a task for you.

            Agent name: researcher
            Agent description: Finds evidence
            Agent system prompt: be brief
            "
    );
    let unnamed = builder("ok").build(()).tool_definition(Json::null());
    assert_eq!(unnamed.name, "agent_tool");
    assert!(unnamed.description.contains("Agent description: \n"));
}

#[test]
fn a_runner_starts_from_the_agent() {
    let agent = builder("ok")
        .name("n")
        .preamble("p")
        .default_max_turns(4)
        .add_hook(BuilderHook)
        .build("server");
    let runner = agent.runner(Message::user("go"), 7u8);
    assert_eq!(runner.max_turns, 4);
    assert_eq!(runner.concurrency, 1);
    assert_eq!(runner.preamble.as_deref(), Some("p"));
    assert_eq!(runner.tool_server_handle, "server");
    assert_eq!(runner.tool_context, 7);
    assert_eq!(runner.agent_name_or_default(), "n");
    let runner = runner.add_hook(BuilderHook);
    assert_eq!(runner.hooks.ids(), ["trait-0", "trait-1"]);
    assert_eq!(
        plain().runner(Message::user("go"), ()).agent_name_or_default(),
        "Unnamed Agent"
    );
}

#[test]
fn a_missing_budget_is_one_and_zero_is_zero() {
    assert_eq!(plain().runner(Message::user("go"), ()).max_turns, 1);
    let zero = builder("ok").default_max_turns(0).build(());
    assert_eq!(zero.runner(Message::user("go"), ()).max_turns, 0);
}

#[test]
fn per_run_settings_override_the_agent() {
    let agent = builder("ok")
        .preamble("baseline preamble")
        .context("baseline document")
        .max_tokens(10)
        .additional_params(AdditionalParams::Object(params("a", "1")))
        .build(());
    let document = Document {
        id: "extra".to_string(),
        text: "extra document".to_string(),
        additional_props: Vec::new(),
    };
    let runner = agent
        .runner(Message::user("go"), ())
        .preamble("run preamble")
        .document(document.clone())
        .documents(vec![document])
        .temperature(0.9f64.to_bits())
        .max_tokens(20)
        .merge_additional_params(params("b", "2"))
        .tool_choice(ToolChoice::NoTool)
        .tool_concurrency(0)
        .using_model(model("other"))
        .tool_context(());
    assert_eq!(runner.preamble.as_deref(), Some("run preamble"));
    assert_eq!(runner.static_context.len(), 3);
    assert_eq!(runner.temperature, Some(0.9f64.to_bits()));
    assert_eq!(runner.max_tokens, Some(20));
    assert_eq!(runner.tool_choice, Some(ToolChoice::NoTool));
    assert_eq!(runner.concurrency, 1);
    assert_eq!(runner.model.text, "other");
    let Some(AdditionalParams::Object(map)) = &runner.additional_params else {
        panic!("object");
    };
    assert!(map.get("a").is_some());
    assert!(map.get("b").is_some());
    let cleared = runner
        .without_preamble()
        .without_temperature()
        .without_max_tokens()
        .replace_additional_params(AdditionalParams::Other(Json::null()))
        .without_additional_params()
        .without_tool_choice();
    assert_eq!(cleared.preamble, None);
    assert_eq!(cleared.temperature, None);
    assert_eq!(cleared.max_tokens, None);
    assert_eq!(cleared.additional_params, None);
    assert_eq!(cleared.tool_choice, None);
}

#[test]
fn a_prompt_follows_its_history() {
    let runner = plain()
        .runner(Message::user("now"), ())
        .history(vec![Message::user("before")]);
    let history = runner.build_run().expect("history");
    assert_eq!(history, vec![Message::user("before"), Message::user("now")]);
    let conversation =
        AgentRunner::from_agent_conversation(&plain(), history.clone(), ());
    assert_eq!(conversation.build_run().expect("history"), history);
}

#[test]
fn a_run_needs_a_budget_and_a_message() {
    let no_budget = plain().runner(Message::user("go"), ()).max_turns(0);
    assert_eq!(
        no_budget.build_run(),
        Err(PromptError::PromptCancelled {
            chat_history: Vec::new(),
            reason: "max_turns must be at least 1 — a run always executes one turn".to_string(),
        })
    );
    let empty = AgentRunner::from_agent_conversation(&plain(), Vec::new(), ());
    assert_eq!(
        empty.build_run(),
        Err(PromptError::PromptCancelled {
            chat_history: Vec::new(),
            reason:
                "empty conversation: stream_chat history must end with the message being sent"
                    .to_string(),
        })
    );
    let cell = plain().runner_over(Vec::new(), ());
    assert_eq!(cell.build_run(), Ok(Vec::new()));
    assert!(cell.start().is_err());
}

#[test]
fn a_started_run_has_the_budget_of_its_runner() {
    let runner = plain().runner(Message::user("go"), ()).max_turns(2);
    let mut run = runner.start().expect("run");
    let Ok(AgentRunStep::CallModel { history, turn }) = run.next_step() else {
        panic!("model call");
    };
    assert_eq!(history, vec![Message::user("go")]);
    assert_eq!(turn, 1);
}

#[test]
fn what_is_queued_opens_a_conversation_that_is_kept_elsewhere() {
    let queued = || vec![("u1".to_string(), Message::user("go on"))];
    let announced = vec![MultiTurnStreamItem::Steer {
        batch: vec![("u1".to_string(), "go on".to_string())],
    }];

    let (items, run) = plain().runner_over(Vec::new(), ()).converge(queued());
    assert_eq!(items, announced);
    assert_eq!(run.expect("run").messages(), &[Message::user("go on")]);

    let kept = vec![Message::user("hi"), Message::assistant("hello")];
    let (items, run) = plain().runner_over(kept, ()).converge(queued());
    assert_eq!(items, announced);
    let mut run = run.expect("run");
    let Ok(AgentRunStep::CallModel { history, .. }) = run.next_step() else {
        panic!("model call");
    };
    assert_eq!(
        history,
        vec![
            Message::user("hi"),
            Message::assistant("hello"),
            Message::user("go on"),
        ]
    );

    let (items, run) = plain().runner_over(Vec::new(), ()).converge(Vec::new());
    assert!(items.is_empty());
    assert!(run.is_err());
    let (items, run) = plain()
        .runner_over(Vec::new(), ())
        .max_turns(0)
        .converge(queued());
    assert!(items.is_empty());
    assert!(run.is_err());
}

#[test]
fn services_are_plain_data() {
    assert_eq!(
        ServiceUsage::default(),
        ServiceUsage {
            input_tokens: 0,
            output_tokens: 0,
            total_tokens: 0
        }
    );
    let request = ModelPromptRequest {
        prompt: "p".to_string(),
        model: None,
        max_tokens: Some(5),
    };
    assert_eq!(request.clone(), request);
    let done = ModelPromptOk {
        text: "t".to_string(),
        usage: ServiceUsage::default(),
    };
    assert_eq!(done.clone(), done);
    assert_ne!(
        InteractionOutcome::Answered(Json::null()),
        InteractionOutcome::Dismissed
    );
}
