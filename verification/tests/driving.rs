//! The loop around a run.

use std::cell::RefCell;

use rig_agent::agent::AgentBuilder;
use rig_agent::completion::{CompletionError, PromptError};
use rig_agent::drive::{commit_tool_batch, SteeringSource};
use rig_agent::driver::{last_response, AgentDriver, DriveStep};
use rig_agent::json::Json;
use rig_agent::message::{AssistantContent, Message, ToolCall, ToolFunction};
use rig_agent::names::ToolNames;
use rig_agent::one_or_many::OneOrMany;
use rig_agent::prompt_response::PromptResponse;
use rig_agent::run::AgentRun;
use rig_agent::stream_item::{MultiTurnStreamItem, StreamingError};
use rig_agent::tool::{ExecutionResult, ToolOutput};
use rig_agent::tool_batch::{prepare_tool_calls, ToolBatch};
use rig_agent::tool_run::{settle_tool_call, ToolExecution};
use rig_agent::hook::ToolResultAction;
use rig_agent::turn::ModelTurn;
use rig_agent::usage::Usage;

struct Queue {
    messages: RefCell<Vec<(String, Message)>>,
    discarded: RefCell<bool>,
}

impl Queue {
    fn with(texts: &[&str]) -> Self {
        Queue {
            messages: RefCell::new(
                texts
                    .iter()
                    .map(|text| (format!("id-{text}"), Message::user(text)))
                    .collect(),
            ),
            discarded: RefCell::new(false),
        }
    }
}

impl SteeringSource for Queue {
    fn drain(&self) -> Vec<(String, Message)> {
        self.messages.borrow_mut().drain(..).collect()
    }

    fn discard_pending(&self) {
        self.messages.borrow_mut().clear();
        *self.discarded.borrow_mut() = true;
    }
}

fn tools(names: &[&str]) -> ToolNames {
    ToolNames::from_names(names.iter().map(|name| name.to_string()).collect())
}

fn text_turn(text: &str) -> ModelTurn {
    ModelTurn::new(
        None,
        OneOrMany::one(AssistantContent::text(text.to_string())),
        Usage::new(),
        None,
        tools(&[]),
        tools(&[]),
    )
}

fn call_turn(ids: &[&str]) -> ModelTurn {
    let calls = ids
        .iter()
        .map(|id| {
            AssistantContent::ToolCall(ToolCall::new(
                id.to_string(),
                ToolFunction::new("add".to_string(), Json::parse("{}").expect("json")),
            ))
        })
        .collect();
    ModelTurn::new(
        None,
        OneOrMany::many(calls).expect("non-empty"),
        Usage::new(),
        None,
        tools(&["add"]),
        tools(&["add"]),
    )
}

fn driver(budget: usize) -> AgentDriver<&'static str> {
    AgentDriver::new(AgentRun::new(vec![Message::user("go")]).max_turns(budget))
}

fn defect() -> StreamingError {
    StreamingError::Completion(CompletionError::MalformedToolCall {
        tool: "add".to_string(),
        reason: "cut".to_string(),
    })
}

#[test]
fn tools_run_against_what_the_turn_was_offered() {
    let mut driver = driver(2);
    assert!(matches!(driver.next_step(), DriveStep::CallModel { .. }));
    driver
        .turn_completed(call_turn(&["c1"]), "generation one")
        .expect("commit");
    let DriveStep::CallTools { calls, tools } = driver.next_step() else {
        panic!("tools");
    };
    assert_eq!(calls.len(), 1);
    assert_eq!(tools, "generation one");
}

#[test]
fn tools_without_an_offer_fail_the_run() {
    let mut driver = driver(2);
    let _ = driver.next_step();
    driver.run.turn_committed(call_turn(&["c1"])).expect("commit");
    assert!(matches!(
        driver.next_step(),
        DriveStep::Failed(StreamingError::Completion(CompletionError::ResponseError(message)))
            if message == "agent requested tool execution without a prepared registry snapshot"
    ));
}

#[test]
fn a_terminal_provider_error_comes_out_as_it_went_in() {
    let mut driver = driver(2);
    let _ = driver.next_step();
    let error = CompletionError::from_http_response(401, "denied");
    let (item, fed) = driver.turn_failed(
        StreamingError::Completion(CompletionError::from_http_response(401, "denied")),
        1,
    );
    assert!(item.is_none());
    assert!(fed.is_ok());
    assert!(matches!(driver.next_step(), DriveStep::DrainSteers));
    let (items, decided) = driver.drain_steering(None::<&Queue>);
    assert!(items.is_empty());
    assert_eq!(decided, Err(StreamingError::Completion(error)));
}

#[test]
fn a_request_that_cannot_be_prepared_fails_the_run() {
    let mut driver = driver(2);
    let _ = driver.next_step();
    driver
        .preparation_failed(CompletionError::RequestError("bad attachment".to_string()))
        .expect("fed");
    let (_, decided) = driver.drain_steering(None::<&Queue>);
    assert_eq!(
        decided,
        Err(StreamingError::Completion(CompletionError::RequestError(
            "bad attachment".to_string()
        )))
    );
}

#[test]
fn a_defect_announces_the_retry_and_takes_the_queue_along() {
    let mut driver = driver(2);
    let _ = driver.next_step();
    let (item, fed) = driver.turn_failed(defect(), 1);
    assert_eq!(item, Some(MultiTurnStreamItem::ModelTurnRetried { turn: 1 }));
    assert!(fed.is_ok());
    let queue = Queue::with(&["wait"]);
    let (items, decided) = driver.drain_steering(Some(&queue));
    assert!(decided.is_ok());
    assert_eq!(
        items,
        vec![MultiTurnStreamItem::Steer {
            batch: vec![("id-wait".to_string(), "wait".to_string())]
        }]
    );
    let DriveStep::CallModel { history, turn } = driver.next_step() else {
        panic!("retry");
    };
    assert_eq!(turn, 1);
    assert_eq!(history, vec![Message::user("go"), Message::user("wait")]);
}

#[test]
fn two_defects_in_a_row_end_the_run() {
    let mut driver = driver(2);
    for round in 0..2 {
        assert!(matches!(driver.next_step(), DriveStep::CallModel { .. }));
        let _ = driver.turn_failed(defect(), 1);
        let (_, decided) = driver.drain_steering(None::<&Queue>);
        assert_eq!(decided.is_ok(), round == 0);
    }
    assert!(matches!(driver.next_step(), DriveStep::Failed(_)));
}

#[test]
fn a_message_behind_the_final_turn_stays_queued() {
    let mut driver = driver(2);
    let _ = driver.next_step();
    driver.turn_completed(text_turn("done"), "none").expect("commit");
    let queue = Queue::with(&["late"]);
    let (items, decided) = driver.drain_steering(Some(&queue));
    assert!(items.is_empty());
    assert!(decided.is_ok());
    assert!(matches!(
        driver.next_step(),
        DriveStep::Done(response) if response.output == "done"
    ));
    assert_eq!(queue.messages.borrow().len(), 1);
    assert!(!*queue.discarded.borrow());
}

#[test]
fn a_stopped_run_discards_what_is_queued() {
    let mut driver = driver(2);
    let _ = driver.next_step();
    let announced = driver.turn_announced("turn-1".to_string());
    assert_eq!(
        announced,
        MultiTurnStreamItem::TurnStarted {
            id: "turn-1".to_string()
        }
    );
    driver
        .turn_completed(call_turn(&["c1", "c2"]), "tools")
        .expect("commit");
    let DriveStep::CallTools { calls, .. } = driver.next_step() else {
        panic!("tools");
    };
    let (prepared, announced) =
        prepare_tool_calls(calls, vec!["f1".to_string(), "f2".to_string()], true);
    assert_eq!(announced.len(), 2);
    let mut batch = ToolBatch::new(2);
    // The second call is the first to end; both results say stop.
    for (index, reason) in [(1usize, "second"), (0usize, "first")] {
        let call = &prepared[index];
        let outcome = settle_tool_call(
            &call.tool_call,
            &ExecutionResult::success(ToolOutput::text(reason.to_string())),
            ToolExecution::Executed(Box::new(call.tool_call.clone())),
            ToolResultAction::stop(reason),
        );
        batch.record_outcome(index, call.internal_call_id.clone(), outcome);
    }
    let items = driver.tools_settled(batch, true).expect("settles");
    assert_eq!(items.len(), 5);
    assert!(matches!(
        &items[0],
        MultiTurnStreamItem::ToolExecutionCommitted { tool_call, internal_call_id }
            if tool_call.id == "c1" && internal_call_id == "f1"
    ));
    assert_eq!(
        items[4],
        MultiTurnStreamItem::RoundtripClosed {
            turn_id: "turn-1".to_string()
        }
    );
    let queue = Queue::with(&["too late"]);
    let (_, decided) = driver.drain_steering(Some(&queue));
    let Err(StreamingError::Prompt(error)) = decided else {
        panic!("stopped");
    };
    let PromptError::PromptCancelled {
        chat_history,
        reason,
    } = *error
    else {
        panic!("cancelled");
    };
    assert_eq!(reason, "first");
    assert_eq!(chat_history.len(), 3);
    assert!(queue.messages.borrow().is_empty());
    assert!(*queue.discarded.borrow());
}

#[test]
fn tools_that_fail_as_a_whole_fail_the_run() {
    let mut driver = driver(2);
    let _ = driver.next_step();
    driver.turn_completed(call_turn(&["c1"]), "tools").expect("commit");
    let _ = driver.next_step();
    let mut other = AgentRun::new(vec![Message::user("go")]);
    let missing = commit_tool_batch(&mut other, ToolBatch::new(1), true, None)
        .expect_err("a result is missing");
    driver.tools_failed(missing).expect("fed");
    let (_, decided) = driver.drain_steering(None::<&Queue>);
    assert_eq!(
        decided,
        Err(StreamingError::Completion(CompletionError::ResponseError(
            "tool execution finished without producing every result".to_string()
        )))
    );
}

#[test]
fn results_that_nothing_waits_for_are_refused() {
    let mut run = AgentRun::new(vec![Message::user("go")]);
    let refused = commit_tool_batch(&mut run, ToolBatch::new(0), false, None);
    assert!(matches!(refused, Err(StreamingError::Prompt(_))));
    assert_eq!(run.messages().len(), 1);
}

#[test]
fn a_stream_without_a_response_is_an_error() {
    assert_eq!(
        last_response(Some(PromptResponse::empty())),
        Ok(PromptResponse::empty())
    );
    let error = last_response(None).expect_err("no response");
    assert!(error.to_text().contains("without yielding a final response"));
}

#[test]
fn a_whole_run_of_an_agent() {
    let agent = AgentBuilder::<&str, (), _>::from_model_handle("model")
        .default_max_turns(2)
        .build("server");
    let run = agent
        .runner(Message::user("What is 1 + 2?"), ())
        .start()
        .expect("run");
    let mut driver = AgentDriver::new(run);
    let mut turns = vec![text_turn("three"), call_turn(&["c1"])];
    let response = loop {
        match driver.next_step() {
            DriveStep::CallModel { .. } => {
                driver
                    .turn_completed(turns.pop().expect("turn"), "offer")
                    .expect("commit");
            }
            DriveStep::CallTools { calls, tools } => {
                assert_eq!(tools, "offer");
                let (prepared, _) = prepare_tool_calls(calls, vec!["f".to_string()], false);
                let mut batch = ToolBatch::new(1);
                let outcome = settle_tool_call(
                    &prepared[0].tool_call,
                    &ExecutionResult::success(ToolOutput::text("3".to_string())),
                    ToolExecution::Executed(Box::new(prepared[0].tool_call.clone())),
                    ToolResultAction::keep(),
                );
                batch.record_outcome(0, prepared[0].internal_call_id.clone(), outcome);
                let items = driver.tools_settled(batch, false).expect("settles");
                assert!(items.is_empty());
            }
            DriveStep::DrainSteers => {
                driver.drain_steering(None::<&Queue>).1.expect("goes on");
            }
            DriveStep::Done(response) => break *response,
            DriveStep::Failed(error) => panic!("failed: {error:?}"),
        }
    };
    assert_eq!(response.output(), "three");
    assert_eq!(response.requests(), 2);
    assert_eq!(driver.run.messages().len(), 4);
}

#[test]
fn a_turn_stands_in_the_history_under_its_announced_id() {
    for provider_id in [None, Some("msg_abc".to_string())] {
        let mut driver = driver(1);
        let _ = driver.next_step();
        let mut turn = text_turn("reply");
        turn.message_id = provider_id;
        driver.turn_announced("turn-1".to_string());
        let item = driver.turn_completed(turn, "none").expect("commit");
        assert!(matches!(
            item,
            Some(MultiTurnStreamItem::TurnCommitted { id, .. }) if id == "turn-1"
        ));
        assert!(matches!(
            driver.run.messages().last(),
            Some(Message::Assistant { id: Some(id), .. }) if id == "turn-1"
        ));
    }
}

#[test]
fn a_turn_that_is_tried_again_gets_another_id() {
    let mut driver = driver(1);
    let _ = driver.next_step();
    driver.turn_announced("attempt-0".to_string());
    let _ = driver.turn_failed(defect(), 1);
    let _ = driver.drain_steering(None::<&Queue>);
    let _ = driver.next_step();
    assert_eq!(driver.turn_id, None);
    driver.turn_announced("attempt-1".to_string());
    driver.turn_completed(text_turn("done"), "none").expect("commit");
    assert!(matches!(
        driver.run.messages(),
        [Message::User { .. }, Message::Assistant { id: Some(id), .. }] if id == "attempt-1"
    ));
}

#[test]
fn a_turn_outside_a_model_call_is_refused() {
    let mut driver = driver(1);
    assert!(driver.turn_completed(text_turn("early"), "none").is_err());
    assert_eq!(driver.offered, None);
    assert_eq!(driver.run.messages().len(), 1);
}

#[test]
fn nobody_listening_changes_nothing_but_the_items() {
    let mut outcomes = Vec::new();
    for forward in [true, false] {
        let mut driver = driver(2);
        let _ = driver.next_step();
        driver.turn_completed(call_turn(&["c1"]), "tools").expect("commit");
        let DriveStep::CallTools { calls, .. } = driver.next_step() else {
            panic!("tools");
        };
        let (prepared, _) = prepare_tool_calls(calls, vec!["f".to_string()], forward);
        let mut batch = ToolBatch::new(1);
        let outcome = settle_tool_call(
            &prepared[0].tool_call,
            &ExecutionResult::success(ToolOutput::text("3".to_string())),
            ToolExecution::Executed(Box::new(prepared[0].tool_call.clone())),
            ToolResultAction::keep(),
        );
        batch.record_outcome(0, "f".to_string(), outcome);
        let items = driver.tools_settled(batch, forward).expect("settles");
        assert_eq!(items.is_empty(), !forward);
        outcomes.push(driver.run.messages().to_vec());
    }
    assert_eq!(outcomes[0], outcomes[1]);
}
