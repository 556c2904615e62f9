//! The machine of a run: entry, admission of tool calls, the one drain point, the
//! decision.

use rig_agent::completion::{CompletionError, FinishReason, PromptError};
use rig_agent::json::Json;
use rig_agent::message::{
    AssistantContent, Message, ToolCall, ToolFunction, ToolResultContent, UserContent,
};
use rig_agent::names::ToolNames;
use rig_agent::one_or_many::OneOrMany;
use rig_agent::prompt_response::tool_result_message;
use rig_agent::run::{AgentRun, AgentRunStep, ProviderErrorClass, RetryRequest};
use rig_agent::turn::ModelTurn;
use rig_agent::usage::Usage;

fn tools(names: &[&str]) -> ToolNames {
    ToolNames::from_names(names.iter().map(|name| name.to_string()).collect())
}

fn text_turn(text: &str) -> ModelTurn {
    ModelTurn::new(
        Some("msg_1".to_string()),
        OneOrMany::one(AssistantContent::text(text.to_string())),
        Usage::new(),
        None,
        tools(&[]),
        tools(&[]),
    )
}

fn tool_turn(name: &str, executable: &[&str]) -> ModelTurn {
    let call = AssistantContent::ToolCall(ToolCall::new(
        "call_1".to_string(),
        ToolFunction::new(name.to_string(), Json::parse("{}").expect("json")),
    ));
    ModelTurn::new(
        Some("msg_1".to_string()),
        OneOrMany::one(call),
        Usage::new(),
        None,
        tools(executable),
        tools(executable),
    )
}

fn user(text: &str) -> Message {
    Message::user(text)
}

fn drain(run: &mut AgentRun) -> Result<(), PromptError> {
    run.steered(Vec::new())
}

fn user_texts(messages: &[Message]) -> Vec<String> {
    messages
        .iter()
        .filter_map(|message| message.user_text())
        .collect()
}

#[test]
fn call_model_carries_the_whole_history() {
    let mut run = AgentRun::new(vec![user("first"), user("second"), user("third")]);
    let AgentRunStep::CallModel { history, turn } = run.next_step().expect("step") else {
        panic!("entry issues a model call");
    };
    assert_eq!(turn, 1);
    let texts: Vec<String> = history
        .iter()
        .filter_map(|message| message.user_text())
        .collect();
    assert_eq!(texts, ["first", "second", "third"]);
}

#[test]
fn final_turn_commits_and_done_on_silent_queue() {
    let mut run = AgentRun::new(vec![user("go")]);
    assert!(matches!(
        run.next_step(),
        Ok(AgentRunStep::CallModel { .. })
    ));
    run.turn_committed(text_turn("hello")).expect("commit");
    assert!(matches!(run.next_step(), Ok(AgentRunStep::DrainSteers)));
    drain(&mut run).expect("decide");
    let AgentRunStep::Done(response) = run.next_step().expect("step") else {
        panic!("silent queue finalizes");
    };
    assert_eq!(response.output, "hello");
    assert_eq!(run.messages().len(), 2, "prompt + assistant");
}

#[test]
fn tool_turn_admits_executes_and_loops() {
    let mut run = AgentRun::new(vec![user("go")]).max_turns(2);
    assert!(matches!(
        run.next_step(),
        Ok(AgentRunStep::CallModel { .. })
    ));
    run.turn_committed(tool_turn("add", &["add", "sub"]))
        .expect("commit");
    let AgentRunStep::CallTools { calls } = run.next_step().expect("step") else {
        panic!("tools are issued");
    };
    assert_eq!(calls.len(), 1);
    assert!(calls[0].preresolved_result.is_none(), "known tool admitted");

    let result = tool_result_message("call_1".to_string(), None, "3".to_string());
    run.tool_results(vec![result]).expect("results");
    assert!(matches!(run.next_step(), Ok(AgentRunStep::DrainSteers)));
    drain(&mut run).expect("decide");
    assert!(matches!(
        run.next_step(),
        Ok(AgentRunStep::CallModel { .. })
    ));
    assert_eq!(run.messages().len(), 3, "prompt + assistant + results");
}

#[test]
fn unknown_tool_name_gets_an_inband_synthetic_result() {
    let mut run = AgentRun::new(vec![user("go")]);
    assert!(matches!(
        run.next_step(),
        Ok(AgentRunStep::CallModel { .. })
    ));
    run.turn_committed(tool_turn("nonexistent", &["add", "sub"]))
        .expect("commit");
    let AgentRunStep::CallTools { calls } = run.next_step().expect("step") else {
        panic!("tools are issued");
    };
    let preresolved = calls[0].preresolved_result.as_ref().expect("synthetic");
    let UserContent::ToolResult(tool_result) = preresolved else {
        panic!("the synthetic result is a tool result");
    };
    let rendered = format!("{:?}", tool_result.content);
    assert!(
        rendered.contains("unknown or disallowed tool `nonexistent`"),
        "the model is told: {rendered}"
    );
    assert!(
        rendered.contains("add, sub"),
        "the model sees what exists: {rendered}"
    );
    let Message::Assistant { content, .. } = run.messages().last().expect("committed") else {
        panic!("assistant turn committed");
    };
    assert!(matches!(
        content.first(),
        AssistantContent::ToolCall(call) if call.function.name == "nonexistent"
    ));
}

#[test]
fn broken_turn_discards_retries_and_exhausts() {
    let mut run = AgentRun::new(vec![user("go")]).max_turns(1);
    assert!(matches!(
        run.next_step(),
        Ok(AgentRunStep::CallModel { .. })
    ));
    run.broken("`lookup`: truncated".to_string()).expect("feed");
    assert!(matches!(run.next_step(), Ok(AgentRunStep::DrainSteers)));
    drain(&mut run).expect("retry within cap");
    let AgentRunStep::CallModel { turn, history } = run.next_step().expect("step") else {
        panic!("retry issues a model call");
    };
    assert_eq!(turn, 1, "discarded attempts do not consume the budget");
    assert_eq!(history.len(), 1, "the defective turn never entered history");

    run.broken("`lookup`: truncated again".to_string())
        .expect("feed");
    assert!(matches!(run.next_step(), Ok(AgentRunStep::DrainSteers)));
    let err = drain(&mut run).expect_err("second consecutive defect exhausts");
    assert!(
        err.to_text()
            .contains("repeatedly emitted tool calls with malformed arguments"),
        "got: {err:?}"
    );
}

#[test]
fn a_drained_steer_resets_the_defect_streak() {
    let mut run = AgentRun::new(vec![user("go")]);
    assert!(matches!(
        run.next_step(),
        Ok(AgentRunStep::CallModel { .. })
    ));
    run.broken("d1".to_string()).expect("feed");
    assert!(matches!(run.next_step(), Ok(AgentRunStep::DrainSteers)));
    run.steered(vec![user("wait, use python")])
        .expect("reset + retry");
    let AgentRunStep::CallModel { history, .. } = run.next_step().expect("step") else {
        panic!("steered retry issues a model call");
    };
    let texts: Vec<String> = history
        .iter()
        .filter_map(|message| message.user_text())
        .collect();
    assert_eq!(texts, ["go", "wait, use python"]);
}

#[test]
fn a_steer_after_the_final_turn_reopens_the_run() {
    let mut run = AgentRun::new(vec![user("go")]).max_turns(2);
    assert!(matches!(
        run.next_step(),
        Ok(AgentRunStep::CallModel { .. })
    ));
    run.turn_committed(text_turn("first answer"))
        .expect("commit");
    assert!(matches!(run.next_step(), Ok(AgentRunStep::DrainSteers)));
    run.steered(vec![user("and then?")]).expect("reopen");
    assert!(matches!(
        run.next_step(),
        Ok(AgentRunStep::CallModel { .. })
    ));
    assert_eq!(
        run.messages().len(),
        3,
        "prompt + committed final turn + steer"
    );
}

#[test]
fn budget_fails_the_loop_not_the_first_turn() {
    let mut run = AgentRun::new(vec![user("go")]).max_turns(1);
    assert!(matches!(
        run.next_step(),
        Ok(AgentRunStep::CallModel { .. })
    ));
    run.turn_committed(tool_turn("add", &["add"]))
        .expect("commit");
    assert!(matches!(
        run.next_step(),
        Ok(AgentRunStep::CallTools { .. })
    ));
    let result = tool_result_message("call_1".to_string(), None, "3".to_string());
    run.tool_results(vec![result]).expect("results");
    assert!(matches!(run.next_step(), Ok(AgentRunStep::DrainSteers)));
    let err = drain(&mut run).expect_err("no budget for another turn");
    assert!(
        matches!(err, PromptError::MaxTurnsError { .. }),
        "got: {err:?}"
    );
}

#[test]
fn terminate_drains_then_fails() {
    let mut run = AgentRun::new(vec![user("go")]);
    assert!(matches!(
        run.next_step(),
        Ok(AgentRunStep::CallModel { .. })
    ));
    run.terminate("policy stop").expect("feed");
    assert!(matches!(run.next_step(), Ok(AgentRunStep::DrainSteers)));
    run.steered(vec![user("one last thing")])
        .expect_err("terminating exits at the decision");
    assert_eq!(
        run.messages().len(),
        2,
        "the steer landed in history before the exit"
    );
}

#[test]
fn provider_errors_drain_then_retry_or_fail() {
    // Terminal: drains, fails with the original error.
    let mut run = AgentRun::new(vec![user("go")]);
    assert!(matches!(
        run.next_step(),
        Ok(AgentRunStep::CallModel { .. })
    ));
    let original = PromptError::prompt_cancelled(Vec::new(), "auth rejected");
    run.provider_error(ProviderErrorClass::Terminal, original)
        .expect("feed");
    assert!(matches!(run.next_step(), Ok(AgentRunStep::DrainSteers)));
    let err = drain(&mut run).expect_err("terminal fails");
    assert!(err.to_text().contains("auth rejected"), "got: {err:?}");

    // Retryable: retries once, then fails naming the persistence.
    let mut run = AgentRun::new(vec![user("go")]).max_turns(5);
    assert!(matches!(
        run.next_step(),
        Ok(AgentRunStep::CallModel { .. })
    ));
    let original = PromptError::prompt_cancelled(Vec::new(), "rate limit hit");
    run.provider_error(ProviderErrorClass::Retryable, original)
        .expect("feed");
    assert!(matches!(run.next_step(), Ok(AgentRunStep::DrainSteers)));
    drain(&mut run).expect("retryable retries");
    assert!(matches!(
        run.next_step(),
        Ok(AgentRunStep::CallModel { .. })
    ));

    let original = PromptError::prompt_cancelled(Vec::new(), "rate limit hit again");
    run.provider_error(ProviderErrorClass::Retryable, original)
        .expect("feed");
    assert!(matches!(run.next_step(), Ok(AgentRunStep::DrainSteers)));
    let err = drain(&mut run).expect_err("second consecutive retryable fails");
    assert!(
        err.to_text().contains("rate limit hit again"),
        "got: {err:?}"
    );
}

#[test]
fn reject_final_turn_repeat_and_feedback() {
    let mut run = AgentRun::new(vec![user("go")]).max_turns(3);
    assert!(matches!(
        run.next_step(),
        Ok(AgentRunStep::CallModel { .. })
    ));
    run.turn_committed(text_turn("weak")).expect("commit");
    run.reject_final_turn(RetryRequest::Repeat).expect("reject");
    assert!(matches!(run.next_step(), Ok(AgentRunStep::DrainSteers)));
    drain(&mut run).expect("rejection loops");
    assert!(matches!(
        run.next_step(),
        Ok(AgentRunStep::CallModel { .. })
    ));
    assert_eq!(run.messages().len(), 1, "the rejected turn was dropped");

    run.turn_committed(text_turn("still weak")).expect("commit");
    run.reject_final_turn(RetryRequest::Feedback("be more specific".to_string()))
        .expect("reject");
    assert!(matches!(run.next_step(), Ok(AgentRunStep::DrainSteers)));
    drain(&mut run).expect("rejection loops");
    let texts: Vec<String> = run
        .messages()
        .iter()
        .filter_map(|message| message.user_text())
        .collect();
    assert_eq!(texts, ["go", "be more specific"]);
    assert_eq!(run.messages().len(), 3, "prompt + kept turn + feedback");
}

#[test]
fn steering_outside_the_drain_is_a_protocol_violation() {
    let mut run = AgentRun::new(vec![user("go")]);
    assert!(matches!(
        run.next_step(),
        Ok(AgentRunStep::CallModel { .. })
    ));
    let err = run
        .steered(vec![user("too early")])
        .expect_err("only the drain accepts steers");
    assert!(
        err.to_text().contains("outside the drain point"),
        "got: {err:?}"
    );
}

#[test]
fn usage_records_on_commit() {
    let mut run = AgentRun::new(vec![user("go")]);
    assert!(matches!(
        run.next_step(),
        Ok(AgentRunStep::CallModel { .. })
    ));
    let mut usage = Usage::new();
    usage.total_tokens = 7;
    run.turn_committed(ModelTurn::new(
        None,
        OneOrMany::one(AssistantContent::text("done".to_string())),
        usage,
        None,
        tools(&[]),
        tools(&[]),
    ))
    .expect("commit");
    assert_eq!(run.usage().total_tokens, 7);
    assert_eq!(run.completion_calls().len(), 1);
}

#[test]
fn a_call_that_was_recorded_mid_stream_is_not_recorded_again() {
    let mut run = AgentRun::new(vec![user("go")]);
    assert!(run
        .record_completion_call(Usage::new(), None)
        .is_none());
    let _ = run.next_step();
    let mut usage = Usage::new();
    usage.total_tokens = 5;
    let call = run
        .record_completion_call(usage, Some(FinishReason::Length))
        .expect("recorded");
    assert_eq!(call.call_index, 0);
    assert_eq!(call.finish_reason, Some(FinishReason::Length));
    assert!(run.record_completion_call(usage, None).is_none());
    run.turn_committed(text_turn("done")).expect("commit");
    assert_eq!(run.completion_calls().len(), 1);
    assert_eq!(run.usage().total_tokens, 5);
}

#[test]
fn a_discarded_attempt_keeps_its_tokens() {
    let mut run = AgentRun::new(vec![user("go")]);
    let _ = run.next_step();
    let mut usage = Usage::new();
    usage.total_tokens = 4;
    assert!(run.record_completion_call(usage, None).is_some());
    run.broken("cut".to_string()).expect("feed");
    drain(&mut run).expect("retry");
    let _ = run.next_step();
    run.turn_committed(text_turn("done")).expect("commit");
    drain(&mut run).expect("decide");
    let Ok(AgentRunStep::Done(response)) = run.next_step() else {
        panic!("done");
    };
    assert_eq!(response.requests(), 2);
    assert_eq!(response.usage().total_tokens, 4);
}

#[test]
fn commits_clear_the_defect_streak() {
    let mut run = AgentRun::new(vec![user("go")]).max_turns(5);
    for _ in 0..3 {
        assert!(matches!(
            run.next_step(),
            Ok(AgentRunStep::CallModel { .. })
        ));
        run.broken("d".to_string()).expect("feed");
        drain(&mut run).expect("one defect is tried again");
        assert!(matches!(
            run.next_step(),
            Ok(AgentRunStep::CallModel { .. })
        ));
        run.turn_committed(tool_turn("add", &["add"])).expect("commit");
        assert!(matches!(
            run.next_step(),
            Ok(AgentRunStep::CallTools { .. })
        ));
        run.tool_results(vec![tool_result_message(
            "call_1".to_string(),
            None,
            "3".to_string(),
        )])
        .expect("results");
        drain(&mut run).expect("loop");
    }
}

#[test]
fn the_first_stop_reason_stands() {
    let mut run = AgentRun::new(vec![user("go")]);
    let _ = run.next_step();
    run.terminate("first").expect("feed");
    run.terminate("second").expect("feed");
    let err = drain(&mut run).expect_err("stopped");
    assert_eq!(err.to_text(), "PromptCancelled: first");
    assert!(run.terminate("third").is_err());
}

#[test]
fn max_turns_error_names_the_budget_and_the_prompt() {
    let mut run = AgentRun::new(vec![user("go")]);
    let _ = run.next_step();
    run.turn_committed(tool_turn("add", &["add"])).expect("commit");
    let _ = run.next_step();
    run.tool_results(vec![tool_result_message(
        "call_1".to_string(),
        None,
        "3".to_string(),
    )])
    .expect("results");
    let err = drain(&mut run).expect_err("no budget");
    assert_eq!(
        err.to_text(),
        "MaxTurnsError: reached max turns limit: 1"
    );
    let PromptError::MaxTurnsError {
        max_turns,
        chat_history,
        prompt,
    } = err
    else {
        panic!("budget");
    };
    assert_eq!(max_turns, 1);
    assert_eq!(chat_history.len(), 3);
    assert_eq!(chat_history[2], *prompt);
}

#[test]
fn every_feed_has_its_place() {
    let mut run = AgentRun::new(vec![user("go")]);
    for err in [
        run.turn_committed(text_turn("early")).expect_err("no call"),
        run.tool_results(Vec::new()).expect_err("no tools"),
        run.broken("early".to_string()).expect_err("no call"),
        run.provider_error(
            ProviderErrorClass::Terminal,
            PromptError::MemoryError("m".to_string()),
        )
        .expect_err("no call"),
        run.reject_final_turn(RetryRequest::Repeat)
            .expect_err("no final turn"),
    ] {
        assert!(matches!(
            err,
            PromptError::CompletionError(CompletionError::ResponseError(_))
        ));
    }
    assert!(matches!(
        run.next_step(),
        Ok(AgentRunStep::CallModel { .. })
    ));
    assert!(run.next_step().is_err(), "the call is not settled");
    assert_eq!(user_texts(run.messages()), ["go"]);
}

#[test]
fn tool_results_must_answer_every_call() {
    let mut run = AgentRun::new(vec![user("go")]);
    let _ = run.next_step();
    run.turn_committed(tool_turn("add", &["add"])).expect("commit");
    let _ = run.next_step();
    assert!(run.next_step().is_err(), "the tools are not settled");
    assert!(run.tool_results(Vec::new()).is_err());
    assert_eq!(run.messages().len(), 2);
}

#[test]
fn a_provider_failure_behind_a_committed_turn_is_not_tried_again() {
    let mut run = AgentRun::new(vec![user("go")]).max_turns(5);
    let _ = run.next_step();
    run.turn_committed(tool_turn("add", &["add"])).expect("commit");
    let _ = run.next_step();
    run.provider_error(
        ProviderErrorClass::Retryable,
        PromptError::MemoryError("lost".to_string()),
    )
    .expect("feed");
    let err = drain(&mut run).expect_err("terminal");
    assert_eq!(err.to_text(), "MemoryError: lost");
}

#[test]
fn a_skipped_peer_keeps_its_tool_result_text() {
    let UserContent::ToolResult(result) =
        tool_result_message("id".to_string(), Some("cid".to_string()), "why".to_string())
    else {
        panic!("tool result");
    };
    assert_eq!(result.id, "id");
    assert_eq!(result.call_id.as_deref(), Some("cid"));
    assert!(matches!(
        result.content.first(),
        ToolResultContent::Text(text) if text.text == "why"
    ));
}
