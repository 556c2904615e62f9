//! One tool call, and the calls of a turn.

use rig_agent::hook::{ToolCallAction, ToolResultAction};
use rig_agent::json::Json;
use rig_agent::message::{
    AssistantContent, ToolCall, ToolFunction, ToolResultContent, ToolResultStatus, UserContent,
};
use rig_agent::names::ToolNames;
use rig_agent::one_or_many::OneOrMany;
use rig_agent::stream_item::MultiTurnStreamItem;
use rig_agent::streaming::StreamedAssistantContent;
use rig_agent::tool::{ExecutionResult, ToolOutput};
use rig_agent::tool_batch::{prepare_tool_calls, ToolBatch};
use rig_agent::tool_run::{
    plan_tool_call, settle_tool_call, with_execution_status, ToolCallOutcome, ToolExecution,
    ToolPlan,
};
use rig_agent::turn::{admit_tool_calls, ModelTurn};
use rig_agent::usage::Usage;

fn json(text: &str) -> Json {
    Json::parse(text).expect("json")
}

fn call(id: &str) -> ToolCall {
    ToolCall::new(
        id.to_string(),
        ToolFunction::new("add".to_string(), json("{\"x\":1}")),
    )
}

fn ran(id: &str, stop: Option<&str>) -> ToolCallOutcome {
    settle_tool_call(
        &call(id),
        &ExecutionResult::success(ToolOutput::text(format!("result of {id}"))),
        ToolExecution::Executed(Box::new(call(id))),
        match stop {
            Some(reason) => ToolResultAction::stop(reason),
            None => ToolResultAction::keep(),
        },
    )
}

fn ids(contents: &[UserContent]) -> Vec<String> {
    contents
        .iter()
        .map(|content| match content {
            UserContent::ToolResult(result) => result.id.clone(),
            _ => "other".to_string(),
        })
        .collect()
}

#[test]
fn a_call_runs_with_the_last_rewrite() {
    assert_eq!(
        plan_tool_call(&call("c"), (ToolCallAction::run(), None)),
        ToolPlan::Execute {
            call: call("c"),
            args: "{\"x\":1}".to_string()
        }
    );
    let ToolPlan::Execute { call: ran, args } = plan_tool_call(
        &call("c"),
        (ToolCallAction::rewrite(json("{\"x\": 2}")), None),
    ) else {
        panic!("runs");
    };
    assert_eq!(args, "{\"x\":2}");
    assert_eq!(ran.function.arguments, json("{\"x\":2}"));
    assert_eq!(ran.id, "c");
}

#[test]
fn a_skip_shows_the_rewritten_arguments() {
    let ToolPlan::Skip { result, args } = plan_tool_call(
        &call("c"),
        (ToolCallAction::skip("denied"), Some(json("{\"x\": 9}"))),
    ) else {
        panic!("skips");
    };
    assert_eq!(args, "{\"x\":9}");
    assert_eq!(result, ExecutionResult::skipped("denied".to_string()));
}

#[test]
fn a_rewrite_of_the_result_keeps_the_status() {
    let failed = ExecutionResult::failed("raw".to_string(), Some("timeout".to_string()));
    let outcome = settle_tool_call(
        &call("c"),
        &failed,
        ToolExecution::Executed(Box::new(call("c"))),
        ToolResultAction::rewrite("{\"image\":1}"),
    );
    let UserContent::ToolResult(told) = &outcome.content else {
        panic!("tool result");
    };
    assert_eq!(
        told.status,
        Some(ToolResultStatus::Failed {
            code: Some("timeout".to_string())
        })
    );
    // What a hook writes is told as it stands.
    assert_eq!(
        told.content,
        OneOrMany::one(ToolResultContent::text("{\"image\":1}".to_string()))
    );
    assert_eq!(outcome.stop_reason, None);
}

#[test]
fn other_content_has_no_status() {
    let text = UserContent::text("hi".to_string());
    assert_eq!(
        with_execution_status(
            UserContent::text("hi".to_string()),
            &ExecutionResult::skipped("s".to_string())
        ),
        text
    );
}

#[test]
fn results_settle_in_call_order() {
    let mut forwards = ToolBatch::new(3);
    let mut backwards = ToolBatch::new(3);
    for (index, id) in ["a", "b", "c"].iter().enumerate() {
        forwards.record_outcome(index, format!("i{index}"), ran(id, None));
    }
    for (index, id) in ["a", "b", "c"].iter().enumerate().rev() {
        backwards.record_outcome(index, format!("i{index}"), ran(id, None));
    }
    let forwards = forwards.settle(true).expect("settles");
    let backwards = backwards.settle(true).expect("settles");
    assert_eq!(ids(&forwards.committed), ["a", "b", "c"]);
    assert_eq!(forwards.committed, backwards.committed);
    assert_eq!(forwards.items, backwards.items);
    assert_eq!(forwards.items.len(), 6);
    assert_eq!(forwards.stop_reason, None);
}

#[test]
fn the_first_call_that_stops_gives_the_reason() {
    let mut batch = ToolBatch::new(3);
    batch.record_outcome(2, "i2".to_string(), ran("c", Some("third")));
    batch.record_outcome(1, "i1".to_string(), ran("b", Some("second")));
    batch.record_outcome(0, "i0".to_string(), ran("a", None));
    let settled = batch.settle(false).expect("settles");
    assert_eq!(settled.stop_reason.as_deref(), Some("second"));
    assert_eq!(ids(&settled.committed), ["a", "b", "c"]);
    assert!(settled.items.is_empty());
}

#[test]
fn a_missing_result_is_an_error() {
    let mut batch = ToolBatch::new(2);
    batch.record_outcome(1, "i1".to_string(), ran("b", None));
    assert!(batch.settle(true).is_err());
}

#[test]
fn what_was_shown_before_is_not_shown_again() {
    let mut batch = ToolBatch::new(2);
    batch.record_preresolved(0, "i0".to_string(), UserContent::text("told".to_string()));
    let skipped = settle_tool_call(
        &call("b"),
        &ExecutionResult::skipped("denied".to_string()),
        ToolExecution::Skipped,
        ToolResultAction::keep(),
    );
    batch.record_outcome(1, "i1".to_string(), skipped);
    let settled = batch.settle(true).expect("settles");
    assert_eq!(settled.committed.len(), 2);
    assert!(matches!(
        settled.items.as_slice(),
        [MultiTurnStreamItem::StreamUserItem(_)]
    ));
}

#[test]
fn calls_keep_the_id_of_their_stream_items() {
    let mut turn = ModelTurn::new(
        None,
        OneOrMany::many(vec![
            AssistantContent::ToolCall(call("a")),
            AssistantContent::ToolCall(call("b")),
        ])
        .expect("non-empty"),
        Usage::new(),
        None,
        ToolNames::from_names(vec!["add".to_string()]),
        ToolNames::from_names(vec!["add".to_string()]),
    );
    turn.internal_call_ids = vec![("b".to_string(), "streamed".to_string())];
    assert!(turn.carries_tools());
    let admitted = admit_tool_calls(&turn);
    let (prepared, items) =
        prepare_tool_calls(admitted, vec!["f0".to_string(), "f1".to_string()], true);
    assert_eq!(prepared[0].internal_call_id, "f0");
    assert_eq!(prepared[1].internal_call_id, "streamed");
    assert!(matches!(
        &items[1],
        MultiTurnStreamItem::StreamAssistantItem(StreamedAssistantContent::ToolCall {
            tool_call,
            internal_call_id,
        }) if tool_call.id == "b" && internal_call_id == "streamed"
    ));
}

#[test]
fn a_call_that_is_not_allowed_is_answered_without_running() {
    let turn = ModelTurn::new(
        None,
        OneOrMany::one(AssistantContent::ToolCall(call("a"))),
        Usage::new(),
        None,
        ToolNames::from_names(vec!["add".to_string()]),
        ToolNames::new(),
    );
    let admitted = admit_tool_calls(&turn);
    assert!(admitted[0].preresolved_result.is_some());
    let (_, items) = prepare_tool_calls(admitted, vec!["f0".to_string()], true);
    assert!(items.is_empty());
}
