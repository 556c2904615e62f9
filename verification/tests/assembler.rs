//! Putting a streamed turn together.

use rig_agent::assembler::{StreamedResolution, StreamedTurnAssembler, StreamedTurnEvent};
use rig_agent::completion::{CompletionError, FinishReason};
use rig_agent::json::Json;
use rig_agent::message::{
    AssistantContent, Message, Reasoning, ReasoningContent, ToolCall, ToolFunction, UserContent,
};
use rig_agent::names::ToolNames;
use rig_agent::one_or_many::OneOrMany;
use rig_agent::streamed::merge_reasoning_blocks;
use rig_agent::streaming::{StreamFinal, StreamedAssistantContent, ToolCallDeltaContent};
use rig_agent::usage::Usage;

fn names(list: &[&str]) -> ToolNames {
    ToolNames::from_names(list.iter().map(|name| name.to_string()).collect())
}

fn assembler() -> StreamedTurnAssembler {
    StreamedTurnAssembler::new(names(&["add", "sub"]), names(&["add", "sub"]))
}

fn json(text: &str) -> Json {
    Json::parse(text).expect("json")
}

fn call(id: &str, name: &str, args: &str) -> ToolCall {
    ToolCall::new(
        id.to_string(),
        ToolFunction::new(name.to_string(), json(args)),
    )
}

fn streamed_call(id: &str, name: &str, args: &str) -> StreamedAssistantContent {
    StreamedAssistantContent::ToolCall {
        tool_call: call(id, name, args),
        internal_call_id: "internal_1".to_string(),
    }
}

fn delta(content: ToolCallDeltaContent) -> StreamedAssistantContent {
    StreamedAssistantContent::ToolCallDelta {
        id: "call_1".to_string(),
        internal_call_id: "internal_1".to_string(),
        content,
    }
}

fn delta_events(
    assembler: &mut StreamedTurnAssembler,
    items: &[StreamedAssistantContent],
) -> Vec<StreamedTurnEvent> {
    let mut events = Vec::new();
    for item in items {
        events.extend(assembler.ingest(item).expect("ingest"));
    }
    events
}

fn reasoning(id: Option<&str>, content: Vec<ReasoningContent>) -> Reasoning {
    Reasoning {
        id: id.map(|id| id.to_string()),
        content,
    }
}

fn step(text: &str, signature: Option<&str>) -> ReasoningContent {
    ReasoningContent::Text {
        text: text.to_string(),
        signature: signature.map(|signature| signature.to_string()),
    }
}

#[test]
fn text_deltas_accumulate_and_emit() {
    let mut assembler = assembler();
    let events = delta_events(
        &mut assembler,
        &[
            StreamedAssistantContent::text("He"),
            StreamedAssistantContent::text("llo"),
        ],
    );
    assert_eq!(events.len(), 2);
    assert_eq!(assembler.aggregated_text(), "Hello");
}

#[test]
fn unknown_tool_names_flow_through() {
    let mut assembler = assembler();
    let call = streamed_call("call_1", "nonexistent", "{\"x\": 1}");
    let events = assembler.ingest(&call).expect("no invalid surfacing");
    assert!(events.is_empty(), "no events, no pause, no failure");
}

#[test]
fn argument_deltas_buffer_until_the_name_arrives() {
    let mut assembler = assembler();
    let events = delta_events(
        &mut assembler,
        &[
            StreamedAssistantContent::ToolCallDelta {
                id: "call_1".to_string(),
                internal_call_id: "internal_1".to_string(),
                content: ToolCallDeltaContent::Delta("{\"x\":".to_string()),
            },
            StreamedAssistantContent::ToolCallDelta {
                id: "call_1".to_string(),
                internal_call_id: "internal_1".to_string(),
                content: ToolCallDeltaContent::Name("add".to_string()),
            },
            StreamedAssistantContent::ToolCallDelta {
                id: "call_1".to_string(),
                internal_call_id: "internal_1".to_string(),
                content: ToolCallDeltaContent::Delta("1}".to_string()),
            },
        ],
    );
    assert_eq!(events.len(), 3);
    assert!(matches!(
        &events[0],
        StreamedTurnEvent::EmitToolCallDelta { content, .. }
            if matches!(content, ToolCallDeltaContent::Name(name) if name == "add")
    ));
    assert!(matches!(
        &events[1],
        StreamedTurnEvent::EmitToolCallDelta { content, .. }
            if matches!(content, ToolCallDeltaContent::Delta(text) if text == "{\"x\":")
    ));
    assert!(matches!(
        &events[2],
        StreamedTurnEvent::EmitToolCallDelta { content, .. }
            if matches!(content, ToolCallDeltaContent::Delta(text) if text == "1}")
    ));
}

#[test]
fn finish_assembles_canonical_order_with_correlation() {
    let mut assembler = assembler();
    delta_events(
        &mut assembler,
        &[
            StreamedAssistantContent::text("let me check"),
            streamed_call("call_1", "add", "{\"x\": 1, \"y\": 2}"),
        ],
    );
    let final_choice = OneOrMany::one(AssistantContent::text("let me check".to_string()));
    let turn = assembler.finish(Some("msg_1".to_string()), &final_choice);
    assert_eq!(turn.message_id.as_deref(), Some("msg_1"));
    assert_eq!(turn.internal_call_ids.len(), 1);
    let kinds: Vec<&str> = turn
        .choice
        .iter()
        .into_iter()
        .map(|content| match content {
            AssistantContent::Text(_) => "text",
            AssistantContent::ToolCall(_) => "tool",
            AssistantContent::Reasoning(_) => "reasoning",
            _ => "other",
        })
        .collect();
    assert_eq!(kinds, ["text", "tool"], "text precedes tool calls");
}

#[test]
fn reasoning_blocks_merge_by_id() {
    let mut reasoning = Reasoning::new("first");
    reasoning.id = Some("rs_1".to_string());
    let mut merged = Vec::new();
    merge_reasoning_blocks(&mut merged, &reasoning);
    let mut same_id = Reasoning::new(" more");
    same_id.id = Some("rs_1".to_string());
    merge_reasoning_blocks(&mut merged, &same_id);
    assert_eq!(merged.len(), 1, "matching ids extend one block");
    assert_eq!(merged[0].content.len(), 2);

    let mut other = Reasoning::new("other");
    other.id = Some("rs_2".to_string());
    merge_reasoning_blocks(&mut merged, &other);
    assert_eq!(merged.len(), 2, "distinct ids stay separate");
}

#[test]
fn final_event_carries_usage() {
    let mut assembler = assembler();
    let events = delta_events(&mut assembler, &[StreamedAssistantContent::text("answer")]);
    let _ = events;
    let mut usage = Usage::new();
    usage.total_tokens = 9;
    let events = assembler
        .ingest(&StreamedAssistantContent::Final(StreamFinal::new(
            "mock", usage,
        )))
        .expect("ingest");
    assert!(matches!(
        events.as_slice(),
        [StreamedTurnEvent::Completed {
            emit_final: true,
            ..
        }]
    ));
}

#[test]
fn final_event_carries_the_finish_reason() {
    let mut assembler = assembler();
    let mut usage = Usage::new();
    usage.total_tokens = 9;
    let events = assembler
        .ingest(&StreamedAssistantContent::Final(
            StreamFinal::new("mock", usage).with_finish_reason(FinishReason::Length),
        ))
        .expect("ingest");
    assert!(matches!(
        events.as_slice(),
        [StreamedTurnEvent::Completed {
            finish_reason: Some(FinishReason::Length),
            ..
        }]
    ));
}

#[test]
fn merge_reasoning_blocks_preserves_order_and_signatures() {
    let mut accumulated = Vec::new();
    let first = reasoning(Some("rs_1"), vec![step("step-1", Some("sig-1"))]);
    let second = reasoning(
        Some("rs_1"),
        vec![
            step("step-2", Some("sig-2")),
            ReasoningContent::Summary("summary".to_string()),
        ],
    );

    merge_reasoning_blocks(&mut accumulated, &first);
    merge_reasoning_blocks(&mut accumulated, &second);

    assert_eq!(accumulated.len(), 1);
    let merged = accumulated.first().expect("expected accumulated reasoning");
    assert_eq!(merged.id.as_deref(), Some("rs_1"));
    assert_eq!(merged.content.len(), 3);
    assert!(matches!(
        merged.content.first(),
        Some(ReasoningContent::Text { text, signature: Some(sig) })
            if text == "step-1" && sig == "sig-1"
    ));
    assert!(matches!(
        merged.content.get(1),
        Some(ReasoningContent::Text { text, signature: Some(sig) })
            if text == "step-2" && sig == "sig-2"
    ));
}

#[test]
fn merge_reasoning_blocks_keeps_distinct_ids_as_separate_items() {
    let mut accumulated = vec![reasoning(Some("rs_a"), vec![step("step-1", None)])];
    let incoming = reasoning(Some("rs_b"), vec![step("step-2", None)]);

    merge_reasoning_blocks(&mut accumulated, &incoming);
    assert_eq!(accumulated.len(), 2);
    assert_eq!(
        accumulated.first().and_then(|r| r.id.as_deref()),
        Some("rs_a")
    );
    assert_eq!(
        accumulated.get(1).and_then(|r| r.id.as_deref()),
        Some("rs_b")
    );
}

#[test]
fn merge_reasoning_blocks_keeps_none_ids_separate_items() {
    let mut accumulated = vec![reasoning(None, vec![step("first", None)])];
    let incoming = reasoning(None, vec![step("second", None)]);

    merge_reasoning_blocks(&mut accumulated, &incoming);
    assert_eq!(accumulated.len(), 2);
    assert!(accumulated.first().is_some_and(|reasoning| {
        reasoning.id.is_none()
            && matches!(
                reasoning.content.first(),
                Some(ReasoningContent::Text { text, .. }) if text == "first"
            )
    }));
    assert!(accumulated.get(1).is_some_and(|reasoning| {
        reasoning.id.is_none()
            && matches!(
                reasoning.content.first(),
                Some(ReasoningContent::Text { text, .. }) if text == "second"
            )
    }));
}

#[test]
fn arguments_without_a_name_are_an_error_at_the_end() {
    let mut assembler = assembler();
    delta_events(
        &mut assembler,
        &[delta(ToolCallDeltaContent::Delta("{}".to_string()))],
    );
    assert!(matches!(
        assembler.pending_delta_error(),
        Some(CompletionError::ResponseError(_))
    ));
}

#[test]
fn a_checked_unknown_call_waits_for_a_resolution() {
    let mut assembler = assembler();
    let events = assembler
        .ingest_checked(&streamed_call("call_1", "addd", "{\"x\": 1}"))
        .expect("surfaces");
    let [StreamedTurnEvent::InvalidToolCall(invalid)] = events.as_slice() else {
        panic!("one invalid call");
    };
    assert_eq!(invalid.tool_call.function.name, "addd");
    assert_eq!(invalid.args.as_deref(), Some("{\"x\":1}"));
    assert_eq!(invalid.allowed_tool_names, names(&["add", "sub"]));

    assembler.resolve_pending_invalid(&StreamedResolution::Repaired {
        tool_name: "add".to_string(),
    });
    let choice = OneOrMany::one(AssistantContent::text(String::new()));
    let turn = assembler.finish(None, &choice);
    let repaired = turn
        .choice
        .iter()
        .into_iter()
        .filter_map(|part| match part {
            AssistantContent::ToolCall(call) => Some(call.function.name.as_str()),
            _ => None,
        })
        .collect::<Vec<_>>();
    assert_eq!(repaired, ["add"]);
}

#[test]
fn a_repaired_name_releases_the_buffered_arguments() {
    let mut assembler = assembler();
    assert!(assembler
        .ingest_checked(&delta(ToolCallDeltaContent::Delta("{\"x\":".to_string())))
        .expect("buffers")
        .is_empty());
    let events = assembler
        .ingest_checked(&delta(ToolCallDeltaContent::Name("addd".to_string())))
        .expect("surfaces");
    assert!(matches!(
        events.as_slice(),
        [StreamedTurnEvent::InvalidToolCall(_)]
    ));
    let events = assembler.resolve_pending_invalid(&StreamedResolution::Repaired {
        tool_name: "add".to_string(),
    });
    let shown: Vec<String> = events
        .iter()
        .map(|event| match event {
            StreamedTurnEvent::EmitToolCallDelta { content, .. } => match content {
                ToolCallDeltaContent::Name(name) => format!("name {name}"),
                ToolCallDeltaContent::Delta(text) => format!("delta {text}"),
            },
            _ => "other".to_string(),
        })
        .collect();
    assert_eq!(shown, ["name add", "delta {\"x\":"]);
}

#[test]
fn a_rolled_back_turn_answers_every_call() {
    let mut assembler = assembler();
    delta_events(
        &mut assembler,
        &[
            StreamedAssistantContent::text("thinking"),
            streamed_call("good", "add", "{}"),
        ],
    );
    let partial = assembler.partial_turn(Some("m".to_string()));
    let (turn, feedback) =
        partial.rollback_messages(call("bad", "addd", "{}"), "no such tool".to_string());
    let Message::Assistant { id, content } = &turn else {
        panic!("assistant");
    };
    assert_eq!(id.as_deref(), Some("m"));
    let calls: Vec<&str> = content
        .iter()
        .into_iter()
        .filter_map(|part| match part {
            AssistantContent::ToolCall(call) => Some(call.id.as_str()),
            _ => None,
        })
        .collect();
    assert_eq!(calls, ["good", "bad"]);
    let Message::User { content } = &feedback else {
        panic!("user");
    };
    let answered: Vec<&str> = content
        .iter()
        .into_iter()
        .filter_map(|part| match part {
            UserContent::ToolResult(result) => Some(result.id.as_str()),
            _ => None,
        })
        .collect();
    assert_eq!(answered, ["good", "bad"]);
}

#[test]
fn nothing_is_left_of_a_call_that_is_given_up_at_its_name() {
    let mut assembler = assembler();
    delta_events(
        &mut assembler,
        &[
            delta(ToolCallDeltaContent::Delta("{".to_string())),
            delta(ToolCallDeltaContent::Delta("}".to_string())),
        ],
    );
    assert!(matches!(
        assembler.pending_defect(),
        Some(CompletionError::MalformedToolCall { .. })
    ));
    assembler
        .ingest_checked(&delta(ToolCallDeltaContent::Name("addd".to_string())))
        .expect("surfaces");
    let events = assembler.resolve_pending_invalid(&StreamedResolution::TurnAbandoned {
        skipped_tool_result: None,
    });
    assert!(events.is_empty());
    assert_eq!(assembler.pending_delta_error(), None);
    assert_eq!(assembler.pending_defect(), None);
}

#[test]
fn the_closing_record_is_refused_while_a_name_is_missing() {
    let closing = || StreamedAssistantContent::Final(StreamFinal::new("mock", Usage::new()));
    let mut assembler = assembler();
    delta_events(
        &mut assembler,
        &[delta(ToolCallDeltaContent::Delta("{}".to_string()))],
    );
    assert!(matches!(
        assembler.ingest(&closing()),
        Err(CompletionError::ResponseError(_))
    ));
    assembler
        .ingest_checked(&delta(ToolCallDeltaContent::Name("addd".to_string())))
        .expect("surfaces");
    assembler.resolve_pending_invalid(&StreamedResolution::Repaired {
        tool_name: "add".to_string(),
    });
    assert!(assembler.ingest(&closing()).is_ok());
}
