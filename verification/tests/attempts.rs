//! Reading the stream of one attempt at a model turn.

use rig_agent::attempt::{consume_completion_stream, Attempt, AttemptOutcome, AttemptStep};
use rig_agent::completion::{CompletionError, FinishReason};
use rig_agent::json::Json;
use rig_agent::message::{AssistantContent, Message, ToolCall, ToolFunction};
use rig_agent::names::ToolNames;
use rig_agent::one_or_many::OneOrMany;
use rig_agent::run::AgentRun;
use rig_agent::stream_item::MultiTurnStreamItem;
use rig_agent::streaming::{StreamFinal, StreamedAssistantContent, ToolCallDeltaContent};
use rig_agent::turn_source::{StreamedModelTurn, StreamingTurnSource};
use rig_agent::usage::Usage;

type Item = Result<StreamedAssistantContent, CompletionError>;

fn text(text: &str) -> Item {
    Ok(StreamedAssistantContent::text(text))
}

fn closing(usage: Usage) -> Item {
    Ok(StreamedAssistantContent::Final(StreamFinal::new(
        "mock", usage,
    )))
}

fn consume(items: Vec<Item>) -> (Vec<String>, AttemptOutcome) {
    let choice = OneOrMany::one(AssistantContent::text("partial sum".to_string()));
    let (forwarded, outcome) =
        consume_completion_stream(items, None, &choice, ToolNames::new(), ToolNames::new());
    let texts = forwarded
        .into_iter()
        .filter_map(|item| match item {
            StreamedAssistantContent::Text(text) => Some(text.text),
            _ => None,
        })
        .collect();
    (texts, outcome)
}

#[test]
fn a_text_turn_completes_with_usage_and_finish_reason() {
    let mut usage = Usage::new();
    usage.input_tokens = 10;
    usage.output_tokens = 2;
    let (forwarded, outcome) = consume(vec![text("partial"), text(" sum"), closing(usage)]);
    let AttemptOutcome::Completed {
        turn,
        finish_reason,
    } = outcome
    else {
        panic!("a clean text turn completes");
    };
    assert!(!turn.carries_tools());
    assert_eq!(turn.usage.input_tokens, 10);
    assert_eq!(finish_reason, None);
    assert_eq!(forwarded, ["partial", " sum"], "items forward live");
}

#[test]
fn a_tool_carrying_turn_answers_the_canonical_predicate() {
    let call = StreamedAssistantContent::ToolCall {
        tool_call: ToolCall::new(
            "call-1".to_string(),
            ToolFunction::new(
                "read".to_string(),
                Json::parse("{\"path\": \"x\"}").expect("json"),
            ),
        ),
        internal_call_id: "i".to_string(),
    };
    let (_, outcome) = consume(vec![Ok(call), closing(Usage::new())]);
    assert!(outcome.carries_tools());
}

#[test]
fn the_length_cap_rides_the_finish_reason() {
    let record = StreamFinal::new("mock", Usage::new()).with_finish_reason(FinishReason::Length);
    let (_, outcome) = consume(vec![
        text("cut short"),
        Ok(StreamedAssistantContent::Final(record)),
    ]);
    assert!(matches!(
        outcome,
        AttemptOutcome::Completed {
            finish_reason: Some(FinishReason::Length),
            ..
        }
    ));
}

#[test]
fn unparseable_arguments_classify_as_the_defect() {
    let (_, outcome) = consume(vec![Err(CompletionError::MalformedToolCall {
        tool: "read".to_string(),
        reason: "arguments are not valid JSON".to_string(),
    })]);
    assert!(matches!(
        outcome,
        AttemptOutcome::MalformedToolCall { tool, .. } if tool == "read"
    ));
    assert!(!matches!(consume(Vec::new()).1, AttemptOutcome::Cancelled));
}

#[test]
fn a_stream_without_its_terminal_is_truncation_not_success() {
    let (_, outcome) = consume(vec![text("orphaned")]);
    assert!(matches!(
        outcome,
        AttemptOutcome::Failed(CompletionError::ResponseError(message))
            if message.contains("terminal record")
    ));
}

#[test]
fn nothing_may_follow_the_closing_record() {
    let (forwarded, outcome) = consume(vec![text("a"), closing(Usage::new()), text("b")]);
    assert_eq!(forwarded, ["a"]);
    assert!(matches!(
        outcome,
        AttemptOutcome::Failed(CompletionError::ResponseError(message))
            if message.contains("after its final response")
    ));
    let (_, outcome) = consume(vec![
        text("a"),
        closing(Usage::new()),
        Err(CompletionError::ProviderError("late".to_string())),
    ]);
    assert_eq!(
        outcome,
        AttemptOutcome::Failed(CompletionError::ProviderError("late".to_string()))
    );
}

#[test]
fn items_come_out_as_they_come_in() {
    let mut attempt = Attempt::new(ToolNames::new(), ToolNames::new());
    assert!(matches!(
        attempt.on_item(text("x")),
        AttemptStep::Forward(items) if items == vec![StreamedAssistantContent::text("x")]
    ));
}

#[test]
fn a_streamed_turn_is_billed_once_and_its_record_comes_last() {
    let mut run = AgentRun::new(vec![Message::user("go")]);
    let _ = run.next_step();
    let mut turn = StreamedModelTurn::new(ToolNames::new(), ToolNames::new());
    let items = turn
        .on_item(&mut run, StreamedAssistantContent::text("hello"))
        .expect("text");
    assert_eq!(
        items,
        vec![MultiTurnStreamItem::stream_item(
            StreamedAssistantContent::text("hello")
        )]
    );
    let mut usage = Usage::new();
    usage.total_tokens = 3;
    let record = StreamFinal::new("mock", usage);
    let items = turn
        .on_item(&mut run, StreamedAssistantContent::Final(record))
        .expect("record");
    assert!(matches!(
        items.as_slice(),
        [MultiTurnStreamItem::CompletionCall(call)] if call.usage.total_tokens == 3
    ));
    let choice = OneOrMany::one(AssistantContent::text("hello".to_string()));
    let (items, committed) = turn
        .on_end(Some("m".to_string()), &choice)
        .expect("complete");
    assert!(matches!(
        items.as_slice(),
        [MultiTurnStreamItem::StreamAssistantItem(
            StreamedAssistantContent::Final(_)
        )]
    ));
    run.turn_committed(committed).expect("commit");
    assert_eq!(run.usage().total_tokens, 3);
    assert_eq!(run.completion_calls().len(), 1);
}

#[test]
fn a_streamed_turn_that_is_cut_off_commits_nothing() {
    let mut run = AgentRun::new(vec![Message::user("go")]);
    let _ = run.next_step();
    let mut turn = StreamedModelTurn::new(ToolNames::new(), ToolNames::new());
    let _ = turn.on_item(&mut run, StreamedAssistantContent::text("hello"));
    let choice = OneOrMany::one(AssistantContent::text("hello".to_string()));
    assert!(turn.on_end(None, &choice).is_err());
    assert_eq!(run.messages().len(), 1);
}

#[test]
fn the_final_item_shows_the_last_turn() {
    let mut source = StreamingTurnSource::new();
    assert!(source.ended_without_text());
    source.turn_completed(
        Some("m".to_string()),
        OneOrMany::one(AssistantContent::text("structured".to_string())),
    );
    assert!(!source.ended_without_text());
    assert_eq!(source.last_message_id().as_deref(), Some("m"));
    let response =
        rig_agent::prompt_response::PromptResponse::new("structured".to_string(), Usage::new());
    let MultiTurnStreamItem::FinalResponse(shown) = source.final_item(&response) else {
        panic!("final response");
    };
    assert_eq!(shown.output(), "structured");
}

#[test]
fn a_run_and_an_attempt_read_a_stream_alike() {
    let streams: Vec<Vec<StreamedAssistantContent>> = vec![
        vec![StreamedAssistantContent::text("cut off")],
        vec![
            StreamedAssistantContent::text("whole"),
            StreamedAssistantContent::Final(StreamFinal::new("mock", Usage::new())),
        ],
    ];
    for stream in streams {
        let choice = OneOrMany::one(AssistantContent::text("whole".to_string()));
        let mut attempt = Attempt::new(ToolNames::new(), ToolNames::new());
        let mut run = AgentRun::new(vec![Message::user("go")]);
        let _ = run.next_step();
        let mut turn = StreamedModelTurn::new(ToolNames::new(), ToolNames::new());
        for item in stream {
            let copy = match &item {
                StreamedAssistantContent::Text(text) => StreamedAssistantContent::text(&text.text),
                _ => StreamedAssistantContent::Final(StreamFinal::new("mock", Usage::new())),
            };
            let _ = attempt.on_item(Ok(copy));
            turn.on_item(&mut run, item).expect("read");
        }
        match (attempt.on_end(None, &choice), turn.on_end(None, &choice)) {
            (AttemptOutcome::Completed { turn: one, .. }, Ok((_, other))) => {
                assert_eq!(one, other)
            }
            (AttemptOutcome::Failed(one), Err(other)) => assert_eq!(one, other),
            (one, other) => panic!("{one:?} and {other:?}"),
        }
    }
}

fn nameless_arguments() -> StreamedAssistantContent {
    StreamedAssistantContent::ToolCallDelta {
        id: "c1".to_string(),
        internal_call_id: "i1".to_string(),
        content: ToolCallDeltaContent::Delta("{}".to_string()),
    }
}

const NAMELESS: &str = "streamed tool call arguments received before a validated tool name for id \
    `c1` and internal_call_id `i1` (1 buffered argument delta(s))";

#[test]
fn arguments_whose_name_never_comes_are_the_defect() {
    let (_, outcome) = consume(vec![Ok(nameless_arguments()), closing(Usage::new())]);
    assert_eq!(
        outcome,
        AttemptOutcome::MalformedToolCall {
            tool: "c1".to_string(),
            reason: NAMELESS.to_string(),
        }
    );

    let mut run = AgentRun::new(vec![Message::user("go")]);
    let _ = run.next_step();
    let mut turn = StreamedModelTurn::new(ToolNames::new(), ToolNames::new());
    turn.on_item(&mut run, nameless_arguments()).expect("held back");
    let record = StreamFinal::new("mock", Usage::new());
    assert_eq!(
        turn.on_item(&mut run, StreamedAssistantContent::Final(record)),
        Err(CompletionError::MalformedToolCall {
            tool: "c1".to_string(),
            reason: NAMELESS.to_string(),
        })
    );
    assert!(run.completion_calls().is_empty());
}

#[test]
fn a_streamed_turn_carries_the_finish_reason() {
    let mut run = AgentRun::new(vec![Message::user("go")]);
    let _ = run.next_step();
    let mut turn = StreamedModelTurn::new(ToolNames::new(), ToolNames::new());
    turn.on_item(&mut run, StreamedAssistantContent::text("cut short"))
        .expect("text");
    let record = StreamFinal::new("mock", Usage::new()).with_finish_reason(FinishReason::Length);
    turn.on_item(&mut run, StreamedAssistantContent::Final(record))
        .expect("record");
    let choice = OneOrMany::one(AssistantContent::text("cut short".to_string()));
    let (_, committed) = turn.on_end(None, &choice).expect("complete");
    assert_eq!(committed.finish_reason, Some(FinishReason::Length));
}
