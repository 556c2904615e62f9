//! The outcome of a run.

use rig_agent::completion::FinishReason;
use rig_agent::json::Json;
use rig_agent::message::{
    AssistantContent, Media, MediaKind, Text, ToolResultContent, ToolResultStatus, UserContent,
};
use rig_agent::one_or_many::OneOrMany;
use rig_agent::prompt_response::{
    assistant_text_from_choice, is_empty_assistant_turn, tool_result_output, CompletionCall,
    PromptResponse, PromptResponseRepr,
};
use rig_agent::stream_item::{MultiTurnStreamItem, StreamingError};
use rig_agent::tool::{ExecutionResult, ToolOutput};
use rig_agent::turn::RunLedger;
use rig_agent::usage::Usage;

fn usage(input_tokens: u64, output_tokens: u64) -> Usage {
    Usage {
        input_tokens,
        output_tokens,
        total_tokens: input_tokens + output_tokens,
        cached_input_tokens: 0,
        cache_creation_input_tokens: 0,
        cache_creation_1h_input_tokens: 0,
        tool_use_prompt_tokens: 0,
        reasoning_tokens: 0,
    }
}

fn text(text: &str) -> AssistantContent {
    AssistantContent::text(text.to_string())
}

#[test]
fn prompt_response_missing_content_reconstructs_from_output() {
    let mut repr = PromptResponse::new("hello".to_string(), Usage::new()).into_repr();
    repr.content = None;

    let response = PromptResponse::from_repr(repr);

    assert_eq!(response.output(), "hello");
    assert_eq!(response.content().iter().len(), 1);
    assert_eq!(*response.content().first(), text("hello"));
}

#[test]
fn prompt_response_missing_content_empty_output_stays_empty_text() {
    let mut repr = PromptResponse::empty().into_repr();
    repr.content = None;

    let response = PromptResponse::from_repr(repr);

    assert_eq!(response.output(), "");
    assert_eq!(*response.content().first(), text(""));
}

#[test]
fn prompt_response_roundtrip_preserves_explicit_content() {
    let response = PromptResponse::new("visible text".to_string(), Usage::new())
        .with_content(OneOrMany::one(text("structured")));

    let repr = response.into_repr();
    assert!(
        repr.content.is_some(),
        "content is part of the stored shape"
    );

    let round = PromptResponse::from_repr(repr);
    assert_eq!(round.output(), "visible text");
    let AssistantContent::Text(text) = round.content().first() else {
        panic!("expected text content, got {:?}", round.content().first());
    };
    assert_eq!(text.text, "structured");
}

#[test]
fn prompt_response_display_formats_the_output_text() {
    let response = PromptResponse::new("hello display".to_string(), usage(1, 2));
    assert_eq!(response.to_text(), "hello display");
}

#[test]
fn a_stored_response_comes_back_as_it_was() {
    let response = PromptResponse::new("hi".to_string(), usage(1, 2)).with_completion_calls(vec![
        CompletionCall::new(0, usage(1, 2), Some(FinishReason::Stop)),
    ]);
    let repr = PromptResponseRepr {
        output: "hi".to_string(),
        usage: usage(1, 2),
        completion_calls: vec![CompletionCall::new(0, usage(1, 2), Some(FinishReason::Stop))],
        content: Some(OneOrMany::one(text("hi"))),
    };
    assert_eq!(response.clone().into_repr(), repr);
    assert_eq!(PromptResponse::from_repr(repr), response);
    assert_eq!(response.requests(), 1);
}

#[test]
fn tool_result_output_preserves_multimodal_tool_output() {
    let instruction =
        Json::parse("{\"instruction\": \"Use the image part to answer.\"}").expect("json");
    let image = Media {
        kind: MediaKind::Image,
        payload: Json::parse("{\"data\":{\"base64\":\"base64data==\"},\"media_type\":\"png\"}")
            .expect("json"),
    };
    let mut content = OneOrMany::one(ToolResultContent::json(instruction.clone()));
    content.push(ToolResultContent::Image(image.clone()));
    let user_content = tool_result_output(
        "tool_call_1".to_string(),
        Some("call_1".to_string()),
        ToolOutput::content(content),
    );

    let tool_result = match user_content {
        UserContent::ToolResult(tool_result) => tool_result,
        other => panic!("expected tool result content, got {other:?}"),
    };

    assert_eq!(tool_result.id, "tool_call_1");
    assert_eq!(tool_result.call_id.as_deref(), Some("call_1"));
    assert_eq!(tool_result.content.len(), 2);

    let items = tool_result.content.iter();
    match items.first() {
        Some(ToolResultContent::Json { value }) => {
            assert_eq!(value, &instruction);
        }
        other => panic!("expected structured JSON payload first, got {other:?}"),
    }

    match items.get(1) {
        Some(ToolResultContent::Image(shown)) => {
            assert_eq!(shown, &image);
        }
        other => panic!("expected image payload second, got {other:?}"),
    }
}

#[test]
fn final_response_constructors_surface_content_and_usage() {
    let item = MultiTurnStreamItem::final_response(OneOrMany::one(text("done")), usage(1, 2));
    let MultiTurnStreamItem::FinalResponse(response) = item else {
        panic!("expected a final response item, got {item:?}");
    };
    assert_eq!(response.output(), "done");
    assert_eq!(response.usage(), usage(1, 2));
    assert!(response.completion_calls().is_empty());
}

#[test]
fn a_final_response_counts_its_provider_calls() {
    let item = MultiTurnStreamItem::final_response_with_completion_calls(
        OneOrMany::one(text("done")),
        usage(3, 4),
        vec![
            CompletionCall::new(0, Usage::new(), None),
            CompletionCall::new(1, usage(3, 4), None),
        ],
    );
    let MultiTurnStreamItem::FinalResponse(response) = &item else {
        panic!("final response");
    };
    assert_eq!(response.requests(), 2);
    assert_eq!(
        response.completion_calls(),
        &vec![
            CompletionCall::new(0, Usage::new(), None),
            CompletionCall::new(1, usage(3, 4), None)
        ]
    );
}

#[test]
fn texts_of_a_turn_are_joined_without_blanks() {
    let mut content = OneOrMany::one(text("hello"));
    content.push(text(" world"));
    assert_eq!(assistant_text_from_choice(&content), "hello world");
    assert!(!is_empty_assistant_turn(&content));
}

#[test]
fn only_a_lone_plain_empty_text_says_nothing() {
    assert!(is_empty_assistant_turn(&OneOrMany::one(text(""))));
    let cited = AssistantContent::Text(Text {
        text: String::new(),
        additional_params: Some(Json::parse("{\"citations\":[]}").expect("json")),
    });
    assert!(!is_empty_assistant_turn(&OneOrMany::one(cited)));
}

#[test]
fn a_ledger_sums_up_its_calls() {
    let mut ledger = RunLedger::new();
    assert_eq!(ledger.record(usage(1, 2), None).call_index, 0);
    assert_eq!(
        ledger.record(usage(3, 4), Some(FinishReason::Length)).call_index,
        1
    );
    assert_eq!(ledger.usage(), usage(4, 6));
    assert_eq!(ledger.calls().len(), 2);
}

#[test]
fn usage_adds_up_and_knows_when_it_cannot() {
    let mut total = usage(1, 2);
    assert!(total.fits(usage(3, 4)));
    total.accumulate(usage(3, 4));
    assert_eq!(total, usage(4, 6));
    assert!(total.has_values());
    assert!(!Usage::new().has_values());
    let mut huge = Usage::new();
    huge.reasoning_tokens = u64::MAX;
    let mut one = Usage::new();
    one.reasoning_tokens = 1;
    assert!(!huge.fits(one));
}

#[test]
fn results_of_tools_tell_how_they_ended() {
    assert_eq!(
        ExecutionResult::success(ToolOutput::text("ok".to_string())).execution_status(),
        ToolResultStatus::Success
    );
    let failed = ExecutionResult::failed("timed out".to_string(), Some("timeout".to_string()));
    assert_eq!(
        failed.execution_status(),
        ToolResultStatus::Failed {
            code: Some("timeout".to_string())
        }
    );
    assert_eq!(failed.output.as_text(), Some("timed out"));
    let skipped = ExecutionResult::skipped("denied".to_string());
    assert_eq!(
        skipped.execution_status(),
        ToolResultStatus::Failed { code: None }
    );
    assert_eq!(skipped.output.as_text(), Some("denied"));
}

#[test]
fn stream_errors_have_words() {
    let error = StreamingError::Completion(
        rig_agent::completion::CompletionError::ResponseError("bad".to_string()),
    );
    assert_eq!(error.to_text(), "CompletionError: ResponseError: bad");
}
