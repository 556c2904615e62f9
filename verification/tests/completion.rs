//! Requests and errors.

use rig_agent::completion::{
    CompletionError, Document, PromptError, ProviderResponseError, ToolChoice, ToolDefinition,
};
use rig_agent::drive::{classify_lowered, classify_provider_error, classify_turn_failure, TurnFailure};
use rig_agent::json::Json;
use rig_agent::message::Message;
use rig_agent::names::ToolNames;
use rig_agent::params::{merge_params, AdditionalParams, ParamMap};
use rig_agent::request::{allowed_tool_names_for_choice, build_prepared_completion_request};
use rig_agent::run::ProviderErrorClass;
use rig_agent::stream_item::{streaming_error_into_prompt, StreamingError};

fn tool_names(names: &[&str]) -> ToolNames {
    ToolNames::from_names(names.iter().map(|name| (*name).to_string()).collect())
}

fn json(text: &str) -> Json {
    Json::parse(text).expect("json")
}

#[test]
fn allowed_tool_names_defaults_to_all_executable_tools() {
    let executable = tool_names(&["add", "subtract"]);

    assert_eq!(
        allowed_tool_names_for_choice(&executable, None).unwrap(),
        executable
    );
}

#[test]
fn allowed_tool_names_auto_and_required_allow_all_executable_tools() {
    let executable = tool_names(&["add", "subtract"]);

    assert_eq!(
        allowed_tool_names_for_choice(&executable, Some(&ToolChoice::Auto)).unwrap(),
        executable
    );
    assert_eq!(
        allowed_tool_names_for_choice(&executable, Some(&ToolChoice::Required)).unwrap(),
        executable
    );
}

#[test]
fn allowed_tool_names_none_allows_no_tools() {
    let executable = tool_names(&["add", "subtract"]);

    assert!(
        allowed_tool_names_for_choice(&executable, Some(&ToolChoice::NoTool))
            .unwrap()
            .is_empty()
    );
}

#[test]
fn allowed_tool_names_specific_allows_requested_executable_tools() {
    let executable = tool_names(&["add", "subtract"]);
    let choice = ToolChoice::Specific {
        function_names: vec!["add".to_string()],
    };

    assert_eq!(
        allowed_tool_names_for_choice(&executable, Some(&choice)).unwrap(),
        tool_names(&["add"])
    );
}

#[test]
fn allowed_tool_names_specific_rejects_missing_tools() {
    let executable = tool_names(&["add"]);
    let choice = ToolChoice::Specific {
        function_names: vec!["missing".to_string()],
    };

    let err = allowed_tool_names_for_choice(&executable, Some(&choice))
        .expect_err("missing specific tool should fail before provider request");

    assert!(matches!(
        err,
        CompletionError::RequestError(err)
            if err.to_string().contains("missing")
                && err.to_string().contains("add")
    ));
}

#[test]
fn allowed_tool_names_specific_rejects_empty_names() {
    let executable = tool_names(&["add"]);
    let choice = ToolChoice::Specific {
        function_names: vec![],
    };

    let err = allowed_tool_names_for_choice(&executable, Some(&choice))
        .expect_err("empty specific tool choice should fail before provider request");

    assert!(matches!(
        err,
        CompletionError::RequestError(err)
            if err.to_string().contains("requires at least one function name")
    ));
}

#[test]
fn required_with_no_advertised_tool_is_local_error() {
    let empty = tool_names(&[]);
    let err = allowed_tool_names_for_choice(&empty, Some(&ToolChoice::Required))
        .expect_err("Required with no advertised tool must fail locally");
    assert!(matches!(
        err,
        CompletionError::RequestError(err) if err.to_string().contains("Required")
    ));
}

#[test]
fn missing_tools_are_listed_in_the_order_asked_for() {
    let executable = tool_names(&["b", "a\"c"]);
    let choice = ToolChoice::Specific {
        function_names: vec!["z".to_string(), "b".to_string(), "y\n".to_string()],
    };
    let err = allowed_tool_names_for_choice(&executable, Some(&choice)).expect_err("missing");
    assert_eq!(
        err,
        CompletionError::RequestError(
            "ToolChoice::Specific requested tool names not advertised this turn: \
             [\"z\", \"y\\n\"]. Advertised: [\"a\\\"c\", \"b\"]."
                .to_string()
        )
    );
}

#[test]
fn names_are_kept_in_order_and_once() {
    let names = tool_names(&["b", "a", "b", "é", "ab", "Z"]);
    assert_eq!(names.names(), &vec!["Z", "a", "ab", "b", "é"]);
    assert!(names.contains(&"ab".to_string()));
    assert!(!names.contains(&"c".to_string()));
    assert_eq!(tool_names(&["x"]).with("a".to_string()), tool_names(&["a", "x"]));
}

#[test]
fn prompt_error_forwards_provider_response_to_completion_error() {
    let body = r#"{"error":{"message":"boom"}}"#;
    let inner = CompletionError::from_http_response(503, body);
    let error = PromptError::CompletionError(inner);

    assert_eq!(error.provider_response_status(), Some(503));
    assert_eq!(error.provider_response_body(), Some(body));
    let read = error
        .provider_response_json()
        .expect("valid json")
        .expect("present json");
    let value: serde_json::Value = serde_json::from_str(read.as_text()).expect("json");
    assert_eq!(value["error"]["message"], "boom");
}

#[test]
fn prompt_error_provider_response_helpers_forward_http_status_and_body() {
    let body = r#"{"error":{"message":"unauthorized"}}"#;
    let error = PromptError::CompletionError(CompletionError::HttpError {
        status: Some(401),
        body: Some(body.to_string()),
        message: "Invalid status code 401".to_string(),
    });

    assert_eq!(error.provider_response_body(), Some(body));
    assert_eq!(error.provider_response_status(), Some(401));
    assert_eq!(
        error.provider_response_json().expect("valid JSON body"),
        Some(json("{\"error\": { \"message\": \"unauthorized\" } }"))
    );
}

#[test]
fn prompt_error_provider_response_helpers_forward_wrapped_completion_error() {
    let body = r#"{"error":{"code":"invalid_request","message":"bad input"}}"#;
    let error = PromptError::CompletionError(CompletionError::ProviderResponse(
        ProviderResponseError {
            status: None,
            body: body.to_string(),
        },
    ));

    assert_eq!(error.provider_response_body(), Some(body));
    assert_eq!(error.provider_response_status(), None);
    assert_eq!(
        error.provider_response_json().expect("valid JSON body"),
        Some(json(
            "{ \"error\": { \"code\": \"invalid_request\", \"message\": \"bad input\" } }"
        ))
    );
}

#[test]
fn prompt_error_provider_response_helpers_return_none_for_unrelated_variant() {
    let error = PromptError::PromptCancelled {
        chat_history: vec![Message::user("hi")],
        reason: "cancelled".to_string(),
    };

    assert_eq!(error.provider_response_body(), None);
    assert_eq!(error.provider_response_status(), None);
    assert_eq!(
        error
            .provider_response_json()
            .expect("no body is not an error"),
        None
    );
}

#[test]
fn a_body_that_is_no_json_is_an_error() {
    let error = PromptError::CompletionError(CompletionError::from_http_response(500, "<html>"));
    assert!(error.provider_response_json().is_err());
}

#[test]
fn json_is_kept_in_its_compact_form() {
    assert_eq!(json(" { \"b\" : [ 1 , 2 ] } ").as_text(), "{\"b\":[1,2]}");
    assert!(Json::parse("{").is_err());
    assert_eq!(Json::parse_or_null("  ").as_text(), "null");
    assert_eq!(Json::parse_or_null("[ 1 ]").as_text(), "[1]");
    assert_eq!(Json::null(), json("null"));
}

#[test]
fn rate_limits_are_worth_another_try() {
    assert_eq!(
        classify_provider_error(&CompletionError::from_http_response(429, "slow down")),
        ProviderErrorClass::Retryable
    );
    assert_eq!(
        classify_provider_error(&CompletionError::ProviderError(
            "You hit the RATE LIMIT".to_string()
        )),
        ProviderErrorClass::Retryable
    );
    assert_eq!(
        classify_provider_error(&CompletionError::ProviderError("rate-limit".to_string())),
        ProviderErrorClass::Terminal
    );
    assert_eq!(
        classify_provider_error(&CompletionError::from_http_response(500, "oops")),
        ProviderErrorClass::Terminal
    );
    assert_eq!(
        classify_lowered(None, "a rate limit"),
        ProviderErrorClass::Retryable
    );
    assert_eq!(
        classify_lowered(Some(428), "rate  limit"),
        ProviderErrorClass::Terminal
    );
}

#[test]
fn failures_of_a_turn_are_told_apart() {
    let defect = StreamingError::Completion(CompletionError::MalformedToolCall {
        tool: "lookup".to_string(),
        reason: "cut off".to_string(),
    });
    assert_eq!(
        classify_turn_failure(&defect),
        TurnFailure::Defect("`lookup`: cut off".to_string())
    );
    let stop = StreamingError::Prompt(Box::new(PromptError::prompt_cancelled(
        Vec::new(),
        "enough",
    )));
    assert_eq!(
        classify_turn_failure(&stop),
        TurnFailure::Stop("enough".to_string())
    );
    let inner = StreamingError::Prompt(Box::new(PromptError::CompletionError(
        CompletionError::from_http_response(429, ""),
    )));
    assert_eq!(
        classify_turn_failure(&inner),
        TurnFailure::Provider(ProviderErrorClass::Retryable)
    );
    let other = StreamingError::Prompt(Box::new(PromptError::MemoryError(
        "rate limit".to_string(),
    )));
    assert_eq!(
        classify_turn_failure(&other),
        TurnFailure::Provider(ProviderErrorClass::Terminal)
    );
    assert_eq!(
        streaming_error_into_prompt(StreamingError::Completion(CompletionError::ResponseError(
            "r".to_string()
        ))),
        PromptError::CompletionError(CompletionError::ResponseError("r".to_string()))
    );
}

fn params(fields: &[(&str, &str)]) -> ParamMap {
    let mut map = ParamMap::new();
    for (name, value) in fields {
        map = map.with(name.to_string(), json(value));
    }
    map
}

#[test]
fn later_fields_win_and_other_values_give_way() {
    let merged = merge_params(
        Some(AdditionalParams::Object(params(&[("a", "1"), ("b", "2")]))),
        params(&[("b", "3"), ("c", "4")]),
    );
    let AdditionalParams::Object(map) = merged else {
        panic!("object");
    };
    let value = |name: &str| map.get(name).map(|value| value.as_text().to_string());
    assert_eq!(value("a").as_deref(), Some("1"));
    assert_eq!(value("b").as_deref(), Some("3"));
    assert_eq!(value("c").as_deref(), Some("4"));
    assert_eq!(value("d"), None);
    let mut names = map.names();
    names.sort();
    assert_eq!(names, ["a", "b", "c"]);
    assert_eq!(map.clone(), map);
    let emptied = params(&[]).merged_with(ParamMap::new());
    assert_eq!(emptied, ParamMap::new());
    assert!(emptied.names().is_empty());
    assert_eq!(
        params(&[("x", "{ \"y\": \"z\" }")]).get("x"),
        Some(json("{\"y\":\"z\"}"))
    );
    assert_eq!(
        merge_params(Some(AdditionalParams::Other(json("[1]"))), params(&[("x", "1")])),
        AdditionalParams::Object(params(&[("x", "1")]))
    );
    assert_eq!(
        merge_params(None, params(&[("x", "1")])),
        AdditionalParams::Object(params(&[("x", "1")]))
    );
}

fn tool(name: &str) -> ToolDefinition {
    ToolDefinition {
        name: name.to_string(),
        description: String::new(),
        parameters: json("{}"),
    }
}

#[test]
fn a_request_is_the_history_with_the_preamble_in_front() {
    let history = [Message::user("first"), Message::user("second")];
    let preamble = "be brief".to_string();
    let context = vec![Document {
        id: "static_doc_0".to_string(),
        text: "doc".to_string(),
        additional_props: Vec::new(),
    }];
    let prepared = build_prepared_completion_request(
        &history,
        Some(&preamble),
        &context,
        Some(0.5f64.to_bits()),
        Some(100),
        None,
        false,
        Some(&ToolChoice::Auto),
        vec![tool("sub"), tool("add")],
    )
    .expect("prepared");
    assert_eq!(prepared.request.prompt, Message::user("second"));
    assert_eq!(
        prepared.request.chat_history,
        vec![
            Message::system("be brief".to_string()),
            Message::user("first")
        ]
    );
    assert_eq!(prepared.request.max_tokens, Some(100));
    assert_eq!(prepared.request.temperature, Some(0.5f64.to_bits()));
    assert_eq!(prepared.executable_tool_names, tool_names(&["add", "sub"]));
    assert_eq!(prepared.allowed_tool_names, tool_names(&["add", "sub"]));
}

#[test]
fn an_impossible_choice_fails_before_the_request() {
    let history = [Message::user("go")];
    let failed = build_prepared_completion_request(
        &history,
        None,
        &Vec::new(),
        None,
        None,
        None,
        false,
        Some(&ToolChoice::Required),
        Vec::new(),
    );
    assert!(matches!(failed, Err(CompletionError::RequestError(_))));
}
