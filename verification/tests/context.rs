//! A context keeps the messages that it is given, in order, untouched.

use rig_agent::context::Context;
use rig_agent::json::Json;
use rig_agent::message::{
    AssistantContent, Message, ToolCall, ToolFunction, ToolResult, ToolResultContent, UserContent,
};
use rig_agent::one_or_many::OneOrMany;

fn user(text: &str) -> Message {
    Message::user(text)
}

fn assistant(text: &str) -> Message {
    Message::Assistant {
        id: None,
        content: OneOrMany::one(AssistantContent::text(text.to_string())),
    }
}

fn tool_results_message() -> Message {
    Message::User {
        content: OneOrMany::many(vec![
            UserContent::ToolResult(ToolResult {
                id: "c1".to_string(),
                call_id: None,
                content: OneOrMany::one(ToolResultContent::text("one".to_string())),
                status: None,
            }),
            UserContent::ToolResult(ToolResult {
                id: "c2".to_string(),
                call_id: None,
                content: OneOrMany::one(ToolResultContent::text("two".to_string())),
                status: None,
            }),
        ])
        .expect("non-empty"),
    }
}

fn echo(id: &str) -> AssistantContent {
    AssistantContent::ToolCall(ToolCall::new(
        id.to_string(),
        ToolFunction::new("echo".to_string(), Json::parse("{}").expect("json")),
    ))
}

#[test]
fn folds_keep_messages_in_order() {
    let mut context = Context::new();
    context.fold(user("q"));
    context.fold(assistant("a"));
    context.fold(user("again"));
    let messages = context.messages();
    assert_eq!(messages.len(), 3);
    assert!(matches!(&messages[0], Message::User { .. }));
    assert!(matches!(&messages[1], Message::Assistant { .. }));
    assert!(matches!(&messages[2], Message::User { .. }));
}

#[test]
fn a_batch_folds_as_one_ordered_extension() {
    let mut context = Context::new();
    context.fold(user("seed"));
    context.fold_all(vec![assistant("a"), user("next")]);
    assert_eq!(context.messages().len(), 3);
    // An empty batch is a no-op.
    context.fold_all(Vec::new());
    assert_eq!(context.messages().len(), 3);
}

#[test]
fn seeding_is_a_new_context_plus_one_batch() {
    let seed = vec![user("one"), assistant("two")];
    let mut seeded = Context::new();
    seeded.fold_all(seed.clone());
    assert_eq!(seeded.messages(), seed.as_slice());
}

#[test]
fn into_messages_hands_the_list_over() {
    let mut context = Context::new();
    context.fold(user("only"));
    let messages = context.into_messages();
    assert_eq!(messages.len(), 1);
    assert!(matches!(&messages[0], Message::User { .. }));
}

#[test]
fn messages_are_kept_verbatim() {
    let mut context = Context::new();
    let folded = vec![user("q"), assistant("a"), tool_results_message()];
    context.fold_all(folded.clone());
    assert_eq!(context.messages(), folded.as_slice());
}

#[test]
fn consecutive_same_role_messages_stay_separate() {
    let mut context = Context::new();
    context.fold(user("prompt"));
    context.fold(user("a steer"));
    assert_eq!(context.messages().len(), 2);
}

#[test]
fn tool_content_is_opaque() {
    let call_turn = Message::Assistant {
        id: Some("turn-1".to_string()),
        content: OneOrMany::many(vec![echo("c1"), echo("c2")]).expect("non-empty"),
    };
    let mut context = Context::new();
    context.fold(user("go"));
    context.fold(call_turn);
    context.fold(tool_results_message());
    assert_eq!(context.messages().len(), 3);
}

#[test]
fn default_and_new_agree() {
    assert_eq!(Context::new(), Context::default());
    assert_eq!(Context::default().messages(), &[] as &[Message]);
}

#[test]
fn a_batch_is_the_same_as_its_messages_one_by_one() {
    let batch = vec![user("a"), assistant("b"), user("c")];
    let mut at_once = Context::new();
    at_once.fold_all(batch.clone());
    let mut one_by_one = Context::new();
    for message in batch {
        one_by_one.fold(message);
    }
    assert_eq!(at_once, one_by_one);
}
