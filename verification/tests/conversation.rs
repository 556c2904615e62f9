//! A conversation keeps each tool call next to its result.

use rig_agent::conversation::{interrupted_results, Conversation};
use rig_agent::json::Json;
use rig_agent::message::{
    AssistantContent, Message, ToolCall, ToolFunction, ToolResult, ToolResultContent,
    ToolResultStatus, UserContent,
};
use rig_agent::one_or_many::OneOrMany;

fn user(text: &str) -> Message {
    Message::user(text)
}

fn assistant(content: Vec<AssistantContent>) -> Message {
    Message::Assistant {
        id: None,
        content: OneOrMany::many(content).expect("non-empty"),
    }
}

fn text_turn(text: &str) -> Message {
    assistant(vec![AssistantContent::text(text.to_string())])
}

fn tool_call(id: &str) -> AssistantContent {
    AssistantContent::ToolCall(ToolCall::new(
        id.to_string(),
        ToolFunction::new("echo".to_string(), Json::parse("{}").expect("json")),
    ))
}

fn tool_result(id: &str) -> ToolResult {
    ToolResult {
        id: id.to_string(),
        call_id: None,
        content: OneOrMany::one(ToolResultContent::text("ok".to_string())),
        status: None,
    }
}

fn user_texts(conversation: &mut Conversation) -> Vec<String> {
    conversation
        .messages_vec()
        .iter()
        .filter_map(|message| match message {
            Message::User { content } => content.iter().into_iter().find_map(|part| match part {
                UserContent::Text(text) => Some(text.text.clone()),
                _ => None,
            }),
            _ => None,
        })
        .collect()
}

#[test]
fn user_and_assistant_messages_fold_in_order() {
    let mut conversation = Conversation::new();
    conversation.user(user("q"));
    conversation.assistant(text_turn("a"));
    conversation.user(user("again"));
    assert_eq!(
        user_texts(&mut conversation),
        vec!["q".to_string(), "again".to_string()]
    );
    assert_eq!(conversation.len(), 3);
}

#[test]
fn from_messages_adopts_a_seed() {
    let mut conversation = Conversation::from_messages(vec![user("seed"), text_turn("a")]);
    conversation.user(user("next"));
    assert_eq!(conversation.len(), 3);
    assert_eq!(user_texts(&mut conversation), vec!["seed", "next"]);
}

#[test]
fn deferred_results_merge_into_one_user_message() {
    let mut conversation = Conversation::new();
    conversation.user(user("go"));
    conversation.assistant(assistant(vec![tool_call("c1"), tool_call("c2")]));
    conversation.tool_result(tool_result("c1"));
    conversation.tool_result(tool_result("c2"));
    let messages = conversation.messages_vec();
    assert_eq!(messages.len(), 3, "user, assistant, one merged batch");
    let Message::User { content } = &messages[2] else {
        panic!("the batch is one user message");
    };
    assert_eq!(content.len(), 2);
}

#[test]
fn a_prebatched_user_message_folds_identically() {
    let deferred: &mut Conversation = &mut Conversation::new();
    deferred.user(user("go"));
    deferred.assistant(assistant(vec![tool_call("c1"), tool_call("c2")]));
    deferred.tool_result(tool_result("c1"));
    deferred.tool_result(tool_result("c2"));

    let mut batched = Conversation::new();
    batched.user(user("go"));
    batched.assistant(assistant(vec![tool_call("c1"), tool_call("c2")]));
    batched.user(Message::User {
        content: OneOrMany::many(vec![
            UserContent::ToolResult(tool_result("c1")),
            UserContent::ToolResult(tool_result("c2")),
        ])
        .expect("non-empty"),
    });

    assert_eq!(deferred.messages_vec(), batched.messages_vec());
}

#[test]
fn steered_batches_extend_in_drain_order() {
    let mut conversation = Conversation::new();
    conversation.user(user("first"));
    conversation.extend_users(vec![user("a"), user("b")]);
    assert_eq!(user_texts(&mut conversation), vec!["first", "a", "b"]);
}

#[test]
fn pop_last_assistant_undoes_a_turn() {
    let mut conversation = Conversation::new();
    conversation.user(user("q"));
    conversation.assistant(text_turn("rejected"));
    conversation.pop_last_assistant();
    assert_eq!(conversation.len(), 1);
    // A no-op when the tail is not an assistant turn.
    conversation.pop_last_assistant();
    assert_eq!(conversation.len(), 1);
}

#[test]
fn new_since_splits_at_the_entry_boundary() {
    let mut conversation = Conversation::new();
    conversation.user(user("entry"));
    let entry_len = conversation.len();
    conversation.assistant(text_turn("new"));
    conversation.user(user("steer"));
    assert_eq!(conversation.new_since(entry_len).len(), 2);
    assert_eq!(conversation.new_since(0).len(), 3);
}

#[test]
fn a_complete_roundtrip_is_not_dangling() {
    let mut conversation = Conversation::new();
    conversation.user(user("go"));
    conversation.assistant(assistant(vec![tool_call("c1")]));
    conversation.tool_result(tool_result("c1"));
    let _ = conversation.messages();
    assert!(conversation.dangling().is_none());
}

#[test]
fn an_unanswered_call_dangles() {
    let mut conversation = Conversation::new();
    conversation.user(user("go"));
    conversation.assistant(assistant(vec![tool_call("c1")]));
    let _ = conversation.messages();
    let dangling = conversation.dangling().expect("dangles");
    assert_eq!(dangling.calls.len(), 1);
    assert_eq!(dangling.calls[0].id, "c1");
}

#[test]
fn a_partially_answered_batch_still_dangles_the_rest() {
    let mut conversation = Conversation::new();
    conversation.user(user("go"));
    conversation.assistant(assistant(vec![tool_call("c1"), tool_call("c2")]));
    conversation.tool_result(tool_result("c1"));
    let _ = conversation.messages();
    let dangling = conversation.dangling().expect("c2 dangles");
    assert_eq!(dangling.calls.len(), 1);
    assert_eq!(dangling.calls[0].id, "c2");
}

#[test]
fn interrupted_results_answer_every_call_explicitly() {
    let mut conversation = Conversation::new();
    conversation.user(user("go"));
    conversation.assistant(assistant(vec![tool_call("c1"), tool_call("c2")]));
    let _ = conversation.messages();
    let dangling = conversation.dangling().expect("dangles");
    let results = interrupted_results(&dangling);
    assert_eq!(results.len(), 2);
    for result in &results {
        let text = result
            .content
            .iter()
            .into_iter()
            .filter_map(|part| match part {
                ToolResultContent::Text(text) => Some(text.text.as_str()),
                _ => None,
            })
            .collect::<String>();
        assert!(
            text.to_lowercase().contains("interrupted"),
            "synthetic result must say it was interrupted: {text}"
        );
    }
}

#[test]
fn a_user_message_closes_the_roundtrip() {
    let mut conversation = Conversation::new();
    conversation.assistant(assistant(vec![tool_call("c1")]));
    conversation.user(user("actually, stop"));
    let _ = conversation.messages();
    assert!(conversation.dangling().is_none());
}

#[test]
fn interrupted_results_repair_a_conversation() {
    let mut conversation = Conversation::new();
    conversation.user(user("go"));
    conversation.assistant(assistant(vec![tool_call("c1"), tool_call("c2")]));
    let dangling = conversation.dangling().expect("dangles");
    for result in interrupted_results(&dangling) {
        assert!(matches!(
            result.status,
            Some(ToolResultStatus::Failed { .. })
        ));
        conversation.tool_result(result);
    }
    let _ = conversation.messages();
    assert!(conversation.dangling().is_none());
    assert_eq!(conversation.len(), 3);
}

#[test]
fn results_are_in_the_messages_once_they_are_read() {
    let mut conversation = Conversation::new();
    assert!(conversation.is_empty());
    conversation.user(user("go"));
    conversation.assistant(assistant(vec![tool_call("c1")]));
    conversation.tool_result(tool_result("c1"));
    assert_eq!(conversation.committed().len(), 2);
    assert_eq!(conversation.messages().len(), 3);
    assert_eq!(conversation.committed().len(), 3);
    assert!(!conversation.is_empty());
}

fn results_message(ids: &[&str]) -> Message {
    Message::User {
        content: OneOrMany::many(
            ids.iter()
                .map(|id| UserContent::ToolResult(tool_result(id)))
                .collect(),
        )
        .expect("non-empty"),
    }
}

fn dangling_ids(conversation: &Conversation) -> Vec<String> {
    match conversation.dangling() {
        Some(dangling) => dangling.calls.into_iter().map(|call| call.id).collect(),
        None => Vec::new(),
    }
}

#[test]
fn an_adopted_list_dangles_where_it_breaks_off() {
    let turn = || assistant(vec![tool_call("c1"), tool_call("c2")]);
    let adopt = |rest: Vec<Message>| {
        let mut messages = vec![user("go")];
        messages.extend(rest);
        Conversation::from_messages(messages)
    };
    assert_eq!(dangling_ids(&adopt(vec![turn()])), ["c1", "c2"]);
    assert_eq!(
        dangling_ids(&adopt(vec![turn(), results_message(&["c1"])])),
        ["c2"]
    );
    assert!(dangling_ids(&adopt(vec![turn(), results_message(&["c1", "c2"])])).is_empty());
    assert!(dangling_ids(&adopt(vec![turn(), user("actually, stop")])).is_empty());
    assert!(dangling_ids(&adopt(vec![text_turn("done")])).is_empty());
}

#[test]
fn an_adopted_list_can_be_repaired() {
    let mut conversation =
        Conversation::from_messages(vec![user("go"), assistant(vec![tool_call("c1")])]);
    let dangling = conversation.dangling().expect("dangles");
    for result in interrupted_results(&dangling) {
        conversation.tool_result(result);
    }
    assert!(conversation.dangling().is_none());
    assert_eq!(conversation.len(), 3);
}

#[test]
fn what_was_read_is_adopted_as_it_was() {
    let mut conversation = Conversation::new();
    conversation.user(user("go"));
    conversation.assistant(assistant(vec![tool_call("c1"), tool_call("c2")]));
    conversation.tool_result(tool_result("c1"));
    let mut resumed = Conversation::from_messages(conversation.messages_vec());
    assert_eq!(dangling_ids(&resumed), dangling_ids(&conversation));
    resumed.tool_result(tool_result("c2"));
    assert!(resumed.dangling().is_none());
}

#[test]
fn a_dropped_turn_leaves_nothing_dangling() {
    let mut conversation = Conversation::new();
    conversation.user(user("go"));
    conversation.assistant(assistant(vec![tool_call("c1")]));
    conversation.pop_last_assistant();
    assert_eq!(conversation.messages_vec(), vec![user("go")]);
    assert!(conversation.dangling().is_none());

    conversation.assistant(assistant(vec![tool_call("c1"), tool_call("c2")]));
    conversation.tool_result(tool_result("c1"));
    conversation.pop_last_assistant();
    assert_eq!(conversation.messages_vec(), vec![user("go")]);
    assert!(conversation.dangling().is_none());
}

#[test]
fn a_dropped_turn_leaves_what_dangled_before_it() {
    let mut conversation = Conversation::from_messages(vec![
        user("go"),
        assistant(vec![tool_call("c1"), tool_call("c2")]),
        results_message(&["c1"]),
    ]);
    conversation.assistant(assistant(vec![tool_call("c3")]));
    assert_eq!(dangling_ids(&conversation), ["c3"]);
    conversation.pop_last_assistant();
    assert_eq!(dangling_ids(&conversation), ["c2"]);
}

#[test]
fn the_notice_of_an_interrupted_call() {
    let conversation = Conversation::from_messages(vec![assistant(vec![tool_call("c1")])]);
    let results = interrupted_results(&conversation.dangling().expect("dangles"));
    let lines = [
        "[tool execution was interrupted before completing — the call \"",
        "                 may have had partial effects; verify them before relying on \"",
        "                 anything it did]",
    ];
    assert_eq!(
        results[0].content,
        OneOrMany::one(ToolResultContent::text(lines.join("\n")))
    );
}
