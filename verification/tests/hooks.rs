//! Hooks: the order in which they are asked, and what their answers come to.

use std::sync::atomic::{AtomicUsize, Ordering};

use rig_agent::hook::{
    resolve_tool_call, resolve_tool_result, CallResolution, CallResolutionStep, HookSpec,
    HookStack, ResultResolution, ResultResolutionStep, ToolCall, ToolCallAction, ToolResultAction,
    ToolResultEvent,
};
use rig_agent::hook_context::{HookContext, ToolCallRewriteFrames};
use rig_agent::json::Json;
use rig_agent::tool::{ExecutionResult, ToolOutput};
use rig_agent::tool_run::{
    tool_call_decision, tool_result_decision, ToolCallDecision, ToolResultDecision,
};

fn json(text: &str) -> Json {
    Json::parse(text).expect("json")
}

fn text(text: &str) -> ToolOutput {
    ToolOutput::text(text.to_string())
}

#[derive(Clone, Debug, PartialEq)]
struct NoopHook;

/// A hook by what it answers to a tool call.
#[derive(Clone)]
enum Answer {
    Run,
    Rewrite(&'static str),
    Skip(&'static str),
    Nested(Vec<Answer>),
}

/// Asks hooks one after the other, and notes the arguments that each was shown.
fn ask(hooks: &[Answer], args: &str, seen: &mut Vec<String>) -> (ToolCallAction, Option<Json>) {
    let mut resolution = CallResolution::new();
    for hook in hooks {
        let shown = resolution.current_args(args).to_string();
        let answer = match hook {
            Answer::Run => (ToolCallAction::run(), None),
            Answer::Rewrite(args) => (ToolCallAction::rewrite(json(args)), None),
            Answer::Skip(reason) => (ToolCallAction::skip(reason), None),
            Answer::Nested(inner) => ask(inner, &shown, seen),
        };
        if !matches!(hook, Answer::Nested(_)) {
            seen.push(shown);
        }
        match resolution.answer(answer) {
            CallResolutionStep::Next(next) => resolution = next,
            CallResolutionStep::Skipped(reason, args) => {
                return (ToolCallAction::Skip(reason), args)
            }
        }
    }
    resolution.finish()
}

#[test]
fn hook_context_reports_identity_and_turn() {
    let mut context = HookContext::new(true, Some("agent".into()), "run-1".to_string(), ());
    assert!(context.is_streaming());
    assert_eq!(context.agent_name(), Some("agent"));
    context.set_turn(3);
    assert_eq!(context.turn(), 3);
    assert!(!context.run_id().is_empty());
}

#[test]
fn a_context_knows_the_turn_that_was_announced() {
    let mut context = HookContext::new(false, None, "run-2".to_string(), 7u8);
    assert_eq!(context.turn_id(), None);
    context.set_turn_id("turn-a".to_string());
    context.set_turn_id("turn-b".to_string());
    assert_eq!(context.turn_id().as_deref(), Some("turn-b"));
    assert_eq!(*context.capabilities(), 7);
}

#[test]
fn rewrite_output_replaces_with_explicit_tool_output() {
    let output = text("redacted");
    assert_eq!(
        ToolResultAction::rewrite_output(output.clone()),
        ToolResultAction::Rewrite(output)
    );
}

#[test]
fn hook_stack_len_reports_registration_count() {
    let mut stack = HookStack::new();
    assert_eq!(stack.len(), 0);
    assert!(stack.is_empty());
    stack.push(NoopHook);
    stack.push(NoopHook);
    assert_eq!(stack.len(), 2);
    assert!(!stack.is_empty());
}

#[test]
fn hook_stack_debug_lists_registration_ids() {
    let mut stack = HookStack::new();
    stack.push(NoopHook);
    let debug = format!("{stack:?}");
    assert!(
        debug.contains("trait-0"),
        "the registration id is the stack's identity: {debug}"
    );
}

#[test]
fn action_types_are_event_specific() {
    fn call(_: ToolCallAction) {}
    fn result(_: ToolResultAction) {}
    call(ToolCallAction::run());
    result(ToolResultAction::keep());
    let calls = AtomicUsize::new(0);
    calls.fetch_add(1, Ordering::Relaxed);
    assert_eq!(calls.load(Ordering::Relaxed), 1);
}

#[test]
fn rewrite_args_resolves_to_proceed_with_for_tool_call() {
    let args = json("{\"x\": 1, \"y\": 2}");
    match tool_call_decision(ToolCallAction::rewrite(args.clone())) {
        ToolCallDecision::ProceedWith(replacement) => assert_eq!(replacement, args),
        _ => panic!("ToolCallAction::Rewrite should resolve to ProceedWith"),
    }
    // The fallible constructor builds the same variant as the value constructor.
    assert_eq!(
        ToolCallAction::try_rewrite(Json::parse("{\"x\": 1, \"y\": 2}")).expect("serializes"),
        ToolCallAction::rewrite(json("{\"x\": 1, \"y\": 2}")),
    );
    assert!(ToolCallAction::try_rewrite(Json::parse("{")).is_err());
}

#[test]
fn rewrite_result_resolves_to_replace_for_tool_result() {
    match tool_result_decision(ToolResultAction::rewrite("redacted")) {
        ToolResultDecision::Replace(result) => {
            assert_eq!(result.as_text(), Some("redacted"))
        }
        _ => panic!("ToolResultAction::Rewrite should resolve to Replace"),
    }
}

#[test]
fn priority_orders_and_ties_keep_registration_order() {
    let stack = HookStack::new()
        .hook(HookSpec::from(("first", 0)), "first")
        .hook(HookSpec::from(("auditor", -10)), "auditor")
        .hook(HookSpec::from("denier"), "denier")
        .hook(HookSpec::from(("second", 0)), "second");
    assert_eq!(stack.ids(), ["auditor", "first", "denier", "second"]);
    assert_eq!(stack.get(0), Some(&"auditor"));
    assert_eq!(stack.get(4), None);
    assert_eq!(stack.clone().ids(), stack.ids());
}

#[test]
fn a_deny_absorbs_what_comes_behind_it() {
    let mut seen = Vec::new();
    let (action, salvaged) = ask(
        &[
            Answer::Run,
            Answer::Skip("no"),
            Answer::Rewrite("{\"late\":1}"),
        ],
        "{}",
        &mut seen,
    );
    assert_eq!(action, ToolCallAction::skip("no"));
    assert_eq!(salvaged, None);
    assert_eq!(seen, ["{}", "{}"]);
}

#[test]
fn rewrites_chain_in_asking_order() {
    let mut seen = Vec::new();
    let (action, salvaged) = ask(
        &[
            Answer::Rewrite("{\"step\":1}"),
            Answer::Run,
            Answer::Rewrite("{\"step\":2}"),
        ],
        "{\"step\":0}",
        &mut seen,
    );
    assert_eq!(seen, ["{\"step\":0}", "{\"step\":1}", "{\"step\":1}"]);
    assert_eq!(action, ToolCallAction::rewrite(json("{\"step\":2}")));
    assert_eq!(salvaged, None);
}

#[test]
fn a_string_rewrite_is_shown_as_json() {
    let mut seen = Vec::new();
    let (action, _) = ask(
        &[
            Answer::Nested(vec![Answer::Rewrite("\"sanitized\"")]),
            Answer::Run,
        ],
        "{}",
        &mut seen,
    );
    assert_eq!(seen, ["{}", "\"sanitized\""]);
    assert_eq!(action, ToolCallAction::rewrite(json("\"sanitized\"")));
}

#[test]
fn a_skip_behind_a_rewrite_keeps_the_rewrite() {
    let (action, salvaged) = ask(
        &[Answer::Nested(vec![Answer::Nested(vec![
            Answer::Rewrite("{\"a\":1}"),
            Answer::Rewrite("{\"a\":2}"),
            Answer::Skip("denied"),
        ])])],
        "{}",
        &mut Vec::new(),
    );
    assert_eq!(action, ToolCallAction::skip("denied"));
    assert_eq!(salvaged, Some(json("{\"a\":2}")));
}

#[test]
fn a_nested_stack_decides_like_its_hooks() {
    let flat = vec![
        Answer::Rewrite("{\"a\":1}"),
        Answer::Run,
        Answer::Skip("denied"),
    ];
    let nested = vec![
        flat[0].clone(),
        Answer::Nested(vec![flat[1].clone(), flat[2].clone()]),
    ];
    assert_eq!(
        ask(&flat, "{}", &mut Vec::new()),
        ask(&nested, "{}", &mut Vec::new())
    );
}

#[test]
fn all_answers_at_once_decide_the_same() {
    let answers = vec![
        (ToolCallAction::rewrite(json("{\"a\":1}")), None),
        (ToolCallAction::run(), None),
        (ToolCallAction::skip("why"), None),
        (ToolCallAction::run(), None),
    ];
    assert_eq!(
        resolve_tool_call(answers),
        (ToolCallAction::skip("why"), Some(json("{\"a\":1}")))
    );
    assert_eq!(resolve_tool_call(Vec::new()), (ToolCallAction::run(), None));
}

#[test]
fn result_rewrites_chain_and_a_stop_ends_the_chain() {
    let raw = ExecutionResult::success(text("raw"));
    let mut resolution = ResultResolution::new();
    assert_eq!(resolution.current_presentation(&raw.output), &text("raw"));
    let ResultResolutionStep::Next(next) = resolution.answer(ToolResultAction::rewrite("one"))
    else {
        panic!("goes on");
    };
    resolution = next;
    assert_eq!(resolution.current_presentation(&raw.output), &text("one"));
    let event = ToolResultEvent {
        tool_name: "t",
        tool_call_id: None,
        internal_call_id: "i",
        args: "{}",
        presentation: resolution.current_presentation(&raw.output),
        raw_result: &raw,
        tool_context: &7u8,
    };
    let event = event.clone();
    assert_eq!(*event.tool_context, 7);
    assert_eq!(event.raw_result.output, text("raw"));
    assert_eq!(
        resolve_tool_result(vec![
            ToolResultAction::rewrite("one"),
            ToolResultAction::keep(),
            ToolResultAction::rewrite("two"),
        ]),
        ToolResultAction::rewrite("two")
    );
    assert_eq!(
        resolve_tool_result(vec![
            ToolResultAction::rewrite("one"),
            ToolResultAction::stop("enough"),
            ToolResultAction::rewrite("two"),
        ]),
        ToolResultAction::stop("enough")
    );
    assert_eq!(resolve_tool_result(Vec::new()), ToolResultAction::keep());
}

#[test]
fn frames_carry_rewrites_of_their_call_only() {
    let mut frames = ToolCallRewriteFrames::new();
    let one = "one".to_string();
    let two = "two".to_string();
    frames.begin(&one);
    frames.begin(&two);
    frames.record(&one, json("1"));
    frames.record(&two, json("2"));
    frames.record(&one, json("11"));
    assert_eq!(frames.finish(&two), Some(json("2")));
    assert_eq!(frames.finish(&one), Some(json("11")));
    assert_eq!(frames.finish(&one), None);
    // Nothing is under way for this call, so nothing is kept.
    frames.record(&one, json("1"));
    frames.begin(&one);
    assert_eq!(frames.finish(&one), None);
}

#[test]
fn an_inner_frame_stays_apart_from_the_outer_one() {
    let mut context = HookContext::new(false, None, "run-3".to_string(), ());
    let id = "call".to_string();
    context.begin_tool_call_resolution(&id);
    context.record_tool_call_rewrite(&id, json("1"));
    context.begin_tool_call_resolution(&id);
    assert_eq!(context.finish_tool_call_resolution(&id), None);
    assert_eq!(context.finish_tool_call_resolution(&id), Some(json("1")));
}

#[test]
fn a_tool_call_event_is_plain_data() {
    let event = ToolCall {
        tool_name: "add",
        tool_call_id: Some("tc1"),
        internal_call_id: "ic1",
        args: "{}",
    };
    let copy = event;
    assert_eq!(copy.tool_name, event.tool_name);
    assert_eq!(copy.tool_call_id, Some("tc1"));
}
