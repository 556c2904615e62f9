//! What holds of every run.

use vstd::prelude::*;
use crate::completion::{CompletionErrorView, FinishReasonView, PromptErrorView};
use crate::message::{calls_in, AssistantContentView, MessageView, TextView, UserContentView};
use crate::prompt_response::CompletionCallView;
use crate::run::{
    defect_error, AgentRunStepView, PendingView, ProviderErrorClass, RetryRequestView, RunView,
    StageView, TURN_RETRY_CAP,
};
use crate::turn::{admission, lemma_calls_in_is_empty, ModelTurnView};
use crate::turn_laws::{
    call_of_part, law_calls_are_the_call_parts, law_output_is_the_texts, mentions, text_of_part,
};
use crate::usage::{sum_usage, Usage};

verus! {

/// An outcome that a run can be told of, or a step that it is asked for.
pub enum RunEvent {
    Step,
    Record(Usage, Option<FinishReasonView>),
    Commit(ModelTurnView),
    Results(Seq<UserContentView>),
    Broken(Seq<char>),
    ProviderError(ProviderErrorClass, PromptErrorView),
    Terminate(Seq<char>),
    Reject(RetryRequestView),
    Steers(Seq<MessageView>),
}

/// The run after an event.
pub open spec fn after_event(run: RunView, event: RunEvent) -> RunView {
    match event {
        RunEvent::Step => run.after_step(),
        RunEvent::Record(usage, finish_reason) => if run.unrecorded() {
            run.recording(usage, finish_reason)
        } else {
            run
        },
        RunEvent::Commit(turn) => run.after_commit(turn),
        RunEvent::Results(results) => run.after_results(results),
        RunEvent::Broken(reason) => run.after_broken(reason),
        RunEvent::ProviderError(class, error) => run.after_provider_error(class, error),
        RunEvent::Terminate(reason) => run.after_terminate(reason),
        RunEvent::Reject(request) => run.after_rejection(request),
        RunEvent::Steers(messages) => run.after_steers(messages),
    }
}

/// The run after several events.
pub open spec fn after_events(run: RunView, events: Seq<RunEvent>) -> RunView
    decreases events.len(),
{
    if events.len() == 0 {
        run
    } else {
        after_event(after_events(run, events.drop_last()), events.last())
    }
}

/// The budget of a run, but for the first call, which is always made.
pub open spec fn budget(run: RunView) -> nat {
    if run.max_turns == 0 {
        1
    } else {
        run.max_turns
    }
}

/// Whether a run keeps to its budget.
pub open spec fn within_budget(run: RunView) -> bool {
    &&& run.turn <= budget(run)
    &&& run.stage is Ready ==> run.turn < budget(run)
    &&& run.stage is Calling ==> run.turn >= 1
}

/// A run keeps to its budget: whatever it is told, a model call that counts
/// against the budget is never issued under a number above it.
pub proof fn law_budget_is_kept(start: RunView, events: Seq<RunEvent>)
    requires
        within_budget(start),
    ensures
        within_budget(after_events(start, events)),
        after_events(start, events).step() matches Ok(AgentRunStepView::CallModel { turn, .. })
            ==> turn <= budget(start),
        budget(after_events(start, events)) == budget(start),
    decreases events.len(),
{
    if events.len() > 0 {
        law_budget_is_kept(start, events.drop_last());
    }
}

/// A new run keeps to its budget, and its first call carries the whole history,
/// whatever the budget.
pub proof fn law_first_turn_is_always_issued(history: Seq<MessageView>, max_turns: nat)
    ensures
        within_budget(RunView { max_turns, ..RunView::start(history) }),
        (RunView { max_turns, ..RunView::start(history) }).step() == Ok::<
            AgentRunStepView,
            PromptErrorView,
        >(AgentRunStepView::CallModel { history, turn: 1 }),
{
}

/// A turn that cannot be read leaves no trace in the history and gives its number
/// back: within the cap, with no user message coming in, the next call is the same
/// call again.
pub proof fn law_broken_turn_leaves_no_trace(run: RunView, reason: Seq<char>)
    requires
        run.valid(),
        run.stage is Calling,
        run.terminating is None,
        run.turn <= run.max_turns,
        run.defects < TURN_RETRY_CAP,
    ensures
        run.after_broken(reason).after_steers(Seq::empty()).step() == Ok::<
            AgentRunStepView,
            PromptErrorView,
        >(AgentRunStepView::CallModel { history: run.history, turn: run.turn }),
{
}

/// Beyond the cap, one more turn in a row that cannot be read fails the run.
pub proof fn law_too_many_defects_in_a_row_fail(run: RunView, reason: Seq<char>)
    requires
        run.valid(),
        run.stage is Calling,
        run.terminating is None,
        run.defects >= TURN_RETRY_CAP,
    ensures
        run.after_broken(reason).steer_outcome(Seq::empty()) == Err::<(), PromptErrorView>(
            defect_error(reason),
        ),
        run.after_broken(reason).after_steers(Seq::empty()).stage is Over,
{
}

/// A provider failure that is retried gives the number of its call back; one in a
/// row beyond the cap, or one that is not worth another try, fails the run with
/// the provider's own error.
pub proof fn law_provider_failures(
    run: RunView,
    class: ProviderErrorClass,
    error: PromptErrorView,
)
    requires
        run.valid(),
        run.stage is Calling,
        run.terminating is None,
        run.turn <= run.max_turns,
    ensures
        class == ProviderErrorClass::Retryable && run.provider_failures < TURN_RETRY_CAP
            ==> run.after_provider_error(class, error).after_steers(Seq::empty()).step() == Ok::<
            AgentRunStepView,
            PromptErrorView,
        >(AgentRunStepView::CallModel { history: run.history, turn: run.turn }),
        class == ProviderErrorClass::Terminal || run.provider_failures >= TURN_RETRY_CAP
            ==> run.after_provider_error(class, error).steer_outcome(Seq::empty()) == Err::<
            (),
            PromptErrorView,
        >(error),
{
}

/// Retries without a user at hand come to an end: each adds to the failures in a
/// row, of which a run that goes on has at most twice the cap.
pub proof fn law_retries_come_to_an_end(
    run: RunView,
    reason: Seq<char>,
    class: ProviderErrorClass,
    error: PromptErrorView,
)
    requires
        run.valid(),
        run.stage is Calling,
    ensures
        ({
            let next = run.after_broken(reason).after_steers(Seq::empty());
            next.stage is Ready ==> run.defects + run.provider_failures < next.defects
                + next.provider_failures <= 2 * TURN_RETRY_CAP
        }),
        ({
            let next = run.after_provider_error(class, error).after_steers(Seq::empty());
            next.stage is Ready ==> run.defects + run.provider_failures < next.defects
                + next.provider_failures <= 2 * TURN_RETRY_CAP
        }),
{
}

/// A user who steers clears all failures, and so does a committed turn.
pub proof fn law_steering_and_commits_clear_failures(
    run: RunView,
    messages: Seq<MessageView>,
    turn: ModelTurnView,
)
    requires
        messages.len() > 0,
    ensures
        run.stage is Draining ==> run.after_steers(messages).defects == 0 && run.after_steers(
            messages,
        ).provider_failures == 0,
        run.stage is Calling ==> run.after_commit(turn).defects == 0 && run.after_commit(
            turn,
        ).provider_failures == 0,
{
}

/// Queued messages land in the history before a stop takes effect, and the error
/// of the stop carries them.
pub proof fn law_steers_land_before_the_stop(run: RunView, messages: Seq<MessageView>)
    requires
        run.stage is Draining,
        run.terminating is Some,
    ensures
        run.after_steers(messages).history == run.history + messages,
        run.after_steers(messages).stage is Over,
        run.steer_outcome(messages) == Err::<(), PromptErrorView>(
            PromptErrorView::PromptCancelled {
                chat_history: run.history + messages,
                reason: run.terminating->0,
            },
        ),
{
    if messages.len() == 0 {
        assert(run.history + messages =~= run.history);
    }
}

/// A run is done exactly where its last turn called no tools, no user message came
/// in, and no stop is due.
pub proof fn law_done_exactly_when_silent(run: RunView, messages: Seq<MessageView>)
    requires
        run.stage is Draining,
    ensures
        run.after_steers(messages).stage is Finished <==> run.finishing() && messages.len() == 0
            && run.terminating is None,
{
}

/// Steering is taken at the drain only: elsewhere it is refused, and the run is as
/// before.
pub proof fn law_steering_only_at_the_drain(run: RunView, messages: Seq<MessageView>)
    requires
        !(run.stage is Draining),
    ensures
        run.steer_outcome(messages) is Err,
        run.after_steers(messages) == run,
{
}

/// The history only grows: whatever a run is told, the messages that were there
/// stay in their places. The one exception is a final turn that is to be repeated.
pub proof fn law_history_only_grows(run: RunView, event: RunEvent)
    requires
        event != RunEvent::Reject(RetryRequestView::Repeat),
    ensures
        run.history.is_prefix_of(after_event(run, event).history),
{
    let after = after_event(run, event).history;
    assert(run.history =~= after.subrange(0, run.history.len() as int));
}

/// A final turn that is to be repeated is dropped; one that gets feedback stays,
/// with the feedback behind it.
pub proof fn law_rejected_final_turn(run: RunView, turn: ModelTurnView, text: Seq<char>)
    requires
        run.stage is Calling,
        !turn.carries_tools(),
    ensures
        run.after_commit(turn).after_rejection(RetryRequestView::Repeat).history == run.history,
        run.after_commit(turn).after_rejection(RetryRequestView::Feedback(text)).history
            == run.history.push(turn.message()).push(crate::message::user_message(text)),
{
    assert(run.history.push(turn.message()).drop_last() =~= run.history);
}

/// The number of tool calls that a message carries.
pub open spec fn calls_carried(message: MessageView) -> nat {
    match message {
        MessageView::Assistant { content, .. } => calls_in(content).len(),
        _ => 0,
    }
}

/// Whether `message` holds as many parts as `call_turn` carries tool calls.
pub open spec fn answers(message: MessageView, call_turn: MessageView) -> bool {
    match message {
        MessageView::User { content } => content.len() == calls_carried(call_turn),
        _ => false,
    }
}

/// Whether from `entry` on each message with tool calls, but for the last, is
/// followed by a user message with one part for each.
pub open spec fn answered_from(history: Seq<MessageView>, entry: int) -> bool {
    forall|i: int|
        entry <= i < history.len() - 1 && calls_carried(#[trigger] history[i]) > 0 ==> answers(
            history[i + 1],
            history[i],
        )
}

/// Whether the run cannot come to another model call.
pub open spec fn doomed(run: RunView) -> bool {
    ||| run.terminating is Some
    ||| run.stage is Over
    ||| run.stage is Finished
    ||| run.stage matches StageView::Draining(
        PendingView::Provider(ProviderErrorClass::Terminal, _),
    )
}

/// Whether the tool calls of the run have been answered, but for those of a last
/// turn that the run is about to have answered.
pub open spec fn settled(run: RunView, entry: int) -> bool {
    &&& 0 <= entry < run.history.len()
    &&& answered_from(run.history, entry)
    &&& match run.stage {
        StageView::ToolsReady(calls) => calls.len() == calls_carried(run.history.last()),
        StageView::ToolsRunning(n) => n == calls_carried(run.history.last()),
        _ => calls_carried(run.history.last()) == 0,
    }
    &&& run.finishing() ==> {
        &&& run.history.last() is Assistant
        &&& run.history.len() - 1 > entry
    }
}

proof fn lemma_answered_push(history: Seq<MessageView>, entry: int, message: MessageView)
    requires
        answered_from(history, entry),
        0 <= entry < history.len(),
        calls_carried(history.last()) == 0 || answers(message, history.last()),
    ensures
        answered_from(history.push(message), entry),
{
    let after = history.push(message);
    assert forall|i: int|
        entry <= i < after.len() - 1 && calls_carried(#[trigger] after[i]) > 0 implies answers(
        after[i + 1],
        after[i],
    ) by {
        assert(after[i] == history[i]);
        if i < history.len() - 1 {
            assert(calls_carried(history[i]) > 0);
        }
    }
}

proof fn lemma_answered_add(history: Seq<MessageView>, entry: int, messages: Seq<MessageView>)
    requires
        answered_from(history, entry),
        0 <= entry < history.len(),
        calls_carried(history.last()) == 0,
        forall|i: int| 0 <= i < messages.len() ==> calls_carried(#[trigger] messages[i]) == 0,
    ensures
        answered_from(history + messages, entry),
        calls_carried((history + messages).last()) == 0,
{
    let after = history + messages;
    assert forall|i: int|
        entry <= i < after.len() - 1 && calls_carried(#[trigger] after[i]) > 0 implies answers(
        after[i + 1],
        after[i],
    ) by {
        if i < history.len() - 1 {
            assert(calls_carried(history[i]) > 0);
        } else if i >= history.len() {
            assert(after[i] == messages[i - history.len()]);
        }
    }
    if messages.len() > 0 {
        assert(after.last() == messages[messages.len() - 1]);
    } else {
        assert(after =~= history);
    }
}

/// Whether the messages that an event brings in carry no tool calls.
pub open spec fn brings_no_calls(event: RunEvent) -> bool {
    event matches RunEvent::Steers(messages) ==> forall|i: int|
        0 <= i < messages.len() ==> calls_carried(#[trigger] messages[i]) == 0
}

/// A tool call never goes unanswered into a model call: as long as a run can come
/// to another one, each turn of the run with tool calls is followed in the history
/// by one user message with a result for each call.
pub proof fn law_roundtrips_are_closed(run: RunView, entry: int, event: RunEvent)
    requires
        doomed(run) || settled(run, entry),
        run.valid(),
        brings_no_calls(event),
    ensures
        doomed(after_event(run, event)) || settled(after_event(run, event), entry),
{
    if !doomed(run) {
        let after = after_event(run, event);
        match event {
            RunEvent::Commit(turn) => {
                lemma_calls_in_is_empty(turn.choice);
                if run.stage is Calling {
                    lemma_answered_push(run.history, entry, turn.message());
                    assert(after.history.last() == turn.message());
                    assert(admission(turn).len() == calls_in(turn.choice).len());
                }
            },
            RunEvent::Results(results) => {
                if run.results_outcome(results.len()) is Ok {
                    lemma_answered_push(
                        run.history,
                        entry,
                        crate::run::tool_results_message(results),
                    );
                    assert(after.history.last() == crate::run::tool_results_message(results));
                }
            },
            RunEvent::Reject(request) => {
                if run.finishing() {
                    match request {
                        RetryRequestView::Repeat => {
                            let kept = run.history.drop_last();
                            assert forall|i: int|
                                entry <= i < kept.len() - 1 && calls_carried(#[trigger] kept[i])
                                    > 0 implies answers(kept[i + 1], kept[i]) by {
                                assert(run.history[i] == kept[i]);
                            }
                            let last = kept.len() - 1;
                            assert(kept[last] == run.history[last]);
                        },
                        RetryRequestView::Feedback(text) => {
                            lemma_answered_push(
                                run.history,
                                entry,
                                crate::message::user_message(text),
                            );
                        },
                    }
                }
            },
            RunEvent::Steers(messages) => {
                if run.stage is Draining {
                    lemma_answered_add(run.history, entry, messages);
                    if messages.len() == 0 {
                        assert(run.history + messages =~= run.history);
                    }
                }
            },
            _ => {},
        }
    }
}

/// Whether a turn calls no tools.
pub open spec fn calls_nothing(turn: ModelTurnView) -> bool {
    forall|i: int| 0 <= i < turn.choice.len() ==> !((#[trigger] turn.choice[i]) is ToolCall)
}

/// The answer of a run is its last turn: part by part as the model gave it, with what its
/// texts say as the output. With it come all provider calls of the run, and what they used
/// in all. A call that was not billed before is billed with the turn.
pub proof fn law_answer_is_the_final_turn(run: RunView, turn: ModelTurnView)
    requires
        run.stage is Calling,
        run.terminating is None,
        calls_nothing(turn),
    ensures
        ({
            let done = run.after_commit(turn).after_steers(Seq::empty());
            &&& run.after_commit(turn).steer_outcome(Seq::empty()) is Ok
            &&& done.step() matches Ok(AgentRunStepView::Done(response))
            &&& response.content == turn.choice
            &&& response.output == turn.choice.filter_map(
                |part: AssistantContentView| text_of_part(part),
            ).flatten()
            &&& response.completion_calls == (if run.call_recorded {
                run.ledger.calls
            } else {
                run.ledger.calls.push(
                    CompletionCallView {
                        call_index: run.ledger.calls.len(),
                        usage: turn.usage,
                        finish_reason: turn.finish_reason,
                    },
                )
            })
            &&& response.usage == (if run.call_recorded {
                run.ledger.usage
            } else {
                sum_usage(run.ledger.usage, turn.usage)
            })
            &&& done.history == run.history.push(
                MessageView::Assistant { id: turn.message_id, content: turn.choice },
            )
            &&& done.after_step().step() is Err
            &&& done.after_step().history == done.history
        }),
{
    law_output_is_the_texts(turn.choice);
    assert(!turn.carries_tools());
}

/// A committed turn stands in the history as the model gave it, behind everything that was
/// there. Its calls are what the run asks for next, and nothing else about the run changes
/// but that its failures are forgotten.
pub proof fn law_committed_turn_stands_in_the_history(run: RunView, turn: ModelTurnView)
    requires
        run.stage is Calling,
    ensures
        ({
            let after = run.after_commit(turn);
            &&& run.commit_outcome() is Ok
            &&& after.history == run.history.push(
                MessageView::Assistant { id: turn.message_id, content: turn.choice },
            )
            &&& after.turn == run.turn
            &&& after.max_turns == run.max_turns
            &&& after.terminating == run.terminating
            &&& after.defects == 0 && after.provider_failures == 0
            &&& !calls_nothing(turn) ==> after.step() == Ok::<AgentRunStepView, PromptErrorView>(
                AgentRunStepView::CallTools { calls: admission(turn) },
            )
            &&& !calls_nothing(turn) ==> admission(turn).len() > 0 && admission(turn).len()
                == turn.choice.filter_map(|part: AssistantContentView| call_of_part(part)).len()
            &&& calls_nothing(turn) ==> after.step() == Ok::<AgentRunStepView, PromptErrorView>(
                AgentRunStepView::DrainSteers,
            )
        }),
        run.call_recorded ==> run.after_commit(turn).ledger == run.ledger,
        !run.call_recorded ==> run.after_commit(turn).ledger.calls.drop_last()
            == run.ledger.calls && run.after_commit(turn).ledger.calls.last().usage == turn.usage
            && run.after_commit(turn).ledger.calls.last().finish_reason == turn.finish_reason,
{
    law_calls_are_the_call_parts(turn.choice);
    lemma_calls_in_is_empty(turn.choice);
    if calls_nothing(turn) {
        assert(!turn.carries_tools());
    } else {
        assert(turn.carries_tools());
    }
    assert(run.ledger.recording(turn.usage, turn.finish_reason).calls.drop_last()
        =~= run.ledger.calls);
}

/// A turn outside a model call is refused, and so are results, failures and rejections that
/// nothing waits for; the run is then as before.
pub proof fn law_what_nothing_waits_for_is_refused(
    run: RunView,
    turn: ModelTurnView,
    results: Seq<UserContentView>,
    reason: Seq<char>,
    class: ProviderErrorClass,
    error: PromptErrorView,
    request: RetryRequestView,
)
    ensures
        run.commit_outcome() is Ok <==> run.stage is Calling,
        !(run.stage is Calling) ==> run.after_commit(turn) == run,
        run.broken_outcome() is Ok <==> run.stage is Calling,
        !(run.stage is Calling) ==> run.after_broken(reason) == run,
        run.results_outcome(results.len()) is Ok <==> run.stage == StageView::ToolsRunning(
            results.len(),
        ),
        run.stage != StageView::ToolsRunning(results.len()) ==> run.after_results(results) == run,
        run.provider_outcome() is Ok <==> run.stage is Calling || run.stage is ToolsRunning,
        !(run.stage is Calling) && !(run.stage is ToolsRunning) ==> run.after_provider_error(
            class,
            error,
        ) == run,
        run.rejection_outcome() is Ok <==> run.finishing(),
        !run.finishing() ==> run.after_rejection(request) == run,
        run.terminate_outcome() is Ok <==> !(run.stage is Finished) && !(run.stage is Over),
        run.stage is Finished || run.stage is Over ==> run.after_terminate(reason) == run,
{
}

/// The results of a turn's tools go into the history as one user message, in the order in
/// which they are handed over, and behind them the messages of the user. The next model
/// call carries all of it, under the next number.
pub proof fn law_results_come_before_the_next_call(
    run: RunView,
    results: Seq<UserContentView>,
    messages: Seq<MessageView>,
)
    requires
        run.stage == StageView::ToolsRunning(results.len()),
        run.terminating is None,
        run.turn < run.max_turns,
    ensures
        ({
            let next = run.after_results(results).after_steers(messages);
            &&& run.after_results(results).steer_outcome(messages) is Ok
            &&& run.after_results(results).history == run.history.push(
                MessageView::User { content: results },
            )
            &&& next.step() == Ok::<AgentRunStepView, PromptErrorView>(
                AgentRunStepView::CallModel {
                    history: run.history.push(MessageView::User { content: results }) + messages,
                    turn: run.turn + 1,
                },
            )
            &&& next.ledger == run.ledger
        }),
{
    let history = run.history.push(MessageView::User { content: results });
    if messages.len() == 0 {
        assert(history + messages =~= history);
    }
}

/// A run that has used up its budget fails where it would go on. The error tells the budget,
/// the history and the message that is left unanswered.
pub proof fn law_used_up_budget_fails(run: RunView, messages: Seq<MessageView>)
    requires
        run.stage == StageView::Draining(PendingView::Continue) || run.finishing()
            && messages.len() > 0,
        run.terminating is None,
        run.turn >= run.max_turns,
    ensures
        ({
            let history = run.history + messages;
            &&& run.steer_outcome(messages) == Err::<(), PromptErrorView>(
                PromptErrorView::MaxTurnsError {
                    max_turns: run.max_turns,
                    chat_history: history,
                    prompt: history.last(),
                },
            )
            &&& run.after_steers(messages).stage is Over
            &&& run.after_steers(messages).history == history
        }),
{
    if messages.len() == 0 {
        assert(run.history + messages =~= run.history);
    }
}

/// A user who answers a final turn within the budget reopens the run: the turn stays, and the
/// next call carries it with what the user said.
pub proof fn law_user_reopens_a_run(run: RunView, turn: ModelTurnView, messages: Seq<MessageView>)
    requires
        run.stage is Calling,
        run.terminating is None,
        calls_nothing(turn),
        messages.len() > 0,
        run.turn < run.max_turns,
    ensures
        run.after_commit(turn).after_steers(messages).step() == Ok::<
            AgentRunStepView,
            PromptErrorView,
        >(
            AgentRunStepView::CallModel {
                history: run.history.push(
                    MessageView::Assistant { id: turn.message_id, content: turn.choice },
                ) + messages,
                turn: run.turn + 1,
            },
        ),
{
    assert(!turn.carries_tools());
}

/// A model call is asked for with the whole history and under the number behind the last,
/// and then waits for its outcome. Asking changes nothing else.
pub proof fn law_asking_changes_nothing_else(run: RunView)
    ensures
        run.after_step().history == run.history,
        run.after_step().ledger == run.ledger,
        run.after_step().max_turns == run.max_turns,
        run.after_step().terminating == run.terminating,
        run.after_step().defects == run.defects,
        run.after_step().provider_failures == run.provider_failures,
        run.stage is Ready ==> run.step() == Ok::<AgentRunStepView, PromptErrorView>(
            AgentRunStepView::CallModel { history: run.history, turn: run.turn + 1 },
        ),
        run.stage is Ready ==> run.after_step().stage is Calling && run.after_step().turn
            == run.turn + 1 && !run.after_step().call_recorded,
        !(run.stage is Ready) ==> run.after_step().turn == run.turn,
        run.stage matches StageView::ToolsReady(calls) ==> run.step() == Ok::<
            AgentRunStepView,
            PromptErrorView,
        >(AgentRunStepView::CallTools { calls }) && run.after_step().stage
            == StageView::ToolsRunning(calls.len()),
        run.stage matches StageView::Finished(response) ==> run.step() == Ok::<
            AgentRunStepView,
            PromptErrorView,
        >(AgentRunStepView::Done(response)) && run.after_step().stage is Over,
        run.stage is Draining ==> run.step() == Ok::<AgentRunStepView, PromptErrorView>(
            AgentRunStepView::DrainSteers,
        ) && run.after_step() == run,
        run.stage is Calling || run.stage is ToolsRunning || run.stage is Over ==> run.step() is Err
            && run.after_step() == run,
{
}

/// A model call is billed once: where the ledger has it, nothing more is entered for it, and
/// the next call starts unbilled.
pub proof fn law_a_call_is_billed_once(
    run: RunView,
    usage: Usage,
    finish_reason: Option<FinishReasonView>,
    turn: ModelTurnView,
)
    requires
        run.unrecorded(),
    ensures
        run.stage is Calling,
        ({
            let billed = run.recording(usage, finish_reason);
            &&& billed.ledger.calls == run.ledger.calls.push(
                CompletionCallView { call_index: run.ledger.calls.len(), usage, finish_reason },
            )
            &&& billed.ledger.usage == sum_usage(run.ledger.usage, usage)
            &&& !billed.unrecorded()
            &&& billed.history == run.history && billed.turn == run.turn && billed.stage
                == run.stage
            &&& billed.after_commit(turn).ledger == billed.ledger
            &&& billed.after_commit(turn).history == run.after_commit(turn).history
        }),
{
}

/// One failed turn is tried again, and the second in a row fails the run.
pub proof fn law_one_retry(
    run: RunView,
    reason: Seq<char>,
    error: PromptErrorView,
)
    requires
        run.stage is Calling,
        run.terminating is None,
        1 <= run.turn <= run.max_turns,
    ensures
        run.defects == 0 ==> run.after_broken(reason).after_steers(Seq::empty()).stage is Ready,
        run.defects == 1 ==> run.after_broken(reason).after_steers(Seq::empty()).stage is Over,
        run.provider_failures == 0 ==> run.after_provider_error(
            ProviderErrorClass::Retryable,
            error,
        ).after_steers(Seq::empty()).stage is Ready,
        run.provider_failures == 1 ==> run.after_provider_error(
            ProviderErrorClass::Retryable,
            error,
        ).after_steers(Seq::empty()).stage is Over,
        run.after_provider_error(ProviderErrorClass::Terminal, error).after_steers(
            Seq::empty(),
        ).stage is Over,
        run.after_broken(reason).after_steers(Seq::empty()).defects == run.defects + 1,
        run.after_broken(reason).history == run.history,
        run.after_broken(reason).ledger == run.ledger,
        run.after_provider_error(ProviderErrorClass::Retryable, error).history == run.history,
        run.after_provider_error(ProviderErrorClass::Retryable, error).ledger == run.ledger,
{
}

/// A failure behind a committed turn, while its tools run, ends the run with that failure,
/// however it is classed.
pub proof fn law_failed_tools_end_the_run(
    run: RunView,
    class: ProviderErrorClass,
    error: PromptErrorView,
    messages: Seq<MessageView>,
)
    requires
        run.stage is ToolsRunning,
        run.terminating is None,
    ensures
        run.after_provider_error(class, error).steer_outcome(messages) == Err::<
            (),
            PromptErrorView,
        >(error),
        run.after_provider_error(class, error).after_steers(messages).stage is Over,
        run.after_provider_error(class, error).history == run.history,
{
}

/// A run that keeps failing to be read tells why, as an error of the model's response.
pub proof fn law_defects_are_told(reason: Seq<char>)
    ensures
        defect_error(reason) matches PromptErrorView::CompletionError(
            CompletionErrorView::ResponseError(text),
        ) && mentions(text, reason),
{
    let front = "the model repeatedly emitted tool calls with malformed arguments ("@;
    let back = "); resend the prompt to try again"@;
    assert(front + reason + back == front + reason + back);
}

/// The first reason to stop stands, and a stop takes nothing from the history or the ledger.
/// Where the run was not at its drain, it goes there.
pub proof fn law_first_stop_stands(run: RunView, first: Seq<char>, second: Seq<char>)
    requires
        !(run.stage is Finished),
        !(run.stage is Over),
        run.terminating is None,
    ensures
        run.after_terminate(first).terminating == Some(first),
        run.after_terminate(first).after_terminate(second).terminating == Some(first),
        run.after_terminate(first).history == run.history,
        run.after_terminate(first).ledger == run.ledger,
        run.after_terminate(first).turn == run.turn,
        run.after_terminate(first).stage is Draining,
        run.after_terminate(first).steer_outcome(Seq::empty()) == Err::<(), PromptErrorView>(
            PromptErrorView::PromptCancelled { chat_history: run.history, reason: first },
        ),
{
}

/// A final turn that is not accepted sends the run on, within its budget: to the same call
/// again, or to one with the turn and what is said of it.
pub proof fn law_rejection_asks_again(run: RunView, turn: ModelTurnView, text: Seq<char>)
    requires
        run.stage is Calling,
        run.terminating is None,
        calls_nothing(turn),
        run.turn < run.max_turns,
    ensures
        run.after_commit(turn).after_rejection(RetryRequestView::Repeat).after_steers(
            Seq::empty(),
        ).step() == Ok::<AgentRunStepView, PromptErrorView>(
            AgentRunStepView::CallModel { history: run.history, turn: run.turn + 1 },
        ),
        run.after_commit(turn).after_rejection(RetryRequestView::Feedback(text)).after_steers(
            Seq::empty(),
        ).step() == Ok::<AgentRunStepView, PromptErrorView>(
            AgentRunStepView::CallModel {
                history: run.history.push(
                    MessageView::Assistant { id: turn.message_id, content: turn.choice },
                ).push(
                    MessageView::User {
                        content: seq![
                            UserContentView::Text(TextView { text, additional_params: None }),
                        ],
                    },
                ),
                turn: run.turn + 1,
            },
        ),
{
    assert(!turn.carries_tools());
    assert(run.history.push(turn.message()).drop_last() =~= run.history);
}

} // verus!
