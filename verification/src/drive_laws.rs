//! What holds of every loop that drives a run: what a failure means, what goes out, what
//! reaches the run.

use vstd::prelude::*;
use crate::agent::{built, in_tool_state, AgentBuilderView, AgentView};
use crate::completion::{CompletionErrorView, PromptErrorView};
use crate::drive::{
    batch_outcome, drained_messages, failure_outcome, provider_class, run_after_batch,
    run_after_failure, steer_batch, steer_items, turn_failure, TurnFailureView,
};
use crate::driver::{exit, DriveStepView, DriverView};
use crate::message::{AssistantContentView, MessageView, UserContentView};
use crate::params::{merged_params, AdditionalParamsView};
use crate::prompt_response::CompletionCallView;
use crate::run::{
    AgentRunStepView, ProviderErrorClass, RetryRequestView, RunView, StageView,
};
use crate::runner::{converged, opening, runs, AgentRunnerView, RunInputView};
use crate::stream_item::{final_response_view, MultiTurnStreamItemView, StreamingErrorView};
use crate::strings::{lowercase, occurs_in};
use crate::text_laws::{law_user_text_is_the_texts, text_of_user_part};
use crate::tool_batch::{all_surface_items, ToolBatchView};
use crate::turn::ModelTurnView;
use crate::turn_laws::{
    law_output_is_the_texts, lemma_filter_map_last, mentions, text_of_part,
};
use crate::usage::Usage;

verus! {

proof fn lemma_occurs_is_mentioned(needle: Seq<char>, text: Seq<char>)
    ensures
        occurs_in(needle, text) <==> mentions(text, needle),
{
    if occurs_in(needle, text) {
        let i = choose|i: int|
            0 <= i <= text.len() - needle.len() && #[trigger] text.subrange(i, i + needle.len())
                == needle;
        assert(text.take(i) + needle + text.skip(i + needle.len()) =~= text);
    }
    if mentions(text, needle) {
        let (front, back) = choose|front: Seq<char>, back: Seq<char>|
            #[trigger] (front + needle + back) == text;
        let i = front.len() as int;
        assert(text.subrange(i, i + needle.len()) =~= needle);
    }
}

/// A provider's failure is worth another try exactly where the provider says that its rate
/// limit was hit: by its status, or in words, whatever their case.
pub proof fn law_only_rate_limits_are_tried_again(error: CompletionErrorView)
    ensures
        provider_class(error) == ProviderErrorClass::Retryable <==> {
            ||| error.status() == Some(429u16)
            ||| mentions(lowercase(error.text()), "rate limit"@)
        },
{
    lemma_occurs_is_mentioned("rate limit"@, lowercase(error.text()));
}

/// What a failed turn is follows from its error: a call that cannot be read is a defect, told
/// with its tool and the reason; a stop is a stop with its reason; everything else is the
/// provider's failure, of the same class whether it comes from the stream or from the run.
pub proof fn law_failed_turn_is_told_by_its_error(
    error: CompletionErrorView,
    run_error: PromptErrorView,
)
    ensures
        match error {
            CompletionErrorView::MalformedToolCall { tool, reason } => turn_failure(
                StreamingErrorView::Completion(error),
            ) matches TurnFailureView::Defect(told) && mentions(told, tool) && mentions(
                told,
                reason,
            ),
            _ => turn_failure(StreamingErrorView::Completion(error)) == TurnFailureView::Provider(
                provider_class(error),
            ),
        },
        match run_error {
            PromptErrorView::PromptCancelled { reason, .. } => turn_failure(
                StreamingErrorView::Prompt(run_error),
            ) == TurnFailureView::Stop(reason),
            PromptErrorView::CompletionError(inner) => turn_failure(
                StreamingErrorView::Prompt(run_error),
            ) == TurnFailureView::Provider(provider_class(inner)),
            _ => turn_failure(StreamingErrorView::Prompt(run_error)) == TurnFailureView::Provider(
                ProviderErrorClass::Terminal,
            ),
        },
{
    if let CompletionErrorView::MalformedToolCall { tool, reason } = error {
        let told = "`"@ + tool + "`: "@ + reason;
        assert("`"@ + tool + ("`: "@ + reason) =~= told);
        assert(("`"@ + tool + "`: "@) + reason + Seq::<char>::empty() =~= told);
    }
}

/// A turn that cannot be read, or that ran into a rate limit, is tried again once nothing is
/// queued: with the same history and under the same number. A stop ends the run at the drain,
/// with its reason.
pub proof fn law_failure_takes_effect_at_the_drain<T>(
    driver: DriverView<T>,
    error: StreamingErrorView,
)
    requires
        driver.run.valid(),
        driver.run.stage is Calling,
        driver.run.terminating is None,
        driver.run.turn <= driver.run.max_turns,
        driver.run.defects < crate::run::TURN_RETRY_CAP,
        driver.run.provider_failures < crate::run::TURN_RETRY_CAP,
    ensures
        ({
            let after = driver.after_failure(error);
            let drained = after.after_drain(Seq::empty());
            &&& after.run.history == driver.run.history
            &&& after.run.ledger == driver.run.ledger
            &&& match turn_failure(error) {
                TurnFailureView::Provider(ProviderErrorClass::Terminal) => after.drain_outcome(
                    Seq::empty(),
                ) is Err,
                TurnFailureView::Stop(reason) => after.run.steer_outcome(Seq::empty()) == Err::<
                    (),
                    PromptErrorView,
                >(
                    PromptErrorView::PromptCancelled { chat_history: driver.run.history, reason },
                ),
                _ => drained.step() == (DriveStepView::<T>::CallModel {
                    history: driver.run.history,
                    turn: driver.run.turn,
                }),
            }
        }),
{
    assert(drained_messages(Seq::empty()) =~= Seq::empty());
}

/// A turn that cannot be read is a matter of a model call, and a provider's failure one of a
/// model call or of the tools. A run can be stopped until it is over. What comes at another
/// time is refused and changes nothing.
pub proof fn law_when_a_failure_is_taken(
    run: RunView,
    failure: TurnFailureView,
    error: PromptErrorView,
)
    ensures
        failure_outcome(run, failure) is Ok <==> match failure {
            TurnFailureView::Defect(_) => run.stage is Calling,
            TurnFailureView::Provider(_) => run.stage is Calling || run.stage is ToolsRunning,
            TurnFailureView::Stop(_) => !(run.stage is Finished) && !(run.stage is Over),
        },
        failure_outcome(run, failure) is Err ==> run_after_failure(run, failure, error) == run,
        failure_outcome(run, failure) is Ok ==> run_after_failure(
            run,
            failure,
            error,
        ).stage is Draining,
{
}

/// The results of a complete batch enter the history as one user message: one part for each
/// call, in call order. A batch that is not complete, or that the run does not wait for,
/// changes nothing and is an error.
pub proof fn law_batch_enters_the_history(
    run: RunView,
    batch: ToolBatchView,
    forward_items: bool,
    turn_id: Option<Seq<char>>,
)
    ensures
        ({
            let after = run_after_batch(run, batch);
            let told = batch_outcome(run, batch, forward_items, turn_id);
            if batch.complete() && run.stage == StageView::ToolsRunning(batch.slots.len()) {
                &&& told is Ok
                &&& after.history.len() == run.history.len() + 1
                &&& after.history.take(run.history.len() as int) == run.history
                &&& after.history.last() matches MessageView::User { content }
                &&& content.len() == batch.slots.len()
                &&& forall|i: int|
                    0 <= i < content.len() ==> #[trigger] content[i] == (
                    batch.slots[i]->0).content
                &&& after.ledger == run.ledger
                &&& after.turn == run.turn
            } else {
                told is Err && after == run
            }
        }),
{
    let after = run_after_batch(run, batch);
    if batch.complete() && run.stage == StageView::ToolsRunning(batch.slots.len()) {
        assert(after.history.take(run.history.len() as int) =~= run.history);
    }
}

/// Where someone listens, what happened in a batch goes out, and then, last, that its
/// roundtrip is closed, under the id of the turn where it has one.
pub proof fn law_closed_roundtrip_is_told_last(
    run: RunView,
    batch: ToolBatchView,
    turn_id: Option<Seq<char>>,
)
    requires
        batch.complete(),
        run.stage == StageView::ToolsRunning(batch.slots.len()),
    ensures
        batch_outcome(run, batch, true, turn_id) matches Ok(items) && match turn_id {
            Some(turn_id) => items == all_surface_items(
                batch.slots.map_values(
                    |slot: Option<crate::tool_batch::CollectedToolResultView>| slot->0,
                ),
            ).push(MultiTurnStreamItemView::RoundtripClosed { turn_id }),
            None => items == all_surface_items(
                batch.slots.map_values(
                    |slot: Option<crate::tool_batch::CollectedToolResultView>| slot->0,
                ),
            ),
        },
{
    let shown = all_surface_items(batch.results());
    assert(batch.results() =~= batch.slots.map_values(
        |slot: Option<crate::tool_batch::CollectedToolResultView>| slot->0,
    ));
    match turn_id {
        Some(turn_id) => {
            let closed = MultiTurnStreamItemView::RoundtripClosed { turn_id };
            assert(shown + seq![closed] =~= shown.push(closed));
        },
        None => {
            assert(shown + Seq::<MultiTurnStreamItemView>::empty() =~= shown);
        },
    }
}

/// What is shown of a queued message: its id, and what the user says in it, where it says
/// something.
pub open spec fn shown_of(entry: (Seq<char>, MessageView)) -> Option<(Seq<char>, Seq<char>)> {
    match entry.1 {
        MessageView::User { content } => {
            let texts = content.filter_map(|part: UserContentView| text_of_user_part(part));
            if texts.len() > 0 {
                Some((entry.0, texts.flatten()))
            } else {
                None
            }
        },
        _ => None,
    }
}

/// Queued messages reach the run all of them, in order. Those of a user that say something
/// are announced together, each with its id, and where there is none nothing is.
pub proof fn law_queued_messages_are_announced(drained: Seq<(Seq<char>, MessageView)>)
    ensures
        drained_messages(drained).len() == drained.len(),
        forall|i: int|
            0 <= i < drained.len() ==> #[trigger] drained_messages(drained)[i] == drained[i].1,
        steer_batch(drained) == drained.filter_map(
            |entry: (Seq<char>, MessageView)| shown_of(entry),
        ),
        steer_items(drained).len() <= 1,
        steer_items(drained).len() == 0 <==> drained.filter_map(
            |entry: (Seq<char>, MessageView)| shown_of(entry),
        ).len() == 0,
        steer_items(drained).len() == 1 ==> steer_items(drained)[0]
            == (MultiTurnStreamItemView::Steer {
            batch: drained.filter_map(|entry: (Seq<char>, MessageView)| shown_of(entry)),
        }),
    decreases drained.len(),
{
    let f = |entry: (Seq<char>, MessageView)| shown_of(entry);
    if drained.len() > 0 {
        law_queued_messages_are_announced(drained.drop_last());
        lemma_filter_map_last(drained, f);
        if let MessageView::User { content } = drained.last().1 {
            law_user_text_is_the_texts(content);
        }
    } else {
        assert(steer_batch(drained) =~= drained.filter_map(f));
    }
}

/// The loop asks for what the run asks for. Only to run tools it needs those that were
/// offered, and where none are it fails.
pub proof fn law_loop_asks_for_what_the_run_asks_for<T>(driver: DriverView<T>)
    ensures
        match driver.run.step() {
            Ok(AgentRunStepView::CallModel { history, turn }) => driver.step()
                == (DriveStepView::<T>::CallModel { history, turn }),
            Ok(AgentRunStepView::CallTools { calls }) => match driver.offered {
                Some(tools) => driver.step() == (DriveStepView::CallTools { calls, tools }),
                None => driver.step() is Failed,
            },
            Ok(AgentRunStepView::DrainSteers) => driver.step() is DrainSteers,
            Ok(AgentRunStepView::Done(response)) => driver.step() == DriveStepView::<T>::Done(
                response,
            ),
            Err(error) => driver.step() == DriveStepView::<T>::Failed(
                StreamingErrorView::Prompt(error),
            ),
        },
        driver.after_step().run == driver.run.after_step(),
        driver.after_step().provider_failure == driver.provider_failure,
        driver.run.step() matches Ok(AgentRunStepView::CallModel { .. })
            ==> driver.after_step().turn_id is None && driver.after_step().offered is None,
        !(driver.run.step() matches Ok(AgentRunStepView::CallModel { .. }))
            ==> driver.after_step().turn_id == driver.turn_id,
{
}

/// Messages that were queued join the history at the drain, behind everything that is there.
/// Where the run goes on, the next call carries them.
pub proof fn law_queued_messages_join_the_history<T>(
    driver: DriverView<T>,
    drained: Seq<(Seq<char>, MessageView)>,
)
    requires
        driver.run.stage is Draining,
    ensures
        ({
            let after = driver.after_drain(drained);
            &&& after.run.history.len() == driver.run.history.len() + drained.len()
            &&& forall|i: int|
                0 <= i < driver.run.history.len() ==> #[trigger] after.run.history[i]
                    == driver.run.history[i]
            &&& forall|i: int|
                driver.run.history.len() <= i < after.run.history.len()
                    ==> #[trigger] after.run.history[i] == drained[i
                    - driver.run.history.len()].1
            &&& after.run.ledger == driver.run.ledger
            &&& after.run.turn == driver.run.turn
            &&& after.run.max_turns == driver.run.max_turns
            &&& after.offered == driver.offered
            &&& after.turn_id == driver.turn_id
            &&& after.run.stage is Ready ==> after.step() == (DriveStepView::<T>::CallModel {
                history: after.run.history,
                turn: driver.run.turn + 1,
            })
            &&& driver.run.terminating is Some ==> driver.drain_outcome(drained) is Err
        }),
{
}

/// A turn that is committed is announced with its content, where it was announced before, and
/// the tools that it was offered are kept for its calls.
pub proof fn law_committed_turn_is_announced<T>(
    driver: DriverView<T>,
    turn: ModelTurnView,
    tools: T,
)
    ensures
        driver.run.stage is Calling ==> driver.after_turn(turn, tools).offered == Some(tools)
            && match driver.turn_id {
            Some(id) => driver.turn_outcome(turn) == Ok::<
                Option<MultiTurnStreamItemView>,
                StreamingErrorView,
            >(Some(MultiTurnStreamItemView::TurnCommitted { id, content: turn.choice })),
            None => driver.turn_outcome(turn) == Ok::<
                Option<MultiTurnStreamItemView>,
                StreamingErrorView,
            >(None),
        },
        !(driver.run.stage is Calling) ==> driver.turn_outcome(turn) is Err && driver.after_turn(
            turn,
            tools,
        ) == driver,
        driver.after_turn(turn, tools).turn_id == driver.turn_id,
        driver.after_turn(turn, tools).provider_failure == driver.provider_failure,
{
}

/// The error that ends a run goes out as it is. Only where the provider was at fault a failed
/// completion goes out as the provider's own error.
pub proof fn law_final_error_goes_out_as_it_is(error: PromptErrorView, provider_failure: bool)
    ensures
        exit(error, provider_failure).as_prompt_error() == error,
        exit(error, provider_failure) is Completion <==> provider_failure && error is CompletionError,
{
}

/// What is reported to a run changes what it is about and nothing else: only model calls are
/// billed, the budget stays, and nothing that failed or was stopped enters the history.
pub proof fn law_reports_change_nothing_else(
    run: RunView,
    results: Seq<UserContentView>,
    reason: Seq<char>,
    class: ProviderErrorClass,
    error: PromptErrorView,
    request: RetryRequestView,
)
    ensures
        run.after_results(results).ledger == run.ledger,
        run.after_broken(reason).ledger == run.ledger,
        run.after_provider_error(class, error).ledger == run.ledger,
        run.after_terminate(reason).ledger == run.ledger,
        run.after_rejection(request).ledger == run.ledger,
        run.after_results(results).max_turns == run.max_turns,
        run.after_broken(reason).max_turns == run.max_turns,
        run.after_provider_error(class, error).max_turns == run.max_turns,
        run.after_terminate(reason).max_turns == run.max_turns,
        run.after_rejection(request).max_turns == run.max_turns,
        run.after_broken(reason).history == run.history,
        run.after_provider_error(class, error).history == run.history,
        run.after_terminate(reason).history == run.history,
        run.after_results(results).turn == run.turn,
        run.after_terminate(reason).turn == run.turn,
        run.after_rejection(request).turn == run.turn,
        run.after_results(results).terminating == run.terminating,
        run.after_broken(reason).terminating == run.terminating,
        run.after_provider_error(class, error).terminating == run.terminating,
        run.after_rejection(request).terminating == run.terminating,
{
}

/// A run starts with everything that was sent, in order: the earlier messages, the new one,
/// and what was queued meanwhile. Its budget is the one that was set.
pub proof fn law_run_starts_with_what_was_sent<M, S, H, C>(
    runner: AgentRunnerView<M, S, H, C>,
    queued: Seq<MessageView>,
)
    requires
        runner.max_turns > 0,
    ensures
        converged(runner, queued) matches Ok(run) ==> {
            &&& run.max_turns == runner.max_turns
            &&& run.turn == 0
            &&& run.ledger.calls.len() == 0
            &&& run.step() == Ok::<AgentRunStepView, PromptErrorView>(
                AgentRunStepView::CallModel { history: run.history, turn: 1 },
            )
            &&& run.history == (match (runner.input, runner.chat_history) {
                (RunInputView::Prompt(message), Some(earlier)) => earlier.push(message) + queued,
                (RunInputView::Prompt(message), None) => seq![message] + queued,
                (RunInputView::Conversation(messages), _) => messages + queued,
                (RunInputView::Cell(messages), _) => messages + queued,
            })
        },
        runner.input is Prompt ==> converged(runner, queued) is Ok,
        runner.input matches RunInputView::Conversation(messages) ==> (converged(
            runner,
            queued,
        ) is Ok <==> messages.len() > 0),
{
}

/// Without a budget no run starts: it is cancelled before anything is in its history.
pub proof fn law_no_budget_no_run<M, S, H, C>(
    runner: AgentRunnerView<M, S, H, C>,
    queued: Seq<MessageView>,
)
    requires
        runner.max_turns == 0,
    ensures
        converged(runner, queued) matches Err(PromptErrorView::PromptCancelled {
            chat_history,
            ..
        }) && chat_history.len() == 0,
        opening(runner) is Err,
{
}

/// The final item of a run holds its answer part by part, what its texts say, what was used
/// and each call.
pub proof fn law_final_item_holds_the_answer(
    content: Seq<AssistantContentView>,
    usage: Usage,
    completion_calls: Seq<CompletionCallView>,
)
    ensures
        final_response_view(content, usage, completion_calls).content == content,
        final_response_view(content, usage, completion_calls).usage == usage,
        final_response_view(content, usage, completion_calls).completion_calls == completion_calls,
        final_response_view(content, usage, completion_calls).output == content.filter_map(
            |part: AssistantContentView| text_of_part(part),
        ).flatten(),
{
    law_output_is_the_texts(content);
}

/// An agent is what its builder was told, whatever the builder was told of its tools.
pub proof fn law_agent_is_as_it_was_put_together<M, H, A, B, S>(
    builder: AgentBuilderView<M, H, A>,
    tool_state: B,
    handle: S,
)
    ensures
        ({
            let agent = built(in_tool_state(builder, tool_state), handle);
            &&& agent == built(builder, handle)
            &&& in_tool_state(builder, tool_state).tool_state == tool_state
            &&& agent.name == builder.name
            &&& agent.description == builder.description
            &&& agent.model == builder.model
            &&& agent.preamble == builder.preamble
            &&& agent.static_context == builder.static_context
            &&& agent.additional_params == builder.additional_params
            &&& agent.record_telemetry_content == builder.record_telemetry_content
            &&& agent.max_tokens == builder.max_tokens
            &&& agent.temperature == builder.temperature
            &&& agent.tool_choice == builder.tool_choice
            &&& agent.default_max_turns == builder.default_max_turns
            &&& agent.tool_server_handle == handle
            &&& agent.hooks == builder.hooks
        }),
{
}

/// A run of an agent goes by what the agent is set to: one turn where nothing else was set,
/// one tool call at a time, and no earlier messages.
pub proof fn law_runner_goes_by_its_agent<M: Clone, S: Clone, H: Clone, C>(
    agent: AgentView<M, S, H>,
    input: RunInputView,
    tool_context: C,
    runner: AgentRunnerView<M, S, H, C>,
)
    requires
        runs(agent, input, tool_context, runner),
    ensures
        runner.input == input,
        runner.chat_history is None,
        agent.default_max_turns is None ==> runner.max_turns == 1,
        agent.default_max_turns is Some ==> Some(runner.max_turns) == agent.default_max_turns,
        runner.concurrency == 1,
        runner.agent_name == agent.name,
        runner.preamble == agent.preamble,
        runner.static_context == agent.static_context,
        runner.temperature == agent.temperature,
        runner.max_tokens == agent.max_tokens,
        runner.additional_params == agent.additional_params,
        runner.record_telemetry_content == agent.record_telemetry_content,
        runner.tool_context == tool_context,
        runner.tool_choice == agent.tool_choice,
        runner.hooks.len() == agent.hooks.len(),
        forall|i: int|
            0 <= i < runner.hooks.len() ==> (#[trigger] runner.hooks[i]).id == agent.hooks[i].id
                && runner.hooks[i].priority == agent.hooks[i].priority,
{
}

/// Merged parameters have each field of either, with the new value where both have it. What
/// is no object gives way.
pub proof fn law_merged_fields(
    fields: Map<Seq<char>, Seq<char>>,
    params: Map<Seq<char>, Seq<char>>,
    other: Seq<char>,
    name: Seq<char>,
)
    ensures
        merged_params(
            Some(AdditionalParamsView::Object(fields)),
            params,
        ) matches AdditionalParamsView::Object(merged) && (merged.contains_key(name) <==> (
        fields.contains_key(name) || params.contains_key(name))) && (params.contains_key(name)
            ==> merged[name] == params[name]) && (fields.contains_key(name)
            && !params.contains_key(name) ==> merged[name] == fields[name]),
        merged_params(None, params) == AdditionalParamsView::Object(params),
        merged_params(Some(AdditionalParamsView::Other(other)), params)
            == AdditionalParamsView::Object(params),
{
}

} // verus!
