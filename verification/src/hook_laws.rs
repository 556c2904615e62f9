//! What holds of every stack of hooks: where a new hook goes, and which answer counts.

use vstd::prelude::*;
use crate::hook::{
    args_after, args_after_all, asked_before, call_resolution, in_asking_order,
    lemma_resolution_of_concatenation, place_of, result_resolution, with_hook, CallAnswerView,
    StackedHookView, ToolCallActionView, ToolResultActionView,
};
use crate::message::ToolResultContentView;
use crate::turn_laws::lemma_filter_map_last;

verus! {

/// A hook that is registered joins the stack under its name and priority, as the last that
/// was registered. Every hook in front of it has its priority or a lower one, every hook
/// behind it a higher one, and these keep their order.
pub proof fn law_new_hook_finds_its_place<H>(
    hooks: Seq<StackedHookView<H>>,
    id: Seq<char>,
    priority: i32,
    hook: H,
)
    requires
        in_asking_order(hooks),
    ensures
        exists|place: int|
            {
                &&& 0 <= place <= hooks.len()
                &&& #[trigger] with_hook(hooks, id, priority, hook)[place] == (StackedHookView {
                    id,
                    priority,
                    seq: hooks.len(),
                    hook,
                })
                &&& with_hook(hooks, id, priority, hook).remove(place) == hooks
                &&& forall|i: int|
                    0 <= i < hooks.len() ==> ((#[trigger] hooks[i]).priority <= priority <==> i
                        < place)
            },
{
    let place = place_of(hooks, priority) as int;
    assert forall|i: int, j: int| 0 <= i < j < hooks.len() implies (#[trigger] hooks[i]).priority
        <= (#[trigger] hooks[j]).priority by {
        assert(asked_before(hooks[i], hooks[j]));
    }
    crate::hook::lemma_place_of(hooks, priority);
    let after = with_hook(hooks, id, priority, hook);
    assert(after.remove(place) =~= hooks);
    assert(after[place].hook == hook);
}

/// The arguments that an answer puts in place of those so far, if it does.
pub open spec fn rewrite_of(answer: CallAnswerView) -> Option<Seq<char>> {
    match answer {
        (ToolCallActionView::Rewrite(args), _) => Some(args),
        (_, salvaged) => salvaged,
    }
}

proof fn lemma_one_more_answer(
    effective: Option<Seq<char>>,
    answers: Seq<CallAnswerView>,
    last: CallAnswerView,
)
    ensures
        args_after_all(effective, answers.push(last)) == args_after(
            args_after_all(effective, answers),
            last,
        ),
    decreases answers.len(),
{
    reveal_with_fuel(args_after_all, 2);
    let all = answers.push(last);
    if answers.len() == 0 {
        assert(all[0] == last);
        assert(all.skip(1) =~= answers);
    } else {
        assert(all[0] == answers[0]);
        assert(all.skip(1) =~= answers.skip(1).push(last));
        lemma_one_more_answer(args_after(effective, answers[0]), answers.skip(1), last);
    }
}

proof fn lemma_last_rewrite(effective: Option<Seq<char>>, answers: Seq<CallAnswerView>)
    ensures
        ({
            let rewrites = answers.filter_map(|answer: CallAnswerView| rewrite_of(answer));
            args_after_all(effective, answers) == (if rewrites.len() > 0 {
                Some(rewrites.last())
            } else {
                effective
            })
        }),
    decreases answers.len(),
{
    let f = |answer: CallAnswerView| rewrite_of(answer);
    if answers.len() > 0 {
        let before = answers.drop_last();
        lemma_last_rewrite(effective, before);
        assert(before.push(answers.last()) =~= answers);
        lemma_one_more_answer(effective, before, answers.last());
        lemma_filter_map_last(answers, f);
    }
}

/// Where no hook skips the call it runs: as the model made it where no hook rewrote it, and
/// otherwise with the arguments of the last that did.
pub proof fn law_last_rewrite_counts(answers: Seq<CallAnswerView>)
    requires
        forall|i: int| 0 <= i < answers.len() ==> !((#[trigger] answers[i]).0 is Skip),
    ensures
        ({
            let rewrites = answers.filter_map(|answer: CallAnswerView| rewrite_of(answer));
            if rewrites.len() > 0 {
                call_resolution(None, answers) == (
                    ToolCallActionView::Rewrite(rewrites.last()),
                    None::<Seq<char>>,
                )
            } else {
                call_resolution(None, answers) == (ToolCallActionView::Run, None::<Seq<char>>)
            }
        }),
{
    lemma_last_rewrite(None, answers);
    lemma_resolution_of_concatenation(None, answers, Seq::empty());
    assert(answers + Seq::<CallAnswerView>::empty() =~= answers);
}

/// The first hook that skips the call has its way, with its reason. The arguments that are
/// left are those of the last rewrite up to it, if there was one.
pub proof fn law_first_skip_counts(answers: Seq<CallAnswerView>, first: int)
    requires
        0 <= first < answers.len(),
        answers[first].0 is Skip,
        forall|i: int| 0 <= i < first ==> !((#[trigger] answers[i]).0 is Skip),
    ensures
        ({
            let rewrites = answers.take(first + 1).filter_map(
                |answer: CallAnswerView| rewrite_of(answer),
            );
            &&& call_resolution(None, answers).0 == answers[first].0
            &&& call_resolution(None, answers).1 == (if rewrites.len() > 0 {
                Some(rewrites.last())
            } else {
                None
            })
        }),
{
    let front = answers.take(first);
    let back = answers.skip(first);
    assert(front + back =~= answers);
    lemma_resolution_of_concatenation(None, front, back);
    assert(back[0] == answers[first]);
    assert(front.push(answers[first]) =~= answers.take(first + 1));
    lemma_one_more_answer(None, front, answers[first]);
    lemma_last_rewrite(None, answers.take(first + 1));
}

/// What an answer shows the model in place of the result, if it does.
pub open spec fn shown_by(answer: ToolResultActionView) -> Option<Seq<ToolResultContentView>> {
    match answer {
        ToolResultActionView::Rewrite(output) => Some(output),
        _ => None,
    }
}

proof fn lemma_result_rewrites(
    effective: Option<Seq<ToolResultContentView>>,
    front: Seq<ToolResultActionView>,
    back: Seq<ToolResultActionView>,
)
    requires
        forall|i: int| 0 <= i < front.len() ==> !((#[trigger] front[i]) is Stop),
    ensures
        ({
            let rewrites = front.filter_map(|answer: ToolResultActionView| shown_by(answer));
            result_resolution(effective, front + back) == result_resolution(
                if rewrites.len() > 0 {
                    Some(rewrites.last())
                } else {
                    effective
                },
                back,
            )
        }),
    decreases front.len(),
{
    let f = |answer: ToolResultActionView| shown_by(answer);
    if front.len() == 0 {
        assert(front + back =~= back);
    } else {
        let before = front.drop_last();
        let rest = seq![front.last()] + back;
        assert(before + rest =~= front + back);
        assert forall|i: int| 0 <= i < before.len() implies !((#[trigger] before[i]) is Stop) by {
            assert(before[i] == front[i]);
        }
        lemma_result_rewrites(effective, before, rest);
        assert(rest[0] == front[front.len() - 1]);
        assert(rest.skip(1) =~= back);
        lemma_filter_map_last(front, f);
    }
}

/// Where no hook stops the run the model sees the result as the last hook that rewrote it put
/// it, and the result itself where none did.
pub proof fn law_last_presentation_counts(answers: Seq<ToolResultActionView>)
    requires
        forall|i: int| 0 <= i < answers.len() ==> !((#[trigger] answers[i]) is Stop),
    ensures
        ({
            let rewrites = answers.filter_map(|answer: ToolResultActionView| shown_by(answer));
            if rewrites.len() > 0 {
                result_resolution(None, answers) == ToolResultActionView::Rewrite(rewrites.last())
            } else {
                result_resolution(None, answers) == ToolResultActionView::Keep
            }
        }),
{
    lemma_result_rewrites(None, answers, Seq::empty());
    assert(answers + Seq::<ToolResultActionView>::empty() =~= answers);
}

/// The first hook that stops the run has its way, whatever the others say.
pub proof fn law_first_result_stop_counts(answers: Seq<ToolResultActionView>, first: int)
    requires
        0 <= first < answers.len(),
        answers[first] is Stop,
        forall|i: int| 0 <= i < first ==> !((#[trigger] answers[i]) is Stop),
    ensures
        result_resolution(None, answers) == answers[first],
{
    let front = answers.take(first);
    let back = answers.skip(first);
    assert(front + back =~= answers);
    lemma_result_rewrites(None, front, back);
    assert(back[0] == answers[first]);
}

} // verus!
