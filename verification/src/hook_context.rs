//! What hooks know of the run, and how a rewrite gets out of a nested stack.

use vstd::prelude::*;
use crate::deep::{deep, group_deep};
use crate::json::Json;

verus! {

broadcast use group_deep;

/// The frames of one tool call: one for each stack that is being asked about it,
/// the innermost last.
#[derive(Debug)]
struct CallFrames {
    id: String,
    frames: Vec<Option<Json>>,
}

pub struct CallFramesView {
    pub id: Seq<char>,
    pub frames: Seq<Option<Seq<char>>>,
}

impl DeepView for CallFrames {
    type V = CallFramesView;

    closed spec fn deep_view(&self) -> CallFramesView {
        CallFramesView { id: self.id@, frames: deep(self.frames@) }
    }
}

/// For each tool call that stacks are being asked about, the arguments that they
/// leave behind when they skip it. A hook's action says only that it skips the
/// call; what a nested stack had made of the arguments by then travels here.
#[derive(Debug)]
pub struct ToolCallRewriteFrames {
    entries: Vec<CallFrames>,
}

/// The frames by call.
pub open spec fn frames_by_call(entries: Seq<CallFramesView>) -> Map<
    Seq<char>,
    Seq<Option<Seq<char>>>,
>
    decreases entries.len(),
{
    if entries.len() == 0 {
        Map::empty()
    } else {
        frames_by_call(entries.drop_last()).insert(entries.last().id, entries.last().frames)
    }
}

/// Whether no call has two entries.
pub open spec fn calls_are_distinct(entries: Seq<CallFramesView>) -> bool {
    forall|i: int, j: int|
        0 <= i < j < entries.len() ==> (#[trigger] entries[i]).id != (#[trigger] entries[j]).id
}

proof fn lemma_frames_of(entries: Seq<CallFramesView>, i: int)
    requires
        calls_are_distinct(entries),
        0 <= i < entries.len(),
    ensures
        frames_by_call(entries).contains_key(entries[i].id),
        frames_by_call(entries)[entries[i].id] == entries[i].frames,
    decreases entries.len(),
{
    if i < entries.len() - 1 {
        let earlier = entries.drop_last();
        assert(earlier[i] == entries[i]);
        lemma_frames_of(earlier, i);
        assert(entries[i].id != entries[entries.len() - 1].id);
    }
}

proof fn lemma_no_frames(entries: Seq<CallFramesView>, id: Seq<char>)
    requires
        forall|i: int| 0 <= i < entries.len() ==> (#[trigger] entries[i]).id != id,
    ensures
        !frames_by_call(entries).contains_key(id),
    decreases entries.len(),
{
    if entries.len() > 0 {
        let earlier = entries.drop_last();
        assert forall|i: int| 0 <= i < earlier.len() implies (#[trigger] earlier[i]).id != id by {
            assert(earlier[i] == entries[i]);
        }
        lemma_no_frames(earlier, id);
        assert(entries[entries.len() - 1].id != id);
    }
}

proof fn lemma_update_frames(entries: Seq<CallFramesView>, i: int, changed: CallFramesView)
    requires
        calls_are_distinct(entries),
        0 <= i < entries.len(),
        changed.id == entries[i].id,
    ensures
        calls_are_distinct(entries.update(i, changed)),
        frames_by_call(entries.update(i, changed)) == frames_by_call(entries).insert(
            changed.id,
            changed.frames,
        ),
    decreases entries.len(),
{
    let after = entries.update(i, changed);
    let last = entries.len() - 1;
    if i == last {
        assert(after.drop_last() =~= entries.drop_last());
        assert(frames_by_call(after) =~= frames_by_call(entries).insert(
            changed.id,
            changed.frames,
        ));
    } else {
        assert(after.drop_last() =~= entries.drop_last().update(i, changed));
        lemma_update_frames(entries.drop_last(), i, changed);
        assert(entries[i].id != entries[last].id);
        assert(frames_by_call(after) =~= frames_by_call(entries).insert(
            changed.id,
            changed.frames,
        ));
    }
}

proof fn lemma_remove_frames(entries: Seq<CallFramesView>, i: int)
    requires
        calls_are_distinct(entries),
        0 <= i < entries.len(),
    ensures
        calls_are_distinct(entries.remove(i)),
        frames_by_call(entries.remove(i)) == frames_by_call(entries).remove(entries[i].id),
    decreases entries.len(),
{
    let after = entries.remove(i);
    let last = entries.len() - 1;
    assert forall|j: int, k: int| 0 <= j < k < after.len() implies (#[trigger] after[j]).id != (
    #[trigger] after[k]).id by {
        let old_j = if j < i { j } else { j + 1 };
        let old_k = if k < i { k } else { k + 1 };
        assert(after[j] == entries[old_j] && after[k] == entries[old_k]);
    }
    if i == last {
        assert(after =~= entries.drop_last());
        assert forall|j: int| 0 <= j < after.len() implies (#[trigger] after[j]).id
            != entries[i].id by {
            assert(after[j] == entries[j]);
        }
        lemma_no_frames(after, entries[i].id);
        assert(frames_by_call(after) =~= frames_by_call(entries).remove(entries[i].id));
    } else {
        assert(after.drop_last() =~= entries.drop_last().remove(i));
        assert(entries.drop_last()[i] == entries[i]);
        lemma_remove_frames(entries.drop_last(), i);
        assert(entries[i].id != entries[last].id);
        assert(frames_by_call(after) =~= frames_by_call(entries).remove(entries[i].id));
    }
}

impl DeepView for ToolCallRewriteFrames {
    type V = Map<Seq<char>, Seq<Option<Seq<char>>>>;

    closed spec fn deep_view(&self) -> Map<Seq<char>, Seq<Option<Seq<char>>>> {
        frames_by_call(deep(self.entries@))
    }
}

/// The frames of a call; none where it has no entry.
pub open spec fn frames_of(frames: Map<Seq<char>, Seq<Option<Seq<char>>>>, id: Seq<char>) -> Seq<
    Option<Seq<char>>,
> {
    if frames.contains_key(id) {
        frames[id]
    } else {
        Seq::empty()
    }
}

/// After a stack has begun to be asked about a call.
pub open spec fn after_begin(
    frames: Map<Seq<char>, Seq<Option<Seq<char>>>>,
    id: Seq<char>,
) -> Map<Seq<char>, Seq<Option<Seq<char>>>> {
    frames.insert(id, frames_of(frames, id).push(None))
}

/// After the innermost stack has left its rewrite.
pub open spec fn after_record(
    frames: Map<Seq<char>, Seq<Option<Seq<char>>>>,
    id: Seq<char>,
    rewrite: Seq<char>,
) -> Map<Seq<char>, Seq<Option<Seq<char>>>> {
    if frames_of(frames, id).len() == 0 {
        frames
    } else {
        frames.insert(id, frames_of(frames, id).drop_last().push(Some(rewrite)))
    }
}

/// After the innermost stack is done with a call.
pub open spec fn after_finish(
    frames: Map<Seq<char>, Seq<Option<Seq<char>>>>,
    id: Seq<char>,
) -> Map<Seq<char>, Seq<Option<Seq<char>>>> {
    if frames_of(frames, id).len() <= 1 {
        frames.remove(id)
    } else {
        frames.insert(id, frames_of(frames, id).drop_last())
    }
}

/// What the innermost stack has left.
pub open spec fn innermost(frames: Map<Seq<char>, Seq<Option<Seq<char>>>>, id: Seq<char>) -> Option<
    Seq<char>,
> {
    if frames_of(frames, id).len() == 0 {
        None
    } else {
        frames_of(frames, id).last()
    }
}

impl Default for ToolCallRewriteFrames {
    fn default() -> (frames: Self)
        ensures
            frames.wf(),
            frames.deep_view() == Map::<Seq<char>, Seq<Option<Seq<char>>>>::empty(),
    {
        Self::new()
    }
}

impl ToolCallRewriteFrames {
    /// No call has two entries, and none has an entry without frames.
    pub closed spec fn wf(&self) -> bool {
        &&& calls_are_distinct(deep(self.entries@))
        &&& forall|i: int|
            0 <= i < self.entries@.len() ==> (#[trigger] deep(self.entries@)[i]).frames.len() > 0
    }

    /// No frames.
    pub fn new() -> (frames: Self)
        ensures
            frames.wf(),
            frames.deep_view() == Map::<Seq<char>, Seq<Option<Seq<char>>>>::empty(),
    {
        ToolCallRewriteFrames { entries: Vec::new() }
    }

    /// The place of a call's entry.
    fn find(&self, id: &String) -> (place: Option<usize>)
        requires
            self.wf(),
        ensures
            match place {
                Some(i) => i < self.entries@.len() && self.entries@[i as int].id@ == id@
                    && self.deep_view().contains_key(id@) && self.deep_view()[id@]
                    == deep(self.entries@[i as int].frames@),
                None => !self.deep_view().contains_key(id@) && forall|i: int|
                    0 <= i < self.entries@.len() ==> (#[trigger] self.entries@[i]).id@ != id@,
            },
    {
        let ghost entries = deep(self.entries@);
        let mut i: usize = 0;
        while i < self.entries.len()
            invariant
                i <= self.entries@.len(),
                entries == deep(self.entries@),
                calls_are_distinct(entries),
                forall|k: int| 0 <= k < i ==> (#[trigger] self.entries@[k]).id@ != id@,
            decreases self.entries@.len() - i,
        {
            if self.entries[i].id == *id {
                proof {
                    lemma_frames_of(entries, i as int);
                }
                return Some(i);
            }
            i = i + 1;
        }
        proof {
            assert forall|k: int| 0 <= k < entries.len() implies (#[trigger] entries[k]).id
                != id@ by {
                assert(self.entries@[k].id@ != id@);
            }
            lemma_no_frames(entries, id@);
        }
        None
    }

    /// A stack begins to be asked about a call.
    pub fn begin(&mut self, id: &String)
        requires
            old(self).wf(),
        ensures
            final(self).wf(),
            final(self).deep_view() == after_begin(old(self).deep_view(), id@),
    {
        let ghost before = deep(self.entries@);
        match self.find(id) {
            Some(i) => {
                let mut entry = self.entries.remove(i);
                entry.frames.push(None);
                let ghost changed = entry.deep_view();
                self.entries.insert(i, entry);
                assert(deep(self.entries@) =~= before.update(i as int, changed));
                proof {
                    lemma_update_frames(before, i as int, changed);
                }
            },
            None => {
                let mut frames: Vec<Option<Json>> = Vec::new();
                frames.push(None);
                assert(deep(frames@) =~= Seq::<Option<Seq<char>>>::empty().push(None));
                self.entries.push(CallFrames { id: id.clone(), frames });
                let ghost after = deep(self.entries@);
                assert(after.drop_last() =~= before);
                proof {
                    assert forall|j: int, k: int| 0 <= j < k < after.len() implies (
                    #[trigger] after[j]).id != (#[trigger] after[k]).id by {
                        assert(after[j] == before[j]);
                        if k == before.len() {
                            assert(old(self).entries@[j].id@ != id@);
                        } else {
                            assert(after[k] == before[k]);
                        }
                    }
                }
            },
        }
        assert(self.wf()) by {
            let after = deep(self.entries@);
            assert forall|i: int| 0 <= i < self.entries@.len() implies (
            #[trigger] after[i]).frames.len() > 0 by {
                if i < before.len() && after[i] == before[i] {
                    assert(before[i].frames.len() > 0);
                }
            }
        }
    }

    /// The innermost stack leaves its rewrite of a call's arguments.
    pub fn record(&mut self, id: &String, rewrite: Json)
        requires
            old(self).wf(),
        ensures
            final(self).wf(),
            final(self).deep_view() == after_record(
                old(self).deep_view(),
                id@,
                rewrite.deep_view(),
            ),
    {
        let ghost before = deep(self.entries@);
        if let Some(i) = self.find(id) {
            assert(before[i as int].frames.len() > 0);
            let mut entry = self.entries.remove(i);
            let ghost frames = deep(entry.frames@);
            let _ = entry.frames.pop();
            entry.frames.push(Some(rewrite));
            assert(deep(entry.frames@) =~= frames.drop_last().push(Some(rewrite.deep_view())));
            let ghost changed = entry.deep_view();
            self.entries.insert(i, entry);
            assert(deep(self.entries@) =~= before.update(i as int, changed));
            proof {
                lemma_update_frames(before, i as int, changed);
                let after = deep(self.entries@);
                assert forall|k: int| 0 <= k < self.entries@.len() implies (
                #[trigger] after[k]).frames.len() > 0 by {
                    if k != i {
                        assert(before[k].frames.len() > 0);
                    }
                }
            }
        }
    }

    /// The innermost stack is done with a call: takes what it has left.
    pub fn finish(&mut self, id: &String) -> (rewrite: Option<Json>)
        requires
            old(self).wf(),
        ensures
            final(self).wf(),
            final(self).deep_view() == after_finish(old(self).deep_view(), id@),
            rewrite.deep_view() == innermost(old(self).deep_view(), id@),
    {
        let ghost before = deep(self.entries@);
        match self.find(id) {
            Some(i) => {
                assert(before[i as int].frames.len() > 0);
                let mut entry = self.entries.remove(i);
                assert(deep(self.entries@) =~= before.remove(i as int));
                let ghost frames = deep(entry.frames@);
                let rewrite = match entry.frames.pop() {
                    Some(rewrite) => rewrite,
                    None => None,
                };
                assert(rewrite.deep_view() == frames.last());
                assert(deep(entry.frames@) =~= frames.drop_last());
                if entry.frames.len() > 0 {
                    let ghost changed = entry.deep_view();
                    self.entries.insert(i, entry);
                    assert(deep(self.entries@) =~= before.update(i as int, changed));
                    proof {
                        lemma_update_frames(before, i as int, changed);
                    }
                } else {
                    proof {
                        lemma_remove_frames(before, i as int);
                    }
                }
                proof {
                    let after = deep(self.entries@);
                    assert forall|k: int| 0 <= k < self.entries@.len() implies (
                    #[trigger] after[k]).frames.len() > 0 by {
                        if after.len() < before.len() {
                            assert(after[k] == before[if k < i { k } else { k + 1 }]);
                        } else if k != i {
                            assert(before[k].frames.len() > 0);
                        }
                    }
                }
                rewrite
            },
            None => {
                assert(self.deep_view() =~= self.deep_view().remove(id@));
                None
            },
        }
    }
}

/// What a stack leaves behind when it skips a call gets to the stack around it:
/// between beginning and finishing, what is recorded comes out, and nothing where
/// nothing was recorded.
pub proof fn law_frames_carry_the_rewrite(
    frames: Map<Seq<char>, Seq<Option<Seq<char>>>>,
    id: Seq<char>,
    rewrite: Seq<char>,
)
    ensures
        innermost(after_record(after_begin(frames, id), id, rewrite), id) == Some(rewrite),
        innermost(after_begin(frames, id), id) == None::<Seq<char>>,
{
}

/// Asking a stack about a call leaves the frames as they were, whether a rewrite
/// was recorded or the asking was given up half-way.
pub proof fn law_frames_are_balanced(
    frames: Map<Seq<char>, Seq<Option<Seq<char>>>>,
    id: Seq<char>,
    rewrite: Seq<char>,
)
    requires
        frames.contains_key(id) ==> frames[id].len() > 0,
    ensures
        after_finish(after_begin(frames, id), id) == frames,
        after_finish(after_record(after_begin(frames, id), id, rewrite), id) == frames,
{
    let begun = after_begin(frames, id);
    assert(frames_of(begun, id).drop_last() =~= frames_of(frames, id));
    assert(after_finish(begun, id) =~= frames);
    let recorded = after_record(begun, id, rewrite);
    assert(frames_of(recorded, id).drop_last() =~= frames_of(frames, id));
    assert(after_finish(recorded, id) =~= frames);
}

/// Tool calls that run side by side do not touch each other's frames.
pub proof fn law_frames_are_isolated(
    frames: Map<Seq<char>, Seq<Option<Seq<char>>>>,
    id: Seq<char>,
    other: Seq<char>,
    rewrite: Seq<char>,
)
    requires
        id != other,
    ensures
        frames_of(after_begin(frames, id), other) == frames_of(frames, other),
        frames_of(after_record(frames, id, rewrite), other) == frames_of(frames, other),
        frames_of(after_finish(frames, id), other) == frames_of(frames, other),
{
}

/// What hooks know of the run that they are asked in.
#[derive(Debug)]
pub struct HookContext<C> {
    is_streaming: bool,
    agent_name: Option<String>,
    run_id: String,
    turn: usize,
    turn_id: Option<String>,
    frames: ToolCallRewriteFrames,
    capabilities: C,
}

pub struct HookContextView<C> {
    pub is_streaming: bool,
    pub agent_name: Option<Seq<char>>,
    pub run_id: Seq<char>,
    pub turn: nat,
    pub turn_id: Option<Seq<char>>,
    pub frames: Map<Seq<char>, Seq<Option<Seq<char>>>>,
    pub capabilities: C,
}

impl<C> DeepView for HookContext<C> {
    type V = HookContextView<C>;

    closed spec fn deep_view(&self) -> HookContextView<C> {
        HookContextView {
            is_streaming: self.is_streaming,
            agent_name: self.agent_name.deep_view(),
            run_id: self.run_id@,
            turn: self.turn as nat,
            turn_id: self.turn_id.deep_view(),
            frames: self.frames.deep_view(),
            capabilities: self.capabilities,
        }
    }
}

impl<C> HookContext<C> {
    /// What holds of every context.
    pub closed spec fn wf(&self) -> bool {
        self.frames.wf()
    }

    /// The context of a run that has not called the model yet.
    pub fn new(
        is_streaming: bool,
        agent_name: Option<String>,
        run_id: String,
        capabilities: C,
    ) -> (context: Self)
        ensures
            context.wf(),
            context.deep_view() == (HookContextView {
                is_streaming,
                agent_name: agent_name.deep_view(),
                run_id: run_id@,
                turn: 0,
                turn_id: None,
                frames: Map::empty(),
                capabilities,
            }),
    {
        HookContext {
            is_streaming,
            agent_name,
            run_id,
            turn: 0,
            turn_id: None,
            frames: ToolCallRewriteFrames::new(),
            capabilities,
        }
    }

    /// Whether the run streams.
    pub fn is_streaming(&self) -> (streaming: bool)
        ensures
            streaming == self.deep_view().is_streaming,
    {
        self.is_streaming
    }

    /// The name of the agent, where it has one.
    pub fn agent_name(&self) -> (name: Option<&str>)
        ensures
            name.deep_view() == self.deep_view().agent_name,
    {
        match &self.agent_name {
            Some(name) => Some(name.as_str()),
            None => None,
        }
    }

    /// The id of the run.
    pub fn run_id(&self) -> (id: &str)
        ensures
            id@ == self.deep_view().run_id,
    {
        self.run_id.as_str()
    }

    /// Sets the number of the model call under way.
    pub fn set_turn(&mut self, turn: usize)
        requires
            old(self).wf(),
        ensures
            final(self).wf(),
            final(self).deep_view() == (HookContextView {
                turn: turn as nat,
                ..old(self).deep_view()
            }),
    {
        self.turn = turn;
    }

    /// The number of the model call under way.
    pub fn turn(&self) -> (turn: usize)
        ensures
            turn == self.deep_view().turn,
    {
        self.turn
    }

    /// Sets the announced id of the turn under way.
    pub fn set_turn_id(&mut self, id: String)
        requires
            old(self).wf(),
        ensures
            final(self).wf(),
            final(self).deep_view() == (HookContextView {
                turn_id: Some(id@),
                ..old(self).deep_view()
            }),
    {
        self.turn_id = Some(id);
    }

    /// The announced id of the turn under way, once one has been announced.
    pub fn turn_id(&self) -> (id: Option<String>)
        ensures
            id.deep_view() == self.deep_view().turn_id,
    {
        self.turn_id.clone()
    }

    /// The capabilities of the run, the same that its tools have.
    pub fn capabilities(&self) -> (capabilities: &C)
        ensures
            *capabilities == self.deep_view().capabilities,
    {
        &self.capabilities
    }

    /// A stack begins to be asked about a call.
    pub fn begin_tool_call_resolution(&mut self, internal_call_id: &String)
        requires
            old(self).wf(),
        ensures
            final(self).wf(),
            final(self).deep_view() == (HookContextView {
                frames: after_begin(old(self).deep_view().frames, internal_call_id@),
                ..old(self).deep_view()
            }),
    {
        self.frames.begin(internal_call_id);
    }

    /// The innermost stack leaves its rewrite of a call's arguments.
    pub fn record_tool_call_rewrite(&mut self, internal_call_id: &String, rewrite: Json)
        requires
            old(self).wf(),
        ensures
            final(self).wf(),
            final(self).deep_view() == (HookContextView {
                frames: after_record(
                    old(self).deep_view().frames,
                    internal_call_id@,
                    rewrite.deep_view(),
                ),
                ..old(self).deep_view()
            }),
    {
        self.frames.record(internal_call_id, rewrite);
    }

    /// The innermost stack is done with a call: takes what it has left.
    pub fn finish_tool_call_resolution(&mut self, internal_call_id: &String) -> (rewrite: Option<
        Json,
    >)
        requires
            old(self).wf(),
        ensures
            final(self).wf(),
            final(self).deep_view() == (HookContextView {
                frames: after_finish(old(self).deep_view().frames, internal_call_id@),
                ..old(self).deep_view()
            }),
            rewrite.deep_view() == innermost(old(self).deep_view().frames, internal_call_id@),
    {
        self.frames.finish(internal_call_id)
    }
}

} // verus!
