//! Hooks around tool calls: what they may decide, and how their decisions combine.

use vstd::prelude::*;
use vstd::std_specs::convert::FromSpecImpl;
use crate::deep::{deep, group_deep};
use crate::json::Json;
use crate::message::ToolResultContentView;
use crate::strings::{decimal, spell};
use crate::tool::{text_output, ExecutionResult, ToolOutput};

verus! {

broadcast use group_deep;

/// A tool call that is about to run.
#[derive(Debug, Clone, Copy)]
pub struct ToolCall<'a> {
    pub tool_name: &'a str,
    /// The provider's id of the call.
    pub tool_call_id: Option<&'a str>,
    /// The id under which the call's stream items go out.
    pub internal_call_id: &'a str,
    /// The arguments as JSON, with earlier rewrites applied.
    pub args: &'a str,
}

/// A tool call that has run, or was skipped. `C` is what tool calls are handed a copy of.
#[derive(Debug)]
pub struct ToolResultEvent<'a, C> {
    pub tool_name: &'a str,
    /// The provider's id of the call.
    pub tool_call_id: Option<&'a str>,
    /// The id under which the call's stream items go out.
    pub internal_call_id: &'a str,
    /// The arguments that the tool ran with.
    pub args: &'a str,
    /// What the model is to see, with earlier rewrites applied.
    pub presentation: &'a ToolOutput,
    /// What the tool gave.
    pub raw_result: &'a ExecutionResult,
    /// The copy that this call was handed, as the call left it.
    pub tool_context: &'a C,
}

impl<'a, C> Clone for ToolResultEvent<'a, C> {
    fn clone(&self) -> (copy: Self)
        ensures
            copy == *self,
    {
        *self
    }
}

impl<'a, C> Copy for ToolResultEvent<'a, C> {

}

/// What a hook decides on a tool call that is about to run.
#[derive(Debug, PartialEq, Eq)]
pub enum ToolCallAction {
    /// Run it with the arguments as they are.
    Run,
    /// Run it with other arguments.
    Rewrite(Json),
    /// Do not run it; tell the model why.
    Skip(String),
}

pub enum ToolCallActionView {
    Run,
    Rewrite(Seq<char>),
    Skip(Seq<char>),
}

impl DeepView for ToolCallAction {
    type V = ToolCallActionView;

    open spec fn deep_view(&self) -> ToolCallActionView {
        match self {
            ToolCallAction::Run => ToolCallActionView::Run,
            ToolCallAction::Rewrite(args) => ToolCallActionView::Rewrite(args.deep_view()),
            ToolCallAction::Skip(reason) => ToolCallActionView::Skip(reason@),
        }
    }
}

impl ToolCallAction {
    /// Run the call with the arguments as they are.
    pub fn run() -> (action: Self)
        ensures
            action.deep_view() == ToolCallActionView::Run,
    {
        ToolCallAction::Run
    }

    /// Run the call with other arguments.
    pub fn rewrite(args: Json) -> (action: Self)
        ensures
            action.deep_view() == ToolCallActionView::Rewrite(args.deep_view()),
    {
        ToolCallAction::Rewrite(args)
    }

    /// Run the call with other arguments, if those could be put into JSON.
    pub fn try_rewrite(args: Result<Json, serde_json::Error>) -> (action: Result<
        Self,
        serde_json::Error,
    >)
        ensures
            match args {
                Ok(args) => action matches Ok(action) && action.deep_view()
                    == ToolCallActionView::Rewrite(args.deep_view()),
                Err(error) => action == Err::<ToolCallAction, serde_json::Error>(error),
            },
    {
        match args {
            Ok(args) => Ok(ToolCallAction::Rewrite(args)),
            Err(error) => Err(error),
        }
    }

    /// Do not run the call; tell the model why.
    pub fn skip(reason: &str) -> (action: Self)
        ensures
            action.deep_view() == ToolCallActionView::Skip(reason@),
    {
        ToolCallAction::Skip(reason.to_owned())
    }
}

/// What a hook decides on the result of a tool call.
#[derive(Debug, PartialEq, Eq)]
pub enum ToolResultAction {
    /// Show the model what it was to see.
    Keep,
    /// Show the model something else.
    Rewrite(ToolOutput),
    /// Do not go on with the run once the tools of this turn are done.
    Stop(String),
}

pub enum ToolResultActionView {
    Keep,
    Rewrite(Seq<ToolResultContentView>),
    Stop(Seq<char>),
}

impl DeepView for ToolResultAction {
    type V = ToolResultActionView;

    open spec fn deep_view(&self) -> ToolResultActionView {
        match self {
            ToolResultAction::Keep => ToolResultActionView::Keep,
            ToolResultAction::Rewrite(output) => ToolResultActionView::Rewrite(output.deep_view()),
            ToolResultAction::Stop(reason) => ToolResultActionView::Stop(reason@),
        }
    }
}

impl ToolResultAction {
    /// Show the model what it was to see.
    pub fn keep() -> (action: Self)
        ensures
            action.deep_view() == ToolResultActionView::Keep,
    {
        ToolResultAction::Keep
    }

    /// Show the model this text, word for word.
    pub fn rewrite(result: &str) -> (action: Self)
        ensures
            action.deep_view() == ToolResultActionView::Rewrite(text_output(result@)),
    {
        ToolResultAction::Rewrite(ToolOutput::text(result.to_owned()))
    }

    /// Show the model this output.
    pub fn rewrite_output(output: ToolOutput) -> (action: Self)
        ensures
            action.deep_view() == ToolResultActionView::Rewrite(output.deep_view()),
    {
        ToolResultAction::Rewrite(output)
    }

    /// Do not go on with the run once the tools of this turn are done.
    pub fn stop(reason: &str) -> (action: Self)
        ensures
            action.deep_view() == ToolResultActionView::Stop(reason@),
    {
        ToolResultAction::Stop(reason.to_owned())
    }
}

/// The name and the place of a hook: lower priorities come first.
#[derive(Debug, PartialEq, Eq)]
pub struct HookSpec {
    pub id: String,
    pub priority: i32,
}

pub struct HookSpecView {
    pub id: Seq<char>,
    pub priority: i32,
}

impl DeepView for HookSpec {
    type V = HookSpecView;

    open spec fn deep_view(&self) -> HookSpecView {
        HookSpecView { id: self.id@, priority: self.priority }
    }
}

impl From<String> for HookSpec {
    fn from(id: String) -> (spec: Self) {
        HookSpec { id, priority: 0 }
    }
}

impl FromSpecImpl<String> for HookSpec {
    open spec fn obeys_from_spec() -> bool {
        true
    }

    open spec fn from_spec(id: String) -> Self {
        HookSpec { id, priority: 0 }
    }
}

impl<'a> From<&'a str> for HookSpec {
    fn from(id: &'a str) -> (spec: Self)
        ensures
            spec.deep_view() == (HookSpecView { id: id@, priority: 0 }),
    {
        HookSpec { id: id.to_owned(), priority: 0 }
    }
}

impl<'a> FromSpecImpl<&'a str> for HookSpec {
    open spec fn obeys_from_spec() -> bool {
        false
    }

    open spec fn from_spec(id: &'a str) -> Self {
        arbitrary()
    }
}

impl<'a> From<(&'a str, i32)> for HookSpec {
    fn from(pair: (&'a str, i32)) -> (spec: Self)
        ensures
            spec.deep_view() == (HookSpecView { id: pair.0@, priority: pair.1 }),
    {
        HookSpec { id: pair.0.to_owned(), priority: pair.1 }
    }
}

impl<'a> FromSpecImpl<(&'a str, i32)> for HookSpec {
    open spec fn obeys_from_spec() -> bool {
        false
    }

    open spec fn from_spec(pair: (&'a str, i32)) -> Self {
        arbitrary()
    }
}

/// A registered hook.
#[derive(Debug)]
pub struct StackedHook<H> {
    id: String,
    priority: i32,
    /// How many hooks were registered before it.
    seq: u64,
    hook: H,
}

pub struct StackedHookView<H> {
    pub id: Seq<char>,
    pub priority: i32,
    pub seq: nat,
    pub hook: H,
}

impl<H> DeepView for StackedHook<H> {
    type V = StackedHookView<H>;

    closed spec fn deep_view(&self) -> StackedHookView<H> {
        StackedHookView {
            id: self.id@,
            priority: self.priority,
            seq: self.seq as nat,
            hook: self.hook,
        }
    }
}

/// Hooks in the order in which they are asked: by priority, and at the same
/// priority in the order of registration.
#[derive(Debug)]
pub struct HookStack<H> {
    hooks: Vec<StackedHook<H>>,
}

impl<H> DeepView for HookStack<H> {
    type V = Seq<StackedHookView<H>>;

    closed spec fn deep_view(&self) -> Seq<StackedHookView<H>> {
        deep(self.hooks@)
    }
}

/// Whether `a` is asked before `b`.
pub open spec fn asked_before<H>(a: StackedHookView<H>, b: StackedHookView<H>) -> bool {
    a.priority < b.priority || (a.priority == b.priority && a.seq < b.seq)
}

/// Whether the hooks stand in the order in which they are asked, each with a
/// registration number of its own.
pub open spec fn in_asking_order<H>(hooks: Seq<StackedHookView<H>>) -> bool {
    &&& forall|i: int, j: int|
        0 <= i < j < hooks.len() ==> asked_before(#[trigger] hooks[i], #[trigger] hooks[j])
    &&& forall|i: int| 0 <= i < hooks.len() ==> (#[trigger] hooks[i]).seq < hooks.len()
}

/// The place of a new hook: behind those of its priority and of lower ones.
pub open spec fn place_of<H>(hooks: Seq<StackedHookView<H>>, priority: i32) -> nat
    decreases hooks.len(),
{
    if hooks.len() == 0 || hooks[0].priority > priority {
        0
    } else {
        1 + place_of(hooks.skip(1), priority)
    }
}

/// The stack with one more hook.
pub open spec fn with_hook<H>(
    hooks: Seq<StackedHookView<H>>,
    id: Seq<char>,
    priority: i32,
    hook: H,
) -> Seq<StackedHookView<H>> {
    hooks.insert(
        place_of(hooks, priority) as int,
        StackedHookView { id, priority, seq: hooks.len(), hook },
    )
}

pub proof fn lemma_place_of<H>(hooks: Seq<StackedHookView<H>>, priority: i32)
    requires
        forall|i: int, j: int|
            0 <= i < j < hooks.len() ==> (#[trigger] hooks[i]).priority <= (
            #[trigger] hooks[j]).priority,
    ensures
        place_of(hooks, priority) <= hooks.len(),
        forall|i: int|
            0 <= i < place_of(hooks, priority) ==> (#[trigger] hooks[i]).priority <= priority,
        forall|i: int|
            place_of(hooks, priority) <= i < hooks.len() ==> (#[trigger] hooks[i]).priority
                > priority,
    decreases hooks.len(),
{
    if hooks.len() > 0 && hooks[0].priority <= priority {
        let rest = hooks.skip(1);
        assert forall|i: int, j: int| 0 <= i < j < rest.len() implies (#[trigger] rest[i]).priority
            <= (#[trigger] rest[j]).priority by {
            assert(rest[i] == hooks[i + 1] && rest[j] == hooks[j + 1]);
        }
        lemma_place_of(rest, priority);
        assert forall|i: int| 0 <= i < place_of(hooks, priority) implies (
        #[trigger] hooks[i]).priority <= priority by {
            if i > 0 {
                assert(rest[i - 1] == hooks[i]);
            }
        }
        assert forall|i: int| place_of(hooks, priority) <= i < hooks.len() implies (
        #[trigger] hooks[i]).priority > priority by {
            assert(rest[i - 1] == hooks[i]);
        }
    } else if hooks.len() > 0 {
        assert forall|i: int| 0 <= i < hooks.len() implies (#[trigger] hooks[i]).priority
            > priority by {
            if i > 0 {
                assert(hooks[0].priority <= hooks[i].priority);
            }
        }
    }
}

/// Registering a hook keeps the order in which hooks are asked: by priority, and
/// at the same priority in the order of registration.
pub proof fn law_registration_keeps_the_order<H>(
    hooks: Seq<StackedHookView<H>>,
    id: Seq<char>,
    priority: i32,
    hook: H,
)
    requires
        in_asking_order(hooks),
    ensures
        in_asking_order(with_hook(hooks, id, priority, hook)),
        place_of(hooks, priority) <= hooks.len(),
{
    assert forall|i: int, j: int| 0 <= i < j < hooks.len() implies (#[trigger] hooks[i]).priority
        <= (#[trigger] hooks[j]).priority by {
        assert(asked_before(hooks[i], hooks[j]));
    }
    lemma_place_of(hooks, priority);
    let place = place_of(hooks, priority) as int;
    let after = with_hook(hooks, id, priority, hook);
    assert forall|i: int, j: int| 0 <= i < j < after.len() implies asked_before(
        #[trigger] after[i],
        #[trigger] after[j],
    ) by {
        let old_i = if i < place { i } else { i - 1 };
        let old_j = if j < place { j } else { j - 1 };
        if i != place {
            assert(after[i] == hooks[old_i]);
        }
        if j != place {
            assert(after[j] == hooks[old_j]);
        }
        if i != place && j != place {
            assert(asked_before(hooks[old_i], hooks[old_j]));
        }
    }
    assert forall|i: int| 0 <= i < after.len() implies (#[trigger] after[i]).seq < after.len() by {
        let old_i = if i < place { i } else { i - 1 };
        if i != place {
            assert(after[i] == hooks[old_i]);
        }
    }
}

/// Whether `copy` is a copy of `original`: all is the same, but for the hooks, each of
/// which is a clone.
pub open spec fn copied_stack<H: Clone>(
    original: Seq<StackedHookView<H>>,
    copy: Seq<StackedHookView<H>>,
) -> bool {
    &&& copy.len() == original.len()
    &&& forall|i: int|
        0 <= i < copy.len() ==> {
            &&& (#[trigger] copy[i]).id == original[i].id
            &&& copy[i].priority == original[i].priority
            &&& copy[i].seq == original[i].seq
            &&& cloned::<H>(original[i].hook, copy[i].hook)
        }
}

impl<H: Clone> Clone for HookStack<H> {
    fn clone(&self) -> (copy: Self)
        ensures
            copied_stack(self.deep_view(), copy.deep_view()),
            self.wf() ==> copy.wf(),
    {
        let mut hooks: Vec<StackedHook<H>> = Vec::new();
        let mut i: usize = 0;
        while i < self.hooks.len()
            invariant
                i <= self.hooks@.len(),
                hooks@.len() == i,
                forall|k: int|
                    0 <= k < i ==> {
                        &&& (#[trigger] hooks@[k]).id@ == self.hooks@[k].id@
                        &&& hooks@[k].priority == self.hooks@[k].priority
                        &&& hooks@[k].seq == self.hooks@[k].seq
                        &&& cloned::<H>(self.hooks@[k].hook, hooks@[k].hook)
                    },
            decreases self.hooks@.len() - i,
        {
            let record = &self.hooks[i];
            hooks.push(
                StackedHook {
                    id: record.id.clone(),
                    priority: record.priority,
                    seq: record.seq,
                    hook: record.hook.clone(),
                },
            );
            i = i + 1;
        }
        let copy = HookStack { hooks };
        proof {
            let before = self.deep_view();
            let after = copy.deep_view();
            assert forall|i: int| 0 <= i < after.len() implies {
                &&& (#[trigger] after[i]).id == before[i].id
                &&& after[i].priority == before[i].priority
                &&& after[i].seq == before[i].seq
                &&& cloned::<H>(before[i].hook, after[i].hook)
            } by {
                assert(after[i] == copy.hooks@[i].deep_view());
                assert(before[i] == self.hooks@[i].deep_view());
            }
            if self.wf() {
                assert forall|i: int, j: int| 0 <= i < j < after.len() implies asked_before(
                    #[trigger] after[i],
                    #[trigger] after[j],
                ) by {
                    assert(asked_before(before[i], before[j]));
                }
                assert forall|i: int| 0 <= i < after.len() implies (#[trigger] after[i]).seq
                    < after.len() by {
                    assert(before[i].seq < before.len());
                }
            }
        }
        copy
    }
}

impl<H> HookStack<H> {
    /// What holds of every stack.
    pub open spec fn wf(&self) -> bool {
        in_asking_order(self.deep_view())
    }

    /// A stack without hooks.
    pub fn new() -> (stack: Self)
        ensures
            stack.wf(),
            stack.deep_view() == Seq::<StackedHookView<H>>::empty(),
    {
        HookStack { hooks: Vec::new() }
    }

    /// A stack of one hook.
    pub fn with(hook: H) -> (stack: Self)
        ensures
            stack.wf(),
            stack.deep_view() == with_hook(Seq::empty(), "trait-"@ + decimal(0), 0, hook),
    {
        let mut stack = HookStack::new();
        stack.push(hook);
        stack
    }

    /// The names of the hooks, in the order in which they are asked.
    pub fn ids(&self) -> (ids: Vec<&str>)
        ensures
            ids@.len() == self.deep_view().len(),
            forall|i: int|
                0 <= i < ids@.len() ==> (#[trigger] ids@[i])@ == self.deep_view()[i].id,
    {
        let mut ids: Vec<&str> = Vec::new();
        let mut i: usize = 0;
        while i < self.hooks.len()
            invariant
                i <= self.hooks@.len(),
                ids@.len() == i,
                forall|k: int| 0 <= k < i ==> (#[trigger] ids@[k])@ == self.hooks@[k].id@,
            decreases self.hooks@.len() - i,
        {
            ids.push(self.hooks[i].id.as_str());
            i = i + 1;
        }
        ids
    }

    /// Adds a hook at priority 0 under a name made from its number.
    pub fn push(&mut self, hook: H)
        requires
            old(self).wf(),
        ensures
            final(self).wf(),
            final(self).deep_view() == with_hook(
                old(self).deep_view(),
                "trait-"@ + decimal(old(self).deep_view().len()),
                0,
                hook,
            ),
    {
        let mut id = "trait-".to_owned();
        id.append(spell(self.hooks.len()).as_str());
        self.push_prioritized(id, 0, hook);
    }

    /// Adds a hook under the given name and at the given priority.
    pub fn hook(self, spec: HookSpec, hook: H) -> (stack: Self)
        requires
            self.wf(),
        ensures
            stack.wf(),
            stack.deep_view() == with_hook(self.deep_view(), spec.id@, spec.priority, hook),
    {
        let mut stack = self;
        stack.push_prioritized(spec.id, spec.priority, hook);
        stack
    }

    /// Adds a hook behind those of its priority and of lower ones.
    fn push_prioritized(&mut self, id: String, priority: i32, hook: H)
        requires
            old(self).wf(),
        ensures
            final(self).wf(),
            final(self).deep_view() == with_hook(old(self).deep_view(), id@, priority, hook),
    {
        let ghost before = self.deep_view();
        proof {
            assert forall|i: int, j: int| 0 <= i < j < before.len() implies (
            #[trigger] before[i]).priority <= (#[trigger] before[j]).priority by {
                assert(asked_before(before[i], before[j]));
            }
            lemma_place_of(before, priority);
            law_registration_keeps_the_order(before, id@, priority, hook);
        }
        let seq = self.hooks.len() as u64;
        let mut place: usize = 0;
        while place < self.hooks.len() && self.hooks[place].priority <= priority
            invariant
                place <= self.hooks@.len(),
                before == deep(self.hooks@),
                forall|i: int| 0 <= i < place ==> (#[trigger] before[i]).priority <= priority,
            decreases self.hooks@.len() - place,
        {
            assert(before[place as int] == self.hooks@[place as int].deep_view());
            place = place + 1;
        }
        assert(place == place_of(before, priority)) by {
            if place < place_of(before, priority) {
                assert(before[place as int] == self.hooks@[place as int].deep_view());
            }
            if place > place_of(before, priority) {
                assert(before[place_of(before, priority) as int].priority <= priority);
            }
        }
        self.hooks.insert(place, StackedHook { id, priority, seq, hook });
    }

    /// Whether there is no hook.
    pub fn is_empty(&self) -> (empty: bool)
        ensures
            empty == (self.deep_view().len() == 0),
    {
        self.hooks.len() == 0
    }

    /// How many hooks there are.
    pub fn len(&self) -> (n: usize)
        ensures
            n == self.deep_view().len(),
    {
        self.hooks.len()
    }

    /// The hook that is asked after `i` others.
    pub fn get(&self, i: usize) -> (hook: Option<&H>)
        ensures
            hook == (if i < self.deep_view().len() {
                Some(&self.deep_view()[i as int].hook)
            } else {
                None
            }),
    {
        if i < self.hooks.len() {
            Some(&self.hooks[i].hook)
        } else {
            None
        }
    }
}

/// The answer of a hook to a tool call: its action, and the arguments that a stack
/// inside it had rewritten when it skipped the call.
pub type CallAnswer = (ToolCallAction, Option<Json>);

pub type CallAnswerView = (ToolCallActionView, Option<Seq<char>>);

/// The arguments after an answer.
pub open spec fn args_after(effective: Option<Seq<char>>, answer: CallAnswerView) -> Option<
    Seq<char>,
> {
    match answer.0 {
        ToolCallActionView::Rewrite(args) => Some(args),
        _ => match answer.1 {
            Some(args) => Some(args),
            None => effective,
        },
    }
}

/// What the hooks decide on a tool call, given their answers in the order in which
/// they are asked and the rewrite so far. The first skip stands; without one the
/// call runs, with the last rewrite.
pub open spec fn call_resolution(
    effective: Option<Seq<char>>,
    answers: Seq<CallAnswerView>,
) -> CallAnswerView
    decreases answers.len(),
{
    if answers.len() == 0 {
        match effective {
            Some(args) => (ToolCallActionView::Rewrite(args), None),
            None => (ToolCallActionView::Run, None),
        }
    } else {
        let after = args_after(effective, answers[0]);
        match answers[0].0 {
            ToolCallActionView::Skip(reason) => (ToolCallActionView::Skip(reason), after),
            _ => call_resolution(after, answers.skip(1)),
        }
    }
}

/// Asking the hooks of a stack about a tool call, one after the other.
#[derive(Debug)]
pub struct CallResolution {
    effective: Option<Json>,
}

impl DeepView for CallResolution {
    type V = Option<Seq<char>>;

    closed spec fn deep_view(&self) -> Option<Seq<char>> {
        self.effective.deep_view()
    }
}

/// Where asking the hooks about a tool call stands.
#[derive(Debug)]
pub enum CallResolutionStep {
    /// The next hook is to be asked.
    Next(CallResolution),
    /// The call is skipped; the arguments are there if they had been rewritten.
    Skipped(String, Option<Json>),
}

impl CallResolution {
    /// Before the first hook.
    pub fn new() -> (resolution: Self)
        ensures
            resolution.deep_view() == None::<Seq<char>>,
    {
        CallResolution { effective: None }
    }

    /// The arguments that the next hook is shown: those of the call, or the last
    /// rewrite.
    pub fn current_args<'a>(&'a self, original: &'a str) -> (args: &'a str)
        ensures
            args@ == (match self.deep_view() {
                Some(args) => args,
                None => original@,
            }),
    {
        match &self.effective {
            Some(args) => args.as_text(),
            None => original,
        }
    }

    /// Takes the answer of a hook.
    pub fn answer(self, answer: CallAnswer) -> (step: CallResolutionStep)
        ensures
            match answer.0.deep_view() {
                ToolCallActionView::Skip(reason) => step matches CallResolutionStep::Skipped(
                    told,
                    args,
                ) && told@ == reason && args.deep_view() == args_after(
                    self.deep_view(),
                    answer.deep_view(),
                ),
                _ => step matches CallResolutionStep::Next(next) && next.deep_view() == args_after(
                    self.deep_view(),
                    answer.deep_view(),
                ),
            },
    {
        let (action, salvaged) = answer;
        let effective = match salvaged {
            Some(args) => Some(args),
            None => self.effective,
        };
        match action {
            ToolCallAction::Run => CallResolutionStep::Next(CallResolution { effective }),
            ToolCallAction::Rewrite(args) => CallResolutionStep::Next(
                CallResolution { effective: Some(args) },
            ),
            ToolCallAction::Skip(reason) => CallResolutionStep::Skipped(reason, effective),
        }
    }

    /// Behind the last hook.
    pub fn finish(self) -> (resolved: CallAnswer)
        ensures
            resolved.deep_view() == call_resolution(self.deep_view(), Seq::empty()),
    {
        match self.effective {
            Some(args) => (ToolCallAction::Rewrite(args), None),
            None => (ToolCallAction::Run, None),
        }
    }
}

/// What the hooks decide on a tool call, given all their answers.
pub fn resolve_tool_call(answers: Vec<CallAnswer>) -> (resolved: CallAnswer)
    ensures
        resolved.deep_view() == call_resolution(None, deep(answers@)),
{
    let ghost all = deep(answers@);
    let ghost n = answers@.len();
    let mut rest = answers;
    let mut resolution = CallResolution::new();
    assert(all.skip(0) =~= all);
    while rest.len() > 0
        invariant
            rest@.len() <= n,
            deep(rest@) == all.skip(n - rest@.len()),
            n == all.len(),
            all == deep(answers@),
            call_resolution(None, all) == call_resolution(resolution.deep_view(), deep(rest@)),
        decreases rest@.len(),
    {
        let ghost before = deep(rest@);
        let answer = rest.remove(0);
        assert(before[0] == answer.deep_view());
        assert(deep(rest@) =~= before.skip(1));
        assert(deep(rest@) =~= all.skip(n - rest@.len()));
        match resolution.answer(answer) {
            CallResolutionStep::Next(next) => {
                resolution = next;
            },
            CallResolutionStep::Skipped(reason, args) => {
                return (ToolCallAction::Skip(reason), args);
            },
        }
    }
    assert(deep(rest@) =~= Seq::empty());
    resolution.finish()
}

/// A skip is final: what hooks behind it would have answered does not matter.
pub proof fn law_skip_absorbs(
    effective: Option<Seq<char>>,
    before: Seq<CallAnswerView>,
    skip: CallAnswerView,
    behind: Seq<CallAnswerView>,
)
    requires
        skip.0 is Skip,
    ensures
        call_resolution(effective, before.push(skip) + behind) == call_resolution(
            effective,
            before.push(skip),
        ),
    decreases before.len(),
{
    let short = before.push(skip);
    let long = short + behind;
    assert(long[0] == short[0]);
    if before.len() > 0 {
        assert(short.skip(1) =~= before.skip(1).push(skip));
        assert(long.skip(1) =~= before.skip(1).push(skip) + behind);
        law_skip_absorbs(
            args_after(effective, before[0]),
            before.skip(1),
            skip,
            behind,
        );
    }
}

/// The arguments after several answers, none of which is a skip.
pub open spec fn args_after_all(effective: Option<Seq<char>>, answers: Seq<CallAnswerView>) -> Option<
    Seq<char>,
>
    decreases answers.len(),
{
    if answers.len() == 0 {
        effective
    } else {
        args_after_all(args_after(effective, answers[0]), answers.skip(1))
    }
}

pub proof fn lemma_resolution_of_concatenation(
    effective: Option<Seq<char>>,
    front: Seq<CallAnswerView>,
    back: Seq<CallAnswerView>,
)
    requires
        forall|i: int| 0 <= i < front.len() ==> !((#[trigger] front[i]).0 is Skip),
    ensures
        call_resolution(effective, front + back) == call_resolution(
            args_after_all(effective, front),
            back,
        ),
    decreases front.len(),
{
    if front.len() == 0 {
        assert(front + back =~= back);
    } else {
        assert((front + back)[0] == front[0]);
        assert((front + back).skip(1) =~= front.skip(1) + back);
        assert forall|i: int| 0 <= i < front.skip(1).len() implies !((
        #[trigger] front.skip(1)[i]).0 is Skip) by {
            assert(front.skip(1)[i] == front[i + 1]);
        }
        lemma_resolution_of_concatenation(
            args_after(effective, front[0]),
            front.skip(1),
            back,
        );
    }
}

proof fn lemma_resolution_with_a_start(effective: Option<Seq<char>>, answers: Seq<CallAnswerView>)
    ensures
        ({
            let fresh = call_resolution(None, answers);
            let started = call_resolution(effective, answers);
            match fresh.0 {
                ToolCallActionView::Run => started == call_resolution(effective, Seq::empty()),
                ToolCallActionView::Rewrite(args) => started == fresh,
                ToolCallActionView::Skip(reason) => started == (
                    fresh.0,
                    match fresh.1 {
                        Some(args) => Some(args),
                        None => effective,
                    },
                ),
            }
        }),
    decreases answers.len(),
{
    if answers.len() > 0 && !(answers[0].0 is Skip) {
        let rest = answers.skip(1);
        lemma_resolution_with_a_start(args_after(None, answers[0]), rest);
        lemma_resolution_with_a_start(args_after(effective, answers[0]), rest);
    }
}

/// A stack inside a stack behaves as its hooks would in its place: it is asked as
/// one hook, with the same decision and the same arguments in the end, also where
/// it skips the call after a rewrite.
pub proof fn law_nested_stack_is_flat(
    effective: Option<Seq<char>>,
    front: Seq<CallAnswerView>,
    inner: Seq<CallAnswerView>,
    back: Seq<CallAnswerView>,
)
    ensures
        call_resolution(effective, front + inner + back) == call_resolution(
            effective,
            front + seq![call_resolution(None, inner)] + back,
        ),
{
    let nested = seq![call_resolution(None, inner)];
    assert(front + inner + back =~= front + (inner + back));
    assert(front + nested + back =~= front + (nested + back));
    if exists|i: int| 0 <= i < front.len() && (#[trigger] front[i]).0 is Skip {
        let i = lemma_first_skip(front);
        let before = front.subrange(0, i);
        let behind = front.subrange(i + 1, front.len() as int);
        assert(front + (inner + back) =~= before.push(front[i]) + (behind + (inner + back)));
        assert(front + (nested + back) =~= before.push(front[i]) + (behind + (nested + back)));
        law_skip_absorbs(effective, before, front[i], behind + (inner + back));
        law_skip_absorbs(effective, before, front[i], behind + (nested + back));
    } else {
        lemma_resolution_of_concatenation(effective, front, inner + back);
        lemma_resolution_of_concatenation(effective, front, nested + back);
        lemma_flat(args_after_all(effective, front), inner, back);
    }
}

proof fn lemma_flat(
    start: Option<Seq<char>>,
    inner: Seq<CallAnswerView>,
    back: Seq<CallAnswerView>,
)
    ensures
        call_resolution(start, inner + back) == call_resolution(
            start,
            seq![call_resolution(None, inner)] + back,
        ),
{
    let nested = seq![call_resolution(None, inner)];
    assert((nested + back)[0] == nested[0]);
    assert((nested + back).skip(1) =~= back);
    if exists|i: int| 0 <= i < inner.len() && (#[trigger] inner[i]).0 is Skip {
        let i = lemma_first_skip(inner);
        let before = inner.subrange(0, i);
        let behind = inner.subrange(i + 1, inner.len() as int);
        assert(inner =~= before.push(inner[i]) + behind);
        assert(inner + back =~= before.push(inner[i]) + (behind + back));
        law_skip_absorbs(start, before, inner[i], behind + back);
        law_skip_absorbs(start, before, inner[i], behind);
        lemma_resolution_with_a_start(start, inner);
        lemma_skip_comes_out(None, inner, i);
    } else {
        lemma_resolution_of_concatenation(start, inner, back);
        lemma_resolution_of_concatenation(None, inner, Seq::empty());
        assert(inner + Seq::<CallAnswerView>::empty() =~= inner);
        lemma_args_with_a_start(start, inner);
    }
}

proof fn lemma_args_with_a_start(start: Option<Seq<char>>, answers: Seq<CallAnswerView>)
    ensures
        args_after_all(start, answers) == (match args_after_all(None, answers) {
            Some(args) => Some(args),
            None => start,
        }),
    decreases answers.len(),
{
    if answers.len() > 0 {
        lemma_args_with_a_start(args_after(start, answers[0]), answers.skip(1));
        lemma_args_with_a_start(args_after(None, answers[0]), answers.skip(1));
    }
}

proof fn lemma_first_skip(answers: Seq<CallAnswerView>) -> (first: int)
    requires
        exists|i: int| 0 <= i < answers.len() && (#[trigger] answers[i]).0 is Skip,
    ensures
        0 <= first < answers.len(),
        answers[first].0 is Skip,
        forall|i: int| 0 <= i < first ==> !((#[trigger] answers[i]).0 is Skip),
    decreases answers.len(),
{
    if answers[0].0 is Skip {
        0
    } else {
        let rest = answers.skip(1);
        let i = choose|i: int| 0 <= i < answers.len() && (#[trigger] answers[i]).0 is Skip;
        assert(rest[i - 1] == answers[i]);
        let first = lemma_first_skip(rest);
        assert forall|k: int| 0 <= k < first + 1 implies !((#[trigger] answers[k]).0 is Skip) by {
            if k > 0 {
                assert(rest[k - 1] == answers[k]);
            }
        }
        first + 1
    }
}

proof fn lemma_skip_comes_out(
    effective: Option<Seq<char>>,
    answers: Seq<CallAnswerView>,
    i: int,
)
    requires
        0 <= i < answers.len(),
        answers[i].0 is Skip,
    ensures
        call_resolution(effective, answers).0 is Skip,
    decreases answers.len(),
{
    if !(answers[0].0 is Skip) {
        assert(answers.skip(1)[i - 1] == answers[i]);
        lemma_skip_comes_out(args_after(effective, answers[0]), answers.skip(1), i - 1);
    }
}

/// What the hooks decide on a tool result, given their answers in the order in
/// which they are asked and the rewrite so far. The first stop stands; without one
/// the model sees the last rewrite.
pub open spec fn result_resolution(
    effective: Option<Seq<ToolResultContentView>>,
    answers: Seq<ToolResultActionView>,
) -> ToolResultActionView
    decreases answers.len(),
{
    if answers.len() == 0 {
        match effective {
            Some(output) => ToolResultActionView::Rewrite(output),
            None => ToolResultActionView::Keep,
        }
    } else {
        match answers[0] {
            ToolResultActionView::Keep => result_resolution(effective, answers.skip(1)),
            ToolResultActionView::Rewrite(output) => result_resolution(
                Some(output),
                answers.skip(1),
            ),
            ToolResultActionView::Stop(reason) => ToolResultActionView::Stop(reason),
        }
    }
}

/// Asking the hooks of a stack about a tool result, one after the other.
#[derive(Debug)]
pub struct ResultResolution {
    effective: Option<ToolOutput>,
}

impl DeepView for ResultResolution {
    type V = Option<Seq<ToolResultContentView>>;

    closed spec fn deep_view(&self) -> Option<Seq<ToolResultContentView>> {
        self.effective.deep_view()
    }
}

/// Where asking the hooks about a tool result stands.
#[derive(Debug)]
pub enum ResultResolutionStep {
    /// The next hook is to be asked.
    Next(ResultResolution),
    /// The run is to stop once the tools of this turn are done.
    Stopped(String),
}

impl ResultResolution {
    /// Before the first hook.
    pub fn new() -> (resolution: Self)
        ensures
            resolution.deep_view() == None::<Seq<ToolResultContentView>>,
    {
        ResultResolution { effective: None }
    }

    /// What the next hook is shown: the tool's output, or the last rewrite.
    pub fn current_presentation<'a>(&'a self, original: &'a ToolOutput) -> (shown: &'a ToolOutput)
        ensures
            shown.deep_view() == (match self.deep_view() {
                Some(output) => output,
                None => original.deep_view(),
            }),
    {
        match &self.effective {
            Some(output) => output,
            None => original,
        }
    }

    /// Takes the answer of a hook.
    pub fn answer(self, answer: ToolResultAction) -> (step: ResultResolutionStep)
        ensures
            match answer.deep_view() {
                ToolResultActionView::Keep => step matches ResultResolutionStep::Next(next)
                    && next.deep_view() == self.deep_view(),
                ToolResultActionView::Rewrite(output) => step matches ResultResolutionStep::Next(
                    next,
                ) && next.deep_view() == Some(output),
                ToolResultActionView::Stop(reason) => step matches ResultResolutionStep::Stopped(
                    told,
                ) && told@ == reason,
            },
    {
        match answer {
            ToolResultAction::Keep => ResultResolutionStep::Next(self),
            ToolResultAction::Rewrite(output) => ResultResolutionStep::Next(
                ResultResolution { effective: Some(output) },
            ),
            ToolResultAction::Stop(reason) => ResultResolutionStep::Stopped(reason),
        }
    }

    /// Behind the last hook.
    pub fn finish(self) -> (resolved: ToolResultAction)
        ensures
            resolved.deep_view() == result_resolution(self.deep_view(), Seq::empty()),
    {
        match self.effective {
            Some(output) => ToolResultAction::Rewrite(output),
            None => ToolResultAction::Keep,
        }
    }
}

/// What the hooks decide on a tool result, given all their answers.
pub fn resolve_tool_result(answers: Vec<ToolResultAction>) -> (resolved: ToolResultAction)
    ensures
        resolved.deep_view() == result_resolution(None, deep(answers@)),
{
    let ghost all = deep(answers@);
    let mut rest = answers;
    let mut resolution = ResultResolution::new();
    while rest.len() > 0
        invariant
            all == deep(answers@),
            result_resolution(None, all) == result_resolution(resolution.deep_view(), deep(rest@)),
        decreases rest@.len(),
    {
        let ghost before = deep(rest@);
        let answer = rest.remove(0);
        assert(before[0] == answer.deep_view());
        assert(deep(rest@) =~= before.skip(1));
        match resolution.answer(answer) {
            ResultResolutionStep::Next(next) => {
                resolution = next;
            },
            ResultResolutionStep::Stopped(reason) => {
                return ToolResultAction::Stop(reason);
            },
        }
    }
    assert(deep(rest@) =~= Seq::empty());
    resolution.finish()
}

/// A stop is final: what hooks behind it would have answered does not matter.
pub proof fn law_stop_absorbs(
    effective: Option<Seq<ToolResultContentView>>,
    before: Seq<ToolResultActionView>,
    reason: Seq<char>,
    behind: Seq<ToolResultActionView>,
)
    requires
        forall|i: int| 0 <= i < before.len() ==> !((#[trigger] before[i]) is Stop),
    ensures
        result_resolution(
            effective,
            before.push(ToolResultActionView::Stop(reason)) + behind,
        ) == ToolResultActionView::Stop(reason),
    decreases before.len(),
{
    let all = before.push(ToolResultActionView::Stop(reason)) + behind;
    if before.len() > 0 {
        assert(all[0] == before[0]);
        assert(all.skip(1) =~= before.skip(1).push(ToolResultActionView::Stop(reason)) + behind);
        assert forall|i: int| 0 <= i < before.skip(1).len() implies !((
        #[trigger] before.skip(1)[i]) is Stop) by {
            assert(before.skip(1)[i] == before[i + 1]);
        }
        let after = match before[0] {
            ToolResultActionView::Rewrite(output) => Some(output),
            _ => effective,
        };
        law_stop_absorbs(after, before.skip(1), reason, behind);
    } else {
        assert(all[0] == ToolResultActionView::Stop(reason));
    }
}

} // verus!
