//! Preparing completion requests.

use vstd::prelude::*;
use crate::completion::{
    CompletionError, CompletionErrorView, Document, DocumentView, ToolChoice, ToolChoiceView,
    ToolDefinition, ToolDefinitionView,
};
use crate::deep::{deep, group_deep};
use crate::message::{user_message, Message, MessageView, TextView, UserContentView};
use crate::names::{lemma_name_set_exists, name_set, ToolNames};
use crate::params::{AdditionalParams, AdditionalParamsView};
use crate::strings::{comes_before, debug_list, show_list};

verus! {

broadcast use group_deep;

/// The names among those asked for that were not offered, in order.
pub open spec fn missing_names(asked: Seq<Seq<char>>, offered: Seq<Seq<char>>) -> Seq<Seq<char>>
    decreases asked.len(),
{
    if asked.len() == 0 {
        Seq::empty()
    } else {
        let before = missing_names(asked.drop_last(), offered);
        if offered.contains(asked.last()) {
            before
        } else {
            before.push(asked.last())
        }
    }
}

/// The complaint about names that were not offered, given the two lists in words.
pub open spec fn unadvertised(missing: Seq<char>, advertised: Seq<char>) -> Seq<char> {
    "ToolChoice::Specific requested tool names not advertised this turn: "@ + missing
        + ". Advertised: "@ + advertised + "."@
}

/// The complaint about names that were not offered, given the two lists in words.
pub fn unadvertised_message(missing: &str, advertised: &str) -> (message: String)
    ensures
        message@ == unadvertised(missing@, advertised@),
{
    let mut message = "ToolChoice::Specific requested tool names not advertised this turn: ".to_owned();
    message.append(missing);
    message.append(". Advertised: ");
    message.append(advertised);
    message.append(".");
    message
}

/// Why the choice cannot be met with the tools that are offered, if it cannot.
pub open spec fn choice_error(
    offered: Seq<Seq<char>>,
    choice: Option<ToolChoiceView>,
) -> Option<CompletionErrorView> {
    match choice {
        Some(ToolChoiceView::Required) => if offered.len() == 0 {
            Some(
                CompletionErrorView::RequestError(
                    "ToolChoice::Required forces the model to call a tool, but no tools are advertised this turn."@,
                ),
            )
        } else {
            None
        },
        Some(ToolChoiceView::Specific { function_names }) => if function_names.len() == 0 {
            Some(
                CompletionErrorView::RequestError(
                    "ToolChoice::Specific requires at least one function name"@,
                ),
            )
        } else if missing_names(function_names, offered).len() > 0 {
            Some(
                CompletionErrorView::RequestError(
                    unadvertised(
                        debug_list(missing_names(function_names, offered)),
                        debug_list(offered),
                    ),
                ),
            )
        } else {
            None
        },
        _ => None,
    }
}

/// The tools that the choice leaves the model free to call, in dictionary order.
pub open spec fn allowed_names(
    offered: Seq<Seq<char>>,
    choice: Option<ToolChoiceView>,
) -> Seq<Seq<char>> {
    match choice {
        Some(ToolChoiceView::NoTool) => Seq::empty(),
        Some(ToolChoiceView::Specific { function_names }) => name_set(function_names),
        _ => offered,
    }
}

proof fn lemma_nothing_missing(asked: Seq<Seq<char>>, offered: Seq<Seq<char>>)
    ensures
        missing_names(asked, offered).len() == 0 <==> forall|i: int|
            0 <= i < asked.len() ==> offered.contains(#[trigger] asked[i]),
    decreases asked.len(),
{
    if asked.len() > 0 {
        let earlier = asked.drop_last();
        lemma_nothing_missing(earlier, offered);
        let last = asked.len() - 1;
        if missing_names(asked, offered).len() == 0 {
            assert forall|i: int| 0 <= i < asked.len() implies offered.contains(
                #[trigger] asked[i],
            ) by {
                if i < last {
                    assert(earlier[i] == asked[i]);
                }
            }
        } else if forall|i: int| 0 <= i < asked.len() ==> offered.contains(#[trigger] asked[i]) {
            assert forall|i: int| 0 <= i < earlier.len() implies offered.contains(
                #[trigger] earlier[i],
            ) by {
                assert(earlier[i] == asked[i]);
            }
            assert(offered.contains(asked[last]));
        }
    }
}

/// The tools that the choice leaves the model free to call, among those offered.
/// Fails, without asking a provider, exactly where the choice cannot be met.
pub fn allowed_tool_names_for_choice(
    executable_tool_names: &ToolNames,
    tool_choice: Option<&ToolChoice>,
) -> (result: Result<ToolNames, CompletionError>)
    ensures
        match choice_error(executable_tool_names.deep_view(), tool_choice.deep_view()) {
            Some(error) => result matches Err(given) && given.deep_view() == error,
            None => result matches Ok(allowed) && allowed.deep_view() == allowed_names(
                executable_tool_names.deep_view(),
                tool_choice.deep_view(),
            ),
        },
{
    let names = executable_tool_names.names();
    match tool_choice {
        None | Some(ToolChoice::Auto) => Ok(executable_tool_names.clone()),
        Some(ToolChoice::Required) => if executable_tool_names.is_empty() {
            Err(
                CompletionError::RequestError(
                    "ToolChoice::Required forces the model to call a tool, but no tools are advertised this turn.".to_owned(),
                ),
            )
        } else {
            Ok(executable_tool_names.clone())
        },
        Some(ToolChoice::NoTool) => Ok(ToolNames::new()),
        Some(ToolChoice::Specific { function_names }) => {
            if function_names.len() == 0 {
                return Err(
                    CompletionError::RequestError(
                        "ToolChoice::Specific requires at least one function name".to_owned(),
                    ),
                );
            }
            let ghost asked = deep(function_names@);
            let ghost offered = executable_tool_names.deep_view();
            let mut missing: Vec<String> = Vec::new();
            let mut i: usize = 0;
            while i < function_names.len()
                invariant
                    i <= function_names@.len(),
                    asked == deep(function_names@),
                    offered == executable_tool_names.deep_view(),
                    deep(missing@) == missing_names(asked.take(i as int), offered),
                decreases function_names@.len() - i,
            {
                assert(asked.take(i + 1).drop_last() =~= asked.take(i as int));
                assert(asked.take(i + 1).last() == function_names@[i as int]@);
                if !executable_tool_names.contains(&function_names[i]) {
                    missing.push(function_names[i].clone());
                }
                i = i + 1;
            }
            assert(asked.take(i as int) =~= asked);
            if missing.len() > 0 {
                let message = unadvertised_message(
                    show_list(&missing).as_str(),
                    show_list(names).as_str(),
                );
                return Err(CompletionError::RequestError(message));
            }
            let requested = function_names.clone();
            assert(deep(requested@) =~= asked);
            Ok(ToolNames::from_names(requested))
        },
    }
}

/// The model is never free to call a tool that was not offered.
pub proof fn law_only_offered_tools_are_allowed(
    offered: Seq<Seq<char>>,
    choice: Option<ToolChoiceView>,
    name: Seq<char>,
)
    requires
        choice_error(offered, choice) is None,
        allowed_names(offered, choice).contains(name),
    ensures
        offered.contains(name),
{
    if let Some(ToolChoiceView::Specific { function_names }) = choice {
        lemma_nothing_missing(function_names, offered);
        lemma_name_set_exists(function_names);
        let i = choose|i: int| 0 <= i < function_names.len() && function_names[i] == name;
        assert(offered.contains(function_names[i]));
    }
}

/// A completion request.
#[derive(Debug, PartialEq, Eq)]
pub struct CompletionRequest {
    /// The message to answer.
    pub prompt: Message,
    /// What comes before it.
    pub chat_history: Vec<Message>,
    /// The bits of the temperature, a floating-point number.
    pub temperature: Option<u64>,
    pub max_tokens: Option<u64>,
    pub additional_params: Option<AdditionalParams>,
    pub record_telemetry_content: bool,
    pub documents: Vec<Document>,
    pub tools: Vec<ToolDefinition>,
    pub tool_choice: Option<ToolChoice>,
}

pub struct CompletionRequestView {
    pub prompt: MessageView,
    pub chat_history: Seq<MessageView>,
    pub temperature: Option<u64>,
    pub max_tokens: Option<u64>,
    pub additional_params: Option<AdditionalParamsView>,
    pub record_telemetry_content: bool,
    pub documents: Seq<DocumentView>,
    pub tools: Seq<ToolDefinitionView>,
    pub tool_choice: Option<ToolChoiceView>,
}

impl DeepView for CompletionRequest {
    type V = CompletionRequestView;

    open spec fn deep_view(&self) -> CompletionRequestView {
        CompletionRequestView {
            prompt: self.prompt.deep_view(),
            chat_history: deep(self.chat_history@),
            temperature: self.temperature,
            max_tokens: self.max_tokens,
            additional_params: self.additional_params.deep_view(),
            record_telemetry_content: self.record_telemetry_content,
            documents: deep(self.documents@),
            tools: deep(self.tools@),
            tool_choice: self.tool_choice.deep_view(),
        }
    }
}

/// A completion request, with the tools that it offers.
#[derive(Debug, PartialEq, Eq)]
pub struct PreparedCompletionRequest {
    pub request: CompletionRequest,
    pub executable_tool_names: ToolNames,
    pub allowed_tool_names: ToolNames,
}

/// The message to answer: the last of the history, or an empty one.
pub open spec fn prompt_of(history: Seq<MessageView>) -> MessageView {
    if history.len() == 0 {
        user_message(Seq::empty())
    } else {
        history.last()
    }
}

/// What comes before the message to answer: the preamble as a system message, then
/// the rest of the history.
pub open spec fn preceding(history: Seq<MessageView>, preamble: Option<Seq<char>>) -> Seq<
    MessageView,
> {
    let rest = if history.len() == 0 {
        history
    } else {
        history.drop_last()
    };
    match preamble {
        Some(preamble) => seq![MessageView::System { content: preamble }] + rest,
        None => rest,
    }
}

/// The names of the tools.
pub open spec fn tool_names(tools: Seq<ToolDefinitionView>) -> Seq<Seq<char>> {
    tools.map_values(|tool: ToolDefinitionView| tool.name)
}

/// Prepares a completion request that answers the last message of the history and
/// offers the given tools. Fails, without asking a provider, exactly where the choice
/// of tools cannot be met.
pub fn build_prepared_completion_request(
    history: &[Message],
    preamble: Option<&String>,
    static_context: &Vec<Document>,
    temperature: Option<u64>,
    max_tokens: Option<u64>,
    additional_params: Option<&AdditionalParams>,
    record_telemetry_content: bool,
    tool_choice: Option<&ToolChoice>,
    tools: Vec<ToolDefinition>,
) -> (result: Result<PreparedCompletionRequest, CompletionError>)
    ensures
        ({
            let offered = name_set(tool_names(deep(tools@)));
            match choice_error(offered, tool_choice.deep_view()) {
                Some(error) => result matches Err(given) && given.deep_view() == error,
                None => {
                    &&& result matches Ok(prepared)
                    &&& prepared.request.deep_view() == (CompletionRequestView {
                        prompt: prompt_of(deep(history@)),
                        chat_history: preceding(deep(history@), preamble.deep_view()),
                        temperature,
                        max_tokens,
                        additional_params: additional_params.deep_view(),
                        record_telemetry_content,
                        documents: deep(static_context@),
                        tools: deep(tools@),
                        tool_choice: tool_choice.deep_view(),
                    })
                    &&& prepared.executable_tool_names.deep_view() == offered
                    &&& prepared.allowed_tool_names.deep_view() == allowed_names(
                        offered,
                        tool_choice.deep_view(),
                    )
                },
            }
        }),
        result matches Ok(prepared) ==> {
            let request = prepared.request.deep_view();
            let offset: int = if preamble is Some {
                1
            } else {
                0
            };
            &&& history@.len() > 0 ==> request.prompt == history@[history@.len() - 1].deep_view()
            &&& history@.len() > 0 ==> request.chat_history.len() == history@.len() - 1 + offset
            &&& forall|k: int|
                0 <= k < history@.len() - 1 ==> #[trigger] request.chat_history[k + offset]
                    == history@[k].deep_view()
        },
{
    let ghost messages = deep(history@);
    let mut names: Vec<String> = Vec::new();
    let mut i: usize = 0;
    while i < tools.len()
        invariant
            i <= tools@.len(),
            names@.len() == i,
            forall|k: int| 0 <= k < i ==> (#[trigger] names@[k])@ == tools@[k].name@,
        decreases tools@.len() - i,
    {
        names.push(tools[i].name.clone());
        i = i + 1;
    }
    assert(deep(names@) =~= tool_names(deep(tools@)));
    let executable_tool_names = ToolNames::from_names(names);
    let allowed_tool_names = match allowed_tool_names_for_choice(
        &executable_tool_names,
        tool_choice,
    ) {
        Ok(allowed) => allowed,
        Err(error) => {
            return Err(error);
        },
    };
    let n: usize = history.len();
    let mut chat_history: Vec<Message> = Vec::new();
    if let Some(preamble) = preamble {
        chat_history.push(Message::system(preamble.clone()));
    }
    let ghost head = deep(chat_history@);
    let mut j: usize = 0;
    let last: usize = if n > 0 { n - 1 } else { 0 };
    assert(head + messages.take(0) =~= head);
    while j < last
        invariant
            n == history@.len(),
            j <= last <= n,
            messages == deep(history@),
            deep(chat_history@) == head + messages.take(j as int),
        decreases last - j,
    {
        chat_history.push(history[j].clone());
        j = j + 1;
        assert(head + messages.take(j as int) =~= (head + messages.take(j - 1)).push(
            messages[j - 1],
        ));
    }
    assert(deep(chat_history@) =~= preceding(messages, preamble.deep_view()));
    let prompt = if n > 0 {
        history[n - 1].clone()
    } else {
        assert(""@ =~= Seq::empty()) by {
            reveal_strlit("");
        }
        Message::user("")
    };
    let documents = static_context.clone();
    assert(deep(documents@) =~= deep(static_context@));
    let request = CompletionRequest {
        prompt,
        chat_history,
        temperature,
        max_tokens,
        additional_params: match additional_params {
            Some(params) => Some(params.clone()),
            None => None,
        },
        record_telemetry_content,
        documents,
        tools,
        tool_choice: match tool_choice {
            Some(choice) => Some(choice.clone()),
            None => None,
        },
    };
    Ok(PreparedCompletionRequest { request, executable_tool_names, allowed_tool_names })
}

/// A request carries the conversation in order: the message to answer is the last of the
/// history, and what comes before it is every other message at its own place, behind the
/// preamble as a system message where there is one. Without a history there is nothing
/// before an empty message of the user.
pub proof fn law_request_carries_the_history_in_order(
    history: Seq<MessageView>,
    preamble: Option<Seq<char>>,
)
    ensures
        ({
            let before = preceding(history, preamble);
            let offset: int = if preamble is Some {
                1
            } else {
                0
            };
            &&& preamble matches Some(text) ==> before.len() > 0 && before[0]
                == (MessageView::System { content: text })
            &&& history.len() > 0 ==> {
                &&& prompt_of(history) == history[history.len() - 1]
                &&& before.len() == history.len() - 1 + offset
                &&& forall|k: int|
                    0 <= k < history.len() - 1 ==> #[trigger] before[k + offset] == history[k]
                &&& before.skip(offset).push(prompt_of(history)) == history
            }
            &&& history.len() == 0 ==> {
                &&& before.len() == offset
                &&& prompt_of(history) == (MessageView::User {
                    content: seq![
                        UserContentView::Text(
                            TextView { text: Seq::empty(), additional_params: None },
                        ),
                    ],
                })
            }
        }),
{
    let before = preceding(history, preamble);
    let offset: int = if preamble is Some {
        1
    } else {
        0
    };
    if history.len() > 0 {
        assert(before.skip(offset).push(prompt_of(history)) =~= history);
    }
}

/// Each name that is asked for and not offered is missing, and no other is.
proof fn lemma_missing_names(asked: Seq<Seq<char>>, offered: Seq<Seq<char>>)
    ensures
        missing_names(asked, offered) == asked.filter(|name: Seq<char>| !offered.contains(name)),
    decreases asked.len(),
{
    reveal(Seq::filter);
    let missing = |name: Seq<char>| !offered.contains(name);
    if asked.len() > 0 {
        lemma_missing_names(asked.drop_last(), offered);
    } else {
        assert(missing_names(asked, offered) =~= asked.filter(missing));
    }
}

/// A choice of tools can be met unless it asks for a call where nothing is offered, names no
/// tool, or names one that is not offered. What cannot be met is an error of the request.
pub proof fn law_when_a_choice_cannot_be_met(
    offered: Seq<Seq<char>>,
    names: Seq<Seq<char>>,
)
    ensures
        choice_error(offered, None) is None,
        choice_error(offered, Some(ToolChoiceView::Auto)) is None,
        choice_error(offered, Some(ToolChoiceView::NoTool)) is None,
        choice_error(offered, Some(ToolChoiceView::Required)) is None <==> offered.len() > 0,
        choice_error(offered, Some(ToolChoiceView::Specific { function_names: names })) is None
            <==> names.len() > 0 && forall|i: int|
            0 <= i < names.len() ==> offered.contains(#[trigger] names[i]),
        forall|choice: Option<ToolChoiceView>|
            (#[trigger] choice_error(offered, choice)) matches Some(error) ==> error is RequestError,
{
    lemma_nothing_missing(names, offered);
}

/// The complaint about names that are not offered lists exactly those, in the order in which
/// they were asked for, and then what is offered.
pub proof fn law_complaint_lists_what_is_missing(
    offered: Seq<Seq<char>>,
    names: Seq<Seq<char>>,
)
    requires
        exists|i: int| 0 <= i < names.len() && !offered.contains(#[trigger] names[i]),
    ensures
        choice_error(offered, Some(ToolChoiceView::Specific { function_names: names })) == Some(
            CompletionErrorView::RequestError(
                "ToolChoice::Specific requested tool names not advertised this turn: "@
                    + debug_list(names.filter(|name: Seq<char>| !offered.contains(name)))
                    + ". Advertised: "@ + debug_list(offered) + "."@,
            ),
        ),
{
    lemma_missing_names(names, offered);
    lemma_nothing_missing(names, offered);
    let i = choose|i: int| 0 <= i < names.len() && !offered.contains(#[trigger] names[i]);
    assert(!offered.contains(names[i]));
}

/// The model may call what the choice leaves it: everything that is offered, nothing, or
/// exactly the tools that are named.
pub proof fn law_what_the_model_may_call(
    offered: Seq<Seq<char>>,
    names: Seq<Seq<char>>,
    name: Seq<char>,
)
    ensures
        allowed_names(offered, None) == offered,
        allowed_names(offered, Some(ToolChoiceView::Auto)) == offered,
        allowed_names(offered, Some(ToolChoiceView::Required)) == offered,
        allowed_names(offered, Some(ToolChoiceView::NoTool)).len() == 0,
        allowed_names(offered, Some(ToolChoiceView::Specific { function_names: names })).contains(
            name,
        ) <==> names.contains(name),
{
    lemma_name_set_exists(names);
}

/// The tools that a request offers go by their own names: each tool's name is among them, and
/// no other name is, in dictionary order and once.
pub proof fn law_offered_names_are_the_tools_names(
    tools: Seq<ToolDefinitionView>,
    name: Seq<char>,
)
    ensures
        name_set(tool_names(tools)).contains(name) <==> exists|i: int|
            0 <= i < tools.len() && (#[trigger] tools[i]).name == name,
        forall|i: int, j: int|
            0 <= i < j < name_set(tool_names(tools)).len() ==> comes_before(
                #[trigger] name_set(tool_names(tools))[i],
                #[trigger] name_set(tool_names(tools))[j],
            ),
{
    let names = tool_names(tools);
    lemma_name_set_exists(names);
    if names.contains(name) {
        let i = choose|i: int| 0 <= i < names.len() && names[i] == name;
        assert(tools[i].name == name);
    }
    if exists|i: int| 0 <= i < tools.len() && (#[trigger] tools[i]).name == name {
        let i = choose|i: int| 0 <= i < tools.len() && (#[trigger] tools[i]).name == name;
        assert(names[i] == name);
    }
}

} // verus!
