//! What holds of the texts that are put together: numbers, lists, words of errors and of
//! messages.

use vstd::prelude::*;
use crate::agent::{agent_tool_description, appended_preamble, or_else, static_document};
use crate::completion::{CompletionErrorView, PromptErrorView};
use crate::message::{
    assistant_message, has_user_text, joined_user_text, user_message, AssistantContentView,
    MessageView, TextView, UserContentView,
};
use crate::prompt_response::{restored, PromptResponseReprView};
use crate::stream_item::StreamingErrorView;
use crate::strings::{comes_before, concatenated, decimal, joined};
use crate::turn_laws::{lemma_filter_map_last, mentions};

verus! {

/// The number that decimal digits spell.
pub open spec fn number_of(digits: Seq<char>) -> int
    decreases digits.len(),
{
    if digits.len() == 0 {
        0
    } else {
        10 * number_of(digits.drop_last()) + (digits.last() as int - '0' as int)
    }
}

/// A number that is spelled out reads back as itself: it has digits only, and starts with a
/// zero only where it is zero.
pub proof fn law_numbers_read_back(n: nat)
    ensures
        number_of(decimal(n)) == n,
        decimal(n).len() > 0,
        forall|i: int|
            0 <= i < decimal(n).len() ==> '0' as int <= (#[trigger] decimal(n)[i]) as int
                <= '9' as int,
        decimal(n)[0] == '0' ==> n == 0 && decimal(n).len() == 1,
    decreases n,
{
    reveal_with_fuel(number_of, 2);
    if n < 10 {
        assert(decimal(n).drop_last() =~= Seq::empty());
    } else {
        law_numbers_read_back(n / 10);
        assert(decimal(n).drop_last() =~= decimal(n / 10));
        assert(n / 10 > 0);
        assert(decimal(n)[0] == decimal(n / 10)[0]);
        assert forall|i: int| 0 <= i < decimal(n).len() implies '0' as int <= (
        #[trigger] decimal(n)[i]) as int <= '9' as int by {
            if i < decimal(n).len() - 1 {
                assert(decimal(n)[i] == decimal(n / 10)[i]);
            }
        }
    }
}

/// Of two texts that agree up to some place the one with the smaller character there comes
/// first, and a text comes before every longer one that starts with it.
pub proof fn law_first_difference_decides(a: Seq<char>, b: Seq<char>, k: int)
    requires
        0 <= k <= a.len(),
        k < b.len(),
        a.take(k) == b.take(k),
        k == a.len() || a[k] != b[k],
    ensures
        comes_before(a, b) <==> k == a.len() || (a[k] as int) < (b[k] as int),
    decreases k,
{
    if k > 0 {
        assert(a[0] == a.take(k)[0] && b[0] == b.take(k)[0]);
        assert(a.skip(1).take(k - 1) =~= a.take(k).skip(1));
        assert(b.skip(1).take(k - 1) =~= b.take(k).skip(1));
        law_first_difference_decides(a.skip(1), b.skip(1), k - 1);
        assert(k < a.len() ==> a.skip(1)[k - 1] == a[k]);
        assert(b.skip(1)[k - 1] == b[k]);
    }
}

/// Joining puts the separator between the items and nowhere else: with one more in front, each
/// item has one in front of it.
pub proof fn law_separator_stands_between(items: Seq<Seq<char>>, separator: Seq<char>)
    requires
        items.len() > 0,
    ensures
        separator + joined(items, separator) == items.map_values(
            |item: Seq<char>| separator + item,
        ).flatten(),
    decreases items.len(),
{
    let f = |item: Seq<char>| separator + item;
    let all = items.map_values(f);
    let before = items.drop_last().map_values(f);
    assert(all =~= before.push(separator + items.last()));
    before.lemma_flatten_push(separator + items.last());
    if items.len() == 1 {
        assert(before =~= Seq::empty());
        assert(Seq::<Seq<char>>::empty().flatten() =~= Seq::<char>::empty());
        assert(Seq::<char>::empty() + (separator + items.last()) =~= separator + items[0]);
    } else {
        law_separator_stands_between(items.drop_last(), separator);
        let front = joined(items.drop_last(), separator);
        assert(separator + (front + separator + items.last()) =~= (separator + front) + (separator
            + items.last()));
    }
}

/// Texts put one right behind the other are all there, in order, with nothing between.
pub proof fn law_nothing_stands_between(items: Seq<Seq<char>>)
    ensures
        concatenated(items) == items.flatten(),
    decreases items.len(),
{
    if items.len() > 0 {
        law_nothing_stands_between(items.drop_last());
        items.drop_last().lemma_flatten_push(items.last());
        assert(items.drop_last().push(items.last()) =~= items);
    } else {
        assert(concatenated(items) =~= items.flatten());
    }
}

/// The text that a part of a user message is.
pub open spec fn text_of_user_part(part: UserContentView) -> Option<Seq<char>> {
    match part {
        UserContentView::Text(text) => Some(text.text),
        _ => None,
    }
}

/// What a user says is all the texts of the message, in order. There is something to show
/// exactly where one of its parts is a text.
pub proof fn law_user_text_is_the_texts(content: Seq<UserContentView>)
    ensures
        joined_user_text(content) == content.filter_map(
            |part: UserContentView| text_of_user_part(part),
        ).flatten(),
        has_user_text(content) <==> content.filter_map(
            |part: UserContentView| text_of_user_part(part),
        ).len() > 0,
    decreases content.len(),
{
    let f = |part: UserContentView| text_of_user_part(part);
    if content.len() > 0 {
        let before = content.drop_last();
        law_user_text_is_the_texts(before);
        lemma_filter_map_last(content, f);
        let texts = before.filter_map(f);
        if has_user_text(before) {
            let i = choose|i: int| 0 <= i < before.len() && (#[trigger] before[i]) is Text;
            assert(content[i] is Text);
        }
        if let UserContentView::Text(text) = content.last() {
            texts.lemma_flatten_push(text.text);
            assert(content[content.len() - 1] is Text);
        } else if has_user_text(content) {
            let i = choose|i: int| 0 <= i < content.len() && (#[trigger] content[i]) is Text;
            assert(before[i] is Text);
        }
    } else {
        assert(content.filter_map(f).flatten() =~= Seq::empty());
    }
}

/// A message of one text says just this text.
pub proof fn law_message_of_one_text(text: Seq<char>)
    ensures
        user_message(text) matches MessageView::User { content } && content.len() == 1
            && joined_user_text(content) == text && has_user_text(content),
        assistant_message(text) == (MessageView::Assistant {
            id: None,
            content: seq![
                AssistantContentView::Text(TextView { text, additional_params: None }),
            ],
        }),
{
    let content = user_message(text)->User_content;
    law_user_text_is_the_texts(content);
    assert(content[0] is Text);
    assert(content.drop_last() =~= Seq::empty());
    assert(Seq::<char>::empty() + text =~= text);
    assert(joined_user_text(content.drop_last()) =~= Seq::<char>::empty());
    assert(joined_user_text(content) =~= text);
}

proof fn lemma_mentions(front: Seq<char>, part: Seq<char>, back: Seq<char>)
    ensures
        mentions(front + part + back, part),
        mentions(front + part, part),
{
    assert(front + part + Seq::<char>::empty() =~= front + part);
}

/// The words of an error hold what went wrong, word for word.
pub proof fn law_errors_say_what_went_wrong(error: CompletionErrorView)
    ensures
        match error {
            CompletionErrorView::HttpError { message, .. } => mentions(error.text(), message),
            CompletionErrorView::RequestError(message) => mentions(error.text(), message),
            CompletionErrorView::ResponseError(message) => mentions(error.text(), message),
            CompletionErrorView::ProviderError(message) => mentions(error.text(), message),
            CompletionErrorView::ProviderResponse { body, .. } => mentions(error.text(), body),
            CompletionErrorView::MalformedToolCall { tool, reason } => mentions(
                error.text(),
                tool,
            ) && mentions(error.text(), reason),
        },
{
    match error {
        CompletionErrorView::HttpError { message, .. } => {
            lemma_mentions("HttpError: "@, message, Seq::empty());
        },
        CompletionErrorView::RequestError(message) => {
            lemma_mentions("RequestError: "@, message, Seq::empty());
        },
        CompletionErrorView::ResponseError(message) => {
            lemma_mentions("ResponseError: "@, message, Seq::empty());
        },
        CompletionErrorView::ProviderError(message) => {
            lemma_mentions("ProviderError: "@, message, Seq::empty());
        },
        CompletionErrorView::ProviderResponse { body, .. } => {
            lemma_mentions("ProviderResponse: "@, body, Seq::empty());
        },
        CompletionErrorView::MalformedToolCall { tool, reason } => {
            let head = "MalformedToolCall: `"@;
            lemma_mentions(head + tool + "`: "@, reason, Seq::empty());
            lemma_mentions(head, tool, "`: "@ + reason);
            assert(head + tool + ("`: "@ + reason) =~= head + tool + "`: "@ + reason);
        },
    }
}

/// The words of an error of a run hold what went wrong, word for word: the failed completion,
/// the reason of a stop, or the budget that was used up.
pub proof fn law_run_errors_say_what_went_wrong(error: PromptErrorView)
    ensures
        match error {
            PromptErrorView::CompletionError(inner) => mentions(error.text(), inner.text()),
            PromptErrorView::MemoryError(message) => mentions(error.text(), message),
            PromptErrorView::MaxTurnsError { max_turns, .. } => mentions(
                error.text(),
                decimal(max_turns),
            ),
            PromptErrorView::PromptCancelled { reason, .. } => mentions(error.text(), reason),
        },
{
    match error {
        PromptErrorView::CompletionError(inner) => {
            lemma_mentions("CompletionError: "@, inner.text(), Seq::empty());
        },
        PromptErrorView::MemoryError(message) => {
            lemma_mentions("MemoryError: "@, message, Seq::empty());
        },
        PromptErrorView::MaxTurnsError { max_turns, .. } => {
            lemma_mentions(
                "MaxTurnsError: reached max turns limit: "@,
                decimal(max_turns),
                Seq::empty(),
            );
        },
        PromptErrorView::PromptCancelled { reason, .. } => {
            lemma_mentions("PromptCancelled: "@, reason, Seq::empty());
        },
    }
}

/// What the provider answered stays at hand, whatever the error is wrapped in: its status and
/// its body, where the error has them.
pub proof fn law_provider_answer_stays_at_hand(error: CompletionErrorView)
    ensures
        match error {
            CompletionErrorView::HttpError { status, body, .. } => error.status() == status
                && error.body() == body,
            CompletionErrorView::ProviderResponse { status, body } => error.status() == status
                && error.body() == Some(body),
            _ => error.status() is None && error.body() is None,
        },
        PromptErrorView::CompletionError(error).status() == error.status(),
        PromptErrorView::CompletionError(error).body() == error.body(),
        StreamingErrorView::Completion(error).as_prompt_error() == PromptErrorView::CompletionError(
            error,
        ),
        mentions(StreamingErrorView::Completion(error).text(), error.text()),
{
    lemma_mentions("CompletionError: "@, error.text(), Seq::empty());
}

/// An error of a run is the same error on its stream.
pub proof fn law_run_error_comes_back(error: PromptErrorView)
    ensures
        StreamingErrorView::Prompt(error).as_prompt_error() == error,
        mentions(StreamingErrorView::Prompt(error).text(), error.text()),
{
    lemma_mentions("PromptError: "@, error.text(), Seq::empty());
}

/// A document put behind a preamble starts on a line of its own: in front of it stand the
/// preamble as it was and one line break.
pub proof fn law_preamble_grows_by_lines(preamble: Seq<char>, doc: Seq<char>)
    ensures
        appended_preamble(Some(preamble), doc).take(preamble.len() as int) == preamble,
        appended_preamble(Some(preamble), doc)[preamble.len() as int] == '\n',
        appended_preamble(Some(preamble), doc).skip(preamble.len() as int + 1) == doc,
        appended_preamble(None, doc)[0] == '\n',
        appended_preamble(None, doc).skip(1) == doc,
{
    reveal_strlit("\n");
    let grown = appended_preamble(Some(preamble), doc);
    assert(grown.take(preamble.len() as int) =~= preamble);
    assert(grown.skip(preamble.len() as int + 1) =~= doc);
    assert(appended_preamble(None, doc).skip(1) =~= doc);
}

/// Documents that go along with every request keep their text. Their ids end in their numbers,
/// so that no two of them share one.
pub proof fn law_documents_have_ids_of_their_own(
    n: nat,
    text: Seq<char>,
    m: nat,
    other: Seq<char>,
)
    ensures
        static_document(n, text).text == text,
        static_document(n, text).additional_props.len() == 0,
        number_of(static_document(n, text).id.skip("static_doc_"@.len() as int)) == n,
        static_document(n, text).id == static_document(m, other).id ==> n == m,
{
    law_numbers_read_back(n);
    law_numbers_read_back(m);
    let head = "static_doc_"@;
    assert((head + decimal(n)).skip(head.len() as int) =~= decimal(n));
    assert((head + decimal(m)).skip(head.len() as int) =~= decimal(m));
}

/// A text that was set stands, and another stands in only for one that was not.
pub proof fn law_only_a_missing_text_is_replaced(text: Option<Seq<char>>, other: Seq<char>)
    ensures
        text is Some ==> Some(or_else(text, other)) == text,
        text is None ==> or_else(text, other) == other,
{
}

/// An agent that becomes a tool is told by its name, by what it is for and by its preamble.
pub proof fn law_tool_of_an_agent_is_described(
    name: Seq<char>,
    description: Seq<char>,
    preamble: Seq<char>,
)
    ensures
        mentions(agent_tool_description(name, description, preamble), name),
        mentions(agent_tool_description(name, description, preamble), description),
        mentions(agent_tool_description(name, description, preamble), preamble),
{
    let whole = agent_tool_description(name, description, preamble);
    let a = "\n            Prompt a sub-agent to do a task for you.\n\n            Agent name: "@;
    let b = "\n            Agent description: "@;
    let c = "\n            Agent system prompt: "@;
    let d = "\n            "@;
    lemma_mentions(a, name, b + description + c + preamble + d);
    assert(a + name + (b + description + c + preamble + d) =~= whole);
    lemma_mentions(a + name + b, description, c + preamble + d);
    assert(a + name + b + description + (c + preamble + d) =~= whole);
    lemma_mentions(a + name + b + description + c, preamble, d);
}

/// A response that was stored without its parts comes back as the one text it says. One that
/// was stored with them comes back with them. Nothing else changes.
pub proof fn law_restored_response(repr: PromptResponseReprView)
    ensures
        restored(repr).output == repr.output,
        restored(repr).usage == repr.usage,
        restored(repr).completion_calls == repr.completion_calls,
        repr.content matches Some(content) ==> restored(repr).content == content,
        repr.content is None ==> restored(repr).content == seq![
            AssistantContentView::Text(TextView { text: repr.output, additional_params: None }),
        ],
{
}

} // verus!
