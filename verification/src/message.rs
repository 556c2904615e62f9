//! The messages of a conversation and their parts.

use vstd::prelude::*;
use crate::deep::{deep, group_deep};
use crate::json::Json;
use crate::one_or_many::OneOrMany;

verus! {

broadcast use group_deep;

/// A stretch of text.
#[derive(Debug, PartialEq, Eq)]
pub struct Text {
    pub text: String,
    /// Provider-specific additions, such as citations.
    pub additional_params: Option<Json>,
}

pub struct TextView {
    pub text: Seq<char>,
    pub additional_params: Option<Seq<char>>,
}

impl DeepView for Text {
    type V = TextView;

    open spec fn deep_view(&self) -> TextView {
        TextView { text: self.text@, additional_params: self.additional_params.deep_view() }
    }
}

impl Clone for Text {
    fn clone(&self) -> (copy: Self)
        ensures
            copy.deep_view() == self.deep_view(),
    {
        Text { text: self.text.clone(), additional_params: self.additional_params.clone() }
    }
}

/// Text with nothing added to it.
pub open spec fn plain_text(text: Seq<char>) -> TextView {
    TextView { text, additional_params: None }
}

impl Text {
    /// Text with nothing added to it.
    pub fn new(text: String) -> (made: Self)
        ensures
            made.deep_view() == plain_text(text@),
    {
        Text { text, additional_params: None }
    }
}

/// What a piece of media is.
#[derive(Debug, Clone, Copy, PartialEq, Eq, Structural)]
pub enum MediaKind {
    Image,
    Audio,
    Video,
    Document,
}

/// A piece of media, carried along in its JSON form.
#[derive(Debug, PartialEq, Eq)]
pub struct Media {
    pub kind: MediaKind,
    pub payload: Json,
}

pub struct MediaView {
    pub kind: MediaKind,
    pub payload: Seq<char>,
}

impl DeepView for Media {
    type V = MediaView;

    open spec fn deep_view(&self) -> MediaView {
        MediaView { kind: self.kind, payload: self.payload.deep_view() }
    }
}

impl Clone for Media {
    fn clone(&self) -> (copy: Self)
        ensures
            copy.deep_view() == self.deep_view(),
    {
        Media { kind: self.kind, payload: self.payload.clone() }
    }
}

/// One part of a block of reasoning.
#[derive(Debug, PartialEq, Eq)]
pub enum ReasoningContent {
    Text { text: String, signature: Option<String> },
    Encrypted(String),
    Redacted { data: String },
    Summary(String),
}

pub enum ReasoningContentView {
    Text { text: Seq<char>, signature: Option<Seq<char>> },
    Encrypted(Seq<char>),
    Redacted { data: Seq<char> },
    Summary(Seq<char>),
}

impl DeepView for ReasoningContent {
    type V = ReasoningContentView;

    open spec fn deep_view(&self) -> ReasoningContentView {
        match self {
            ReasoningContent::Text { text, signature } => ReasoningContentView::Text {
                text: text@,
                signature: signature.deep_view(),
            },
            ReasoningContent::Encrypted(data) => ReasoningContentView::Encrypted(data@),
            ReasoningContent::Redacted { data } => ReasoningContentView::Redacted { data: data@ },
            ReasoningContent::Summary(text) => ReasoningContentView::Summary(text@),
        }
    }
}

impl Clone for ReasoningContent {
    fn clone(&self) -> (copy: Self)
        ensures
            copy.deep_view() == self.deep_view(),
    {
        match self {
            ReasoningContent::Text { text, signature } => ReasoningContent::Text {
                text: text.clone(),
                signature: signature.clone(),
            },
            ReasoningContent::Encrypted(data) => ReasoningContent::Encrypted(data.clone()),
            ReasoningContent::Redacted { data } => ReasoningContent::Redacted { data: data.clone() },
            ReasoningContent::Summary(text) => ReasoningContent::Summary(text.clone()),
        }
    }
}

/// A block of reasoning.
#[derive(Debug, PartialEq, Eq)]
pub struct Reasoning {
    /// The provider's name for the block, when it has one.
    pub id: Option<String>,
    pub content: Vec<ReasoningContent>,
}

pub struct ReasoningView {
    pub id: Option<Seq<char>>,
    pub content: Seq<ReasoningContentView>,
}

impl DeepView for Reasoning {
    type V = ReasoningView;

    open spec fn deep_view(&self) -> ReasoningView {
        ReasoningView { id: self.id.deep_view(), content: deep(self.content@) }
    }
}

impl Clone for Reasoning {
    fn clone(&self) -> (copy: Self)
        ensures
            copy.deep_view() == self.deep_view(),
    {
        let copy = Reasoning { id: self.id.clone(), content: self.content.clone() };
        assert(deep(copy.content@) =~= deep(self.content@));
        copy
    }
}

/// The unsigned block of one text.
pub open spec fn unsigned_reasoning(text: Seq<char>, id: Option<Seq<char>>) -> ReasoningView {
    ReasoningView { id, content: seq![ReasoningContentView::Text { text, signature: None }] }
}

impl Reasoning {
    /// The unsigned block of one text.
    pub fn new(text: &str) -> (block: Self)
        ensures
            block.deep_view() == unsigned_reasoning(text@, None),
    {
        let part = ReasoningContent::Text { text: text.to_owned(), signature: None };
        let mut content: Vec<ReasoningContent> = Vec::new();
        content.push(part);
        let block = Reasoning { id: None, content };
        assert(deep(block.content@) =~= seq![part.deep_view()]);
        block
    }

    /// The same block under a name.
    pub fn with_id(self, id: String) -> (block: Self)
        ensures
            block.deep_view() == (ReasoningView { id: Some(id@), ..self.deep_view() }),
    {
        Reasoning { id: Some(id), content: self.content }
    }
}

/// The function that a tool call names, and the arguments it gives.
#[derive(Debug, PartialEq, Eq)]
pub struct ToolFunction {
    pub name: String,
    pub arguments: Json,
}

pub struct ToolFunctionView {
    pub name: Seq<char>,
    pub arguments: Seq<char>,
}

impl DeepView for ToolFunction {
    type V = ToolFunctionView;

    open spec fn deep_view(&self) -> ToolFunctionView {
        ToolFunctionView { name: self.name@, arguments: self.arguments.deep_view() }
    }
}

impl Clone for ToolFunction {
    fn clone(&self) -> (copy: Self)
        ensures
            copy.deep_view() == self.deep_view(),
    {
        ToolFunction { name: self.name.clone(), arguments: self.arguments.clone() }
    }
}

impl ToolFunction {
    pub fn new(name: String, arguments: Json) -> (function: Self)
        ensures
            function.deep_view() == (ToolFunctionView {
                name: name@,
                arguments: arguments.deep_view(),
            }),
    {
        ToolFunction { name, arguments }
    }
}

/// A tool call that a model emitted.
#[derive(Debug, PartialEq, Eq)]
pub struct ToolCall {
    pub id: String,
    /// The provider's second name for the call, when it has one.
    pub call_id: Option<String>,
    pub function: ToolFunction,
    pub signature: Option<String>,
    pub additional_params: Option<Json>,
}

pub struct ToolCallView {
    pub id: Seq<char>,
    pub call_id: Option<Seq<char>>,
    pub function: ToolFunctionView,
    pub signature: Option<Seq<char>>,
    pub additional_params: Option<Seq<char>>,
}

impl DeepView for ToolCall {
    type V = ToolCallView;

    open spec fn deep_view(&self) -> ToolCallView {
        ToolCallView {
            id: self.id@,
            call_id: self.call_id.deep_view(),
            function: self.function.deep_view(),
            signature: self.signature.deep_view(),
            additional_params: self.additional_params.deep_view(),
        }
    }
}

impl Clone for ToolCall {
    fn clone(&self) -> (copy: Self)
        ensures
            copy.deep_view() == self.deep_view(),
    {
        ToolCall {
            id: self.id.clone(),
            call_id: self.call_id.clone(),
            function: self.function.clone(),
            signature: self.signature.clone(),
            additional_params: self.additional_params.clone(),
        }
    }
}

/// A call of `function` with nothing but its id.
pub open spec fn bare_call(id: Seq<char>, function: ToolFunctionView) -> ToolCallView {
    ToolCallView { id, call_id: None, function, signature: None, additional_params: None }
}

impl ToolCall {
    pub fn new(id: String, function: ToolFunction) -> (call: Self)
        ensures
            call.deep_view() == bare_call(id@, function.deep_view()),
    {
        ToolCall { id, call_id: None, function, signature: None, additional_params: None }
    }
}

/// How a tool call ended.
#[derive(Debug, PartialEq, Eq)]
pub enum ToolResultStatus {
    Success,
    /// The call failed, or never ran; the tool may have named the reason.
    Failed { code: Option<String> },
}

pub enum ToolResultStatusView {
    Success,
    Failed { code: Option<Seq<char>> },
}

impl DeepView for ToolResultStatus {
    type V = ToolResultStatusView;

    open spec fn deep_view(&self) -> ToolResultStatusView {
        match self {
            ToolResultStatus::Success => ToolResultStatusView::Success,
            ToolResultStatus::Failed { code } => ToolResultStatusView::Failed {
                code: code.deep_view(),
            },
        }
    }
}

impl Clone for ToolResultStatus {
    fn clone(&self) -> (copy: Self)
        ensures
            copy.deep_view() == self.deep_view(),
    {
        match self {
            ToolResultStatus::Success => ToolResultStatus::Success,
            ToolResultStatus::Failed { code } => ToolResultStatus::Failed { code: code.clone() },
        }
    }
}

/// One part of a tool result.
#[derive(Debug, PartialEq, Eq)]
pub enum ToolResultContent {
    Text(Text),
    Json { value: Json },
    Image(Media),
}

pub enum ToolResultContentView {
    Text(TextView),
    Json { value: Seq<char> },
    Image(MediaView),
}

impl DeepView for ToolResultContent {
    type V = ToolResultContentView;

    open spec fn deep_view(&self) -> ToolResultContentView {
        match self {
            ToolResultContent::Text(text) => ToolResultContentView::Text(text.deep_view()),
            ToolResultContent::Json { value } => ToolResultContentView::Json {
                value: value.deep_view(),
            },
            ToolResultContent::Image(image) => ToolResultContentView::Image(image.deep_view()),
        }
    }
}

impl Clone for ToolResultContent {
    fn clone(&self) -> (copy: Self)
        ensures
            copy.deep_view() == self.deep_view(),
    {
        match self {
            ToolResultContent::Text(text) => ToolResultContent::Text(text.clone()),
            ToolResultContent::Json { value } => ToolResultContent::Json { value: value.clone() },
            ToolResultContent::Image(image) => ToolResultContent::Image(image.clone()),
        }
    }
}

impl ToolResultContent {
    pub fn text(text: String) -> (part: Self)
        ensures
            part.deep_view() == ToolResultContentView::Text(plain_text(text@)),
    {
        ToolResultContent::Text(Text::new(text))
    }

    pub fn json(value: Json) -> (part: Self)
        ensures
            part.deep_view() == (ToolResultContentView::Json { value: value.deep_view() }),
    {
        ToolResultContent::Json { value }
    }
}

/// What the model is told of a tool call.
#[derive(Debug, PartialEq, Eq)]
pub struct ToolResult {
    /// The id of the call that this answers.
    pub id: String,
    pub call_id: Option<String>,
    pub content: OneOrMany<ToolResultContent>,
    /// How the call ended, where that is known.
    pub status: Option<ToolResultStatus>,
}

pub struct ToolResultView {
    pub id: Seq<char>,
    pub call_id: Option<Seq<char>>,
    pub content: Seq<ToolResultContentView>,
    pub status: Option<ToolResultStatusView>,
}

impl DeepView for ToolResult {
    type V = ToolResultView;

    open spec fn deep_view(&self) -> ToolResultView {
        ToolResultView {
            id: self.id@,
            call_id: self.call_id.deep_view(),
            content: self.content.deep_view(),
            status: self.status.deep_view(),
        }
    }
}

impl Clone for ToolResult {
    fn clone(&self) -> (copy: Self)
        ensures
            copy.deep_view() == self.deep_view(),
    {
        let copy = ToolResult {
            id: self.id.clone(),
            call_id: self.call_id.clone(),
            content: self.content.clone(),
            status: self.status.clone(),
        };
        assert(copy.content.deep_view() =~= self.content.deep_view());
        copy
    }
}

/// One part of what a user says, tool results among it.
#[derive(Debug, PartialEq, Eq)]
pub enum UserContent {
    Text(Text),
    ToolResult(ToolResult),
    Media(Media),
}

pub enum UserContentView {
    Text(TextView),
    ToolResult(ToolResultView),
    Media(MediaView),
}

impl DeepView for UserContent {
    type V = UserContentView;

    open spec fn deep_view(&self) -> UserContentView {
        match self {
            UserContent::Text(text) => UserContentView::Text(text.deep_view()),
            UserContent::ToolResult(result) => UserContentView::ToolResult(result.deep_view()),
            UserContent::Media(media) => UserContentView::Media(media.deep_view()),
        }
    }
}

impl Clone for UserContent {
    fn clone(&self) -> (copy: Self)
        ensures
            copy.deep_view() == self.deep_view(),
    {
        match self {
            UserContent::Text(text) => UserContent::Text(text.clone()),
            UserContent::ToolResult(result) => UserContent::ToolResult(result.clone()),
            UserContent::Media(media) => UserContent::Media(media.clone()),
        }
    }
}

impl UserContent {
    pub fn text(text: String) -> (part: Self)
        ensures
            part.deep_view() == UserContentView::Text(plain_text(text@)),
    {
        UserContent::Text(Text::new(text))
    }

    /// A tool result whose call has one id only.
    pub fn tool_result(id: String, content: OneOrMany<ToolResultContent>) -> (part: Self)
        ensures
            part.deep_view() == UserContentView::ToolResult(
                ToolResultView {
                    id: id@,
                    call_id: None,
                    content: content.deep_view(),
                    status: None,
                },
            ),
    {
        UserContent::ToolResult(ToolResult { id, call_id: None, content, status: None })
    }

    /// A tool result whose call has a second id.
    pub fn tool_result_with_call_id(
        id: String,
        call_id: String,
        content: OneOrMany<ToolResultContent>,
    ) -> (part: Self)
        ensures
            part.deep_view() == UserContentView::ToolResult(
                ToolResultView {
                    id: id@,
                    call_id: Some(call_id@),
                    content: content.deep_view(),
                    status: None,
                },
            ),
    {
        UserContent::ToolResult(ToolResult { id, call_id: Some(call_id), content, status: None })
    }
}

/// One part of what a model says.
#[derive(Debug, PartialEq, Eq)]
pub enum AssistantContent {
    Text(Text),
    ToolCall(ToolCall),
    Reasoning(Reasoning),
    Image(Media),
}

pub enum AssistantContentView {
    Text(TextView),
    ToolCall(ToolCallView),
    Reasoning(ReasoningView),
    Image(MediaView),
}

impl DeepView for AssistantContent {
    type V = AssistantContentView;

    open spec fn deep_view(&self) -> AssistantContentView {
        match self {
            AssistantContent::Text(text) => AssistantContentView::Text(text.deep_view()),
            AssistantContent::ToolCall(call) => AssistantContentView::ToolCall(call.deep_view()),
            AssistantContent::Reasoning(block) => AssistantContentView::Reasoning(
                block.deep_view(),
            ),
            AssistantContent::Image(image) => AssistantContentView::Image(image.deep_view()),
        }
    }
}

impl Clone for AssistantContent {
    fn clone(&self) -> (copy: Self)
        ensures
            copy.deep_view() == self.deep_view(),
    {
        match self {
            AssistantContent::Text(text) => AssistantContent::Text(text.clone()),
            AssistantContent::ToolCall(call) => AssistantContent::ToolCall(call.clone()),
            AssistantContent::Reasoning(block) => AssistantContent::Reasoning(block.clone()),
            AssistantContent::Image(image) => AssistantContent::Image(image.clone()),
        }
    }
}

impl AssistantContent {
    pub fn text(text: String) -> (part: Self)
        ensures
            part.deep_view() == AssistantContentView::Text(plain_text(text@)),
    {
        AssistantContent::Text(Text::new(text))
    }
}

/// One message of a conversation.
#[derive(Debug, PartialEq, Eq)]
#[allow(inconsistent_fields)]
pub enum Message {
    System { content: String },
    User { content: OneOrMany<UserContent> },
    Assistant { id: Option<String>, content: OneOrMany<AssistantContent> },
}

#[allow(inconsistent_fields)]
pub enum MessageView {
    System { content: Seq<char> },
    User { content: Seq<UserContentView> },
    Assistant { id: Option<Seq<char>>, content: Seq<AssistantContentView> },
}

impl DeepView for Message {
    type V = MessageView;

    open spec fn deep_view(&self) -> MessageView {
        match self {
            Message::System { content } => MessageView::System { content: content@ },
            Message::User { content } => MessageView::User { content: content.deep_view() },
            Message::Assistant { id, content } => MessageView::Assistant {
                id: id.deep_view(),
                content: content.deep_view(),
            },
        }
    }
}

impl Clone for Message {
    fn clone(&self) -> (copy: Self)
        ensures
            copy.deep_view() == self.deep_view(),
    {
        match self {
            Message::System { content } => Message::System { content: content.clone() },
            Message::User { content } => {
                let parts = content.clone();
                assert(parts.deep_view() =~= content.deep_view());
                Message::User { content: parts }
            },
            Message::Assistant { id, content } => {
                let parts = content.clone();
                assert(parts.deep_view() =~= content.deep_view());
                Message::Assistant { id: id.clone(), content: parts }
            },
        }
    }
}

/// The tool calls among the parts of a turn, in order.
pub open spec fn calls_in(content: Seq<AssistantContentView>) -> Seq<ToolCallView>
    decreases content.len(),
{
    if content.len() == 0 {
        Seq::empty()
    } else {
        let before = calls_in(content.drop_last());
        match content.last() {
            AssistantContentView::ToolCall(call) => before.push(call),
            _ => before,
        }
    }
}

/// The tool calls among the parts of a turn, in order.
pub fn tool_calls(content: &OneOrMany<AssistantContent>) -> (calls: Vec<&ToolCall>)
    ensures
        deep(calls@) == calls_in(content.deep_view()),
{
    let ghost whole = content.deep_view();
    let parts = content.iter();
    let mut calls: Vec<&ToolCall> = Vec::new();
    let mut i: usize = 0;
    while i < parts.len()
        invariant
            i <= parts@.len(),
            whole == content.deep_view(),
            parts@.len() == content@.len(),
            forall|k: int| 0 <= k < parts@.len() ==> *(#[trigger] parts@[k]) == content@[k],
            deep(calls@) == calls_in(whole.take(i as int)),
        decreases parts@.len() - i,
    {
        assert(whole.take(i + 1).drop_last() =~= whole.take(i as int));
        assert(whole.take(i + 1).last() == parts@[i as int].deep_view());
        match parts[i] {
            AssistantContent::ToolCall(call) => {
                calls.push(call);
            },
            _ => {},
        }
        i = i + 1;
    }
    assert(whole.take(i as int) =~= whole);
    calls
}

/// The user message of one text.
pub open spec fn user_message(text: Seq<char>) -> MessageView {
    MessageView::User { content: seq![UserContentView::Text(plain_text(text))] }
}

/// The unnamed assistant message of one text.
pub open spec fn assistant_message(text: Seq<char>) -> MessageView {
    MessageView::Assistant {
        id: None,
        content: seq![AssistantContentView::Text(plain_text(text))],
    }
}

/// The texts among the parts of a user message, joined.
pub open spec fn joined_user_text(content: Seq<UserContentView>) -> Seq<char>
    decreases content.len(),
{
    if content.len() == 0 {
        Seq::empty()
    } else {
        let before = joined_user_text(content.drop_last());
        match content.last() {
            UserContentView::Text(text) => before + text.text,
            _ => before,
        }
    }
}

/// Whether there is a text among the parts of a user message.
pub open spec fn has_user_text(content: Seq<UserContentView>) -> bool {
    exists|i: int| 0 <= i < content.len() && (#[trigger] content[i]) is Text
}

impl Message {
    /// The system message of one text.
    pub fn system(text: String) -> (message: Self)
        ensures
            message.deep_view() == (MessageView::System { content: text@ }),
    {
        Message::System { content: text }
    }

    /// The user message of one text.
    pub fn user(text: &str) -> (message: Self)
        ensures
            message.deep_view() == user_message(text@),
    {
        let part = UserContent::text(text.to_owned());
        let message = Message::User { content: OneOrMany::one(part) };
        assert(deep(seq![part]) =~= seq![part.deep_view()]);
        message
    }

    /// The unnamed assistant message of one text.
    pub fn assistant(text: &str) -> (message: Self)
        ensures
            message.deep_view() == assistant_message(text@),
    {
        let part = AssistantContent::text(text.to_owned());
        let message = Message::Assistant { id: None, content: OneOrMany::one(part) };
        assert(deep(seq![part]) =~= seq![part.deep_view()]);
        message
    }

    /// The text of a user message, its text parts joined; `None` for another
    /// message, or where there is no text part.
    pub fn user_text(&self) -> (text: Option<String>)
        ensures
            text.deep_view() == (match self.deep_view() {
                MessageView::User { content } => if has_user_text(content) {
                    Some(joined_user_text(content))
                } else {
                    None
                },
                _ => None,
            }),
    {
        let Message::User { content } = self else {
            return None;
        };
        let ghost whole = content.deep_view();
        let parts = content.iter();
        let mut text: String = String::new();
        let mut found = false;
        let mut i: usize = 0;
        assert(whole.take(0) =~= Seq::empty());
        while i < parts.len()
            invariant
                i <= parts@.len(),
                whole == content.deep_view(),
                parts@.len() == content@.len(),
                forall|k: int| 0 <= k < parts@.len() ==> *(#[trigger] parts@[k]) == content@[k],
                text@ == joined_user_text(whole.take(i as int)),
                found == has_user_text(whole.take(i as int)),
            decreases parts@.len() - i,
        {
            let ghost before = whole.take(i as int);
            let ghost after = whole.take(i + 1);
            assert(after.drop_last() =~= before);
            assert(after.last() == parts@[i as int].deep_view());
            assert(forall|k: int| 0 <= k < before.len() ==> after[k] == before[k]);
            match parts[i] {
                UserContent::Text(part) => {
                    text.append(part.text.as_str());
                    found = true;
                    assert(after[i as int] is Text);
                },
                _ => {
                    assert(has_user_text(after) ==> has_user_text(before));
                    assert(has_user_text(before) ==> has_user_text(after)) by {
                        if has_user_text(before) {
                            let k = choose|k: int| 0 <= k < before.len() && (#[trigger] before[k]) is Text;
                            assert(after[k] is Text);
                        }
                    }
                },
            }
            i = i + 1;
        }
        assert(whole.take(i as int) =~= whole);
        if found {
            Some(text)
        } else {
            None
        }
    }
}

} // verus!
