//! The typed records exchanged with the server, and their mathematical views.

use vstd::prelude::*;
use crate::json::{Json, JsonValue};

verus! {

/// The function a tool call names, with the argument tree it passes.
#[derive(Debug, PartialEq)]
pub struct Function {
    pub name: String,
    pub arguments: Json,
}

/// A request by the model to run one registered tool.
#[derive(Debug, PartialEq)]
pub struct ToolCall {
    pub function: Function,
}

/// One turn of a conversation.
#[derive(Debug, PartialEq)]
pub struct Message {
    pub role: String,
    pub content: String,
    pub images: Option<Vec<String>>,
    pub tool_calls: Option<Vec<ToolCall>>,
}

/// One decoded record of a chat response body.
#[derive(Debug, PartialEq)]
pub struct ChatResponse {
    pub message: Message,
    pub done: bool,
}

/// One event of a chat stream: a piece of text, tool calls if the record
/// carried any, and whether the stream ends here.
#[derive(Debug, PartialEq)]
pub struct ChatStreamItem {
    pub content: String,
    pub tool_calls: Option<Vec<ToolCall>>,
    pub done: bool,
}

/// One event of a model download.
#[derive(Debug, PartialEq)]
pub struct PullProgress {
    pub status: String,
    pub digest: Option<String>,
    pub total: Option<u64>,
    pub completed: Option<u64>,
}

/// A locally available model.
#[derive(Debug, PartialEq)]
pub struct Model {
    pub name: String,
    pub modified_at: String,
    pub size: u64,
}

/// What the server reports about one model.
#[derive(Debug, PartialEq)]
pub struct ModelInfo {
    pub license: String,
    pub modelfile: String,
    pub parameters: String,
    pub template: String,
}

/// The view of a tool call.
pub struct CallModel {
    pub name: Seq<char>,
    pub arguments: JsonValue,
}

/// The view of a message.
pub struct MessageModel {
    pub role: Seq<char>,
    pub content: Seq<char>,
    pub images: Option<Seq<Seq<char>>>,
    pub tool_calls: Option<Seq<CallModel>>,
}

/// The view of a decoded chat record.
pub struct ResponseModel {
    pub message: MessageModel,
    pub done: bool,
}

/// The view of a chat stream event.
pub struct ChatEvent {
    pub content: Seq<char>,
    pub tool_calls: Option<Seq<CallModel>>,
    pub done: bool,
}

/// The view of a download event.
pub struct PullEvent {
    pub status: Seq<char>,
    pub digest: Option<Seq<char>>,
    pub total: Option<u64>,
    pub completed: Option<u64>,
}

/// The view of a model entry.
pub struct ModelEntry {
    pub name: Seq<char>,
    pub modified_at: Seq<char>,
    pub size: u64,
}

/// The view of a model description.
pub struct ModelDetails {
    pub license: Seq<char>,
    pub modelfile: Seq<char>,
    pub parameters: Seq<char>,
    pub template: Seq<char>,
}

/// The views of a list of tool calls.
pub open spec fn calls_view(calls: Seq<ToolCall>) -> Seq<CallModel> {
    Seq::new(calls.len(), |i: int| calls[i]@)
}

/// The views of tool calls that may be absent.
pub open spec fn calls_option(calls: Option<Vec<ToolCall>>) -> Option<Seq<CallModel>> {
    match calls {
        Some(c) => Some(calls_view(c@)),
        None => None,
    }
}

/// The characters of each string of a list.
pub open spec fn texts_view(texts: Seq<String>) -> Seq<Seq<char>> {
    Seq::new(texts.len(), |i: int| texts[i]@)
}

/// The characters of each string of a list that may be absent.
pub open spec fn texts_option(texts: Option<Vec<String>>) -> Option<Seq<Seq<char>>> {
    match texts {
        Some(t) => Some(texts_view(t@)),
        None => None,
    }
}

/// The views of a list of messages.
pub open spec fn messages_view(messages: Seq<Message>) -> Seq<MessageModel> {
    Seq::new(messages.len(), |i: int| messages[i]@)
}

/// The views of a list of chat events.
pub open spec fn items_view(items: Seq<ChatStreamItem>) -> Seq<ChatEvent> {
    Seq::new(items.len(), |i: int| items[i]@)
}

/// The views of a list of download events.
pub open spec fn progress_view(events: Seq<PullProgress>) -> Seq<PullEvent> {
    Seq::new(events.len(), |i: int| events[i]@)
}

impl View for ToolCall {
    type V = CallModel;

    open spec fn view(&self) -> CallModel {
        CallModel { name: self.function.name@, arguments: self.function.arguments.deep() }
    }
}

impl View for Message {
    type V = MessageModel;

    open spec fn view(&self) -> MessageModel {
        MessageModel {
            role: self.role@,
            content: self.content@,
            images: texts_option(self.images),
            tool_calls: calls_option(self.tool_calls),
        }
    }
}

impl View for ChatResponse {
    type V = ResponseModel;

    open spec fn view(&self) -> ResponseModel {
        ResponseModel { message: self.message@, done: self.done }
    }
}

impl View for ChatStreamItem {
    type V = ChatEvent;

    open spec fn view(&self) -> ChatEvent {
        ChatEvent {
            content: self.content@,
            tool_calls: calls_option(self.tool_calls),
            done: self.done,
        }
    }
}

impl View for PullProgress {
    type V = PullEvent;

    open spec fn view(&self) -> PullEvent {
        PullEvent {
            status: self.status@,
            digest: crate::json::text_option(self.digest),
            total: self.total,
            completed: self.completed,
        }
    }
}

impl View for Model {
    type V = ModelEntry;

    open spec fn view(&self) -> ModelEntry {
        ModelEntry { name: self.name@, modified_at: self.modified_at@, size: self.size }
    }
}

impl View for ModelInfo {
    type V = ModelDetails;

    open spec fn view(&self) -> ModelDetails {
        ModelDetails {
            license: self.license@,
            modelfile: self.modelfile@,
            parameters: self.parameters@,
            template: self.template@,
        }
    }
}

impl ToolCall {
    /// A copy of this call.
    pub fn duplicate(&self) -> (r: ToolCall)
        ensures
            r@ == self@,
    {
        ToolCall {
            function: Function {
                name: self.function.name.clone(),
                arguments: self.function.arguments.duplicate(),
            },
        }
    }
}

/// A copy of a list of tool calls.
pub fn duplicate_calls(calls: &Vec<ToolCall>) -> (r: Vec<ToolCall>)
    ensures
        calls_view(r@) == calls_view(calls@),
{
    let mut copy: Vec<ToolCall> = Vec::new();
    let mut i: usize = 0;
    while i < calls.len()
        invariant
            0 <= i <= calls.len(),
            copy.len() == i,
            forall|k: int| 0 <= k < i ==> copy[k]@ == calls[k]@,
        decreases calls.len() - i,
    {
        copy.push(calls[i].duplicate());
        i = i + 1;
    }
    assert(calls_view(copy@) =~= calls_view(calls@));
    copy
}

/// A copy of tool calls that may be absent.
pub fn duplicate_calls_option(calls: &Option<Vec<ToolCall>>) -> (r: Option<Vec<ToolCall>>)
    ensures
        calls_option(r) == calls_option(*calls),
{
    match calls {
        Some(c) => Some(duplicate_calls(c)),
        None => None,
    }
}

/// A copy of a list of strings.
pub fn duplicate_texts(texts: &Vec<String>) -> (r: Vec<String>)
    ensures
        texts_view(r@) == texts_view(texts@),
{
    let mut copy: Vec<String> = Vec::new();
    let mut i: usize = 0;
    while i < texts.len()
        invariant
            0 <= i <= texts.len(),
            copy.len() == i,
            forall|k: int| 0 <= k < i ==> copy[k]@ == texts[k]@,
        decreases texts.len() - i,
    {
        copy.push(texts[i].clone());
        i = i + 1;
    }
    assert(texts_view(copy@) =~= texts_view(texts@));
    copy
}

impl Message {
    /// A copy of this message.
    pub fn duplicate(&self) -> (r: Message)
        ensures
            r@ == self@,
    {
        let images = match &self.images {
            Some(list) => Some(duplicate_texts(list)),
            None => None,
        };
        Message {
            role: self.role.clone(),
            content: self.content.clone(),
            images,
            tool_calls: duplicate_calls_option(&self.tool_calls),
        }
    }
}

} // verus!
