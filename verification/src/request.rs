//! The JSON bodies and the addresses of the requests that the client sends.

use vstd::prelude::*;
use vstd::string::StringExecFns;
use crate::client::{OllamaClient, Tool, ToolHandler};
use crate::json::{Json, JsonValue};
use crate::model::{CallModel, Message, MessageModel, ToolCall};

verus! {

/// The models of the members of an object under construction.
pub open spec fn members_view(members: Seq<(String, Json)>) -> Seq<(Seq<char>, JsonValue)> {
    Seq::new(members.len(), |i: int| (members[i].0@, members[i].1.deep()))
}

/// The models of the elements of an array under construction.
pub open spec fn elements_view(items: Seq<Json>) -> Seq<JsonValue> {
    Seq::new(items.len(), |i: int| items[i].deep())
}

/// An object with these members, in this order.
pub fn object_of(members: Vec<(String, Json)>) -> (r: Json)
    ensures
        r.deep() == JsonValue::Object(members_view(members@)),
{
    let r = Json::Object(members);
    assert(r.deep()->Object_0 =~= members_view(members@));
    r
}

/// An array with these elements, in this order.
pub fn array_of(items: Vec<Json>) -> (r: Json)
    ensures
        r.deep() == JsonValue::Array(elements_view(items@)),
{
    let r = Json::Array(items);
    assert(r.deep()->Array_0 =~= elements_view(items@));
    r
}

/// A string value.
pub fn text_json(text: &str) -> (r: Json)
    ensures
        r.deep() == JsonValue::Text(text@),
{
    Json::Text(text.to_owned())
}

/// One member of an object under construction.
pub fn member(key: &str, value: Json) -> (r: (String, Json))
    ensures
        r.0@ == key@,
        r.1 == value,
{
    (key.to_owned(), value)
}

/// The schema entry that declares a tool to the server:
/// `{type: "function", function: {name, description, parameters}}`.
pub open spec fn tool_schema(
    name: Seq<char>,
    description: Seq<char>,
    parameters: JsonValue,
) -> JsonValue {
    JsonValue::Object(
        Seq::empty().push(("type"@, JsonValue::Text("function"@))).push(
            (
                "function"@,
                JsonValue::Object(
                    Seq::empty().push(("name"@, JsonValue::Text(name))).push(
                        ("description"@, JsonValue::Text(description)),
                    ).push(("parameters"@, parameters)),
                ),
            ),
        ),
    )
}

/// A tool call as a message carries it: `{function: {name, arguments}}`.
pub open spec fn call_json(call: CallModel) -> JsonValue {
    JsonValue::Object(
        Seq::empty().push(
            (
                "function"@,
                JsonValue::Object(
                    Seq::empty().push(("name"@, JsonValue::Text(call.name))).push(
                        ("arguments"@, call.arguments),
                    ),
                ),
            ),
        ),
    )
}

/// A list of strings as JSON string values.
pub open spec fn texts_json(texts: Seq<Seq<char>>) -> Seq<JsonValue> {
    Seq::new(texts.len(), |i: int| JsonValue::Text(texts[i]))
}

/// A list of tool calls as JSON values.
pub open spec fn calls_json(calls: Seq<CallModel>) -> Seq<JsonValue> {
    Seq::new(calls.len(), |i: int| call_json(calls[i]))
}

/// A message on the wire: `role` and `content` always, `images` and
/// `tool_calls` only where the message has them.
pub open spec fn message_json(message: MessageModel) -> JsonValue {
    let base = Seq::empty().push(("role"@, JsonValue::Text(message.role))).push(
        ("content"@, JsonValue::Text(message.content)),
    );
    let with_images = match message.images {
        Some(images) => base.push(("images"@, JsonValue::Array(texts_json(images)))),
        None => base,
    };
    JsonValue::Object(
        match message.tool_calls {
            Some(calls) => with_images.push(("tool_calls"@, JsonValue::Array(calls_json(calls)))),
            None => with_images,
        },
    )
}

/// A list of messages as JSON values.
pub open spec fn messages_json(messages: Seq<MessageModel>) -> Seq<JsonValue> {
    Seq::new(messages.len(), |i: int| message_json(messages[i]))
}

/// The body of a chat request: the model, the messages, streaming switched
/// on, and the tool schemas where any tool is registered.
pub open spec fn chat_request_json(
    model: Seq<char>,
    messages: Seq<MessageModel>,
    tools: Seq<JsonValue>,
) -> JsonValue {
    let base = Seq::empty().push(("model"@, JsonValue::Text(model))).push(
        ("messages"@, JsonValue::Array(messages_json(messages))),
    ).push(("stream"@, JsonValue::Bool(true)));
    JsonValue::Object(
        if tools.len() == 0 {
            base
        } else {
            base.push(("tools"@, JsonValue::Array(tools)))
        },
    )
}

/// The body of a download request: `{name, stream: true}`.
pub open spec fn pull_request_json(name: Seq<char>) -> JsonValue {
    JsonValue::Object(
        Seq::empty().push(("name"@, JsonValue::Text(name))).push(("stream"@, JsonValue::Bool(true))),
    )
}

/// The body of a request for a model's description: `{name}`.
pub open spec fn show_request_json(name: Seq<char>) -> JsonValue {
    JsonValue::Object(Seq::empty().push(("name"@, JsonValue::Text(name))))
}

impl<H: ToolHandler> Tool<H> {
    /// The schema entry that declares this tool to the server.
    pub fn to_json(&self) -> (r: Json)
        ensures
            r.deep() == tool_schema(self.name@, self.description@, self.parameters.deep()),
    {
        let mut inner: Vec<(String, Json)> = Vec::new();
        inner.push(member("name", text_json(self.name.as_str())));
        inner.push(member("description", text_json(self.description.as_str())));
        inner.push(member("parameters", self.parameters.duplicate()));
        assert(members_view(inner@) =~= Seq::empty().push(
            ("name"@, JsonValue::Text(self.name@)),
        ).push(("description"@, JsonValue::Text(self.description@))).push(
            ("parameters"@, self.parameters.deep()),
        ));
        let function = object_of(inner);
        let mut outer: Vec<(String, Json)> = Vec::new();
        outer.push(member("type", text_json("function")));
        outer.push(member("function", function));
        assert(members_view(outer@) =~= Seq::empty().push(
            ("type"@, JsonValue::Text("function"@)),
        ).push(("function"@, function.deep())));
        object_of(outer)
    }
}

impl ToolCall {
    /// This call as a message carries it.
    pub fn to_json(&self) -> (r: Json)
        ensures
            r.deep() == call_json(self@),
    {
        let mut inner: Vec<(String, Json)> = Vec::new();
        inner.push(member("name", text_json(self.function.name.as_str())));
        inner.push(member("arguments", self.function.arguments.duplicate()));
        assert(members_view(inner@) =~= Seq::empty().push(
            ("name"@, JsonValue::Text(self.function.name@)),
        ).push(("arguments"@, self.function.arguments.deep())));
        let function = object_of(inner);
        let mut outer: Vec<(String, Json)> = Vec::new();
        outer.push(member("function", function));
        assert(members_view(outer@) =~= Seq::empty().push(("function"@, function.deep())));
        object_of(outer)
    }
}

/// A list of strings as a JSON array.
pub fn texts_to_json(texts: &Vec<String>) -> (r: Json)
    ensures
        r.deep() == JsonValue::Array(texts_json(crate::model::texts_view(texts@))),
{
    let mut items: Vec<Json> = Vec::new();
    let mut i: usize = 0;
    while i < texts.len()
        invariant
            0 <= i <= texts.len(),
            items.len() == i,
            forall|k: int| 0 <= k < i ==> (#[trigger] items[k]).deep() == JsonValue::Text(texts[k]@),
        decreases texts.len() - i,
    {
        items.push(text_json(texts[i].as_str()));
        i = i + 1;
    }
    assert(elements_view(items@) =~= texts_json(crate::model::texts_view(texts@)));
    array_of(items)
}

/// A list of tool calls as a JSON array.
pub fn calls_to_json(calls: &Vec<ToolCall>) -> (r: Json)
    ensures
        r.deep() == JsonValue::Array(calls_json(crate::model::calls_view(calls@))),
{
    let mut items: Vec<Json> = Vec::new();
    let mut i: usize = 0;
    while i < calls.len()
        invariant
            0 <= i <= calls.len(),
            items.len() == i,
            forall|k: int| 0 <= k < i ==> (#[trigger] items[k]).deep() == call_json(calls[k]@),
        decreases calls.len() - i,
    {
        items.push(calls[i].to_json());
        i = i + 1;
    }
    assert(elements_view(items@) =~= calls_json(crate::model::calls_view(calls@)));
    array_of(items)
}

impl Message {
    /// This message as it goes on the wire.
    pub fn to_json(&self) -> (r: Json)
        ensures
            r.deep() == message_json(self@),
    {
        let mut members: Vec<(String, Json)> = Vec::new();
        members.push(member("role", text_json(self.role.as_str())));
        members.push(member("content", text_json(self.content.as_str())));
        let ghost base = Seq::empty().push(("role"@, JsonValue::Text(self.role@))).push(
            ("content"@, JsonValue::Text(self.content@)),
        );
        assert(members_view(members@) =~= base);
        match &self.images {
            Some(images) => {
                let ghost before = members@;
                let value = texts_to_json(images);
                members.push(member("images", value));
                assert(members_view(members@) =~= members_view(before).push(
                    ("images"@, value.deep()),
                ));
            },
            None => {},
        }
        match &self.tool_calls {
            Some(calls) => {
                let ghost before = members@;
                let value = calls_to_json(calls);
                members.push(member("tool_calls", value));
                assert(members_view(members@) =~= members_view(before).push(
                    ("tool_calls"@, value.deep()),
                ));
            },
            None => {},
        }
        object_of(members)
    }
}

/// A conversation as a JSON array of messages.
pub fn messages_to_json(messages: &[Message]) -> (r: Json)
    ensures
        r.deep() == JsonValue::Array(messages_json(crate::model::messages_view(messages@))),
{
    let mut items: Vec<Json> = Vec::new();
    let mut i: usize = 0;
    while i < messages.len()
        invariant
            0 <= i <= messages.len(),
            items.len() == i,
            forall|k: int| 0 <= k < i ==> (#[trigger] items[k]).deep() == message_json(messages[k]@),
        decreases messages.len() - i,
    {
        items.push(messages[i].to_json());
        i = i + 1;
    }
    assert(elements_view(items@) =~= messages_json(crate::model::messages_view(messages@)));
    array_of(items)
}

/// The body of a download request for the model of this name.
pub fn pull_request(model_name: &str) -> (r: Json)
    ensures
        r.deep() == pull_request_json(model_name@),
{
    let mut members: Vec<(String, Json)> = Vec::new();
    members.push(member("name", text_json(model_name)));
    members.push(member("stream", Json::Bool(true)));
    assert(members_view(members@) =~= Seq::empty().push(
        ("name"@, JsonValue::Text(model_name@)),
    ).push(("stream"@, JsonValue::Bool(true))));
    object_of(members)
}

/// The body of a request for the description of the model of this name.
pub fn show_request(model_name: &str) -> (r: Json)
    ensures
        r.deep() == show_request_json(model_name@),
{
    let mut members: Vec<(String, Json)> = Vec::new();
    members.push(member("name", text_json(model_name)));
    assert(members_view(members@) =~= Seq::empty().push(("name"@, JsonValue::Text(model_name@))));
    object_of(members)
}

impl<H: ToolHandler> OllamaClient<H> {
    /// The schema entries of the registered tools, in order.
    pub open spec fn tool_schemas(&self) -> Seq<JsonValue> {
        Seq::new(
            self.tools.len() as nat,
            |i: int|
                tool_schema(
                    self.tools[i].name@,
                    self.tools[i].description@,
                    self.tools[i].parameters.deep(),
                ),
        )
    }

    /// The body of a chat request for this conversation.
    pub fn chat_request(&self, messages: &[Message]) -> (r: Json)
        ensures
            r.deep() == chat_request_json(
                self.model@,
                crate::model::messages_view(messages@),
                self.tool_schemas(),
            ),
    {
        let mut members: Vec<(String, Json)> = Vec::new();
        let conversation = messages_to_json(messages);
        members.push(member("model", text_json(self.model.as_str())));
        members.push(member("messages", conversation));
        members.push(member("stream", Json::Bool(true)));
        let ghost base = Seq::empty().push(("model"@, JsonValue::Text(self.model@))).push(
            ("messages"@, conversation.deep()),
        ).push(("stream"@, JsonValue::Bool(true)));
        assert(members_view(members@) =~= base);
        if self.tools.len() > 0 {
            let mut schemas: Vec<Json> = Vec::new();
            let mut i: usize = 0;
            while i < self.tools.len()
                invariant
                    0 <= i <= self.tools.len(),
                    schemas.len() == i,
                    forall|k: int|
                        0 <= k < i ==> (#[trigger] schemas[k]).deep() == self.tool_schemas()[k],
                decreases self.tools.len() - i,
            {
                schemas.push(self.tools[i].to_json());
                i = i + 1;
            }
            assert(elements_view(schemas@) =~= self.tool_schemas());
            let ghost before = members@;
            let value = array_of(schemas);
            members.push(member("tools", value));
            assert(members_view(members@) =~= members_view(before).push(("tools"@, value.deep())));
        }
        object_of(members)
    }

    /// The address of an interface of the server: the endpoint followed by
    /// the interface's path.
    pub fn url(&self, path: &str) -> (r: String)
        ensures
            r@ == self.endpoint@ + path@,
    {
        let mut address = self.endpoint.clone();
        address.append(path);
        address
    }

    /// The address that lists the local models.
    pub fn tags_url(&self) -> (r: String)
        ensures
            r@ == self.endpoint@ + "/api/tags"@,
    {
        self.url("/api/tags")
    }

    /// The address that describes a model.
    pub fn show_url(&self) -> (r: String)
        ensures
            r@ == self.endpoint@ + "/api/show"@,
    {
        self.url("/api/show")
    }

    /// The address that downloads a model.
    pub fn pull_url(&self) -> (r: String)
        ensures
            r@ == self.endpoint@ + "/api/pull"@,
    {
        self.url("/api/pull")
    }

    /// The address that takes chat requests.
    pub fn chat_url(&self) -> (r: String)
        ensures
            r@ == self.endpoint@ + "/api/chat"@,
    {
        self.url("/api/chat")
    }
}

} // verus!
