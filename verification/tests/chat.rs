use ollama_client::catalog::{decode_model_info, decode_model_list};
use ollama_client::chat::{
    aggregate_chat, aggregate_stream, attach_image_files, attach_images, encode_images,
    stream_error, ChatAggregate,
};
use ollama_client::model::{Model, ModelInfo};
use ollama_client::request::{pull_request, show_request};
use ollama_client::client::{
    tool_message, tool_messages, Dispatch, OllamaClient, Tool, ToolHandler,
};
use ollama_client::decode::ChatDecoder;
use ollama_client::json::{Json, JsonNumber};
use ollama_client::model::{ChatStreamItem, Function, Message, ToolCall};

fn item(content: &str, done: bool) -> ChatStreamItem {
    ChatStreamItem { content: content.to_string(), tool_calls: None, done }
}

fn call(name: &str, arguments: Json) -> ToolCall {
    ToolCall { function: Function { name: name.to_string(), arguments } }
}

fn user(content: &str) -> Message {
    Message { role: "user".to_string(), content: content.to_string(), images: None, tool_calls: None }
}

#[test]
fn chat_stream_aggregates_to_hello() {
    let mut decoder = ChatDecoder::new();
    let items = decoder.push_chunk(
        b"{\"message\":{\"role\":\"assistant\",\"content\":\"Hel\"},\"done\":false}\n{\"message\":{\"role\":\"assistant\",\"content\":\"lo\"},\"done\":false}\n{\"message\":{\"role\":\"assistant\",\"content\":\"\"},\"done\":true}\n",
    );
    assert_eq!(items.items.len(), 3);
    let reply = aggregate_chat(&items.items);
    assert_eq!(reply.text, "Hello");
    assert!(reply.done);
    assert_eq!(reply.tool_calls, None);
}

#[test]
fn aggregation_stops_at_done() {
    let items = vec![item("a", false), item("b", true), item("c", false)];
    let reply = aggregate_chat(&items);
    assert_eq!(reply.text, "ab");
    assert!(reply.done);
}

#[test]
fn aggregation_of_a_stream_that_ends_without_done() {
    let reply = aggregate_chat(&vec![item("x", false), item("y", false)]);
    assert_eq!(reply.text, "xy");
    assert!(!reply.done);
    let empty = aggregate_chat(&Vec::new());
    assert_eq!(empty.text, "");
    assert!(!empty.done);
    assert_eq!(empty.tool_calls, None);
}

#[test]
fn last_tool_calls_win() {
    let mut reply = ChatAggregate::new();
    reply.absorb(ChatStreamItem {
        content: "a".to_string(),
        tool_calls: Some(vec![call("first", Json::Null)]),
        done: false,
    });
    reply.absorb(item("b", false));
    assert_eq!(reply.tool_calls, Some(vec![call("first", Json::Null)]));
    reply.absorb(ChatStreamItem {
        content: String::new(),
        tool_calls: Some(vec![call("second", Json::Bool(true))]),
        done: true,
    });
    reply.absorb(ChatStreamItem {
        content: "late".to_string(),
        tool_calls: Some(vec![call("third", Json::Null)]),
        done: false,
    });
    let (text, calls) = reply.into_parts();
    assert_eq!(text, "ab");
    assert_eq!(calls, Some(vec![call("second", Json::Bool(true))]));
}

struct Weather;

impl ToolHandler for Weather {
    fn call(&self, arguments: &Json) -> String {
        match arguments.get("city").and_then(|c| c.as_text()) {
            Some(city) => format!("Sunny in {}", city),
            None => "no city".to_string(),
        }
    }
}

fn paris() -> Json {
    Json::Object(vec![("city".to_string(), Json::Text("Paris".to_string()))])
}

fn weather_client() -> OllamaClient<Weather> {
    let mut client = OllamaClient::new("http://localhost:11434".to_string(), "llama3".to_string());
    client.add_tool(Tool {
        name: "get_weather".to_string(),
        description: "Weather for a city".to_string(),
        parameters: Json::Object(vec![("type".to_string(), Json::Text("object".to_string()))]),
        function: Weather,
    });
    client
}

#[test]
fn registered_tool_is_invoked_with_the_arguments() {
    let client = weather_client();
    let messages = client.handle_tool_calls(vec![call("get_weather", paris())]);
    assert_eq!(
        messages,
        vec![Message {
            role: "tool".to_string(),
            content: "Sunny in Paris".to_string(),
            images: None,
            tool_calls: None,
        }]
    );
}

#[test]
fn unregistered_tool_is_skipped() {
    let client = weather_client();
    assert!(client.handle_tool_calls(vec![call("unknown_tool", paris())]).is_empty());
    let mixed = client.handle_tool_calls(vec![
        call("unknown_tool", paris()),
        call("get_weather", Json::Null),
        call("Get_Weather", paris()),
        call("get_weather", paris()),
    ]);
    let texts: Vec<&str> = mixed.iter().map(|m| m.content.as_str()).collect();
    assert_eq!(texts, vec!["no city", "Sunny in Paris"]);
}

#[test]
fn client_keeps_endpoint_model_and_tools() {
    let client = weather_client();
    assert_eq!(client.endpoint, "http://localhost:11434");
    assert_eq!(client.model, "llama3");
    assert_eq!(client.tool_count(), 1);
    assert_eq!(client.find_tool(&"get_weather".to_string()), Some(0));
    assert_eq!(client.find_tool(&"get_weathe".to_string()), None);
    let fresh: OllamaClient<Weather> = OllamaClient::new(String::new(), String::new());
    assert_eq!(fresh.tool_count(), 0);
    assert!(fresh.handle_tool_calls(vec![call("get_weather", paris())]).is_empty());
}

#[test]
fn tool_message_has_the_tool_role() {
    assert_eq!(
        tool_message("42".to_string()),
        Message { role: "tool".to_string(), content: "42".to_string(), images: None, tool_calls: None }
    );
}

#[test]
fn images_are_encoded_in_standard_base64() {
    let files = vec![b"hello".to_vec(), Vec::new(), vec![0xff, 0xfe, 0xfd], b"ab".to_vec()];
    assert_eq!(encode_images(&files), vec!["aGVsbG8=", "", "//79", "YWI="]);
}

#[test]
fn images_go_to_the_last_message_only() {
    let history = vec![user("first"), user("second"), user("look at this")];
    let sent = attach_image_files(&history, &vec![b"hello".to_vec()]);
    assert_eq!(sent.len(), 3);
    assert_eq!(sent[0], user("first"));
    assert_eq!(sent[1], user("second"));
    assert_eq!(sent[2].images, Some(vec!["aGVsbG8=".to_string()]));
    assert_eq!(sent[2].content, "look at this");
    assert_eq!(sent[2].role, "user");
    assert_eq!(history[2].images, None);
}

#[test]
fn attaching_images_to_an_empty_conversation() {
    assert!(attach_images(&[], vec!["x".to_string()]).is_empty());
    let one = attach_images(&[user("only")], Vec::new());
    assert_eq!(one[0].images, Some(Vec::new()));
}

#[test]
fn json_tree_accessors() {
    let tree = Json::Object(vec![
        ("a".to_string(), Json::Number(JsonNumber { text: "7".to_string(), unsigned: Some(7) })),
        ("b".to_string(), Json::Bool(false)),
        ("c".to_string(), Json::Text("t".to_string())),
    ]);
    assert_eq!(tree.unsigned_member("a"), Some(7));
    assert_eq!(tree.unsigned_member("b"), None);
    assert_eq!(tree.get("b").and_then(|v| v.as_bool()), Some(false));
    assert_eq!(tree.text_member("c"), Some("t".to_string()));
    assert_eq!(tree.get("d"), None);
    assert_eq!(Json::Null.get("a"), None);
    assert_eq!(tree.duplicate(), tree);
}

#[test]
fn transport_failure_ends_the_aggregation() {
    let items = vec![Ok(item("a", false)), Err("connection reset".to_string()), Ok(item("b", true))];
    assert_eq!(aggregate_stream(&items), Err("Stream error: connection reset".to_string()));
    assert_eq!(stream_error("x"), "Stream error: x");
}

#[test]
fn transport_failure_after_done_is_not_seen() {
    let items = vec![Ok(item("a", false)), Ok(item("b", true)), Err("late".to_string())];
    let reply = aggregate_stream(&items).unwrap();
    assert_eq!(reply.text, "ab");
    assert!(reply.done);
    let open = aggregate_stream(&vec![Ok(item("x", false))]).unwrap();
    assert_eq!(open.text, "x");
    assert!(!open.done);
}

fn text(s: &str) -> Json {
    Json::Text(s.to_string())
}

fn object(members: Vec<(&str, Json)>) -> Json {
    Json::Object(members.into_iter().map(|(k, v)| (k.to_string(), v)).collect())
}

#[test]
fn tool_schema_shape() {
    let client = weather_client();
    assert_eq!(
        client.tools[0].to_json(),
        object(vec![
            ("type", text("function")),
            (
                "function",
                object(vec![
                    ("name", text("get_weather")),
                    ("description", text("Weather for a city")),
                    ("parameters", object(vec![("type", text("object"))])),
                ])
            ),
        ])
    );
}

#[test]
fn message_wire_shape() {
    assert_eq!(user("hi").to_json(), object(vec![("role", text("user")), ("content", text("hi"))]));
    let full = Message {
        role: "assistant".to_string(),
        content: String::new(),
        images: Some(vec!["aGk=".to_string()]),
        tool_calls: Some(vec![call("get_weather", paris())]),
    };
    assert_eq!(
        full.to_json(),
        object(vec![
            ("role", text("assistant")),
            ("content", text("")),
            ("images", Json::Array(vec![text("aGk=")])),
            (
                "tool_calls",
                Json::Array(vec![object(vec![(
                    "function",
                    object(vec![("name", text("get_weather")), ("arguments", paris())])
                )])])
            ),
        ])
    );
}

#[test]
fn chat_request_carries_tools_only_when_registered() {
    let bare: OllamaClient<Weather> = OllamaClient::new("http://h".to_string(), "m".to_string());
    assert_eq!(
        bare.chat_request(&[user("hi")]),
        object(vec![
            ("model", text("m")),
            ("messages", Json::Array(vec![user("hi").to_json()])),
            ("stream", Json::Bool(true)),
        ])
    );
    let client = weather_client();
    assert_eq!(
        client.chat_request(&[]),
        object(vec![
            ("model", text("llama3")),
            ("messages", Json::Array(vec![])),
            ("stream", Json::Bool(true)),
            ("tools", Json::Array(vec![client.tools[0].to_json()])),
        ])
    );
}

#[test]
fn other_request_bodies_and_addresses() {
    assert_eq!(pull_request("llama3"), object(vec![("name", text("llama3")), ("stream", Json::Bool(true))]));
    assert_eq!(show_request("llama3"), object(vec![("name", text("llama3"))]));
    let client = weather_client();
    assert_eq!(client.tags_url(), "http://localhost:11434/api/tags");
    assert_eq!(client.show_url(), "http://localhost:11434/api/show");
    assert_eq!(client.pull_url(), "http://localhost:11434/api/pull");
    assert_eq!(client.chat_url(), "http://localhost:11434/api/chat");
}

#[test]
fn model_listing_is_decoded() {
    let body = b"{\"models\":[{\"name\":\"llama3\",\"modified_at\":\"2024-01-01\",\"size\":42,\"digest\":\"x\"},{\"name\":\"phi\",\"modified_at\":\"2024-02-02\",\"size\":7}]}";
    assert_eq!(
        decode_model_list(body),
        Some(vec![
            Model { name: "llama3".to_string(), modified_at: "2024-01-01".to_string(), size: 42 },
            Model { name: "phi".to_string(), modified_at: "2024-02-02".to_string(), size: 7 },
        ])
    );
    assert_eq!(decode_model_list(b"{\"models\":[]}"), Some(Vec::new()));
    assert_eq!(decode_model_list(b"{}"), None);
    assert_eq!(decode_model_list(b"not json"), None);
    assert_eq!(decode_model_list(b"{\"models\":[{\"name\":\"x\",\"modified_at\":\"y\"}]}"), None);
    assert_eq!(decode_model_list(b"{\"models\":[{\"name\":\"x\",\"modified_at\":\"y\",\"size\":-1}]}"), None);
}

#[test]
fn model_description_is_decoded() {
    let body = b"{\"license\":\"MIT\",\"modelfile\":\"FROM x\",\"parameters\":\"p\",\"template\":\"t\"}";
    assert_eq!(
        decode_model_info(body),
        Some(ModelInfo {
            license: "MIT".to_string(),
            modelfile: "FROM x".to_string(),
            parameters: "p".to_string(),
            template: "t".to_string(),
        })
    );
    assert_eq!(decode_model_info(b"{\"license\":\"MIT\"}"), None);
    assert_eq!(decode_model_info(b"[]"), None);
}

struct Echo;

impl ToolHandler for Echo {
    fn call(&self, arguments: &Json) -> String {
        format!("{:?}", arguments)
    }
}

#[test]
fn dispatch_goes_to_the_first_tool_of_the_name() {
    let mut client: OllamaClient<Echo> = OllamaClient::new(String::new(), String::new());
    for name in ["a", "b", "a"] {
        client.add_tool(Tool {
            name: name.to_string(),
            description: String::new(),
            parameters: Json::Null,
            function: Echo,
        });
    }
    let calls = vec![call("b", Json::Null), call("zz", Json::Null), call("a", Json::Bool(true))];
    assert_eq!(
        client.dispatch_plan(&calls),
        vec![Dispatch { call: 0, tool: 1 }, Dispatch { call: 2, tool: 0 }]
    );
    let messages = client.handle_tool_calls(calls);
    let texts: Vec<&str> = messages.iter().map(|m| m.content.as_str()).collect();
    assert_eq!(texts, vec!["Null", "Bool(true)"]);
    assert!(messages.iter().all(|m| m.role == "tool" && m.images.is_none() && m.tool_calls.is_none()));
}

#[test]
fn answers_become_tool_messages_in_order() {
    let messages = tool_messages(vec!["one".to_string(), "two".to_string()]);
    assert_eq!(messages, vec![tool_message("one".to_string()), tool_message("two".to_string())]);
    assert!(tool_messages(Vec::new()).is_empty());
}

#[test]
fn chat_stream_of_bare_records_aggregates_to_hello() {
    let mut decoder = ChatDecoder::new();
    let mut reply = ChatAggregate::new();
    for chunk in [
        &b"{\"message\":{\"content\":\"Hel\"},\"done\":false}\n{\"message\":{\"con"[..],
        &b"tent\":\"lo\"},\"done\":false}\n"[..],
        &b"{\"message\":{\"content\":\"\"},\"done\":true}\n"[..],
    ] {
        for item in decoder.push_chunk(chunk).items {
            reply.absorb(item);
        }
    }
    assert_eq!(reply.text, "Hello");
    assert!(reply.done);
}
