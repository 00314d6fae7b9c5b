use ollama_client::decode::{
    decode_chat_record, decode_chat_records, decode_pull_record, decode_pull_records, ChatDecoder,
    PullDecoder,
};
use ollama_client::json::{Json, JsonNumber};
use ollama_client::model::{ChatResponse, ChatStreamItem, PullProgress, ToolCall};

fn status_only(status: &str) -> PullProgress {
    PullProgress { status: status.to_string(), digest: None, total: None, completed: None }
}

#[test]
fn pull_record_with_all_fields() {
    let line = b"{\"status\":\"downloading\",\"digest\":\"sha256:abc\",\"total\":100,\"completed\":50}";
    assert_eq!(
        decode_pull_record(line),
        PullProgress {
            status: "downloading".to_string(),
            digest: Some("sha256:abc".to_string()),
            total: Some(100),
            completed: Some(50),
        }
    );
}

#[test]
fn pull_record_with_missing_fields_is_unknown_not_zero() {
    assert_eq!(decode_pull_record(b"{\"status\":\"pulling layers\"}"), status_only("pulling layers"));
    assert_eq!(decode_pull_record(b"{}"), status_only(""));
    assert_eq!(decode_pull_record(b"{\"total\":7}").total, Some(7));
    assert_eq!(decode_pull_record(b"{\"total\":7}").completed, None);
}

#[test]
fn pull_record_with_fields_of_another_kind() {
    let event = decode_pull_record(b"{\"status\":5,\"digest\":true,\"total\":-1,\"completed\":1.5}");
    assert_eq!(event, status_only(""));
    assert_eq!(decode_pull_record(b"[1,2]"), status_only(""));
    assert_eq!(decode_pull_record(b"42"), status_only(""));
}

#[test]
fn pull_record_with_largest_total() {
    let event = decode_pull_record(b"{\"status\":\"x\",\"total\":18446744073709551615}");
    assert_eq!(event.total, Some(u64::MAX));
}

#[test]
fn malformed_pull_line_becomes_status() {
    assert_eq!(decode_pull_record(b"not json"), status_only("not json"));
}

#[test]
fn malformed_pull_line_with_invalid_utf8_is_made_readable() {
    assert_eq!(decode_pull_record(b"bad \xff byte"), status_only("bad \u{fffd} byte"));
}

#[test]
fn pull_stream_with_one_malformed_line() {
    let records = vec![b"{\"status\":\"a\"}".to_vec(), b"not json".to_vec(), b"{\"status\":\"b\"}".to_vec()];
    assert_eq!(
        decode_pull_records(&records),
        vec![status_only("a"), status_only("not json"), status_only("b")]
    );
}

#[test]
fn chat_record_with_text() {
    let item = decode_chat_record(b"{\"message\":{\"role\":\"assistant\",\"content\":\"Hel\"},\"done\":false}");
    assert_eq!(
        item,
        Some(ChatStreamItem { content: "Hel".to_string(), tool_calls: None, done: false })
    );
}

#[test]
fn chat_record_ignores_other_members() {
    let item = decode_chat_record(
        b"{\"model\":\"m\",\"created_at\":\"now\",\"message\":{\"role\":\"assistant\",\"content\":\"\",\"extra\":1},\"done\":true,\"total_duration\":5}",
    );
    assert_eq!(item, Some(ChatStreamItem { content: String::new(), tool_calls: None, done: true }));
}

#[test]
fn chat_record_with_tool_calls() {
    let item = decode_chat_record(
        b"{\"message\":{\"role\":\"assistant\",\"content\":\"\",\"tool_calls\":[{\"function\":{\"name\":\"get_weather\",\"arguments\":{\"city\":\"Paris\",\"days\":3}}}]},\"done\":false}",
    )
    .unwrap();
    let calls = item.tool_calls.unwrap();
    assert_eq!(calls.len(), 1);
    assert_eq!(calls[0].function.name, "get_weather");
    assert_eq!(
        calls[0].function.arguments,
        Json::Object(vec![
            ("city".to_string(), Json::Text("Paris".to_string())),
            (
                "days".to_string(),
                Json::Number(JsonNumber { text: "3".to_string(), unsigned: Some(3) })
            ),
        ])
    );
}

#[test]
fn chat_record_with_null_tool_calls() {
    let item = decode_chat_record(
        b"{\"message\":{\"role\":\"assistant\",\"content\":\"x\",\"tool_calls\":null},\"done\":false}",
    );
    assert_eq!(item, Some(ChatStreamItem { content: "x".to_string(), tool_calls: None, done: false }));
}

#[test]
fn chat_record_without_required_member_is_dropped() {
    assert_eq!(decode_chat_record(b"not json"), None);
    assert_eq!(decode_chat_record(b"{\"done\":true}"), None);
    assert_eq!(decode_chat_record(b"{\"message\":{\"role\":\"a\",\"content\":\"x\"}}"), None);
    assert_eq!(decode_chat_record(b"{\"message\":{\"role\":7,\"content\":\"x\"},\"done\":true}"), None);
    assert_eq!(decode_chat_record(b"{\"message\":\"x\",\"done\":true}"), None);
    assert_eq!(decode_chat_record(b"{\"message\":{\"role\":\"a\"},\"done\":true}"), None);
    assert_eq!(decode_chat_record(b"{\"message\":{\"role\":\"a\",\"content\":\"x\"},\"done\":1}"), None);
    assert_eq!(
        decode_chat_record(b"{\"message\":{\"role\":\"a\",\"content\":\"x\",\"tool_calls\":[{}]},\"done\":true}"),
        None
    );
    assert_eq!(
        decode_chat_record(b"{\"message\":{\"role\":\"a\",\"content\":\"x\",\"tool_calls\":5},\"done\":true}"),
        None
    );
}

#[test]
fn chat_record_with_invalid_utf8_is_dropped() {
    assert_eq!(
        decode_chat_record(b"{\"message\":{\"role\":\"a\",\"content\":\"\xff\"},\"done\":true}"),
        None
    );
}

#[test]
fn malformed_chat_line_is_dropped_and_the_stream_goes_on() {
    let records = vec![
        b"{\"message\":{\"role\":\"assistant\",\"content\":\"a\"},\"done\":false}".to_vec(),
        b"not json".to_vec(),
        b"{\"message\":{\"role\":\"assistant\",\"content\":\"b\"},\"done\":true}".to_vec(),
    ];
    let decoded = decode_chat_records(records);
    assert_eq!(
        decoded.items,
        vec![
            ChatStreamItem { content: "a".to_string(), tool_calls: None, done: false },
            ChatStreamItem { content: "b".to_string(), tool_calls: None, done: true },
        ]
    );
    assert_eq!(decoded.rejected, vec![b"not json".to_vec()]);
    let only_bad = decode_chat_records(vec![b"not json".to_vec()]);
    assert_eq!(only_bad.items, Vec::<ChatStreamItem>::new());
    assert_eq!(only_bad.rejected, vec![b"not json".to_vec()]);
}

#[test]
fn decoding_the_same_record_twice_gives_the_same_event() {
    let chat: &[u8] = b"{\"message\":{\"role\":\"assistant\",\"content\":\"hi\",\"tool_calls\":[{\"function\":{\"name\":\"f\",\"arguments\":[1,null,\"x\"]}}]},\"done\":false}";
    assert_eq!(decode_chat_record(chat), decode_chat_record(chat));
    assert!(decode_chat_record(chat).is_some());
    let pull: &[u8] = b"{\"status\":\"s\",\"total\":3}";
    assert_eq!(decode_pull_record(pull), decode_pull_record(pull));
    assert_eq!(decode_pull_record(b"oops"), decode_pull_record(b"oops"));
}

#[test]
fn one_chunk_with_three_records_gives_three_events() {
    let mut decoder = ChatDecoder::new();
    let items = decoder.push_chunk(
        b"{\"message\":{\"role\":\"assistant\",\"content\":\"a\"},\"done\":false}\n{\"message\":{\"role\":\"assistant\",\"content\":\"b\"},\"done\":false}\n{\"message\":{\"role\":\"assistant\",\"content\":\"c\"},\"done\":true}\n",
    );
    let texts: Vec<&str> = items.items.iter().map(|i| i.content.as_str()).collect();
    assert_eq!(texts, vec!["a", "b", "c"]);
    assert!(items.rejected.is_empty());
    let end = decoder.finish();
    assert!(end.items.is_empty());
    assert!(end.rejected.is_empty());
}

#[test]
fn chat_record_cut_by_a_chunk_boundary() {
    let mut decoder = ChatDecoder::new();
    let first = decoder.push_chunk(b"{\"message\":{\"role\":\"assist");
    assert!(first.items.is_empty() && first.rejected.is_empty());
    let items = decoder.push_chunk(b"ant\",\"content\":\"joined\"},\"done\":false}\n{\"mess").items;
    assert_eq!(items, vec![ChatStreamItem { content: "joined".to_string(), tool_calls: None, done: false }]);
    let last = decoder.push_chunk(b"age\":{\"role\":\"assistant\",\"content\":\"\"},\"done\":true}");
    assert!(last.items.is_empty() && last.rejected.is_empty());
    assert_eq!(
        decoder.finish().items,
        vec![ChatStreamItem { content: String::new(), tool_calls: None, done: true }]
    );
}

#[test]
fn pull_decoder_carries_partial_records() {
    let mut decoder = PullDecoder::new();
    assert!(decoder.push_chunk(b"{\"status\":\"pull").is_empty());
    assert_eq!(decoder.push_chunk(b"ing\"}\nnot json\n\n{\"sta"), vec![status_only("pulling"), status_only("not json")]);
    assert_eq!(decoder.push_chunk(b"tus\":\"done\"}\n"), vec![status_only("done")]);
    assert_eq!(decoder.finish(), None);
    let mut other = PullDecoder::new();
    assert!(other.push_chunk(b"tail").is_empty());
    assert_eq!(other.finish(), Some(status_only("tail")));
}

#[test]
fn chat_response_from_json_tree() {
    let tree = Json::Object(vec![
        ("done".to_string(), Json::Bool(true)),
        (
            "message".to_string(),
            Json::Object(vec![
                ("content".to_string(), Json::Text("hi".to_string())),
                ("role".to_string(), Json::Text("assistant".to_string())),
            ]),
        ),
    ]);
    let response = ChatResponse::from_json(&tree).unwrap();
    assert_eq!(response.message.role, "assistant");
    assert_eq!(response.message.content, "hi");
    assert_eq!(response.message.images, None);
    assert_eq!(response.message.tool_calls, None);
    assert!(response.done);
    let item = ChatStreamItem::from_response(response);
    assert_eq!(item, ChatStreamItem { content: "hi".to_string(), tool_calls: None, done: true });
    assert_eq!(ChatStreamItem::from_parsed(None), None);
    assert_eq!(ChatResponse::from_json(&Json::Null), None);
    assert_eq!(ToolCall::from_json(&Json::Object(vec![])), None);
}

#[test]
fn pull_progress_from_parsed_value() {
    let tree = Json::Object(vec![("status".to_string(), Json::Text("ok".to_string()))]);
    assert_eq!(PullProgress::from_record("ignored".to_string(), Some(tree)), status_only("ok"));
    assert_eq!(PullProgress::from_record("raw".to_string(), None), status_only("raw"));
}

#[test]
fn chat_record_with_images() {
    let item = decode_chat_record(
        b"{\"message\":{\"role\":\"user\",\"content\":\"x\",\"images\":[\"aGk=\"]},\"done\":false}",
    );
    assert_eq!(item, Some(ChatStreamItem { content: "x".to_string(), tool_calls: None, done: false }));
    assert_eq!(
        decode_chat_record(b"{\"message\":{\"role\":\"user\",\"content\":\"x\",\"images\":[1]},\"done\":false}"),
        None
    );
    let tree = Json::Object(vec![
        ("done".to_string(), Json::Bool(false)),
        (
            "message".to_string(),
            Json::Object(vec![
                ("content".to_string(), Json::Text("hi".to_string())),
                ("images".to_string(), Json::Array(vec![Json::Text("aGk=".to_string())])),
                ("role".to_string(), Json::Text("user".to_string())),
            ]),
        ),
    ]);
    assert_eq!(ChatResponse::from_json(&tree).unwrap().message.images, Some(vec!["aGk=".to_string()]));
}

#[test]
fn unterminated_bad_record_is_reported_at_the_end() {
    let mut decoder = ChatDecoder::new();
    let first = decoder.push_chunk(b"oops\nrest");
    assert!(first.items.is_empty());
    assert_eq!(first.rejected, vec![b"oops".to_vec()]);
    let end = decoder.finish();
    assert!(end.items.is_empty());
    assert_eq!(end.rejected, vec![b"rest".to_vec()]);
}

#[test]
fn chat_record_without_role_is_accepted() {
    assert_eq!(
        decode_chat_record(b"{\"message\":{\"content\":\"x\"},\"done\":true}"),
        Some(ChatStreamItem { content: "x".to_string(), tool_calls: None, done: true })
    );
    let tree = Json::Object(vec![
        ("done".to_string(), Json::Bool(true)),
        ("message".to_string(), Json::Object(vec![("content".to_string(), Json::Text("x".to_string()))])),
    ]);
    assert_eq!(ChatResponse::from_json(&tree).unwrap().message.role, "");
}
