//! Decoding of complete records into typed events, and of streamed chunks
//! into the events they complete.

use vstd::prelude::*;
use crate::json::{
    decode_lossy, deep_option, json_of_bytes, json_of_text, lossy_text, parse_bytes, parse_text,
    Json, JsonValue,
};
use crate::lines::{
    concat_chunks, feed_tail, lemma_chunking_invariance, lemma_scan_split, records_view,
    scan_records, scan_tail, LineReassembler,
};
use crate::model::{
    calls_option, calls_view, items_view, progress_view, texts_option, texts_view, CallModel, ChatEvent, ChatResponse,
    ChatStreamItem, Function, Message, MessageModel, PullEvent, PullProgress, ResponseModel,
    ToolCall,
};

verus! {

/// The download event a record stands for: the fields of the parsed object
/// where the record is JSON, each absent where the object lacks it or holds
/// another kind of value; the record's own text as status where it is not.
pub open spec fn pull_event(text: Seq<char>, parsed: Option<JsonValue>) -> PullEvent {
    match parsed {
        Some(v) => PullEvent {
            status: match v.text_member("status"@) {
                Some(s) => s,
                None => Seq::empty(),
            },
            digest: v.text_member("digest"@),
            total: v.unsigned_member("total"@),
            completed: v.unsigned_member("completed"@),
        },
        None => PullEvent { status: text, digest: None, total: None, completed: None },
    }
}

/// The download event of a raw record.
pub open spec fn pull_record_event(line: Seq<u8>) -> PullEvent {
    pull_event(lossy_text(line), json_of_text(lossy_text(line)))
}

/// The tool call an array element stands for, if it is well formed: an
/// object whose `function` member has a string `name` and some `arguments`.
pub open spec fn call_of(item: JsonValue) -> Option<CallModel> {
    match item.member("function"@) {
        Some(f) => match (f.text_member("name"@), f.member("arguments"@)) {
            (Some(name), Some(arguments)) => Some(CallModel { name, arguments }),
            _ => None,
        },
        None => None,
    }
}

/// The tool calls an array stands for, if it is one and each element is
/// well formed.
pub open spec fn calls_of(value: JsonValue) -> Option<Seq<CallModel>> {
    match value {
        JsonValue::Array(items) => if forall|i: int|
            0 <= i < items.len() ==> (#[trigger] call_of(items[i])).is_some() {
            Some(Seq::new(items.len(), |i: int| call_of(items[i]).unwrap()))
        } else {
            None
        },
        _ => None,
    }
}

/// The optional tool calls of a message: none where the member is missing
/// or null. The outer `None` marks a member that is present and malformed.
pub open spec fn optional_calls(member: Option<JsonValue>) -> Option<Option<Seq<CallModel>>> {
    match member {
        None => Some(None),
        Some(JsonValue::Null) => Some(None),
        Some(v) => match calls_of(v) {
            Some(calls) => Some(Some(calls)),
            None => None,
        },
    }
}

/// The strings an array stands for, if it is one and each element is a
/// string.
pub open spec fn texts_of(value: JsonValue) -> Option<Seq<Seq<char>>> {
    match value {
        JsonValue::Array(items) => if forall|i: int|
            0 <= i < items.len() ==> (#[trigger] items[i].text()).is_some() {
            Some(Seq::new(items.len(), |i: int| items[i].text().unwrap()))
        } else {
            None
        },
        _ => None,
    }
}

/// The optional images of a message: none where the member is missing or
/// null. The outer `None` marks a member that is present and malformed.
pub open spec fn optional_texts(member: Option<JsonValue>) -> Option<Option<Seq<Seq<char>>>> {
    match member {
        None => Some(None),
        Some(JsonValue::Null) => Some(None),
        Some(v) => match texts_of(v) {
            Some(texts) => Some(Some(texts)),
            None => None,
        },
    }
}

/// The role of a message: empty where the member is missing. The outer
/// `None` marks a member that is present and no string.
pub open spec fn optional_role(member: Option<JsonValue>) -> Option<Seq<char>> {
    match member {
        None => Some(Seq::empty()),
        Some(v) => v.text(),
    }
}

/// The chat record a parsed value stands for, if it has the required
/// members: `done`, a boolean, and `message`, with a string `content`. The
/// role, the images and the tool calls of the message may be missing; where
/// they are present they must be well formed.
pub open spec fn chat_record(value: JsonValue) -> Option<ResponseModel> {
    match (value.member("message"@), value.member("done"@)) {
        (Some(message), Some(JsonValue::Bool(done))) => match (
            optional_role(message.member("role"@)),
            message.text_member("content"@),
            optional_texts(message.member("images"@)),
            optional_calls(message.member("tool_calls"@)),
        ) {
            (Some(role), Some(content), Some(images), Some(tool_calls)) => Some(
                ResponseModel { message: MessageModel { role, content, images, tool_calls }, done },
            ),
            _ => None,
        },
        _ => None,
    }
}

/// The event delivered for a decoded chat record.
pub open spec fn event_of(record: ResponseModel) -> ChatEvent {
    ChatEvent {
        content: record.message.content,
        tool_calls: record.message.tool_calls,
        done: record.done,
    }
}

/// The chat event a record stands for; nothing where the record is not
/// JSON or lacks a required member.
pub open spec fn chat_event(parsed: Option<JsonValue>) -> Option<ChatEvent> {
    match parsed {
        Some(v) => match chat_record(v) {
            Some(record) => Some(event_of(record)),
            None => None,
        },
        None => None,
    }
}

/// The chat events of a run of records, in order, with the records that
/// stand for no event left out.
pub open spec fn chat_events(records: Seq<Seq<u8>>) -> Seq<ChatEvent>
    decreases records.len(),
{
    if records.len() == 0 {
        Seq::empty()
    } else {
        let earlier = chat_events(records.drop_last());
        match chat_event(json_of_bytes(records.last())) {
            Some(event) => earlier.push(event),
            None => earlier,
        }
    }
}

/// The records of a run that stand for no chat event, in order.
pub open spec fn rejected_records(records: Seq<Seq<u8>>) -> Seq<Seq<u8>>
    decreases records.len(),
{
    if records.len() == 0 {
        Seq::empty()
    } else {
        let earlier = rejected_records(records.drop_last());
        match chat_event(json_of_bytes(records.last())) {
            Some(_) => earlier,
            None => earlier.push(records.last()),
        }
    }
}

/// The download events of a run of records, one for each, in order.
pub open spec fn pull_events(records: Seq<Seq<u8>>) -> Seq<PullEvent> {
    Seq::new(records.len(), |i: int| pull_record_event(records[i]))
}

/// The view of a chat record that may be absent.
pub open spec fn response_option(r: Option<ChatResponse>) -> Option<ResponseModel> {
    match r {
        Some(x) => Some(x@),
        None => None,
    }
}

/// The view of a chat event that may be absent.
pub open spec fn item_option(r: Option<ChatStreamItem>) -> Option<ChatEvent> {
    match r {
        Some(x) => Some(x@),
        None => None,
    }
}

impl PullProgress {
    /// Builds the event for one record from its text and from what parsing
    /// that text gave.
    pub fn from_record(text: String, parsed: Option<Json>) -> (r: PullProgress)
        ensures
            r@ == pull_event(text@, deep_option(parsed)),
    {
        match parsed {
            Some(json) => {
                let status = match json.text_member("status") {
                    Some(s) => s,
                    None => String::new(),
                };
                PullProgress {
                    status,
                    digest: json.text_member("digest"),
                    total: json.unsigned_member("total"),
                    completed: json.unsigned_member("completed"),
                }
            },
            None => PullProgress { status: text, digest: None, total: None, completed: None },
        }
    }
}

/// Decodes one record of a download stream. A record that is not JSON is
/// kept as a status line.
pub fn decode_pull_record(line: &[u8]) -> (r: PullProgress)
    ensures
        r@ == pull_record_event(line@),
{
    let text = decode_lossy(line);
    let parsed = parse_text(text.as_str());
    PullProgress::from_record(text, parsed)
}

impl ToolCall {
    /// Reads one tool call from an element of a `tool_calls` array.
    pub fn from_json(item: &Json) -> (r: Option<ToolCall>)
        ensures
            match r {
                Some(call) => call_of(item.deep()) == Some(call@),
                None => call_of(item.deep()).is_none(),
            },
    {
        match item.get("function") {
            Some(f) => {
                let name = f.text_member("name");
                let arguments = f.get("arguments");
                match (name, arguments) {
                    (Some(name), Some(arguments)) => Some(
                        ToolCall { function: Function { name, arguments: arguments.duplicate() } },
                    ),
                    _ => None,
                }
            },
            None => None,
        }
    }
}

/// Reads a `tool_calls` array: every element, in order, or nothing if the
/// value is no array or one element is malformed.
pub fn tool_calls_from_json(value: &Json) -> (r: Option<Vec<ToolCall>>)
    ensures
        calls_option(r) == calls_of(value.deep()),
{
    match value {
        Json::Array(items) => {
            let ghost model = value.deep()->Array_0;
            let mut calls: Vec<ToolCall> = Vec::new();
            let mut i: usize = 0;
            while i < items.len()
                invariant
                    0 <= i <= items.len(),
                    value.deep() == JsonValue::Array(model),
                    model.len() == items.len(),
                    forall|k: int| 0 <= k < items.len() ==> (#[trigger] model[k]) == items[k].deep(),
                    calls.len() == i,
                    forall|k: int|
                        0 <= k < i ==> (#[trigger] call_of(model[k])) == Some(calls[k]@),
                decreases items.len() - i,
            {
                assert(model[i as int] == items[i as int].deep());
                match ToolCall::from_json(&items[i]) {
                    Some(call) => {
                        calls.push(call);
                    },
                    None => {
                        return None;
                    },
                }
                i = i + 1;
            }
            assert(calls_of(value.deep()).is_some());
            assert(calls_view(calls@) =~= calls_of(value.deep()).unwrap());
            Some(calls)
        },
        _ => None,
    }
}

/// Reads an array of strings: every element, in order, or nothing if the
/// value is no array or one element is no string.
pub fn texts_from_json(value: &Json) -> (r: Option<Vec<String>>)
    ensures
        texts_option(r) == texts_of(value.deep()),
{
    match value {
        Json::Array(items) => {
            let ghost model = value.deep()->Array_0;
            let mut texts: Vec<String> = Vec::new();
            let mut i: usize = 0;
            while i < items.len()
                invariant
                    0 <= i <= items.len(),
                    value.deep() == JsonValue::Array(model),
                    model.len() == items.len(),
                    forall|k: int| 0 <= k < items.len() ==> (#[trigger] model[k]) == items[k].deep(),
                    texts.len() == i,
                    forall|k: int| 0 <= k < i ==> (#[trigger] model[k].text()) == Some(texts[k]@),
                decreases items.len() - i,
            {
                assert(model[i as int] == items[i as int].deep());
                match items[i].as_text() {
                    Some(text) => {
                        texts.push(text);
                    },
                    None => {
                        return None;
                    },
                }
                i = i + 1;
            }
            assert(texts_of(value.deep()).is_some());
            assert(texts_view(texts@) =~= texts_of(value.deep()).unwrap());
            Some(texts)
        },
        _ => None,
    }
}

impl ChatResponse {
    /// Reads a chat record from a parsed value. Members beyond those of a
    /// message and `done` are ignored.
    pub fn from_json(value: &Json) -> (r: Option<ChatResponse>)
        ensures
            response_option(r) == chat_record(value.deep()),
    {
        let message = match value.get("message") {
            Some(m) => m,
            None => {
                return None;
            },
        };
        let done = match value.get("done") {
            Some(d) => match d.as_bool() {
                Some(b) => b,
                None => {
                    return None;
                },
            },
            None => {
                return None;
            },
        };
        let role = match message.get("role") {
            None => String::new(),
            Some(v) => match v.as_text() {
                Some(s) => s,
                None => {
                    return None;
                },
            },
        };
        let content = match message.text_member("content") {
            Some(s) => s,
            None => {
                return None;
            },
        };
        let images = match message.get("images") {
            None => None,
            Some(Json::Null) => None,
            Some(v) => match texts_from_json(v) {
                Some(texts) => Some(texts),
                None => {
                    return None;
                },
            },
        };
        let tool_calls = match message.get("tool_calls") {
            None => None,
            Some(Json::Null) => None,
            Some(v) => match tool_calls_from_json(v) {
                Some(calls) => Some(calls),
                None => {
                    return None;
                },
            },
        };
        Some(ChatResponse { message: Message { role, content, images, tool_calls }, done })
    }
}

impl ChatStreamItem {
    /// The event delivered for a decoded record.
    pub fn from_response(response: ChatResponse) -> (r: ChatStreamItem)
        ensures
            r@ == event_of(response@),
    {
        ChatStreamItem {
            content: response.message.content,
            tool_calls: response.message.tool_calls,
            done: response.done,
        }
    }

    /// The event for one record, from what parsing the record gave: nothing
    /// where it did not parse or lacks a required member.
    pub fn from_parsed(parsed: Option<Json>) -> (r: Option<ChatStreamItem>)
        ensures
            item_option(r) == chat_event(deep_option(parsed)),
    {
        match parsed {
            Some(json) => match ChatResponse::from_json(&json) {
                Some(response) => Some(ChatStreamItem::from_response(response)),
                None => None,
            },
            None => None,
        }
    }
}

/// Decodes one record of a chat stream. A record that is not JSON, or that
/// lacks a required member, gives no event.
pub fn decode_chat_record(line: &[u8]) -> (r: Option<ChatStreamItem>)
    ensures
        item_option(r) == chat_event(json_of_bytes(line@)),
{
    ChatStreamItem::from_parsed(parse_bytes(line))
}

/// What a run of chat records decodes to: the events, and the records that
/// gave none, kept for the caller's diagnostics.
#[derive(Debug, PartialEq)]
pub struct DecodedChat {
    pub items: Vec<ChatStreamItem>,
    pub rejected: Vec<Vec<u8>>,
}

/// Decodes a run of chat records into the events they stand for, in order.
/// A record that gives no event is set aside and the next one is decoded.
pub fn decode_chat_records(records: Vec<Vec<u8>>) -> (r: DecodedChat)
    ensures
        items_view(r.items@) == chat_events(records_view(records@)),
        records_view(r.rejected@) == rejected_records(records_view(records@)),
{
    let mut items: Vec<ChatStreamItem> = Vec::new();
    let mut rejected: Vec<Vec<u8>> = Vec::new();
    let mut i: usize = 0;
    let ghost all = records_view(records@);
    assert(all.take(0) =~= Seq::<Seq<u8>>::empty());
    assert(items_view(items@) =~= Seq::<ChatEvent>::empty());
    assert(records_view(rejected@) =~= Seq::<Seq<u8>>::empty());
    while i < records.len()
        invariant
            0 <= i <= records.len(),
            all == records_view(records@),
            items_view(items@) == chat_events(all.take(i as int)),
            records_view(rejected@) == rejected_records(all.take(i as int)),
        decreases records.len() - i,
    {
        proof {
            assert(all.take(i + 1).drop_last() =~= all.take(i as int));
            assert(all.take(i + 1).last() == records[i as int]@);
        }
        match decode_chat_record(records[i].as_slice()) {
            Some(item) => {
                let ghost before = items@;
                items.push(item);
                assert(items_view(items@) =~= items_view(before).push(item@));
            },
            None => {
                let ghost before = rejected@;
                let line = crate::lines::copy_record(&records[i]);
                rejected.push(line);
                assert(records_view(rejected@) =~= records_view(before).push(line@));
            },
        }
        i = i + 1;
    }
    assert(all.take(records.len() as int) =~= all);
    DecodedChat { items, rejected }
}

/// Decodes a run of download records, one event for each, in order.
pub fn decode_pull_records(records: &Vec<Vec<u8>>) -> (events: Vec<PullProgress>)
    ensures
        progress_view(events@) == pull_events(records_view(records@)),
{
    let mut events: Vec<PullProgress> = Vec::new();
    let mut i: usize = 0;
    while i < records.len()
        invariant
            0 <= i <= records.len(),
            events.len() == i,
            forall|k: int| 0 <= k < i ==> (#[trigger] events[k])@ == pull_record_event(records[k]@),
        decreases records.len() - i,
    {
        events.push(decode_pull_record(records[i].as_slice()));
        i = i + 1;
    }
    assert(progress_view(events@) =~= pull_events(records_view(records@)));
    events
}

/// The decoder of one chat response body: takes the body chunk by chunk and
/// hands out the events that each chunk completes.
pub struct ChatDecoder {
    lines: LineReassembler,
}

impl View for ChatDecoder {
    type V = Seq<u8>;

    /// The bytes of the record that is still incomplete.
    closed spec fn view(&self) -> Seq<u8> {
        self.lines@
    }
}

impl ChatDecoder {
    /// A decoder at the start of a body.
    pub fn new() -> (r: Self)
        ensures
            r@ == Seq::<u8>::empty(),
    {
        ChatDecoder { lines: LineReassembler::new() }
    }

    /// Takes the next chunk. The result holds one event for each record the
    /// chunk completes and that decodes, in order, and the completed records
    /// that did not decode; both are empty where the chunk completes none.
    pub fn push_chunk(&mut self, chunk: &[u8]) -> (r: DecodedChat)
        ensures
            items_view(r.items@) == chat_events(scan_records(old(self)@, chunk@)),
            records_view(r.rejected@) == rejected_records(scan_records(old(self)@, chunk@)),
            final(self)@ == scan_tail(old(self)@, chunk@),
    {
        let records = self.lines.feed(chunk);
        decode_chat_records(records)
    }

    /// Ends the body: decodes what was left without a final newline.
    pub fn finish(self) -> (r: DecodedChat)
        ensures
            items_view(r.items@) == chat_events(
                if self@.len() == 0 {
                    Seq::empty()
                } else {
                    Seq::empty().push(self@)
                },
            ),
            records_view(r.rejected@) == rejected_records(
                if self@.len() == 0 {
                    Seq::empty()
                } else {
                    Seq::empty().push(self@)
                },
            ),
    {
        let mut records: Vec<Vec<u8>> = Vec::new();
        match self.lines.finish() {
            Some(line) => {
                records.push(line);
                assert(records_view(records@) =~= Seq::empty().push(line@));
            },
            None => {
                assert(records_view(records@) =~= Seq::<Seq<u8>>::empty());
            },
        }
        decode_chat_records(records)
    }
}

/// The decoder of one download response body.
pub struct PullDecoder {
    lines: LineReassembler,
}

impl View for PullDecoder {
    type V = Seq<u8>;

    /// The bytes of the record that is still incomplete.
    closed spec fn view(&self) -> Seq<u8> {
        self.lines@
    }
}

impl PullDecoder {
    /// A decoder at the start of a body.
    pub fn new() -> (r: Self)
        ensures
            r@ == Seq::<u8>::empty(),
    {
        PullDecoder { lines: LineReassembler::new() }
    }

    /// Takes the next chunk. The result holds one event for each record the
    /// chunk completes, in order.
    pub fn push_chunk(&mut self, chunk: &[u8]) -> (events: Vec<PullProgress>)
        ensures
            progress_view(events@) == pull_events(scan_records(old(self)@, chunk@)),
            final(self)@ == scan_tail(old(self)@, chunk@),
    {
        let records = self.lines.feed(chunk);
        decode_pull_records(&records)
    }

    /// Ends the body: decodes what was left without a final newline.
    pub fn finish(self) -> (last: Option<PullProgress>)
        ensures
            self@.len() == 0 ==> last.is_none(),
            self@.len() > 0 ==> last.is_some() && last.unwrap()@ == pull_record_event(self@),
    {
        match self.lines.finish() {
            Some(line) => Some(decode_pull_record(line.as_slice())),
            None => None,
        }
    }
}

/// The events of two runs of records, one after the other, are the events
/// of the first run followed by those of the second.
pub proof fn lemma_chat_events_concat(first: Seq<Seq<u8>>, second: Seq<Seq<u8>>)
    ensures
        chat_events(first + second) == chat_events(first) + chat_events(second),
    decreases second.len(),
{
    if second.len() == 0 {
        assert(first + second =~= first);
        assert(chat_events(first) + chat_events(second) =~= chat_events(first));
    } else {
        lemma_chat_events_concat(first, second.drop_last());
        assert((first + second).drop_last() =~= first + second.drop_last());
        assert((first + second).last() == second.last());
        let earlier = chat_events(first) + chat_events(second.drop_last());
        match chat_event(json_of_bytes(second.last())) {
            Some(event) => {
                assert(earlier.push(event) =~= chat_events(first) + chat_events(
                    second.drop_last(),
                ).push(event));
            },
            None => {},
        }
    }
}

/// A chat record that stands for no event leaves no trace: the records
/// before it and after it give the events they give without it.
pub proof fn lemma_dropped_record_leaves_no_event(
    before: Seq<Seq<u8>>,
    dropped: Seq<u8>,
    after: Seq<Seq<u8>>,
)
    requires
        chat_event(json_of_bytes(dropped)).is_none(),
    ensures
        chat_events(before.push(dropped) + after) == chat_events(before + after),
{
    assert(before.push(dropped).drop_last() =~= before);
    lemma_chat_events_concat(before.push(dropped), after);
    lemma_chat_events_concat(before, after);
}

/// A download record that is not JSON becomes an event whose status is the
/// record's text, with every other field unknown.
pub proof fn lemma_unparsed_pull_record_is_status(line: Seq<u8>)
    requires
        json_of_text(lossy_text(line)).is_none(),
    ensures
        pull_record_event(line) == (PullEvent {
            status: lossy_text(line),
            digest: None,
            total: None,
            completed: None,
        }),
{
}

/// Decoding is a function of the record alone: equal records stand for
/// equal events, on both kinds of stream.
pub proof fn lemma_decoding_is_pure(first: Seq<u8>, second: Seq<u8>)
    requires
        first == second,
    ensures
        chat_event(json_of_bytes(first)) == chat_event(json_of_bytes(second)),
        pull_record_event(first) == pull_record_event(second),
{
}

/// The events handed out while a chat body arrives chunk by chunk, starting
/// with `carry` buffered: what each chunk gives, joined in order.
pub open spec fn streamed_chat_events(carry: Seq<u8>, chunks: Seq<Seq<u8>>) -> Seq<ChatEvent>
    decreases chunks.len(),
{
    if chunks.len() == 0 {
        Seq::empty()
    } else {
        streamed_chat_events(carry, chunks.drop_last()) + chat_events(
            scan_records(feed_tail(carry, chunks.drop_last()), chunks.last()),
        )
    }
}

/// However the body is cut into chunks, the events handed out are those of
/// the records of the whole body, in order.
pub proof fn lemma_streamed_events_ignore_chunking(carry: Seq<u8>, chunks: Seq<Seq<u8>>)
    ensures
        streamed_chat_events(carry, chunks) == chat_events(
            scan_records(carry, concat_chunks(chunks)),
        ),
    decreases chunks.len(),
{
    if chunks.len() != 0 {
        let earlier = chunks.drop_last();
        lemma_streamed_events_ignore_chunking(carry, earlier);
        lemma_chunking_invariance(carry, earlier);
        lemma_scan_split(carry, concat_chunks(earlier), chunks.last());
        lemma_chat_events_concat(
            scan_records(carry, concat_chunks(earlier)),
            scan_records(scan_tail(carry, concat_chunks(earlier)), chunks.last()),
        );
    }
}

/// The download events handed out while a body arrives chunk by chunk,
/// starting with `carry` buffered: what each chunk gives, joined in order.
pub open spec fn streamed_pull_events(carry: Seq<u8>, chunks: Seq<Seq<u8>>) -> Seq<PullEvent>
    decreases chunks.len(),
{
    if chunks.len() == 0 {
        Seq::empty()
    } else {
        streamed_pull_events(carry, chunks.drop_last()) + pull_events(
            scan_records(feed_tail(carry, chunks.drop_last()), chunks.last()),
        )
    }
}

/// However a download body is cut into chunks, the events handed out are
/// those of the records of the whole body, in order.
pub proof fn lemma_streamed_progress_ignores_chunking(carry: Seq<u8>, chunks: Seq<Seq<u8>>)
    ensures
        streamed_pull_events(carry, chunks) == pull_events(
            scan_records(carry, concat_chunks(chunks)),
        ),
    decreases chunks.len(),
{
    if chunks.len() == 0 {
        assert(pull_events(scan_records(carry, concat_chunks(chunks))) =~= Seq::<
            PullEvent,
        >::empty());
    } else {
        let earlier = chunks.drop_last();
        lemma_streamed_progress_ignores_chunking(carry, earlier);
        lemma_chunking_invariance(carry, earlier);
        lemma_scan_split(carry, concat_chunks(earlier), chunks.last());
        let first = scan_records(carry, concat_chunks(earlier));
        let second = scan_records(scan_tail(carry, concat_chunks(earlier)), chunks.last());
        assert(pull_events(first + second) =~= pull_events(first) + pull_events(second));
    }
}

} // verus!
