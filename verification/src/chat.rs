//! Aggregation of chat events into one reply, and the attachment of encoded
//! images to an outgoing conversation.

use vstd::prelude::*;
use vstd::string::StringExecFns;
use crate::model::{
    calls_option, duplicate_calls_option, items_view, messages_view, texts_view, CallModel,
    ChatEvent, ChatStreamItem, Message, MessageModel, ToolCall,
};

verus! {

/// The view of a reply under aggregation.
pub struct Reply {
    pub text: Seq<char>,
    pub tool_calls: Option<Seq<CallModel>>,
    pub done: bool,
}

/// The reply before any event.
pub open spec fn empty_reply() -> Reply {
    Reply { text: Seq::empty(), tool_calls: None, done: false }
}

/// The reply after one more event: its text appended, its tool calls in
/// place of earlier ones where it carries any, its done flag taken over. A
/// reply that is done takes no more events.
pub open spec fn absorb_event(reply: Reply, event: ChatEvent) -> Reply {
    if reply.done {
        reply
    } else {
        Reply {
            text: reply.text + event.content,
            tool_calls: if event.tool_calls.is_some() {
                event.tool_calls
            } else {
                reply.tool_calls
            },
            done: event.done,
        }
    }
}

/// The reply that a run of events aggregates to.
pub open spec fn aggregate_events(events: Seq<ChatEvent>) -> Reply
    decreases events.len(),
{
    if events.len() == 0 {
        empty_reply()
    } else {
        absorb_event(aggregate_events(events.drop_last()), events.last())
    }
}

/// A done event is terminal: whatever follows a run of events that reached
/// done leaves the reply as it was.
pub proof fn lemma_done_is_terminal(events: Seq<ChatEvent>, more: Seq<ChatEvent>)
    requires
        aggregate_events(events).done,
    ensures
        aggregate_events(events + more) == aggregate_events(events),
    decreases more.len(),
{
    if more.len() == 0 {
        assert(events + more =~= events);
    } else {
        lemma_done_is_terminal(events, more.drop_last());
        assert((events + more).drop_last() =~= events + more.drop_last());
    }
}

/// Until a done event arrives the reply's text is the text so far followed
/// by the new event's text: deltas are joined in the order of emission.
pub proof fn lemma_text_grows_in_order(events: Seq<ChatEvent>, next: ChatEvent)
    requires
        !aggregate_events(events).done,
    ensures
        aggregate_events(events.push(next)).text == aggregate_events(events).text + next.content,
        aggregate_events(events.push(next)).done == next.done,
{
    assert(events.push(next).drop_last() =~= events);
}

/// A chat reply under aggregation.
#[derive(Debug, PartialEq)]
pub struct ChatAggregate {
    pub text: String,
    pub tool_calls: Option<Vec<ToolCall>>,
    pub done: bool,
}

impl View for ChatAggregate {
    type V = Reply;

    open spec fn view(&self) -> Reply {
        Reply { text: self.text@, tool_calls: calls_option(self.tool_calls), done: self.done }
    }
}

impl ChatAggregate {
    /// The reply before any event.
    pub fn new() -> (r: Self)
        ensures
            r@ == empty_reply(),
    {
        ChatAggregate { text: String::new(), tool_calls: None, done: false }
    }

    /// Takes the next event of the stream.
    pub fn absorb(&mut self, item: ChatStreamItem)
        ensures
            final(self)@ == absorb_event(old(self)@, item@),
    {
        if !self.done {
            let mut text = String::new();
            core::mem::swap(&mut text, &mut self.text);
            text.append(item.content.as_str());
            self.text = text;
            match item.tool_calls {
                Some(calls) => {
                    self.tool_calls = Some(calls);
                },
                None => {},
            }
            self.done = item.done;
        }
    }

    /// The full text and the tool calls that stood last.
    pub fn into_parts(self) -> (r: (String, Option<Vec<ToolCall>>))
        ensures
            r.0@ == self@.text,
            calls_option(r.1) == self@.tool_calls,
    {
        (self.text, self.tool_calls)
    }
}

/// Aggregates a run of events: every text delta up to and including the
/// first done event, joined in order, and the last tool calls seen.
pub fn aggregate_chat(items: &Vec<ChatStreamItem>) -> (r: ChatAggregate)
    ensures
        r@ == aggregate_events(items_view(items@)),
{
    let mut reply = ChatAggregate::new();
    let mut i: usize = 0;
    let ghost all = items_view(items@);
    assert(all.take(0) =~= Seq::<ChatEvent>::empty());
    while i < items.len()
        invariant
            0 <= i <= items.len(),
            all == items_view(items@),
            reply@ == aggregate_events(all.take(i as int)),
        decreases items.len() - i,
    {
        proof {
            assert(all.take(i + 1).drop_last() =~= all.take(i as int));
            assert(all.take(i + 1).last() == items[i as int]@);
        }
        let item = ChatStreamItem {
            content: items[i].content.clone(),
            tool_calls: duplicate_calls_option(&items[i].tool_calls),
            done: items[i].done,
        };
        reply.absorb(item);
        i = i + 1;
    }
    assert(all.take(items.len() as int) =~= all);
    reply
}

/// The text reported when the transport fails in the middle of a stream.
pub open spec fn stream_failure(cause: Seq<char>) -> Seq<char> {
    "Stream error: "@ + cause
}

/// The view of what a stream delivers: an event, or the transport's
/// failure text.
pub open spec fn delivery_view(item: Result<ChatStreamItem, String>) -> Result<
    ChatEvent,
    Seq<char>,
> {
    match item {
        Ok(event) => Ok(event@),
        Err(cause) => Err(cause@),
    }
}

/// The views of a run of deliveries.
pub open spec fn deliveries_view(items: Seq<Result<ChatStreamItem, String>>) -> Seq<
    Result<ChatEvent, Seq<char>>,
> {
    Seq::new(items.len(), |i: int| delivery_view(items[i]))
}

/// Whether an outcome is final: a failure, or a reply that is done.
pub open spec fn is_settled(outcome: Result<Reply, Seq<char>>) -> bool {
    match outcome {
        Ok(reply) => reply.done,
        Err(_) => true,
    }
}

/// The outcome of a run of deliveries: the reply aggregated up to the first
/// done event or to the end of the run, or the failure text of a transport
/// failure that came before any done event.
pub open spec fn stream_outcome(items: Seq<Result<ChatEvent, Seq<char>>>) -> Result<
    Reply,
    Seq<char>,
>
    decreases items.len(),
{
    if items.len() == 0 {
        Ok(empty_reply())
    } else {
        let earlier = stream_outcome(items.drop_last());
        match earlier {
            Err(_) => earlier,
            Ok(reply) => if reply.done {
                earlier
            } else {
                match items.last() {
                    Ok(event) => Ok(absorb_event(reply, event)),
                    Err(cause) => Err(stream_failure(cause)),
                }
            },
        }
    }
}

/// A settled outcome stays: nothing delivered after a done event or after
/// a transport failure changes it.
pub proof fn lemma_settled_outcome_stays(
    items: Seq<Result<ChatEvent, Seq<char>>>,
    more: Seq<Result<ChatEvent, Seq<char>>>,
)
    requires
        is_settled(stream_outcome(items)),
    ensures
        stream_outcome(items + more) == stream_outcome(items),
    decreases more.len(),
{
    if more.len() == 0 {
        assert(items + more =~= items);
    } else {
        lemma_settled_outcome_stays(items, more.drop_last());
        assert((items + more).drop_last() =~= items + more.drop_last());
    }
}

/// The failure text for a transport failure with this cause.
pub fn stream_error(cause: &str) -> (r: String)
    ensures
        r@ == stream_failure(cause@),
{
    let mut text = "Stream error: ".to_owned();
    text.append(cause);
    text
}

/// The view of an outcome.
pub open spec fn outcome_view(outcome: Result<ChatAggregate, String>) -> Result<Reply, Seq<char>> {
    match outcome {
        Ok(reply) => Ok(reply@),
        Err(text) => Err(text@),
    }
}

/// Aggregates what a stream delivered: the reply up to the first done event
/// or to the end of the stream. A transport failure that comes first ends
/// the aggregation with its failure text.
pub fn aggregate_stream(items: &Vec<Result<ChatStreamItem, String>>) -> (r: Result<
    ChatAggregate,
    String,
>)
    ensures
        outcome_view(r) == stream_outcome(deliveries_view(items@)),
{
    let mut reply = ChatAggregate::new();
    let mut i: usize = 0;
    let ghost all = deliveries_view(items@);
    assert(all.take(0) =~= Seq::<Result<ChatEvent, Seq<char>>>::empty());
    while i < items.len()
        invariant
            0 <= i <= items.len(),
            all == deliveries_view(items@),
            stream_outcome(all.take(i as int)) == Ok::<Reply, Seq<char>>(reply@),
            !reply@.done,
        decreases items.len() - i,
    {
        proof {
            assert(all.take(i + 1).drop_last() =~= all.take(i as int));
            assert(all.take(i + 1).last() == delivery_view(items[i as int]));
            assert(all =~= all.take(i + 1) + all.skip(i + 1));
        }
        match &items[i] {
            Ok(event) => {
                let item = ChatStreamItem {
                    content: event.content.clone(),
                    tool_calls: duplicate_calls_option(&event.tool_calls),
                    done: event.done,
                };
                reply.absorb(item);
                if reply.done {
                    proof {
                        lemma_settled_outcome_stays(all.take(i + 1), all.skip(i + 1));
                    }
                    return Ok(reply);
                }
            },
            Err(cause) => {
                proof {
                    lemma_settled_outcome_stays(all.take(i + 1), all.skip(i + 1));
                }
                return Err(stream_error(cause.as_str()));
            },
        }
        i = i + 1;
    }
    assert(all.take(items.len() as int) =~= all);
    Ok(reply)
}

/// The standard padded base64 text of a byte string, as
/// `base64::engine::general_purpose::STANDARD` encodes it.
pub uninterp spec fn base64_standard(bytes: Seq<u8>) -> Seq<char>;

/// Whether the encoder can size its output for an input of this length.
pub open spec fn encodable_len(len: nat) -> bool {
    len / 3 * 4 + 4 <= usize::MAX
}

/// Calls `Engine::encode` on `base64::engine::general_purpose::STANDARD`.
/// Trusted: the text is a function of the bytes alone, named
/// `base64_standard`. The encoder panics where the encoded length does not
/// fit a `usize`, which the precondition rules out.
#[verifier::external_body]
pub(crate) fn base64_encode(bytes: &[u8]) -> (r: String)
    requires
        encodable_len(bytes@.len()),
    ensures
        r@ == base64_standard(bytes@),
{
    base64::Engine::encode(&base64::engine::general_purpose::STANDARD, bytes)
}

/// The encoded text of each file of a list.
pub open spec fn encoded_files(files: Seq<Vec<u8>>) -> Seq<Seq<char>> {
    Seq::new(files.len(), |i: int| base64_standard(files[i]@))
}

/// Encodes the contents of each image file, in order.
pub fn encode_images(files: &Vec<Vec<u8>>) -> (r: Vec<String>)
    requires
        forall|i: int| 0 <= i < files.len() ==> encodable_len((#[trigger] files[i])@.len()),
    ensures
        texts_view(r@) == encoded_files(files@),
{
    let mut encoded: Vec<String> = Vec::new();
    let mut i: usize = 0;
    while i < files.len()
        invariant
            0 <= i <= files.len(),
            encoded.len() == i,
            forall|k: int| 0 <= k < files.len() ==> encodable_len((#[trigger] files[k])@.len()),
            forall|k: int| 0 <= k < i ==> (#[trigger] encoded[k])@ == base64_standard(files[k]@),
        decreases files.len() - i,
    {
        encoded.push(base64_encode(files[i].as_slice()));
        i = i + 1;
    }
    assert(texts_view(encoded@) =~= encoded_files(files@));
    encoded
}

/// A conversation with `images` attached to its last message and to no
/// other; an empty conversation stays empty.
pub open spec fn with_images(messages: Seq<MessageModel>, images: Seq<Seq<char>>) -> Seq<
    MessageModel,
> {
    if messages.len() == 0 {
        messages
    } else {
        messages.update(
            messages.len() - 1,
            MessageModel { images: Some(images), ..messages.last() },
        )
    }
}

/// Copies a conversation and attaches the encoded images to its last
/// message. Every other message, and every other field of the last one, is
/// as in the conversation given, which is left untouched.
pub fn attach_images(messages: &[Message], images: Vec<String>) -> (r: Vec<Message>)
    ensures
        messages_view(r@) == with_images(messages_view(messages@), texts_view(images@)),
{
    let mut copy: Vec<Message> = Vec::new();
    let mut i: usize = 0;
    while i < messages.len()
        invariant
            0 <= i <= messages.len(),
            copy.len() == i,
            forall|k: int| 0 <= k < i ==> (#[trigger] copy[k])@ == messages[k]@,
        decreases messages.len() - i,
    {
        copy.push(messages[i].duplicate());
        i = i + 1;
    }
    match copy.pop() {
        Some(last) => {
            let changed = Message {
                role: last.role,
                content: last.content,
                images: Some(images),
                tool_calls: last.tool_calls,
            };
            copy.push(changed);
        },
        None => {},
    }
    assert(messages_view(copy@) =~= with_images(
        messages_view(messages@),
        texts_view(images@),
    ));
    copy
}

/// Encodes the image files and attaches them to the last message of a copy
/// of the conversation.
pub fn attach_image_files(messages: &[Message], files: &Vec<Vec<u8>>) -> (r: Vec<Message>)
    requires
        forall|i: int| 0 <= i < files.len() ==> encodable_len((#[trigger] files[i])@.len()),
    ensures
        messages_view(r@) == with_images(messages_view(messages@), encoded_files(files@)),
{
    attach_images(messages, encode_images(files))
}

} // verus!
