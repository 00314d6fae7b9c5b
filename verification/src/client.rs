//! The client's own state: its endpoint, its model and its registered
//! tools, with the dispatch of tool calls to their handlers.

use vstd::prelude::*;
use crate::json::Json;
use crate::model::{
    calls_view, messages_view, texts_view, CallModel, Message, MessageModel, ToolCall,
};

verus! {

/// What a tool does: given the argument tree of a call, produce text.
pub trait ToolHandler {
    fn call(&self, arguments: &Json) -> String;
}

/// A named capability that the model may ask to have run.
pub struct Tool<H: ToolHandler> {
    pub name: String,
    pub description: String,
    pub parameters: Json,
    pub function: H,
}

/// A client for one server endpoint and one model.
pub struct OllamaClient<H: ToolHandler> {
    pub endpoint: String,
    pub model: String,
    pub tools: Vec<Tool<H>>,
}

/// The position of the first name equal to `name` at or after `from`, or
/// the number of names if there is none.
pub open spec fn first_named(names: Seq<Seq<char>>, name: Seq<char>, from: int) -> int
    decreases names.len() - from,
{
    if from >= names.len() {
        names.len() as int
    } else if names[from] == name {
        from
    } else {
        first_named(names, name, from + 1)
    }
}

/// Whether a tool of exactly this name is registered.
pub open spec fn is_registered(names: Seq<Seq<char>>, name: Seq<char>) -> bool {
    first_named(names, name, 0) < names.len()
}

/// One decision of a dispatch: which call goes to which registered tool.
#[derive(Debug, PartialEq)]
pub struct Dispatch {
    pub call: usize,
    pub tool: usize,
}

/// For each call that names a registered tool, in the order of the calls,
/// the position of the call and the position of the first tool of that
/// name. Calls that name no registered tool have no entry.
pub open spec fn dispatch_targets(names: Seq<Seq<char>>, calls: Seq<CallModel>) -> Seq<(int, int)>
    decreases calls.len(),
{
    if calls.len() == 0 {
        Seq::empty()
    } else {
        let earlier = dispatch_targets(names, calls.drop_last());
        if is_registered(names, calls.last().name) {
            earlier.push((calls.len() - 1, first_named(names, calls.last().name, 0)))
        } else {
            earlier
        }
    }
}

/// The decisions of a plan as pairs of positions.
pub open spec fn plan_view(plan: Seq<Dispatch>) -> Seq<(int, int)> {
    Seq::new(plan.len(), |i: int| (plan[i].call as int, plan[i].tool as int))
}

/// Every decision of a dispatch names a call and a tool that exist.
pub proof fn lemma_dispatch_in_range(names: Seq<Seq<char>>, calls: Seq<CallModel>)
    ensures
        dispatch_targets(names, calls).len() <= calls.len(),
        forall|k: int|
            0 <= k < dispatch_targets(names, calls).len() ==> {
                let target = #[trigger] dispatch_targets(names, calls)[k];
                &&& 0 <= target.0 < calls.len()
                &&& 0 <= target.1 < names.len()
                &&& names[target.1] == calls[target.0].name
            },
    decreases calls.len(),
{
    if calls.len() != 0 {
        lemma_dispatch_in_range(names, calls.drop_last());
        lemma_first_named(names, calls.last().name, 0);
    }
}

/// Where a name is registered, the first position found holds it.
pub proof fn lemma_first_named(names: Seq<Seq<char>>, name: Seq<char>, from: int)
    requires
        0 <= from,
    ensures
        from <= first_named(names, name, from) || names.len() < from,
        first_named(names, name, from) < names.len() ==> names[first_named(names, name, from)]
            == name,
    decreases names.len() - from,
{
    if from < names.len() && names[from] != name {
        lemma_first_named(names, name, from + 1);
    }
}

/// The messages that carry these answers, one for each, in order.
pub open spec fn tool_replies(answers: Seq<Seq<char>>) -> Seq<MessageModel> {
    Seq::new(answers.len(), |i: int| tool_reply(answers[i]))
}

/// The message that carries a tool's answer back to the model.
pub open spec fn tool_reply(content: Seq<char>) -> MessageModel {
    MessageModel { role: "tool"@, content, images: None, tool_calls: None }
}

/// Wraps a tool's answer in a message with the role `tool`.
pub fn tool_message(content: String) -> (r: Message)
    ensures
        r@ == tool_reply(content@),
{
    Message { role: "tool".to_owned(), content, images: None, tool_calls: None }
}

impl<H: ToolHandler> OllamaClient<H> {
    /// The names of the registered tools, in the order of registration.
    pub open spec fn tool_names(&self) -> Seq<Seq<char>> {
        Seq::new(self.tools.len() as nat, |i: int| self.tools[i].name@)
    }

    /// A client with no tool registered.
    pub fn new(endpoint: String, model: String) -> (r: Self)
        ensures
            r.endpoint == endpoint,
            r.model == model,
            r.tool_names() == Seq::<Seq<char>>::empty(),
    {
        let r = OllamaClient { endpoint, model, tools: Vec::new() };
        assert(r.tool_names() =~= Seq::<Seq<char>>::empty());
        r
    }

    /// Registers a tool after those already registered.
    pub fn add_tool(&mut self, tool: Tool<H>)
        ensures
            final(self).tool_names() == old(self).tool_names().push(tool.name@),
            final(self).endpoint == old(self).endpoint,
            final(self).model == old(self).model,
    {
        self.tools.push(tool);
        assert(self.tool_names() =~= old(self).tool_names().push(tool.name@));
    }

    /// The number of registered tools.
    pub fn tool_count(&self) -> (n: usize)
        ensures
            n == self.tool_names().len(),
    {
        self.tools.len()
    }

    /// The position of the first registered tool with exactly this name.
    pub fn find_tool(&self, name: &String) -> (r: Option<usize>)
        ensures
            match r {
                Some(i) => i < self.tool_names().len() && i == first_named(
                    self.tool_names(),
                    name@,
                    0,
                ),
                None => !is_registered(self.tool_names(), name@),
            },
    {
        let mut i: usize = 0;
        while i < self.tools.len()
            invariant
                0 <= i <= self.tools.len(),
                first_named(self.tool_names(), name@, 0) == first_named(
                    self.tool_names(),
                    name@,
                    i as int,
                ),
            decreases self.tools.len() - i,
        {
            assert(self.tool_names()[i as int] == self.tools[i as int].name@);
            if self.tools[i].name == *name {
                return Some(i);
            }
            i = i + 1;
        }
        None
    }

    /// Decides which calls are answered and by which tool: each call that
    /// names a registered tool goes to the first tool of exactly that name;
    /// a call that names none is left out.
    pub fn dispatch_plan(&self, tool_calls: &Vec<ToolCall>) -> (plan: Vec<Dispatch>)
        ensures
            plan_view(plan@) == dispatch_targets(self.tool_names(), calls_view(tool_calls@)),
            forall|k: int|
                0 <= k < plan.len() ==> (#[trigger] plan[k]).call < tool_calls.len() && plan[k].tool
                    < self.tools.len(),
    {
        let mut plan: Vec<Dispatch> = Vec::new();
        let mut i: usize = 0;
        let ghost all = calls_view(tool_calls@);
        assert(all.take(0) =~= Seq::<CallModel>::empty());
        assert(plan_view(plan@) =~= Seq::<(int, int)>::empty());
        while i < tool_calls.len()
            invariant
                0 <= i <= tool_calls.len(),
                all == calls_view(tool_calls@),
                plan_view(plan@) == dispatch_targets(self.tool_names(), all.take(i as int)),
                forall|k: int|
                    0 <= k < plan.len() ==> (#[trigger] plan[k]).call < tool_calls.len()
                        && plan[k].tool < self.tools.len(),
            decreases tool_calls.len() - i,
        {
            proof {
                assert(all.take(i + 1).drop_last() =~= all.take(i as int));
                assert(all.take(i + 1).last() == tool_calls[i as int]@);
            }
            match self.find_tool(&tool_calls[i].function.name) {
                Some(at) => {
                    let ghost before = plan@;
                    plan.push(Dispatch { call: i, tool: at });
                    assert(plan_view(plan@) =~= plan_view(before).push((i as int, at as int)));
                },
                None => {},
            }
            i = i + 1;
        }
        assert(all.take(tool_calls.len() as int) =~= all);
        plan
    }

    /// Answers the tool calls of a reply. Each call that names a registered
    /// tool is handed, with its arguments, to the first tool of that name,
    /// as the dispatch plan decides, and what the handler returns becomes
    /// one message with the role `tool`; the messages come in the order of
    /// the calls. A call that names no registered tool gets no message.
    pub fn handle_tool_calls(&self, tool_calls: Vec<ToolCall>) -> (r: Vec<Message>)
        ensures
            r.len() == dispatch_targets(self.tool_names(), calls_view(tool_calls@)).len(),
            forall|k: int| 0 <= k < r.len() ==> (#[trigger] r[k])@ == tool_reply(r[k].content@),
    {
        let plan = self.dispatch_plan(&tool_calls);
        let mut answers: Vec<String> = Vec::new();
        let mut i: usize = 0;
        while i < plan.len()
            invariant
                0 <= i <= plan.len(),
                answers.len() == i,
                plan_view(plan@) == dispatch_targets(self.tool_names(), calls_view(tool_calls@)),
                forall|k: int|
                    0 <= k < plan.len() ==> (#[trigger] plan[k]).call < tool_calls.len()
                        && plan[k].tool < self.tools.len(),
            decreases plan.len() - i,
        {
            let call = &tool_calls[plan[i].call];
            let tool = &self.tools[plan[i].tool];
            answers.push(tool.function.call(&call.function.arguments));
            i = i + 1;
        }
        assert(plan_view(plan@).len() == plan.len());
        let messages = tool_messages(answers);
        assert(messages_view(messages@).len() == messages.len());
        assert forall|k: int| 0 <= k < messages.len() implies (#[trigger] messages[k])@
            == tool_reply(messages[k].content@) by {
            assert(messages_view(messages@)[k] == messages[k]@);
        }
        messages
    }
}

/// Wraps each answer of a tool in a message with the role `tool`, in order.
pub fn tool_messages(answers: Vec<String>) -> (r: Vec<Message>)
    ensures
        messages_view(r@) == tool_replies(texts_view(answers@)),
{
    let mut messages: Vec<Message> = Vec::new();
    let mut i: usize = 0;
    while i < answers.len()
        invariant
            0 <= i <= answers.len(),
            messages.len() == i,
            forall|k: int| 0 <= k < i ==> (#[trigger] messages[k])@ == tool_reply(answers[k]@),
        decreases answers.len() - i,
    {
        messages.push(tool_message(answers[i].clone()));
        i = i + 1;
    }
    assert(messages_view(messages@) =~= tool_replies(texts_view(answers@)));
    messages
}

} // verus!
