//! Gathering the events of a completion into one result.

use super::{EventModel, OutEvent, Usage};
use crate::toolcall::{ParsedToolCall, ToolCallModel};
use crate::views;
use vstd::prelude::*;

verus! {

/// All of a completion at once.
#[derive(Debug)]
pub struct CollectedResult {
    pub content: String,
    pub reasoning: String,
    pub tool_calls: Vec<ParsedToolCall>,
    pub usage: Usage,
    pub finish_reason: String,
    pub error: Option<String>,
    /// The account that the completion went through, also where it failed;
    /// `None` where no account took it.
    pub email: Option<String>,
}

/// What a [`CollectedResult`] says.
#[verifier::ext_equal]
pub struct CollectedModel {
    pub content: Seq<char>,
    pub reasoning: Seq<char>,
    pub tool_calls: Seq<ToolCallModel>,
    pub usage: Usage,
    pub finish_reason: Seq<char>,
    pub error: Option<Seq<char>>,
    pub email: Option<Seq<char>>,
}

impl View for CollectedResult {
    type V = CollectedModel;

    open spec fn view(&self) -> CollectedModel {
        CollectedModel {
            content: self.content@,
            reasoning: self.reasoning@,
            tool_calls: views::seq_view(self.tool_calls@),
            usage: self.usage,
            finish_reason: self.finish_reason@,
            error: views::option_view(self.error),
            email: views::option_view(self.email),
        }
    }
}

impl CollectedModel {
    /// The result before any event.
    pub open spec fn empty() -> CollectedModel {
        CollectedModel {
            content: seq![],
            reasoning: seq![],
            tool_calls: seq![],
            usage: Usage::none(),
            finish_reason: "stop"@,
            error: None,
            email: None,
        }
    }

    /// The result with one event more: texts add up, the rest is replaced.
    pub open spec fn with(self, event: EventModel) -> CollectedModel {
        match event {
            EventModel::ReasoningDelta(s) => CollectedModel {
                reasoning: self.reasoning + s,
                ..self
            },
            EventModel::ContentDelta(s) => CollectedModel { content: self.content + s, ..self },
            EventModel::ToolCalls(calls) => CollectedModel { tool_calls: calls, ..self },
            EventModel::Done { usage, finish_reason, email } => CollectedModel {
                usage,
                finish_reason,
                email,
                ..self
            },
            EventModel::Error { message, email } => CollectedModel {
                error: Some(message),
                email,
                ..self
            },
        }
    }
}

/// The result of a run of events.
pub open spec fn collected(events: Seq<EventModel>) -> CollectedModel
    decreases events.len(),
{
    if events.len() == 0 {
        CollectedModel::empty()
    } else {
        collected(events.drop_last()).with(events.last())
    }
}

impl CollectedResult {
    /// The result before any event.
    pub fn new() -> (r: CollectedResult)
        ensures
            r@ == CollectedModel::empty(),
    {
        let r = CollectedResult {
            content: String::new(),
            reasoning: String::new(),
            tool_calls: Vec::new(),
            usage: Usage::default(),
            finish_reason: "stop".to_owned(),
            error: None,
            email: None,
        };
        assert(r@ =~~= CollectedModel::empty());
        r
    }

    /// Takes in one event.
    pub fn absorb(&mut self, event: OutEvent)
        ensures
            final(self)@ == old(self)@.with(event@),
    {
        match event {
            OutEvent::ReasoningDelta(s) => self.reasoning.append(s.as_str()),
            OutEvent::ContentDelta(s) => self.content.append(s.as_str()),
            OutEvent::ToolCalls(calls) => self.tool_calls = calls,
            OutEvent::Done { usage, finish_reason, email } => {
                self.usage = usage;
                self.finish_reason = finish_reason;
                self.email = email;
            },
            OutEvent::Error { message, email } => {
                self.error = Some(message);
                self.email = email;
            },
        }
    }
}

/// Gathers a run of events into one result.
pub fn collect_completion(events: Vec<OutEvent>) -> (r: CollectedResult)
    ensures
        r@ == collected(views::seq_view(events@)),
{
    let ghost all = views::seq_view(events@);
    let ghost given = events@;
    let mut r = CollectedResult::new();
    for event in iter: events
        invariant
            iter.seq() == given,
            all == views::seq_view(given),
            r@ == collected(all.take(iter.index())),
    {
        assert(all.take(iter.index() + 1).drop_last() =~= all.take(iter.index()));
        r.absorb(event);
    }
    assert(all.take(all.len() as int) =~= all);
    r
}

/// One event more changes a result in one way: reasoning and content are
/// appended, tool calls, the closing event and an error replace what was there
/// of them, and the rest stays.
pub proof fn law_one_event_more_changes_its_own_part(events: Seq<EventModel>, event: EventModel)
    ensures
        ({
            let before = collected(events);
            let after = collected(events.push(event));
            match event {
                EventModel::ReasoningDelta(s) => {
                    &&& after.reasoning == before.reasoning + s
                    &&& after == CollectedModel { reasoning: after.reasoning, ..before }
                },
                EventModel::ContentDelta(s) => {
                    &&& after.content == before.content + s
                    &&& after == CollectedModel { content: after.content, ..before }
                },
                EventModel::ToolCalls(calls) => {
                    &&& after.tool_calls == calls
                    &&& after == CollectedModel { tool_calls: after.tool_calls, ..before }
                },
                EventModel::Done { usage, finish_reason, email } => {
                    &&& after.usage == usage
                    &&& after.finish_reason == finish_reason
                    &&& after.email == email
                    &&& after.content == before.content
                    &&& after.reasoning == before.reasoning
                    &&& after.tool_calls == before.tool_calls
                    &&& after.error == before.error
                },
                EventModel::Error { message, email } => {
                    &&& after.error == Some(message)
                    &&& after.email == email
                    &&& after.content == before.content
                    &&& after.reasoning == before.reasoning
                    &&& after.tool_calls == before.tool_calls
                    &&& after.usage == before.usage
                    &&& after.finish_reason == before.finish_reason
                },
            }
        }),
{
    assert(events.push(event).drop_last() =~= events);
}

/// Without events a result is empty, and its finish reason is `stop`.
pub proof fn law_no_events_make_an_empty_result()
    ensures
        ({
            let result = collected(seq![]);
            &&& result.content.len() == 0
            &&& result.reasoning.len() == 0
            &&& result.tool_calls.len() == 0
            &&& result.usage.prompt_tokens == 0
            &&& result.usage.completion_tokens == 0
            &&& result.usage.total_tokens == 0
            &&& result.usage.reasoning_tokens == 0
            &&& result.finish_reason == "stop"@
            &&& result.error is None
            &&& result.email is None
        }),
{
}

} // verus!
