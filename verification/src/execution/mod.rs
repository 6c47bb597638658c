//! Running a completion: upstream events in, normalised output events out.

pub mod collect;
pub mod completion;
pub mod echo;
pub mod laws;
pub mod probe;
pub mod reasoning;
pub mod request;
pub mod rules;
pub mod tokens;
pub mod translator;

pub use tokens::{count_tokens, try_count_tokens};

use crate::toolcall;
use crate::toolcall::{ParsedToolCall, ToolCallModel};
use crate::views;
use vstd::prelude::*;

verus! {

/// Token counts of one completion.
#[derive(Debug, Clone, Copy, PartialEq, Eq)]
pub struct Usage {
    pub prompt_tokens: i64,
    pub completion_tokens: i64,
    pub total_tokens: i64,
    pub reasoning_tokens: i64,
}

impl Usage {
    /// Nothing counted yet.
    pub open spec fn none() -> Usage {
        Usage { prompt_tokens: 0, completion_tokens: 0, total_tokens: 0, reasoning_tokens: 0 }
    }
}

impl Default for Usage {
    fn default() -> (r: Usage)
        ensures
            r == Usage::none(),
    {
        Usage { prompt_tokens: 0, completion_tokens: 0, total_tokens: 0, reasoning_tokens: 0 }
    }
}

/// A normalised output event.
#[derive(Debug)]
pub enum OutEvent {
    ReasoningDelta(String),
    ContentDelta(String),
    ToolCalls(Vec<ParsedToolCall>),
    Done { usage: Usage, finish_reason: String, email: Option<String> },
    /// The upstream failed; `email` is the account that took the request.
    Error { message: String, email: Option<String> },
}

/// What an [`OutEvent`] says.
#[verifier::ext_equal]
pub enum EventModel {
    ReasoningDelta(Seq<char>),
    ContentDelta(Seq<char>),
    ToolCalls(Seq<ToolCallModel>),
    Done { usage: Usage, finish_reason: Seq<char>, email: Option<Seq<char>> },
    Error { message: Seq<char>, email: Option<Seq<char>> },
}

impl View for OutEvent {
    type V = EventModel;

    open spec fn view(&self) -> EventModel {
        match self {
            OutEvent::ReasoningDelta(s) => EventModel::ReasoningDelta(s@),
            OutEvent::ContentDelta(s) => EventModel::ContentDelta(s@),
            OutEvent::ToolCalls(calls) => EventModel::ToolCalls(views::seq_view(calls@)),
            OutEvent::Done { usage, finish_reason, email } => EventModel::Done {
                usage: *usage,
                finish_reason: finish_reason@,
                email: views::option_view(*email),
            },
            OutEvent::Error { message, email } => EventModel::Error {
                message: message@,
                email: views::option_view(*email),
            },
        }
    }
}

/// A copy of a text that may be missing.
pub(crate) fn clone_text(text: &Option<String>) -> (r: Option<String>)
    ensures
        views::option_view(r) == views::option_view(*text),
{
    match text {
        Some(s) => Some(s.clone()),
        None => None,
    }
}

impl Clone for OutEvent {
    fn clone(&self) -> (r: OutEvent)
        ensures
            r@ == self@,
    {
        match self {
            OutEvent::ReasoningDelta(s) => OutEvent::ReasoningDelta(s.clone()),
            OutEvent::ContentDelta(s) => OutEvent::ContentDelta(s.clone()),
            OutEvent::ToolCalls(calls) => OutEvent::ToolCalls(toolcall::clone_calls(calls)),
            OutEvent::Done { usage, finish_reason, email } => OutEvent::Done {
                usage: *usage,
                finish_reason: finish_reason.clone(),
                email: clone_text(email),
            },
            OutEvent::Error { message, email } => OutEvent::Error {
                message: message.clone(),
                email: clone_text(email),
            },
        }
    }
}

} // verus!
