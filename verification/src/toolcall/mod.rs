//! Tool calls, and the names that tools go by upstream.

pub mod obfuscation;

use crate::json::{Json, JsonModel};
use crate::views;
use vstd::prelude::*;

verus! {

/// A tool call read out of an answer.
#[derive(Debug)]
pub struct ParsedToolCall {
    pub id: String,
    pub name: String,
    pub arguments: Json,
}

/// What a [`ParsedToolCall`] says.
#[verifier::ext_equal]
pub struct ToolCallModel {
    pub id: Seq<char>,
    pub name: Seq<char>,
    pub arguments: JsonModel,
}

impl View for ParsedToolCall {
    type V = ToolCallModel;

    open spec fn view(&self) -> ToolCallModel {
        ToolCallModel { id: self.id@, name: self.name@, arguments: self.arguments@ }
    }
}

impl Clone for ParsedToolCall {
    fn clone(&self) -> (r: ParsedToolCall)
        ensures
            r@ == self@,
    {
        ParsedToolCall {
            id: self.id.clone(),
            name: self.name.clone(),
            arguments: self.arguments.clone(),
        }
    }
}

/// A copy of a run of calls.
pub fn clone_calls(calls: &Vec<ParsedToolCall>) -> (r: Vec<ParsedToolCall>)
    ensures
        views::seq_view(r@) == views::seq_view(calls@),
{
    broadcast use views::lemma_seq_view_push;

    let mut out: Vec<ParsedToolCall> = Vec::new();
    for i in 0..calls.len()
        invariant
            views::seq_view(out@) =~= views::seq_view(calls@).take(i as int),
    {
        proof {
            views::lemma_seq_view_take(calls@, i as int);
        }
        out.push(calls[i].clone());
    }
    out
}

} // verus!
