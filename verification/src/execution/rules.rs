//! What a completion does with each upstream event, and how it ends, told in
//! terms of what goes in and what comes out.

use super::completion;
use super::completion::{CompletionModel, Diagnosis, Next};
use super::probe::{MetaModel, ProbeModel};
use super::{EventModel, Usage};
use crate::json::JsonModel;
use crate::text;
use crate::toolcall::ToolCallModel;
use crate::upstream::sse::DeltaModel;
use crate::upstream::UpstreamModel;
use vstd::prelude::*;

verus! {

/// Content of every phase but the two thinking phases, `think` and
/// `thinking_summary`, is part of the answer, as it came. Without tools it is
/// sent at once, as the last event of its delta; with tools none is sent. The
/// content of a thinking phase is neither sent nor part of the answer.
pub proof fn law_content_of_all_but_thinking_phases_is_the_answer(
    state: CompletionModel,
    delta: DeltaModel,
    elapsed_ms: i64,
)
    ensures
        ({
            let events = state.events(UpstreamModel::Delta(delta));
            let after = state.after(UpstreamModel::Delta(delta), elapsed_ms);
            let thinking = delta.phase == "think"@ || delta.phase == "thinking_summary"@;
            &&& !thinking ==> after.answer == state.answer + delta.content
            &&& !thinking ==> after.skipped == state.skipped
            &&& thinking ==> after.answer == state.answer
            &&& thinking ==> after.skipped == state.skipped + delta.content
            &&& !thinking && delta.content.len() > 0 && !state.has_tools ==> {
                &&& events.len() > 0
                &&& events.last() == EventModel::ContentDelta(delta.content)
                &&& forall|i: int|
                    0 <= i < events.len() - 1 ==> !(#[trigger] events[i] is ContentDelta)
                &&& after.streamed
            }
            &&& thinking || delta.content.len() == 0 || state.has_tools ==> {
                &&& forall|i: int|
                    0 <= i < events.len() ==> !(#[trigger] events[i] is ContentDelta)
                &&& after.streamed == state.streamed
            }
            &&& forall|i: int|
                0 <= i < events.len() ==> (#[trigger] events[i] is ContentDelta || events[i]
                    is ReasoningDelta)
        }),
{
    let after = state.after(UpstreamModel::Delta(delta), elapsed_ms);
    if delta.content.len() == 0 {
        assert(state.answer + delta.content =~= state.answer);
    }
    assert(delta.phase == "think"@ || delta.phase == "thinking_summary"@ || after.answer
        =~= state.answer + delta.content);
}

/// The reasoning that the client gets of a delta: the text of its first event,
/// if that is reasoning.
pub open spec fn reasoning_in(events: Seq<EventModel>) -> Seq<char> {
    if events.len() > 0 && events[0] is ReasoningDelta {
        events[0]->ReasoningDelta_0
    } else {
        seq![]
    }
}

/// Reasoning is sent as an increment: what was sent before and what is sent now
/// make up the cumulative reasoning, where that continues what was sent; else
/// all of it is sent. Incremental reasoning is sent as it came. Nothing is sent
/// where nothing is new, and reasoning comes before content.
pub proof fn law_reasoning_is_sent_as_an_increment(
    state: CompletionModel,
    delta: DeltaModel,
    elapsed_ms: i64,
)
    ensures
        ({
            let events = state.events(UpstreamModel::Delta(delta));
            let after = state.after(UpstreamModel::Delta(delta), elapsed_ms);
            let sent = reasoning_in(events);
            &&& match delta.reasoning_cumulative {
                Some(full) => {
                    &&& after.emitted == full
                    &&& state.emitted.is_prefix_of(full) ==> state.emitted + sent == full
                    &&& !state.emitted.is_prefix_of(full) ==> sent == full
                },
                None => {
                    &&& sent == delta.reasoning_incremental
                    &&& after.emitted == state.emitted + delta.reasoning_incremental
                },
            }
            &&& forall|i: int|
                0 <= i < events.len() && (#[trigger] events[i] is ReasoningDelta) ==> i == 0
                    && sent.len() > 0
        }),
{
    let events = state.events(UpstreamModel::Delta(delta));
    let sent = reasoning_in(events);
    match delta.reasoning_cumulative {
        Some(full) => {
            if state.emitted.is_prefix_of(full) {
                assert(state.emitted + full.skip(state.emitted.len() as int) =~= full);
                if full.skip(state.emitted.len() as int).len() == 0 {
                    assert(full.skip(state.emitted.len() as int) =~= seq![]);
                    assert(sent =~= seq![]);
                }
            } else if full.len() == 0 {
                assert(sent =~= full);
            }
        },
        None => {
            if delta.reasoning_incremental.len() == 0 {
                assert(sent =~= delta.reasoning_incremental);
            }
        },
    }
}

/// A positive count under `output_tokens` of a delta's usage, or under
/// `reasoning_tokens` of its details, replaces the count so far; anything else
/// leaves it as it is.
pub proof fn law_positive_counts_replace_earlier_ones(
    state: CompletionModel,
    delta: DeltaModel,
    elapsed_ms: i64,
)
    ensures
        ({
            let after = state.after(UpstreamModel::Delta(delta), elapsed_ms);
            &&& (match delta.usage {
                Some(usage) => match usage.get("output_tokens"@) {
                    Some(JsonModel::Integer(n)) => if 0 < n <= i64::MAX {
                        after.out_tokens == n
                    } else {
                        after.out_tokens == state.out_tokens
                    },
                    _ => after.out_tokens == state.out_tokens,
                },
                None => after.out_tokens == state.out_tokens,
            })
            &&& (match delta.usage {
                Some(usage) => match usage.get("output_tokens_details"@) {
                    Some(details) => match details.get("reasoning_tokens"@) {
                        Some(JsonModel::Integer(n)) => if 0 < n <= i64::MAX {
                            after.reasoning_tokens == n
                        } else {
                            after.reasoning_tokens == state.reasoning_tokens
                        },
                        _ => after.reasoning_tokens == state.reasoning_tokens,
                    },
                    None => after.reasoning_tokens == state.reasoning_tokens,
                },
                None => after.reasoning_tokens == state.reasoning_tokens,
            })
        }),
{
}

/// A delta changes neither the request nor the account nor the outcome. Its
/// phase is noted, and the time of the first reasoning or answer, be it sent or
/// held back.
pub proof fn law_delta_notes_its_phase_and_the_first_output(
    state: CompletionModel,
    delta: DeltaModel,
    elapsed_ms: i64,
)
    ensures
        ({
            let events = state.events(UpstreamModel::Delta(delta));
            let after = state.after(UpstreamModel::Delta(delta), elapsed_ms);
            let answered = delta.content.len() > 0 && delta.phase != "think"@ && delta.phase
                != "thinking_summary"@;
            &&& after.has_tools == state.has_tools
            &&& after.prompt == state.prompt
            &&& after.email == state.email
            &&& after.phases == state.phases.push(delta.phase)
            &&& after.probe.meta == state.probe.meta
            &&& after.probe.start_ms == state.probe.start_ms
            &&& after.probe.usage == state.probe.usage
            &&& after.probe.success == state.probe.success
            &&& after.probe.error == state.probe.error
            &&& state.probe.ttft_ms is Some ==> after.probe.ttft_ms == state.probe.ttft_ms
            &&& state.probe.ttft_ms is None ==> after.probe.ttft_ms == if answered
                || reasoning_in(events).len() > 0 {
                Some(elapsed_ms)
            } else {
                None
            }
        }),
{
    law_reasoning_is_sent_as_an_increment(state, delta, elapsed_ms);
}

/// An account that takes the request is noted, and nothing else.
pub proof fn law_account_is_noted(state: CompletionModel, email: Seq<char>, elapsed_ms: i64)
    ensures
        ({
            let event = UpstreamModel::Meta { email };
            let after = state.after(event, elapsed_ms);
            &&& after.email == Some(email)
            &&& after == CompletionModel { email: after.email, ..state }
            &&& state.events(event).len() == 0
            &&& completion::next_after(event) == Next::Listen
        }),
{
}

/// A retry voids all that came of the upstream; the request, the account and
/// the statistics stay.
pub proof fn law_retry_voids_what_came(state: CompletionModel, elapsed_ms: i64)
    ensures
        ({
            let after = state.after(UpstreamModel::Retrying, elapsed_ms);
            &&& after.answer.len() == 0
            &&& after.emitted.len() == 0
            &&& after.phases.len() == 0
            &&& after.skipped.len() == 0
            &&& !after.streamed
            &&& after.out_tokens == 0
            &&& after.reasoning_tokens == 0
            &&& after.has_tools == state.has_tools
            &&& after.prompt == state.prompt
            &&& after.email == state.email
            &&& after.probe == state.probe
            &&& state.events(UpstreamModel::Retrying).len() == 0
            &&& completion::next_after(UpstreamModel::Retrying) == Next::Listen
        }),
{
}

/// The end of the upstream sends nothing and changes nothing, and the
/// completion is to be finished.
pub proof fn law_end_of_the_upstream_leads_to_the_finish(state: CompletionModel, elapsed_ms: i64)
    ensures
        state.after(UpstreamModel::Done, elapsed_ms) == state,
        state.events(UpstreamModel::Done).len() == 0,
        completion::next_after(UpstreamModel::Done) == Next::Finish,
{
}

/// An error of the upstream is sent with the account at hand, noted in the
/// statistics, and stops the completion; nothing else changes.
pub proof fn law_upstream_error_is_told_and_stops(
    state: CompletionModel,
    message: Seq<char>,
    elapsed_ms: i64,
)
    ensures
        ({
            let event = UpstreamModel::Error(message);
            let after = state.after(event, elapsed_ms);
            &&& state.events(event).len() == 1
            &&& state.events(event)[0] == EventModel::Error { message, email: state.email }
            &&& completion::next_after(event) == Next::Stop
            &&& after.probe.error == Some(message)
            &&& !after.probe.success
            &&& after.probe.usage == state.probe.usage
            &&& after.probe.ttft_ms == state.probe.ttft_ms
            &&& after.probe.meta == state.probe.meta
            &&& after.probe.start_ms == state.probe.start_ms
            &&& after == CompletionModel { probe: after.probe, ..state }
        }),
{
}

/// A delta is followed by more.
pub proof fn law_delta_is_followed_by_more(delta: DeltaModel)
    ensures
        completion::next_after(UpstreamModel::Delta(delta)) == Next::Listen,
{
}

/// A completion starts with nothing received, nothing counted and nothing
/// noted.
pub proof fn law_completion_starts_empty(
    has_tools: bool,
    prompt: Seq<char>,
    meta: MetaModel,
    start_ms: i64,
)
    ensures
        ({
            let state = CompletionModel::started(has_tools, prompt, meta, start_ms);
            &&& state.has_tools == has_tools
            &&& state.prompt == prompt
            &&& state.answer.len() == 0
            &&& state.emitted.len() == 0
            &&& state.phases.len() == 0
            &&& state.skipped.len() == 0
            &&& !state.streamed
            &&& state.out_tokens == 0
            &&& state.reasoning_tokens == 0
            &&& state.email is None
            &&& state.probe.meta == meta
            &&& state.probe.start_ms == start_ms
            &&& state.probe.ttft_ms is None
            &&& state.probe.error is None
            &&& !state.probe.success
            &&& state.probe.usage.total_tokens == 0
            &&& state.probe.usage.prompt_tokens == 0
            &&& state.probe.usage.completion_tokens == 0
            &&& state.probe.usage.reasoning_tokens == 0
        }),
{
}

/// All tool calls that were read out of an answer are sent: where a request has
/// tools, its answer is not empty and calls were read out of it, one event has
/// them all, as they are and in order, and the finish reason is `tool_calls`.
/// Otherwise none is sent, and the finish reason is `stop`.
pub proof fn law_all_parsed_calls_are_sent(
    state: CompletionModel,
    parsed: Seq<ToolCallModel>,
    stripped: Seq<char>,
    prompt_tokens: usize,
)
    ensures
        ({
            let events = state.last_events(parsed, stripped, prompt_tokens);
            &&& state.has_tools && state.answer.len() > 0 && parsed.len() > 0 ==> {
                &&& exists|i: int|
                    0 <= i < events.len() && #[trigger] events[i] == EventModel::ToolCalls(parsed)
                &&& forall|i: int, j: int|
                    0 <= i < j < events.len() ==> !(#[trigger] events[i] is ToolCalls && (
                    #[trigger] events[j]) is ToolCalls)
                &&& events.last()->finish_reason == "tool_calls"@
            }
            &&& !(state.has_tools && state.answer.len() > 0 && parsed.len() > 0) ==> {
                &&& forall|i: int| 0 <= i < events.len() ==> !(#[trigger] events[i] is ToolCalls)
                &&& events.last()->finish_reason == "stop"@
            }
        }),
{
    let events = state.last_events(parsed, stripped, prompt_tokens);
    if state.has_tools && state.answer.len() > 0 && parsed.len() > 0 {
        let i = state.held_back(stripped).len() as int;
        assert(events[i] == EventModel::ToolCalls(parsed));
    }
}

/// With tools, where nothing was streamed, the answer without its tool calls
/// and without white space around it is sent before all else. Where nothing is
/// left of it and no call was read, an answer that is not blank is sent as it
/// is. In all other cases no content is sent at the end.
pub proof fn law_held_back_answer_is_sent_at_the_end(
    state: CompletionModel,
    parsed: Seq<ToolCallModel>,
    stripped: Seq<char>,
    prompt_tokens: usize,
)
    ensures
        ({
            let events = state.last_events(parsed, stripped, prompt_tokens);
            let waiting = state.has_tools && !state.streamed;
            let left = text::trimmed(stripped);
            let plain = waiting && left.len() == 0 && parsed.len() == 0 && text::trimmed(
                state.answer,
            ).len() > 0;
            &&& waiting && left.len() > 0 ==> {
                &&& events[0] == EventModel::ContentDelta(left)
                &&& forall|i: int|
                    0 < i < events.len() ==> !(#[trigger] events[i] is ContentDelta)
            }
            &&& plain ==> events.len() == 2 && events[0] == EventModel::ContentDelta(state.answer)
            &&& !(waiting && left.len() > 0) && !plain ==> forall|i: int|
                0 <= i < events.len() ==> !(#[trigger] events[i] is ContentDelta)
        }),
{
    if state.answer.len() == 0 {
        assert(text::trimmed_start(state.answer) == state.answer);
    }
}

/// The closing event comes last. It has the tokens of the prompt, what the
/// upstream counted, or else the characters of the visible answer, their sum,
/// the reasoning tokens, and the account.
pub proof fn law_closing_event_has_the_counts(
    state: CompletionModel,
    parsed: Seq<ToolCallModel>,
    stripped: Seq<char>,
    prompt_tokens: usize,
)
    requires
        state.total_fits(stripped, prompt_tokens),
        prompt_tokens <= i64::MAX,
        stripped.len() <= i64::MAX,
        state.answer.len() <= i64::MAX,
    ensures
        ({
            let events = state.last_events(parsed, stripped, prompt_tokens);
            &&& events.len() > 0
            &&& match events.last() {
                EventModel::Done { usage, email, .. } => {
                    &&& email == state.email
                    &&& usage == state.usage(stripped, prompt_tokens)
                    &&& usage.prompt_tokens == prompt_tokens
                    &&& state.out_tokens > 0 ==> usage.completion_tokens == state.out_tokens
                    &&& state.out_tokens <= 0 && state.has_tools ==> usage.completion_tokens
                        == stripped.len()
                    &&& state.out_tokens <= 0 && !state.has_tools ==> usage.completion_tokens
                        == state.answer.len()
                    &&& usage.total_tokens == usage.prompt_tokens + usage.completion_tokens
                    &&& usage.reasoning_tokens == state.reasoning_tokens
                },
                _ => false,
            }
        }),
{
}

/// A total fits exactly where the sum of its parts is an `i64`.
pub proof fn law_total_fits_where_the_sum_does(
    state: CompletionModel,
    stripped: Seq<char>,
    prompt_tokens: usize,
)
    requires
        prompt_tokens <= i64::MAX,
        stripped.len() <= i64::MAX,
        state.answer.len() <= i64::MAX,
    ensures
        state.total_fits(stripped, prompt_tokens) <==> prompt_tokens + (if state.out_tokens > 0 {
            state.out_tokens as int
        } else if state.has_tools {
            stripped.len() as int
        } else {
            state.answer.len() as int
        }) <= i64::MAX,
{
}

/// Whether the last events hold content or tool calls.
pub open spec fn tells_something(events: Seq<EventModel>) -> bool {
    exists|i: int|
        0 <= i < events.len() && (#[trigger] events[i] is ContentDelta || events[i] is ToolCalls)
}

/// An outcome is remarkable with tools only: silent where the client got neither
/// content nor tool calls, and short where it got no tool calls and the answer
/// without them has fewer than thirty characters, but at least one.
pub proof fn law_silent_and_short_outcomes_are_remarkable(
    state: CompletionModel,
    parsed: Seq<ToolCallModel>,
    stripped: Seq<char>,
    prompt_tokens: usize,
)
    ensures
        ({
            let events = state.last_events(parsed, stripped, prompt_tokens);
            let silent = !state.streamed && !tells_something(events);
            let called = state.answer.len() > 0 && parsed.len() > 0;
            let diagnosis = state.diagnosis(parsed, stripped);
            &&& diagnosis == Diagnosis::Silent <==> state.has_tools && silent
            &&& diagnosis == Diagnosis::Short <==> state.has_tools && !silent && !called && 0
                < stripped.len() < 30
        }),
{
    let events = state.last_events(parsed, stripped, prompt_tokens);
    let held = state.held_back(stripped);
    if held.len() > 0 {
        assert(events[0] is ContentDelta);
    } else if state.call_events(parsed).len() > 0 {
        assert(events[0] is ToolCalls);
    } else if state.fallback(parsed, stripped).len() > 0 {
        assert(events[0] is ContentDelta);
    } else {
        assert(events.len() == 1 && events[0] is Done);
    }
}

/// A completion that is finished counts as successful, with its usage; what was
/// noted before stays.
pub proof fn law_success_keeps_what_was_noted(probe: ProbeModel, usage: Usage)
    ensures
        probe.succeeded(usage).success,
        probe.succeeded(usage).usage == usage,
        probe.succeeded(usage).error == probe.error,
        probe.succeeded(usage).ttft_ms == probe.ttft_ms,
        probe.succeeded(usage).meta == probe.meta,
        probe.succeeded(usage).start_ms == probe.start_ms,
{
}

/// A usage reports the integers under its keys, of either sign, and zero where
/// there is none that fits.
pub proof fn law_usage_reports_its_integers(usage: JsonModel)
    ensures
        (match usage.get("output_tokens"@) {
            Some(JsonModel::Integer(n)) => if i64::MIN <= n <= i64::MAX {
                completion::usage_counts(usage).0 == n
            } else {
                completion::usage_counts(usage).0 == 0
            },
            _ => completion::usage_counts(usage).0 == 0,
        }),
        (match usage.get("output_tokens_details"@) {
            Some(details) => match details.get("reasoning_tokens"@) {
                Some(JsonModel::Integer(n)) => if i64::MIN <= n <= i64::MAX {
                    completion::usage_counts(usage).1 == n
                } else {
                    completion::usage_counts(usage).1 == 0
                },
                _ => completion::usage_counts(usage).1 == 0,
            },
            None => completion::usage_counts(usage).1 == 0,
        }),
{
}

} // verus!
