//! What holds of a whole run of a completion, whatever the upstream sends.

use super::collect;
use super::completion;
use super::completion::{CompletionModel, Diagnosis, Next};
use super::probe::MetaModel;
use super::translator;
use super::EventModel;
use crate::text;
use crate::toolcall::ToolCallModel;
use crate::upstream::UpstreamModel;
use vstd::prelude::*;

verus! {

/// An upstream event, and when it came.
pub type Timed = (UpstreamModel, i64);

/// The state after a run of upstream events.
pub open spec fn state_after(start: CompletionModel, run: Seq<Timed>) -> CompletionModel
    decreases run.len(),
{
    if run.len() == 0 {
        start
    } else {
        state_after(start, run.drop_last()).after(run.last().0, run.last().1)
    }
}

/// The events that the client gets during a run.
pub open spec fn events_of(start: CompletionModel, run: Seq<Timed>) -> Seq<EventModel>
    decreases run.len(),
{
    if run.len() == 0 {
        seq![]
    } else {
        events_of(start, run.drop_last()) + state_after(start, run.drop_last()).events(run.last().0)
    }
}

/// The content in a run of events, end to end.
pub open spec fn content_of(events: Seq<EventModel>) -> Seq<char>
    decreases events.len(),
{
    if events.len() == 0 {
        seq![]
    } else {
        content_of(events.drop_last()) + match events.last() {
            EventModel::ContentDelta(s) => s,
            _ => seq![],
        }
    }
}

/// A run does not change what was asked for.
pub proof fn lemma_request_stays(start: CompletionModel, run: Seq<Timed>)
    ensures
        state_after(start, run).has_tools == start.has_tools,
        state_after(start, run).prompt == start.prompt,
    decreases run.len(),
{
    if run.len() > 0 {
        lemma_request_stays(start, run.drop_last());
    }
}

/// With tools, the answer is held back: no content reaches the client while
/// the upstream runs, so that a retry goes unnoticed.
pub proof fn law_tools_hold_back_the_answer(start: CompletionModel, run: Seq<Timed>)
    requires
        start.has_tools,
    ensures
        forall|i: int|
            0 <= i < events_of(start, run).len() ==> !(#[trigger] events_of(start, run)[i]
                is ContentDelta),
        !start.streamed ==> !state_after(start, run).streamed,
    decreases run.len(),
{
    if run.len() > 0 {
        law_tools_hold_back_the_answer(start, run.drop_last());
        lemma_request_stays(start, run.drop_last());
    }
}

/// Content concatenates as events do.
proof fn lemma_content_concat(a: Seq<EventModel>, b: Seq<EventModel>)
    ensures
        content_of(a + b) == content_of(a) + content_of(b),
    decreases b.len(),
{
    if b.len() == 0 {
        assert(a + b =~= a);
        assert(content_of(a) + content_of(b) =~= content_of(a));
    } else {
        assert((a + b).drop_last() =~= a + b.drop_last());
        lemma_content_concat(a, b.drop_last());
        assert(content_of(a + b) =~= content_of(a) + content_of(b));
    }
}

/// Without tools, and while nothing is retried, the client gets exactly the
/// answer: its content end to end is the answer so far.
pub proof fn law_answer_is_streamed_whole(start: CompletionModel, run: Seq<Timed>)
    requires
        !start.has_tools,
        start.answer.len() == 0,
        forall|i: int| 0 <= i < run.len() ==> !(#[trigger] run[i].0 is Retrying),
    ensures
        content_of(events_of(start, run)) == state_after(start, run).answer,
    decreases run.len(),
{
    if run.len() > 0 {
        let init = run.drop_last();
        assert forall|i: int| 0 <= i < init.len() implies !(#[trigger] init[i].0 is Retrying) by {
            assert(init[i] == run[i]);
        }
        assert(!(run[run.len() - 1].0 is Retrying));
        law_answer_is_streamed_whole(start, init);
        lemma_request_stays(start, init);
        let state = state_after(start, init);
        let sent = state.events(run.last().0);
        lemma_content_concat(events_of(start, init), sent);
        reveal_with_fuel(content_of, 3);
        if let UpstreamModel::Delta(delta) = run.last().0 {
            if state.answers(delta) {
                if state.reasoning_of(delta).len() > 0 {
                    assert(sent.drop_last() =~= seq![
                        EventModel::ReasoningDelta(state.reasoning_of(delta)),
                    ]);
                    assert(sent.drop_last().drop_last() =~= seq![]);
                } else {
                    assert(sent.drop_last() =~= seq![]);
                }
                assert(content_of(sent) =~= delta.content);
            } else {
                if sent.len() > 0 {
                    assert(sent.drop_last() =~= seq![]);
                }
                assert(content_of(sent) =~= seq![]);
            }
        } else {
            if sent.len() > 0 {
                assert(sent.drop_last() =~= seq![]);
            }
            assert(content_of(sent) =~= seq![]);
        }
        assert(content_of(events_of(start, run)) =~= state_after(start, run).answer);
    } else {
        assert(content_of(events_of(start, run)) =~= state_after(start, run).answer);
    }
}

/// Two states that differ at most in the request's text, the account and the
/// statistics.
pub open spec fn alike(a: CompletionModel, b: CompletionModel) -> bool {
    b == CompletionModel { prompt: b.prompt, email: b.email, probe: b.probe, ..a }
}

/// An event without the account that it names.
pub open spec fn nameless(event: EventModel) -> EventModel {
    match event {
        EventModel::Done { usage, finish_reason, .. } => EventModel::Done {
            usage,
            finish_reason,
            email: None,
        },
        EventModel::Error { message, .. } => EventModel::Error { message, email: None },
        _ => event,
    }
}

/// A run of events without the accounts that they name.
pub open spec fn all_nameless(events: Seq<EventModel>) -> Seq<EventModel> {
    events.map_values(|event: EventModel| nameless(event))
}

/// A retry leaves no trace: whatever came before it, the same upstream events
/// lead to the same output and to the same answer, counts and phases. At most
/// the account differs that an error names, and that only until another one
/// takes the request.
pub proof fn law_retry_leaves_no_trace(a: CompletionModel, b: CompletionModel, run: Seq<Timed>)
    requires
        a.has_tools == b.has_tools,
    ensures
        ({
            let first = a.after(UpstreamModel::Retrying, 0);
            let second = b.after(UpstreamModel::Retrying, 0);
            &&& all_nameless(events_of(first, run)) == all_nameless(events_of(second, run))
            &&& alike(state_after(first, run), state_after(second, run))
            &&& (a.email == b.email || (run.len() > 0 && run[0].0 is Meta)) ==> {
                &&& events_of(first, run) == events_of(second, run)
                &&& state_after(first, run).email == state_after(second, run).email
            }
        }),
    decreases run.len(),
{
    let first = a.after(UpstreamModel::Retrying, 0);
    let second = b.after(UpstreamModel::Retrying, 0);
    if run.len() > 0 {
        let init = run.drop_last();
        law_retry_leaves_no_trace(a, b, init);
        let sent = state_after(first, init).events(run.last().0);
        let also = state_after(second, init).events(run.last().0);
        assert(all_nameless(sent) =~= all_nameless(also));
        assert(all_nameless(events_of(first, init) + sent) =~= all_nameless(events_of(first, init))
            + all_nameless(sent));
        assert(all_nameless(events_of(second, init) + also) =~= all_nameless(
            events_of(second, init),
        ) + all_nameless(also));
        if run.len() == 1 {
            assert(events_of(first, init) =~= seq![]);
            assert(events_of(second, init) =~= seq![]);
        } else {
            assert(init[0] == run[0]);
        }
    } else {
        assert(events_of(first, run) =~= events_of(second, run));
    }
}

/// States that are alike end alike: the same last events, but for the account
/// named in the closing one.
pub proof fn law_like_states_end_alike(
    a: CompletionModel,
    b: CompletionModel,
    parsed: Seq<ToolCallModel>,
    stripped: Seq<char>,
    prompt_tokens: usize,
)
    requires
        alike(a, b),
    ensures
        a.last_events(parsed, stripped, prompt_tokens).drop_last() == b.last_events(
            parsed,
            stripped,
            prompt_tokens,
        ).drop_last(),
        a.usage(stripped, prompt_tokens) == b.usage(stripped, prompt_tokens),
        a.diagnosis(parsed, stripped) == b.diagnosis(parsed, stripped),
        a.email == b.email ==> a.last_events(parsed, stripped, prompt_tokens) == b.last_events(
            parsed,
            stripped,
            prompt_tokens,
        ),
{
    assert(a.last_events(parsed, stripped, prompt_tokens).drop_last() =~= b.last_events(
        parsed,
        stripped,
        prompt_tokens,
    ).drop_last());
}

/// An answer is never swallowed: a request with tools whose answer is not
/// blank ends with content or tool calls for the client, whatever reading and
/// stripping its tool calls gave.
pub proof fn law_answer_is_never_swallowed(
    state: CompletionModel,
    parsed: Seq<ToolCallModel>,
    stripped: Seq<char>,
    prompt_tokens: usize,
)
    requires
        state.has_tools,
        !state.streamed,
        text::trimmed(state.answer).len() > 0,
    ensures
        exists|i: int|
            0 <= i < state.last_events(parsed, stripped, prompt_tokens).len() && {
                let event = #[trigger] state.last_events(parsed, stripped, prompt_tokens)[i];
                event is ContentDelta || event is ToolCalls
            },
        state.diagnosis(parsed, stripped) != Diagnosis::Silent,
{
    let events = state.last_events(parsed, stripped, prompt_tokens);
    assert(events[0] is ContentDelta || events[0] is ToolCalls);
}

/// Every completion that ends, ends with one closing event, which comes last.
pub proof fn law_done_comes_last_and_once(
    state: CompletionModel,
    parsed: Seq<ToolCallModel>,
    stripped: Seq<char>,
    prompt_tokens: usize,
)
    ensures
        ({
            let events = state.last_events(parsed, stripped, prompt_tokens);
            &&& events.len() > 0
            &&& events.last() is Done
            &&& forall|i: int|
                0 <= i < events.len() - 1 ==> (#[trigger] events[i] is ContentDelta || events[i]
                    is ToolCalls)
        }),
{
}

/// The closing event says `tool_calls` exactly where tool calls were sent.
pub proof fn law_finish_reason_tells_of_tool_calls(
    state: CompletionModel,
    parsed: Seq<ToolCallModel>,
    stripped: Seq<char>,
    prompt_tokens: usize,
)
    ensures
        ({
            let events = state.last_events(parsed, stripped, prompt_tokens);
            let called = exists|i: int|
                0 <= i < events.len() && #[trigger] events[i] is ToolCalls;
            &&& called ==> events.last()->finish_reason == "tool_calls"@
            &&& !called ==> events.last()->finish_reason == "stop"@
        }),
{
    let events = state.last_events(parsed, stripped, prompt_tokens);
    if state.calls(parsed).len() > 0 {
        let i = state.held_back(stripped).len() as int;
        assert(events[i] is ToolCalls);
    }
}

/// The total is the sum of its parts.
pub proof fn law_total_is_the_sum(
    state: CompletionModel,
    stripped: Seq<char>,
    prompt_tokens: usize,
)
    requires
        state.total_fits(stripped, prompt_tokens),
    ensures
        ({
            let usage = state.usage(stripped, prompt_tokens);
            usage.total_tokens == usage.prompt_tokens + usage.completion_tokens
        }),
{
}

/// A client that goes away leaves an unfinished request behind: until a
/// completion ends, its statistics count it as not successful, and they carry
/// an error only where the upstream reported one.
pub proof fn law_unfinished_until_the_end(
    has_tools: bool,
    prompt: Seq<char>,
    meta: MetaModel,
    start_ms: i64,
    run: Seq<Timed>,
)
    ensures
        ({
            let probe = state_after(
                CompletionModel::started(has_tools, prompt, meta, start_ms),
                run,
            ).probe;
            &&& !probe.success
            &&& probe.error is Some ==> exists|i: int|
                0 <= i < run.len() && #[trigger] run[i].0 is Error
        }),
    decreases run.len(),
{
    if run.len() > 0 {
        let init = run.drop_last();
        law_unfinished_until_the_end(has_tools, prompt, meta, start_ms, init);
        let start = CompletionModel::started(has_tools, prompt, meta, start_ms);
        if state_after(start, init).probe.error is Some {
            let i = choose|i: int| 0 <= i < init.len() && #[trigger] init[i].0 is Error;
            assert(run[i] == init[i]);
        }
        assert(run[run.len() - 1] == run.last());
    }
}

/// A collected result has the content of its events, end to end.
pub proof fn law_collected_content_is_all_content(events: Seq<EventModel>)
    ensures
        collect::collected(events).content == content_of(events),
    decreases events.len(),
{
    if events.len() > 0 {
        law_collected_content_is_all_content(events.drop_last());
        assert(collect::collected(events).content =~= content_of(events));
    }
}

/// Without tools, and while nothing is retried, a collected completion has the
/// whole answer as its content, no tool calls and no error, and it carries the
/// usage and the account of the closing event.
pub proof fn law_collected_completion_has_the_answer(
    start: CompletionModel,
    run: Seq<Timed>,
    parsed: Seq<ToolCallModel>,
    stripped: Seq<char>,
    prompt_tokens: usize,
)
    requires
        !start.has_tools,
        start.answer.len() == 0,
        forall|i: int|
            0 <= i < run.len() ==> !(#[trigger] run[i].0 is Retrying) && !(run[i].0 is Error),
    ensures
        ({
            let end = state_after(start, run);
            let result = collect::collected(
                events_of(start, run) + end.last_events(parsed, stripped, prompt_tokens),
            );
            &&& result.content == end.answer
            &&& result.tool_calls.len() == 0
            &&& result.error is None
            &&& result.usage == end.usage(stripped, prompt_tokens)
            &&& result.email == end.email
            &&& result.finish_reason == "stop"@
        }),
{
    let end = state_after(start, run);
    let sent = events_of(start, run);
    let last = end.last_events(parsed, stripped, prompt_tokens);
    law_answer_is_streamed_whole(start, run);
    lemma_request_stays(start, run);
    assert(last =~= seq![end.done(parsed, stripped, prompt_tokens)]);
    assert((sent + last).drop_last() =~= sent);
    law_collected_content_is_all_content(sent);
    lemma_run_sends_no_calls(start, run);
    lemma_no_calls_collected(sent);
}

/// While the upstream reports no error, a run sends texts only.
proof fn lemma_run_sends_no_calls(start: CompletionModel, run: Seq<Timed>)
    requires
        forall|i: int| 0 <= i < run.len() ==> !(#[trigger] run[i].0 is Error),
    ensures
        forall|i: int|
            0 <= i < events_of(start, run).len() ==> (#[trigger] events_of(start, run)[i]
                is ReasoningDelta || events_of(start, run)[i] is ContentDelta),
    decreases run.len(),
{
    if run.len() > 0 {
        let init = run.drop_last();
        assert forall|i: int| 0 <= i < init.len() implies !(#[trigger] init[i].0 is Error) by {
            assert(init[i] == run[i]);
        }
        assert(!(run[run.len() - 1].0 is Error));
        lemma_run_sends_no_calls(start, init);
    }
}

/// Texts alone leave everything else in a result as it was.
proof fn lemma_no_calls_collected(events: Seq<EventModel>)
    requires
        forall|i: int|
            0 <= i < events.len() ==> (#[trigger] events[i] is ReasoningDelta || events[i]
                is ContentDelta),
    ensures
        collect::collected(events).tool_calls.len() == 0,
        collect::collected(events).error is None,
    decreases events.len(),
{
    if events.len() > 0 {
        let init = events.drop_last();
        assert forall|i: int| 0 <= i < init.len() implies (#[trigger] init[i] is ReasoningDelta
            || init[i] is ContentDelta) by {
            assert(init[i] == events[i]);
        }
        lemma_no_calls_collected(init);
        assert(events[events.len() - 1] == events.last());
    }
}

/// All that the client gets of a completion: what comes during the run, and
/// what ends it, unless the upstream reported an error.
pub open spec fn output(
    start: CompletionModel,
    run: Seq<Timed>,
    parsed: Seq<ToolCallModel>,
    stripped: Seq<char>,
    prompt_tokens: usize,
) -> Seq<EventModel> {
    if run.len() > 0 && completion::next_after(run.last().0) == Next::Stop {
        events_of(start, run)
    } else {
        events_of(start, run) + state_after(start, run).last_events(
            parsed,
            stripped,
            prompt_tokens,
        )
    }
}

/// While the upstream is listened to, nothing that a run sends ends the
/// stream.
proof fn lemma_run_ends_nothing(start: CompletionModel, run: Seq<Timed>)
    requires
        forall|i: int|
            0 <= i < run.len() ==> completion::next_after(#[trigger] run[i].0) == Next::Listen,
    ensures
        forall|i: int|
            0 <= i < events_of(start, run).len() ==> !translator::ends_stream(
                #[trigger] events_of(start, run)[i],
            ),
    decreases run.len(),
{
    if run.len() > 0 {
        let init = run.drop_last();
        assert forall|i: int| 0 <= i < init.len() implies completion::next_after(
            #[trigger] init[i].0,
        ) == Next::Listen by {
            assert(init[i] == run[i]);
        }
        assert(completion::next_after(run[run.len() - 1].0) == Next::Listen);
        lemma_run_ends_nothing(start, init);
        let before = events_of(start, init);
        let sent = state_after(start, init).events(run.last().0);
        assert(events_of(start, run) == before + sent);
        assert forall|i: int| 0 <= i < (before + sent).len() implies !translator::ends_stream(
            #[trigger] (before + sent)[i],
        ) by {
            if i < before.len() {
                assert((before + sent)[i] == before[i]);
            } else {
                assert((before + sent)[i] == sent[i - before.len()]);
            }
        }
    }
}

/// Every completion ends, once and with its last event, be it that it is done
/// or that the upstream reported an error: so its stream has one end marker,
/// and nothing follows it.
pub proof fn law_output_ends_once(
    start: CompletionModel,
    run: Seq<Timed>,
    parsed: Seq<ToolCallModel>,
    stripped: Seq<char>,
    prompt_tokens: usize,
)
    requires
        forall|i: int|
            0 <= i < run.len() - 1 ==> completion::next_after(#[trigger] run[i].0) == Next::Listen,
    ensures
        ({
            let events = output(start, run, parsed, stripped, prompt_tokens);
            &&& events.len() > 0
            &&& translator::ends_stream(events.last())
            &&& forall|i: int|
                0 <= i < events.len() - 1 ==> !translator::ends_stream(#[trigger] events[i])
        }),
{
    let events = output(start, run, parsed, stripped, prompt_tokens);
    if run.len() == 0 {
        law_done_comes_last_and_once(start, parsed, stripped, prompt_tokens);
        assert(events =~= start.last_events(parsed, stripped, prompt_tokens));
    } else {
        let init = run.drop_last();
        assert forall|i: int| 0 <= i < init.len() implies completion::next_after(
            #[trigger] init[i].0,
        ) == Next::Listen by {
            assert(init[i] == run[i]);
        }
        lemma_run_ends_nothing(start, init);
        let end = state_after(start, run);
        law_done_comes_last_and_once(end, parsed, stripped, prompt_tokens);
        let before = events_of(start, init);
        let sent = state_after(start, init).events(run.last().0);
        let last = end.last_events(parsed, stripped, prompt_tokens);
        assert(events_of(start, run) == before + sent);
        assert forall|i: int| 0 <= i < events.len() - 1 implies !translator::ends_stream(
            #[trigger] events[i],
        ) by {
            if i < before.len() {
                assert(events[i] == before[i]);
            } else if i < before.len() + sent.len() {
                assert(events[i] == sent[i - before.len()]);
            } else {
                assert(events[i] == last[i - before.len() - sent.len()]);
            }
        }
    }
}

/// The result of a completion names the account that it went through, be it
/// that it is done or that the upstream reported an error; and it has an error
/// exactly where the upstream reported one.
pub proof fn law_collected_result_names_the_account(
    start: CompletionModel,
    run: Seq<Timed>,
    parsed: Seq<ToolCallModel>,
    stripped: Seq<char>,
    prompt_tokens: usize,
)
    requires
        forall|i: int|
            0 <= i < run.len() - 1 ==> completion::next_after(#[trigger] run[i].0) == Next::Listen,
    ensures
        ({
            let result = collect::collected(output(start, run, parsed, stripped, prompt_tokens));
            &&& result.email == state_after(start, run).email
            &&& result.error is Some <==> run.len() > 0 && run.last().0 is Error
            &&& run.len() > 0 && run.last().0 is Error ==> result.error == Some(
                run.last().0->Error_0,
            )
        }),
{
    let events = output(start, run, parsed, stripped, prompt_tokens);
    law_output_ends_once(start, run, parsed, stripped, prompt_tokens);
    let init = events.drop_last();
    assert forall|i: int| 0 <= i < init.len() implies !translator::ends_stream(
        #[trigger] init[i],
    ) by {
        assert(init[i] == events[i]);
    }
    lemma_no_error_collected(init);
    if run.len() > 0 && run.last().0 is Error {
        let sent = state_after(start, run.drop_last()).events(run.last().0);
        assert(events.last() == sent.last());
    } else {
        let last = state_after(start, run).last_events(parsed, stripped, prompt_tokens);
        assert(events.last() == last.last());
    }
}

/// Without an event that ends the stream there is no error.
proof fn lemma_no_error_collected(events: Seq<EventModel>)
    requires
        forall|i: int|
            0 <= i < events.len() ==> !translator::ends_stream(#[trigger] events[i]),
    ensures
        collect::collected(events).error is None,
    decreases events.len(),
{
    if events.len() > 0 {
        let init = events.drop_last();
        assert forall|i: int| 0 <= i < init.len() implies !translator::ends_stream(
            #[trigger] init[i],
        ) by {
            assert(init[i] == events[i]);
        }
        lemma_no_error_collected(init);
        assert(events[events.len() - 1] == events.last());
    }
}

} // verus!
