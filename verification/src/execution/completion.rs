//! A completion as a state machine: one step per upstream event, and a finish
//! once the upstream is done.

use super::probe::{ProbeMeta, ProbeModel, MetaModel, StatsProbe};
use super::reasoning;
use super::reasoning::ReasoningTracker;
use super::tokens;
use super::{EventModel, OutEvent, Usage};
use crate::json;
use crate::json::{Json, JsonModel};
use crate::tally;
use crate::text;
use crate::toolcall::{ParsedToolCall, ToolCallModel};
use crate::upstream::sse::{DeltaModel, QwenDelta};
use crate::upstream::{UpstreamEvent, UpstreamModel};
use crate::views;
use vstd::prelude::*;

verus! {

/// Output and reasoning tokens that an upstream `usage` reports; zero for what
/// it does not report.
pub open spec fn usage_counts(usage: JsonModel) -> (i64, i64) {
    (
        json::i64_or(usage.get("output_tokens"@), 0),
        json::i64_or(json::member(usage.get("output_tokens_details"@), "reasoning_tokens"@), 0),
    )
}

/// The output and reasoning tokens that an upstream `usage` reports.
pub fn parse_upstream_usage(usage: &Json) -> (r: (i64, i64))
    ensures
        r == usage_counts(usage@),
{
    let output: i64 = json::get_i64_or(usage.get("output_tokens"), 0);
    let reasoning: i64 = json::get_i64_or(
        json::get_member(usage.get("output_tokens_details"), "reasoning_tokens"),
        0,
    );
    (output, reasoning)
}

/// The state of a completion.
#[derive(Debug)]
pub struct Completion {
    /// Whether the request offers tools. If so, the answer is held back until
    /// it is complete, and tool calls are read out of it.
    pub has_tools: bool,
    pub prompt: String,
    pub tracker: ReasoningTracker,
    /// The answer so far.
    pub answer: String,
    /// Whether part of the answer was sent as it came.
    pub streamed: bool,
    pub out_tokens: i64,
    pub reasoning_tokens: i64,
    /// The account that took the request last.
    pub email: Option<String>,
    /// The phase of every delta so far.
    pub phases: Vec<String>,
    /// The content that was skipped because it belongs to a thinking phase.
    pub skipped: String,
    pub probe: StatsProbe,
}

/// What a [`Completion`] is at.
#[verifier::ext_equal]
pub struct CompletionModel {
    pub has_tools: bool,
    pub prompt: Seq<char>,
    pub emitted: Seq<char>,
    pub answer: Seq<char>,
    pub streamed: bool,
    pub out_tokens: i64,
    pub reasoning_tokens: i64,
    pub email: Option<Seq<char>>,
    pub phases: Seq<Seq<char>>,
    pub skipped: Seq<char>,
    pub probe: ProbeModel,
}

impl View for Completion {
    type V = CompletionModel;

    open spec fn view(&self) -> CompletionModel {
        CompletionModel {
            has_tools: self.has_tools,
            prompt: self.prompt@,
            emitted: self.tracker@,
            answer: self.answer@,
            streamed: self.streamed,
            out_tokens: self.out_tokens,
            reasoning_tokens: self.reasoning_tokens,
            email: views::option_view(self.email),
            phases: views::seq_view(self.phases@),
            skipped: self.skipped@,
            probe: self.probe@,
        }
    }
}

/// What a step yields: events for the client, and what to do next.
#[derive(Debug)]
pub struct Step {
    pub events: Vec<OutEvent>,
    pub next: Next,
}

/// What to do after a step.
#[derive(Debug, Clone, Copy, PartialEq, Eq)]
pub enum Next {
    /// Wait for the next upstream event; where none comes, finish.
    Listen,
    /// Finish the completion.
    Finish,
    /// Stop: the completion failed, and the client knows.
    Stop,
}

/// Phases whose content is no part of the answer.
pub open spec fn is_thinking(phase: Seq<char>) -> bool {
    phase == "think"@ || phase == "thinking_summary"@
}

impl CompletionModel {
    /// The state before the first upstream event.
    pub open spec fn started(
        has_tools: bool,
        prompt: Seq<char>,
        meta: MetaModel,
        start_ms: i64,
    ) -> CompletionModel {
        CompletionModel {
            has_tools,
            prompt,
            emitted: seq![],
            answer: seq![],
            streamed: false,
            out_tokens: 0,
            reasoning_tokens: 0,
            email: None,
            phases: seq![],
            skipped: seq![],
            probe: ProbeModel::started(meta, start_ms),
        }
    }

    /// The state with everything void that came of the upstream so far; the
    /// account and the statistics stay.
    pub open spec fn cleared(self) -> CompletionModel {
        CompletionModel {
            emitted: seq![],
            answer: seq![],
            streamed: false,
            out_tokens: 0,
            reasoning_tokens: 0,
            phases: seq![],
            skipped: seq![],
            ..self
        }
    }

    /// The state with the counts of a delta's `usage`, if it has one; counts
    /// that are not positive are ignored.
    pub open spec fn with_usage(self, usage: Option<JsonModel>) -> CompletionModel {
        match usage {
            Some(u) => {
                let (output, reasoning) = usage_counts(u);
                CompletionModel {
                    out_tokens: if output > 0 {
                        output
                    } else {
                        self.out_tokens
                    },
                    reasoning_tokens: if reasoning > 0 {
                        reasoning
                    } else {
                        self.reasoning_tokens
                    },
                    ..self
                }
            },
            None => self,
        }
    }

    /// The reasoning increment of a delta.
    pub open spec fn reasoning_of(self, delta: DeltaModel) -> Seq<char> {
        reasoning::increment(self.emitted, delta.reasoning_cumulative, delta.reasoning_incremental)
    }

    /// Whether a delta adds to the answer.
    pub open spec fn answers(self, delta: DeltaModel) -> bool {
        delta.content.len() > 0 && !is_thinking(delta.phase)
    }

    /// The state after a delta.
    pub open spec fn after_delta(self, delta: DeltaModel, elapsed_ms: i64) -> CompletionModel {
        let counted = self.with_usage(delta.usage);
        let visible = self.reasoning_of(delta).len() > 0 || self.answers(delta);
        CompletionModel {
            emitted: reasoning::emitted_next(
                self.emitted,
                delta.reasoning_cumulative,
                delta.reasoning_incremental,
            ),
            answer: if self.answers(delta) {
                self.answer + delta.content
            } else {
                self.answer
            },
            streamed: self.streamed || (self.answers(delta) && !self.has_tools),
            phases: self.phases.push(delta.phase),
            skipped: if is_thinking(delta.phase) {
                self.skipped + delta.content
            } else {
                self.skipped
            },
            probe: if visible {
                self.probe.first_token_at(elapsed_ms)
            } else {
                self.probe
            },
            ..counted
        }
    }

    /// The state after an upstream event.
    pub open spec fn after(self, event: UpstreamModel, elapsed_ms: i64) -> CompletionModel {
        match event {
            UpstreamModel::Meta { email } => CompletionModel { email: Some(email), ..self },
            UpstreamModel::Delta(delta) => self.after_delta(delta, elapsed_ms),
            UpstreamModel::Retrying => self.cleared(),
            UpstreamModel::Done => self,
            UpstreamModel::Error(message) => CompletionModel {
                probe: self.probe.failed(message),
                ..self
            },
        }
    }

    /// The events that a delta gives rise to: its reasoning increment if there
    /// is one, and its content where that is part of the answer and the answer
    /// is not held back.
    pub open spec fn delta_events(self, delta: DeltaModel) -> Seq<EventModel> {
        let reasoning = self.reasoning_of(delta);
        (if reasoning.len() > 0 {
            seq![EventModel::ReasoningDelta(reasoning)]
        } else {
            seq![]
        }) + (if self.answers(delta) && !self.has_tools {
            seq![EventModel::ContentDelta(delta.content)]
        } else {
            seq![]
        })
    }

    /// The events that an upstream event gives rise to.
    pub open spec fn events(self, event: UpstreamModel) -> Seq<EventModel> {
        match event {
            UpstreamModel::Delta(delta) => self.delta_events(delta),
            UpstreamModel::Error(message) => seq![EventModel::Error { message, email: self.email }],
            _ => seq![],
        }
    }
}

/// What to do after an upstream event.
pub open spec fn next_after(event: UpstreamModel) -> Next {
    match event {
        UpstreamModel::Done => Next::Finish,
        UpstreamModel::Error(_) => Next::Stop,
        _ => Next::Listen,
    }
}

impl Completion {
    /// A completion before its first upstream event.
    pub fn new(has_tools: bool, prompt: &str, meta: ProbeMeta, start_ms: i64) -> (r: Completion)
        ensures
            r@ == CompletionModel::started(has_tools, prompt@, meta@, start_ms),
    {
        let r = Completion {
            has_tools,
            prompt: prompt.to_owned(),
            tracker: ReasoningTracker::new(),
            answer: String::new(),
            streamed: false,
            out_tokens: 0,
            reasoning_tokens: 0,
            email: None,
            phases: Vec::new(),
            skipped: String::new(),
            probe: StatsProbe::new(meta, start_ms),
        };
        assert(r@ =~~= CompletionModel::started(has_tools, prompt@, meta@, start_ms));
        r
    }

    fn take_delta(&mut self, delta: QwenDelta, elapsed_ms: i64) -> (r: Vec<OutEvent>)
        ensures
            final(self)@ == old(self)@.after_delta(delta@, elapsed_ms),
            views::seq_view(r@) == old(self)@.delta_events(delta@),
    {
        broadcast use views::lemma_seq_view_push;

        let ghost before = self@;
        let mut events: Vec<OutEvent> = Vec::new();
        self.phases.push(delta.phase.clone());
        if let Some(usage) = &delta.usage {
            let (output, reasoning) = parse_upstream_usage(usage);
            if output > 0 {
                self.out_tokens = output;
            }
            if reasoning > 0 {
                self.reasoning_tokens = reasoning;
            }
        }
        let increment = self.tracker.delta(
            &delta.reasoning_cumulative,
            delta.reasoning_incremental.as_str(),
        );
        if !increment.as_str().is_empty() {
            self.probe.mark_first_token(elapsed_ms);
            events.push(OutEvent::ReasoningDelta(increment));
        }
        let thinking = text::same(delta.phase.as_str(), "think") || text::same(
            delta.phase.as_str(),
            "thinking_summary",
        );
        if !delta.content.as_str().is_empty() {
            if !thinking {
                self.probe.mark_first_token(elapsed_ms);
                self.answer.append(delta.content.as_str());
                if !self.has_tools {
                    events.push(OutEvent::ContentDelta(delta.content.clone()));
                    self.streamed = true;
                }
            } else {
                self.skipped.append(delta.content.as_str());
            }
        }
        assert(before.skipped + Seq::<char>::empty() =~= before.skipped);
        assert(delta.content@.len() == 0 ==> delta.content@ =~= Seq::<char>::empty());
        assert(self@ =~~= before.after_delta(delta@, elapsed_ms));
        assert(views::seq_view(events@) =~~= before.delta_events(delta@));
        events
    }

    /// Takes in one upstream event, `elapsed_ms` after the start.
    pub fn on_upstream(&mut self, event: UpstreamEvent, elapsed_ms: i64) -> (r: Step)
        ensures
            final(self)@ == old(self)@.after(event@, elapsed_ms),
            views::seq_view(r.events@) == old(self)@.events(event@),
            r.next == next_after(event@),
    {
        broadcast use views::lemma_seq_view_push;

        let ghost before = self@;
        match event {
            UpstreamEvent::Meta { email } => {
                self.email = Some(email);
                let events: Vec<OutEvent> = Vec::new();
                assert(views::seq_view(events@) =~= seq![]);
                Step { events, next: Next::Listen }
            },
            UpstreamEvent::Delta(delta) => Step {
                events: self.take_delta(delta, elapsed_ms),
                next: Next::Listen,
            },
            UpstreamEvent::Retrying => {
                self.answer = String::new();
                self.streamed = false;
                self.tracker = ReasoningTracker::new();
                self.out_tokens = 0;
                self.reasoning_tokens = 0;
                self.phases = Vec::new();
                self.skipped = String::new();
                assert(self@ =~~= before.cleared());
                let events: Vec<OutEvent> = Vec::new();
                assert(views::seq_view(events@) =~= seq![]);
                Step { events, next: Next::Listen }
            },
            UpstreamEvent::Done => {
                let events: Vec<OutEvent> = Vec::new();
                assert(views::seq_view(events@) =~= seq![]);
                Step { events, next: Next::Finish }
            },
            UpstreamEvent::Error(message) => {
                self.probe.mark_failed(message.as_str());
                let mut events: Vec<OutEvent> = Vec::new();
                let email = super::clone_text(&self.email);
                events.push(OutEvent::Error { message, email });
                assert(views::seq_view(events@) =~= before.events(event@));
                Step { events, next: Next::Stop }
            },
        }
    }
}

/// What the end of a completion yields: the last events for the client, and
/// whether the outcome is worth a look.
#[derive(Debug)]
pub struct Finish {
    pub events: Vec<OutEvent>,
    pub diagnosis: Diagnosis,
}

/// Outcomes of a request with tools that hint at a broken stream.
#[derive(Debug, Clone, Copy, PartialEq, Eq)]
pub enum Diagnosis {
    Unremarkable,
    /// The client got neither content nor tool calls.
    Silent,
    /// The client got no tool calls and next to no content.
    Short,
}

/// Answers below this many characters are reported as short.
pub const SHORT_ANSWER: usize = 30;

impl CompletionModel {
    /// The tool calls that count: those read out of a non-empty answer to a
    /// request with tools.
    pub open spec fn calls(self, parsed: Seq<ToolCallModel>) -> Seq<ToolCallModel> {
        if self.has_tools && self.answer.len() > 0 {
            parsed
        } else {
            seq![]
        }
    }

    /// The answer that is sent only now, without its tool calls and trimmed.
    pub open spec fn held_back(self, stripped: Seq<char>) -> Seq<EventModel> {
        if self.has_tools && !self.streamed && text::trimmed(stripped).len() > 0 {
            seq![EventModel::ContentDelta(text::trimmed(stripped))]
        } else {
            seq![]
        }
    }

    /// The tool calls, if there are any.
    pub open spec fn call_events(self, parsed: Seq<ToolCallModel>) -> Seq<EventModel> {
        if self.calls(parsed).len() > 0 {
            seq![EventModel::ToolCalls(self.calls(parsed))]
        } else {
            seq![]
        }
    }

    /// The last resort: where neither content nor tool calls came of an answer
    /// that is not blank, the answer as it is.
    pub open spec fn fallback(
        self,
        parsed: Seq<ToolCallModel>,
        stripped: Seq<char>,
    ) -> Seq<EventModel> {
        if self.has_tools && !self.streamed && self.held_back(stripped).len() == 0 && self.calls(
            parsed,
        ).len() == 0 && text::trimmed(self.answer).len() > 0 {
            seq![EventModel::ContentDelta(self.answer)]
        } else {
            seq![]
        }
    }

    /// The completion tokens: what the upstream reported, or else the number
    /// of characters of the visible answer.
    pub open spec fn completion_tokens(self, stripped: Seq<char>) -> i64 {
        if self.out_tokens > 0 {
            self.out_tokens
        } else if self.has_tools {
            stripped.len() as i64
        } else {
            self.answer.len() as i64
        }
    }

    /// Whether the total fits its type.
    pub open spec fn total_fits(self, stripped: Seq<char>, prompt_tokens: usize) -> bool {
        i64::MIN <= (prompt_tokens as i64) + self.completion_tokens(stripped) <= i64::MAX
    }

    /// The token counts of the completion.
    pub open spec fn usage(self, stripped: Seq<char>, prompt_tokens: usize) -> Usage {
        Usage {
            prompt_tokens: prompt_tokens as i64,
            completion_tokens: self.completion_tokens(stripped),
            total_tokens: ((prompt_tokens as i64) + self.completion_tokens(stripped)) as i64,
            reasoning_tokens: self.reasoning_tokens,
        }
    }

    /// The closing event.
    pub open spec fn done(
        self,
        parsed: Seq<ToolCallModel>,
        stripped: Seq<char>,
        prompt_tokens: usize,
    ) -> EventModel {
        EventModel::Done {
            usage: self.usage(stripped, prompt_tokens),
            finish_reason: if self.calls(parsed).len() > 0 {
                "tool_calls"@
            } else {
                "stop"@
            },
            email: self.email,
        }
    }

    /// The events that end a completion, given the tool calls `parsed` out of
    /// its answer and the answer `stripped` of them.
    pub open spec fn last_events(
        self,
        parsed: Seq<ToolCallModel>,
        stripped: Seq<char>,
        prompt_tokens: usize,
    ) -> Seq<EventModel> {
        (self.held_back(stripped) + self.call_events(parsed) + self.fallback(
            parsed,
            stripped,
        )).push(self.done(parsed, stripped, prompt_tokens))
    }

    /// Whether the client has got neither content nor tool calls.
    pub open spec fn silent(self, parsed: Seq<ToolCallModel>, stripped: Seq<char>) -> bool {
        !self.streamed && self.held_back(stripped).len() == 0 && self.fallback(
            parsed,
            stripped,
        ).len() == 0 && self.calls(parsed).len() == 0
    }

    /// What is remarkable about the outcome.
    pub open spec fn diagnosis(
        self,
        parsed: Seq<ToolCallModel>,
        stripped: Seq<char>,
    ) -> Diagnosis {
        if !self.has_tools {
            Diagnosis::Unremarkable
        } else if self.silent(parsed, stripped) {
            Diagnosis::Silent
        } else if self.calls(parsed).len() == 0 && 0 < stripped.len() < SHORT_ANSWER {
            Diagnosis::Short
        } else {
            Diagnosis::Unremarkable
        }
    }
}

impl Completion {
    fn completion_count(&self, stripped: &str) -> (r: i64)
        ensures
            r == self@.completion_tokens(stripped@),
    {
        if self.out_tokens > 0 {
            self.out_tokens
        } else if self.has_tools {
            stripped.unicode_len() as i64
        } else {
            self.answer.as_str().unicode_len() as i64
        }
    }

    /// Ends a completion whose upstream is done: `parsed` are the tool calls
    /// read out of its answer, `stripped` is the answer without them.
    pub fn finish(
        &mut self,
        parsed: Vec<ParsedToolCall>,
        stripped: &str,
        prompt_tokens: usize,
    ) -> (r: Finish)
        requires
            old(self)@.total_fits(stripped@, prompt_tokens),
        ensures
            views::seq_view(r.events@) == old(self)@.last_events(
                views::seq_view(parsed@),
                stripped@,
                prompt_tokens,
            ),
            r.diagnosis == old(self)@.diagnosis(views::seq_view(parsed@), stripped@),
            final(self)@ == (CompletionModel {
                probe: old(self)@.probe.succeeded(old(self)@.usage(stripped@, prompt_tokens)),
                ..old(self)@
            }),
    {
        broadcast use views::lemma_seq_view_push;

        let ghost before = self@;
        let ghost all = views::seq_view(parsed@);
        let mut events: Vec<OutEvent> = Vec::new();
        let calls: Vec<ParsedToolCall> = if self.has_tools && !self.answer.as_str().is_empty() {
            parsed
        } else {
            Vec::new()
        };
        assert(views::seq_view(calls@) =~= before.calls(all));
        let has_calls = calls.len() > 0;
        let mut sent = false;
        assert(views::seq_view(events@) =~= seq![]);
        if self.has_tools && !self.streamed {
            let cleaned = stripped.trim();
            if !cleaned.is_empty() {
                events.push(OutEvent::ContentDelta(cleaned.to_owned()));
                sent = true;
            }
        }
        assert(views::seq_view(events@) =~= before.held_back(stripped@));
        assert(sent == (before.held_back(stripped@).len() > 0));
        if has_calls {
            events.push(OutEvent::ToolCalls(calls));
        }
        assert(views::seq_view(events@) =~= before.held_back(stripped@) + before.call_events(all));
        if self.has_tools && !self.streamed && !sent && !has_calls
            && !self.answer.as_str().trim().is_empty() {
            events.push(OutEvent::ContentDelta(self.answer.clone()));
            sent = true;
        }
        assert(views::seq_view(events@) =~= before.held_back(stripped@) + before.call_events(all)
            + before.fallback(all, stripped@));
        let silent = !self.streamed && !sent && !has_calls;
        let chars: usize = stripped.unicode_len();
        let diagnosis = if !self.has_tools {
            Diagnosis::Unremarkable
        } else if silent {
            Diagnosis::Silent
        } else if !has_calls && 0 < chars && chars < SHORT_ANSWER {
            Diagnosis::Short
        } else {
            Diagnosis::Unremarkable
        };
        let completion_tokens: i64 = self.completion_count(stripped);
        let prompt_tokens: i64 = prompt_tokens as i64;
        let usage = Usage {
            prompt_tokens,
            completion_tokens,
            total_tokens: prompt_tokens + completion_tokens,
            reasoning_tokens: self.reasoning_tokens,
        };
        self.probe.mark_succeeded(usage);
        let finish_reason = if has_calls {
            "tool_calls"
        } else {
            "stop"
        };
        events.push(
            OutEvent::Done {
                usage,
                finish_reason: finish_reason.to_owned(),
                email: super::clone_text(&self.email),
            },
        );
        Finish { events, diagnosis }
    }

    /// Ends a completion, counting the tokens of its prompt. `None`, and
    /// nothing done, where the prompt cannot be encoded or the total does not
    /// fit its type.
    pub fn complete(&mut self, parsed: Vec<ParsedToolCall>, stripped: &str) -> (r: Option<Finish>)
        ensures
            (match (r, tokens::cl100k_tokens(old(self)@.prompt)) {
                (Some(end), Some(counted)) => {
                    let n = counted.len() as usize;
                    &&& counted.len() == n
                    &&& old(self)@.total_fits(stripped@, n)
                    &&& views::seq_view(end.events@) == old(self)@.last_events(
                        views::seq_view(parsed@),
                        stripped@,
                        n,
                    )
                    &&& end.diagnosis == old(self)@.diagnosis(
                        views::seq_view(parsed@),
                        stripped@,
                    )
                    &&& final(self)@ == (CompletionModel {
                        probe: old(self)@.probe.succeeded(old(self)@.usage(stripped@, n)),
                        ..old(self)@
                    })
                },
                (Some(_), None) => false,
                (None, Some(counted)) => {
                    &&& !old(self)@.total_fits(stripped@, counted.len() as usize)
                    &&& final(self)@ == old(self)@
                },
                (None, None) => final(self)@ == old(self)@,
            }),
    {
        let prompt_tokens: usize = match tokens::try_count_tokens(self.prompt.as_str()) {
            Some(n) => n,
            None => return None,
        };
        let completion_tokens: i64 = self.completion_count(stripped);
        if (prompt_tokens as i64).checked_add(completion_tokens).is_none() {
            return None;
        }
        Some(self.finish(parsed, stripped, prompt_tokens))
    }
}

impl Completion {
    /// How many deltas came in each phase, the phases in order.
    pub fn phase_counts(&self) -> (r: Vec<(String, usize)>)
        ensures
            tally::tallies(r@, self@.phases),
    {
        tally::tally(&self.phases)
    }
}

} // verus!
