//! The statistics of one request, gathered while it runs and recorded once
//! when it ends, however it ends.

use super::{clone_text, Usage};
use crate::views;
use vstd::prelude::*;

verus! {

/// What is known of a request before it runs.
#[derive(Debug)]
pub struct ProbeMeta {
    pub surface: String,
    pub model: String,
    pub resolved_model: String,
    pub chat_type: String,
    pub stream: bool,
    pub caller: Option<String>,
}

/// What a [`ProbeMeta`] says.
#[verifier::ext_equal]
pub struct MetaModel {
    pub surface: Seq<char>,
    pub model: Seq<char>,
    pub resolved_model: Seq<char>,
    pub chat_type: Seq<char>,
    pub stream: bool,
    pub caller: Option<Seq<char>>,
}

impl View for ProbeMeta {
    type V = MetaModel;

    open spec fn view(&self) -> MetaModel {
        MetaModel {
            surface: self.surface@,
            model: self.model@,
            resolved_model: self.resolved_model@,
            chat_type: self.chat_type@,
            stream: self.stream,
            caller: views::option_view(self.caller),
        }
    }
}

/// The statistics of a request that runs. It counts as failed until it is
/// marked otherwise, so that one that is cut off is recorded as unfinished.
#[derive(Debug)]
pub struct StatsProbe {
    pub meta: ProbeMeta,
    pub start_ms: i64,
    pub ttft_ms: Option<i64>,
    pub usage: Usage,
    pub success: bool,
    pub error: Option<String>,
}

/// What a [`StatsProbe`] says.
#[verifier::ext_equal]
pub struct ProbeModel {
    pub meta: MetaModel,
    pub start_ms: i64,
    pub ttft_ms: Option<i64>,
    pub usage: Usage,
    pub success: bool,
    pub error: Option<Seq<char>>,
}

impl View for StatsProbe {
    type V = ProbeModel;

    open spec fn view(&self) -> ProbeModel {
        ProbeModel {
            meta: self.meta@,
            start_ms: self.start_ms,
            ttft_ms: self.ttft_ms,
            usage: self.usage,
            success: self.success,
            error: views::option_view(self.error),
        }
    }
}

impl ProbeModel {
    /// The probe of a request that has just begun.
    pub open spec fn started(meta: MetaModel, start_ms: i64) -> ProbeModel {
        ProbeModel {
            meta,
            start_ms,
            ttft_ms: None,
            usage: Usage::none(),
            success: false,
            error: None,
        }
    }

    /// The probe once output has been seen; only the first time counts.
    pub open spec fn first_token_at(self, elapsed_ms: i64) -> ProbeModel {
        ProbeModel {
            ttft_ms: if self.ttft_ms is None {
                Some(elapsed_ms)
            } else {
                self.ttft_ms
            },
            ..self
        }
    }

    /// The probe of a request that failed.
    pub open spec fn failed(self, message: Seq<char>) -> ProbeModel {
        ProbeModel { success: false, error: Some(message), ..self }
    }

    /// The probe of a request that was answered.
    pub open spec fn succeeded(self, usage: Usage) -> ProbeModel {
        ProbeModel { success: true, usage, ..self }
    }
}

/// One line of the request statistics.
#[derive(Debug)]
pub struct RequestRecord {
    pub ts_ms: i64,
    pub surface: String,
    pub model: String,
    pub resolved_model: String,
    pub chat_type: String,
    pub stream: bool,
    pub success: bool,
    pub error: Option<String>,
    pub prompt_tokens: i64,
    pub completion_tokens: i64,
    pub reasoning_tokens: i64,
    pub total_tokens: i64,
    pub ttft_ms: Option<i64>,
    pub duration_ms: i64,
    pub caller: Option<String>,
}

impl RequestRecord {
    /// Whether this is the record of a probe that ran for `duration_ms`.
    pub open spec fn records(self, probe: ProbeModel, duration_ms: i64) -> bool {
        &&& self.ts_ms == probe.start_ms
        &&& self.surface@ == probe.meta.surface
        &&& self.model@ == probe.meta.model
        &&& self.resolved_model@ == probe.meta.resolved_model
        &&& self.chat_type@ == probe.meta.chat_type
        &&& self.stream == probe.meta.stream
        &&& self.success == probe.success
        &&& views::option_view(self.error) == probe.error
        &&& self.prompt_tokens == probe.usage.prompt_tokens
        &&& self.completion_tokens == probe.usage.completion_tokens
        &&& self.reasoning_tokens == probe.usage.reasoning_tokens
        &&& self.total_tokens == probe.usage.total_tokens
        &&& self.ttft_ms == probe.ttft_ms
        &&& self.duration_ms == duration_ms
        &&& views::option_view(self.caller) == probe.meta.caller
    }
}

impl StatsProbe {
    /// The probe of a request that began at `start_ms`.
    pub fn new(meta: ProbeMeta, start_ms: i64) -> (r: StatsProbe)
        ensures
            r@ == ProbeModel::started(meta@, start_ms),
    {
        StatsProbe {
            meta,
            start_ms,
            ttft_ms: None,
            usage: Usage::default(),
            success: false,
            error: None,
        }
    }

    /// Notes that output has been seen; only the first time counts.
    pub fn mark_first_token(&mut self, elapsed_ms: i64)
        ensures
            final(self)@ == old(self)@.first_token_at(elapsed_ms),
    {
        if self.ttft_ms.is_none() {
            self.ttft_ms = Some(elapsed_ms);
        }
    }

    /// Notes that the request failed.
    pub fn mark_failed(&mut self, message: &str)
        ensures
            final(self)@ == old(self)@.failed(message@),
    {
        self.error = Some(message.to_owned());
        self.success = false;
    }

    /// Notes that the request was answered.
    pub fn mark_succeeded(&mut self, usage: Usage)
        ensures
            final(self)@ == old(self)@.succeeded(usage),
    {
        self.usage = usage;
        self.success = true;
    }

    /// The record of the request, once it has ended.
    pub fn record(&self, duration_ms: i64) -> (r: RequestRecord)
        ensures
            r.records(self@, duration_ms),
    {
        RequestRecord {
            ts_ms: self.start_ms,
            surface: self.meta.surface.clone(),
            model: self.meta.model.clone(),
            resolved_model: self.meta.resolved_model.clone(),
            chat_type: self.meta.chat_type.clone(),
            stream: self.meta.stream,
            success: self.success,
            error: clone_text(&self.error),
            prompt_tokens: self.usage.prompt_tokens,
            completion_tokens: self.usage.completion_tokens,
            reasoning_tokens: self.usage.reasoning_tokens,
            total_tokens: self.usage.total_tokens,
            ttft_ms: self.ttft_ms,
            duration_ms,
            caller: clone_text(&self.meta.caller),
        }
    }
}

/// How many characters of a caller's identity the statistics keep.
pub const CALLER_PREFIX: usize = 12;

/// A caller's identity, cut so that no full key is stored: at most
/// [`CALLER_PREFIX`] characters, and an ellipsis where something was cut.
pub open spec fn truncated(caller: Seq<char>) -> Seq<char> {
    if caller.len() <= CALLER_PREFIX {
        caller
    } else {
        caller.take(CALLER_PREFIX as int) + "…"@
    }
}

/// A caller's identity as the statistics keep it.
pub fn truncate_caller(caller: &str) -> (r: String)
    ensures
        r@ == truncated(caller@),
{
    if caller.unicode_len() <= CALLER_PREFIX {
        caller.to_owned()
    } else {
        let mut out = caller.substring_char(0, CALLER_PREFIX).to_owned();
        out.append("…");
        out
    }
}

/// A request that is cut off before it is answered or refused is recorded as
/// neither successful nor failed with an error.
pub proof fn law_cut_off_request_is_unfinished(
    meta: MetaModel,
    start_ms: i64,
    elapsed_ms: i64,
    duration_ms: i64,
    record: RequestRecord,
)
    requires
        record.records(ProbeModel::started(meta, start_ms), duration_ms) || record.records(
            ProbeModel::started(meta, start_ms).first_token_at(elapsed_ms),
            duration_ms,
        ),
    ensures
        !record.success,
        record.error is None,
{
}

/// The time to the first token is that of the first mark, whatever marks come
/// later.
pub proof fn law_first_mark_counts(probe: ProbeModel, first_ms: i64, later_ms: i64)
    ensures
        probe.first_token_at(first_ms).first_token_at(later_ms) == probe.first_token_at(first_ms),
{
}

/// No full key is kept: a longer identity loses all but its first characters.
pub proof fn law_long_caller_is_cut(caller: Seq<char>)
    requires
        caller.len() > CALLER_PREFIX,
    ensures
        truncated(caller).len() == CALLER_PREFIX + 1,
        caller.take(CALLER_PREFIX as int).is_prefix_of(truncated(caller)),
        truncated(caller).last() == '…',
{
    reveal_strlit("…");
}

/// A caller of up to twelve characters is kept as it is; of a longer one the
/// first twelve are kept, and an ellipsis.
pub proof fn law_twelve_characters_of_a_caller_are_kept(caller: Seq<char>)
    ensures
        caller.len() <= 12 ==> truncated(caller) == caller,
        caller.len() > 12 ==> truncated(caller) == caller.take(12).push('…'),
{
    reveal_strlit("…");
    if caller.len() > 12 {
        assert(truncated(caller) =~= caller.take(12).push('…'));
    }
}

/// A record tells when the request began, how long it took and when the first
/// output came, what was asked for and by whom, how it ended and what it cost.
pub proof fn law_record_tells_what_was_noted(
    record: RequestRecord,
    probe: ProbeModel,
    duration_ms: i64,
)
    requires
        record.records(probe, duration_ms),
    ensures
        record.ts_ms == probe.start_ms,
        record.duration_ms == duration_ms,
        record.ttft_ms == probe.ttft_ms,
        record.surface@ == probe.meta.surface,
        record.model@ == probe.meta.model,
        record.resolved_model@ == probe.meta.resolved_model,
        record.chat_type@ == probe.meta.chat_type,
        record.stream == probe.meta.stream,
        record.success == probe.success,
        record.error is Some <==> probe.error is Some,
        record.error is Some ==> record.error->0@ == probe.error->0,
        record.caller is Some <==> probe.meta.caller is Some,
        record.caller is Some ==> record.caller->0@ == probe.meta.caller->0,
        record.prompt_tokens == probe.usage.prompt_tokens,
        record.completion_tokens == probe.usage.completion_tokens,
        record.reasoning_tokens == probe.usage.reasoning_tokens,
        record.total_tokens == probe.usage.total_tokens,
{
}

/// A mark of output is kept where none was, and changes nothing else; a failure
/// is kept with its message, and changes neither the usage nor the times.
pub proof fn law_marks_change_their_own_part(
    probe: ProbeModel,
    elapsed_ms: i64,
    message: Seq<char>,
)
    ensures
        probe.ttft_ms is None ==> probe.first_token_at(elapsed_ms).ttft_ms == Some(elapsed_ms),
        probe.ttft_ms is Some ==> probe.first_token_at(elapsed_ms) == probe,
        probe.first_token_at(elapsed_ms) == (ProbeModel {
            ttft_ms: probe.first_token_at(elapsed_ms).ttft_ms,
            ..probe
        }),
        probe.failed(message).error == Some(message),
        !probe.failed(message).success,
        probe.failed(message).usage == probe.usage,
        probe.failed(message).ttft_ms == probe.ttft_ms,
        probe.failed(message).start_ms == probe.start_ms,
        probe.failed(message).meta == probe.meta,
{
}

} // verus!
