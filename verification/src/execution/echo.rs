//! What the gateway's own readers make of the messages that it sends.

use super::translator;
use super::translator::TranslatorModel;
use super::EventModel;
use crate::json;
use crate::json::JsonModel;
use crate::text;
use crate::upstream::sse;
use crate::upstream::sse::DeltaModel;
use vstd::prelude::*;

verus! {

/// A delta without anything in it.
pub open spec fn blank() -> DeltaModel {
    DeltaModel {
        phase: "answer"@,
        content: seq![],
        reasoning_cumulative: None,
        reasoning_incremental: seq![],
        status: seq![],
        usage: None,
    }
}

/// The deltas that are read out of the message of an event: its content or its
/// reasoning, as it was. Of tool calls nothing is read, of the closing event
/// the usage, and an error is no delta.
pub open spec fn deltas_in(event: EventModel) -> Seq<DeltaModel> {
    match event {
        EventModel::ContentDelta(s) => seq![DeltaModel { content: s, ..blank() }],
        EventModel::ReasoningDelta(s) => seq![DeltaModel { reasoning_incremental: s, ..blank() }],
        EventModel::ToolCalls(_) => seq![blank()],
        EventModel::Done { usage, .. } => seq![
            DeltaModel { usage: Some(translator::usage_model(usage)), ..blank() },
        ],
        EventModel::Error { .. } => seq![],
    }
}

/// The error that is read out of the message of an event: that of an error,
/// and none of any other event.
pub open spec fn error_in(event: EventModel) -> Option<Seq<char>> {
    match event {
        EventModel::Error { message, .. } => Some(
            sse::coded_error("upstream_error"@, "-"@, message),
        ),
        _ => None,
    }
}

/// White space is taken off no text that has none at its ends.
proof fn lemma_trimmed(s: Seq<char>)
    requires
        s.len() > 0,
        !text::is_white_space(s.first()),
        !text::is_white_space(s.last()),
    ensures
        text::trimmed(s) == s,
{
}

/// The lines of a framed line: that line and an empty one.
proof fn lemma_framed_lines(payload: Seq<char>)
    requires
        payload.len() > 0,
        !payload.contains('\n'),
        payload.last() != '\r',
    ensures
        text::lines_of(translator::frame(payload)) == seq!["data: "@ + payload, seq![]],
{
    reveal_strlit("data: ");
    reveal_strlit("\n\n");
    let whole = translator::frame(payload);
    let line = "data: "@ + payload;
    let n = line.len() as int;
    text::lemma_line_len(whole);
    assert(whole[n] == '\n');
    let m = text::line_len(whole) as int;
    if m < n {
        assert(whole[m] == '\n');
        assert(whole[m] == line[m]);
        if m >= 6 {
            assert(payload[m - 6] == '\n');
            assert(payload.contains('\n'));
        }
    }
    assert(m == n);
    assert(whole.take(n) =~= line);
    assert(line.last() == payload.last());
    let rest = whole.skip(n + 1);
    assert(rest =~= seq!['\n']);
    assert(text::line_len(rest) == 0);
    assert(rest.take(0) =~= seq![]);
    assert(rest.skip(1) =~= seq![]);
    assert(text::lines_of(rest.skip(1)) =~= seq![]);
    assert(text::lines_of(rest) =~= seq![seq![]]);
    assert(text::lines_of(whole) =~= seq![line, seq![]]);
}

/// An empty line carries nothing.
proof fn lemma_empty_line()
    ensures
        sse::payload_of(seq![]) is None,
        sse::object_text_of(seq![]) is None,
{
    reveal_strlit("data:");
    assert(text::trimmed(seq![]) =~= seq![]);
}

/// What follows `data:` in a framed line.
proof fn lemma_after_prefix(payload: Seq<char>)
    requires
        payload.len() > 0,
        !text::is_white_space(payload.first()),
        !text::is_white_space(payload.last()),
    ensures
        ({
            let line = text::trimmed("data: "@ + payload);
            &&& "data:"@.is_prefix_of(line)
            &&& text::trimmed(line.skip("data:"@.len() as int)) == payload
        }),
{
    reveal_strlit("data: ");
    reveal_strlit("data:");
    let line = "data: "@ + payload;
    assert(line.first() == 'd');
    assert(line.last() == payload.last());
    lemma_trimmed(line);
    assert(line.take(5) =~= "data:"@);
    let rest = line.skip(5);
    assert(rest.first() == ' ');
    assert(rest.drop_first() =~= payload);
    assert(text::trimmed_start(rest) == text::trimmed_start(payload));
    lemma_trimmed(payload);
}

/// What is read out of two lines, the second of which is empty.
proof fn lemma_two_lines(line: Seq<char>)
    ensures
        seq![line, seq![]].filter_map(|line: Seq<char>| sse::delta_of_line(line)) == (
        match sse::delta_of_line(line) {
            Some(delta) => seq![delta],
            None => seq![],
        }),
        sse::first_error(seq![line, seq![]]) == sse::error_of_line(line),
{
    lemma_empty_line();
    let read = |line: Seq<char>| sse::delta_of_line(line);
    let lines = seq![line, seq![]];
    assert(lines.drop_last() =~= seq![line]);
    assert(seq![line].drop_last() =~= seq![]);
    assert(seq![line].drop_last().filter_map(read) =~= seq![]);
    assert(seq![line].filter_map(read) =~= match sse::delta_of_line(line) {
        Some(delta) => seq![delta],
        None => seq![],
    });
    assert(lines.filter_map(read) =~= seq![line].filter_map(read));
    assert(lines.drop_first() =~= seq![seq![]]);
    assert(lines.drop_first().drop_first() =~= seq![]);
    assert(sse::first_error(lines.drop_first().drop_first()) is None);
    assert(sse::first_error(lines.drop_first()) is None);
}

/// The readers read the value of a framed line that stands in braces.
proof fn lemma_framed_value(payload: Seq<char>, message: JsonModel)
    requires
        !payload.contains('\n'),
        json::codec::in_braces(payload),
        json::codec::parsed(payload) == Some(message),
    ensures
        sse::deltas_of(translator::frame(payload)) == (match sse::delta_of(message) {
            Some(delta) => seq![delta],
            None => seq![],
        }),
        sse::first_error(text::lines_of(translator::frame(payload))) == sse::error_of(message),
{
    reveal_strlit("[DONE]");
    reveal_strlit("{");
    let line = "data: "@ + payload;
    lemma_framed_lines(payload);
    lemma_after_prefix(payload);
    lemma_two_lines(line);
    assert(payload != "[DONE]"@);
    assert(payload.take(1) =~= "{"@);
    assert(sse::payload_of(line) == Some(payload));
    assert(sse::object_text_of(line) == Some(payload));
}

/// The readers read nothing out of the end marker.
pub(crate) proof fn lemma_end_marker()
    ensures
        sse::deltas_of("data: [DONE]\n\n"@) == Seq::<DeltaModel>::empty(),
        sse::first_error(text::lines_of("data: [DONE]\n\n"@)) is None,
{
    reveal_strlit("data: ");
    reveal_strlit("[DONE]");
    reveal_strlit("\n\n");
    reveal_strlit("data: [DONE]\n\n");
    let payload = "[DONE]"@;
    assert("data: [DONE]\n\n"@ =~= translator::frame(payload));
    lemma_framed_lines(payload);
    lemma_after_prefix(payload);
    lemma_two_lines("data: "@ + payload);
}

/// Where no field holds text, no text is found.
proof fn lemma_no_text(values: Seq<Option<JsonModel>>)
    requires
        forall|i: int|
            0 <= i < values.len() ==> (json::text_of(#[trigger] values[i]) matches Some(s)
                ==> s.len() == 0),
    ensures
        sse::first_text_of(values) == Seq::<char>::empty(),
    decreases values.len(),
{
    if values.len() > 0 {
        let rest = values.drop_first();
        assert forall|i: int| 0 <= i < rest.len() implies (json::text_of(
            #[trigger] rest[i],
        ) matches Some(s) ==> s.len() == 0) by {
            assert(rest[i] == values[i + 1]);
        }
        lemma_no_text(rest);
    }
}

/// Gives the prover the characters of the keys that are looked for.
proof fn lemma_reveal_keys()
    ensures
        "choices"@.len() == 7 && "choices"@[1] == 'h',
        "created"@.len() == 7 && "created"@[1] == 'r' && "created"@[0] == 'c',
        "choices"@[0] == 'c',
        "success"@.len() == 7 && "success"@[0] == 's',
        "content"@.len() == 7 && "details"@.len() == 7 && "details"@[0] == 'd',
        "message"@.len() == 7 && "message"@[0] == 'm',
        "id"@.len() == 2 && "object"@.len() == 6 && "status"@.len() == 6,
        "model"@.len() == 5 && "model"@[0] == 'm',
        "usage"@.len() == 5 && "usage"@[0] == 'u',
        "error"@.len() == 5 && "error"@[0] == 'e',
        "index"@.len() == 5 && "index"@[0] == 'i',
        "delta"@.len() == 5 && "delta"@[0] == 'd',
        "extra"@.len() == 5 && "phase"@.len() == 5,
        "role"@.len() == 4 && "code"@.len() == 4 && "code"@[0] == 'c',
        "type"@.len() == 4 && "type"@[0] == 't',
        "finish_reason"@.len() == 13 && "tool_calls"@.len() == 10,
        "request_id"@.len() == 10 && "response_id"@.len() == 11,
        "reasoning_content"@.len() == 17 && "reasoning"@.len() == 9,
        "reasoning_text"@.len() == 14,
        "thinking"@.len() == 8 && "thoughts"@.len() == 8,
{
    reveal_strlit("choices");
    reveal_strlit("created");
    reveal_strlit("success");
    reveal_strlit("content");
    reveal_strlit("details");
    reveal_strlit("message");
    reveal_strlit("id");
    reveal_strlit("object");
    reveal_strlit("status");
    reveal_strlit("model");
    reveal_strlit("usage");
    reveal_strlit("error");
    reveal_strlit("index");
    reveal_strlit("delta");
    reveal_strlit("extra");
    reveal_strlit("phase");
    reveal_strlit("role");
    reveal_strlit("code");
    reveal_strlit("type");
    reveal_strlit("finish_reason");
    reveal_strlit("tool_calls");
    reveal_strlit("request_id");
    reveal_strlit("response_id");
    reveal_strlit("reasoning_content");
    reveal_strlit("reasoning");
    reveal_strlit("reasoning_text");
    reveal_strlit("thinking");
    reveal_strlit("thoughts");
}

/// What is read out of the delta of a chunk.
proof fn lemma_chunk_delta(t: TranslatorModel, delta: JsonModel, finish_reason: Option<Seq<char>>)
    ensures
        ({
            let message = t.chunk(delta, finish_reason);
            &&& message is Object
            &&& message.get("usage"@) is None
            &&& message.get("error"@) is None
            &&& message.get("success"@) is None
            &&& message.get("choices"@) matches Some(JsonModel::List(choices)) && choices.len() == 1
                && choices[0].get("delta"@) == Some(delta)
        }),
{
    lemma_reveal_keys();
}

/// What is read out of a message.
proof fn lemma_message_read(t: TranslatorModel, event: EventModel)
    ensures
        (match sse::delta_of(t.message(event)) {
            Some(delta) => seq![delta],
            None => seq![],
        }) == deltas_in(event),
        sse::error_of(t.message(event)) == error_in(event),
        t.message(event) is Object,
{
    lemma_reveal_keys();
    match event {
        EventModel::ContentDelta(s) => {
            let delta = t.named(JsonModel::object().with("content"@, JsonModel::Text(s)));
            lemma_chunk_delta(t, delta, None);
            lemma_no_text(sse::incremental_fields(delta));
            assert(sse::delta_of(t.message(event)) == Some(DeltaModel { content: s, ..blank() }));
        },
        EventModel::ReasoningDelta(s) => {
            let delta = t.named(JsonModel::object().with("reasoning_content"@, JsonModel::Text(s)));
            lemma_chunk_delta(t, delta, None);
            let fields = sse::incremental_fields(delta);
            assert(fields.first() == Some(JsonModel::Text(s)));
            if s.len() == 0 {
                lemma_no_text(fields);
                assert(s =~= seq![]);
            }
            assert(sse::delta_of(t.message(event)) == Some(
                DeltaModel { reasoning_incremental: s, ..blank() },
            ));
        },
        EventModel::ToolCalls(calls) => {
            let delta = t.named(
                JsonModel::object().with(
                    "tool_calls"@,
                    JsonModel::List(translator::calls_model(calls)),
                ),
            );
            lemma_chunk_delta(t, delta, None);
            lemma_no_text(sse::incremental_fields(delta));
            assert(sse::delta_of(t.message(event)) == Some(blank()));
        },
        EventModel::Done { usage, finish_reason, .. } => {
            lemma_chunk_delta(t, JsonModel::object(), Some(finish_reason));
            lemma_no_text(sse::incremental_fields(JsonModel::object()));
            assert(sse::delta_of(t.message(event)) == Some(
                DeltaModel { usage: Some(translator::usage_model(usage)), ..blank() },
            ));
        },
        EventModel::Error { message, .. } => {
            assert(sse::error_of(t.message(event)) == error_in(event));
        },
    }
}

/// What the readers make of the first message that is sent for an event, given
/// its text.
pub(crate) proof fn lemma_sent_message_read(t: TranslatorModel, event: EventModel)
    requires
        ({
            let payload = json::codec::printed(t.message(event));
            &&& !payload.contains('\n')
            &&& json::codec::in_braces(payload)
            &&& json::codec::parsed(payload) == Some(t.message(event))
        }),
    ensures
        sse::deltas_of(t.sent(event)[0]) == deltas_in(event),
        sse::first_error(text::lines_of(t.sent(event)[0])) == error_in(event),
{
    lemma_framed_value(json::codec::printed(t.message(event)), t.message(event));
    lemma_message_read(t, event);
}

/// A message is always an object.
pub(crate) proof fn lemma_message_is_object(t: TranslatorModel, event: EventModel)
    ensures
        t.message(event) is Object,
{
    lemma_message_read(t, event);
}

} // verus!
