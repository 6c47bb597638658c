//! Output events as a stream of OpenAI `chat.completion.chunk` messages.

use super::echo;
use super::{EventModel, OutEvent, Usage};
use crate::json;
use crate::json::{Json, JsonModel};
use crate::text;
use crate::toolcall::{ParsedToolCall, ToolCallModel};
use crate::upstream::sse;
use crate::upstream::sse::DeltaModel;
use crate::views;
use vstd::prelude::*;

verus! {

/// Translates the events of one completion.
#[derive(Debug)]
pub struct OpenAiStreamTranslator {
    pub id: String,
    pub created: i64,
    pub model: String,
    /// Whether a delta has named the role yet.
    pub role_sent: bool,
}

/// What an [`OpenAiStreamTranslator`] is at.
#[verifier::ext_equal]
pub struct TranslatorModel {
    pub id: Seq<char>,
    pub created: i64,
    pub model: Seq<char>,
    /// Whether a delta has named the role yet.
    pub role_sent: bool,
}

impl View for OpenAiStreamTranslator {
    type V = TranslatorModel;

    open spec fn view(&self) -> TranslatorModel {
        TranslatorModel {
            id: self.id@,
            created: self.created,
            model: self.model@,
            role_sent: self.role_sent,
        }
    }
}

/// A text, or null where there is none.
pub open spec fn text_or_null(value: Option<Seq<char>>) -> JsonModel {
    match value {
        Some(s) => JsonModel::Text(s),
        None => JsonModel::Null,
    }
}

/// The JSON of token counts.
pub open spec fn usage_model(usage: Usage) -> JsonModel {
    JsonModel::object().with("prompt_tokens"@, JsonModel::Integer(usage.prompt_tokens as int)).with(
        "completion_tokens"@,
        JsonModel::Integer(usage.completion_tokens as int),
    ).with("total_tokens"@, JsonModel::Integer(usage.total_tokens as int)).with(
        "completion_tokens_details"@,
        JsonModel::object().with(
            "reasoning_tokens"@,
            JsonModel::Integer(usage.reasoning_tokens as int),
        ),
    )
}

/// The JSON of token counts.
pub fn usage_json(usage: &Usage) -> (r: Json)
    ensures
        r@ == usage_model(*usage),
{
    Json::object().with("prompt_tokens", Json::Signed(usage.prompt_tokens)).with(
        "completion_tokens",
        Json::Signed(usage.completion_tokens),
    ).with("total_tokens", Json::Signed(usage.total_tokens)).with(
        "completion_tokens_details",
        Json::object().with("reasoning_tokens", Json::Signed(usage.reasoning_tokens)),
    )
}

/// The JSON of a tool call; its arguments are the text of a JSON value.
pub open spec fn call_model(index: int, call: ToolCallModel) -> JsonModel {
    JsonModel::object().with("index"@, JsonModel::Integer(index)).with(
        "id"@,
        JsonModel::Text(call.id),
    ).with("type"@, JsonModel::Text("function"@)).with(
        "function"@,
        JsonModel::object().with("name"@, JsonModel::Text(call.name)).with(
            "arguments"@,
            JsonModel::Text(json::codec::printed(call.arguments)),
        ),
    )
}

/// The JSON of a tool call.
pub fn tool_call_chunk(index: usize, call: &ParsedToolCall) -> (r: Json)
    ensures
        r@ == call_model(index as int, call@),
        json::codec::reads_back(call@.arguments) ==> json::codec::parsed(
            json::codec::printed(call@.arguments),
        ) == Some(call@.arguments),
{
    Json::object().with("index", Json::Unsigned(index as u64)).with(
        "id",
        Json::text(call.id.as_str()),
    ).with("type", Json::text("function")).with(
        "function",
        Json::object().with("name", Json::text(call.name.as_str())).with(
            "arguments",
            Json::Text(call.arguments.to_text()),
        ),
    )
}

/// The JSON of a run of tool calls, numbered from zero.
pub open spec fn calls_model(calls: Seq<ToolCallModel>) -> Seq<JsonModel> {
    Seq::new(calls.len(), |i: int| call_model(i, calls[i]))
}

fn call_chunks(calls: &Vec<ParsedToolCall>) -> (r: Vec<Json>)
    ensures
        json::list_model(r@) == calls_model(views::seq_view(calls@)),
{
    let ghost all = calls_model(views::seq_view(calls@));
    let mut out: Vec<Json> = Vec::new();
    for i in 0..calls.len()
        invariant
            all == calls_model(views::seq_view(calls@)),
            json::list_model(out@) =~= all.take(i as int),
    {
        let ghost before = out@;
        out.push(tool_call_chunk(i, &calls[i]));
        proof {
            assert(out@ =~= before.push(out@.last()));
            json::lemma_list_push(before, out@.last());
            assert(all[i as int] == call_model(i as int, calls@[i as int]@));
            assert(all.take(i + 1) =~= all.take(i as int).push(all[i as int]));
        }
    }
    assert(all.take(all.len() as int) =~= all);
    out
}

impl TranslatorModel {
    /// One chunk with one choice.
    pub open spec fn chunk(self, delta: JsonModel, finish_reason: Option<Seq<char>>) -> JsonModel {
        JsonModel::object().with("id"@, JsonModel::Text(self.id)).with(
            "object"@,
            JsonModel::Text("chat.completion.chunk"@),
        ).with("created"@, JsonModel::Integer(self.created as int)).with(
            "model"@,
            JsonModel::Text(self.model),
        ).with(
            "choices"@,
            JsonModel::List(
                seq![
                    JsonModel::object().with("index"@, JsonModel::Integer(0)).with(
                        "delta"@,
                        delta,
                    ).with("finish_reason"@, text_or_null(finish_reason)),
                ],
            ),
        )
    }

    /// A delta, which names the role if none did before.
    pub open spec fn named(self, delta: JsonModel) -> JsonModel {
        if self.role_sent {
            delta
        } else {
            delta.with("role"@, JsonModel::Text("assistant"@))
        }
    }

    /// The JSON message of an event.
    pub open spec fn message(self, event: EventModel) -> JsonModel {
        match event {
            EventModel::ReasoningDelta(s) => self.chunk(
                self.named(JsonModel::object().with("reasoning_content"@, JsonModel::Text(s))),
                None,
            ),
            EventModel::ContentDelta(s) => self.chunk(
                self.named(JsonModel::object().with("content"@, JsonModel::Text(s))),
                None,
            ),
            EventModel::ToolCalls(calls) => self.chunk(
                self.named(
                    JsonModel::object().with("tool_calls"@, JsonModel::List(calls_model(calls))),
                ),
                None,
            ),
            EventModel::Done { usage, finish_reason, .. } => self.chunk(
                JsonModel::object(),
                Some(finish_reason),
            ).with("usage"@, usage_model(usage)),
            EventModel::Error { message, .. } => JsonModel::object().with(
                "error"@,
                JsonModel::object().with("message"@, JsonModel::Text(message)).with(
                    "type"@,
                    JsonModel::Text("upstream_error"@),
                ),
            ),
        }
    }

    /// The translator after an event.
    pub open spec fn after(self, event: EventModel) -> TranslatorModel {
        TranslatorModel { role_sent: self.role_sent || !ends_stream(event), ..self }
    }

    /// What is sent for an event: its message, and the end marker behind an
    /// event that ends the stream.
    pub open spec fn sent(self, event: EventModel) -> Seq<Seq<char>> {
        let message = seq![frame(json::codec::printed(self.message(event)))];
        if ends_stream(event) {
            message.push("data: [DONE]\n\n"@)
        } else {
            message
        }
    }
}

/// Whether nothing follows an event.
pub open spec fn ends_stream(event: EventModel) -> bool {
    event is Done || event is Error
}

/// A server-sent message with one `data:` line.
pub open spec fn frame(payload: Seq<char>) -> Seq<char> {
    "data: "@ + payload + "\n\n"@
}

fn framed(payload: &str) -> (r: String)
    ensures
        r@ == frame(payload@),
{
    let mut out = "data: ".to_owned();
    out.append(payload);
    out.append("\n\n");
    out
}

/// The keys of messages are none that `serde_json` keeps for itself.
proof fn lemma_keys_are_free()
    ensures
        "id"@ != json::codec::reserved_key(),
        "object"@ != json::codec::reserved_key(),
        "created"@ != json::codec::reserved_key(),
        "model"@ != json::codec::reserved_key(),
        "choices"@ != json::codec::reserved_key(),
        "usage"@ != json::codec::reserved_key(),
        "error"@ != json::codec::reserved_key(),
        "message"@ != json::codec::reserved_key(),
        "type"@ != json::codec::reserved_key(),
        "index"@ != json::codec::reserved_key(),
        "delta"@ != json::codec::reserved_key(),
        "finish_reason"@ != json::codec::reserved_key(),
        "role"@ != json::codec::reserved_key(),
        "content"@ != json::codec::reserved_key(),
        "reasoning_content"@ != json::codec::reserved_key(),
        "tool_calls"@ != json::codec::reserved_key(),
        "function"@ != json::codec::reserved_key(),
        "name"@ != json::codec::reserved_key(),
        "arguments"@ != json::codec::reserved_key(),
        "prompt_tokens"@ != json::codec::reserved_key(),
        "completion_tokens"@ != json::codec::reserved_key(),
        "total_tokens"@ != json::codec::reserved_key(),
        "completion_tokens_details"@ != json::codec::reserved_key(),
        "reasoning_tokens"@ != json::codec::reserved_key(),
{
    reveal_strlit("$serde_json::private::RawValue");
    reveal_strlit("id");
    reveal_strlit("object");
    reveal_strlit("created");
    reveal_strlit("model");
    reveal_strlit("choices");
    reveal_strlit("usage");
    reveal_strlit("error");
    reveal_strlit("message");
    reveal_strlit("type");
    reveal_strlit("index");
    reveal_strlit("delta");
    reveal_strlit("finish_reason");
    reveal_strlit("role");
    reveal_strlit("content");
    reveal_strlit("reasoning_content");
    reveal_strlit("tool_calls");
    reveal_strlit("function");
    reveal_strlit("name");
    reveal_strlit("arguments");
    reveal_strlit("prompt_tokens");
    reveal_strlit("completion_tokens");
    reveal_strlit("total_tokens");
    reveal_strlit("completion_tokens_details");
    reveal_strlit("reasoning_tokens");
    assert(json::codec::reserved_key().len() == 30);
}

/// A list of plain values is plain.
proof fn lemma_plain_list(items: Seq<JsonModel>, levels: nat)
    requires
        levels > 0,
        forall|i: int|
            0 <= i < items.len() ==> json::codec::is_plain(
                #[trigger] items[i],
                (levels - 1) as nat,
            ),
    ensures
        json::codec::is_plain(JsonModel::List(items), levels),
{
}

/// A chunk with a plain delta is plain.
proof fn lemma_chunk_is_plain(
    t: TranslatorModel,
    delta: JsonModel,
    finish_reason: Option<Seq<char>>,
    levels: nat,
)
    requires
        json::codec::is_plain(delta, levels),
    ensures
        json::codec::is_plain(t.chunk(delta, finish_reason), levels + 3),
{
    broadcast use json::codec::lemma_plain_with;

    lemma_keys_are_free();
    let choice = JsonModel::object().with("index"@, JsonModel::Integer(0)).with(
        "delta"@,
        delta,
    ).with("finish_reason"@, text_or_null(finish_reason));
    assert(json::codec::is_plain(JsonModel::object(), levels + 1));
    assert(json::codec::is_plain(choice, levels + 1));
    lemma_plain_list(seq![choice], levels + 2);
    assert(json::codec::is_plain(JsonModel::object(), levels + 3));
}

/// Messages hold no numbers but integers, and have few levels.
proof fn lemma_message_is_plain(t: TranslatorModel, event: EventModel)
    ensures
        json::codec::reads_back(t.message(event)),
{
    broadcast use json::codec::lemma_plain_with;

    lemma_keys_are_free();
    assert(json::codec::is_plain(JsonModel::object(), 1));
    assert(json::codec::is_plain(JsonModel::object(), 2));
    assert(json::codec::is_plain(JsonModel::object(), 4));
    match event {
        EventModel::ReasoningDelta(s) => {
            let delta = t.named(JsonModel::object().with("reasoning_content"@, JsonModel::Text(s)));
            assert(json::codec::is_plain(delta, 1));
            lemma_chunk_is_plain(t, delta, None, 1);
            json::codec::lemma_plain_with_more_levels(t.message(event), 4, 127);
        },
        EventModel::ContentDelta(s) => {
            let delta = t.named(JsonModel::object().with("content"@, JsonModel::Text(s)));
            assert(json::codec::is_plain(delta, 1));
            lemma_chunk_is_plain(t, delta, None, 1);
            json::codec::lemma_plain_with_more_levels(t.message(event), 4, 127);
        },
        EventModel::ToolCalls(calls) => {
            let items = calls_model(calls);
            assert forall|i: int| 0 <= i < items.len() implies json::codec::is_plain(
                #[trigger] items[i],
                2,
            ) by {
                assert(items[i] == call_model(i, calls[i]));
            }
            lemma_plain_list(items, 3);
            let delta = t.named(JsonModel::object().with("tool_calls"@, JsonModel::List(items)));
            assert(json::codec::is_plain(delta, 4));
            lemma_chunk_is_plain(t, delta, None, 4);
            json::codec::lemma_plain_with_more_levels(t.message(event), 7, 127);
        },
        EventModel::Done { usage, finish_reason, .. } => {
            lemma_chunk_is_plain(t, JsonModel::object(), Some(finish_reason), 1);
            assert(json::codec::is_plain(usage_model(usage), 2));
            json::codec::lemma_plain_with_more_levels(usage_model(usage), 2, 3);
            assert(json::codec::is_plain(t.message(event), 4));
            json::codec::lemma_plain_with_more_levels(t.message(event), 4, 127);
        },
        EventModel::Error { .. } => {
            assert(json::codec::is_plain(t.message(event), 2));
            json::codec::lemma_plain_with_more_levels(t.message(event), 2, 127);
        },
    }
}

impl OpenAiStreamTranslator {
    /// A translator for the completion `chatcmpl-` with `suffix`, created at
    /// `created`, in seconds since the epoch.
    pub fn new(model: &str, suffix: &str, created: i64) -> (r: OpenAiStreamTranslator)
        ensures
            r@ == (TranslatorModel {
                id: "chatcmpl-"@ + suffix@,
                created,
                model: model@,
                role_sent: false,
            }),
    {
        let mut id = "chatcmpl-".to_owned();
        id.append(suffix);
        OpenAiStreamTranslator { id, created, model: model.to_owned(), role_sent: false }
    }

    fn chunk(&self, delta: Json, finish_reason: Option<&str>) -> (r: Json)
        ensures
            r@ == self@.chunk(delta@, views::option_view(finish_reason)),
    {
        let reason: Json = match finish_reason {
            Some(s) => Json::text(s),
            None => Json::Null,
        };
        let choice = Json::object().with("index", Json::Signed(0)).with("delta", delta).with(
            "finish_reason",
            reason,
        );
        let choices: Vec<Json> = vec![choice];
        proof {
            json::lemma_list_index(choices@);
            assert(json::list_model(choices@) =~= seq![choice@]);
        }
        Json::object().with("id", Json::text(self.id.as_str())).with(
            "object",
            Json::text("chat.completion.chunk"),
        ).with("created", Json::Signed(self.created)).with(
            "model",
            Json::text(self.model.as_str()),
        ).with("choices", Json::List(choices))
    }

    fn named(&mut self, delta: Json) -> (r: Json)
        ensures
            r@ == old(self)@.named(delta@),
            final(self)@ == (TranslatorModel { role_sent: true, ..old(self)@ }),
    {
        if self.role_sent {
            delta
        } else {
            self.role_sent = true;
            delta.with("role", Json::text("assistant"))
        }
    }

    /// The JSON message of an event.
    pub fn message(&mut self, event: &OutEvent) -> (r: Json)
        ensures
            r@ == old(self)@.message(event@),
            final(self)@ == old(self)@.after(event@),
    {
        match event {
            OutEvent::ReasoningDelta(s) => {
                let delta = self.named(
                    Json::object().with("reasoning_content", Json::text(s.as_str())),
                );
                self.chunk(delta, None)
            },
            OutEvent::ContentDelta(s) => {
                let delta = self.named(Json::object().with("content", Json::text(s.as_str())));
                self.chunk(delta, None)
            },
            OutEvent::ToolCalls(calls) => {
                let delta = self.named(
                    Json::object().with("tool_calls", Json::List(call_chunks(calls))),
                );
                self.chunk(delta, None)
            },
            OutEvent::Done { usage, finish_reason, .. } => self.chunk(
                Json::object(),
                Some(finish_reason.as_str()),
            ).with("usage", usage_json(usage)),
            OutEvent::Error { message, .. } => Json::object().with(
                "error",
                Json::object().with("message", Json::text(message.as_str())).with(
                    "type",
                    Json::text("upstream_error"),
                ),
            ),
        }
    }

    /// The server-sent messages of an event. A client that reads the first of
    /// them reads the message of the event; the gateway's own readers find in
    /// it the content or the reasoning that was sent, and an error exactly
    /// where one was sent. Out of the end marker nothing is read.
    pub fn on_event(&mut self, event: &OutEvent) -> (r: Vec<String>)
        ensures
            views::seq_view(r@) == old(self)@.sent(event@),
            final(self)@ == old(self)@.after(event@),
            json::codec::parsed(json::codec::printed(old(self)@.message(event@))) == Some(
                old(self)@.message(event@),
            ),
            sse::deltas_of(r@[0]@) == echo::deltas_in(event@),
            sse::first_error(text::lines_of(r@[0]@)) == echo::error_in(event@),
            r@.len() == 2 ==> sse::deltas_of(r@[1]@) == Seq::<DeltaModel>::empty()
                && sse::first_error(text::lines_of(r@[1]@)) is None,
    {
        broadcast use views::lemma_seq_view_push;

        let ghost before = self@;
        proof {
            lemma_message_is_plain(before, event@);
            echo::lemma_message_is_object(before, event@);
            echo::lemma_end_marker();
        }
        let mut out: Vec<String> = Vec::new();
        assert(views::seq_view(out@) =~= seq![]);
        let message = self.message(event);
        out.push(framed(message.to_text().as_str()));
        proof {
            echo::lemma_sent_message_read(before, event@);
        }
        match event {
            OutEvent::Done { .. } | OutEvent::Error { .. } => {
                out.push("data: [DONE]\n\n".to_owned());
            },
            _ => {},
        }
        assert(views::seq_view(out@) =~= before.sent(event@));
        out
    }
}

impl TranslatorModel {
    /// The translator after a run of events.
    pub open spec fn after_all(self, events: Seq<EventModel>) -> TranslatorModel
        decreases events.len(),
    {
        if events.len() == 0 {
            self
        } else {
            self.after_all(events.drop_last()).after(events.last())
        }
    }
}

/// Whether the delta of a message names the role.
pub open spec fn names_role(message: JsonModel) -> bool {
    match json::member(Some(message), "choices"@) {
        Some(JsonModel::List(choices)) => choices.len() > 0 && json::member(
            choices[0].get("delta"@),
            "role"@,
        ) is Some,
        _ => false,
    }
}

/// What the translator knows of the role after a run of events.
proof fn lemma_role_sent(t: TranslatorModel, events: Seq<EventModel>)
    ensures
        t.after_all(events).role_sent == (t.role_sent || exists|j: int|
            0 <= j < events.len() && !ends_stream(#[trigger] events[j])),
    decreases events.len(),
{
    if events.len() > 0 {
        let init = events.drop_last();
        lemma_role_sent(t, init);
        assert(forall|j: int| 0 <= j < init.len() ==> init[j] == events[j]);
        assert(events[events.len() - 1] == events.last());
        if t.after_all(events).role_sent && !t.role_sent && ends_stream(events.last()) {
            let j = choose|j: int| 0 <= j < init.len() && !ends_stream(#[trigger] init[j]);
            assert(!ends_stream(events[j]));
        }
    }
}

/// A message names the role where it carries a delta and none did before.
proof fn lemma_names_role(t: TranslatorModel, event: EventModel)
    ensures
        names_role(t.message(event)) == (!t.role_sent && !ends_stream(event)),
{
    reveal_strlit("id");
    reveal_strlit("object");
    reveal_strlit("created");
    reveal_strlit("model");
    reveal_strlit("choices");
    reveal_strlit("usage");
    reveal_strlit("error");
    reveal_strlit("index");
    reveal_strlit("delta");
    reveal_strlit("finish_reason");
    reveal_strlit("role");
    reveal_strlit("content");
    reveal_strlit("reasoning_content");
    reveal_strlit("tool_calls");
    assert("choices"@.len() == 7 && "usage"@.len() == 5 && "error"@.len() == 5);
    assert("role"@.len() == 4 && "content"@.len() == 7 && "reasoning_content"@.len() == 17);
    assert("tool_calls"@.len() == 10);
    assert("delta"@.len() == 5 && "finish_reason"@.len() == 13 && "index"@.len() == 5);
    assert("index"@[0] != "delta"@[0]);
}

/// The role is named exactly once: by the first delta of a run of events, and
/// by no message after it.
pub proof fn law_first_delta_names_the_role(
    t: TranslatorModel,
    events: Seq<EventModel>,
    i: int,
)
    requires
        !t.role_sent,
        0 <= i < events.len(),
    ensures
        names_role(t.after_all(events.take(i)).message(events[i])) == (!ends_stream(events[i])
            && forall|j: int| 0 <= j < i ==> ends_stream(#[trigger] events[j])),
{
    let before = events.take(i);
    lemma_role_sent(t, before);
    lemma_names_role(t.after_all(before), events[i]);
    assert(forall|j: int| 0 <= j < i ==> before[j] == events[j]);
    if exists|j: int| 0 <= j < i && !ends_stream(#[trigger] events[j]) {
        let j = choose|j: int| 0 <= j < i && !ends_stream(#[trigger] events[j]);
        assert(!ends_stream(before[j]));
    }
}

/// Everything that is sent is one `data:` line and the empty line behind it.
pub proof fn law_everything_sent_is_framed(t: TranslatorModel, event: EventModel, i: int)
    requires
        0 <= i < t.sent(event).len(),
    ensures
        exists|payload: Seq<char>| t.sent(event)[i] == #[trigger] frame(payload),
{
    if i == 0 {
        assert(t.sent(event)[i] == frame(json::codec::printed(t.message(event))));
    } else {
        reveal_strlit("data: ");
        reveal_strlit("[DONE]");
        reveal_strlit("\n\n");
        reveal_strlit("data: [DONE]\n\n");
        assert(t.sent(event)[i] =~= frame("[DONE]"@));
    }
}

/// An event that ends the stream is followed by the end marker, and no other
/// event sends more than its one message.
pub proof fn law_end_marker_closes_the_stream(t: TranslatorModel, event: EventModel)
    ensures
        ends_stream(event) ==> t.sent(event).len() == 2 && t.sent(event).last()
            == "data: [DONE]\n\n"@,
        !ends_stream(event) ==> t.sent(event).len() == 1,
{
}

/// Gives the prover the characters that tell the keys apart.
proof fn lemma_keys()
    ensures
        "id"@.len() == 2,
        "type"@.len() == 4 && "type"@[0] == 't',
        "role"@.len() == 4 && "role"@[0] == 'r',
        "name"@.len() == 4 && "name"@[0] == 'n',
        "model"@.len() == 5 && "model"@[0] == 'm',
        "usage"@.len() == 5 && "usage"@[0] == 'u',
        "error"@.len() == 5 && "error"@[0] == 'e',
        "index"@.len() == 5 && "index"@[0] == 'i',
        "delta"@.len() == 5 && "delta"@[0] == 'd',
        "object"@.len() == 6,
        "created"@.len() == 7 && "created"@[1] == 'r',
        "choices"@.len() == 7 && "choices"@[1] == 'h',
        "message"@.len() == 7 && "message"@[1] == 'e',
        "content"@.len() == 7 && "content"@[1] == 'o',
        "function"@.len() == 8,
        "arguments"@.len() == 9,
        "tool_calls"@.len() == 10,
        "total_tokens"@.len() == 12,
        "finish_reason"@.len() == 13 && "finish_reason"@[0] == 'f',
        "prompt_tokens"@.len() == 13 && "prompt_tokens"@[0] == 'p',
        "reasoning_tokens"@.len() == 16,
        "reasoning_content"@.len() == 17 && "reasoning_content"@[0] == 'r',
        "completion_tokens"@.len() == 17 && "completion_tokens"@[0] == 'c',
        "completion_tokens_details"@.len() == 25,
{
    reveal_strlit("id");
    reveal_strlit("object");
    reveal_strlit("created");
    reveal_strlit("model");
    reveal_strlit("choices");
    reveal_strlit("usage");
    reveal_strlit("error");
    reveal_strlit("message");
    reveal_strlit("type");
    reveal_strlit("index");
    reveal_strlit("delta");
    reveal_strlit("finish_reason");
    reveal_strlit("role");
    reveal_strlit("content");
    reveal_strlit("reasoning_content");
    reveal_strlit("tool_calls");
    reveal_strlit("function");
    reveal_strlit("name");
    reveal_strlit("arguments");
    reveal_strlit("prompt_tokens");
    reveal_strlit("completion_tokens");
    reveal_strlit("total_tokens");
    reveal_strlit("completion_tokens_details");
    reveal_strlit("reasoning_tokens");
}

/// The one choice of a message.
pub open spec fn choice_of(message: JsonModel) -> JsonModel {
    message.get("choices"@)->0->List_0[0]
}

/// Every message but that of an error is a chunk of its completion: it has the
/// completion's id, time and model, and one choice, with the index zero. The
/// finish reason and the usage come with the closing event only.
pub proof fn law_chunk_names_its_completion(t: TranslatorModel, event: EventModel)
    requires
        !(event is Error),
    ensures
        ({
            let message = t.message(event);
            &&& message.get("id"@) == Some(JsonModel::Text(t.id))
            &&& message.get("object"@) == Some(JsonModel::Text("chat.completion.chunk"@))
            &&& message.get("created"@) == Some(JsonModel::Integer(t.created as int))
            &&& message.get("model"@) == Some(JsonModel::Text(t.model))
            &&& message.get("error"@) is None
            &&& message.get("choices"@) matches Some(JsonModel::List(choices)) && choices.len() == 1
            &&& choice_of(message).get("index"@) == Some(JsonModel::Integer(0))
            &&& choice_of(message).get("finish_reason"@) == Some(
                match event {
                    EventModel::Done { finish_reason, .. } => JsonModel::Text(finish_reason),
                    _ => JsonModel::Null,
                },
            )
            &&& message.get("usage"@) is Some <==> event is Done
            &&& forall|key: Seq<char>| #[trigger]
                message->Object_0.contains_key(key) ==> key == "id"@ || key == "object"@ || key
                    == "created"@ || key == "model"@ || key == "choices"@ || key == "usage"@
            &&& forall|key: Seq<char>| #[trigger]
                choice_of(message)->Object_0.contains_key(key) ==> key == "index"@ || key
                    == "delta"@ || key == "finish_reason"@
        }),
{
    lemma_keys();
}

/// The delta of a message carries what the event says under the one key that
/// is its own: `content`, `reasoning_content` or `tool_calls`. That of the
/// closing event is empty.
pub proof fn law_delta_carries_the_event(t: TranslatorModel, event: EventModel)
    requires
        !(event is Error),
    ensures
        ({
            let delta = choice_of(t.message(event)).get("delta"@);
            &&& delta matches Some(JsonModel::Object(_))
            &&& json::member(delta, "content"@) == (match event {
                EventModel::ContentDelta(s) => Some(JsonModel::Text(s)),
                _ => None,
            })
            &&& json::member(delta, "reasoning_content"@) == (match event {
                EventModel::ReasoningDelta(s) => Some(JsonModel::Text(s)),
                _ => None,
            })
            &&& json::member(delta, "tool_calls"@) is Some <==> event is ToolCalls
            &&& json::member(delta, "role"@) == (if t.role_sent || event is Done {
                None
            } else {
                Some(JsonModel::Text("assistant"@))
            })
            &&& forall|key: Seq<char>| #[trigger]
                delta->0->Object_0.contains_key(key) ==> key == "content"@ || key
                    == "reasoning_content"@ || key == "tool_calls"@ || key == "role"@
        }),
{
    lemma_keys();
}

/// A message lists every tool call of its event, in order and numbered from
/// zero, with its id and its name as they are and its arguments as the text of
/// their JSON.
pub proof fn law_every_tool_call_is_laid_out(
    t: TranslatorModel,
    calls: Seq<ToolCallModel>,
    i: int,
)
    requires
        0 <= i < calls.len(),
    ensures
        ({
            let listed = json::member(
                choice_of(t.message(EventModel::ToolCalls(calls))).get("delta"@),
                "tool_calls"@,
            );
            &&& listed matches Some(JsonModel::List(items)) && items.len() == calls.len() && {
                let function = items[i].get("function"@);
                &&& items[i].get("index"@) == Some(JsonModel::Integer(i))
                &&& items[i].get("id"@) == Some(JsonModel::Text(calls[i].id))
                &&& items[i].get("type"@) == Some(JsonModel::Text("function"@))
                &&& json::member(function, "name"@) == Some(JsonModel::Text(calls[i].name))
                &&& json::member(function, "arguments"@) == Some(
                    JsonModel::Text(json::codec::printed(calls[i].arguments)),
                )
            }
        }),
{
    lemma_keys();
    assert(calls_model(calls)[i] == call_model(i, calls[i]));
}

/// A tool call by itself is laid out in the same way.
pub proof fn law_tool_call_members(index: int, call: ToolCallModel)
    ensures
        call_model(index, call).get("index"@) == Some(JsonModel::Integer(index)),
        call_model(index, call).get("id"@) == Some(JsonModel::Text(call.id)),
        call_model(index, call).get("type"@) == Some(JsonModel::Text("function"@)),
        json::member(call_model(index, call).get("function"@), "name"@) == Some(
            JsonModel::Text(call.name),
        ),
        json::member(call_model(index, call).get("function"@), "arguments"@) == Some(
            JsonModel::Text(json::codec::printed(call.arguments)),
        ),
{
    lemma_keys();
}

/// Each token count stands under its own key, also in the closing message.
pub proof fn law_each_count_has_its_key(
    t: TranslatorModel,
    usage: Usage,
    finish_reason: Seq<char>,
    email: Option<Seq<char>>,
)
    ensures
        ({
            let json = usage_model(usage);
            &&& json.get("prompt_tokens"@) == Some(JsonModel::Integer(usage.prompt_tokens as int))
            &&& json.get("completion_tokens"@) == Some(
                JsonModel::Integer(usage.completion_tokens as int),
            )
            &&& json.get("total_tokens"@) == Some(JsonModel::Integer(usage.total_tokens as int))
            &&& json::member(json.get("completion_tokens_details"@), "reasoning_tokens"@) == Some(
                JsonModel::Integer(usage.reasoning_tokens as int),
            )
            &&& t.message(EventModel::Done { usage, finish_reason, email }).get("usage"@) == Some(
                json,
            )
        }),
{
    lemma_keys();
}

/// The message of an error tells it under `error`, and is no chunk.
pub proof fn law_error_is_told_under_its_key(
    t: TranslatorModel,
    message: Seq<char>,
    email: Option<Seq<char>>,
)
    ensures
        ({
            let json = t.message(EventModel::Error { message, email });
            &&& json::member(json.get("error"@), "message"@) == Some(JsonModel::Text(message))
            &&& json::member(json.get("error"@), "type"@) == Some(
                JsonModel::Text("upstream_error"@),
            )
            &&& json.get("choices"@) is None
        }),
{
    lemma_keys();
}

/// What is sent first for an event is its message, behind `data: ` and with an
/// empty line behind it. The completion's id, time and model stay.
pub proof fn law_message_is_sent_first(t: TranslatorModel, event: EventModel)
    ensures
        t.sent(event).len() > 0,
        t.sent(event)[0] == "data: "@ + json::codec::printed(t.message(event)) + "\n\n"@,
        event is Done || event is Error ==> t.sent(event).len() == 2 && t.sent(event)[1]
            == "data: [DONE]\n\n"@ && t.after(event) == t,
        !(event is Done || event is Error) ==> t.sent(event).len() == 1 && t.after(event)
            == (TranslatorModel { role_sent: true, ..t }),
{
}

} // verus!
