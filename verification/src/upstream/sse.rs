//! Reading the upstream's server-sent events: each `data:` line carries a JSON
//! event, of which the first choice's delta is what the gateway works on.

use crate::json;
use crate::json::{Json, JsonModel};
use crate::text;
use crate::views;
use vstd::prelude::*;

verus! {

/// One normalised upstream delta.
#[derive(Debug)]
pub struct QwenDelta {
    pub phase: String,
    /// The delta's `content` as it came; in the answer phase an increment of
    /// text.
    pub content: String,
    /// Cumulative reasoning: the parts of `extra.summary_thought.content`,
    /// joined.
    pub reasoning_cumulative: Option<String>,
    /// Incremental reasoning, from whichever of the older fields carries it.
    pub reasoning_incremental: String,
    pub status: String,
    /// The event's `usage`, if it has one.
    pub usage: Option<Json>,
}

/// What a [`QwenDelta`] says.
#[verifier::ext_equal]
pub struct DeltaModel {
    pub phase: Seq<char>,
    pub content: Seq<char>,
    pub reasoning_cumulative: Option<Seq<char>>,
    pub reasoning_incremental: Seq<char>,
    pub status: Seq<char>,
    pub usage: Option<JsonModel>,
}

impl View for QwenDelta {
    type V = DeltaModel;

    open spec fn view(&self) -> DeltaModel {
        DeltaModel {
            phase: self.phase@,
            content: self.content@,
            reasoning_cumulative: views::option_view(self.reasoning_cumulative),
            reasoning_incremental: self.reasoning_incremental@,
            status: self.status@,
            usage: views::option_view(self.usage),
        }
    }
}

impl Clone for QwenDelta {
    fn clone(&self) -> (r: QwenDelta)
        ensures
            r@ == self@,
    {
        QwenDelta {
            phase: self.phase.clone(),
            content: self.content.clone(),
            reasoning_cumulative: match &self.reasoning_cumulative {
                Some(s) => Some(s.clone()),
                None => None,
            },
            reasoning_incremental: self.reasoning_incremental.clone(),
            status: self.status.clone(),
            usage: match &self.usage {
                Some(u) => Some(u.clone()),
                None => None,
            },
        }
    }
}

impl Default for QwenDelta {
    fn default() -> (r: QwenDelta)
        ensures
            r@ == (DeltaModel {
                phase: seq![],
                content: seq![],
                reasoning_cumulative: None,
                reasoning_incremental: seq![],
                status: seq![],
                usage: None,
            }),
    {
        QwenDelta {
            phase: String::new(),
            content: String::new(),
            reasoning_cumulative: None,
            reasoning_incremental: String::new(),
            status: String::new(),
            usage: None,
        }
    }
}

/// The first non-empty text among values that may be missing or no text;
/// empty where there is none.
pub open spec fn first_text_of(values: Seq<Option<JsonModel>>) -> Seq<char>
    decreases values.len(),
{
    if values.len() == 0 {
        seq![]
    } else {
        match json::text_of(values.first()) {
            Some(s) if s.len() > 0 => s,
            _ => first_text_of(values.drop_first()),
        }
    }
}

/// The first non-empty text in `values`, or the empty text.
pub fn first_text(values: &Vec<Option<&Json>>) -> (r: String)
    ensures
        r@ == first_text_of(values@.map_values(|v: Option<&Json>| views::option_view(v))),
{
    let ghost models = values@.map_values(|v: Option<&Json>| views::option_view(v));
    assert(models.skip(0) =~= models);
    for i in 0..values.len()
        invariant
            models == values@.map_values(|v: Option<&Json>| views::option_view(v)),
            first_text_of(models) == first_text_of(models.skip(i as int)),
    {
        assert(models.skip(i as int).drop_first() =~= models.skip(i + 1));
        assert(models.skip(i as int).first() == views::option_view(values@[i as int]));
        if let Some(s) = json::get_text(values[i]) {
            if !s.is_empty() {
                return s.to_owned();
            }
        }
    }
    assert(models.skip(values@.len() as int) =~= seq![]);
    String::new()
}

/// The fields that may carry incremental reasoning, those of the delta before
/// those of its `extra`.
pub open spec fn incremental_fields(delta: JsonModel) -> Seq<Option<JsonModel>> {
    let extra = delta.get("extra"@);
    seq![
        delta.get("reasoning_content"@),
        delta.get("reasoning"@),
        delta.get("reasoning_text"@),
        delta.get("thinking"@),
        delta.get("thoughts"@),
        json::member(extra, "reasoning_content"@),
        json::member(extra, "reasoning"@),
        json::member(extra, "reasoning_text"@),
        json::member(extra, "thinking"@),
        json::member(extra, "thoughts"@),
    ]
}

/// The incremental reasoning of a delta: the first of its fields that holds a
/// non-empty text.
pub fn extract_reasoning_incremental(delta: &Json) -> (r: String)
    ensures
        r@ == first_text_of(incremental_fields(delta@)),
{
    let extra = delta.get("extra");
    let fields: Vec<Option<&Json>> = vec![
        delta.get("reasoning_content"),
        delta.get("reasoning"),
        delta.get("reasoning_text"),
        delta.get("thinking"),
        delta.get("thoughts"),
        json::get_member(extra, "reasoning_content"),
        json::get_member(extra, "reasoning"),
        json::get_member(extra, "reasoning_text"),
        json::get_member(extra, "thinking"),
        json::get_member(extra, "thoughts"),
    ];
    assert(fields@.map_values(|v: Option<&Json>| views::option_view(v)) =~= incremental_fields(
        delta@,
    ));
    first_text(&fields)
}

/// Texts joined by a separator.
pub open spec fn joined(parts: Seq<Seq<char>>, separator: Seq<char>) -> Seq<char>
    decreases parts.len(),
{
    if parts.len() == 0 {
        seq![]
    } else if parts.len() == 1 {
        parts[0]
    } else {
        joined(parts.drop_last(), separator) + separator + parts.last()
    }
}

/// The cumulative reasoning of a delta: the texts in
/// `extra.summary_thought.content`, joined by blank lines; `None` where there
/// is no such list or nothing but empty text comes of it.
pub open spec fn cumulative_reasoning(delta: JsonModel) -> Option<Seq<char>> {
    let content = json::member(
        json::member(delta.get("extra"@), "summary_thought"@),
        "content"@,
    );
    match content {
        Some(JsonModel::List(items)) => {
            let whole = joined(items.filter_map(|item: JsonModel| item.as_text()), "\n\n"@);
            if whole.len() == 0 {
                None
            } else {
                Some(whole)
            }
        },
        _ => None,
    }
}

/// The cumulative reasoning of a delta, if it has any.
pub fn extract_reasoning_cumulative(delta: &Json) -> (r: Option<String>)
    ensures
        views::option_view(r) == cumulative_reasoning(delta@),
{
    let content = json::get_member(
        json::get_member(delta.get("extra"), "summary_thought"),
        "content",
    );
    let items = match content {
        Some(json) => match json.as_list() {
            Some(items) => items,
            None => return None,
        },
        None => return None,
    };
    let ghost models = json::list_model(items@);
    let ghost text = |item: JsonModel| item.as_text();
    proof {
        json::lemma_list_index(items@);
    }
    let mut whole = String::new();
    let mut started = false;
    for i in 0..items.len()
        invariant
            models == json::list_model(items@),
            models.len() == items@.len(),
            forall|k: int| 0 <= k < items@.len() ==> #[trigger] models[k] == items@[k]@,
            text == (|item: JsonModel| item.as_text()),
            whole@ == joined(models.take(i as int).filter_map(text), "\n\n"@),
            started == (models.take(i as int).filter_map(text).len() > 0),
    {
        let ghost parts = models.take(i as int).filter_map(text);
        proof {
            models.lemma_filter_map_take_succ(text, i as int);
        }
        if let Some(s) = items[i].as_str() {
            if started {
                whole.append("\n\n");
            }
            whole.append(s);
            proof {
                let longer = models.take(i + 1).filter_map(text);
                assert(longer =~= parts.push(s@));
                assert(longer.drop_last() =~= parts);
            }
            started = true;
        }
    }
    assert(models.take(models.len() as int) =~= models);
    if whole.as_str().is_empty() {
        None
    } else {
        Some(whole)
    }
}

/// The delta of an event: that of its first choice, normalised. `None` where
/// the event has no choices, or the first one no delta.
pub open spec fn delta_of(event: JsonModel) -> Option<DeltaModel> {
    match event.get("choices"@) {
        Some(JsonModel::List(choices)) if choices.len() > 0 => match choices[0].get("delta"@) {
            Some(delta) => Some(
                DeltaModel {
                    phase: json::text_or(delta.get("phase"@), "answer"@),
                    content: json::text_or(delta.get("content"@), seq![]),
                    reasoning_cumulative: cumulative_reasoning(delta),
                    reasoning_incremental: first_text_of(incremental_fields(delta)),
                    status: json::text_or(delta.get("status"@), seq![]),
                    usage: event.get("usage"@),
                },
            ),
            None => None,
        },
        _ => None,
    }
}

/// The delta of an event.
pub fn delta_of_event(event: &Json) -> (r: Option<QwenDelta>)
    ensures
        views::option_view(r) == delta_of(event@),
{
    let choices = match event.get("choices") {
        Some(json) => match json.as_list() {
            Some(choices) => choices,
            None => return None,
        },
        None => return None,
    };
    proof {
        json::lemma_list_index(choices@);
        reveal_strlit("");
        assert(""@ =~= seq![]);
    }
    if choices.len() == 0 {
        return None;
    }
    let delta = match choices[0].get("delta") {
        Some(delta) => delta,
        None => return None,
    };
    Some(
        QwenDelta {
            phase: json::get_text_or(delta.get("phase"), "answer").to_owned(),
            content: json::get_text_or(delta.get("content"), "").to_owned(),
            reasoning_cumulative: extract_reasoning_cumulative(delta),
            reasoning_incremental: extract_reasoning_incremental(delta),
            status: json::get_text_or(delta.get("status"), "").to_owned(),
            usage: match event.get("usage") {
                Some(usage) => Some(usage.clone()),
                None => None,
            },
        },
    )
}

/// What a `data:` line carries; `None` for any other line, for a line that
/// carries nothing and for the end marker.
pub open spec fn payload_of(line: Seq<char>) -> Option<Seq<char>> {
    let line = text::trimmed(line);
    if "data:"@.is_prefix_of(line) {
        let data = text::trimmed(line.skip("data:"@.len() as int));
        if data.len() == 0 || data == "[DONE]"@ {
            None
        } else {
            Some(data)
        }
    } else {
        None
    }
}

/// The delta that a line carries: lines without a payload, payloads that are
/// no JSON and events without a delta carry none.
pub open spec fn delta_of_line(line: Seq<char>) -> Option<DeltaModel> {
    match payload_of(line) {
        Some(data) => match json::codec::parsed(data) {
            Some(event) => delta_of(event),
            None => None,
        },
        None => None,
    }
}

/// Whether a line is a `data:` line that carries the JSON of an event with a
/// delta.
pub open spec fn carries_delta(line: Seq<char>) -> bool {
    let line = text::trimmed(line);
    &&& "data:"@.is_prefix_of(line)
    &&& json::codec::parsed(text::trimmed(line.skip("data:"@.len() as int))) matches Some(event)
        && delta_of(event) is Some
}

/// The delta that a line carries.
pub fn read_line(line: &str) -> (r: Option<QwenDelta>)
    ensures
        views::option_view(r) == delta_of_line(line@),
        r is Some <==> carries_delta(line@),
{
    let line = line.trim();
    match text::strip_prefix(line, "data:") {
        Some(rest) => {
            assert(line@.skip("data:"@.len() as int) =~= rest@);
            match Json::parse(rest.trim()) {
                Some(event) => delta_of_event(&event),
                None => None,
            }
        },
        None => None,
    }
}

/// The deltas of a chunk, line by line.
pub open spec fn deltas_of(chunk: Seq<char>) -> Seq<DeltaModel> {
    text::lines_of(chunk).filter_map(|line: Seq<char>| delta_of_line(line))
}

/// Reads one server-sent message, which may hold several `data:` lines: the
/// delta of every line that carries one, in order. A line gives a delta exactly
/// where it is a `data:` line with the JSON of an event that has one.
pub fn parse_sse_chunk(chunk: &str) -> (r: Vec<QwenDelta>)
    ensures
        views::seq_view(r@) == deltas_of(chunk@),
        forall|i: int|
            0 <= i < text::lines_of(chunk@).len() ==> (delta_of_line(
                #[trigger] text::lines_of(chunk@)[i],
            ) is Some <==> carries_delta(text::lines_of(chunk@)[i])),
{
    broadcast use views::lemma_seq_view_push;

    let lines = text::lines(chunk);
    let ghost all = text::lines_of(chunk@);
    let ghost read = |line: Seq<char>| delta_of_line(line);
    let mut out: Vec<QwenDelta> = Vec::new();
    for i in 0..lines.len()
        invariant
            all == text::lines_of(chunk@),
            all =~= views::seq_view(lines@),
            read == (|line: Seq<char>| delta_of_line(line)),
            views::seq_view(out@) =~= all.take(i as int).filter_map(read),
            forall|k: int|
                0 <= k < i ==> (delta_of_line(#[trigger] all[k]) is Some <==> carries_delta(
                    all[k],
                )),
    {
        proof {
            all.lemma_filter_map_take_succ(read, i as int);
            assert(all[i as int] == lines@[i as int]@);
        }
        if let Some(delta) = read_line(lines[i]) {
            out.push(delta);
        }
    }
    assert(all.take(all.len() as int) =~= all);
    out
}

/// The text of an error report that names a code.
pub open spec fn coded_error(
    code: Seq<char>,
    request_id: Seq<char>,
    details: Seq<char>,
) -> Seq<char> {
    "Qwen upstream error code="@ + code + " request_id="@ + request_id + " details="@ + details
}

/// The text of an error report without a code.
pub open spec fn plain_error(request_id: Seq<char>, details: Seq<char>) -> Seq<char> {
    "Qwen upstream error request_id="@ + request_id + " details="@ + details
}

/// The error that an event reports, if it reports one: `"success": false`
/// comes first, then an `error` that is an object or a non-empty text. An
/// earlier field that is present hides a later one, whatever it holds.
pub open spec fn error_of(event: JsonModel) -> Option<Seq<char>> {
    let request_id = json::text_or(
        json::either(event.get("request_id"@), event.get("response_id"@)),
        "-"@,
    );
    if event.get("success"@) == Some(JsonModel::Bool(false)) {
        let data = event.get("data"@);
        let code = json::text_or(
            json::either(json::member(data, "code"@), event.get("code"@)),
            "upstream_error"@,
        );
        let details = json::text_or(
            json::either(
                json::either(
                    json::either(json::member(data, "details"@), json::member(data, "message"@)),
                    event.get("details"@),
                ),
                event.get("message"@),
            ),
            seq![],
        );
        Some(coded_error(code, request_id, details))
    } else {
        match event.get("error"@) {
            Some(JsonModel::Object(m)) => {
                let error = JsonModel::Object(m);
                let details = json::either(
                    json::either(error.get("details"@), error.get("message"@)),
                    error.get("type"@),
                );
                Some(
                    coded_error(
                        json::text_or(error.get("code"@), "upstream_error"@),
                        request_id,
                        json::text_or(details, seq![]),
                    ),
                )
            },
            Some(JsonModel::Text(s)) if s.len() > 0 => Some(plain_error(request_id, s)),
            _ => None,
        }
    }
}

fn write_coded_error(code: &str, request_id: &str, details: &str) -> (r: String)
    ensures
        r@ == coded_error(code@, request_id@, details@),
{
    let mut out = "Qwen upstream error code=".to_owned();
    out.append(code);
    out.append(" request_id=");
    out.append(request_id);
    out.append(" details=");
    out.append(details);
    out
}

/// The error that an event reports, if it reports one.
pub fn format_upstream_error(event: &Json) -> (r: Option<String>)
    ensures
        views::option_view(r) == error_of(event@),
{
    proof {
        reveal_strlit("");
        assert(""@ =~= seq![]);
    }
    let request_id = json::get_text_or(
        json::get_either(event.get("request_id"), event.get("response_id")),
        "-",
    );
    let refused = match event.get("success") {
        Some(success) => success.is_false(),
        None => false,
    };
    if refused {
        let data = event.get("data");
        let code = json::get_text_or(
            json::get_either(json::get_member(data, "code"), event.get("code")),
            "upstream_error",
        );
        let in_data = json::get_either(
            json::get_member(data, "details"),
            json::get_member(data, "message"),
        );
        let details = json::get_text_or(
            json::get_either(json::get_either(in_data, event.get("details")), event.get("message")),
            "",
        );
        return Some(write_coded_error(code, request_id, details));
    }
    let error = match event.get("error") {
        Some(error) => error,
        None => return None,
    };
    if error.as_object().is_some() {
        let code = json::get_text_or(error.get("code"), "upstream_error");
        let details = json::get_text_or(
            json::get_either(
                json::get_either(error.get("details"), error.get("message")),
                error.get("type"),
            ),
            "",
        );
        return Some(write_coded_error(code, request_id, details));
    }
    match error.as_str() {
        Some(s) if !s.is_empty() => {
            let mut out = "Qwen upstream error request_id=".to_owned();
            out.append(request_id);
            out.append(" details=");
            out.append(s);
            Some(out)
        },
        _ => None,
    }
}

/// What a line holds that may be an error event: the line, or what follows its
/// `data:`, where that opens a JSON object.
pub open spec fn object_text_of(line: Seq<char>) -> Option<Seq<char>> {
    let line = text::trimmed(line);
    let body = if "data:"@.is_prefix_of(line) {
        text::trimmed(line.skip("data:"@.len() as int))
    } else {
        line
    };
    if body.len() == 0 || body == "[DONE]"@ || !"{"@.is_prefix_of(body) {
        None
    } else {
        Some(body)
    }
}

/// The text of a line that may be an error event.
pub fn object_text_of_line<'a>(line: &'a str) -> (r: Option<&'a str>)
    ensures
        views::option_view(r) == object_text_of(line@),
{
    let line = line.trim();
    let body = match text::strip_prefix(line, "data:") {
        Some(rest) => {
            assert(line@.skip("data:"@.len() as int) =~= rest@);
            rest.trim()
        },
        None => line,
    };
    if body.is_empty() || text::same(body, "[DONE]") || text::strip_prefix(body, "{").is_none() {
        None
    } else {
        Some(body)
    }
}

/// The error that a line reports, if it reports one.
pub open spec fn error_of_line(line: Seq<char>) -> Option<Seq<char>> {
    match object_text_of(line) {
        Some(body) => match json::codec::parsed(body) {
            Some(event) => error_of(event),
            None => None,
        },
        None => None,
    }
}

/// The error that the first reporting line reports.
pub open spec fn first_error(lines: Seq<Seq<char>>) -> Option<Seq<char>>
    decreases lines.len(),
{
    if lines.len() == 0 {
        None
    } else {
        match error_of_line(lines.first()) {
            Some(message) => Some(message),
            None => first_error(lines.drop_first()),
        }
    }
}

/// Finds an explicit error in upstream text: the report of the first line that
/// makes one.
pub fn extract_upstream_error(text: &str) -> (r: Option<String>)
    ensures
        views::option_view(r) == first_error(text::lines_of(text@)),
{
    let lines = text::lines(text);
    let ghost all = text::lines_of(text@);
    assert(all.skip(0) =~= all);
    for i in 0..lines.len()
        invariant
            all == text::lines_of(text@),
            all =~= views::seq_view(lines@),
            first_error(all) == first_error(all.skip(i as int)),
    {
        assert(all.skip(i as int).drop_first() =~= all.skip(i + 1));
        assert(all.skip(i as int).first() == lines@[i as int]@);
        if let Some(body) = object_text_of_line(lines[i]) {
            if let Some(event) = Json::parse(body) {
                if let Some(message) = format_upstream_error(&event) {
                    return Some(message);
                }
            }
        }
    }
    assert(all.skip(all.len() as int) =~= seq![]);
    None
}

/// Reading one value by one distributes over concatenation.
proof fn lemma_filter_map_concat<A, B>(a: Seq<A>, b: Seq<A>, f: spec_fn(A) -> Option<B>)
    ensures
        (a + b).filter_map(f) == a.filter_map(f) + b.filter_map(f),
    decreases b.len(),
{
    if b.len() == 0 {
        assert(a + b =~= a);
        assert(a.filter_map(f) + b.filter_map(f) =~= a.filter_map(f));
    } else {
        assert((a + b).drop_last() =~= a + b.drop_last());
        assert((a + b).last() == b.last());
        lemma_filter_map_concat(a, b.drop_last(), f);
        assert((a + b).filter_map(f) =~= a.filter_map(f) + b.filter_map(f));
    }
}

/// Messages concatenate: where `a` consists of whole lines, the deltas of
/// `a + b` are those of `a`, then those of `b`.
pub proof fn law_chunks_concatenate(a: Seq<char>, b: Seq<char>)
    requires
        a.len() == 0 || a.last() == '\n',
    ensures
        deltas_of(a + b) == deltas_of(a) + deltas_of(b),
{
    text::law_lines_concatenate(a, b);
    lemma_filter_map_concat(
        text::lines_of(a),
        text::lines_of(b),
        |line: Seq<char>| delta_of_line(line),
    );
}

/// Neither an empty line nor a final carriage return makes a difference to what
/// a line carries or reports.
proof fn lemma_line_end_carries_nothing(line: Seq<char>)
    ensures
        delta_of_line(text::without_cr(line)) == delta_of_line(line),
        error_of_line(text::without_cr(line)) == error_of_line(line),
        delta_of_line(seq![]) is None,
        error_of_line(seq![]) is None,
{
    text::lemma_trimmed_without_cr(line);
    reveal_strlit("data:");
    assert(text::trimmed(seq![]) =~= seq![]);
}

/// Lines are read one by one: whatever two texts hold, the deltas of both with
/// a line feed between them are those of the first, then those of the second.
pub proof fn law_lines_are_read_one_by_one(a: Seq<char>, b: Seq<char>)
    ensures
        deltas_of(a.push('\n') + b) == deltas_of(a) + deltas_of(b),
{
    law_chunks_concatenate(a.push('\n'), b);
    text::lemma_final_line_end(a);
    let read = |line: Seq<char>| delta_of_line(line);
    let lines = text::lines_of(a);
    let ended = text::lines_of(a.push('\n'));
    assert(ended.drop_last() =~= if a.len() == 0 || a.last() == '\n' {
        lines
    } else {
        lines.drop_last()
    });
    if lines.len() > 0 {
        lemma_line_end_carries_nothing(lines.last());
    } else {
        lemma_line_end_carries_nothing(seq![]);
    }
    assert(ended.filter_map(read) =~= lines.filter_map(read));
}

/// The first error of two runs of lines.
proof fn lemma_first_error_concat(a: Seq<Seq<char>>, b: Seq<Seq<char>>)
    ensures
        first_error(a + b) == (match first_error(a) {
            Some(message) => Some(message),
            None => first_error(b),
        }),
    decreases a.len(),
{
    if a.len() == 0 {
        assert(a + b =~= b);
    } else {
        assert((a + b).first() == a.first());
        assert((a + b).drop_first() =~= a.drop_first() + b);
        lemma_first_error_concat(a.drop_first(), b);
    }
}

/// The error that one line reports.
proof fn lemma_first_error_of_one(line: Seq<char>)
    ensures
        first_error(seq![line]) == error_of_line(line),
{
    assert(seq![line].drop_first() =~= seq![]);
    assert(first_error(seq![line].drop_first()) is None);
}

/// Errors are looked for line by line: whatever two texts hold, the error in
/// both with a line feed between them is that of the first, or else that of the
/// second.
pub proof fn law_first_text_with_an_error_tells(a: Seq<char>, b: Seq<char>)
    ensures
        first_error(text::lines_of(a.push('\n') + b)) == (match first_error(text::lines_of(a)) {
            Some(message) => Some(message),
            None => first_error(text::lines_of(b)),
        }),
{
    text::law_lines_concatenate(a.push('\n'), b);
    text::lemma_final_line_end(a);
    let lines = text::lines_of(a);
    let ended = text::lines_of(a.push('\n'));
    lemma_first_error_concat(ended, text::lines_of(b));
    if a.len() == 0 || a.last() == '\n' {
        lemma_line_end_carries_nothing(seq![]);
        lemma_first_error_of_one(seq![]);
        assert(ended =~= lines + seq![seq![]]);
        lemma_first_error_concat(lines, seq![seq![]]);
    } else {
        let init = lines.drop_last();
        let last = lines.last();
        lemma_line_end_carries_nothing(last);
        lemma_first_error_of_one(last);
        lemma_first_error_of_one(text::without_cr(last));
        assert(lines =~= init + seq![last]);
        assert(ended =~= init + seq![text::without_cr(last)]);
        lemma_first_error_concat(init, seq![last]);
        lemma_first_error_concat(init, seq![text::without_cr(last)]);
    }
}

/// A line that carries no delta, be it that it is no `data:` line, the end
/// marker, no JSON or an event without a delta, does not disturb the lines
/// around it.
pub proof fn law_idle_line_is_skipped(before: Seq<char>, line: Seq<char>, after: Seq<char>)
    requires
        before.len() == 0 || before.last() == '\n',
        !line.contains('\n'),
        delta_of_line(text::without_cr(line)) is None,
    ensures
        deltas_of(before + line.push('\n') + after) == deltas_of(before) + deltas_of(after),
{
    let ended = line.push('\n');
    assert(before + ended + after =~= before + (ended + after));
    law_chunks_concatenate(before, ended + after);
    law_chunks_concatenate(ended, after);
    text::lemma_line_len(ended);
    let n = text::line_len(ended) as int;
    assert(ended[line.len() as int] == '\n');
    if n < line.len() {
        assert(line[n] == ended[n]);
        assert(line.contains('\n'));
    }
    assert(n == line.len());
    assert(ended.take(n) =~= line);
    assert(ended.skip(n + 1) =~= seq![]);
    assert(text::lines_of(ended.skip(n + 1)) =~= seq![]);
    let lines = text::lines_of(ended);
    assert(lines =~= seq![text::without_cr(line)]);
    let read = |line: Seq<char>| delta_of_line(line);
    assert(lines.drop_last() =~= seq![]);
    assert(lines.drop_last().filter_map(read) =~= seq![]);
    assert(lines.filter_map(read) =~= seq![]);
    assert(deltas_of(ended) + deltas_of(after) =~= deltas_of(after));
}

/// A payload that is no JSON carries no delta.
pub proof fn law_malformed_json_is_skipped(line: Seq<char>)
    requires
        payload_of(line) matches Some(data) && json::codec::parsed(data) is None,
    ensures
        delta_of_line(line) is None,
{
}

/// Cumulative reasoning is never empty text.
pub proof fn law_cumulative_reasoning_is_not_empty(delta: JsonModel)
    ensures
        cumulative_reasoning(delta) matches Some(s) ==> s.len() > 0,
{
}

/// An event that neither fails nor has an `error` member is never taken for an
/// error.
pub proof fn law_normal_event_is_no_error(event: JsonModel)
    requires
        event.get("success"@) != Some(JsonModel::Bool(false)),
        event.get("error"@) is None,
    ensures
        error_of(event) is None,
{
}

/// An event that fails, or whose `error` is an object, is always an error, and
/// the report names its request.
pub proof fn law_failed_event_is_an_error(event: JsonModel)
    requires
        event.get("success"@) == Some(JsonModel::Bool(false)) || (event.get("error"@) matches Some(
            error,
        ) && error is Object),
    ensures
        error_of(event) matches Some(message) && exists|code: Seq<char>, details: Seq<char>|
            message == #[trigger] coded_error(
                code,
                json::text_or(
                    json::either(event.get("request_id"@), event.get("response_id"@)),
                    "-"@,
                ),
                details,
            ),
{
}

} // verus!
