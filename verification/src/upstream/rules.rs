//! What is read out of the upstream's text, told in terms of what goes in and
//! what comes out.

use super::sse;
use crate::json;
use crate::json::JsonModel;
use crate::text;
use vstd::prelude::*;

verus! {

/// Whether the first choice of an event has this delta.
pub open spec fn has_delta(event: JsonModel, delta: JsonModel) -> bool {
    event.get("choices"@) matches Some(JsonModel::List(choices)) && choices.len() > 0
        && choices[0].get("delta"@) == Some(delta)
}

/// The texts of a delta are read as they came, character for character and
/// whatever else it holds: its content, its phase, which is `answer` where none
/// is given, and its status. What is missing or no text is empty. The usage is
/// that of the event.
pub proof fn law_texts_of_a_delta_are_read_as_they_came(event: JsonModel, delta: JsonModel)
    requires
        has_delta(event, delta),
    ensures
        ({
            let read = sse::delta_of(event);
            &&& read is Some
            &&& match delta.get("content"@) {
                Some(JsonModel::Text(s)) => read->0.content == s,
                _ => read->0.content.len() == 0,
            }
            &&& match delta.get("phase"@) {
                Some(JsonModel::Text(s)) => read->0.phase == s,
                _ => read->0.phase == "answer"@,
            }
            &&& match delta.get("status"@) {
                Some(JsonModel::Text(s)) => read->0.status == s,
                _ => read->0.status.len() == 0,
            }
            &&& read->0.usage == event.get("usage"@)
        }),
{
}

/// An event has a delta exactly where the first of its choices has one.
pub proof fn law_event_has_the_delta_of_its_first_choice(event: JsonModel)
    ensures
        sse::delta_of(event) is Some <==> exists|delta: JsonModel| has_delta(event, delta),
{
    if sse::delta_of(event) is Some {
        let delta = event.get("choices"@)->0->List_0[0].get("delta"@)->0;
        assert(has_delta(event, delta));
    }
}

/// Whether a value is a text that is not empty.
pub open spec fn is_told(value: Option<JsonModel>) -> bool {
    value matches Some(JsonModel::Text(s)) && s.len() > 0
}

/// The keys of incremental reasoning, the first that tells something first.
pub open spec fn reasoning_keys() -> Seq<Seq<char>> {
    seq!["reasoning_content"@, "reasoning"@, "reasoning_text"@, "thinking"@, "thoughts"@]
}

/// The first text is the first that is not empty.
proof fn lemma_first_told(values: Seq<Option<JsonModel>>, k: int)
    requires
        0 <= k < values.len(),
        is_told(values[k]),
        forall|j: int| 0 <= j < k ==> !is_told(#[trigger] values[j]),
    ensures
        sse::first_text_of(values) == values[k]->0->Text_0,
    decreases values.len(),
{
    if k > 0 {
        assert(!is_told(values[0]));
        let rest = values.drop_first();
        assert(rest[k - 1] == values[k]);
        assert forall|j: int| 0 <= j < k - 1 implies !is_told(#[trigger] rest[j]) by {
            assert(rest[j] == values[j + 1]);
        }
        lemma_first_told(rest, k - 1);
    }
}

/// Where nothing is told there is no text.
proof fn lemma_nothing_told(values: Seq<Option<JsonModel>>)
    requires
        forall|j: int| 0 <= j < values.len() ==> !is_told(#[trigger] values[j]),
    ensures
        sse::first_text_of(values).len() == 0,
    decreases values.len(),
{
    if values.len() > 0 {
        assert(!is_told(values[0]));
        let rest = values.drop_first();
        assert forall|j: int| 0 <= j < rest.len() implies !is_told(#[trigger] rest[j]) by {
            assert(rest[j] == values[j + 1]);
        }
        lemma_nothing_told(rest);
    }
}

/// Incremental reasoning is the first non-empty text under one of its keys, in
/// their order, of the delta, or else of its `extra`; empty where there is none.
pub proof fn law_incremental_reasoning_is_the_first_told(
    event: JsonModel,
    delta: JsonModel,
    extra: JsonModel,
    k: int,
)
    requires
        has_delta(event, delta),
        delta.get("extra"@) == Some(extra) || (delta.get("extra"@) is None && extra is Null),
        0 <= k < 5,
    ensures
        ({
            let keys = reasoning_keys();
            let read = sse::delta_of(event)->0.reasoning_incremental;
            let silent = forall|j: int| 0 <= j < 5 ==> !is_told(delta.get(#[trigger] keys[j]));
            let mute = forall|j: int| 0 <= j < 5 ==> !is_told(extra.get(#[trigger] keys[j]));
            &&& is_told(delta.get(keys[k])) && (forall|j: int|
                0 <= j < k ==> !is_told(delta.get(#[trigger] keys[j]))) ==> delta.get(keys[k])
                == Some(JsonModel::Text(read))
            &&& silent && is_told(extra.get(keys[k])) && (forall|j: int|
                0 <= j < k ==> !is_told(extra.get(#[trigger] keys[j]))) ==> extra.get(keys[k])
                == Some(JsonModel::Text(read))
            &&& silent && mute ==> read.len() == 0
        }),
{
    let keys = reasoning_keys();
    let values = sse::incremental_fields(delta);
    assert(forall|j: int| 0 <= j < 5 ==> values[j] == delta.get(#[trigger] keys[j]));
    assert(forall|j: int| 0 <= j < 5 ==> values[j + 5] == extra.get(#[trigger] keys[j]));
    assert(values.len() == 10);
    let silent = forall|j: int| 0 <= j < 5 ==> !is_told(delta.get(#[trigger] keys[j]));
    let mute = forall|j: int| 0 <= j < 5 ==> !is_told(extra.get(#[trigger] keys[j]));
    if is_told(delta.get(keys[k])) && (forall|j: int|
        0 <= j < k ==> !is_told(delta.get(#[trigger] keys[j]))) {
        assert forall|j: int| 0 <= j < k implies !is_told(#[trigger] values[j]) by {
            assert(values[j] == delta.get(keys[j]));
        }
        lemma_first_told(values, k);
    }
    if silent && is_told(extra.get(keys[k])) && (forall|j: int|
        0 <= j < k ==> !is_told(extra.get(#[trigger] keys[j]))) {
        assert forall|j: int| 0 <= j < k + 5 implies !is_told(#[trigger] values[j]) by {
            if j < 5 {
                assert(values[j] == delta.get(keys[j]));
            } else {
                assert(values[j - 5 + 5] == extra.get(keys[j - 5]));
            }
        }
        assert(values[k + 5] == extra.get(keys[k]));
        lemma_first_told(values, k + 5);
    }
    if silent && mute {
        assert forall|j: int| 0 <= j < values.len() implies !is_told(#[trigger] values[j]) by {
            if j < 5 {
                assert(values[j] == delta.get(keys[j]));
            } else {
                assert(values[j - 5 + 5] == extra.get(keys[j - 5]));
            }
        }
        lemma_nothing_told(values);
    }
}

/// Whether a delta has this list of thoughts.
pub open spec fn has_thoughts(delta: JsonModel, items: Seq<JsonModel>) -> bool {
    delta.get("extra"@) matches Some(extra) && extra.get("summary_thought"@) matches Some(thought)
        && thought.get("content"@) == Some(JsonModel::List(items))
}

/// Values without a text give no parts.
proof fn lemma_no_parts(items: Seq<JsonModel>)
    ensures
        items.filter_map(|item: JsonModel| item.as_text()).len() == 0 <==> forall|i: int|
            0 <= i < items.len() ==> !(#[trigger] items[i] is Text),
    decreases items.len(),
{
    if items.len() > 0 {
        let init = items.drop_last();
        lemma_no_parts(init);
        assert(forall|i: int| 0 <= i < init.len() ==> init[i] == items[i]);
        assert(items[items.len() - 1] == items.last());
        if forall|i: int| 0 <= i < items.len() ==> !(#[trigger] items[i] is Text) {
            assert forall|i: int| 0 <= i < init.len() implies !(#[trigger] init[i] is Text) by {
                assert(items[i] == init[i]);
            }
        }
    }
}

/// Cumulative reasoning grows by one thought: a text is put behind what is there
/// and an empty line; the first text stands alone; what is no text adds nothing.
pub proof fn law_thoughts_are_joined_by_empty_lines(
    event: JsonModel,
    delta: JsonModel,
    more_event: JsonModel,
    more_delta: JsonModel,
    items: Seq<JsonModel>,
    item: JsonModel,
)
    requires
        has_delta(event, delta),
        has_delta(more_event, more_delta),
        has_thoughts(delta, items),
        has_thoughts(more_delta, items.push(item)),
    ensures
        ({
            let before = sse::delta_of(event)->0.reasoning_cumulative;
            let after = sse::delta_of(more_event)->0.reasoning_cumulative;
            let first = forall|i: int| 0 <= i < items.len() ==> !(#[trigger] items[i] is Text);
            match item {
                JsonModel::Text(s) => {
                    &&& before is Some ==> after == Some(before->0 + "\n\n"@ + s)
                    &&& first && s.len() > 0 ==> before is None && after == Some(s)
                    &&& first && s.len() == 0 ==> after is None
                    &&& !first && before is None ==> after == Some("\n\n"@ + s)
                },
                _ => after == before,
            }
        }),
{
    reveal_strlit("\n\n");
    let text = |item: JsonModel| item.as_text();
    let parts = items.filter_map(text);
    let more = items.push(item).filter_map(text);
    assert(items.push(item).drop_last() =~= items);
    assert(items.push(item).last() == item);
    lemma_no_parts(items);
    if let JsonModel::Text(s) = item {
        assert(more =~= parts.push(s));
        assert(more.drop_last() =~= parts);
        let whole = sse::joined(parts, "\n\n"@);
        if parts.len() > 0 {
            assert(sse::joined(more, "\n\n"@) =~= whole + "\n\n"@ + s);
            if whole.len() == 0 {
                assert(whole + "\n\n"@ + s =~= "\n\n"@ + s);
            }
        }
    }
}

/// A delta without a list of thoughts, or with an empty one, has no cumulative
/// reasoning.
pub proof fn law_no_thoughts_no_cumulative_reasoning(event: JsonModel, delta: JsonModel)
    requires
        has_delta(event, delta),
        has_thoughts(delta, seq![]) || !exists|items: Seq<JsonModel>| has_thoughts(delta, items),
    ensures
        sse::delta_of(event)->0.reasoning_cumulative is None,
{
    let content = json::member(
        json::member(delta.get("extra"@), "summary_thought"@),
        "content"@,
    );
    if let Some(JsonModel::List(items)) = content {
        assert(has_thoughts(delta, items));
        lemma_no_parts(items);
    }
}

/// A line that starts with `data:`, white space aside, carries the delta of the
/// event whose JSON follows; nothing where nothing follows, the end marker or
/// what is no JSON.
pub proof fn law_data_line_carries_its_event(line: Seq<char>, rest: Seq<char>)
    requires
        text::trimmed(line) == "data:"@ + rest,
    ensures
        ({
            let data = text::trimmed(rest);
            sse::delta_of_line(line) == if data.len() == 0 || data == "[DONE]"@ {
                None
            } else {
                match json::codec::parsed(data) {
                    Some(event) => sse::delta_of(event),
                    None => None,
                }
            }
        }),
{
    assert(("data:"@ + rest).skip("data:"@.len() as int) =~= rest);
    assert("data:"@.is_prefix_of("data:"@ + rest));
}

/// No other line carries a delta.
pub proof fn law_other_lines_carry_nothing(line: Seq<char>)
    requires
        !"data:"@.is_prefix_of(text::trimmed(line)),
    ensures
        sse::delta_of_line(line) is None,
{
}

/// A line reports the error of the event whose JSON it is, or whose JSON follows
/// its `data:`, where that opens with a brace; no other line reports one.
pub proof fn law_line_reports_the_error_of_its_event(line: Seq<char>, body: Seq<char>)
    requires
        ({
            let line = text::trimmed(line);
            ||| !"data:"@.is_prefix_of(line) && body == line
            ||| exists|rest: Seq<char>| line == #[trigger] ("data:"@ + rest) && body
                == text::trimmed(rest)
        }),
    ensures
        sse::error_of_line(line) == if body.len() > 0 && body[0] == '{' {
            match json::codec::parsed(body) {
                Some(event) => sse::error_of(event),
                None => None,
            }
        } else {
            None
        },
{
    reveal_strlit("{");
    reveal_strlit("[DONE]");
    let whole = text::trimmed(line);
    if "data:"@.is_prefix_of(whole) {
        let rest = choose|rest: Seq<char>|
            whole == #[trigger] ("data:"@ + rest) && body == text::trimmed(rest);
        assert(whole.skip("data:"@.len() as int) =~= rest);
    } else if exists|rest: Seq<char>|
        whole == #[trigger] ("data:"@ + rest) && body == text::trimmed(rest) {
        let rest = choose|rest: Seq<char>|
            whole == #[trigger] ("data:"@ + rest) && body == text::trimmed(rest);
        assert("data:"@.is_prefix_of("data:"@ + rest));
    }
    assert("{"@.len() == 1 && "{"@[0] == '{');
    if body.len() > 0 && body[0] == '{' {
        assert(body.take(1) =~= "{"@);
        assert("{"@.is_prefix_of(body));
        assert("[DONE]"@[0] == '[');
    } else if body.len() > 0 {
        if "{"@.is_prefix_of(body) {
            assert(body[0] == '{');
        }
    }
}

/// Text of one line carries what the line carries, and reports what it reports.
pub proof fn law_one_line_is_read_as_a_line(line: Seq<char>)
    requires
        !line.contains('\n'),
    ensures
        sse::deltas_of(line) == (match sse::delta_of_line(line) {
            Some(delta) => seq![delta],
            None => seq![],
        }),
        sse::first_error(text::lines_of(line)) == sse::error_of_line(line),
{
    let read = |line: Seq<char>| sse::delta_of_line(line);
    text::law_one_line(line);
    if line.len() == 0 {
        assert(line =~= seq![]);
        reveal_strlit("data:");
        reveal_strlit("{");
        assert("data:"@.len() == 5);
        assert(text::trimmed(line) =~= seq![]);
        assert(text::lines_of(line).filter_map(read) =~= seq![]);
    } else {
        let lines = seq![line];
        assert(lines.drop_last() =~= seq![]);
        assert(lines.drop_last().filter_map(read) =~= seq![]);
        assert(lines.last() == line);
        assert(lines.drop_first() =~= seq![]);
        assert(sse::first_error(lines.drop_first()) is None);
        assert(lines.filter_map(read) =~= match sse::delta_of_line(line) {
            Some(delta) => seq![delta],
            None => seq![],
        });
    }
}

/// The text of the first value that is there, or `fallback` where none is or
/// where it is no text.
pub open spec fn told(values: Seq<Option<JsonModel>>, fallback: Seq<char>) -> Seq<char>
    decreases values.len(),
{
    if values.len() == 0 {
        fallback
    } else {
        match values[0] {
            Some(JsonModel::Text(s)) => s,
            Some(_) => fallback,
            None => told(values.drop_first(), fallback),
        }
    }
}

/// A short run of values is looked at one by one.
proof fn lemma_told(values: Seq<Option<JsonModel>>, fallback: Seq<char>)
    requires
        1 <= values.len() <= 4,
    ensures
        values.len() == 1 ==> told(values, fallback) == json::text_or(values[0], fallback),
        values.len() == 2 ==> told(values, fallback) == json::text_or(
            json::either(values[0], values[1]),
            fallback,
        ),
        values.len() == 3 ==> told(values, fallback) == json::text_or(
            json::either(json::either(values[0], values[1]), values[2]),
            fallback,
        ),
        values.len() == 4 ==> told(values, fallback) == json::text_or(
            json::either(json::either(json::either(values[0], values[1]), values[2]), values[3]),
            fallback,
        ),
    decreases values.len(),
{
    let rest = values.drop_first();
    if values.len() > 1 {
        lemma_told(rest, fallback);
        assert(forall|i: int| 0 <= i < rest.len() ==> rest[i] == values[i + 1]);
    } else {
        assert(rest.len() == 0);
        assert(told(rest, fallback) == fallback);
    }
}

/// The request that an event names, or a dash.
pub open spec fn request_named(event: JsonModel) -> Seq<char> {
    told(seq![event.get("request_id"@), event.get("response_id"@)], "-"@)
}

/// A request that failed is reported with the code, the request and the
/// details, each from the first of its places.
pub proof fn law_failure_is_reported(event: JsonModel)
    requires
        event.get("success"@) == Some(JsonModel::Bool(false)),
    ensures
        ({
            let data = event.get("data"@);
            let code = told(
                seq![json::member(data, "code"@), event.get("code"@)],
                "upstream_error"@,
            );
            let details = told(
                seq![
                    json::member(data, "details"@),
                    json::member(data, "message"@),
                    event.get("details"@),
                    event.get("message"@),
                ],
                seq![],
            );
            sse::error_of(event) == Some(
                "Qwen upstream error code="@ + code + " request_id="@ + request_named(event)
                    + " details="@ + details,
            )
        }),
{
    let data = event.get("data"@);
    lemma_told(seq![event.get("request_id"@), event.get("response_id"@)], "-"@);
    lemma_told(seq![json::member(data, "code"@), event.get("code"@)], "upstream_error"@);
    lemma_told(
        seq![
            json::member(data, "details"@),
            json::member(data, "message"@),
            event.get("details"@),
            event.get("message"@),
        ],
        seq![],
    );
}

/// An `error` is reported where the request did not fail otherwise: an object
/// with its code, the request and its details, and a text that is not empty with
/// the request. Nothing else is reported.
pub proof fn law_error_member_is_reported(event: JsonModel)
    requires
        event.get("success"@) != Some(JsonModel::Bool(false)),
    ensures
        (match event.get("error"@) {
            Some(JsonModel::Object(members)) => {
                let error = JsonModel::Object(members);
                let code = told(seq![error.get("code"@)], "upstream_error"@);
                let details = told(
                    seq![error.get("details"@), error.get("message"@), error.get("type"@)],
                    seq![],
                );
                sse::error_of(event) == Some(
                    "Qwen upstream error code="@ + code + " request_id="@ + request_named(event)
                        + " details="@ + details,
                )
            },
            Some(JsonModel::Text(s)) => if s.len() > 0 {
                sse::error_of(event) == Some(
                    "Qwen upstream error request_id="@ + request_named(event) + " details="@ + s,
                )
            } else {
                sse::error_of(event) is None
            },
            _ => sse::error_of(event) is None,
        }),
{
    lemma_told(seq![event.get("request_id"@), event.get("response_id"@)], "-"@);
    if let Some(JsonModel::Object(members)) = event.get("error"@) {
        let error = JsonModel::Object(members);
        lemma_told(seq![error.get("code"@)], "upstream_error"@);
        lemma_told(
            seq![error.get("details"@), error.get("message"@), error.get("type"@)],
            seq![],
        );
    }
}

} // verus!
