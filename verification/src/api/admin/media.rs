//! Tasks that make images and videos.

use super::stats;
use crate::api::{AppError, ErrorModel};
use crate::json;
use crate::json::{Json, JsonModel};
use crate::text;
use crate::views;
use vstd::prelude::*;

verus! {

/// What a request wants made.
#[derive(Debug)]
pub struct MediaRequest {
    pub kind: String,
    pub prompts: Vec<String>,
    /// What all prompts have in common.
    pub params: Json,
    pub caller: Option<String>,
}

/// What a [`MediaRequest`] says.
#[verifier::ext_equal]
pub struct MediaModel {
    pub kind: Seq<char>,
    pub prompts: Seq<Seq<char>>,
    pub params: JsonModel,
    pub caller: Option<Seq<char>>,
}

impl View for MediaRequest {
    type V = MediaModel;

    open spec fn view(&self) -> MediaModel {
        MediaModel {
            kind: self.kind@,
            prompts: views::seq_view(self.prompts@),
            params: self.params@,
            caller: views::option_view(self.caller),
        }
    }
}

/// The prompt in a value: its text without the white space around it, where
/// anything is left of it.
pub open spec fn prompt_in(value: JsonModel) -> Option<Seq<char>> {
    match value.as_text() {
        Some(s) => if text::trimmed(s).len() > 0 {
            Some(text::trimmed(s))
        } else {
            None
        },
        None => None,
    }
}

/// The prompts in a run of values, in order.
pub open spec fn prompts_in(values: Seq<JsonModel>) -> Seq<Seq<char>>
    decreases values.len(),
{
    if values.len() == 0 {
        seq![]
    } else {
        let init = prompts_in(values.drop_last());
        match prompt_in(values.last()) {
            Some(prompt) => init.push(prompt),
            None => init,
        }
    }
}

/// The prompts of a request: those of the list `prompts`, or else the one of
/// `prompt`.
pub open spec fn prompts_of(data: JsonModel) -> Seq<Seq<char>> {
    match data.get("prompts"@) {
        Some(JsonModel::List(values)) => prompts_in(values),
        _ => match data.get("prompt"@) {
            Some(value) => prompts_in(seq![value]),
            None => seq![],
        },
    }
}

/// An object with one member more, where a request has that member.
pub open spec fn with_member(params: JsonModel, data: JsonModel, key: Seq<char>) -> JsonModel {
    match data.get(key) {
        Some(value) => params.with(key, value),
        None => params,
    }
}

/// The members of a request that all prompts have in common.
pub open spec fn params_of(data: JsonModel) -> JsonModel {
    let params = JsonModel::object();
    let params = with_member(params, data, "ratio"@);
    let params = with_member(params, data, "aspect_ratio"@);
    let params = with_member(params, data, "size"@);
    let params = with_member(params, data, "width"@);
    let params = with_member(params, data, "height"@);
    with_member(params, data, "n"@)
}

/// The caller in an authorization header.
pub open spec fn caller_in(authorization: Seq<char>) -> Seq<char> {
    text::trimmed(text::without_prefixes(text::trimmed(authorization), "Bearer "@))
}

/// What is made of a request, or of one that is no JSON.
pub open spec fn request_of(
    data: Option<JsonModel>,
    authorization: Option<Seq<char>>,
) -> Result<MediaModel, ErrorModel> {
    match data {
        Some(data) => if prompts_of(data).len() == 0 {
            Err(ErrorModel::BadRequest("prompt is required"@))
        } else {
            Ok(
                MediaModel {
                    kind: json::text_or(data.get("kind"@), "image"@),
                    prompts: prompts_of(data),
                    params: params_of(data),
                    caller: match authorization {
                        Some(s) => Some(caller_in(s)),
                        None => None,
                    },
                },
            )
        },
        None => Err(ErrorModel::BadRequest("Invalid JSON"@)),
    }
}

/// The view of a result.
pub open spec fn result_view(result: Result<MediaRequest, AppError>) -> Result<
    MediaModel,
    ErrorModel,
> {
    match result {
        Ok(request) => Ok(request@),
        Err(error) => Err(error@),
    }
}

fn push_prompt(out: &mut Vec<String>, value: &Json)
    ensures
        views::seq_view(final(out)@) == (match prompt_in(value@) {
            Some(prompt) => views::seq_view(old(out)@).push(prompt),
            None => views::seq_view(old(out)@),
        }),
{
    broadcast use views::lemma_seq_view_push;

    if let Some(s) = value.as_str() {
        let prompt = s.trim();
        if !prompt.is_empty() {
            out.push(prompt.to_owned());
        }
    }
}

fn get_prompts(data: &Json) -> (r: Vec<String>)
    ensures
        views::seq_view(r@) == prompts_of(data@),
{
    let mut out: Vec<String> = Vec::new();
    assert(views::seq_view(out@) =~= seq![]);
    let list: Option<&Vec<Json>> = match data.get("prompts") {
        Some(value) => value.as_list(),
        None => None,
    };
    match list {
        Some(values) => {
            let ghost models = json::list_model(values@);
            proof {
                json::lemma_list_index(values@);
                assert(prompts_in(models.take(0)) =~= seq![]);
            }
            for i in 0..values.len()
                invariant
                    models == json::list_model(values@),
                    models.len() == values@.len(),
                    forall|k: int|
                        0 <= k < values@.len() ==> #[trigger] models[k] == values@[k].model(),
                    views::seq_view(out@) == prompts_in(models.take(i as int)),
            {
                proof {
                    assert(models.take(i + 1).drop_last() =~= models.take(i as int));
                    assert(models.take(i + 1).last() == models[i as int]);
                }
                push_prompt(&mut out, &values[i]);
            }
            assert(models.take(models.len() as int) =~= models);
        },
        None => {
            if let Some(value) = data.get("prompt") {
                proof {
                    assert(seq![value@].drop_last() =~= seq![]);
                    assert(prompts_in(seq![value@].drop_last()) =~= seq![]);
                }
                push_prompt(&mut out, value);
            }
        },
    }
    out
}

fn put_member(params: Json, data: &Json, key: &str) -> (r: Json)
    ensures
        r@ == with_member(params@, data@, key@),
{
    match data.get(key) {
        Some(value) => params.with(key, value.clone()),
        None => params,
    }
}

fn get_params(data: &Json) -> (r: Json)
    ensures
        r@ == params_of(data@),
{
    let params = Json::object();
    let params = put_member(params, data, "ratio");
    let params = put_member(params, data, "aspect_ratio");
    let params = put_member(params, data, "size");
    let params = put_member(params, data, "width");
    let params = put_member(params, data, "height");
    put_member(params, data, "n")
}

/// What is made of a request, given as JSON.
pub fn media_request(data: Option<&Json>, authorization: Option<&str>) -> (r: Result<
    MediaRequest,
    AppError,
>)
    ensures
        result_view(r) == request_of(views::option_view(data), views::option_view(authorization)),
{
    let data: &Json = match data {
        Some(data) => data,
        None => return Err(AppError::BadRequest("Invalid JSON".to_owned())),
    };
    let prompts = get_prompts(data);
    assert(prompts@.len() == prompts_of(data@).len());
    if prompts.len() == 0 {
        return Err(AppError::BadRequest("prompt is required".to_owned()));
    }
    let caller: Option<String> = match authorization {
        Some(s) => Some(text::strip_prefixes(s.trim(), "Bearer ").trim().to_owned()),
        None => None,
    };
    Ok(
        MediaRequest {
            kind: json::get_text_or(data.get("kind"), "image").to_owned(),
            prompts,
            params: get_params(data),
            caller,
        },
    )
}

/// What is made of the body of a request.
pub fn media_submit(body: &[u8], authorization: Option<&str>) -> (r: Result<
    MediaRequest,
    AppError,
>)
    ensures
        result_view(r) == request_of(
            json::codec::parsed_bytes(body@),
            views::option_view(authorization),
        ),
{
    match Json::parse_bytes(body) {
        Some(data) => media_request(Some(&data), authorization),
        None => media_request(None, authorization),
    }
}

/// The body that tells of queued tasks.
pub open spec fn submitted_body(ids: Seq<JsonModel>, kind: Seq<char>) -> JsonModel {
    JsonModel::object().with("ok"@, JsonModel::Bool(true)).with(
        "ids"@,
        JsonModel::List(ids),
    ).with("count"@, JsonModel::Integer(ids.len() as int)).with("kind"@, JsonModel::Text(kind))
}

/// What is answered once tasks are queued: `ids` are those of the tasks.
pub fn media_submitted(ids: Vec<Json>, kind: &str) -> (r: Json)
    ensures
        r@ == submitted_body(json::list_model(ids@), kind@),
        r@ == JsonModel::object().with("ok"@, JsonModel::Bool(true)).with(
            "ids"@,
            JsonModel::List(json::list_model(ids@)),
        ).with("count"@, JsonModel::Integer(ids@.len() as int)).with(
            "kind"@,
            JsonModel::Text(kind@),
        ),
{
    let count: usize = ids.len();
    proof {
        json::lemma_list_index(ids@);
    }
    Json::object().with("ok", Json::Bool(true)).with("ids", Json::List(ids)).with(
        "count",
        Json::Unsigned(count as u64),
    ).with("kind", Json::text(kind))
}

/// How many tasks are asked for.
pub fn media_tasks(limit: Option<&str>) -> (r: i64)
    ensures
        r == stats::limit_or(views::option_view(limit), 100),
{
    stats::get_limit_or(limit, 100)
}

/// No prompt is empty, and each is what is left of a text that was given.
pub proof fn law_prompts_are_trimmed(values: Seq<JsonModel>)
    ensures
        forall|k: int|
            0 <= k < prompts_in(values).len() ==> (#[trigger] prompts_in(values)[k]).len() > 0
                && exists|i: int|
                0 <= i < values.len() && prompt_in(#[trigger] values[i]) == Some(
                    prompts_in(values)[k],
                ),
        prompts_in(values).len() <= values.len(),
    decreases values.len(),
{
    if values.len() > 0 {
        let init = values.drop_last();
        law_prompts_are_trimmed(init);
        assert forall|k: int| 0 <= k < prompts_in(values).len() implies (
        #[trigger] prompts_in(values)[k]).len() > 0 && exists|i: int|
            0 <= i < values.len() && prompt_in(#[trigger] values[i]) == Some(
                prompts_in(values)[k],
            ) by {
            if k < prompts_in(init).len() {
                assert(prompts_in(init)[k] == prompts_in(values)[k]);
                let i = choose|i: int|
                    0 <= i < init.len() && prompt_in(#[trigger] init[i]) == Some(
                        prompts_in(init)[k],
                    );
                assert(values[i] == init[i]);
            } else {
                assert(values[values.len() - 1] == values.last());
            }
        }
    }
}

/// Gives the prover the characters that tell the keys apart.
proof fn lemma_keys()
    ensures
        "n"@.len() == 1,
        "ok"@.len() == 2,
        "ids"@.len() == 3,
        "size"@.len() == 4 && "size"@[0] == 's',
        "kind"@.len() == 4 && "kind"@[0] == 'k',
        "ratio"@.len() == 5 && "ratio"@[0] == 'r',
        "width"@.len() == 5 && "width"@[0] == 'w',
        "count"@.len() == 5 && "count"@[0] == 'c',
        "height"@.len() == 6,
        "aspect_ratio"@.len() == 12,
{
    reveal_strlit("ratio");
    reveal_strlit("aspect_ratio");
    reveal_strlit("size");
    reveal_strlit("width");
    reveal_strlit("height");
    reveal_strlit("n");
    reveal_strlit("ok");
    reveal_strlit("ids");
    reveal_strlit("count");
    reveal_strlit("kind");
}

/// One member is taken over, and the others stay.
proof fn lemma_with_member(params: JsonModel, data: JsonModel, key: Seq<char>, other: Seq<char>)
    requires
        params is Object,
        params.get(key) is None,
    ensures
        with_member(params, data, key) is Object,
        with_member(params, data, key).get(key) == data.get(key),
        other != key ==> with_member(params, data, key).get(other) == params.get(other),
{
}

/// The parameters of a request are its members under the six keys that
/// parameters have, present where the request has them and with the same
/// values, and nothing else.
pub proof fn law_parameters_are_taken_over(data: JsonModel, key: Seq<char>)
    ensures
        params_of(data) is Object,
        params_of(data).get(key) == if key == "ratio"@ || key == "aspect_ratio"@ || key
            == "size"@ || key == "width"@ || key == "height"@ || key == "n"@ {
            data.get(key)
        } else {
            None
        },
{
    lemma_keys();
    let p0 = JsonModel::object();
    let p1 = with_member(p0, data, "ratio"@);
    let p2 = with_member(p1, data, "aspect_ratio"@);
    let p3 = with_member(p2, data, "size"@);
    let p4 = with_member(p3, data, "width"@);
    let p5 = with_member(p4, data, "height"@);
    lemma_with_member(p0, data, "ratio"@, key);
    lemma_with_member(p0, data, "ratio"@, "aspect_ratio"@);
    lemma_with_member(p0, data, "ratio"@, "size"@);
    lemma_with_member(p0, data, "ratio"@, "width"@);
    lemma_with_member(p0, data, "ratio"@, "height"@);
    lemma_with_member(p0, data, "ratio"@, "n"@);
    lemma_with_member(p1, data, "aspect_ratio"@, key);
    lemma_with_member(p1, data, "aspect_ratio"@, "size"@);
    lemma_with_member(p1, data, "aspect_ratio"@, "width"@);
    lemma_with_member(p1, data, "aspect_ratio"@, "height"@);
    lemma_with_member(p1, data, "aspect_ratio"@, "n"@);
    lemma_with_member(p2, data, "size"@, key);
    lemma_with_member(p2, data, "size"@, "width"@);
    lemma_with_member(p2, data, "size"@, "height"@);
    lemma_with_member(p2, data, "size"@, "n"@);
    lemma_with_member(p3, data, "width"@, key);
    lemma_with_member(p3, data, "width"@, "height"@);
    lemma_with_member(p3, data, "width"@, "n"@);
    lemma_with_member(p4, data, "height"@, key);
    lemma_with_member(p4, data, "height"@, "n"@);
    lemma_with_member(p5, data, "n"@, key);
}

/// Prompts are read value by value and stay in order: a text gives itself
/// without the white space around it, where anything is left, and no other value
/// gives one.
pub proof fn law_prompts_are_read_value_by_value(values: Seq<JsonModel>, value: JsonModel)
    ensures
        prompts_in(seq![]).len() == 0,
        prompts_in(values.push(value)) == (match value {
            JsonModel::Text(s) => if text::trimmed(s).len() > 0 {
                prompts_in(values).push(text::trimmed(s))
            } else {
                prompts_in(values)
            },
            _ => prompts_in(values),
        }),
{
    assert(values.push(value).drop_last() =~= values);
}

/// The prompts of a request are those of its list `prompts`; only where there is
/// no such list is it the one of `prompt`.
pub proof fn law_list_of_prompts_comes_first(data: JsonModel)
    ensures
        (match data.get("prompts"@) {
            Some(JsonModel::List(values)) => prompts_of(data) == prompts_in(values),
            _ => match data.get("prompt"@) {
                Some(JsonModel::Text(s)) => prompts_of(data) == if text::trimmed(s).len() > 0 {
                    seq![text::trimmed(s)]
                } else {
                    seq![]
                },
                _ => prompts_of(data).len() == 0,
            },
        }),
{
    if let Some(value) = data.get("prompt"@) {
        law_prompts_are_read_value_by_value(seq![], value);
        assert(seq![].push(value) =~= seq![value]);
        assert(prompts_in(seq![]) =~= seq![]);
        if let JsonModel::Text(s) = value {
            assert(prompts_in(seq![]).push(text::trimmed(s)) =~= seq![text::trimmed(s)]);
        }
    }
}

/// A request is taken exactly where it has a prompt. It keeps its prompts, its
/// parameters and its kind, which is `image` where none is given, and the caller
/// of its header.
pub proof fn law_request_with_a_prompt_is_taken(
    data: JsonModel,
    authorization: Option<Seq<char>>,
)
    ensures
        (match request_of(Some(data), authorization) {
            Ok(request) => {
                &&& prompts_of(data).len() > 0
                &&& request.prompts == prompts_of(data)
                &&& request.params == params_of(data)
                &&& match data.get("kind"@) {
                    Some(JsonModel::Text(s)) => request.kind == s,
                    _ => request.kind == "image"@,
                }
                &&& request.caller == (match authorization {
                    Some(header) => Some(caller_in(header)),
                    None => None,
                })
            },
            Err(error) => {
                &&& prompts_of(data).len() == 0
                &&& error == ErrorModel::BadRequest("prompt is required"@)
            },
        }),
        request_of(None, authorization) == Err::<MediaModel, ErrorModel>(
            ErrorModel::BadRequest("Invalid JSON"@),
        ),
{
}

/// A header with a key that has no white space around it has none either.
proof fn lemma_bearer_header(key: Seq<char>)
    requires
        key.len() > 0,
        !text::is_white_space(key.last()),
    ensures
        text::trimmed("Bearer "@ + key) == "Bearer "@ + key,
{
    reveal_strlit("Bearer ");
    assert("Bearer "@.len() == 7 && "Bearer "@[0] == 'B');
    let header = "Bearer "@ + key;
    assert(header.first() == 'B');
    assert(header.last() == key.last());
    assert(text::trimmed_start(header) == header);
    assert(text::trimmed_end(header) == header);
}

/// The caller is the key behind `Bearer `, as often as that stands there, or the
/// key alone; white space around the header does not matter.
pub proof fn law_caller_is_the_key_behind_bearer(key: Seq<char>)
    ensures
        caller_in(key) == caller_in(text::trimmed(key)),
        text::trimmed(key) == key && key.len() > 0 ==> caller_in("Bearer "@ + key) == caller_in(
            key,
        ),
        text::trimmed(key) == key && !"Bearer "@.is_prefix_of(key) ==> caller_in(key) == key,
{
    let bearer = "Bearer "@;
    assert(bearer.len() == 7) by {
        reveal_strlit("Bearer ");
    }
    assert(text::trimmed(text::trimmed(key)) == text::trimmed(key)) by {
        text::law_trimming_takes_off_white_space(key);
    }
    assert(text::without_prefixes(bearer + key, bearer) == text::without_prefixes(key, bearer)) by {
        text::law_prefix_before_a_text_is_taken_off(key, bearer);
    }
    assert(!bearer.is_prefix_of(key) ==> text::without_prefixes(key, bearer) == key) by {
        text::law_prefix_before_a_text_is_taken_off(key, bearer);
    }
    if text::trimmed(key) == key && key.len() > 0 {
        assert(!text::is_white_space(key.last())) by {
            text::law_trimming_takes_off_white_space(key);
        }
        lemma_bearer_header(key);
    }
}

/// The answer has the ids of all queued tasks, their number and their kind.
pub proof fn law_answer_has_all_ids(ids: Seq<JsonModel>, kind: Seq<char>)
    ensures
        submitted_body(ids, kind).get("ok"@) == Some(JsonModel::Bool(true)),
        submitted_body(ids, kind).get("ids"@) == Some(JsonModel::List(ids)),
        submitted_body(ids, kind).get("count"@) == Some(JsonModel::Integer(ids.len() as int)),
        submitted_body(ids, kind).get("kind"@) == Some(JsonModel::Text(kind)),
{
    lemma_keys();
}

} // verus!
