//! JSON values: a type of the crate's own, its mathematical model, and the
//! bridge to `serde_json`, which reads and prints the text.

pub mod codec;

use crate::text;
use crate::views;
use vstd::prelude::*;

verus! {

/// What a JSON value is, as mathematics: objects are maps, so the order in
/// which members were written does not exist here.
#[verifier::ext_equal]
pub enum JsonModel {
    Null,
    Bool(bool),
    /// An integer, of either sign.
    Integer(int),
    /// A number that is no integer, by the text it prints as.
    Float(Seq<char>),
    Text(Seq<char>),
    List(Seq<JsonModel>),
    Object(Map<Seq<char>, JsonModel>),
}

impl JsonModel {
    /// The member `key` of an object; `None` for a missing member and for
    /// anything that is no object.
    pub open spec fn get(self, key: Seq<char>) -> Option<JsonModel> {
        match self {
            JsonModel::Object(m) => if m.contains_key(key) {
                Some(m[key])
            } else {
                None
            },
            _ => None,
        }
    }

    pub open spec fn as_text(self) -> Option<Seq<char>> {
        match self {
            JsonModel::Text(s) => Some(s),
            _ => None,
        }
    }

    pub open spec fn as_list(self) -> Option<Seq<JsonModel>> {
        match self {
            JsonModel::List(items) => Some(items),
            _ => None,
        }
    }

    pub open spec fn as_i64(self) -> Option<i64> {
        match self {
            JsonModel::Integer(n) => if i64::MIN <= n <= i64::MAX {
                Some(n as i64)
            } else {
                None
            },
            _ => None,
        }
    }

    pub open spec fn as_u64(self) -> Option<u64> {
        match self {
            JsonModel::Integer(n) => if 0 <= n <= u64::MAX {
                Some(n as u64)
            } else {
                None
            },
            _ => None,
        }
    }

    /// An object without members.
    pub open spec fn object() -> JsonModel {
        JsonModel::Object(Map::empty())
    }

    /// An object with one member more, or with that member replaced.
    pub open spec fn with(self, key: Seq<char>, value: JsonModel) -> JsonModel {
        match self {
            JsonModel::Object(m) => JsonModel::Object(m.insert(key, value)),
            _ => self,
        }
    }
}

/// Of a value that may be missing: its member `key`.
pub open spec fn member(value: Option<JsonModel>, key: Seq<char>) -> Option<JsonModel> {
    match value {
        Some(v) => v.get(key),
        None => None,
    }
}

/// Of a value that may be missing: its text.
pub open spec fn text_of(value: Option<JsonModel>) -> Option<Seq<char>> {
    match value {
        Some(v) => v.as_text(),
        None => None,
    }
}

/// `first`, or `second` where there is no first.
pub open spec fn either(first: Option<JsonModel>, second: Option<JsonModel>) -> Option<JsonModel> {
    if first is Some {
        first
    } else {
        second
    }
}

/// The text of a value, or `fallback` where it is missing or no text.
pub open spec fn text_or(value: Option<JsonModel>, fallback: Seq<char>) -> Seq<char> {
    match text_of(value) {
        Some(s) => s,
        None => fallback,
    }
}

/// The integer of a value, or `fallback` where it is missing or no integer that
/// fits an `i64`.
pub open spec fn i64_or(value: Option<JsonModel>, fallback: i64) -> i64 {
    match value {
        Some(v) => match v.as_i64() {
            Some(n) => n,
            None => fallback,
        },
        None => fallback,
    }
}

/// A JSON value.
///
/// The entries of an object may repeat a key; the last entry of a key is the
/// one that counts.
#[derive(Debug)]
pub enum Json {
    Null,
    Bool(bool),
    Unsigned(u64),
    Signed(i64),
    Float(codec::Float),
    Text(String),
    List(Vec<Json>),
    Object(Vec<(String, Json)>),
}

impl Json {
    pub open spec fn model(self) -> JsonModel
        decreases self,
    {
        match self {
            Json::Null => JsonModel::Null,
            Json::Bool(b) => JsonModel::Bool(b),
            Json::Unsigned(n) => JsonModel::Integer(n as int),
            Json::Signed(n) => JsonModel::Integer(n as int),
            Json::Float(f) => f.model(),
            Json::Text(s) => JsonModel::Text(s@),
            Json::List(items) => JsonModel::List(list_model(items@)),
            Json::Object(entries) => JsonModel::Object(object_model(entries@)),
        }
    }
}

/// The models of a run of values.
pub open spec fn list_model(items: Seq<Json>) -> Seq<JsonModel>
    decreases items,
{
    if items.len() == 0 {
        seq![]
    } else {
        list_model(items.drop_last()).push(items.last().model())
    }
}

/// The map that a run of entries describes, a later entry replacing an
/// earlier one of the same key.
pub open spec fn object_model(entries: Seq<(String, Json)>) -> Map<Seq<char>, JsonModel>
    decreases entries,
{
    if entries.len() == 0 {
        Map::empty()
    } else {
        object_model(entries.drop_last()).insert(entries.last().0@, entries.last().1.model())
    }
}

/// One value more is one model more.
pub proof fn lemma_list_push(items: Seq<Json>, item: Json)
    ensures
        list_model(items.push(item)) == list_model(items).push(item.model()),
{
    assert(items.push(item).drop_last() =~= items);
}

/// One entry more is one insertion more.
pub proof fn lemma_object_push(entries: Seq<(String, Json)>, entry: (String, Json))
    ensures
        object_model(entries.push(entry)) == object_model(entries).insert(
            entry.0@,
            entry.1.model(),
        ),
{
    assert(entries.push(entry).drop_last() =~= entries);
}

/// The models stand in the order of the values.
pub proof fn lemma_list_index(items: Seq<Json>)
    ensures
        list_model(items).len() == items.len(),
        forall|i: int| 0 <= i < items.len() ==> #[trigger] list_model(items)[i] == items[i].model(),
    decreases items.len(),
{
    if items.len() > 0 {
        let init = items.drop_last();
        lemma_list_index(init);
        assert forall|i: int| 0 <= i < items.len() implies #[trigger] list_model(items)[i]
            == items[i].model() by {
            if i < items.len() - 1 {
                assert(list_model(init)[i] == init[i].model());
            }
        }
    }
}

impl View for Json {
    type V = JsonModel;

    open spec fn view(&self) -> JsonModel {
        self.model()
    }
}

impl Clone for Json {
    fn clone(&self) -> (r: Json)
        ensures
            r@ == self@,
        decreases *self,
    {
        match self {
            Json::Null => Json::Null,
            Json::Bool(b) => Json::Bool(*b),
            Json::Unsigned(n) => Json::Unsigned(*n),
            Json::Signed(n) => Json::Signed(*n),
            Json::Float(f) => Json::Float(f.clone()),
            Json::Text(s) => Json::Text(s.clone()),
            Json::List(items) => {
                let mut out: Vec<Json> = Vec::new();
                for i in 0..items.len()
                    invariant
                        decreases_to!(*self => *items),
                        list_model(out@) =~= list_model(items@.take(i as int)),
                {
                    proof {
                        assert(decreases_to!(*items => items@[i as int]));
                        assert(items@.take(i + 1) =~= items@.take(i as int).push(items@[i as int]));
                        lemma_list_push(items@.take(i as int), items@[i as int]);
                    }
                    let ghost before = out@;
                    out.push(items[i].clone());
                    assert(out@.drop_last() =~= before);
                }
                assert(items@.take(items@.len() as int) =~= items@);
                Json::List(out)
            },
            Json::Object(entries) => {
                let mut out: Vec<(String, Json)> = Vec::new();
                for i in 0..entries.len()
                    invariant
                        decreases_to!(*self => *entries),
                        object_model(out@) =~= object_model(entries@.take(i as int)),
                {
                    proof {
                        assert(decreases_to!(*entries => entries@[i as int]));
                        assert(decreases_to!(entries@[i as int] => entries@[i as int].1));
                        assert(entries@.take(i + 1) =~= entries@.take(i as int).push(
                            entries@[i as int],
                        ));
                        lemma_object_push(entries@.take(i as int), entries@[i as int]);
                    }
                    let ghost before = out@;
                    out.push((entries[i].0.clone(), entries[i].1.clone()));
                    assert(out@.drop_last() =~= before);
                }
                assert(entries@.take(entries@.len() as int) =~= entries@);
                Json::Object(out)
            },
        }
    }
}

/// A copy of a run of values.
pub fn clone_list(items: &Vec<Json>) -> (r: Vec<Json>)
    ensures
        list_model(r@) == list_model(items@),
{
    let mut out: Vec<Json> = Vec::new();
    for i in 0..items.len()
        invariant
            list_model(out@) =~= list_model(items@.take(i as int)),
    {
        proof {
            assert(items@.take(i + 1) =~= items@.take(i as int).push(items@[i as int]));
            lemma_list_push(items@.take(i as int), items@[i as int]);
        }
        let ghost before = out@;
        out.push(items[i].clone());
        assert(out@.drop_last() =~= before);
    }
    assert(items@.take(items@.len() as int) =~= items@);
    out
}

impl Json {
    /// The member `key` of an object.
    pub fn get(&self, key: &str) -> (r: Option<&Json>)
        ensures
            views::option_view(r) == self@.get(key@),
    {
        match self {
            Json::Object(entries) => {
                let mut i: usize = entries.len();
                assert(entries@.take(i as int) =~= entries@);
                while i > 0
                    invariant
                        i <= entries.len(),
                        self@ == JsonModel::Object(object_model(entries@)),
                        self@.get(key@) == JsonModel::Object(
                            object_model(entries@.take(i as int)),
                        ).get(key@),
                    decreases i,
                {
                    i -= 1;
                    assert(entries@.take(i + 1).drop_last() =~= entries@.take(i as int));
                    if text::same(entries[i].0.as_str(), key) {
                        return Some(&entries[i].1);
                    }
                }
                None
            },
            Json::Float(f) => {
                proof {
                    use_type_invariant(f);
                }
                None
            },
            _ => None,
        }
    }

    pub fn as_str(&self) -> (r: Option<&str>)
        ensures
            views::option_view(r) == self@.as_text(),
    {
        match self {
            Json::Text(s) => Some(s.as_str()),
            Json::Float(f) => {
                proof {
                    use_type_invariant(f);
                }
                None
            },
            _ => None,
        }
    }

    pub fn as_list(&self) -> (r: Option<&Vec<Json>>)
        ensures
            (match r {
                Some(items) => self@.as_list() == Some(list_model(items@)),
                None => self@.as_list() is None,
            }),
    {
        match self {
            Json::List(items) => Some(items),
            Json::Float(f) => {
                proof {
                    use_type_invariant(f);
                }
                None
            },
            _ => None,
        }
    }

    /// The entries of an object.
    pub fn as_object(&self) -> (r: Option<&Vec<(String, Json)>>)
        ensures
            (match r {
                Some(entries) => self@ == JsonModel::Object(object_model(entries@)),
                None => !(self@ is Object),
            }),
    {
        match self {
            Json::Object(entries) => Some(entries),
            Json::Float(f) => {
                proof {
                    use_type_invariant(f);
                }
                None
            },
            _ => None,
        }
    }

    pub fn as_i64(&self) -> (r: Option<i64>)
        ensures
            r == self@.as_i64(),
    {
        match self {
            Json::Signed(n) => Some(*n),
            Json::Unsigned(n) => if *n <= i64::MAX as u64 {
                Some(*n as i64)
            } else {
                None
            },
            Json::Float(f) => {
                proof {
                    use_type_invariant(f);
                }
                None
            },
            _ => None,
        }
    }

    pub fn as_u64(&self) -> (r: Option<u64>)
        ensures
            r == self@.as_u64(),
    {
        match self {
            Json::Unsigned(n) => Some(*n),
            Json::Signed(n) => if *n >= 0 {
                Some(*n as u64)
            } else {
                None
            },
            Json::Float(f) => {
                proof {
                    use_type_invariant(f);
                }
                None
            },
            _ => None,
        }
    }

    /// Whether this is the value `false`.
    pub fn is_false(&self) -> (r: bool)
        ensures
            r == (self@ == JsonModel::Bool(false)),
    {
        match self {
            Json::Bool(b) => !*b,
            Json::Float(f) => {
                proof {
                    use_type_invariant(f);
                }
                false
            },
            _ => false,
        }
    }

    /// A text value.
    pub fn text(s: &str) -> (r: Json)
        ensures
            r@ == JsonModel::Text(s@),
    {
        Json::Text(s.to_owned())
    }

    /// An object without members.
    pub fn object() -> (r: Json)
        ensures
            r@ == JsonModel::object(),
    {
        Json::Object(Vec::new())
    }

    /// An object with one member more, or with that member replaced; any other
    /// value as it is.
    pub fn with(self, key: &str, value: Json) -> (r: Json)
        ensures
            r@ == self@.with(key@, value@),
    {
        match self {
            Json::Object(entries) => {
                let mut entries = entries;
                let ghost before = entries@;
                entries.push((key.to_owned(), value));
                proof {
                    lemma_object_push(before, entries@.last());
                    assert(entries@ =~= before.push(entries@.last()));
                }
                Json::Object(entries)
            },
            Json::Float(f) => {
                proof {
                    use_type_invariant(&f);
                }
                Json::Float(f)
            },
            other => other,
        }
    }
}

/// Of a value that may be missing: its member `key`.
pub fn get_member<'a>(value: Option<&'a Json>, key: &str) -> (r: Option<&'a Json>)
    ensures
        views::option_view(r) == member(views::option_view(value), key@),
{
    match value {
        Some(json) => json.get(key),
        None => None,
    }
}

/// Of a value that may be missing: its text.
pub fn get_text<'a>(value: Option<&'a Json>) -> (r: Option<&'a str>)
    ensures
        views::option_view(r) == text_of(views::option_view(value)),
{
    match value {
        Some(json) => json.as_str(),
        None => None,
    }
}

/// `first`, or `second` where there is no first.
pub fn get_either<'a>(first: Option<&'a Json>, second: Option<&'a Json>) -> (r: Option<&'a Json>)
    ensures
        views::option_view(r) == either(views::option_view(first), views::option_view(second)),
{
    match first {
        Some(json) => Some(json),
        None => second,
    }
}

/// The text of a value, or `fallback` where it is missing or no text.
pub fn get_text_or<'a>(value: Option<&'a Json>, fallback: &'a str) -> (r: &'a str)
    ensures
        r@ == text_or(views::option_view(value), fallback@),
{
    match get_text(value) {
        Some(s) => s,
        None => fallback,
    }
}

/// The integer of a value, or `fallback` where it is missing or no integer that
/// fits an `i64`.
pub fn get_i64_or(value: Option<&Json>, fallback: i64) -> (r: i64)
    ensures
        r == i64_or(views::option_view(value), fallback),
{
    match value {
        Some(v) => match v.as_i64() {
            Some(n) => n,
            None => fallback,
        },
        None => fallback,
    }
}

/// A list of texts.
pub open spec fn texts_model(texts: Seq<Seq<char>>) -> JsonModel {
    JsonModel::List(texts.map_values(|s: Seq<char>| JsonModel::Text(s)))
}

/// A list of texts.
pub fn text_list(texts: &Vec<String>) -> (r: Json)
    ensures
        r@ == texts_model(views::seq_view(texts@)),
{
    let ghost all = texts_model(views::seq_view(texts@))->List_0;
    let mut out: Vec<Json> = Vec::new();
    for i in 0..texts.len()
        invariant
            all == texts_model(views::seq_view(texts@))->List_0,
            list_model(out@) =~= all.take(i as int),
    {
        let ghost before = out@;
        out.push(Json::text(texts[i].as_str()));
        proof {
            assert(out@ =~= before.push(out@.last()));
            lemma_list_push(before, out@.last());
            assert(all[i as int] == JsonModel::Text(texts@[i as int]@));
            assert(all.take(i + 1) =~= all.take(i as int).push(all[i as int]));
        }
    }
    assert(all.take(all.len() as int) =~= all);
    Json::List(out)
}

/// A member that was put into an object is found there, and no other member
/// changes; the empty object has none.
pub proof fn law_member_that_was_put_is_found(
    members: Map<Seq<char>, JsonModel>,
    key: Seq<char>,
    value: JsonModel,
    other: Seq<char>,
)
    ensures
        JsonModel::Object(members).with(key, value).get(key) == Some(value),
        other != key ==> JsonModel::Object(members).with(key, value).get(other)
            == JsonModel::Object(members).get(other),
        JsonModel::object().get(key) is None,
        JsonModel::object() is Object,
        JsonModel::Object(members).get(key) is Some <==> members.contains_key(key),
        members.contains_key(key) ==> JsonModel::Object(members).get(key) == Some(members[key]),
{
}

/// Only an object has members, only a text is a text, and only an integer in
/// range is one of that range.
pub proof fn law_values_are_what_they_are(value: JsonModel, key: Seq<char>)
    ensures
        !(value is Object) ==> value.get(key) is None && value.with(key, value) == value,
        value.as_text() is Some <==> value is Text,
        value is Text ==> value.as_text() == Some(value->Text_0),
        value.as_list() is Some <==> value is List,
        value is List ==> value.as_list() == Some(value->List_0),
        value.as_i64() is Some <==> value is Integer && -0x8000_0000_0000_0000
            <= value->Integer_0 <= 0x7fff_ffff_ffff_ffff,
        value.as_i64() is Some ==> value.as_i64()->0 == value->Integer_0,
        value.as_u64() is Some <==> value is Integer && 0 <= value->Integer_0
            <= 0xffff_ffff_ffff_ffff,
        value.as_u64() is Some ==> value.as_u64()->0 == value->Integer_0,
{
}

/// A fallback is used exactly where a value is missing or of another kind.
pub proof fn law_fallback_is_for_what_is_missing(
    value: Option<JsonModel>,
    text: Seq<char>,
    number: i64,
)
    ensures
        text_or(value, text) == (match value {
            Some(JsonModel::Text(s)) => s,
            _ => text,
        }),
        i64_or(value, number) == (match value {
            Some(JsonModel::Integer(n)) => if i64::MIN <= n <= i64::MAX {
                n
            } else {
                number as int
            },
            _ => number as int,
        }),
        texts_model(seq![text]) == JsonModel::List(seq![JsonModel::Text(text)]),
{
    assert(seq![text].map_values(|s: Seq<char>| JsonModel::Text(s)) =~= seq![
        JsonModel::Text(text),
    ]);
}

/// A list of texts has each of them, in order.
pub proof fn law_text_list_has_each_text(texts: Seq<Seq<char>>)
    ensures
        texts_model(texts) matches JsonModel::List(items) && items.len() == texts.len() && forall|
            i: int,
        |
            0 <= i < texts.len() ==> #[trigger] items[i] == JsonModel::Text(texts[i]),
{
}

/// What a value holds is what it was made of: a list has its items in order, and
/// an object the last value that was given for a key.
pub proof fn law_value_holds_what_it_was_made_of(
    items: Vec<Json>,
    entries: Seq<(String, Json)>,
    entry: (String, Json),
    text: String,
    unsigned: u64,
    signed: i64,
    truth: bool,
    key: Seq<char>,
)
    ensures
        Json::Null@ == JsonModel::Null,
        Json::Bool(truth)@ == JsonModel::Bool(truth),
        Json::Unsigned(unsigned)@ == JsonModel::Integer(unsigned as int),
        Json::Signed(signed)@ == JsonModel::Integer(signed as int),
        Json::Text(text)@ == JsonModel::Text(text@),
        Json::List(items)@ matches JsonModel::List(models) && models.len() == items@.len()
            && forall|i: int| 0 <= i < models.len() ==> #[trigger] models[i] == items@[i]@,
        object_model(entries.push(entry)).contains_key(entry.0@),
        object_model(entries.push(entry))[entry.0@] == entry.1@,
        key != entry.0@ ==> object_model(entries.push(entry)).contains_key(key) == object_model(
            entries,
        ).contains_key(key),
        key != entry.0@ && object_model(entries).contains_key(key) ==> object_model(
            entries.push(entry),
        )[key] == object_model(entries)[key],
        object_model(seq![]) == Map::<Seq<char>, JsonModel>::empty(),
{
    lemma_list_index(items@);
    lemma_object_push(entries, entry);
}

/// A value that may be missing has a member where it is there and has one, and a
/// text where it is there and is one. Of two values the first counts where it is
/// there, whatever it is.
pub proof fn law_value_that_may_be_missing(
    value: JsonModel,
    other: Option<JsonModel>,
    key: Seq<char>,
)
    ensures
        member(Some(value), key) == value.get(key),
        member(None, key) is None,
        text_of(Some(value)) == (match value {
            JsonModel::Text(s) => Some(s),
            _ => None,
        }),
        text_of(None) is None,
        either(Some(value), other) == Some(value),
        either(None, other) == other,
{
}

} // verus!
