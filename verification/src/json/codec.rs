//! The bridge between [`Json`] and `serde_json`: text is read and printed by
//! `serde_json`, and its trees are taken apart and put together one level at a
//! time.

use super::{Json, JsonModel};
use crate::text;
use serde_json::Value;
use vstd::prelude::*;

verus! {

/// `serde_json::Value`, a JSON tree as that crate holds it.
#[verifier::external_type_specification]
#[verifier::external_body]
pub struct ExValue(serde_json::Value);

/// `serde_json::Error`, why a text is no JSON.
#[verifier::external_type_specification]
#[verifier::external_body]
pub struct ExError(serde_json::Error);

/// What a `serde_json::Value` holds.
pub uninterp spec fn value_model(value: serde_json::Value) -> JsonModel;

/// The value that a text denotes, by `serde_json`'s reading of it; `None`
/// where the text is no JSON.
pub uninterp spec fn parsed(text: Seq<char>) -> Option<JsonModel>;

/// The value that a run of bytes denotes, by `serde_json`'s reading of it.
pub uninterp spec fn parsed_bytes(bytes: Seq<u8>) -> Option<JsonModel>;

/// The compact text that `serde_json` prints a value as.
pub uninterp spec fn printed(value: JsonModel) -> Seq<char>;

/// A number that is no integer, kept as `serde_json` holds it.
#[derive(Debug)]
pub struct Float {
    value: serde_json::Value,
}

impl Float {
    pub closed spec fn model(self) -> JsonModel {
        value_model(self.value)
    }

    #[verifier::type_invariant]
    pub open spec fn well_formed(self) -> bool {
        self.model() is Float
    }
}

/// `Value`'s `clone`: a tree that holds the same.
pub assume_specification[ <serde_json::Value as Clone>::clone ](value: &serde_json::Value) -> (r:
    serde_json::Value)
    ensures
        value_model(r) == value_model(*value),
;

impl Clone for Float {
    fn clone(&self) -> (r: Float)
        ensures
            r.model() == self.model(),
    {
        proof {
            use_type_invariant(self);
        }
        Float { value: self.value.clone() }
    }
}

/// One level of a `serde_json::Value`: its variant, with the values below it
/// as `serde_json` holds them.
pub enum Shape {
    Null,
    Bool(bool),
    Unsigned(u64),
    Signed(i64),
    Float(Value),
    Text(String),
    List(Vec<Value>),
    Object(Vec<(String, Value)>),
}

/// The map that a run of entries describes, a later entry replacing an
/// earlier one of the same key.
pub open spec fn entries_model(entries: Seq<(String, Value)>) -> Map<Seq<char>, JsonModel>
    decreases entries.len(),
{
    if entries.len() == 0 {
        Map::empty()
    } else {
        entries_model(entries.drop_last()).insert(
            entries.last().0@,
            value_model(entries.last().1),
        )
    }
}

impl Shape {
    pub open spec fn model(self) -> JsonModel {
        match self {
            Shape::Null => JsonModel::Null,
            Shape::Bool(b) => JsonModel::Bool(b),
            Shape::Unsigned(n) => JsonModel::Integer(n as int),
            Shape::Signed(n) => JsonModel::Integer(n as int),
            Shape::Float(v) => value_model(v),
            Shape::Text(s) => JsonModel::Text(s@),
            Shape::List(items) => JsonModel::List(items@.map_values(|v: Value| value_model(v))),
            Shape::Object(entries) => JsonModel::Object(entries_model(entries@)),
        }
    }
}

/// `serde_json::from_str` for a `Value`: whether the text is JSON, and the
/// tree that it denotes. Neither the empty text nor `[DONE]`, in which no value
/// follows the bracket, is JSON.
#[verifier::external_body]
fn from_str(text: &str) -> (r: Result<Value, serde_json::Error>)
    ensures
        (match r {
            Ok(value) => {
                &&& parsed(text@) == Some(value_model(value))
                &&& text@.len() > 0
                &&& text@ != "[DONE]"@
            },
            Err(_) => parsed(text@) is None,
        }),
{
    serde_json::from_str(text)
}

/// `serde_json::from_slice` for a `Value`: whether the bytes are JSON, and the
/// tree that they denote.
#[verifier::external_body]
fn from_slice(bytes: &[u8]) -> (r: Result<Value, serde_json::Error>)
    ensures
        (match r {
            Ok(value) => parsed_bytes(bytes@) == Some(value_model(value)),
            Err(_) => parsed_bytes(bytes@) is None,
        }),
{
    serde_json::from_slice(bytes)
}

/// A key that `serde_json` keeps for itself: an object that starts with it is
/// not read as an object.
pub open spec fn reserved_key() -> Seq<char> {
    "$serde_json::private::RawValue"@
}

/// Whether a value holds integers as its only numbers, has no more than
/// `levels` levels of lists and objects, and no object in it has the reserved
/// key.
pub open spec fn is_plain(value: JsonModel, levels: nat) -> bool
    decreases levels,
{
    match value {
        JsonModel::Float(_) => false,
        JsonModel::List(items) => levels > 0 && forall|i: int|
            0 <= i < items.len() ==> is_plain(#[trigger] items[i], (levels - 1) as nat),
        JsonModel::Object(members) => levels > 0 && !members.contains_key(reserved_key())
            && forall|key: Seq<char>|
            members.contains_key(key) ==> is_plain(#[trigger] members[key], (levels - 1) as nat),
        _ => true,
    }
}

/// Whether a value is printed without loss, free of the reserved key and not
/// too deep to be read again: `serde_json` reads no more than 127 levels of
/// lists and objects.
pub open spec fn reads_back(value: JsonModel) -> bool {
    is_plain(value, 127)
}

/// Whether a text stands in braces.
pub open spec fn in_braces(text: Seq<char>) -> bool {
    text.len() >= 2 && text.first() == '{' && text.last() == '}'
}

/// `Value`'s `Display`: the compact text of a tree, a function of what the
/// tree holds. It is one line, since control characters are escaped, and that
/// of an object stands in braces. Read again by `serde_json::from_str`, the
/// text denotes the same tree; this is not said of trees with numbers that are
/// no integers, whose last digit may change, of trees that are too deep to be
/// read, nor of trees with the reserved key.
#[verifier::external_body]
fn print(value: &Value) -> (r: String)
    ensures
        r@ == printed(value_model(*value)),
        !r@.contains('\n'),
        value_model(*value) is Object ==> in_braces(r@),
        reads_back(value_model(*value)) ==> parsed(r@) == Some(value_model(*value)),
{
    value.to_string()
}

/// The variant of a `serde_json::Value`, one arm each. `Number::as_u64` and
/// `Number::as_i64` tell the integers from the rest of the numbers; the keys
/// of an object are distinct.
#[verifier::external_body]
fn open(value: Value) -> (r: Shape)
    ensures
        r.model() == value_model(value),
        r is Float ==> value_model(value) is Float,
        r matches Shape::Object(entries) ==> distinct_keys(entries@),
{
    match value {
        Value::Null => Shape::Null,
        Value::Bool(b) => Shape::Bool(b),
        Value::Number(n) => match (n.as_u64(), n.as_i64()) {
            (Some(u), _) => Shape::Unsigned(u),
            (None, Some(i)) => Shape::Signed(i),
            (None, None) => Shape::Float(Value::Number(n)),
        },
        Value::String(s) => Shape::Text(s),
        Value::Array(items) => Shape::List(items),
        Value::Object(map) => Shape::Object(map.into_iter().collect()),
    }
}

/// The `serde_json::Value` of a variant, one arm each. The entries of an object
/// have distinct keys; collected into a `serde_json::Map`, each of them stays.
#[verifier::external_body]
fn close(shape: Shape) -> (r: Value)
    requires
        shape matches Shape::Object(entries) ==> distinct_keys(entries@),
    ensures
        value_model(r) == shape.model(),
{
    match shape {
        Shape::Null => Value::Null,
        Shape::Bool(b) => Value::Bool(b),
        Shape::Unsigned(n) => Value::from(n),
        Shape::Signed(n) => Value::from(n),
        Shape::Float(value) => value,
        Shape::Text(s) => Value::String(s),
        Shape::List(items) => Value::Array(items),
        Shape::Object(entries) => Value::Object(entries.into_iter().collect()),
    }
}

/// No two entries have the same key.
pub open spec fn distinct_keys(entries: Seq<(String, Value)>) -> bool {
    forall|i: int, j: int|
        0 <= i < j < entries.len() ==> #[trigger] entries[i].0@ != #[trigger] entries[j].0@
}

/// Where keys are distinct, the map has the value of every entry.
proof fn lemma_entries_found(entries: Seq<(String, Value)>, i: int)
    requires
        distinct_keys(entries),
        0 <= i < entries.len(),
    ensures
        entries_model(entries).contains_key(entries[i].0@),
        entries_model(entries)[entries[i].0@] == value_model(entries[i].1),
    decreases entries.len(),
{
    if i < entries.len() - 1 {
        let init = entries.drop_last();
        assert(forall|k: int| 0 <= k < init.len() ==> init[k] == entries[k]);
        lemma_entries_found(init, i);
        assert(entries[i].0@ != entries[entries.len() - 1].0@);
    }
}

/// Where keys are distinct, another value for a key is put in place of the
/// first.
proof fn lemma_entry_replaced(entries: Seq<(String, Value)>, at: int, entry: (String, Value))
    requires
        distinct_keys(entries),
        0 <= at < entries.len(),
        entries[at].0@ == entry.0@,
    ensures
        distinct_keys(entries.update(at, entry)),
        entries_model(entries.update(at, entry)) == entries_model(entries).insert(
            entry.0@,
            value_model(entry.1),
        ),
    decreases entries.len(),
{
    let updated = entries.update(at, entry);
    assert forall|i: int, j: int| 0 <= i < j < updated.len() implies #[trigger] updated[i].0@
        != #[trigger] updated[j].0@ by {
        assert(updated[i].0@ == entries[i].0@);
        assert(updated[j].0@ == entries[j].0@);
    }
    let init = entries.drop_last();
    assert(forall|k: int| 0 <= k < init.len() ==> init[k] == entries[k]);
    if at == entries.len() - 1 {
        assert(updated.drop_last() =~= init);
    } else {
        lemma_entry_replaced(init, at, entry);
        assert(updated.drop_last() =~= init.update(at, entry));
        assert(entries[at].0@ != entries[entries.len() - 1].0@);
    }
    assert(entries_model(updated) =~= entries_model(entries).insert(
        entry.0@,
        value_model(entry.1),
    ));
}

/// Puts an entry among others, in place of one of the same key if there is one.
fn put_entry(entries: &mut Vec<(String, Value)>, key: &str, value: Value)
    requires
        distinct_keys(old(entries)@),
    ensures
        distinct_keys(final(entries)@),
        entries_model(final(entries)@) == entries_model(old(entries)@).insert(
            key@,
            value_model(value),
        ),
{
    let ghost before = entries@;
    let mut at: usize = 0;
    while at < entries.len() && !text::same(entries[at].0.as_str(), key)
        invariant
            entries@ == before,
            at <= entries.len(),
            forall|k: int| 0 <= k < at ==> #[trigger] before[k].0@ != key@,
        decreases entries.len() - at,
    {
        at += 1;
    }
    let entry: (String, Value) = (key.to_owned(), value);
    if at < entries.len() {
        proof {
            lemma_entry_replaced(before, at as int, entry);
        }
        entries.set(at, entry);
    } else {
        entries.push(entry);
        assert(entries@.drop_last() =~= before);
    }
}

/// A run of entries describes a finite map.
proof fn lemma_entries_finite(entries: Seq<(String, Value)>)
    ensures
        entries_model(entries).dom().finite(),
    decreases entries.len(),
{
    if entries.len() > 0 {
        lemma_entries_finite(entries.drop_last());
    }
}

impl Json {
    /// The value that `serde_json` holds as `value`.
    pub fn from_value(value: Value) -> (r: Json)
        ensures
            r@ == value_model(value),
        decreases value_model(value),
    {
        let ghost whole = value_model(value);
        match open(value) {
            Shape::Null => Json::Null,
            Shape::Bool(b) => Json::Bool(b),
            Shape::Unsigned(n) => Json::Unsigned(n),
            Shape::Signed(n) => Json::Signed(n),
            Shape::Float(v) => Json::Float(Float { value: v }),
            Shape::Text(s) => Json::Text(s),
            Shape::List(items) => {
                let ghost all = items@;
                let ghost models = all.map_values(|v: Value| value_model(v));
                let mut out: Vec<Json> = Vec::new();
                for item in iter: items
                    invariant
                        iter.seq() == all,
                        whole == value_model(value),
                        models == all.map_values(|v: Value| value_model(v)),
                        whole == JsonModel::List(models),
                        super::list_model(out@) =~= models.take(iter.index()),
                {
                    proof {
                        assert(models[iter.index()] == value_model(item));
                        assert(decreases_to!(whole => whole->List_0));
                        assert(decreases_to!(models => models[iter.index()]));
                    }
                    let ghost before = out@;
                    out.push(Json::from_value(item));
                    proof {
                        super::lemma_list_push(before, out@.last());
                        assert(out@ =~= before.push(out@.last()));
                    }
                }
                assert(models.take(models.len() as int) =~= models);
                Json::List(out)
            },
            Shape::Object(entries) => {
                let ghost all = entries@;
                let ghost map = entries_model(all);
                let mut out: Vec<(String, Json)> = Vec::new();
                for entry in iter: entries
                    invariant
                        iter.seq() == all,
                        whole == value_model(value),
                        map == entries_model(all),
                        whole == JsonModel::Object(map),
                        distinct_keys(all),
                        super::object_model(out@) =~= entries_model(all.take(iter.index())),
                {
                    proof {
                        lemma_entries_found(all, iter.index());
                        lemma_entries_finite(all);
                        assert(decreases_to!(whole => whole->Object_0));
                        assert(decreases_to!(map => map[entry.0@]));
                        assert(all.take(iter.index() + 1).drop_last() =~= all.take(iter.index()));
                    }
                    let ghost before = out@;
                    out.push((entry.0, Json::from_value(entry.1)));
                    proof {
                        super::lemma_object_push(before, out@.last());
                        assert(out@ =~= before.push(out@.last()));
                    }
                }
                assert(all.take(all.len() as int) =~= all);
                Json::Object(out)
            },
        }
    }

    /// The tree that `serde_json` holds this value as.
    pub fn to_value(&self) -> (r: Value)
        ensures
            value_model(r) == self@,
        decreases *self,
    {
        match self {
            Json::Null => close(Shape::Null),
            Json::Bool(b) => close(Shape::Bool(*b)),
            Json::Unsigned(n) => close(Shape::Unsigned(*n)),
            Json::Signed(n) => close(Shape::Signed(*n)),
            Json::Float(f) => f.value.clone(),
            Json::Text(s) => close(Shape::Text(s.clone())),
            Json::List(items) => {
                let mut out: Vec<Value> = Vec::new();
                for i in 0..items.len()
                    invariant
                        decreases_to!(*self => *items),
                        out@.map_values(|v: Value| value_model(v)) =~= super::list_model(
                            items@.take(i as int),
                        ),
                {
                    proof {
                        assert(decreases_to!(*items => items@[i as int]));
                        assert(items@.take(i + 1) =~= items@.take(i as int).push(items@[i as int]));
                        super::lemma_list_push(items@.take(i as int), items@[i as int]);
                    }
                    out.push(items[i].to_value());
                }
                assert(items@.take(items@.len() as int) =~= items@);
                close(Shape::List(out))
            },
            Json::Object(entries) => {
                let mut out: Vec<(String, Value)> = Vec::new();
                for i in 0..entries.len()
                    invariant
                        decreases_to!(*self => *entries),
                        distinct_keys(out@),
                        entries_model(out@) =~= super::object_model(entries@.take(i as int)),
                {
                    proof {
                        assert(decreases_to!(*entries => entries@[i as int]));
                        assert(decreases_to!(entries@[i as int] => entries@[i as int].1));
                        assert(entries@.take(i + 1) =~= entries@.take(i as int).push(
                            entries@[i as int],
                        ));
                        super::lemma_object_push(entries@.take(i as int), entries@[i as int]);
                    }
                    put_entry(&mut out, entries[i].0.as_str(), entries[i].1.to_value());
                }
                assert(entries@.take(entries@.len() as int) =~= entries@);
                close(Shape::Object(out))
            },
        }
    }

    /// Reads a text; `None` where it is no JSON, as the empty text and `[DONE]`
    /// are none.
    pub fn parse(text: &str) -> (r: Option<Json>)
        ensures
            (match r {
                Some(json) => {
                    &&& parsed(text@) == Some(json@)
                    &&& text@.len() > 0
                    &&& text@ != "[DONE]"@
                },
                None => parsed(text@) is None,
            }),
    {
        match from_str(text) {
            Ok(value) => Some(Json::from_value(value)),
            Err(_) => None,
        }
    }

    /// Reads a run of bytes; `None` where they are no JSON.
    pub fn parse_bytes(bytes: &[u8]) -> (r: Option<Json>)
        ensures
            (match r {
                Some(json) => parsed_bytes(bytes@) == Some(json@),
                None => parsed_bytes(bytes@) is None,
            }),
    {
        match from_slice(bytes) {
            Ok(value) => Some(Json::from_value(value)),
            Err(_) => None,
        }
    }

    /// The compact text of this value: one line, from which the value can be
    /// read again where [`reads_back`] holds of it.
    pub fn to_text(&self) -> (r: String)
        ensures
            r@ == printed(self@),
            !r@.contains('\n'),
            self@ is Object ==> in_braces(r@),
            reads_back(self@) ==> parsed(r@) == Some(self@),
    {
        print(&self.to_value())
    }
}

/// What is plain is plain with more levels.
pub proof fn lemma_plain_with_more_levels(value: JsonModel, levels: nat, more: nat)
    requires
        is_plain(value, levels),
        levels <= more,
    ensures
        is_plain(value, more),
    decreases levels,
{
    match value {
        JsonModel::List(items) => {
            assert forall|i: int| 0 <= i < items.len() implies is_plain(
                #[trigger] items[i],
                (more - 1) as nat,
            ) by {
                lemma_plain_with_more_levels(items[i], (levels - 1) as nat, (more - 1) as nat);
            }
        },
        JsonModel::Object(members) => {
            assert forall|key: Seq<char>| members.contains_key(key) implies is_plain(
                #[trigger] members[key],
                (more - 1) as nat,
            ) by {
                lemma_plain_with_more_levels(members[key], (levels - 1) as nat, (more - 1) as nat);
            }
        },
        _ => {},
    }
}

/// An object with one plain member more is plain.
pub broadcast proof fn lemma_plain_with(
    object: JsonModel,
    key: Seq<char>,
    value: JsonModel,
    levels: nat,
)
    requires
        levels > 0,
        key != reserved_key(),
        is_plain(object, levels),
        is_plain(value, (levels - 1) as nat),
    ensures
        #[trigger] is_plain(object.with(key, value), levels),
{
    if let JsonModel::Object(members) = object {
        let more = members.insert(key, value);
        assert forall|k: Seq<char>| more.contains_key(k) implies is_plain(
            #[trigger] more[k],
            (levels - 1) as nat,
        ) by {
            if k != key {
                assert(more[k] == members[k]);
            }
        }
        assert(object.with(key, value) == JsonModel::Object(more));
    }
}

} // verus!
