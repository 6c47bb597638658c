//! API keys and users.

use crate::api;
use crate::json;
use crate::json::{Json, JsonModel};
use crate::views;
use vstd::prelude::*;

verus! {

/// The body with the list of keys.
pub open spec fn keys_body(keys: Seq<Seq<char>>) -> JsonModel {
    JsonModel::object().with("keys"@, json::texts_model(keys))
}

/// The body with a new key.
pub open spec fn key_body(key: Seq<char>) -> JsonModel {
    api::ok_model().with("key"@, JsonModel::Text(key))
}

/// The list of keys.
pub fn get_keys(keys: &Vec<String>) -> (r: Json)
    ensures
        r@ == keys_body(views::seq_view(keys@)),
        r@ == JsonModel::object().with("keys"@, json::texts_model(views::seq_view(keys@))),
{
    Json::object().with("keys", json::text_list(keys))
}

/// A secret made of random characters.
pub open spec fn secret(suffix: Seq<char>) -> Seq<char> {
    "sk-"@ + suffix
}

fn make_secret(suffix: &str) -> (r: String)
    ensures
        r@ == secret(suffix@),
{
    let mut key = "sk-".to_owned();
    key.append(suffix);
    key
}

/// A new key, made of random characters, and what is answered with it.
pub fn create_key(suffix: &str) -> (r: (String, Json))
    ensures
        r.0@ == secret(suffix@),
        r.1@ == key_body(r.0@),
        r.1@ == api::ok_model().with("key"@, JsonModel::Text(secret(suffix@))),
{
    let key = make_secret(suffix);
    let body = api::ok_body().with("key", Json::text(key.as_str()));
    (key, body)
}

/// What is answered once a key is removed.
pub fn delete_key() -> (r: Json)
    ensures
        r@ == api::ok_model(),
{
    api::ok_body()
}

/// A user with a quota of tokens.
#[derive(Debug, PartialEq, Eq)]
pub struct User {
    pub id: String,
    pub name: String,
    pub quota: i64,
    pub used_tokens: i64,
}

/// What a [`User`] says.
#[verifier::ext_equal]
pub struct UserModel {
    pub id: Seq<char>,
    pub name: Seq<char>,
    pub quota: i64,
    pub used_tokens: i64,
}

impl View for User {
    type V = UserModel;

    open spec fn view(&self) -> UserModel {
        UserModel {
            id: self.id@,
            name: self.name@,
            quota: self.quota,
            used_tokens: self.used_tokens,
        }
    }
}

impl UserModel {
    /// The JSON of a user.
    pub open spec fn body(self) -> JsonModel {
        JsonModel::object().with("id"@, JsonModel::Text(self.id)).with(
            "name"@,
            JsonModel::Text(self.name),
        ).with("quota"@, JsonModel::Integer(self.quota as int)).with(
            "used_tokens"@,
            JsonModel::Integer(self.used_tokens as int),
        )
    }
}

impl User {
    /// The JSON of this user.
    pub fn to_json(&self) -> (r: Json)
        ensures
            r@ == self@.body(),
    {
        Json::object().with("id", Json::text(self.id.as_str())).with(
            "name",
            Json::text(self.name.as_str()),
        ).with("quota", Json::Signed(self.quota)).with(
            "used_tokens",
            Json::Signed(self.used_tokens),
        )
    }
}

/// The list of users.
pub fn list_users(users: Json) -> (r: Json)
    ensures
        r@ == JsonModel::object().with("users"@, users@),
{
    Json::object().with("users", users)
}

/// The user that a request describes. A request that is no JSON describes one
/// with a name and a quota that are the same for all such requests.
pub open spec fn user_of(data: Option<JsonModel>, suffix: Seq<char>) -> UserModel {
    UserModel {
        id: secret(suffix),
        name: json::text_or(json::member(data, "name"@), "user"@),
        quota: json::i64_or(json::member(data, "quota"@), 1_000_000),
        used_tokens: 0,
    }
}

/// The user that a request describes, given as JSON.
pub fn new_user(data: Option<&Json>, suffix: &str) -> (r: User)
    ensures
        r@ == user_of(views::option_view(data), suffix@),
{
    User {
        id: make_secret(suffix),
        name: json::get_text_or(json::get_member(data, "name"), "user").to_owned(),
        quota: json::get_i64_or(json::get_member(data, "quota"), 1_000_000),
        used_tokens: 0,
    }
}

/// The user that the body of a request describes, with an id made of random
/// characters.
pub fn create_user(body: &[u8], suffix: &str) -> (r: User)
    ensures
        r@ == user_of(json::codec::parsed_bytes(body@), suffix@),
{
    match Json::parse_bytes(body) {
        Some(data) => new_user(Some(&data), suffix),
        None => new_user(None, suffix),
    }
}

/// Different random characters make different secrets.
pub proof fn law_secrets_differ(a: Seq<char>, b: Seq<char>)
    requires
        a != b,
    ensures
        secret(a) != secret(b),
{
    if secret(a) == secret(b) {
        let n = "sk-"@.len() as int;
        assert(secret(a).skip(n) =~= a);
        assert(secret(b).skip(n) =~= b);
    }
}

/// Gives the prover the characters that tell the keys apart.
proof fn lemma_keys()
    ensures
        "id"@.len() == 2 && "id"@[0] == 'i',
        "ok"@.len() == 2 && "ok"@[0] == 'o',
        "key"@.len() == 3,
        "name"@.len() == 4 && "name"@[0] == 'n',
        "keys"@.len() == 4 && "keys"@[0] == 'k',
        "quota"@.len() == 5,
        "used_tokens"@.len() == 11,
{
    reveal_strlit("id");
    reveal_strlit("name");
    reveal_strlit("quota");
    reveal_strlit("used_tokens");
    reveal_strlit("keys");
    reveal_strlit("key");
    reveal_strlit("ok");
}

/// A secret is `sk-` and the characters that it is made of.
pub proof fn law_secret_has_its_characters(suffix: Seq<char>)
    ensures
        secret(suffix).len() == suffix.len() + 3,
        secret(suffix)[0] == 's',
        secret(suffix)[1] == 'k',
        secret(suffix)[2] == '-',
        secret(suffix).skip(3) == suffix,
{
    reveal_strlit("sk-");
    assert("sk-"@.len() == 3 && "sk-"@[0] == 's' && "sk-"@[1] == 'k' && "sk-"@[2] == '-');
    assert(secret(suffix).skip(3) =~= suffix);
}

/// A user has the name and the quota that the request gives, `user` and a
/// million where it gives none, a secret as id, and nothing used yet.
pub proof fn law_user_is_as_described(data: JsonModel, suffix: Seq<char>)
    ensures
        user_of(Some(data), suffix).id == secret(suffix),
        user_of(Some(data), suffix).used_tokens == 0,
        (match data.get("name"@) {
            Some(JsonModel::Text(s)) => user_of(Some(data), suffix).name == s,
            _ => user_of(Some(data), suffix).name == "user"@,
        }),
        (match data.get("quota"@) {
            Some(JsonModel::Integer(n)) => user_of(Some(data), suffix).quota == if i64::MIN <= n
                <= i64::MAX {
                n
            } else {
                1_000_000
            },
            _ => user_of(Some(data), suffix).quota == 1_000_000,
        }),
        user_of(None, suffix).id == secret(suffix),
        user_of(None, suffix).name == "user"@,
        user_of(None, suffix).quota == 1_000_000,
        user_of(None, suffix).used_tokens == 0,
{
}

/// A user is told with each part under its own key.
pub proof fn law_user_is_told_with_each_part(user: UserModel)
    ensures
        user.body().get("id"@) == Some(JsonModel::Text(user.id)),
        user.body().get("name"@) == Some(JsonModel::Text(user.name)),
        user.body().get("quota"@) == Some(JsonModel::Integer(user.quota as int)),
        user.body().get("used_tokens"@) == Some(JsonModel::Integer(user.used_tokens as int)),
{
    lemma_keys();
}

/// All keys are listed, in order, and a new key is told as it is.
pub proof fn law_keys_are_told_as_they_are(keys: Seq<Seq<char>>, key: Seq<char>)
    ensures
        keys_body(keys).get("keys"@) matches Some(JsonModel::List(items)) && items.len()
            == keys.len() && forall|i: int|
            0 <= i < keys.len() ==> #[trigger] items[i] == JsonModel::Text(keys[i]),
        key_body(key).get("key"@) == Some(JsonModel::Text(key)),
        key_body(key).get("ok"@) == Some(JsonModel::Bool(true)),
{
    lemma_keys();
}

} // verus!
