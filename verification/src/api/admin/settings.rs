//! The status of the gateway, and its settings.

use crate::api;
use crate::api::{AppError, ErrorModel};
use crate::json;
use crate::json::{Json, JsonModel};
use crate::views;
use vstd::prelude::*;

verus! {

/// What is known of the gateway while it runs.
#[derive(Debug)]
pub struct StatusSnapshot {
    /// The state of the accounts taken together.
    pub accounts: Json,
    /// The state of each account.
    pub per_account: Json,
    /// How many chats are ready for use, and how many per account.
    pub chats: usize,
    pub chats_per_account: Json,
    pub chat_target: usize,
    pub chat_ttl_seconds: u64,
    /// How many accounts are known not to make videos.
    pub no_t2v: usize,
}

impl StatusSnapshot {
    /// The body of the status.
    pub open spec fn body_model(self) -> JsonModel {
        JsonModel::object().with("accounts"@, self.accounts@).with(
            "per_account"@,
            self.per_account@,
        ).with(
            "chat_id_pool"@,
            JsonModel::object().with("total_cached"@, JsonModel::Integer(self.chats as int)).with(
                "target_per_account"@,
                JsonModel::Integer(self.chat_target as int),
            ).with("ttl_seconds"@, JsonModel::Integer(self.chat_ttl_seconds as int)).with(
                "per_account"@,
                self.chats_per_account@,
            ),
        ).with("no_t2v_skipped"@, JsonModel::Integer(self.no_t2v as int)).with(
            "runtime"@,
            JsonModel::object().with(
                "asyncio_running_tasks"@,
                JsonModel::Integer(json::i64_or(self.accounts@.get("in_use"@), 0) as int),
            ),
        ).with(
            "request_runtime"@,
            JsonModel::object().with("mode"@, JsonModel::Text("direct_http"@)).with(
                "browser_required_for_requests"@,
                JsonModel::Bool(false),
            ).with(
                "description"@,
                JsonModel::Text("普通请求直连 HTTP，不经过浏览器"@),
            ),
        ).with(
            "browser_automation"@,
            JsonModel::object().with("mode"@, JsonModel::Text("disabled"@)).with(
                "description"@,
                JsonModel::Text("Rust 版不支持浏览器注册，仅手动注入 token"@),
            ),
        )
    }
}

/// The status of the gateway.
pub fn status(snapshot: StatusSnapshot) -> (r: Json)
    ensures
        r@ == snapshot.body_model(),
{
    let in_use: i64 = json::get_i64_or(snapshot.accounts.get("in_use"), 0);
    let chat_id_pool = Json::object().with(
        "total_cached",
        Json::Unsigned(snapshot.chats as u64),
    ).with("target_per_account", Json::Unsigned(snapshot.chat_target as u64)).with(
        "ttl_seconds",
        Json::Unsigned(snapshot.chat_ttl_seconds),
    ).with("per_account", snapshot.chats_per_account);
    Json::object().with("accounts", snapshot.accounts).with(
        "per_account",
        snapshot.per_account,
    ).with("chat_id_pool", chat_id_pool).with(
        "no_t2v_skipped",
        Json::Unsigned(snapshot.no_t2v as u64),
    ).with("runtime", Json::object().with("asyncio_running_tasks", Json::Signed(in_use))).with(
        "request_runtime",
        Json::object().with("mode", Json::text("direct_http")).with(
            "browser_required_for_requests",
            Json::Bool(false),
        ).with(
            "description",
            Json::text("普通请求直连 HTTP，不经过浏览器"),
        ),
    ).with(
        "browser_automation",
        Json::object().with("mode", Json::text("disabled")).with(
            "description",
            Json::text("Rust 版不支持浏览器注册，仅手动注入 token"),
        ),
    )
}

/// The settings in force.
#[derive(Debug)]
pub struct Settings {
    pub max_inflight: i64,
    pub global_max_inflight: i64,
    pub min_interval_ms: u64,
    pub proxy: Option<String>,
    pub chat_target: usize,
    pub chat_ttl_seconds: u64,
    /// The model that each alias stands for.
    pub model_aliases: Json,
}

impl Settings {
    /// The body of the settings.
    pub open spec fn body_model(self) -> JsonModel {
        JsonModel::object().with("version"@, JsonModel::Text("2.0.0"@)).with(
            "max_inflight_per_account"@,
            JsonModel::Integer(self.max_inflight as int),
        ).with("global_max_inflight"@, JsonModel::Integer(self.global_max_inflight as int)).with(
            "account_min_interval_ms"@,
            JsonModel::Integer(self.min_interval_ms as int),
        ).with(
            "upstream_proxy"@,
            match self.proxy {
                Some(proxy) => JsonModel::Text(proxy@),
                None => JsonModel::Null,
            },
        ).with("chat_id_pool_target"@, JsonModel::Integer(self.chat_target as int)).with(
            "chat_id_pool_ttl_seconds"@,
            JsonModel::Integer(self.chat_ttl_seconds as int),
        ).with("model_aliases"@, self.model_aliases@)
    }
}

/// The settings in force, as they are told.
pub fn get_settings(settings: Settings) -> (r: Json)
    ensures
        r@ == settings.body_model(),
{
    let proxy: Json = match settings.proxy {
        Some(proxy) => Json::Text(proxy),
        None => Json::Null,
    };
    Json::object().with("version", Json::text("2.0.0")).with(
        "max_inflight_per_account",
        Json::Signed(settings.max_inflight),
    ).with("global_max_inflight", Json::Signed(settings.global_max_inflight)).with(
        "account_min_interval_ms",
        Json::Unsigned(settings.min_interval_ms),
    ).with("upstream_proxy", proxy).with(
        "chat_id_pool_target",
        Json::Unsigned(settings.chat_target as u64),
    ).with("chat_id_pool_ttl_seconds", Json::Unsigned(settings.chat_ttl_seconds)).with(
        "model_aliases",
        settings.model_aliases,
    )
}

/// What a request changes. What is missing stays as it is.
#[derive(Debug)]
pub struct SettingsChange {
    pub max_inflight: Option<i64>,
    pub global_max_inflight: Option<i64>,
    pub min_interval_ms: Option<u64>,
    /// The proxy to set, or `None` within to clear it.
    pub proxy: Option<Option<String>>,
    /// The number and the life time of chats that are kept ready.
    pub chat_pool: Option<(Option<usize>, Option<u64>)>,
    /// The aliases that replace all others.
    pub model_aliases: Option<Vec<(String, String)>>,
}

/// What a [`SettingsChange`] says.
#[verifier::ext_equal]
pub struct ChangeModel {
    pub max_inflight: Option<i64>,
    pub global_max_inflight: Option<i64>,
    pub min_interval_ms: Option<u64>,
    pub proxy: Option<Option<Seq<char>>>,
    pub chat_pool: Option<(Option<usize>, Option<u64>)>,
    pub model_aliases: Option<Map<Seq<char>, Seq<char>>>,
}

/// The map that a run of aliases describes, a later alias replacing an earlier
/// one of the same name.
pub open spec fn alias_map(aliases: Seq<(String, String)>) -> Map<Seq<char>, Seq<char>>
    decreases aliases.len(),
{
    if aliases.len() == 0 {
        Map::empty()
    } else {
        alias_map(aliases.drop_last()).insert(aliases.last().0@, aliases.last().1@)
    }
}

impl View for SettingsChange {
    type V = ChangeModel;

    open spec fn view(&self) -> ChangeModel {
        ChangeModel {
            max_inflight: self.max_inflight,
            global_max_inflight: self.global_max_inflight,
            min_interval_ms: self.min_interval_ms,
            proxy: match self.proxy {
                Some(proxy) => Some(views::option_view(proxy)),
                None => None,
            },
            chat_pool: self.chat_pool,
            model_aliases: match self.model_aliases {
                Some(aliases) => Some(alias_map(aliases@)),
                None => None,
            },
        }
    }
}

/// The integer of a value that may be missing.
pub open spec fn i64_in(value: Option<JsonModel>) -> Option<i64> {
    match value {
        Some(v) => v.as_i64(),
        None => None,
    }
}

/// The integer of a value that may be missing.
pub open spec fn u64_in(value: Option<JsonModel>) -> Option<u64> {
    match value {
        Some(v) => v.as_u64(),
        None => None,
    }
}

/// The members of an object that are texts.
pub open spec fn text_members(members: Map<Seq<char>, JsonModel>) -> Map<Seq<char>, Seq<char>> {
    Map::new(
        |key: Seq<char>| members.contains_key(key) && members[key] is Text,
        |key: Seq<char>| members[key]->Text_0,
    )
}

/// What a request changes.
pub open spec fn change_of(data: JsonModel) -> ChangeModel {
    let target = u64_in(data.get("chat_id_pool_target"@));
    let ttl = u64_in(data.get("chat_id_pool_ttl_seconds"@));
    ChangeModel {
        max_inflight: i64_in(data.get("max_inflight_per_account"@)),
        global_max_inflight: i64_in(data.get("global_max_inflight"@)),
        min_interval_ms: u64_in(data.get("account_min_interval_ms"@)),
        proxy: match data.get("upstream_proxy"@) {
            Some(proxy) => Some(proxy.as_text()),
            None => None,
        },
        chat_pool: if target is Some || ttl is Some {
            Some(
                (
                    match target {
                        Some(n) => Some(n as usize),
                        None => None,
                    },
                    ttl,
                ),
            )
        } else {
            None
        },
        model_aliases: match data.get("model_aliases"@) {
            Some(JsonModel::Object(members)) => Some(text_members(members)),
            _ => None,
        },
    }
}

fn get_i64(value: Option<&Json>) -> (r: Option<i64>)
    ensures
        r == i64_in(views::option_view(value)),
{
    match value {
        Some(v) => v.as_i64(),
        None => None,
    }
}

fn get_u64(value: Option<&Json>) -> (r: Option<u64>)
    ensures
        r == u64_in(views::option_view(value)),
{
    match value {
        Some(v) => v.as_u64(),
        None => None,
    }
}

/// A key of an object is the key of one of its entries.
proof fn lemma_key_has_entry(entries: Seq<(String, Json)>, key: Seq<char>)
    ensures
        json::object_model(entries).contains_key(key) <==> exists|i: int|
            0 <= i < entries.len() && (#[trigger] entries[i]).0@ == key,
    decreases entries.len(),
{
    if entries.len() > 0 {
        let init = entries.drop_last();
        lemma_key_has_entry(init, key);
        assert(forall|i: int| 0 <= i < init.len() ==> init[i] == entries[i]);
        assert(entries[entries.len() - 1] == entries.last());
        if json::object_model(init).contains_key(key) {
            let i = choose|i: int| 0 <= i < init.len() && (#[trigger] init[i]).0@ == key;
            assert(entries[i].0@ == key);
        }
        if exists|i: int| 0 <= i < entries.len() && (#[trigger] entries[i]).0@ == key {
            let i = choose|i: int| 0 <= i < entries.len() && (#[trigger] entries[i]).0@ == key;
            if i < init.len() {
                assert(init[i].0@ == key);
            }
        }
    }
}

/// The members of an object that are texts.
fn get_text_members(object: &Json) -> (r: Option<Vec<(String, String)>>)
    ensures
        (match r {
            Some(aliases) => object@ is Object && alias_map(aliases@) == text_members(
                object@->Object_0,
            ),
            None => !(object@ is Object),
        }),
{
    let entries: &Vec<(String, Json)> = match object.as_object() {
        Some(entries) => entries,
        None => return None,
    };
    let ghost members = object@->Object_0;
    let ghost goal = text_members(members);
    let mut out: Vec<(String, String)> = Vec::new();
    for i in 0..entries.len()
        invariant
            object@ == JsonModel::Object(members),
            members == json::object_model(entries@),
            goal == text_members(members),
            forall|key: Seq<char>| #[trigger]
                alias_map(out@).contains_key(key) ==> goal.contains_key(key) && alias_map(out@)[key]
                    == goal[key],
            forall|k: int|
                0 <= k < i && goal.contains_key((#[trigger] entries@[k]).0@) ==> alias_map(
                    out@,
                ).contains_key(entries@[k].0@),
    {
        let ghost before = out@;
        let key = entries[i].0.as_str();
        proof {
            assert(entries@[i as int].0@ == key@);
            lemma_key_has_entry(entries@, key@);
        }
        if let Some(s) = json::get_text(object.get(key)) {
            out.push((key.to_owned(), s.to_owned()));
            proof {
                assert(out@.drop_last() =~= before);
                assert(alias_map(out@) =~= alias_map(before).insert(key@, s@));
                assert(members[key@] == JsonModel::Text(s@));
                assert forall|k: Seq<char>| #[trigger]
                    alias_map(out@).contains_key(k) implies goal.contains_key(k) && alias_map(
                    out@,
                )[k] == goal[k] by {
                    if k != key@ {
                        assert(alias_map(before).contains_key(k));
                    }
                }
            }
        }
    }
    proof {
        assert forall|key: Seq<char>| goal.contains_key(key) implies #[trigger] alias_map(
            out@,
        ).contains_key(key) by {
            lemma_key_has_entry(entries@, key);
            let k = choose|k: int| 0 <= k < entries@.len() && (#[trigger] entries@[k]).0@ == key;
            assert(goal.contains_key(entries@[k].0@));
        }
        assert(alias_map(out@) =~= goal);
    }
    Some(out)
}

/// What a request changes, given as JSON.
pub fn settings_change(data: &Json) -> (r: SettingsChange)
    ensures
        r@ == change_of(data@),
{
    let target: Option<u64> = get_u64(data.get("chat_id_pool_target"));
    let ttl: Option<u64> = get_u64(data.get("chat_id_pool_ttl_seconds"));
    let proxy: Option<Option<String>> = match data.get("upstream_proxy") {
        Some(proxy) => match proxy.as_str() {
            Some(s) => Some(Some(s.to_owned())),
            None => Some(None),
        },
        None => None,
    };
    let model_aliases = match data.get("model_aliases") {
        Some(aliases) => get_text_members(aliases),
        None => None,
    };
    SettingsChange {
        max_inflight: get_i64(data.get("max_inflight_per_account")),
        global_max_inflight: get_i64(data.get("global_max_inflight")),
        min_interval_ms: get_u64(data.get("account_min_interval_ms")),
        proxy,
        chat_pool: if target.is_some() || ttl.is_some() {
            Some(
                (
                    match target {
                        Some(n) => Some(n as usize),
                        None => None,
                    },
                    ttl,
                ),
            )
        } else {
            None
        },
        model_aliases,
    }
}

/// What the body of a request changes; a body that is no JSON is refused.
pub fn update_settings(body: &[u8]) -> (r: Result<SettingsChange, AppError>)
    ensures
        (match (r, json::codec::parsed_bytes(body@)) {
            (Ok(change), Some(data)) => change@ == change_of(data),
            (Err(error), None) => error@ == ErrorModel::BadRequest("Invalid JSON"@),
            _ => false,
        }),
{
    match Json::parse_bytes(body) {
        Some(data) => Ok(settings_change(&data)),
        None => Err(AppError::BadRequest("Invalid JSON".to_owned())),
    }
}

/// What is answered once the settings are changed.
pub fn settings_updated() -> (r: Json)
    ensures
        r@ == api::ok_model(),
{
    api::ok_body()
}

/// A request without a known setting changes nothing.
pub proof fn law_unknown_settings_change_nothing(data: JsonModel)
    requires
        data.get("max_inflight_per_account"@) is None,
        data.get("global_max_inflight"@) is None,
        data.get("account_min_interval_ms"@) is None,
        data.get("upstream_proxy"@) is None,
        data.get("chat_id_pool_target"@) is None,
        data.get("chat_id_pool_ttl_seconds"@) is None,
        data.get("model_aliases"@) is None,
    ensures
        change_of(data) == (ChangeModel {
            max_inflight: None,
            global_max_inflight: None,
            min_interval_ms: None,
            proxy: None,
            chat_pool: None,
            model_aliases: None,
        }),
{
}

/// The proxy is cleared exactly where a request has one that is no text.
pub proof fn law_proxy_that_is_no_text_clears_it(data: JsonModel)
    ensures
        change_of(data).proxy == Some(None::<Seq<char>>) <==> data.get("upstream_proxy"@) is Some
            && !(data.get("upstream_proxy"@)->0 is Text),
{
}

/// Gives the prover the characters that tell the keys apart.
proof fn lemma_keys()
    ensures
        "mode"@.len() == 4,
        "in_use"@.len() == 6,
        "runtime"@.len() == 7 && "runtime"@[0] == 'r',
        "version"@.len() == 7 && "version"@[0] == 'v',
        "accounts"@.len() == 8,
        "per_account"@.len() == 11 && "per_account"@[0] == 'p',
        "ttl_seconds"@.len() == 11 && "ttl_seconds"@[0] == 't',
        "description"@.len() == 11 && "description"@[0] == 'd',
        "chat_id_pool"@.len() == 12 && "chat_id_pool"@[0] == 'c',
        "total_cached"@.len() == 12 && "total_cached"@[0] == 't',
        "model_aliases"@.len() == 13,
        "no_t2v_skipped"@.len() == 14 && "no_t2v_skipped"@[0] == 'n',
        "upstream_proxy"@.len() == 14 && "upstream_proxy"@[0] == 'u',
        "request_runtime"@.len() == 15,
        "browser_automation"@.len() == 18 && "browser_automation"@[0] == 'b',
        "target_per_account"@.len() == 18 && "target_per_account"@[0] == 't',
        "global_max_inflight"@.len() == 19 && "global_max_inflight"@[0] == 'g',
        "chat_id_pool_target"@.len() == 19 && "chat_id_pool_target"@[0] == 'c',
        "asyncio_running_tasks"@.len() == 21,
        "account_min_interval_ms"@.len() == 23,
        "max_inflight_per_account"@.len() == 24 && "max_inflight_per_account"@[0] == 'm',
        "chat_id_pool_ttl_seconds"@.len() == 24 && "chat_id_pool_ttl_seconds"@[0] == 'c',
        "browser_required_for_requests"@.len() == 29,
{
    reveal_strlit("accounts");
    reveal_strlit("per_account");
    reveal_strlit("chat_id_pool");
    reveal_strlit("no_t2v_skipped");
    reveal_strlit("runtime");
    reveal_strlit("request_runtime");
    reveal_strlit("browser_automation");
    reveal_strlit("total_cached");
    reveal_strlit("target_per_account");
    reveal_strlit("ttl_seconds");
    reveal_strlit("asyncio_running_tasks");
    reveal_strlit("mode");
    reveal_strlit("browser_required_for_requests");
    reveal_strlit("description");
    reveal_strlit("in_use");
    reveal_strlit("version");
    reveal_strlit("max_inflight_per_account");
    reveal_strlit("global_max_inflight");
    reveal_strlit("account_min_interval_ms");
    reveal_strlit("upstream_proxy");
    reveal_strlit("chat_id_pool_target");
    reveal_strlit("chat_id_pool_ttl_seconds");
    reveal_strlit("model_aliases");
}

/// The status has what is known of the gateway, each part under its own key; the
/// running tasks are the accounts in use, zero where that is not told.
pub proof fn law_status_has_each_part(snapshot: StatusSnapshot)
    ensures
        ({
            let body = snapshot.body_model();
            let pool = body.get("chat_id_pool"@);
            &&& body.get("accounts"@) == Some(snapshot.accounts@)
            &&& body.get("per_account"@) == Some(snapshot.per_account@)
            &&& json::member(pool, "total_cached"@) == Some(
                JsonModel::Integer(snapshot.chats as int),
            )
            &&& json::member(pool, "target_per_account"@) == Some(
                JsonModel::Integer(snapshot.chat_target as int),
            )
            &&& json::member(pool, "ttl_seconds"@) == Some(
                JsonModel::Integer(snapshot.chat_ttl_seconds as int),
            )
            &&& json::member(pool, "per_account"@) == Some(snapshot.chats_per_account@)
            &&& body.get("no_t2v_skipped"@) == Some(JsonModel::Integer(snapshot.no_t2v as int))
            &&& json::member(body.get("runtime"@), "asyncio_running_tasks"@) == Some(
                JsonModel::Integer(
                    match snapshot.accounts@.get("in_use"@) {
                        Some(JsonModel::Integer(n)) => if i64::MIN <= n <= i64::MAX {
                            n
                        } else {
                            0
                        },
                        _ => 0,
                    },
                ),
            )
            &&& json::member(body.get("request_runtime"@), "mode"@) == Some(
                JsonModel::Text("direct_http"@),
            )
            &&& json::member(body.get("request_runtime"@), "browser_required_for_requests"@)
                == Some(JsonModel::Bool(false))
            &&& json::member(body.get("request_runtime"@), "description"@) == Some(
                JsonModel::Text("普通请求直连 HTTP，不经过浏览器"@),
            )
            &&& json::member(body.get("browser_automation"@), "mode"@) == Some(
                JsonModel::Text("disabled"@),
            )
            &&& json::member(body.get("browser_automation"@), "description"@) == Some(
                JsonModel::Text("Rust 版不支持浏览器注册，仅手动注入 token"@),
            )
        }),
{
    lemma_keys();
}

/// The settings are told each under its own key, a proxy that is not set as
/// null.
pub proof fn law_settings_are_told_as_they_are(settings: Settings)
    ensures
        ({
            let body = settings.body_model();
            &&& body.get("version"@) == Some(JsonModel::Text("2.0.0"@))
            &&& body.get("max_inflight_per_account"@) == Some(
                JsonModel::Integer(settings.max_inflight as int),
            )
            &&& body.get("global_max_inflight"@) == Some(
                JsonModel::Integer(settings.global_max_inflight as int),
            )
            &&& body.get("account_min_interval_ms"@) == Some(
                JsonModel::Integer(settings.min_interval_ms as int),
            )
            &&& body.get("upstream_proxy"@) == Some(
                match settings.proxy {
                    Some(proxy) => JsonModel::Text(proxy@),
                    None => JsonModel::Null,
                },
            )
            &&& body.get("chat_id_pool_target"@) == Some(
                JsonModel::Integer(settings.chat_target as int),
            )
            &&& body.get("chat_id_pool_ttl_seconds"@) == Some(
                JsonModel::Integer(settings.chat_ttl_seconds as int),
            )
            &&& body.get("model_aliases"@) == Some(settings.model_aliases@)
        }),
{
    lemma_keys();
}

/// Each setting is changed to the value under its key, where that is a value of
/// its kind, and stays where there is none.
pub proof fn law_each_setting_is_changed_to_its_value(data: JsonModel)
    ensures
        (match (change_of(data).max_inflight, data.get("max_inflight_per_account"@)) {
            (Some(n), Some(JsonModel::Integer(given))) => n == given,
            (Some(_), _) => false,
            (None, Some(JsonModel::Integer(given))) => !(i64::MIN <= given <= i64::MAX),
            (None, _) => true,
        }),
        (match (change_of(data).global_max_inflight, data.get("global_max_inflight"@)) {
            (Some(n), Some(JsonModel::Integer(given))) => n == given,
            (Some(_), _) => false,
            (None, Some(JsonModel::Integer(given))) => !(i64::MIN <= given <= i64::MAX),
            (None, _) => true,
        }),
        (match (change_of(data).min_interval_ms, data.get("account_min_interval_ms"@)) {
            (Some(n), Some(JsonModel::Integer(given))) => n == given,
            (Some(_), _) => false,
            (None, Some(JsonModel::Integer(given))) => !(0 <= given <= u64::MAX),
            (None, _) => true,
        }),
{
}

/// The number and the life time of chats are changed together where either is
/// given, each to its own value; a number beyond `usize` is not spoken of.
pub proof fn law_chat_settings_are_changed_together(data: JsonModel)
    ensures
        ({
            let target = match data.get("chat_id_pool_target"@) {
                Some(JsonModel::Integer(n)) => if 0 <= n <= u64::MAX {
                    Some(n)
                } else {
                    None
                },
                _ => None,
            };
            let ttl = match data.get("chat_id_pool_ttl_seconds"@) {
                Some(JsonModel::Integer(n)) => if 0 <= n <= u64::MAX {
                    Some(n)
                } else {
                    None
                },
                _ => None,
            };
            let pool = change_of(data).chat_pool;
            &&& pool is Some <==> target is Some || ttl is Some
            &&& match pool {
                Some((number, seconds)) => {
                    &&& number is Some <==> target is Some
                    &&& target is Some && target->0 <= usize::MAX ==> number->0 == target->0
                    &&& seconds is Some <==> ttl is Some
                    &&& ttl is Some ==> seconds->0 == ttl->0
                },
                None => true,
            }
        }),
{
}

/// A proxy is set to the text that is given and cleared by anything else that
/// is. The aliases become the members of the given object that are texts; where
/// no object is given they stay.
pub proof fn law_proxy_and_aliases_are_replaced(data: JsonModel, alias: Seq<char>)
    ensures
        change_of(data).proxy == (match data.get("upstream_proxy"@) {
            Some(JsonModel::Text(s)) => Some(Some(s)),
            Some(_) => Some(None),
            None => None,
        }),
        (match data.get("model_aliases"@) {
            Some(JsonModel::Object(members)) => {
                let aliases = change_of(data).model_aliases;
                &&& aliases is Some
                &&& aliases->0.contains_key(alias) <==> members.contains_key(alias)
                    && members[alias] is Text
                &&& aliases->0.contains_key(alias) ==> members[alias] == JsonModel::Text(
                    aliases->0[alias],
                )
            },
            _ => change_of(data).model_aliases is None,
        }),
{
}

/// Of two aliases of one name the later counts, and other names keep theirs.
pub proof fn law_later_alias_counts(
    aliases: Seq<(String, String)>,
    alias: (String, String),
    name: Seq<char>,
)
    ensures
        alias_map(aliases.push(alias)).contains_key(alias.0@),
        alias_map(aliases.push(alias))[alias.0@] == alias.1@,
        name != alias.0@ ==> alias_map(aliases.push(alias)).contains_key(name) == alias_map(
            aliases,
        ).contains_key(name),
        name != alias.0@ && alias_map(aliases).contains_key(name) ==> alias_map(
            aliases.push(alias),
        )[name] == alias_map(aliases)[name],
        !alias_map(seq![]).contains_key(name),
{
    assert(aliases.push(alias).drop_last() =~= aliases);
}

} // verus!
