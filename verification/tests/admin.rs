use qwen_gateway::api::admin::accounts::{AccountEntry, AccountQuery};
use qwen_gateway::api::admin::batch::{Login, CAP};
use qwen_gateway::api::admin::expiry::TokenEntry;
use qwen_gateway::api::admin::joining::{join, signed_in, verified, JoinStep, NewAccount};
use qwen_gateway::api::admin::keys::new_user;
use qwen_gateway::api::admin::media::{media_request, media_submitted};
use qwen_gateway::api::admin::settings::{settings_updated, Settings, StatusSnapshot};
use qwen_gateway::api::admin::signing::{resign_signed_in, resigned, ResignStep};
use qwen_gateway::api::admin::stats::{recent_limit, stats_window, QueryResult};
use qwen_gateway::api::admin::{
    accounts_exp_summary, activate_account, add_account, create_key, create_user, delete_account,
    delete_key, get_keys, get_settings, list_accounts, list_users, media_submit, media_tasks,
    register_account, resign_account, resign_all, stats, stats_recent, status, update_settings,
    verify_account, verify_all,
};
use qwen_gateway::api::{AppError, Reply};
use qwen_gateway::json::Json;

fn json(text: &str) -> Json {
    Json::parse(text).unwrap()
}

fn body(reply: Reply) -> String {
    match reply {
        Reply::Body(body) => body.to_text(),
        other => panic!("no body: {other:?}"),
    }
}

fn refusal(reply: Reply) -> AppError {
    match reply {
        Reply::Refused(error) => error,
        other => panic!("not refused: {other:?}"),
    }
}

fn entry(email: &str, username: &str, status_code: &str) -> AccountEntry {
    AccountEntry {
        email: email.into(),
        username: username.into(),
        status_code: status_code.into(),
        shown: Json::text(email),
    }
}

fn entries() -> Vec<AccountEntry> {
    vec![
        entry("Ann@x.org", "", "valid"),
        entry("bob@x.org", "Annabel", "banned"),
        entry("cy@y.org", "", "valid"),
        entry("dee@y.org", "", "auth_error"),
        entry("eve@x.org", "", "valid"),
    ]
}

fn query(q: &str, status: &str, page: &str, page_size: &str) -> AccountQuery {
    AccountQuery {
        q: Some(q.into()),
        status: Some(status.into()),
        page: Some(page.into()),
        page_size: Some(page_size.into()),
    }
}

#[test]
fn accounts_are_listed() {
    assert_eq!(
        list_accounts(&entries(), &AccountQuery::default()).to_text(),
        r#"{"accounts":["Ann@x.org","bob@x.org","cy@y.org","dee@y.org","eve@x.org"],"counts":{"auth_error":1,"banned":1,"valid":3},"page":1,"page_size":50,"total":5}"#
    );
}

#[test]
fn accounts_are_searched_in_any_case() {
    assert_eq!(
        list_accounts(&entries(), &query("  aNN ", "", "1", "10")).to_text(),
        r#"{"accounts":["Ann@x.org","bob@x.org"],"counts":{"auth_error":1,"banned":1,"valid":3},"page":1,"page_size":10,"total":2}"#
    );
    assert_eq!(
        list_accounts(&entries(), &query("x.org", " valid ", "1", "10")).to_text(),
        r#"{"accounts":["Ann@x.org","eve@x.org"],"counts":{"auth_error":1,"banned":1,"valid":3},"page":1,"page_size":10,"total":2}"#
    );
    assert_eq!(
        list_accounts(&entries(), &query("nobody", "", "1", "10")).to_text(),
        r#"{"accounts":[],"counts":{"auth_error":1,"banned":1,"valid":3},"page":1,"page_size":10,"total":0}"#
    );
    // A lowercase form may be longer than one character.
    let turkish = vec![entry("i\u{307}@x", "", "s")];
    assert!(list_accounts(&turkish, &query("İ", "", "", "")).to_text().contains("\"total\":1"));
}

/// Page by page, every account that was found is shown once.
#[test]
fn pages_show_everything_once() {
    let mut seen = Vec::new();
    for page in 1..=4 {
        let listing = list_accounts(&entries(), &query("", "", &page.to_string(), "2")).to_value();
        assert_eq!(listing["total"], 5);
        for account in listing["accounts"].as_array().unwrap() {
            seen.push(account.as_str().unwrap().to_string());
        }
    }
    assert_eq!(seen, vec!["Ann@x.org", "bob@x.org", "cy@y.org", "dee@y.org", "eve@x.org"]);
}

#[test]
fn page_numbers_are_kept_in_bounds() {
    let of = |page: &str, size: &str| {
        let q = query("", "", page, size);
        (q.get_page(), q.get_size())
    };
    assert_eq!(of("0", "0"), (1, 1));
    assert_eq!(of("3", "1000"), (3, 200));
    assert_eq!(of("-1", "x"), (1, 50));
    assert_eq!(of("+2", "200"), (2, 200));
    assert_eq!(of("99999999999999999999999", "201"), (1, 200));
    assert!(list_accounts(&entries(), &query("", "", "4000000", "200")).to_text().starts_with(r#"{"accounts":[]"#));
}

#[test]
fn an_account_needs_a_token_or_a_password() {
    let refused = |text: &str| match add_account(text.as_bytes()) {
        JoinStep::Reply(reply) => refusal(reply),
        other => panic!("not refused: {other:?}"),
    };
    assert_eq!(refused("nonsense"), AppError::BadRequest("Invalid JSON body".into()));
    let message =
        AppError::BadRequest("请填写 token，或同时填写 email + password 让系统自动登入".into());
    assert_eq!(refused("{}"), message);
    assert_eq!(refused(r#"{"token":"  "}"#), message);
    assert_eq!(refused(r#"{"email":"a@b"}"#), message);
    assert_eq!(refused(r#"{"email":" ","password":"p"}"#), message);
    assert_eq!(refused(r#"{"email":7,"password":"p"}"#), message);
    assert_eq!(refused("[]"), message);
}

#[test]
fn an_account_joins_with_a_token() {
    let step = add_account(
        r#"{"token":" t ","email":" a@b ","password":" p ","username":"u","cookies":"c"}"#.as_bytes(),
    );
    let account = match step {
        JoinStep::Verify(account) => account,
        other => panic!("{other:?}"),
    };
    assert_eq!(
        account,
        NewAccount {
            email: "a@b".into(),
            password: " p ".into(),
            token: "t".into(),
            cookies: "c".into(),
            username: "u".into(),
        }
    );
    let account = account.addressed(5);
    assert_eq!(account.email, "a@b");
    let (added, answer) = verified(account, true);
    assert_eq!(added.unwrap().token, "t");
    assert_eq!(answer.to_text(), r#"{"email":"a@b","ok":true}"#);
}

#[test]
fn an_account_joins_with_a_password() {
    let data = json(r#"{"email":"a@b","password":"p"}"#);
    let account = match join(Some(&data)) {
        JoinStep::SignIn(account) => account,
        other => panic!("{other:?}"),
    };
    assert_eq!((account.email.as_str(), account.password.as_str()), ("a@b", "p"));
    match signed_in(account, Ok(" new ".into())) {
        JoinStep::Verify(account) => assert_eq!(account.token, " new "),
        other => panic!("{other:?}"),
    }
    let account = match join(Some(&data)) {
        JoinStep::SignIn(account) => account,
        other => panic!("{other:?}"),
    };
    match signed_in(account, Err("wrong password".into())) {
        JoinStep::Reply(reply) => assert_eq!(
            body(reply),
            r#"{"error":"自动登入失败：wrong password","ok":false}"#
        ),
        other => panic!("{other:?}"),
    }
}

#[test]
fn an_account_without_an_email_gets_one() {
    let account = match add_account(br#"{"token":"t"}"#) {
        JoinStep::Verify(account) => account,
        other => panic!("{other:?}"),
    };
    let account = account.addressed(1_700_000_000_123);
    assert_eq!(account.email, "manual_1700000000123@qwen");
    let (added, answer) = verified(account, false);
    assert!(added.is_none());
    assert_eq!(
        answer.to_text(),
        r#"{"error":"Invalid token (验证失败，请确认Token有效)","ok":false}"#
    );
}

#[test]
fn a_token_is_verified() {
    let (verdict, reply) = verify_account("a@b", Some(true));
    let verdict = verdict.unwrap();
    assert_eq!(
        (verdict.valid, verdict.status_code.as_str(), verdict.error.as_str()),
        (true, "valid", "")
    );
    assert_eq!(
        body(reply),
        r#"{"email":"a@b","error":"","status_code":"valid","status_text":"正常","valid":true}"#
    );
    let (verdict, reply) = verify_account("a@b", Some(false));
    assert_eq!(verdict.unwrap().status_code, "auth_error");
    assert_eq!(
        body(reply),
        r#"{"email":"a@b","error":"Token 失效（Rust 版不支持自动刷新，请重新手动注入）","status_code":"auth_error","status_text":"鉴权失效","valid":false}"#
    );
    let (verdict, reply) = verify_account("a@b", None);
    assert!(verdict.is_none());
    assert_eq!(refusal(reply), AppError::NotFound("Account not found".into()));
}

#[test]
fn an_account_is_signed_in_again() {
    match resign_account("a@b", None) {
        ResignStep::Reply(reply) => {
            assert_eq!(refusal(reply), AppError::NotFound("Account not found".into()))
        }
        other => panic!("{other:?}"),
    }
    match resign_account("a@b", Some("")) {
        ResignStep::Note(verdict, body) => {
            assert!(!verdict.valid);
            assert_eq!(verdict.error, "帳號無 password 欄位，無法重登");
            assert_eq!(
                body.to_text(),
                r#"{"email":"a@b","error":"帳號無 password 欄位，無法重登","ok":false}"#
            );
        }
        other => panic!("{other:?}"),
    }
    assert!(matches!(resign_account("a@b", Some("p")), ResignStep::SignIn));
    match resign_signed_in("a@b", Ok("tök".into())) {
        ResignStep::Keep(token) => assert_eq!(token, "tök"),
        other => panic!("{other:?}"),
    }
    match resign_signed_in("a@b", Err("incorrect".into())) {
        ResignStep::Note(verdict, body) => {
            assert_eq!(verdict.status_code, "auth_error");
            assert_eq!(body.to_text(), r#"{"email":"a@b","error":"incorrect","ok":false}"#);
        }
        other => panic!("{other:?}"),
    }
    assert_eq!(
        resigned("a@b", "tök", true).to_text(),
        r#"{"email":"a@b","ok":true,"token_len":4,"updated":true}"#
    );
}

fn login(email: &str, password: &str) -> Login {
    Login { email: email.into(), password: password.into() }
}

#[test]
fn a_round_signs_accounts_in() {
    let mut batch = resign_all(vec![
        login("a", ""),
        login("b", "p"),
        login("c", ""),
        login("d", "p"),
        login("e", ""),
    ]);
    assert_eq!(batch.next(), Some(1));
    assert_eq!(batch.next(), Some(1));
    assert!(batch.record(Ok(())).is_none());
    assert_eq!(batch.next(), Some(3));
    let verdict = batch.record(Err("incorrect".into())).unwrap();
    assert_eq!((verdict.valid, verdict.error.as_str()), (false, "incorrect"));
    assert_eq!(batch.next(), None);
    assert_eq!(
        batch.report().to_text(),
        r#"{"note":"","ok":true,"results":[{"email":"b","ok":true},{"email":"d","error":"incorrect","ok":false}],"summary":{"attempted":5,"failed":1,"refreshed":1,"skipped_no_password":3,"total":5}}"#
    );
}

#[test]
fn a_round_takes_the_first_accounts_only() {
    let logins = (0..CAP + 5).map(|i| login(&i.to_string(), if i % 3 == 0 { "" } else { "p" }));
    let mut batch = resign_all(logins.collect());
    let mut tried = 0;
    while let Some(i) = batch.next() {
        assert_eq!(batch.logins[i].email, i.to_string());
        batch.record(if i % 2 == 0 { Ok(()) } else { Err("e".into()) });
        tried += 1;
    }
    let report = batch.report().to_value();
    let summary = &report["summary"];
    let count = |key: &str| summary[key].as_u64().unwrap();
    assert_eq!(count("total"), 205);
    assert_eq!(count("attempted"), 200);
    assert_eq!(count("refreshed") + count("failed") + count("skipped_no_password"), 200);
    assert_eq!(count("refreshed") + count("failed"), tried);
    assert_eq!(report["results"].as_array().unwrap().len() as u64, tried);
    assert_eq!(
        report["note"],
        "帳號過多，本次僅 refresh 前 200 個；其餘由背景 worker 按 exp 過濾分批跑"
    );
}

#[test]
fn a_round_checks_tokens() {
    let mut batch = verify_all(vec!["a".into(), "b".into()]);
    assert_eq!(batch.next(), Some(0));
    let verdict = batch.record(true);
    assert_eq!((verdict.status_code.as_str(), verdict.error.as_str()), ("valid", ""));
    assert_eq!(batch.next(), Some(1));
    let verdict = batch.record(false);
    assert_eq!((verdict.status_code.as_str(), verdict.error.as_str()), ("auth_error", "Token 失效"));
    assert_eq!(batch.next(), None);
    assert_eq!(
        batch.report().to_text(),
        r#"{"concurrency":1,"note":"","ok":true,"results":[{"email":"a","valid":true},{"email":"b","valid":false}],"summary":{"banned":0,"checked":2,"failed":1,"refreshed":0,"total":2,"valid":1}}"#
    );
    let many = verify_all(vec!["x".to_string(); CAP + 1]);
    assert_eq!(many.report().to_value()["note"], "帐号过多，本次仅巡检前 200 个");
}

fn token(email: &str, token: &str, expires: Option<i64>) -> TokenEntry {
    TokenEntry { email: email.into(), token: token.into(), expires }
}

#[test]
fn expiries_are_summarized() {
    let now = 1_000_000;
    let day = 86_400;
    let summary = accounts_exp_summary(
        &vec![
            token("none", "", Some(3)),
            token("mute", "t", None),
            token("gone", "t", Some(now - 1)),
            token("now", "t", Some(now)),
            token("week", "t", Some(now + 7 * day - 1)),
            token("month", "t", Some(now + 7 * day)),
            token("late", "t", Some(now + 30 * day)),
            token("last of the month", "t", Some(now + 30 * day - 1)),
        ],
        now,
    );
    assert_eq!(
        summary.body(Json::Null).to_text(),
        r#"{"after_30d":1,"earliest_exp_days_from_now":null,"earliest_exp_unix":999999,"expired":1,"expiring_within_30d":2,"expiring_within_7d":2,"no_exp":1,"no_token":1,"now":1000000,"soon_sample":["now","week"],"total":8}"#
    );
    let empty = accounts_exp_summary(&vec![], now);
    assert_eq!(empty.earliest, None);
    assert!(empty.body(json("0.5")).to_text().contains(r#""earliest_exp_unix":null"#));
    assert!(empty.body(json("0.5")).to_text().contains(r#""earliest_exp_days_from_now":0.5"#));
}

#[test]
fn the_sample_of_a_summary_is_bounded() {
    let entries: Vec<TokenEntry> = (0..40).map(|i| token(&i.to_string(), "t", Some(10))).collect();
    let summary = accounts_exp_summary(&entries, 0);
    assert_eq!(summary.within_week, 40);
    assert_eq!(summary.soon.len(), 30);
    assert_eq!(summary.soon[29], "29");
}

#[test]
fn the_status() {
    let snapshot = |accounts: &str| StatusSnapshot {
        accounts: json(accounts),
        per_account: json("[]"),
        chats: 4,
        chats_per_account: json("{}"),
        chat_target: 5,
        chat_ttl_seconds: 600,
        no_t2v: 2,
    };
    assert_eq!(
        status(snapshot(r#"{"in_use":3}"#)).to_text(),
        r#"{"accounts":{"in_use":3},"browser_automation":{"description":"Rust 版不支持浏览器注册，仅手动注入 token","mode":"disabled"},"chat_id_pool":{"per_account":{},"target_per_account":5,"total_cached":4,"ttl_seconds":600},"no_t2v_skipped":2,"per_account":[],"request_runtime":{"browser_required_for_requests":false,"description":"普通请求直连 HTTP，不经过浏览器","mode":"direct_http"},"runtime":{"asyncio_running_tasks":3}}"#
    );
    assert_eq!(status(snapshot("{}")).to_value()["runtime"]["asyncio_running_tasks"], 0);
}

#[test]
fn the_settings() {
    let settings = |proxy: Option<&str>| Settings {
        max_inflight: 1,
        global_max_inflight: -1,
        min_interval_ms: 250,
        proxy: proxy.map(|s| s.to_string()),
        chat_target: 3,
        chat_ttl_seconds: 60,
        model_aliases: json(r#"{"gpt":"qwen"}"#),
    };
    assert_eq!(
        get_settings(settings(None)).to_text(),
        r#"{"account_min_interval_ms":250,"chat_id_pool_target":3,"chat_id_pool_ttl_seconds":60,"global_max_inflight":-1,"max_inflight_per_account":1,"model_aliases":{"gpt":"qwen"},"upstream_proxy":null,"version":"2.0.0"}"#
    );
    assert_eq!(get_settings(settings(Some("http://p"))).to_value()["upstream_proxy"], "http://p");
}

#[test]
fn settings_are_changed() {
    let change = update_settings(
        br#"{"max_inflight_per_account":2,"global_max_inflight":-3,"account_min_interval_ms":9,
             "upstream_proxy":"http://p","chat_id_pool_target":7,
             "model_aliases":{"a":"x","b":5,"c":"y"},"other":1}"#,
    )
    .unwrap();
    assert_eq!(change.max_inflight, Some(2));
    assert_eq!(change.global_max_inflight, Some(-3));
    assert_eq!(change.min_interval_ms, Some(9));
    assert_eq!(change.proxy, Some(Some("http://p".to_string())));
    assert_eq!(change.chat_pool, Some((Some(7), None)));
    assert_eq!(
        change.model_aliases,
        Some(vec![("a".to_string(), "x".to_string()), ("c".to_string(), "y".to_string())])
    );
    assert_eq!(settings_updated().to_text(), r#"{"ok":true}"#);
}

#[test]
fn settings_that_are_not_given_stay() {
    let change = update_settings(b"{}").unwrap();
    assert_eq!(change.max_inflight, None);
    assert_eq!(change.proxy, None);
    assert_eq!(change.chat_pool, None);
    assert_eq!(change.model_aliases, None);
    let change = update_settings(
        br#"{"max_inflight_per_account":"2","account_min_interval_ms":-1,"upstream_proxy":null,
             "chat_id_pool_ttl_seconds":5,"model_aliases":[]}"#,
    )
    .unwrap();
    assert_eq!(change.max_inflight, None);
    assert_eq!(change.min_interval_ms, None);
    assert_eq!(change.proxy, Some(None));
    assert_eq!(change.chat_pool, Some((None, Some(5))));
    assert_eq!(change.model_aliases, None);
    assert_eq!(
        update_settings(b"{").unwrap_err(),
        AppError::BadRequest("Invalid JSON".into())
    );
}

#[test]
fn a_range_of_statistics() {
    let window = |range: Option<&str>| {
        let w = stats_window(range, 1_000_000_000);
        (w.range, w.since_ms, w.bucket_ms)
    };
    assert_eq!(window(Some("1h")), ("1h".to_string(), 996_400_000, 60_000));
    assert_eq!(window(Some("6h")), ("6h".to_string(), 978_400_000, 300_000));
    assert_eq!(window(Some("24h")), ("24h".to_string(), 913_600_000, 900_000));
    assert_eq!(window(None), ("24h".to_string(), 913_600_000, 900_000));
    assert_eq!(window(Some("7d")), ("7d".to_string(), 395_200_000, 7_200_000));
    assert_eq!(window(Some("all")), ("all".to_string(), 0, 86_400_000));
    assert_eq!(window(Some("")), ("".to_string(), 0, 86_400_000));
}

#[test]
fn statistics_are_answered() {
    assert_eq!(
        body(stats(QueryResult::Found(json(r#"{"range":"?","n":1}"#)), "1h", 4)),
        r#"{"dropped":4,"n":1,"range":"1h"}"#
    );
    assert_eq!(body(stats(QueryResult::Found(json("[1]")), "1h", 4)), "[1]");
    assert_eq!(
        refusal(stats(QueryResult::Failed("locked".into()), "1h", 0)),
        AppError::Internal("統計查詢失敗: locked".into())
    );
    assert_eq!(
        refusal(stats(QueryResult::Aborted("panic".into()), "1h", 0)),
        AppError::Internal("統計任務失敗: panic".into())
    );
    assert_eq!(body(stats_recent(QueryResult::Found(json("[]")))), "[]");
    assert_eq!(
        refusal(stats_recent(QueryResult::Failed("x".into()))),
        AppError::Internal("統計查詢失敗: x".into())
    );
}

#[test]
fn limits_have_defaults() {
    assert_eq!(recent_limit(None), 50);
    assert_eq!(recent_limit(Some("7")), 7);
    assert_eq!(recent_limit(Some("-7")), -7);
    assert_eq!(recent_limit(Some("many")), 50);
    assert_eq!(media_tasks(None), 100);
    assert_eq!(media_tasks(Some("3")), 3);
    assert_eq!(media_tasks(Some("9223372036854775808")), 100);
}

#[test]
fn media_are_requested() {
    let request = media_submit(
        br#"{"kind":"video","prompts":[" a ",3,"  ","b"],"prompt":"ignored","ratio":"1:1","n":2,"size":null,"other":1}"#,
        Some("  Bearer Bearer  sk-1 "),
    )
    .unwrap();
    assert_eq!(request.kind, "video");
    assert_eq!(request.prompts, vec!["a".to_string(), "b".to_string()]);
    assert_eq!(request.params.to_text(), r#"{"n":2,"ratio":"1:1","size":null}"#);
    assert_eq!(request.caller.as_deref(), Some("sk-1"));

    let request = media_submit(br#"{"prompts":"none","prompt":" one "}"#, None).unwrap();
    assert_eq!(request.kind, "image");
    assert_eq!(request.prompts, vec!["one".to_string()]);
    assert_eq!(request.params.to_text(), "{}");
    assert_eq!(request.caller, None);

    assert_eq!(
        media_submitted(vec![Json::text("x"), Json::Unsigned(2)], "image").to_text(),
        r#"{"count":2,"ids":["x",2],"kind":"image","ok":true}"#
    );
}

#[test]
fn media_need_a_prompt() {
    let required = AppError::BadRequest("prompt is required".into());
    for text in ["{}", r#"{"prompts":[]}"#, r#"{"prompts":[],"prompt":"x"}"#, r#"{"prompt":"  "}"#, "7"] {
        assert_eq!(media_request(Some(&json(text)), None).unwrap_err(), required);
    }
    assert_eq!(
        media_submit(b"", None).unwrap_err(),
        AppError::BadRequest("Invalid JSON".into())
    );
}

#[test]
fn keys_are_made_and_listed() {
    let (key, answer) = create_key("abc");
    assert_eq!(key, "sk-abc");
    assert_eq!(answer.to_text(), r#"{"key":"sk-abc","ok":true}"#);
    assert_ne!(create_key("abd").0, key);
    assert_eq!(get_keys(&vec!["k2".into(), "k1".into()]).to_text(), r#"{"keys":["k2","k1"]}"#);
    assert_eq!(delete_key().to_text(), r#"{"ok":true}"#);
}

#[test]
fn users_are_made_and_listed() {
    let user = create_user(br#"{"name":"ann","quota":5}"#, "xyz");
    assert_eq!(user.to_json().to_text(), r#"{"id":"sk-xyz","name":"ann","quota":5,"used_tokens":0}"#);
    for user in [create_user(b"nonsense", "q"), new_user(Some(&json(r#"{"name":1,"quota":"2"}"#)), "q")] {
        assert_eq!(
            user.to_json().to_text(),
            r#"{"id":"sk-q","name":"user","quota":1000000,"used_tokens":0}"#
        );
    }
    assert_eq!(list_users(json("[1]")).to_text(), r#"{"users":[1]}"#);
}

#[test]
fn what_is_gone_is_told() {
    assert_eq!(delete_account().to_text(), r#"{"ok":true}"#);
    match register_account() {
        Reply::NotImplemented(body) => assert_eq!(
            body.to_text(),
            r#"{"error":"自动注册功能在 Rust 版已移除，请手动注入 token","ok":false}"#
        ),
        other => panic!("{other:?}"),
    }
    match activate_account() {
        Reply::NotImplemented(body) => assert_eq!(
            body.to_text(),
            r#"{"error":"激活功能需浏览器自动化，Rust 版不支持；请手动注入有效 token","ok":false}"#
        ),
        other => panic!("{other:?}"),
    }
}
