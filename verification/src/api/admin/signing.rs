//! Checking the token of an account, and signing in for a new one.

use crate::api::{AppError, ErrorModel, Reply, ReplyModel};
use crate::json::{Json, JsonModel};
use crate::views;
use vstd::prelude::*;

verus! {

/// What is noted on an account after its token was tried.
#[derive(Debug, PartialEq, Eq)]
pub struct Verdict {
    pub valid: bool,
    pub status_code: String,
    pub error: String,
}

/// What a [`Verdict`] says.
#[verifier::ext_equal]
pub struct VerdictModel {
    pub valid: bool,
    pub status_code: Seq<char>,
    pub error: Seq<char>,
}

impl View for Verdict {
    type V = VerdictModel;

    open spec fn view(&self) -> VerdictModel {
        VerdictModel { valid: self.valid, status_code: self.status_code@, error: self.error@ }
    }
}

impl VerdictModel {
    /// The token works.
    pub open spec fn valid() -> VerdictModel {
        VerdictModel { valid: true, status_code: "valid"@, error: ""@ }
    }

    /// The token does not work.
    pub open spec fn auth_error(error: Seq<char>) -> VerdictModel {
        VerdictModel { valid: false, status_code: "auth_error"@, error }
    }
}

impl Verdict {
    /// The token works.
    pub(crate) fn works() -> (r: Verdict)
        ensures
            r@ == VerdictModel::valid(),
    {
        Verdict { valid: true, status_code: "valid".to_owned(), error: "".to_owned() }
    }

    /// The token does not work.
    pub(crate) fn broken(error: &str) -> (r: Verdict)
        ensures
            r@ == VerdictModel::auth_error(error@),
    {
        Verdict { valid: false, status_code: "auth_error".to_owned(), error: error.to_owned() }
    }
}

/// The verdict on a token that was tried.
pub open spec fn verdict_of(valid: bool) -> VerdictModel {
    if valid {
        VerdictModel::valid()
    } else {
        VerdictModel::auth_error(
            "Token 失效（Rust 版不支持自动刷新，请重新手动注入）"@,
        )
    }
}

/// The body that tells a verdict.
pub open spec fn verdict_body(email: Seq<char>, valid: bool) -> JsonModel {
    let verdict = verdict_of(valid);
    JsonModel::object().with("email"@, JsonModel::Text(email)).with(
        "valid"@,
        JsonModel::Bool(valid),
    ).with("status_code"@, JsonModel::Text(verdict.status_code)).with(
        "status_text"@,
        JsonModel::Text(
            if valid {
                "正常"@
            } else {
                "鉴权失效"@
            },
        ),
    ).with("error"@, JsonModel::Text(verdict.error))
}

/// The verdict on the token of an account and the answer: `tried` is whether
/// the token works, and is missing where there is no such account.
pub fn verify_account(email: &str, tried: Option<bool>) -> (r: (Option<Verdict>, Reply))
    ensures
        (match tried {
            Some(valid) => {
                &&& views::option_view(r.0) == Some(verdict_of(valid))
                &&& r.1@ == ReplyModel::Body(verdict_body(email@, valid))
            },
            None => {
                &&& r.0 is None
                &&& r.1@ == ReplyModel::not_found("Account not found"@)
            },
        }),
{
    let valid: bool = match tried {
        Some(valid) => valid,
        None => return (
            None,
            Reply::Refused(AppError::NotFound("Account not found".to_owned())),
        ),
    };
    let verdict = if valid {
        Verdict::works()
    } else {
        Verdict::broken(
            "Token 失效（Rust 版不支持自动刷新，请重新手动注入）",
        )
    };
    let status_text = if valid {
        "正常"
    } else {
        "鉴权失效"
    };
    let body = Json::object().with("email", Json::text(email)).with(
        "valid",
        Json::Bool(valid),
    ).with("status_code", Json::text(verdict.status_code.as_str())).with(
        "status_text",
        Json::text(status_text),
    ).with("error", Json::text(verdict.error.as_str()));
    (Some(verdict), Reply::Body(body))
}

/// What is to be done to sign an account in again.
#[derive(Debug)]
pub enum ResignStep {
    /// Answer: there is no such account.
    Reply(Reply),
    /// Note the verdict on the account and answer.
    Note(Verdict, Json),
    /// Sign in with the password.
    SignIn,
    /// Keep the new token on the account and answer.
    Keep(String),
}

/// What a [`ResignStep`] says.
#[verifier::ext_equal]
pub enum ResignModel {
    Reply(ReplyModel),
    Note(VerdictModel, JsonModel),
    SignIn,
    Keep(Seq<char>),
}

impl View for ResignStep {
    type V = ResignModel;

    open spec fn view(&self) -> ResignModel {
        match self {
            ResignStep::Reply(reply) => ResignModel::Reply(reply@),
            ResignStep::Note(verdict, body) => ResignModel::Note(verdict@, body@),
            ResignStep::SignIn => ResignModel::SignIn,
            ResignStep::Keep(token) => ResignModel::Keep(token@),
        }
    }
}

/// The body that tells why an account could not be signed in.
pub open spec fn refusal_body(email: Seq<char>, error: Seq<char>) -> JsonModel {
    JsonModel::object().with("email"@, JsonModel::Text(email)).with(
        "ok"@,
        JsonModel::Bool(false),
    ).with("error"@, JsonModel::Text(error))
}

/// What to do where an account cannot be signed in.
pub open spec fn refusal(email: Seq<char>, error: Seq<char>) -> ResignModel {
    ResignModel::Note(VerdictModel::auth_error(error), refusal_body(email, error))
}

/// Notes that an account could not be signed in, and answers so.
fn resign_failed(email: &str, error: &str) -> (r: ResignStep)
    ensures
        r@ == refusal(email@, error@),
{
    let body = Json::object().with("email", Json::text(email)).with(
        "ok",
        Json::Bool(false),
    ).with("error", Json::text(error));
    ResignStep::Note(Verdict::broken(error), body)
}

/// What is to be done to sign an account in again; the password is missing
/// where there is no such account.
pub fn resign_account(email: &str, password: Option<&str>) -> (r: ResignStep)
    ensures
        r@ == first_resign_step(email@, views::option_view(password)),
        r@ == (match password {
            Some(password) => if password@.len() == 0 {
                refusal(email@, "帳號無 password 欄位，無法重登"@)
            } else {
                ResignModel::SignIn
            },
            None => ResignModel::Reply(ReplyModel::not_found("Account not found"@)),
        }),
{
    match password {
        Some(password) => if password.is_empty() {
            resign_failed(email, "帳號無 password 欄位，無法重登")
        } else {
            ResignStep::SignIn
        },
        None => ResignStep::Reply(
            Reply::Refused(AppError::NotFound("Account not found".to_owned())),
        ),
    }
}

/// What is to be done to sign an account in again.
pub open spec fn first_resign_step(
    email: Seq<char>,
    password: Option<Seq<char>>,
) -> ResignModel {
    match password {
        Some(password) => if password.len() == 0 {
            refusal(email, "帳號無 password 欄位，無法重登"@)
        } else {
            ResignModel::SignIn
        },
        None => ResignModel::Reply(ReplyModel::not_found("Account not found"@)),
    }
}

/// What is to be done after signing in.
pub open spec fn next_resign_step(
    email: Seq<char>,
    token: Result<Seq<char>, Seq<char>>,
) -> ResignModel {
    match token {
        Ok(token) => ResignModel::Keep(token),
        Err(error) => refusal(email, error),
    }
}

/// The body that tells of a new token.
pub open spec fn resigned_body(email: Seq<char>, token: Seq<char>, updated: bool) -> JsonModel {
    JsonModel::object().with("email"@, JsonModel::Text(email)).with(
        "ok"@,
        JsonModel::Bool(true),
    ).with("updated"@, JsonModel::Bool(updated)).with(
        "token_len"@,
        JsonModel::Integer(vstd::utf8::encode_utf8(token).len() as int),
    )
}

/// What is to be done after signing in, with the new token or with why there
/// is none.
pub fn resign_signed_in(email: &str, token: Result<String, String>) -> (r: ResignStep)
    ensures
        r@ == next_resign_step(
            email@,
            match token {
                Ok(token) => Ok(token@),
                Err(error) => Err(error@),
            },
        ),
        r@ == (match token {
            Ok(token) => ResignModel::Keep(token@),
            Err(error) => refusal(email@, error@),
        }),
{
    match token {
        Ok(token) => ResignStep::Keep(token),
        Err(error) => resign_failed(email, error.as_str()),
    }
}

/// The answer after an account was signed in; `updated` tells whether its new
/// token was kept. The length of the token is counted in bytes.
pub fn resigned(email: &str, token: &str, updated: bool) -> (r: Json)
    ensures
        r@ == resigned_body(email@, token@, updated),
        r@ == JsonModel::object().with("email"@, JsonModel::Text(email@)).with(
            "ok"@,
            JsonModel::Bool(true),
        ).with("updated"@, JsonModel::Bool(updated)).with(
            "token_len"@,
            JsonModel::Integer(vstd::utf8::encode_utf8(token@).len() as int),
        ),
{
    Json::object().with("email", Json::text(email)).with("ok", Json::Bool(true)).with(
        "updated",
        Json::Bool(updated),
    ).with("token_len", Json::Unsigned(token.as_bytes().len() as u64))
}

/// Gives the prover the characters that tell the keys apart.
proof fn lemma_keys()
    ensures
        "ok"@.len() == 2,
        "email"@.len() == 5 && "email"@[1] == 'm',
        "valid"@.len() == 5 && "valid"@[1] == 'a',
        "error"@.len() == 5 && "error"@[1] == 'r',
        "updated"@.len() == 7,
        "token_len"@.len() == 9,
        "status_code"@.len() == 11 && "status_code"@[7] == 'c',
        "status_text"@.len() == 11 && "status_text"@[7] == 't',
{
    reveal_strlit("email");
    reveal_strlit("valid");
    reveal_strlit("status_code");
    reveal_strlit("status_text");
    reveal_strlit("error");
    reveal_strlit("ok");
    reveal_strlit("updated");
    reveal_strlit("token_len");
}

/// A verdict says whether the token works, and an account whose token does not
/// is noted with an error.
pub proof fn law_verdict_says_whether_the_token_works(error: Seq<char>, valid: bool)
    ensures
        VerdictModel::valid().valid,
        VerdictModel::valid().status_code == "valid"@,
        VerdictModel::valid().error == ""@,
        !VerdictModel::auth_error(error).valid,
        VerdictModel::auth_error(error).status_code == "auth_error"@,
        VerdictModel::auth_error(error).error == error,
        verdict_of(valid).valid == valid,
        valid ==> verdict_of(valid).error == ""@ && verdict_of(valid).status_code == "valid"@,
        !valid ==> verdict_of(valid).status_code == "auth_error"@ && verdict_of(valid).error
            == "Token 失效（Rust 版不支持自动刷新，请重新手动注入）"@,
{
}

/// The body of a verdict tells of which account it is and what it says.
pub proof fn law_body_tells_the_verdict(email: Seq<char>, valid: bool)
    ensures
        ({
            let body = verdict_body(email, valid);
            &&& body.get("email"@) == Some(JsonModel::Text(email))
            &&& body.get("valid"@) == Some(JsonModel::Bool(valid))
            &&& body.get("status_code"@) == Some(
                JsonModel::Text(
                    if valid {
                        "valid"@
                    } else {
                        "auth_error"@
                    },
                ),
            )
            &&& body.get("status_text"@) == Some(
                JsonModel::Text(
                    if valid {
                        "正常"@
                    } else {
                        "鉴权失效"@
                    },
                ),
            )
            &&& body.get("error"@) == Some(JsonModel::Text(verdict_of(valid).error))
        }),
{
    lemma_keys();
}

/// An account that cannot be signed in is noted with the reason, and the answer
/// tells the same reason.
pub proof fn law_reason_is_noted_and_told(email: Seq<char>, error: Seq<char>)
    ensures
        (match refusal(email, error) {
            ResignModel::Note(verdict, body) => {
                &&& !verdict.valid
                &&& verdict.status_code == "auth_error"@
                &&& verdict.error == error
                &&& body.get("email"@) == Some(JsonModel::Text(email))
                &&& body.get("ok"@) == Some(JsonModel::Bool(false))
                &&& body.get("error"@) == Some(JsonModel::Text(error))
            },
            _ => false,
        }),
{
    lemma_keys();
}

/// An account is signed in exactly where it is there and has a password. One
/// without is noted and told so, and one that is not there is not found.
pub proof fn law_account_with_a_password_is_signed_in(email: Seq<char>, password: Seq<char>)
    ensures
        password.len() > 0 ==> first_resign_step(email, Some(password)) is SignIn,
        password.len() == 0 ==> (match first_resign_step(email, Some(password)) {
            ResignModel::Note(verdict, body) => {
                &&& verdict == VerdictModel {
                    valid: false,
                    status_code: "auth_error"@,
                    error: "帳號無 password 欄位，無法重登"@,
                }
                &&& body.get("email"@) == Some(JsonModel::Text(email))
                &&& body.get("ok"@) == Some(JsonModel::Bool(false))
                &&& body.get("error"@) == Some(JsonModel::Text(verdict.error))
            },
            _ => false,
        }),
        first_resign_step(email, None) == ResignModel::Reply(
            ReplyModel::Refused(ErrorModel::NotFound("Account not found"@)),
        ),
{
    lemma_keys();
}

/// A new token is kept as it is; where there is none, the reason is noted on the
/// account and told.
pub proof fn law_new_token_is_kept(
    email: Seq<char>,
    token: Seq<char>,
    error: Seq<char>,
    updated: bool,
)
    ensures
        next_resign_step(email, Ok(token)) == ResignModel::Keep(token),
        (match next_resign_step(email, Err(error)) {
            ResignModel::Note(verdict, body) => {
                &&& verdict == VerdictModel { valid: false, status_code: "auth_error"@, error }
                &&& body.get("email"@) == Some(JsonModel::Text(email))
                &&& body.get("ok"@) == Some(JsonModel::Bool(false))
                &&& body.get("error"@) == Some(JsonModel::Text(error))
            },
            _ => false,
        }),
        resigned_body(email, token, updated).get("email"@) == Some(JsonModel::Text(email)),
        resigned_body(email, token, updated).get("ok"@) == Some(JsonModel::Bool(true)),
        resigned_body(email, token, updated).get("updated"@) == Some(JsonModel::Bool(updated)),
        resigned_body(email, token, updated).get("token_len"@) == Some(
            JsonModel::Integer(vstd::utf8::encode_utf8(token).len() as int),
        ),
{
    lemma_keys();
}

} // verus!
