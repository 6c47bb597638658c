//! Adding an account: with a token that the administrator has, or with the
//! email and password to sign in with.

use crate::api;
use crate::api::{AppError, Reply, ReplyModel};
use crate::json;
use crate::json::{Json, JsonModel};
use crate::number;
use crate::text;
use crate::views;
use vstd::prelude::*;

verus! {

/// An account that is about to be added.
#[derive(Debug, PartialEq, Eq)]
pub struct NewAccount {
    pub email: String,
    pub password: String,
    pub token: String,
    pub cookies: String,
    pub username: String,
}

/// What a [`NewAccount`] says.
#[verifier::ext_equal]
pub struct NewAccountModel {
    pub email: Seq<char>,
    pub password: Seq<char>,
    pub token: Seq<char>,
    pub cookies: Seq<char>,
    pub username: Seq<char>,
}

impl View for NewAccount {
    type V = NewAccountModel;

    open spec fn view(&self) -> NewAccountModel {
        NewAccountModel {
            email: self.email@,
            password: self.password@,
            token: self.token@,
            cookies: self.cookies@,
            username: self.username@,
        }
    }
}

/// What is to be done next to add an account.
#[derive(Debug)]
pub enum JoinStep {
    /// Answer: the account cannot be added.
    Reply(Reply),
    /// Sign in with the email and password, for a token.
    SignIn(NewAccount),
    /// Verify the token.
    Verify(NewAccount),
}

/// What a [`JoinStep`] says.
#[verifier::ext_equal]
pub enum JoinModel {
    Reply(ReplyModel),
    SignIn(NewAccountModel),
    Verify(NewAccountModel),
}

impl View for JoinStep {
    type V = JoinModel;

    open spec fn view(&self) -> JoinModel {
        match self {
            JoinStep::Reply(reply) => JoinModel::Reply(reply@),
            JoinStep::SignIn(account) => JoinModel::SignIn(account@),
            JoinStep::Verify(account) => JoinModel::Verify(account@),
        }
    }
}

/// The account that a request describes. What is missing or no text is empty,
/// and the token and the email lose the white space around them.
pub open spec fn described(data: JsonModel) -> NewAccountModel {
    NewAccountModel {
        email: text::trimmed(json::text_or(data.get("email"@), ""@)),
        password: json::text_or(data.get("password"@), ""@),
        token: text::trimmed(json::text_or(data.get("token"@), ""@)),
        cookies: json::text_or(data.get("cookies"@), ""@),
        username: json::text_or(data.get("username"@), ""@),
    }
}

/// What is to be done with a request, or with one that is no JSON.
pub open spec fn first_step(data: Option<JsonModel>) -> JoinModel {
    match data {
        Some(data) => {
            let account = described(data);
            if account.token.len() > 0 {
                JoinModel::Verify(account)
            } else if account.email.len() == 0 || account.password.len() == 0 {
                JoinModel::Reply(
                    ReplyModel::bad_request(
                        "请填写 token，或同时填写 email + password 让系统自动登入"@,
                    ),
                )
            } else {
                JoinModel::SignIn(account)
            }
        },
        None => JoinModel::Reply(ReplyModel::bad_request("Invalid JSON body"@)),
    }
}

/// What is to be done first with a request, given as JSON.
pub fn join(data: Option<&Json>) -> (r: JoinStep)
    ensures
        r@ == first_step(views::option_view(data)),
{
    let data: &Json = match data {
        Some(data) => data,
        None => return JoinStep::Reply(
            Reply::Refused(AppError::BadRequest("Invalid JSON body".to_owned())),
        ),
    };
    let account = NewAccount {
        email: json::get_text_or(data.get("email"), "").trim().to_owned(),
        password: json::get_text_or(data.get("password"), "").to_owned(),
        token: json::get_text_or(data.get("token"), "").trim().to_owned(),
        cookies: json::get_text_or(data.get("cookies"), "").to_owned(),
        username: json::get_text_or(data.get("username"), "").to_owned(),
    };
    if !account.token.as_str().is_empty() {
        JoinStep::Verify(account)
    } else if account.email.as_str().is_empty() || account.password.as_str().is_empty() {
        JoinStep::Reply(
            Reply::Refused(
                AppError::BadRequest(
                    "请填写 token，或同时填写 email + password 让系统自动登入".to_owned(),
                ),
            ),
        )
    } else {
        JoinStep::SignIn(account)
    }
}

/// What is to be done first with the body of a request.
pub fn add_account(body: &[u8]) -> (r: JoinStep)
    ensures
        r@ == first_step(json::codec::parsed_bytes(body@)),
{
    match Json::parse_bytes(body) {
        Some(data) => join(Some(&data)),
        None => join(None),
    }
}

/// What is to be done after signing in.
pub open spec fn second_step(
    account: NewAccountModel,
    token: Result<Seq<char>, Seq<char>>,
) -> JoinModel {
    match token {
        Ok(token) => JoinModel::Verify(NewAccountModel { token, ..account }),
        Err(reason) => JoinModel::Reply(
            ReplyModel::Body(api::failure_model("自动登入失败："@ + reason)),
        ),
    }
}

/// What is to be done after signing in, with the token or with why there is
/// none.
pub fn signed_in(account: NewAccount, token: Result<String, String>) -> (r: JoinStep)
    ensures
        r@ == second_step(
            account@,
            match token {
                Ok(token) => Ok(token@),
                Err(reason) => Err(reason@),
            },
        ),
        r@ == (match token {
            Ok(token) => JoinModel::Verify(NewAccountModel { token: token@, ..account@ }),
            Err(reason) => JoinModel::Reply(
                ReplyModel::Body(api::failure_model("自动登入失败："@ + reason@)),
            ),
        }),
{
    match token {
        Ok(token) => JoinStep::Verify(NewAccount { token, ..account }),
        Err(reason) => {
            let mut message = "自动登入失败：".to_owned();
            message.append(reason.as_str());
            JoinStep::Reply(Reply::Body(api::failure_body(message.as_str())))
        },
    }
}

/// The email of an account: its own, or one made of the time.
pub open spec fn email_at(email: Seq<char>, now_ms: i64) -> Seq<char> {
    if email.len() == 0 {
        "manual_"@ + number::text_of(now_ms as int) + "@qwen"@
    } else {
        email
    }
}

impl NewAccount {
    /// The account with an email, made of the time where it has none.
    pub fn addressed(self, now_ms: i64) -> (r: NewAccount)
        ensures
            r@ == (NewAccountModel { email: email_at(self@.email, now_ms), ..self@ }),
    {
        if self.email.as_str().is_empty() {
            let mut email = "manual_".to_owned();
            email.append(number::print_i64(now_ms).as_str());
            email.append("@qwen");
            NewAccount { email, ..self }
        } else {
            self
        }
    }
}

/// The answer once the token was verified.
pub open spec fn verified_model(email: Seq<char>, valid: bool) -> JsonModel {
    if valid {
        api::ok_model().with("email"@, JsonModel::Text(email))
    } else {
        api::failure_model("Invalid token (验证失败，请确认Token有效)"@)
    }
}

/// The account to add and the answer, once its token was verified.
pub fn verified(account: NewAccount, valid: bool) -> (r: (Option<NewAccount>, Json))
    ensures
        views::option_view(r.0) == if valid {
            Some(account@)
        } else {
            None
        },
        r.1@ == verified_model(account@.email, valid),
{
    if valid {
        let body = api::ok_body().with("email", Json::text(account.email.as_str()));
        (Some(account), body)
    } else {
        (None, api::failure_body("Invalid token (验证失败，请确认Token有效)"))
    }
}

/// A request goes on exactly where it is JSON and has a token, or an email and
/// a password; it asks to sign in exactly where it has no token.
pub proof fn law_account_needs_a_token_or_a_password(data: JsonModel)
    ensures
        !(first_step(Some(data)) is Reply) <==> described(data).token.len() > 0 || (described(
            data,
        ).email.len() > 0 && described(data).password.len() > 0),
        first_step(Some(data)) is SignIn ==> described(data).token.len() == 0,
        first_step(Some(data)) is Verify ==> described(data).token.len() > 0,
        first_step(None) is Reply,
{
}

/// Gives the prover the characters that tell the keys apart.
proof fn lemma_keys()
    ensures
        "ok"@.len() == 2,
        "email"@.len() == 5 && "email"@[1] == 'm',
        "token"@.len() == 5 && "token"@[1] == 'o',
        "error"@.len() == 5 && "error"@[1] == 'r',
        "cookies"@.len() == 7,
        "password"@.len() == 8 && "password"@[0] == 'p',
        "username"@.len() == 8 && "username"@[0] == 'u',
{
    reveal_strlit("email");
    reveal_strlit("password");
    reveal_strlit("token");
    reveal_strlit("cookies");
    reveal_strlit("username");
    reveal_strlit("ok");
    reveal_strlit("error");
}

/// What a request says of an account is read as it came, but for white space
/// around the token and the email; what is missing or no text is empty.
pub proof fn law_account_is_read_as_described(data: JsonModel)
    ensures
        (match data.get("token"@) {
            Some(JsonModel::Text(s)) => described(data).token == text::trimmed(s),
            _ => described(data).token.len() == 0,
        }),
        (match data.get("email"@) {
            Some(JsonModel::Text(s)) => described(data).email == text::trimmed(s),
            _ => described(data).email.len() == 0,
        }),
        (match data.get("password"@) {
            Some(JsonModel::Text(s)) => described(data).password == s,
            _ => described(data).password.len() == 0,
        }),
        (match data.get("username"@) {
            Some(JsonModel::Text(s)) => described(data).username == s,
            _ => described(data).username.len() == 0,
        }),
        (match data.get("cookies"@) {
            Some(JsonModel::Text(s)) => described(data).cookies == s,
            _ => described(data).cookies.len() == 0,
        }),
{
    reveal_strlit("");
    assert(""@.len() == 0);
    assert(text::trimmed(""@).len() == 0);
}

/// A token is verified as it is given; without one, the email and the password
/// are signed in with; a request without either is refused, and so is what is no
/// JSON.
pub proof fn law_first_step_follows_what_is_given(data: JsonModel)
    ensures
        ({
            let account = described(data);
            &&& account.token.len() > 0 ==> first_step(Some(data)) == JoinModel::Verify(account)
            &&& account.token.len() == 0 && account.email.len() > 0 && account.password.len() > 0
                ==> first_step(Some(data)) == JoinModel::SignIn(account)
            &&& account.token.len() == 0 && (account.email.len() == 0 || account.password.len()
                == 0) ==> first_step(Some(data)) == JoinModel::Reply(
                ReplyModel::Refused(
                    api::ErrorModel::BadRequest(
                        "请填写 token，或同时填写 email + password 让系统自动登入"@,
                    ),
                ),
            )
            &&& first_step(None) == JoinModel::Reply(
                ReplyModel::Refused(api::ErrorModel::BadRequest("Invalid JSON body"@)),
            )
        }),
{
}

/// An email that is given is kept; else one is made of the time.
pub proof fn law_given_email_is_kept(email: Seq<char>, now_ms: i64)
    ensures
        email.len() > 0 ==> email_at(email, now_ms) == email,
        email.len() == 0 ==> email_at(email, now_ms) == "manual_"@ + number::text_of(
            now_ms as int,
        ) + "@qwen"@,
{
}

/// The answer names the account where its token works, and says so where it does
/// not.
pub proof fn law_answer_names_the_verified_account(email: Seq<char>)
    ensures
        verified_model(email, true).get("ok"@) == Some(JsonModel::Bool(true)),
        verified_model(email, true).get("email"@) == Some(JsonModel::Text(email)),
        verified_model(email, true).get("error"@) is None,
        verified_model(email, false).get("ok"@) == Some(JsonModel::Bool(false)),
        verified_model(email, false).get("email"@) is None,
        verified_model(email, false).get("error"@) == Some(
            JsonModel::Text("Invalid token (验证失败，请确认Token有效)"@),
        ),
{
    lemma_keys();
}

/// A token that signing in gave is verified as it is, on the same account; where
/// it gave none, the answer tells the reason.
pub proof fn law_token_of_signing_in_is_verified(
    account: NewAccountModel,
    token: Seq<char>,
    reason: Seq<char>,
)
    ensures
        (match second_step(account, Ok(token)) {
            JoinModel::Verify(next) => {
                &&& next.token == token
                &&& next.email == account.email
                &&& next.password == account.password
                &&& next.cookies == account.cookies
                &&& next.username == account.username
            },
            _ => false,
        }),
        (match second_step(account, Err(reason)) {
            JoinModel::Reply(ReplyModel::Body(body)) => {
                &&& body.get("ok"@) == Some(JsonModel::Bool(false))
                &&& body.get("error"@) == Some(JsonModel::Text("自动登入失败："@ + reason))
            },
            _ => false,
        }),
{
    lemma_keys();
}

} // verus!
