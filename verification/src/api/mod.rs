//! What the gateway answers to requests.

pub mod admin;

use crate::json::{Json, JsonModel};
use vstd::prelude::*;

verus! {

/// Why a request is refused.
#[derive(Debug, PartialEq, Eq)]
pub enum AppError {
    BadRequest(String),
    NotFound(String),
    Internal(String),
}

/// What an [`AppError`] says.
#[verifier::ext_equal]
pub enum ErrorModel {
    BadRequest(Seq<char>),
    NotFound(Seq<char>),
    Internal(Seq<char>),
}

impl View for AppError {
    type V = ErrorModel;

    open spec fn view(&self) -> ErrorModel {
        match self {
            AppError::BadRequest(message) => ErrorModel::BadRequest(message@),
            AppError::NotFound(message) => ErrorModel::NotFound(message@),
            AppError::Internal(message) => ErrorModel::Internal(message@),
        }
    }
}

/// What a request is answered.
#[derive(Debug)]
pub enum Reply {
    /// A body, with the status of success.
    Body(Json),
    /// A body, with the status of what is not implemented.
    NotImplemented(Json),
    Refused(AppError),
}

/// What a [`Reply`] says.
#[verifier::ext_equal]
pub enum ReplyModel {
    Body(JsonModel),
    NotImplemented(JsonModel),
    Refused(ErrorModel),
}

impl View for Reply {
    type V = ReplyModel;

    open spec fn view(&self) -> ReplyModel {
        match self {
            Reply::Body(json) => ReplyModel::Body(json@),
            Reply::NotImplemented(json) => ReplyModel::NotImplemented(json@),
            Reply::Refused(error) => ReplyModel::Refused(error@),
        }
    }
}

impl ReplyModel {
    pub open spec fn bad_request(message: Seq<char>) -> ReplyModel {
        ReplyModel::Refused(ErrorModel::BadRequest(message))
    }

    pub open spec fn not_found(message: Seq<char>) -> ReplyModel {
        ReplyModel::Refused(ErrorModel::NotFound(message))
    }

    pub open spec fn internal(message: Seq<char>) -> ReplyModel {
        ReplyModel::Refused(ErrorModel::Internal(message))
    }
}

/// The body `{"ok": true}`.
pub open spec fn ok_model() -> JsonModel {
    JsonModel::object().with("ok"@, JsonModel::Bool(true))
}

/// The body `{"ok": false}` with the reason.
pub open spec fn failure_model(error: Seq<char>) -> JsonModel {
    JsonModel::object().with("ok"@, JsonModel::Bool(false)).with("error"@, JsonModel::Text(error))
}

/// The body `{"ok": true}`.
pub(crate) fn ok_body() -> (r: Json)
    ensures
        r@ == ok_model(),
{
    Json::object().with("ok", Json::Bool(true))
}

/// The body `{"ok": false}` with the reason.
pub(crate) fn failure_body(error: &str) -> (r: Json)
    ensures
        r@ == failure_model(error@),
{
    Json::object().with("ok", Json::Bool(false)).with("error", Json::text(error))
}

/// Gives the prover the characters that tell the keys apart.
proof fn lemma_keys()
    ensures
        "ok"@.len() == 2,
        "error"@.len() == 5,
{
    reveal_strlit("ok");
    reveal_strlit("error");
}

/// An answer says whether all went well, and why not where it did not.
pub proof fn law_answers_say_whether_all_went_well(error: Seq<char>)
    ensures
        ok_model().get("ok"@) == Some(JsonModel::Bool(true)),
        ok_model().get("error"@) is None,
        failure_model(error).get("ok"@) == Some(JsonModel::Bool(false)),
        failure_model(error).get("error"@) == Some(JsonModel::Text(error)),
        ReplyModel::bad_request(error) == ReplyModel::Refused(ErrorModel::BadRequest(error)),
        ReplyModel::not_found(error) == ReplyModel::Refused(ErrorModel::NotFound(error)),
        ReplyModel::internal(error) == ReplyModel::Refused(ErrorModel::Internal(error)),
{
    lemma_keys();
}

} // verus!
