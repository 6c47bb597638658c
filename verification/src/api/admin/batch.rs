//! Rounds over many accounts: signing all of them in again, and checking all
//! of their tokens. A round takes the first two hundred accounts at most.

use super::signing::{Verdict, VerdictModel};
use crate::json;
use crate::json::{Json, JsonModel};
use crate::views;
use vstd::prelude::*;

verus! {

/// The most accounts that one round takes.
pub const CAP: usize = 200;

/// How many of `total` accounts a round takes.
pub open spec fn attempted(total: int) -> int {
    if total < CAP {
        total
    } else {
        CAP as int
    }
}

fn get_attempted(total: usize) -> (r: usize)
    ensures
        r == attempted(total as int),
{
    if total < CAP {
        total
    } else {
        CAP
    }
}

/// What an account signs in with.
#[derive(Debug)]
pub struct Login {
    pub email: String,
    pub password: String,
}

/// What a [`Login`] says.
#[verifier::ext_equal]
pub struct LoginModel {
    pub email: Seq<char>,
    pub password: Seq<char>,
}

impl View for Login {
    type V = LoginModel;

    open spec fn view(&self) -> LoginModel {
        LoginModel { email: self.email@, password: self.password@ }
    }
}

/// What came of signing an account in.
#[derive(Debug)]
pub enum Outcome {
    /// It has no password.
    Skipped,
    Refreshed,
    Failed(String),
}

/// What an [`Outcome`] says.
#[verifier::ext_equal]
pub enum OutcomeModel {
    Skipped,
    Refreshed,
    Failed(Seq<char>),
}

impl View for Outcome {
    type V = OutcomeModel;

    open spec fn view(&self) -> OutcomeModel {
        match self {
            Outcome::Skipped => OutcomeModel::Skipped,
            Outcome::Refreshed => OutcomeModel::Refreshed,
            Outcome::Failed(error) => OutcomeModel::Failed(error@),
        }
    }
}

/// A round that signs accounts in again.
#[derive(Debug)]
pub struct ResignBatch {
    pub logins: Vec<Login>,
    /// What came of the first accounts, in order.
    pub outcomes: Vec<Outcome>,
}

/// What a [`ResignBatch`] is at.
#[verifier::ext_equal]
pub struct ResignBatchModel {
    pub logins: Seq<LoginModel>,
    pub outcomes: Seq<OutcomeModel>,
}

impl View for ResignBatch {
    type V = ResignBatchModel;

    open spec fn view(&self) -> ResignBatchModel {
        ResignBatchModel {
            logins: views::seq_view(self.logins@),
            outcomes: views::seq_view(self.outcomes@),
        }
    }
}

impl ResignBatchModel {
    /// How many accounts the round takes.
    pub open spec fn size(self) -> int {
        attempted(self.logins.len() as int)
    }

    /// No more accounts are dealt with than the round takes, and those without
    /// a password, and no others, were skipped.
    pub open spec fn well_formed(self) -> bool {
        &&& self.outcomes.len() <= self.size()
        &&& forall|i: int|
            0 <= i < self.outcomes.len() ==> (#[trigger] self.outcomes[i] is Skipped
                <==> self.logins[i].password.len() == 0)
    }

    /// Whether the next account is to be signed in.
    pub open spec fn awaits(self) -> bool {
        self.outcomes.len() < self.size() && self.logins[self.outcomes.len() as int].password.len()
            > 0
    }

    /// Whether the round is over.
    pub open spec fn finished(self) -> bool {
        self.outcomes.len() == self.size()
    }

    /// The round with `more` accounts skipped.
    pub open spec fn skipping(self, more: nat) -> ResignBatchModel {
        ResignBatchModel {
            outcomes: self.outcomes + Seq::new(more, |i: int| OutcomeModel::Skipped),
            ..self
        }
    }

    /// The round with one account dealt with.
    pub open spec fn recorded(self, outcome: OutcomeModel) -> ResignBatchModel {
        ResignBatchModel { outcomes: self.outcomes.push(outcome), ..self }
    }
}

/// How many accounts were skipped.
pub open spec fn skipped(outcomes: Seq<OutcomeModel>) -> nat
    decreases outcomes.len(),
{
    if outcomes.len() == 0 {
        0
    } else {
        skipped(outcomes.drop_last()) + if outcomes.last() is Skipped {
            1nat
        } else {
            0nat
        }
    }
}

/// How many accounts were signed in.
pub open spec fn refreshed(outcomes: Seq<OutcomeModel>) -> nat
    decreases outcomes.len(),
{
    if outcomes.len() == 0 {
        0
    } else {
        refreshed(outcomes.drop_last()) + if outcomes.last() is Refreshed {
            1nat
        } else {
            0nat
        }
    }
}

/// How many accounts could not be signed in.
pub open spec fn failed(outcomes: Seq<OutcomeModel>) -> nat
    decreases outcomes.len(),
{
    if outcomes.len() == 0 {
        0
    } else {
        failed(outcomes.drop_last()) + if outcomes.last() is Failed {
            1nat
        } else {
            0nat
        }
    }
}

/// What is told of an account; nothing of one that was skipped.
pub open spec fn result_of(email: Seq<char>, outcome: OutcomeModel) -> Option<JsonModel> {
    let named = JsonModel::object().with("email"@, JsonModel::Text(email));
    match outcome {
        OutcomeModel::Skipped => None,
        OutcomeModel::Refreshed => Some(named.with("ok"@, JsonModel::Bool(true))),
        OutcomeModel::Failed(error) => Some(
            named.with("ok"@, JsonModel::Bool(false)).with("error"@, JsonModel::Text(error)),
        ),
    }
}

/// What is told of the first accounts, in order.
pub open spec fn results(logins: Seq<LoginModel>, outcomes: Seq<OutcomeModel>) -> Seq<JsonModel>
    decreases outcomes.len(),
{
    if outcomes.len() == 0 {
        seq![]
    } else {
        let init = results(logins, outcomes.drop_last());
        match result_of(logins[outcomes.len() - 1].email, outcomes.last()) {
            Some(result) => init.push(result),
            None => init,
        }
    }
}

/// A remark where there are more accounts than a round takes.
pub open spec fn note(total: int, remark: Seq<char>) -> JsonModel {
    JsonModel::Text(
        if total > CAP {
            remark
        } else {
            ""@
        },
    )
}

/// The report on a round that signed accounts in.
pub open spec fn resign_report(batch: ResignBatchModel) -> JsonModel {
    let total = batch.logins.len() as int;
    JsonModel::object().with("ok"@, JsonModel::Bool(true)).with(
        "summary"@,
        JsonModel::object().with("total"@, JsonModel::Integer(total)).with(
            "attempted"@,
            JsonModel::Integer(attempted(total)),
        ).with("refreshed"@, JsonModel::Integer(refreshed(batch.outcomes) as int)).with(
            "failed"@,
            JsonModel::Integer(failed(batch.outcomes) as int),
        ).with("skipped_no_password"@, JsonModel::Integer(skipped(batch.outcomes) as int)),
    ).with("results"@, JsonModel::List(results(batch.logins, batch.outcomes))).with(
        "note"@,
        note(
            total,
            "帳號過多，本次僅 refresh 前 200 個；其餘由背景 worker 按 exp 過濾分批跑"@,
        ),
    )
}

fn get_note(total: usize, remark: &str) -> (r: Json)
    ensures
        r@ == note(total as int, remark@),
{
    Json::text(
        if total > CAP {
            remark
        } else {
            ""
        },
    )
}

/// Starts a round that signs accounts in again.
pub fn resign_all(logins: Vec<Login>) -> (r: ResignBatch)
    ensures
        r@ == (ResignBatchModel { logins: views::seq_view(logins@), outcomes: seq![] }),
        r@.well_formed(),
{
    let r = ResignBatch { logins, outcomes: Vec::new() };
    assert(r@.outcomes =~= seq![]);
    r
}

impl ResignBatch {
    /// The place of the next account that is to be signed in; those without a
    /// password are skipped. `None` once the round is over.
    pub fn next(&mut self) -> (r: Option<usize>)
        requires
            old(self)@.well_formed(),
        ensures
            final(self)@.well_formed(),
            exists|more: nat| final(self)@ == #[trigger] old(self)@.skipping(more),
            (match r {
                Some(i) => final(self)@.awaits() && i == final(self)@.outcomes.len(),
                None => final(self)@.finished(),
            }),
    {
        broadcast use views::lemma_seq_view_push;

        let size: usize = get_attempted(self.logins.len());
        let ghost start = self@;
        let ghost mut more: nat = 0;
        assert(start.skipping(0) =~= start);
        while self.outcomes.len() < size && self.logins[self.outcomes.len()].password.as_str().is_empty()
            invariant
                size == self@.size(),
                size <= self.logins.len(),
                self@.well_formed(),
                self@ == start.skipping(more),
            decreases size - self.outcomes.len(),
        {
            let ghost before = self@;
            self.outcomes.push(Outcome::Skipped);
            proof {
                assert(self@ =~= before.recorded(OutcomeModel::Skipped));
                assert(before.recorded(OutcomeModel::Skipped) =~= start.skipping(more + 1));
                more = more + 1;
            }
        }
        if self.outcomes.len() < size {
            Some(self.outcomes.len())
        } else {
            None
        }
    }

    /// Takes down whether the next account was signed in, or why not; the
    /// verdict, where there is one, is to be noted on the account.
    pub fn record(&mut self, result: Result<(), String>) -> (r: Option<Verdict>)
        requires
            old(self)@.well_formed(),
            old(self)@.awaits(),
        ensures
            final(self)@.well_formed(),
            (match result {
                Ok(_) => {
                    &&& final(self)@ == old(self)@.recorded(OutcomeModel::Refreshed)
                    &&& r is None
                },
                Err(error) => {
                    &&& final(self)@ == old(self)@.recorded(OutcomeModel::Failed(error@))
                    &&& views::option_view(r) == Some(VerdictModel::auth_error(error@))
                },
            }),
    {
        broadcast use views::lemma_seq_view_push;

        match result {
            Ok(_) => {
                self.outcomes.push(Outcome::Refreshed);
                assert(self@ =~= old(self)@.recorded(OutcomeModel::Refreshed));
                None
            },
            Err(error) => {
                let verdict = Verdict::broken(error.as_str());
                self.outcomes.push(Outcome::Failed(error));
                assert(self@ =~= old(self)@.recorded(OutcomeModel::Failed(error@)));
                Some(verdict)
            },
        }
    }

    /// The report on the round.
    pub fn report(&self) -> (r: Json)
        requires
            self@.well_formed(),
        ensures
            r@ == resign_report(self@),
    {
        let ghost logins = self@.logins;
        let ghost outcomes = self@.outcomes;
        let mut refreshed_n: usize = 0;
        let mut failed_n: usize = 0;
        let mut skipped_n: usize = 0;
        let mut told: Vec<Json> = Vec::new();
        for i in 0..self.outcomes.len()
            invariant
                self@.well_formed(),
                logins == self@.logins,
                outcomes == self@.outcomes,
                refreshed_n == refreshed(outcomes.take(i as int)),
                failed_n == failed(outcomes.take(i as int)),
                skipped_n == skipped(outcomes.take(i as int)),
                refreshed_n + failed_n + skipped_n == i,
                json::list_model(told@) =~= results(logins, outcomes.take(i as int)),
        {
            let ghost before = told@;
            let email = self.logins[i].email.as_str();
            proof {
                assert(outcomes.take(i + 1).drop_last() =~= outcomes.take(i as int));
                assert(outcomes.take(i + 1).last() == self.outcomes@[i as int]@);
                assert(logins[i as int].email == email@);
            }
            match &self.outcomes[i] {
                Outcome::Skipped => {
                    skipped_n += 1;
                },
                Outcome::Refreshed => {
                    refreshed_n += 1;
                    told.push(
                        Json::object().with("email", Json::text(email)).with(
                            "ok",
                            Json::Bool(true),
                        ),
                    );
                },
                Outcome::Failed(error) => {
                    failed_n += 1;
                    told.push(
                        Json::object().with("email", Json::text(email)).with(
                            "ok",
                            Json::Bool(false),
                        ).with("error", Json::text(error.as_str())),
                    );
                },
            }
            proof {
                if told@.len() > before.len() {
                    assert(told@ =~= before.push(told@.last()));
                    json::lemma_list_push(before, told@.last());
                }
            }
        }
        assert(outcomes.take(outcomes.len() as int) =~= outcomes);
        let total: usize = self.logins.len();
        Json::object().with("ok", Json::Bool(true)).with(
            "summary",
            Json::object().with("total", Json::Unsigned(total as u64)).with(
                "attempted",
                Json::Unsigned(get_attempted(total) as u64),
            ).with("refreshed", Json::Unsigned(refreshed_n as u64)).with(
                "failed",
                Json::Unsigned(failed_n as u64),
            ).with("skipped_no_password", Json::Unsigned(skipped_n as u64)),
        ).with("results", Json::List(told)).with(
            "note",
            get_note(
                total,
                "帳號過多，本次僅 refresh 前 200 個；其餘由背景 worker 按 exp 過濾分批跑",
            ),
        )
    }
}

/// Every account of a round is counted once: as signed in, as failed or as
/// skipped. Once the round is over these are all accounts it took.
pub proof fn law_every_account_is_counted_once(batch: ResignBatchModel)
    ensures
        refreshed(batch.outcomes) + failed(batch.outcomes) + skipped(batch.outcomes)
            == batch.outcomes.len(),
        batch.finished() ==> refreshed(batch.outcomes) + failed(batch.outcomes) + skipped(
            batch.outcomes,
        ) == attempted(batch.logins.len() as int),
        results(batch.logins, batch.outcomes).len() == refreshed(batch.outcomes) + failed(
            batch.outcomes,
        ),
    decreases batch.outcomes.len(),
{
    if batch.outcomes.len() > 0 {
        law_every_account_is_counted_once(
            ResignBatchModel { outcomes: batch.outcomes.drop_last(), ..batch },
        );
    }
}

/// What was taken down of an account stays: later steps only add to it.
pub proof fn law_outcomes_stay(batch: ResignBatchModel, more: nat, outcome: OutcomeModel)
    ensures
        batch.outcomes.is_prefix_of(batch.skipping(more).recorded(outcome).outcomes),
{
    assert(batch.outcomes =~= batch.skipping(more).recorded(outcome).outcomes.take(
        batch.outcomes.len() as int,
    ));
}

/// A round that checks tokens.
#[derive(Debug)]
pub struct VerifyBatch {
    pub emails: Vec<String>,
    /// Whether the tokens of the first accounts work, in order.
    pub checked: Vec<bool>,
}

/// What a [`VerifyBatch`] is at.
#[verifier::ext_equal]
pub struct VerifyBatchModel {
    pub emails: Seq<Seq<char>>,
    pub checked: Seq<bool>,
}

impl View for VerifyBatch {
    type V = VerifyBatchModel;

    open spec fn view(&self) -> VerifyBatchModel {
        VerifyBatchModel { emails: views::seq_view(self.emails@), checked: self.checked@ }
    }
}

impl VerifyBatchModel {
    /// How many accounts the round takes.
    pub open spec fn size(self) -> int {
        attempted(self.emails.len() as int)
    }

    /// No more accounts are dealt with than the round takes.
    pub open spec fn well_formed(self) -> bool {
        self.checked.len() <= self.size()
    }

    /// Whether the round is over.
    pub open spec fn finished(self) -> bool {
        self.checked.len() == self.size()
    }
}

/// How many of the checked tokens have the given worth.
pub open spec fn tokens_that_are(checked: Seq<bool>, valid: bool) -> nat
    decreases checked.len(),
{
    if checked.len() == 0 {
        0
    } else {
        tokens_that_are(checked.drop_last(), valid) + if checked.last() == valid {
            1nat
        } else {
            0nat
        }
    }
}

/// What is told of the accounts whose tokens were checked, in order.
pub open spec fn check_results(emails: Seq<Seq<char>>, checked: Seq<bool>) -> Seq<JsonModel> {
    Seq::new(
        checked.len(),
        |i: int|
            JsonModel::object().with("email"@, JsonModel::Text(emails[i])).with(
                "valid"@,
                JsonModel::Bool(checked[i]),
            ),
    )
}

/// The report on a round that checked tokens.
pub open spec fn verify_report(batch: VerifyBatchModel) -> JsonModel {
    let total = batch.emails.len() as int;
    JsonModel::object().with("ok"@, JsonModel::Bool(true)).with(
        "results"@,
        JsonModel::List(check_results(batch.emails, batch.checked)),
    ).with(
        "summary"@,
        JsonModel::object().with("total"@, JsonModel::Integer(total)).with(
            "checked"@,
            JsonModel::Integer(batch.checked.len() as int),
        ).with("valid"@, JsonModel::Integer(tokens_that_are(batch.checked, true) as int)).with(
            "refreshed"@,
            JsonModel::Integer(0),
        ).with("banned"@, JsonModel::Integer(0)).with(
            "failed"@,
            JsonModel::Integer(tokens_that_are(batch.checked, false) as int),
        ),
    ).with("concurrency"@, JsonModel::Integer(1)).with(
        "note"@,
        note(total, "帐号过多，本次仅巡检前 200 个"@),
    )
}

/// The verdict on a token that a round checked.
pub open spec fn verdict_on(valid: bool) -> VerdictModel {
    if valid {
        VerdictModel::valid()
    } else {
        VerdictModel::auth_error("Token 失效"@)
    }
}

/// Starts a round that checks tokens.
pub fn verify_all(emails: Vec<String>) -> (r: VerifyBatch)
    ensures
        r@ == (VerifyBatchModel { emails: views::seq_view(emails@), checked: seq![] }),
        r@.well_formed(),
{
    let r = VerifyBatch { emails, checked: Vec::new() };
    assert(r@.checked =~= seq![]);
    r
}

impl VerifyBatch {
    /// The place of the next account whose token is to be checked; `None` once
    /// the round is over.
    pub fn next(&self) -> (r: Option<usize>)
        requires
            self@.well_formed(),
        ensures
            (match r {
                Some(i) => !self@.finished() && i == self@.checked.len(),
                None => self@.finished(),
            }),
    {
        if self.checked.len() < get_attempted(self.emails.len()) {
            Some(self.checked.len())
        } else {
            None
        }
    }

    /// Takes down whether the next token works; the verdict is to be noted on
    /// the account.
    pub fn record(&mut self, valid: bool) -> (r: Verdict)
        requires
            old(self)@.well_formed(),
            !old(self)@.finished(),
        ensures
            final(self)@.well_formed(),
            final(self)@ == (VerifyBatchModel {
                checked: old(self)@.checked.push(valid),
                ..old(self)@
            }),
            r@ == verdict_on(valid),
            r@ == if valid {
                VerdictModel::valid()
            } else {
                VerdictModel::auth_error("Token 失效"@)
            },
    {
        self.checked.push(valid);
        if valid {
            Verdict::works()
        } else {
            Verdict::broken("Token 失效")
        }
    }

    /// The report on the round.
    pub fn report(&self) -> (r: Json)
        requires
            self@.well_formed(),
        ensures
            r@ == verify_report(self@),
    {
        let ghost all = check_results(self@.emails, self@.checked);
        let mut valid_n: usize = 0;
        let mut failed_n: usize = 0;
        let mut told: Vec<Json> = Vec::new();
        for i in 0..self.checked.len()
            invariant
                self@.well_formed(),
                all == check_results(self@.emails, self@.checked),
                valid_n == tokens_that_are(self.checked@.take(i as int), true),
                failed_n == tokens_that_are(self.checked@.take(i as int), false),
                valid_n + failed_n == i,
                json::list_model(told@) =~= all.take(i as int),
        {
            let ghost before = told@;
            let valid: bool = self.checked[i];
            told.push(
                Json::object().with("email", Json::text(self.emails[i].as_str())).with(
                    "valid",
                    Json::Bool(valid),
                ),
            );
            if valid {
                valid_n += 1;
            } else {
                failed_n += 1;
            }
            proof {
                assert(self.checked@.take(i + 1).drop_last() =~= self.checked@.take(i as int));
                assert(told@ =~= before.push(told@.last()));
                json::lemma_list_push(before, told@.last());
                assert(all.take(i + 1) =~= all.take(i as int).push(all[i as int]));
                assert(self@.emails[i as int] == self.emails@[i as int]@);
            }
        }
        assert(all.take(all.len() as int) =~= all);
        assert(self.checked@.take(self.checked@.len() as int) =~= self.checked@);
        let total: usize = self.emails.len();
        Json::object().with("ok", Json::Bool(true)).with("results", Json::List(told)).with(
            "summary",
            Json::object().with("total", Json::Unsigned(total as u64)).with(
                "checked",
                Json::Unsigned(self.checked.len() as u64),
            ).with("valid", Json::Unsigned(valid_n as u64)).with(
                "refreshed",
                Json::Unsigned(0),
            ).with("banned", Json::Unsigned(0)).with("failed", Json::Unsigned(failed_n as u64)),
        ).with("concurrency", Json::Unsigned(1)).with(
            "note",
            get_note(total, "帐号过多，本次仅巡检前 200 个"),
        )
    }
}

/// Every token of a round either works or does not.
pub proof fn law_every_token_is_counted_once(checked: Seq<bool>)
    ensures
        tokens_that_are(checked, true) + tokens_that_are(checked, false) == checked.len(),
    decreases checked.len(),
{
    if checked.len() > 0 {
        law_every_token_is_counted_once(checked.drop_last());
    }
}

/// Gives the prover the characters that tell the keys apart.
proof fn lemma_keys()
    ensures
        "ok"@.len() == 2,
        "note"@.len() == 4,
        "total"@.len() == 5 && "total"@[1] == 'o',
        "email"@.len() == 5 && "email"@[1] == 'm',
        "error"@.len() == 5 && "error"@[1] == 'r',
        "valid"@.len() == 5 && "valid"@[1] == 'a',
        "failed"@.len() == 6 && "failed"@[0] == 'f',
        "banned"@.len() == 6 && "banned"@[0] == 'b',
        "summary"@.len() == 7 && "summary"@[0] == 's',
        "results"@.len() == 7 && "results"@[0] == 'r',
        "checked"@.len() == 7 && "checked"@[0] == 'c',
        "attempted"@.len() == 9 && "attempted"@[0] == 'a',
        "refreshed"@.len() == 9 && "refreshed"@[0] == 'r',
        "concurrency"@.len() == 11,
        "skipped_no_password"@.len() == 19,
{
    reveal_strlit("ok");
    reveal_strlit("summary");
    reveal_strlit("results");
    reveal_strlit("note");
    reveal_strlit("total");
    reveal_strlit("attempted");
    reveal_strlit("refreshed");
    reveal_strlit("failed");
    reveal_strlit("skipped_no_password");
    reveal_strlit("email");
    reveal_strlit("error");
    reveal_strlit("valid");
    reveal_strlit("checked");
    reveal_strlit("banned");
    reveal_strlit("concurrency");
}

/// A round takes all accounts, but no more than two hundred.
pub proof fn law_round_takes_two_hundred_at_most(total: int)
    requires
        total >= 0,
    ensures
        attempted(total) <= total,
        attempted(total) <= 200,
        attempted(total) == total || attempted(total) == 200,
{
}

/// One outcome more is counted and told once: a skipped account is told of
/// nowhere, any other by its email and whether it was signed in, or why not.
pub proof fn law_one_outcome_more_is_told_once(
    logins: Seq<LoginModel>,
    outcomes: Seq<OutcomeModel>,
    outcome: OutcomeModel,
)
    ensures
        ({
            let more = outcomes.push(outcome);
            let email = logins[outcomes.len() as int].email;
            let before = results(logins, outcomes);
            let after = results(logins, more);
            &&& skipped(more) == skipped(outcomes) + (if outcome is Skipped {
                1int
            } else {
                0int
            })
            &&& refreshed(more) == refreshed(outcomes) + (if outcome is Refreshed {
                1int
            } else {
                0int
            })
            &&& failed(more) == failed(outcomes) + (if outcome is Failed {
                1int
            } else {
                0int
            })
            &&& outcome is Skipped ==> after == before
            &&& !(outcome is Skipped) ==> {
                &&& after.len() == before.len() + 1
                &&& after.drop_last() == before
                &&& after.last().get("email"@) == Some(JsonModel::Text(email))
                &&& after.last().get("ok"@) == Some(JsonModel::Bool(outcome is Refreshed))
                &&& after.last().get("error"@) == (match outcome {
                    OutcomeModel::Failed(error) => Some(JsonModel::Text(error)),
                    _ => None,
                })
            }
        }),
{
    lemma_keys();
    let more = outcomes.push(outcome);
    assert(more.drop_last() =~= outcomes);
    assert(more.last() == outcome);
    if !(outcome is Skipped) {
        assert(results(logins, more).drop_last() =~= results(logins, outcomes));
    }
}

/// Nothing is counted and nothing told before the first outcome.
pub proof fn law_round_starts_at_zero(logins: Seq<LoginModel>)
    ensures
        skipped(seq![]) == 0,
        refreshed(seq![]) == 0,
        failed(seq![]) == 0,
        results(logins, seq![]).len() == 0,
{
}

/// A round stands where its outcomes end: an account waits to be signed in where
/// the round is not over and the next account has a password, and the accounts
/// that were skipped are those without one.
pub proof fn law_round_goes_account_by_account(batch: ResignBatchModel)
    requires
        batch.well_formed(),
    ensures
        ({
            let done = batch.outcomes.len() as int;
            let all = if batch.logins.len() > 200 {
                200
            } else {
                batch.logins.len() as int
            };
            &&& done <= all
            &&& batch.finished() <==> done == all
            &&& batch.awaits() <==> done < all && batch.logins[done].password.len() > 0
            &&& forall|i: int|
                0 <= i < done ==> (batch.logins[i].password.len() == 0 <==> (
                #[trigger] batch.outcomes[i]) is Skipped)
        }),
{
}

/// Skipping and recording leave what was taken down, and add the rest behind it.
pub proof fn law_outcomes_are_added_behind(
    batch: ResignBatchModel,
    more: nat,
    outcome: OutcomeModel,
)
    ensures
        batch.skipping(more).logins == batch.logins,
        batch.skipping(more).outcomes.len() == batch.outcomes.len() + more,
        forall|i: int|
            0 <= i < batch.outcomes.len() ==> #[trigger] batch.skipping(more).outcomes[i]
                == batch.outcomes[i],
        forall|i: int|
            batch.outcomes.len() <= i < batch.outcomes.len() + more ==> (#[trigger] batch.skipping(
                more,
            ).outcomes[i]) is Skipped,
        batch.recorded(outcome).logins == batch.logins,
        batch.recorded(outcome).outcomes == batch.outcomes.push(outcome),
{
}

/// The report has the counts of a round, each under its own key, what is told of
/// the accounts, and a remark exactly where there are more than two hundred.
pub proof fn law_report_tells_the_round(batch: ResignBatchModel)
    ensures
        ({
            let report = resign_report(batch);
            let summary = report.get("summary"@);
            let total = batch.logins.len() as int;
            &&& report.get("ok"@) == Some(JsonModel::Bool(true))
            &&& json::member(summary, "total"@) == Some(JsonModel::Integer(total))
            &&& json::member(summary, "attempted"@) == Some(
                JsonModel::Integer(
                    if total > 200 {
                        200
                    } else {
                        total
                    },
                ),
            )
            &&& json::member(summary, "refreshed"@) == Some(
                JsonModel::Integer(refreshed(batch.outcomes) as int),
            )
            &&& json::member(summary, "failed"@) == Some(
                JsonModel::Integer(failed(batch.outcomes) as int),
            )
            &&& json::member(summary, "skipped_no_password"@) == Some(
                JsonModel::Integer(skipped(batch.outcomes) as int),
            )
            &&& report.get("results"@) == Some(
                JsonModel::List(results(batch.logins, batch.outcomes)),
            )
            &&& report.get("note"@) == Some(
                JsonModel::Text(
                    if total > 200 {
                        "帳號過多，本次僅 refresh 前 200 個；其餘由背景 worker 按 exp 過濾分批跑"@
                    } else {
                        ""@
                    },
                ),
            )
        }),
{
    lemma_keys();
}

/// One token more is counted on its side.
pub proof fn law_one_token_more_is_counted(checked: Seq<bool>, valid: bool, side: bool)
    ensures
        tokens_that_are(checked.push(valid), side) == tokens_that_are(checked, side) + (if valid
            == side {
            1int
        } else {
            0int
        }),
        tokens_that_are(seq![], side) == 0,
{
    assert(checked.push(valid).drop_last() =~= checked);
}

/// The report on checked tokens tells of each account whether its token works,
/// in order, with the counts under their own keys.
pub proof fn law_report_tells_each_token(batch: VerifyBatchModel, i: int)
    requires
        batch.well_formed(),
        0 <= i < batch.checked.len(),
    ensures
        ({
            let report = verify_report(batch);
            let summary = report.get("summary"@);
            let total = batch.emails.len() as int;
            &&& batch.checked.len() <= total && batch.checked.len() <= 200
            &&& batch.finished() <==> batch.checked.len() == total || batch.checked.len() == 200
            &&& report.get("results"@) matches Some(JsonModel::List(items)) && {
                &&& items.len() == batch.checked.len()
                &&& items[i].get("email"@) == Some(JsonModel::Text(batch.emails[i]))
                &&& items[i].get("valid"@) == Some(JsonModel::Bool(batch.checked[i]))
            }
        }),
{
    lemma_keys();
}

/// The report on checked tokens has the counts under their own keys, and a
/// remark exactly where there are more than two hundred accounts.
pub proof fn law_report_counts_the_tokens(batch: VerifyBatchModel)
    ensures
        ({
            let report = verify_report(batch);
            let summary = report.get("summary"@);
            let total = batch.emails.len() as int;
            &&& report.get("ok"@) == Some(JsonModel::Bool(true))
            &&& report.get("concurrency"@) == Some(JsonModel::Integer(1))
            &&& json::member(summary, "total"@) == Some(JsonModel::Integer(total))
            &&& json::member(summary, "checked"@) == Some(
                JsonModel::Integer(batch.checked.len() as int),
            )
            &&& json::member(summary, "valid"@) == Some(
                JsonModel::Integer(tokens_that_are(batch.checked, true) as int),
            )
            &&& json::member(summary, "failed"@) == Some(
                JsonModel::Integer(tokens_that_are(batch.checked, false) as int),
            )
            &&& json::member(summary, "refreshed"@) == Some(JsonModel::Integer(0))
            &&& json::member(summary, "banned"@) == Some(JsonModel::Integer(0))
            &&& report.get("note"@) == Some(
                JsonModel::Text(
                    if total > 200 {
                        "帐号过多，本次仅巡检前 200 个"@
                    } else {
                        ""@
                    },
                ),
            )
        }),
{
    lemma_keys();
}

/// An account whose token was checked is noted as what the check said.
pub proof fn law_checked_account_is_noted(valid: bool)
    ensures
        verdict_on(valid).valid == valid,
        verdict_on(valid).status_code == if valid {
            "valid"@
        } else {
            "auth_error"@
        },
        verdict_on(valid).error == if valid {
            ""@
        } else {
            "Token 失效"@
        },
{
}

} // verus!
