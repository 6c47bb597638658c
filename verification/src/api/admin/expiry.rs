//! How long the tokens of the accounts still last.

use crate::json;
use crate::json::{Json, JsonModel};
use crate::views;
use vstd::prelude::*;

verus! {

/// Seven days, in seconds.
pub const WEEK: i64 = 604_800;

/// Thirty days, in seconds.
pub const MONTH: i64 = 2_592_000;

/// The most emails that the sample of a summary holds.
pub const SAMPLE: usize = 30;

/// An account with its token, and the time at which the token expires where
/// the token tells.
#[derive(Debug)]
pub struct TokenEntry {
    pub email: String,
    pub token: String,
    /// Seconds since the epoch.
    pub expires: Option<i64>,
}

/// What a [`TokenEntry`] says.
#[verifier::ext_equal]
pub struct TokenModel {
    pub email: Seq<char>,
    pub token: Seq<char>,
    pub expires: Option<i64>,
}

impl View for TokenEntry {
    type V = TokenModel;

    open spec fn view(&self) -> TokenModel {
        TokenModel { email: self.email@, token: self.token@, expires: self.expires }
    }
}

/// How an account stands with its token.
#[derive(Debug, Clone, Copy, PartialEq, Eq, Structural)]
pub enum Standing {
    NoToken,
    /// The token does not tell when it expires.
    NoExpiry,
    Expired,
    WithinWeek,
    WithinMonth,
    Later,
}

impl TokenModel {
    /// The time at which the token expires, if there is one and it tells.
    pub open spec fn expiry(self) -> Option<i64> {
        if self.token.len() == 0 {
            None
        } else {
            self.expires
        }
    }

    /// How the account stands at the time `now`.
    pub open spec fn standing(self, now: i64) -> Standing {
        if self.token.len() == 0 {
            Standing::NoToken
        } else {
            match self.expires {
                None => Standing::NoExpiry,
                Some(expires) => {
                    let left = expires - now;
                    if left < 0 {
                        Standing::Expired
                    } else if left < WEEK {
                        Standing::WithinWeek
                    } else if left < MONTH {
                        Standing::WithinMonth
                    } else {
                        Standing::Later
                    }
                },
            }
        }
    }

    /// Whether the time left is a number of seconds that can be told.
    pub open spec fn fits(self, now: i64) -> bool {
        match self.expiry() {
            Some(expires) => i64::MIN <= expires - now <= i64::MAX,
            None => true,
        }
    }
}

/// How many accounts stand so.
pub open spec fn accounts_that(entries: Seq<TokenModel>, now: i64, standing: Standing) -> nat
    decreases entries.len(),
{
    if entries.len() == 0 {
        0
    } else {
        accounts_that(entries.drop_last(), now, standing) + if entries.last().standing(now)
            == standing {
            1nat
        } else {
            0nat
        }
    }
}

/// The earliest time at which a token expires.
pub open spec fn earliest(entries: Seq<TokenModel>) -> Option<i64>
    decreases entries.len(),
{
    if entries.len() == 0 {
        None
    } else {
        let init = earliest(entries.drop_last());
        match (entries.last().expiry(), init) {
            (Some(expires), Some(e)) => if expires < e {
                Some(expires)
            } else {
                init
            },
            (Some(expires), None) => Some(expires),
            (None, _) => init,
        }
    }
}

/// The emails of the first accounts whose tokens expire within a week.
pub open spec fn sample(entries: Seq<TokenModel>, now: i64) -> Seq<Seq<char>>
    decreases entries.len(),
{
    if entries.len() == 0 {
        seq![]
    } else {
        let init = sample(entries.drop_last(), now);
        if entries.last().standing(now) == Standing::WithinWeek && init.len() < SAMPLE {
            init.push(entries.last().email)
        } else {
            init
        }
    }
}

/// How many accounts stand how, and which tokens expire first.
#[derive(Debug)]
pub struct ExpirySummary {
    pub now: i64,
    pub total: usize,
    pub no_token: usize,
    pub no_exp: usize,
    pub expired: usize,
    pub within_week: usize,
    pub within_month: usize,
    pub later: usize,
    pub earliest: Option<i64>,
    pub soon: Vec<String>,
}

impl ExpirySummary {
    /// Whether this is the summary of the accounts at the time `now`.
    pub open spec fn summarizes(self, entries: Seq<TokenModel>, now: i64) -> bool {
        &&& self.now == now
        &&& self.total == entries.len()
        &&& self.no_token == accounts_that(entries, now, Standing::NoToken)
        &&& self.no_exp == accounts_that(entries, now, Standing::NoExpiry)
        &&& self.expired == accounts_that(entries, now, Standing::Expired)
        &&& self.within_week == accounts_that(entries, now, Standing::WithinWeek)
        &&& self.within_month == accounts_that(entries, now, Standing::WithinMonth)
        &&& self.later == accounts_that(entries, now, Standing::Later)
        &&& self.earliest == earliest(entries)
        &&& views::seq_view(self.soon@) == sample(entries, now)
    }
}

fn standing_of(entry: &TokenEntry, now: i64) -> (r: Standing)
    requires
        entry@.fits(now),
    ensures
        r == entry@.standing(now),
{
    if entry.token.as_str().is_empty() {
        return Standing::NoToken;
    }
    match entry.expires {
        None => Standing::NoExpiry,
        Some(expires) => {
            let left: i64 = expires - now;
            if left < 0 {
                Standing::Expired
            } else if left < WEEK {
                Standing::WithinWeek
            } else if left < MONTH {
                Standing::WithinMonth
            } else {
                Standing::Later
            }
        },
    }
}

/// Every account stands in one way and in no other: the numbers add up to all
/// accounts.
pub proof fn law_every_account_stands_somewhere(entries: Seq<TokenModel>, now: i64)
    ensures
        accounts_that(entries, now, Standing::NoToken) + accounts_that(
            entries,
            now,
            Standing::NoExpiry,
        ) + accounts_that(entries, now, Standing::Expired) + accounts_that(
            entries,
            now,
            Standing::WithinWeek,
        ) + accounts_that(entries, now, Standing::WithinMonth) + accounts_that(
            entries,
            now,
            Standing::Later,
        ) == entries.len(),
    decreases entries.len(),
{
    if entries.len() > 0 {
        law_every_account_stands_somewhere(entries.drop_last(), now);
    }
}

/// Summarizes the accounts at the time `now`.
pub fn accounts_exp_summary(entries: &Vec<TokenEntry>, now: i64) -> (r: ExpirySummary)
    requires
        forall|i: int| 0 <= i < entries@.len() ==> (#[trigger] entries@[i])@.fits(now),
    ensures
        r.summarizes(views::seq_view(entries@), now),
{
    broadcast use views::lemma_seq_view_push;

    let ghost all = views::seq_view(entries@);
    let mut r = ExpirySummary {
        now,
        total: 0,
        no_token: 0,
        no_exp: 0,
        expired: 0,
        within_week: 0,
        within_month: 0,
        later: 0,
        earliest: None,
        soon: Vec::new(),
    };
    assert(views::seq_view(r.soon@) =~= sample(all.take(0), now));
    for i in 0..entries.len()
        invariant
            all == views::seq_view(entries@),
            forall|i: int| 0 <= i < entries@.len() ==> (#[trigger] entries@[i])@.fits(now),
            r.summarizes(all.take(i as int), now),
    {
        proof {
            law_every_account_stands_somewhere(all.take(i as int), now);
            assert(all.take(i + 1).drop_last() =~= all.take(i as int));
            assert(all.take(i + 1).last() == entries@[i as int]@);
        }
        let entry: &TokenEntry = &entries[i];
        r.total = r.total + 1;
        if !entry.token.as_str().is_empty() {
            if let Some(expires) = entry.expires {
                let earlier: bool = match r.earliest {
                    Some(e) => expires < e,
                    None => true,
                };
                if earlier {
                    r.earliest = Some(expires);
                }
            }
        }
        match standing_of(entry, now) {
            Standing::NoToken => {
                r.no_token = r.no_token + 1;
            },
            Standing::NoExpiry => {
                r.no_exp = r.no_exp + 1;
            },
            Standing::Expired => {
                r.expired = r.expired + 1;
            },
            Standing::WithinWeek => {
                r.within_week = r.within_week + 1;
                if r.soon.len() < SAMPLE {
                    r.soon.push(entry.email.clone());
                }
            },
            Standing::WithinMonth => {
                r.within_month = r.within_month + 1;
            },
            Standing::Later => {
                r.later = r.later + 1;
            },
        }
        assert(views::seq_view(r.soon@) =~= sample(all.take(i + 1), now));
    }
    assert(all.take(all.len() as int) =~= all);
    r
}

impl ExpirySummary {
    /// The body of the summary. The days until the first token expires are no
    /// whole number and are given.
    pub open spec fn body_model(self, days: JsonModel) -> JsonModel {
        JsonModel::object().with("now"@, JsonModel::Integer(self.now as int)).with(
            "total"@,
            JsonModel::Integer(self.total as int),
        ).with("no_token"@, JsonModel::Integer(self.no_token as int)).with(
            "no_exp"@,
            JsonModel::Integer(self.no_exp as int),
        ).with("expired"@, JsonModel::Integer(self.expired as int)).with(
            "expiring_within_7d"@,
            JsonModel::Integer(self.within_week as int),
        ).with("expiring_within_30d"@, JsonModel::Integer(self.within_month as int)).with(
            "after_30d"@,
            JsonModel::Integer(self.later as int),
        ).with(
            "earliest_exp_unix"@,
            match self.earliest {
                Some(expires) => JsonModel::Integer(expires as int),
                None => JsonModel::Null,
            },
        ).with("earliest_exp_days_from_now"@, days).with(
            "soon_sample"@,
            json::texts_model(views::seq_view(self.soon@)),
        )
    }

    /// The body of the summary, with the days until the first token expires.
    pub fn body(&self, days: Json) -> (r: Json)
        ensures
            r@ == self.body_model(days@),
    {
        let expires: Json = match self.earliest {
            Some(expires) => Json::Signed(expires),
            None => Json::Null,
        };
        Json::object().with("now", Json::Signed(self.now)).with(
            "total",
            Json::Unsigned(self.total as u64),
        ).with("no_token", Json::Unsigned(self.no_token as u64)).with(
            "no_exp",
            Json::Unsigned(self.no_exp as u64),
        ).with("expired", Json::Unsigned(self.expired as u64)).with(
            "expiring_within_7d",
            Json::Unsigned(self.within_week as u64),
        ).with("expiring_within_30d", Json::Unsigned(self.within_month as u64)).with(
            "after_30d",
            Json::Unsigned(self.later as u64),
        ).with("earliest_exp_unix", expires).with("earliest_exp_days_from_now", days).with(
            "soon_sample",
            json::text_list(&self.soon),
        )
    }
}

/// The earliest expiry is that of some token, and no token expires before it.
pub proof fn law_no_token_expires_before_the_earliest(entries: Seq<TokenModel>)
    ensures
        (match earliest(entries) {
            Some(e) => {
                &&& exists|i: int| 0 <= i < entries.len() && (#[trigger] entries[i]).expiry() == Some(e)
                &&& forall|i: int|
                    0 <= i < entries.len() && (#[trigger] entries[i]).expiry() is Some
                        ==> e <= entries[i].expiry()->0
            },
            None => forall|i: int|
                0 <= i < entries.len() ==> (#[trigger] entries[i]).expiry() is None,
        }),
    decreases entries.len(),
{
    if entries.len() > 0 {
        let init = entries.drop_last();
        law_no_token_expires_before_the_earliest(init);
        assert(forall|i: int| 0 <= i < init.len() ==> init[i] == entries[i]);
        assert(entries[entries.len() - 1] == entries.last());
        if let Some(e) = earliest(init) {
            let i = choose|i: int| 0 <= i < init.len() && (#[trigger] init[i]).expiry() == Some(e);
            assert(entries[i].expiry() == Some(e));
        }
    }
}

/// Whether an email is that of an account whose token expires within a week.
pub open spec fn is_of_this_week(entries: Seq<TokenModel>, now: i64, email: Seq<char>) -> bool {
    exists|i: int|
        0 <= i < entries.len() && (#[trigger] entries[i]).standing(now) == Standing::WithinWeek
            && entries[i].email == email
}

/// The emails of all accounts whose tokens expire within a week, in order.
pub open spec fn emails_of_this_week(entries: Seq<TokenModel>, now: i64) -> Seq<Seq<char>>
    decreases entries.len(),
{
    if entries.len() == 0 {
        seq![]
    } else {
        let init = emails_of_this_week(entries.drop_last(), now);
        if entries.last().standing(now) == Standing::WithinWeek {
            init.push(entries.last().email)
        } else {
            init
        }
    }
}

/// The sample holds the emails of the first accounts whose tokens expire within
/// a week: all of them, or thirty where there are more.
pub proof fn law_sample_is_of_this_week(entries: Seq<TokenModel>, now: i64)
    ensures
        sample(entries, now).len() == if accounts_that(entries, now, Standing::WithinWeek)
            < 30 {
            accounts_that(entries, now, Standing::WithinWeek)
        } else {
            30
        },
        sample(entries, now).is_prefix_of(emails_of_this_week(entries, now)),
        emails_of_this_week(entries, now).len() == accounts_that(
            entries,
            now,
            Standing::WithinWeek,
        ),
        forall|k: int|
            0 <= k < sample(entries, now).len() ==> is_of_this_week(
                entries,
                now,
                #[trigger] sample(entries, now)[k],
            ),
    decreases entries.len(),
{
    if entries.len() > 0 {
        let init = entries.drop_last();
        law_sample_is_of_this_week(init, now);
        let emails = sample(entries, now);
        let all = emails_of_this_week(entries, now);
        let before = emails_of_this_week(init, now);
        assert(sample(init, now) =~= before.take(sample(init, now).len() as int));
        assert(emails =~= all.take(emails.len() as int));
        assert forall|k: int| 0 <= k < emails.len() implies is_of_this_week(
            entries,
            now,
            #[trigger] emails[k],
        ) by {
            if k < sample(init, now).len() {
                assert(sample(init, now)[k] == emails[k]);
                let i = choose|i: int|
                    0 <= i < init.len() && (#[trigger] init[i]).standing(now)
                        == Standing::WithinWeek && init[i].email == emails[k];
                assert(entries[i] == init[i]);
            } else {
                assert(entries[entries.len() - 1] == entries.last());
            }
        }
    }
}

/// Gives the prover the characters that tell the keys apart.
proof fn lemma_keys()
    ensures
        "now"@.len() == 3,
        "total"@.len() == 5,
        "no_exp"@.len() == 6,
        "expired"@.len() == 7,
        "no_token"@.len() == 8,
        "after_30d"@.len() == 9,
        "soon_sample"@.len() == 11,
        "earliest_exp_unix"@.len() == 17,
        "expiring_within_7d"@.len() == 18,
        "expiring_within_30d"@.len() == 19,
        "earliest_exp_days_from_now"@.len() == 26,
{
    reveal_strlit("now");
    reveal_strlit("total");
    reveal_strlit("no_token");
    reveal_strlit("no_exp");
    reveal_strlit("expired");
    reveal_strlit("expiring_within_7d");
    reveal_strlit("expiring_within_30d");
    reveal_strlit("after_30d");
    reveal_strlit("earliest_exp_unix");
    reveal_strlit("earliest_exp_days_from_now");
    reveal_strlit("soon_sample");
}

/// An account stands by the time that its token has left, in days of 86400
/// seconds: expired where none is left, within a week below seven days, within a
/// month below thirty, and later from then on. One without a token, or with one
/// that does not tell, stands apart.
pub proof fn law_account_stands_by_the_time_left(entry: TokenModel, now: i64)
    ensures
        entry.standing(now) == Standing::NoToken <==> entry.token.len() == 0,
        entry.standing(now) == Standing::NoExpiry <==> entry.token.len() > 0 && entry.expires
            is None,
        entry.token.len() > 0 && entry.expires is Some ==> {
            let left = entry.expires->0 - now;
            &&& entry.standing(now) == Standing::Expired <==> left < 0
            &&& entry.standing(now) == Standing::WithinWeek <==> 0 <= left < 7 * 86400
            &&& entry.standing(now) == Standing::WithinMonth <==> 7 * 86400 <= left < 30 * 86400
            &&& entry.standing(now) == Standing::Later <==> 30 * 86400 <= left
            &&& entry.fits(now) <==> i64::MIN <= left <= i64::MAX
            &&& entry.expiry() == entry.expires
        },
        entry.token.len() == 0 || entry.expires is None ==> entry.fits(now) && entry.expiry()
            is None,
{
}

/// One account more is counted once, under how it stands.
pub proof fn law_one_account_more_is_counted(
    entries: Seq<TokenModel>,
    entry: TokenModel,
    now: i64,
    standing: Standing,
)
    ensures
        accounts_that(entries.push(entry), now, standing) == accounts_that(entries, now, standing)
            + (if entry.standing(now) == standing {
            1int
        } else {
            0int
        }),
        accounts_that(seq![], now, standing) == 0,
        emails_of_this_week(entries.push(entry), now) == if entry.standing(now)
            == Standing::WithinWeek {
            emails_of_this_week(entries, now).push(entry.email)
        } else {
            emails_of_this_week(entries, now)
        },
        emails_of_this_week(seq![], now).len() == 0,
{
    assert(entries.push(entry).drop_last() =~= entries);
}

/// A summary counts the accounts under how they stand, each count in its own
/// place of the body.
pub proof fn law_summary_counts_the_accounts(
    summary: ExpirySummary,
    entries: Seq<TokenModel>,
    now: i64,
    days: JsonModel,
)
    requires
        summary.summarizes(entries, now),
    ensures
        ({
            let body = summary.body_model(days);
            let count = |standing: Standing|
                Some(JsonModel::Integer(accounts_that(entries, now, standing) as int));
            &&& body.get("now"@) == Some(JsonModel::Integer(now as int))
            &&& body.get("total"@) == Some(JsonModel::Integer(entries.len() as int))
            &&& body.get("no_token"@) == count(Standing::NoToken)
            &&& body.get("no_exp"@) == count(Standing::NoExpiry)
            &&& body.get("expired"@) == count(Standing::Expired)
            &&& body.get("expiring_within_7d"@) == count(Standing::WithinWeek)
            &&& body.get("expiring_within_30d"@) == count(Standing::WithinMonth)
            &&& body.get("after_30d"@) == count(Standing::Later)
            &&& body.get("earliest_exp_unix"@) == Some(
                match earliest(entries) {
                    Some(expires) => JsonModel::Integer(expires as int),
                    None => JsonModel::Null,
                },
            )
            &&& body.get("earliest_exp_days_from_now"@) == Some(days)
            &&& body.get("soon_sample"@) == Some(json::texts_model(sample(entries, now)))
            &&& summary.earliest == earliest(entries)
        }),
{
    lemma_keys();
}

} // verus!
