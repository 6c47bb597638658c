//! The statistics of requests.

use crate::api::{AppError, ErrorModel, Reply, ReplyModel};
use crate::json::{Json, JsonModel};
use crate::number;
use crate::text;
use crate::views;
use vstd::prelude::*;

verus! {

/// The time that a range covers and the time that one point of a series
/// stands for, in milliseconds; `None` for a range that covers all time.
pub open spec fn known_range(range: Seq<char>) -> Option<(i64, i64)> {
    if range == "1h"@ {
        Some((3_600_000, 60_000))
    } else if range == "6h"@ {
        Some((21_600_000, 300_000))
    } else if range == "24h"@ {
        Some((86_400_000, 900_000))
    } else if range == "7d"@ {
        Some((604_800_000, 7_200_000))
    } else {
        None
    }
}

/// Where a range starts that ends at `now`.
pub open spec fn start_of(range: Seq<char>, now_ms: i64) -> int {
    match known_range(range) {
        Some((span, _)) => now_ms - span,
        None => 0,
    }
}

/// The time that one point of a series stands for.
pub open spec fn bucket_of(range: Seq<char>) -> i64 {
    match known_range(range) {
        Some((_, bucket)) => bucket,
        None => 86_400_000,
    }
}

/// The range that is asked for, a day where none is.
pub open spec fn range_of(range: Option<Seq<char>>) -> Seq<char> {
    match range {
        Some(range) => range,
        None => "24h"@,
    }
}

/// What statistics are asked for.
#[derive(Debug, PartialEq, Eq)]
pub struct StatsWindow {
    pub range: String,
    pub since_ms: i64,
    pub bucket_ms: i64,
}

fn get_range(range: &str) -> (r: Option<(i64, i64)>)
    ensures
        r == known_range(range@),
{
    if text::same(range, "1h") {
        Some((3_600_000, 60_000))
    } else if text::same(range, "6h") {
        Some((21_600_000, 300_000))
    } else if text::same(range, "24h") {
        Some((86_400_000, 900_000))
    } else if text::same(range, "7d") {
        Some((604_800_000, 7_200_000))
    } else {
        None
    }
}

/// The statistics that a range asks for at the time `now_ms`.
pub fn stats_window(range: Option<&str>, now_ms: i64) -> (r: StatsWindow)
    requires
        start_of(range_of(views::option_view(range)), now_ms) >= i64::MIN,
    ensures
        r.range@ == range_of(views::option_view(range)),
        r.since_ms == start_of(r.range@, now_ms),
        r.bucket_ms == bucket_of(r.range@),
{
    let range: &str = match range {
        Some(range) => range,
        None => "24h",
    };
    match get_range(range) {
        Some((span, bucket)) => StatsWindow {
            range: range.to_owned(),
            since_ms: now_ms - span,
            bucket_ms: bucket,
        },
        None => StatsWindow { range: range.to_owned(), since_ms: 0, bucket_ms: 86_400_000 },
    }
}

/// What came of a query for statistics.
#[derive(Debug)]
pub enum QueryResult {
    Found(Json),
    /// The query failed.
    Failed(String),
    /// The task that ran the query did not finish.
    Aborted(String),
}

/// What a [`QueryResult`] says.
#[verifier::ext_equal]
pub enum QueryResultModel {
    Found(JsonModel),
    Failed(Seq<char>),
    Aborted(Seq<char>),
}

impl View for QueryResult {
    type V = QueryResultModel;

    open spec fn view(&self) -> QueryResultModel {
        match self {
            QueryResult::Found(found) => QueryResultModel::Found(found@),
            QueryResult::Failed(error) => QueryResultModel::Failed(error@),
            QueryResult::Aborted(error) => QueryResultModel::Aborted(error@),
        }
    }
}

/// The answer to a query for recent requests.
pub open spec fn recent_reply(result: QueryResultModel) -> ReplyModel {
    match result {
        QueryResultModel::Found(found) => ReplyModel::Body(found),
        QueryResultModel::Failed(error) => ReplyModel::internal("統計查詢失敗: "@ + error),
        QueryResultModel::Aborted(error) => ReplyModel::internal("統計任務失敗: "@ + error),
    }
}

/// The answer to a query for recent requests.
pub fn stats_recent(result: QueryResult) -> (r: Reply)
    ensures
        r@ == recent_reply(result@),
{
    match result {
        QueryResult::Found(found) => Reply::Body(found),
        QueryResult::Failed(error) => {
            let mut message = "統計查詢失敗: ".to_owned();
            message.append(error.as_str());
            Reply::Refused(AppError::Internal(message))
        },
        QueryResult::Aborted(error) => {
            let mut message = "統計任務失敗: ".to_owned();
            message.append(error.as_str());
            Reply::Refused(AppError::Internal(message))
        },
    }
}

/// The answer to a query for statistics: what was found, where it is an object
/// with the range and the number of records that were dropped.
pub open spec fn stats_reply(
    result: QueryResultModel,
    range: Seq<char>,
    dropped: u64,
) -> ReplyModel {
    match result {
        QueryResultModel::Found(found) => ReplyModel::Body(
            found.with("range"@, JsonModel::Text(range)).with(
                "dropped"@,
                JsonModel::Integer(dropped as int),
            ),
        ),
        _ => recent_reply(result),
    }
}

/// The answer to a query for statistics.
pub fn stats(result: QueryResult, range: &str, dropped: u64) -> (r: Reply)
    ensures
        r@ == stats_reply(result@, range@, dropped),
{
    match result {
        QueryResult::Found(found) => Reply::Body(
            found.with("range", Json::text(range)).with("dropped", Json::Unsigned(dropped)),
        ),
        other => stats_recent(other),
    }
}

/// The limit in a text, or `fallback` where it is missing or no number that
/// fits an `i64`.
pub open spec fn limit_or(limit: Option<Seq<char>>, fallback: i64) -> i64 {
    match limit {
        Some(s) => match number::signed_number(s) {
            Some(n) => if i64::MIN <= n <= i64::MAX {
                n as i64
            } else {
                fallback
            },
            None => fallback,
        },
        None => fallback,
    }
}

/// The limit in a text, or `fallback`.
pub(crate) fn get_limit_or(limit: Option<&str>, fallback: i64) -> (r: i64)
    ensures
        r == limit_or(views::option_view(limit), fallback),
{
    match limit {
        Some(s) => match number::parse_i64(s) {
            Some(n) => n,
            None => fallback,
        },
        None => fallback,
    }
}

/// How many recent requests are asked for.
pub fn recent_limit(limit: Option<&str>) -> (r: i64)
    ensures
        r == limit_or(views::option_view(limit), 50),
{
    get_limit_or(limit, 50)
}

/// A series over a known range has whole points, and at most a hundred.
pub proof fn law_series_has_at_most_a_hundred_points(range: Seq<char>, now_ms: i64)
    requires
        known_range(range) is Some,
    ensures
        (now_ms - start_of(range, now_ms)) % (bucket_of(range) as int) == 0,
        0 < (now_ms - start_of(range, now_ms)) / (bucket_of(range) as int) <= 100,
{
    assert(3_600_000int % 60_000 == 0 && 3_600_000int / 60_000 == 60);
    assert(21_600_000int % 300_000 == 0 && 21_600_000int / 300_000 == 72);
    assert(86_400_000int % 900_000 == 0 && 86_400_000int / 900_000 == 96);
    assert(604_800_000int % 7_200_000 == 0 && 604_800_000int / 7_200_000 == 84);
    let span = now_ms - start_of(range, now_ms);
    if range == "1h"@ {
        assert(span == 3_600_000);
    } else if range == "6h"@ {
        assert(span == 21_600_000);
    } else if range == "24h"@ {
        assert(span == 86_400_000);
    } else {
        assert(span == 604_800_000);
    }
}

/// Gives the prover the characters that tell the keys apart.
proof fn lemma_keys()
    ensures
        "1h"@.len() == 2 && "1h"@[0] == '1',
        "6h"@.len() == 2 && "6h"@[0] == '6',
        "7d"@.len() == 2 && "7d"@[0] == '7',
        "24h"@.len() == 3,
        "range"@.len() == 5,
        "dropped"@.len() == 7,
{
    reveal_strlit("1h");
    reveal_strlit("6h");
    reveal_strlit("24h");
    reveal_strlit("7d");
    reveal_strlit("range");
    reveal_strlit("dropped");
}

/// A range reaches back from now by the hours or days of its name, with points
/// of one, five and fifteen minutes and of two hours; any other range starts at
/// zero, with points of a day. The range is a day where none is asked for.
pub proof fn law_range_reaches_back_by_its_name(range: Seq<char>, now_ms: i64)
    ensures
        ({
            let minute = 60 * 1000;
            let hour = 60 * minute;
            let day = 24 * hour;
            &&& start_of("1h"@, now_ms) == now_ms - hour && bucket_of("1h"@) == minute
            &&& start_of("6h"@, now_ms) == now_ms - 6 * hour && bucket_of("6h"@) == 5 * minute
            &&& start_of("24h"@, now_ms) == now_ms - day && bucket_of("24h"@) == 15 * minute
            &&& start_of("7d"@, now_ms) == now_ms - 7 * day && bucket_of("7d"@) == 2 * hour
            &&& range != "1h"@ && range != "6h"@ && range != "24h"@ && range != "7d"@ ==> start_of(
                range,
                now_ms,
            ) == 0 && bucket_of(range) == day
            &&& range_of(None) == "24h"@
            &&& range_of(Some(range)) == range
        }),
{
    lemma_keys();
}

/// What was found is answered; to statistics the range and the number of dropped
/// records are added, and nothing else changes. A query that failed and a task
/// that did are told apart.
pub proof fn law_what_was_found_is_answered(
    found: JsonModel,
    error: Seq<char>,
    range: Seq<char>,
    dropped: u64,
    key: Seq<char>,
)
    ensures
        recent_reply(QueryResultModel::Found(found)) == ReplyModel::Body(found),
        (match stats_reply(QueryResultModel::Found(found), range, dropped) {
            ReplyModel::Body(body) => {
                &&& found is Object ==> {
                    &&& body.get("range"@) == Some(JsonModel::Text(range))
                    &&& body.get("dropped"@) == Some(JsonModel::Integer(dropped as int))
                    &&& key != "range"@ && key != "dropped"@ ==> body.get(key) == found.get(key)
                }
                &&& !(found is Object) ==> body == found
            },
            _ => false,
        }),
        recent_reply(QueryResultModel::Failed(error)) == ReplyModel::Refused(
            ErrorModel::Internal("統計查詢失敗: "@ + error),
        ),
        recent_reply(QueryResultModel::Aborted(error)) == ReplyModel::Refused(
            ErrorModel::Internal("統計任務失敗: "@ + error),
        ),
        stats_reply(QueryResultModel::Failed(error), range, dropped) == recent_reply(
            QueryResultModel::Failed(error),
        ),
        stats_reply(QueryResultModel::Aborted(error), range, dropped) == recent_reply(
            QueryResultModel::Aborted(error),
        ),
{
    lemma_keys();
}

/// A limit is the number that is given, where that fits an `i64`, and else the
/// fallback.
pub proof fn law_limit_is_the_number_given(limit: Option<Seq<char>>, fallback: i64)
    ensures
        limit is Some && number::signed_number(limit->0) is Some && i64::MIN
            <= number::signed_number(limit->0)->0 <= i64::MAX ==> limit_or(limit, fallback)
            == number::signed_number(limit->0)->0,
        limit is None || number::signed_number(limit->0) is None || !(i64::MIN
            <= number::signed_number(limit->0)->0 <= i64::MAX) ==> limit_or(limit, fallback)
            == fallback,
{
}

} // verus!
