//! The list of accounts, with search and pages.

use crate::api;
use crate::api::{Reply, ReplyModel};
use crate::json;
use crate::json::{Json, JsonModel};
use crate::number;
use crate::tally;
use crate::text;
use crate::views;
use vstd::prelude::*;

verus! {

/// An account as the list shows it.
#[derive(Debug)]
pub struct AccountEntry {
    pub email: String,
    pub username: String,
    pub status_code: String,
    /// What is shown of the account.
    pub shown: Json,
}

/// What an [`AccountEntry`] says.
#[verifier::ext_equal]
pub struct EntryModel {
    pub email: Seq<char>,
    pub username: Seq<char>,
    pub status_code: Seq<char>,
    pub shown: JsonModel,
}

impl View for AccountEntry {
    type V = EntryModel;

    open spec fn view(&self) -> EntryModel {
        EntryModel {
            email: self.email@,
            username: self.username@,
            status_code: self.status_code@,
            shown: self.shown@,
        }
    }
}

/// What a list is asked for, as the query string has it.
#[derive(Debug, Default)]
pub struct AccountQuery {
    /// Part of an email or a user name, in any case.
    pub q: Option<String>,
    pub status: Option<String>,
    /// The page, counted from one.
    pub page: Option<String>,
    pub page_size: Option<String>,
}

/// What an [`AccountQuery`] says.
#[verifier::ext_equal]
pub struct QueryModel {
    pub q: Option<Seq<char>>,
    pub status: Option<Seq<char>>,
    pub page: Option<Seq<char>>,
    pub page_size: Option<Seq<char>>,
}

impl View for AccountQuery {
    type V = QueryModel;

    open spec fn view(&self) -> QueryModel {
        QueryModel {
            q: views::option_view(self.q),
            status: views::option_view(self.status),
            page: views::option_view(self.page),
            page_size: views::option_view(self.page_size),
        }
    }
}

/// A text that may be missing, where it is not empty.
pub open spec fn not_empty(s: Option<Seq<char>>) -> Option<Seq<char>> {
    match s {
        Some(s) => if s.len() > 0 {
            Some(s)
        } else {
            None
        },
        None => None,
    }
}

/// The number in a text, where it fits a `usize`.
pub open spec fn usize_in(s: Option<Seq<char>>) -> Option<int> {
    match s {
        Some(s) => match number::unsigned_number(s) {
            Some(n) => if n <= usize::MAX {
                Some(n as int)
            } else {
                None
            },
            None => None,
        },
        None => None,
    }
}

impl QueryModel {
    /// What emails and user names are searched for.
    pub open spec fn keyword(self) -> Option<Seq<char>> {
        not_empty(
            match self.q {
                Some(s) => Some(text::lowercase(text::trimmed(s))),
                None => None,
            },
        )
    }

    /// The status that is asked for.
    pub open spec fn wanted_status(self) -> Option<Seq<char>> {
        not_empty(
            match self.status {
                Some(s) => Some(text::trimmed(s)),
                None => None,
            },
        )
    }

    /// Whether an account is among those asked for.
    pub open spec fn selects(self, entry: EntryModel) -> bool {
        &&& match self.keyword() {
            Some(keyword) => text::occurs_in(keyword, text::lowercase(entry.email))
                || text::occurs_in(keyword, text::lowercase(entry.username)),
            None => true,
        }
        &&& match self.wanted_status() {
            Some(status) => entry.status_code == status,
            None => true,
        }
    }

    /// The page, the first one where none is asked for.
    pub open spec fn page_number(self) -> int {
        match usize_in(self.page) {
            Some(n) => if n < 1 {
                1
            } else {
                n
            },
            None => 1,
        }
    }

    /// The number of accounts on a page, between one and two hundred; fifty
    /// where none is asked for.
    pub open spec fn size(self) -> int {
        match usize_in(self.page_size) {
            Some(n) => if n < 1 {
                1
            } else if n > 200 {
                200
            } else {
                n
            },
            None => 50,
        }
    }

    /// The number of accounts on the pages before the one asked for.
    pub open spec fn offset(self) -> int {
        (self.page_number() - 1) * self.size()
    }
}

/// The accounts that are asked for, in order.
pub open spec fn found(entries: Seq<EntryModel>, query: QueryModel) -> Seq<EntryModel> {
    entries.filter(|entry: EntryModel| query.selects(entry))
}

/// `size` items from `start` on, or as many as there are.
pub open spec fn window<T>(items: Seq<T>, start: int, size: int) -> Seq<T> {
    if start >= items.len() {
        seq![]
    } else if size >= items.len() - start {
        items.skip(start)
    } else {
        items.subrange(start, start + size)
    }
}

/// The status of every account.
pub open spec fn statuses(entries: Seq<EntryModel>) -> Seq<Seq<char>> {
    entries.map_values(|entry: EntryModel| entry.status_code)
}

/// What is shown of every account.
pub open spec fn shown(entries: Seq<EntryModel>) -> Seq<JsonModel> {
    entries.map_values(|entry: EntryModel| entry.shown)
}

/// The body of a list: the page asked for, how many accounts were found, and
/// how many of all accounts have each status.
pub open spec fn listing(entries: Seq<EntryModel>, query: QueryModel) -> JsonModel {
    let all = found(entries, query);
    JsonModel::object().with(
        "accounts"@,
        JsonModel::List(shown(window(all, query.offset(), query.size()))),
    ).with("total"@, JsonModel::Integer(all.len() as int)).with(
        "page"@,
        JsonModel::Integer(query.page_number()),
    ).with("page_size"@, JsonModel::Integer(query.size())).with(
        "counts"@,
        tally::counts_model(statuses(entries)),
    )
}

fn get_usize(s: &Option<String>) -> (r: Option<usize>)
    ensures
        (match r {
            Some(n) => usize_in(views::option_view(*s)) == Some(n as int),
            None => usize_in(views::option_view(*s)) is None,
        }),
{
    match s {
        Some(s) => number::parse_usize(s.as_str()),
        None => None,
    }
}

impl AccountQuery {
    fn get_keyword(&self) -> (r: Option<String>)
        ensures
            views::option_view(r) == self@.keyword(),
    {
        match &self.q {
            Some(s) => {
                let keyword = s.as_str().trim().to_lowercase();
                if keyword.as_str().is_empty() {
                    None
                } else {
                    Some(keyword)
                }
            },
            None => None,
        }
    }

    fn get_wanted_status(&self) -> (r: Option<&str>)
        ensures
            views::option_view(r) == self@.wanted_status(),
    {
        match &self.status {
            Some(s) => {
                let status = s.as_str().trim();
                if status.is_empty() {
                    None
                } else {
                    Some(status)
                }
            },
            None => None,
        }
    }

    /// The page that is asked for.
    pub fn get_page(&self) -> (r: usize)
        ensures
            r == self@.page_number(),
    {
        match get_usize(&self.page) {
            Some(n) => if n < 1 {
                1
            } else {
                n
            },
            None => 1,
        }
    }

    /// The number of accounts on a page.
    pub fn get_size(&self) -> (r: usize)
        ensures
            r == self@.size(),
            1 <= r <= 200,
    {
        match get_usize(&self.page_size) {
            Some(n) => if n < 1 {
                1
            } else if n > 200 {
                200
            } else {
                n
            },
            None => 50,
        }
    }
}

fn is_selected(entry: &AccountEntry, keyword: &Option<String>, status: Option<&str>) -> (r: bool)
    ensures
        forall|query: QueryModel|
            #![trigger query.selects(entry@)]
            query.keyword() == views::option_view(*keyword) && query.wanted_status()
                == views::option_view(status) ==> r == query.selects(entry@),
{
    let by_keyword: bool = match keyword {
        Some(keyword) => text::contains(
            entry.email.as_str().to_lowercase().as_str(),
            keyword.as_str(),
        ) || text::contains(entry.username.as_str().to_lowercase().as_str(), keyword.as_str()),
        None => true,
    };
    let by_status: bool = match status {
        Some(status) => text::same(entry.status_code.as_str(), status),
        None => true,
    };
    by_keyword && by_status
}

fn find<'a>(entries: &'a Vec<AccountEntry>, query: &AccountQuery) -> (r: Vec<&'a AccountEntry>)
    ensures
        views::seq_view(r@) == found(views::seq_view(entries@), query@),
{
    broadcast use views::lemma_seq_view_push;

    let keyword = query.get_keyword();
    let status = query.get_wanted_status();
    let ghost all = views::seq_view(entries@);
    let ghost keep = |entry: EntryModel| query@.selects(entry);
    let mut out: Vec<&'a AccountEntry> = Vec::new();
    proof {
        reveal(Seq::filter);
        assert(views::seq_view(out@) =~= all.take(0).filter(keep));
    }
    for i in 0..entries.len()
        invariant
            query@.keyword() == views::option_view(keyword),
            query@.wanted_status() == views::option_view(status),
            all == views::seq_view(entries@),
            keep == (|entry: EntryModel| query@.selects(entry)),
            views::seq_view(out@) =~= all.take(i as int).filter(keep),
    {
        proof {
            views::lemma_seq_view_take(entries@, i as int);
            assert(all.take(i as int).push(entries@[i as int]@).drop_last() =~= all.take(i as int));
            reveal(Seq::filter);
        }
        if is_selected(&entries[i], &keyword, status) {
            out.push(&entries[i]);
        }
    }
    assert(all.take(all.len() as int) =~= all);
    out
}

/// The list of accounts. Pages whose first account would have a number beyond
/// `usize` cannot be asked for.
pub fn list_accounts(entries: &Vec<AccountEntry>, query: &AccountQuery) -> (r: Json)
    requires
        query@.offset() <= usize::MAX,
    ensures
        r@ == listing(views::seq_view(entries@), query@),
{
    broadcast use views::lemma_seq_view_push;

    let ghost models = views::seq_view(entries@);
    let mut codes: Vec<String> = Vec::new();
    for i in 0..entries.len()
        invariant
            models == views::seq_view(entries@),
            views::seq_view(codes@) =~= statuses(models.take(i as int)),
    {
        proof {
            views::lemma_seq_view_take(entries@, i as int);
        }
        codes.push(entries[i].status_code.clone());
        assert(statuses(models.take(i + 1)) =~= statuses(models.take(i as int)).push(
            entries@[i as int]@.status_code,
        ));
    }
    assert(models.take(models.len() as int) =~= models);
    let all = find(entries, query);
    let ghost wanted = views::seq_view(all@);
    let page: usize = query.get_page();
    let size: usize = query.get_size();
    assert((page - 1) * size >= 0) by (nonlinear_arith)
        requires
            page >= 1,
    ;
    let start: usize = (page - 1) * size;
    let first: usize = if start < all.len() {
        start
    } else {
        all.len()
    };
    let end: usize = if size >= all.len() - first {
        all.len()
    } else {
        first + size
    };
    let ghost page_entries = window(wanted, query@.offset(), query@.size());
    assert(page_entries =~= wanted.subrange(first as int, end as int));
    let mut items: Vec<Json> = Vec::new();
    for i in first..end
        invariant
            end <= all.len(),
            wanted == views::seq_view(all@),
            page_entries == wanted.subrange(first as int, end as int),
            json::list_model(items@) =~= shown(page_entries.take(i - first)),
    {
        let ghost before = items@;
        items.push(all[i].shown.clone());
        proof {
            json::lemma_list_push(before, items@.last());
            assert(items@ =~= before.push(items@.last()));
            assert(page_entries[i - first] == all@[i as int]@);
            assert(page_entries.take(i + 1 - first) =~= page_entries.take(i - first).push(
                page_entries[i - first],
            ));
        }
    }
    assert(page_entries.take(page_entries.len() as int) =~= page_entries);
    Json::object().with("accounts", Json::List(items)).with(
        "total",
        Json::Unsigned(all.len() as u64),
    ).with("page", Json::Unsigned(page as u64)).with(
        "page_size",
        Json::Unsigned(size as u64),
    ).with("counts", tally::counts_json(&codes))
}

/// The accounts that are found are those of all accounts that are asked for.
pub proof fn law_found_are_those_asked_for(
    entries: Seq<EntryModel>,
    query: QueryModel,
    entry: EntryModel,
)
    ensures
        found(entries, query).contains(entry) <==> entries.contains(entry) && query.selects(entry),
    decreases entries.len(),
{
    let keep = |entry: EntryModel| query.selects(entry);
    reveal(Seq::filter);
    if entries.len() > 0 {
        let init = entries.drop_last();
        law_found_are_those_asked_for(init, query, entry);
        assert(entries =~= init.push(entries.last()));
        let before = found(init, query);
        assert(found(entries, query) == if keep(entries.last()) {
            before.push(entries.last())
        } else {
            before
        });
        vstd::seq_lib::lemma_seq_contains_after_push(init, entries.last(), entry);
        vstd::seq_lib::lemma_seq_contains_after_push(before, entries.last(), entry);
    }
}

/// What the first `pages` pages hold, one after the other.
pub open spec fn first_pages<T>(items: Seq<T>, size: int, pages: nat) -> Seq<T>
    decreases pages,
{
    if pages == 0 {
        seq![]
    } else {
        first_pages(items, size, (pages - 1) as nat) + window(items, (pages - 1) * size, size)
    }
}

/// Pages neither overlap nor leave a gap: one after the other they hold what
/// was found, in order, each item once.
pub proof fn law_pages_show_everything_once<T>(items: Seq<T>, size: int, pages: nat)
    requires
        size >= 1,
    ensures
        first_pages(items, size, pages) == if pages * size < items.len() {
            items.take(pages * size)
        } else {
            items
        },
    decreases pages,
{
    if pages == 0 {
        assert(0 * size == 0);
        assert(items.len() == 0 ==> items =~= seq![]);
        assert(items.take(0) =~= seq![]);
    } else {
        law_pages_show_everything_once(items, size, (pages - 1) as nat);
        let start = (pages - 1) * size;
        assert(pages * size == start + size) by (nonlinear_arith)
            requires
                start == (pages - 1) * size,
        ;
        assert(start >= 0) by (nonlinear_arith)
            requires
                start == (pages - 1) * size,
                pages >= 1,
                size >= 1,
        ;
        assert(first_pages(items, size, pages) =~= if pages * size < items.len() {
            items.take(pages * size)
        } else {
            items
        });
    }
}

/// How many accounts have each status is told of all accounts, whatever is
/// searched for and whatever page is asked for; how many were found does not
/// depend on the page.
pub proof fn law_counts_ignore_the_page(
    entries: Seq<EntryModel>,
    query: QueryModel,
    other: QueryModel,
)
    ensures
        listing(entries, query).get("counts"@) == listing(entries, other).get("counts"@),
        query.q == other.q && query.status == other.status ==> listing(entries, query).get(
            "total"@,
        ) == listing(entries, other).get("total"@),
{
    reveal_strlit("counts");
    reveal_strlit("page_size");
    reveal_strlit("page");
    reveal_strlit("total");
    assert("counts"@.len() == 6 && "page_size"@.len() == 9 && "page"@.len() == 4);
    assert("total"@.len() == 5);
    if query.q == other.q && query.status == other.status {
        assert((|entry: EntryModel| query.selects(entry)) =~= (|entry: EntryModel|
            other.selects(entry)));
    }
}

/// What the endpoint that removes an account answers.
pub fn delete_account() -> (r: Json)
    ensures
        r@ == api::ok_model(),
{
    api::ok_body()
}

/// What the endpoint that would register an account answers.
pub fn register_account() -> (r: Reply)
    ensures
        r@ == ReplyModel::NotImplemented(
            api::failure_model("自动注册功能在 Rust 版已移除，请手动注入 token"@),
        ),
{
    Reply::NotImplemented(
        api::failure_body("自动注册功能在 Rust 版已移除，请手动注入 token"),
    )
}

/// What the endpoint that would activate an account answers.
pub fn activate_account() -> (r: Reply)
    ensures
        r@ == ReplyModel::NotImplemented(
            api::failure_model(
                "激活功能需浏览器自动化，Rust 版不支持；请手动注入有效 token"@,
            ),
        ),
{
    Reply::NotImplemented(
        api::failure_body(
            "激活功能需浏览器自动化，Rust 版不支持；请手动注入有效 token",
        ),
    )
}

/// Gives the prover the characters that tell the keys apart.
proof fn lemma_keys()
    ensures
        "page"@.len() == 4,
        "total"@.len() == 5,
        "counts"@.len() == 6,
        "accounts"@.len() == 8,
        "page_size"@.len() == 9,
{
    reveal_strlit("accounts");
    reveal_strlit("total");
    reveal_strlit("page");
    reveal_strlit("page_size");
    reveal_strlit("counts");
}

/// Accounts are found one by one and stay in order. One is found where the text
/// searched for, white space around it and case aside, is empty or part of its
/// email or of its user name, and where the status asked for is empty or its
/// own.
pub proof fn law_accounts_are_found_one_by_one(
    a: Seq<EntryModel>,
    b: Seq<EntryModel>,
    entry: EntryModel,
    query: QueryModel,
)
    ensures
        found(a + b, query) == found(a, query) + found(b, query),
        found(seq![], query) == Seq::<EntryModel>::empty(),
        ({
            let by_text = match query.q {
                Some(q) => {
                    let keyword = text::lowercase(text::trimmed(q));
                    ||| keyword.len() == 0
                    ||| text::occurs_in(keyword, text::lowercase(entry.email))
                    ||| text::occurs_in(keyword, text::lowercase(entry.username))
                },
                None => true,
            };
            let by_status = match query.status {
                Some(status) => text::trimmed(status).len() == 0 || entry.status_code
                    == text::trimmed(status),
                None => true,
            };
            found(seq![entry], query) == if by_text && by_status {
                seq![entry]
            } else {
                seq![]
            }
        }),
{
    let keep = |entry: EntryModel| query.selects(entry);
    Seq::filter_distributes_over_add(a, b, keep);
    reveal(Seq::filter);
    assert(seq![entry].drop_last() =~= seq![]);
    assert(seq![entry].drop_last().filter(keep) =~= seq![]);
    assert(seq![entry].last() == entry);
    assert(found(seq![entry], query) =~= if keep(entry) {
        seq![entry]
    } else {
        seq![]
    });
}

/// Where a status is asked for, every account that is found has it, whatever
/// else is searched for; and where no text is searched for, the accounts that
/// are found are all those that have it, in order.
pub proof fn law_status_filter_always_holds(
    entries: Seq<EntryModel>,
    query: QueryModel,
    status: Seq<char>,
)
    requires
        query.status == Some(status),
        text::trimmed(status).len() > 0,
    ensures
        forall|i: int|
            0 <= i < found(entries, query).len() ==> (#[trigger] found(
                entries,
                query,
            )[i]).status_code == text::trimmed(status),
        query.q is None || text::lowercase(text::trimmed(query.q->0)).len() == 0 ==> found(
            entries,
            query,
        ) == entries.filter(|entry: EntryModel| entry.status_code == text::trimmed(status)),
    decreases entries.len(),
{
    reveal(Seq::filter);
    if entries.len() > 0 {
        let init = entries.drop_last();
        law_status_filter_always_holds(init, query, status);
        let all = found(entries, query);
        let before = found(init, query);
        assert forall|i: int| 0 <= i < all.len() implies (#[trigger] all[i]).status_code
            == text::trimmed(status) by {
            if i < before.len() {
                assert(all[i] == before[i]);
            }
        }
    }
}

/// Where neither a text nor a status is asked for, all accounts are found.
pub proof fn law_all_accounts_are_found_without_a_search(
    entries: Seq<EntryModel>,
    query: QueryModel,
)
    requires
        query.q is None || text::lowercase(text::trimmed(query.q->0)).len() == 0,
        query.status is None || text::trimmed(query.status->0).len() == 0,
    ensures
        found(entries, query) == entries,
    decreases entries.len(),
{
    reveal(Seq::filter);
    if entries.len() > 0 {
        law_all_accounts_are_found_without_a_search(entries.drop_last(), query);
        assert(found(entries, query) =~= entries);
    } else {
        assert(found(entries, query) =~= entries);
    }
}

/// The page is the number asked for, and the first where none from one on is;
/// its size is the number asked for, but at least one and at most two hundred,
/// and fifty where none is.
pub proof fn law_page_and_size_are_those_asked_for(query: QueryModel)
    ensures
        query.page_number() == (match query.page {
            Some(s) => match number::unsigned_number(s) {
                Some(n) => if 1 <= n <= usize::MAX {
                    n as int
                } else {
                    1
                },
                None => 1,
            },
            None => 1,
        }),
        query.size() == (match query.page_size {
            Some(s) => match number::unsigned_number(s) {
                Some(n) => if n == 0 {
                    1
                } else if n <= 200 {
                    n as int
                } else if n <= usize::MAX {
                    200
                } else {
                    50
                },
                None => 50,
            },
            None => 50,
        }),
        query.offset() == (query.page_number() - 1) * query.size(),
{
}

/// How many accounts have a status.
proof fn lemma_status_counted(entries: Seq<EntryModel>, code: Seq<char>)
    ensures
        tally::occurrences(statuses(entries), code) == entries.filter(
            |entry: EntryModel| entry.status_code == code,
        ).len(),
    decreases entries.len(),
{
    reveal(Seq::filter);
    if entries.len() > 0 {
        lemma_status_counted(entries.drop_last(), code);
        assert(statuses(entries).drop_last() =~= statuses(entries.drop_last()));
    }
}

/// A list shows the accounts of its page, in order: those found from the page's
/// first place on, as many as the page holds or as there are. It tells how many
/// were found, the page and its size, and for each status how many of all
/// accounts have it.
pub proof fn law_list_shows_its_page(
    entries: Seq<EntryModel>,
    query: QueryModel,
    code: Seq<char>,
    i: int,
)
    requires
        0 <= i,
    ensures
        ({
            let list = listing(entries, query);
            let all = found(entries, query);
            let first = (query.page_number() - 1) * query.size();
            let counted = entries.filter(
                |entry: EntryModel| entry.status_code == code,
            ).len() as int;
            &&& list.get("accounts"@) matches Some(JsonModel::List(items)) && {
                &&& i < items.len() <==> i < query.size() && first + i < all.len()
                &&& i < items.len() ==> items[i] == all[first + i].shown
            }
            &&& list.get("total"@) == Some(JsonModel::Integer(all.len() as int))
            &&& list.get("page"@) == Some(JsonModel::Integer(query.page_number()))
            &&& list.get("page_size"@) == Some(JsonModel::Integer(query.size()))
            &&& json::member(list.get("counts"@), code) == if counted > 0 {
                Some(JsonModel::Integer(counted))
            } else {
                None
            }
        }),
{
    lemma_keys();
    lemma_status_counted(entries, code);
    tally::law_counts_have_each_text(statuses(entries), code);
    law_page_and_size_are_those_asked_for(query);
    let all = found(entries, query);
    let first = (query.page_number() - 1) * query.size();
    assert(first >= 0) by (nonlinear_arith)
        requires
            first == (query.page_number() - 1) * query.size(),
            query.page_number() >= 1,
            query.size() >= 1,
    ;
    let page = window(all, query.offset(), query.size());
    let items = shown(page);
    assert(items.len() == page.len());
    if i < page.len() {
        assert(page[i] == all[first + i]);
        assert(items[i] == page[i].shown);
    }
}

} // verus!
