//! Counting how often each text of a run occurs.

use crate::json::{Json, JsonModel};
use crate::text;
use crate::views;
use vstd::prelude::*;

verus! {

/// How often a text occurs in a run of texts.
pub open spec fn occurrences(texts: Seq<Seq<char>>, wanted: Seq<char>) -> nat
    decreases texts.len(),
{
    if texts.len() == 0 {
        0
    } else {
        occurrences(texts.drop_last(), wanted) + if texts.last() == wanted {
            1nat
        } else {
            0nat
        }
    }
}

proof fn lemma_occurrences_bound(texts: Seq<Seq<char>>, wanted: Seq<char>)
    ensures
        occurrences(texts, wanted) <= texts.len(),
        occurrences(texts, wanted) > 0 <==> texts.contains(wanted),
    decreases texts.len(),
{
    if texts.len() > 0 {
        let init = texts.drop_last();
        lemma_occurrences_bound(init, wanted);
        if init.contains(wanted) {
            let k = choose|k: int| 0 <= k < init.len() && init[k] == wanted;
            assert(texts[k] == wanted);
        }
        if texts.last() == wanted {
            assert(texts[texts.len() - 1] == wanted);
        }
        if texts.contains(wanted) && texts.last() != wanted {
            let k = choose|k: int| 0 <= k < texts.len() && texts[k] == wanted;
            assert(init[k] == wanted);
        }
    }
}

/// Whether a table lists every text of a run once, in order, with how often it
/// occurs.
pub open spec fn tallies(table: Seq<(String, usize)>, texts: Seq<Seq<char>>) -> bool {
    &&& forall|i: int, j: int|
        0 <= i < j < table.len() ==> text::precedes(
            #[trigger] table[i].0@,
            #[trigger] table[j].0@,
        )
    &&& forall|i: int|
        0 <= i < table.len() ==> #[trigger] table[i].1 == occurrences(texts, table[i].0@)
            && table[i].1 > 0
    &&& forall|wanted: Seq<char>|
        occurrences(texts, wanted) > 0 ==> exists|i: int|
            0 <= i < table.len() && #[trigger] table[i].0@ == wanted
}

/// One occurrence more of a text that the table has.
proof fn lemma_tally_counted(
    before: Seq<(String, usize)>,
    after: Seq<(String, usize)>,
    at: int,
    seen: Seq<Seq<char>>,
    text: Seq<char>,
)
    requires
        tallies(before, seen),
        0 <= at < before.len(),
        before[at].0@ == text,
        after == before.update(at, after[at]),
        after[at].0@ == text,
        after[at].1 == before[at].1 + 1,
    ensures
        tallies(after, seen.push(text)),
{
    let more = seen.push(text);
    assert(more.drop_last() =~= seen);
    assert forall|k: int| 0 <= k < after.len() implies #[trigger] after[k].0@ == before[k].0@ by {}
    assert forall|i: int, j: int| 0 <= i < j < after.len() implies text::precedes(
        #[trigger] after[i].0@,
        #[trigger] after[j].0@,
    ) by {
        assert(text::precedes(before[i].0@, before[j].0@));
    }
    assert forall|k: int| 0 <= k < after.len() implies #[trigger] after[k].1 == occurrences(
        more,
        after[k].0@,
    ) && after[k].1 > 0 by {
        if k != at {
            assert(after[k] == before[k]);
            if k < at {
                assert(text::precedes(before[k].0@, before[at].0@));
            } else {
                assert(text::precedes(before[at].0@, before[k].0@));
            }
            text::lemma_precedes_irreflexive(text);
        }
    }
    assert forall|wanted: Seq<char>| occurrences(more, wanted) > 0 implies exists|k: int|
        0 <= k < after.len() && #[trigger] after[k].0@ == wanted by {
        if wanted == text {
            assert(after[at].0@ == wanted);
        } else {
            assert(occurrences(seen, wanted) == occurrences(more, wanted));
            let k = choose|k: int| 0 <= k < before.len() && #[trigger] before[k].0@ == wanted;
            assert(after[k].0@ == wanted);
        }
    }
}

/// The first occurrence of a text.
proof fn lemma_tally_inserted(
    before: Seq<(String, usize)>,
    after: Seq<(String, usize)>,
    at: int,
    seen: Seq<Seq<char>>,
    text: Seq<char>,
)
    requires
        tallies(before, seen),
        0 <= at <= before.len(),
        forall|k: int| 0 <= k < at ==> text::precedes(#[trigger] before[k].0@, text),
        forall|k: int| at <= k < before.len() ==> text::precedes(text, #[trigger] before[k].0@),
        after.len() == before.len() + 1,
        after == before.insert(at, after[at]),
        after[at].0@ == text,
        after[at].1 == 1,
    ensures
        tallies(after, seen.push(text)),
{
    let more = seen.push(text);
    assert(more.drop_last() =~= seen);
    text::lemma_precedes_irreflexive(text);
    assert forall|k: int| 0 <= k < before.len() implies #[trigger] before[k].0@ != text by {}
    assert(occurrences(seen, text) == 0);
    assert(forall|k: int| 0 <= k < at ==> #[trigger] after[k] == before[k]);
    assert(forall|k: int| at < k < after.len() ==> #[trigger] after[k] == before[k - 1]);
    assert forall|i: int, j: int| 0 <= i < j < after.len() implies text::precedes(
        #[trigger] after[i].0@,
        #[trigger] after[j].0@,
    ) by {
        let x = if i < at {
            i
        } else {
            i - 1
        };
        let y = if j < at {
            j
        } else {
            j - 1
        };
        if i != at && j != at {
            assert(text::precedes(before[x].0@, before[y].0@));
        } else if i == at {
            assert(text::precedes(text, before[y].0@));
        } else {
            assert(text::precedes(before[x].0@, text));
        }
    }
    assert forall|k: int| 0 <= k < after.len() implies #[trigger] after[k].1 == occurrences(
        more,
        after[k].0@,
    ) && after[k].1 > 0 by {
        if k < at {
            assert(before[k].0@ != text);
            assert(before[k].1 == occurrences(seen, before[k].0@));
        } else if k > at {
            assert(before[k - 1].0@ != text);
            assert(before[k - 1].1 == occurrences(seen, before[k - 1].0@));
        }
    }
    assert forall|wanted: Seq<char>| occurrences(more, wanted) > 0 implies exists|k: int|
        0 <= k < after.len() && #[trigger] after[k].0@ == wanted by {
        if wanted == text {
            assert(after[at].0@ == wanted);
        } else {
            assert(occurrences(seen, wanted) == occurrences(more, wanted));
            let k = choose|k: int| 0 <= k < before.len() && #[trigger] before[k].0@ == wanted;
            if k < at {
                assert(after[k].0@ == wanted);
            } else {
                assert(after[k + 1].0@ == wanted);
            }
        }
    }
}

/// Every text of a run once, in order, with how often it occurs.
pub fn tally(texts: &Vec<String>) -> (r: Vec<(String, usize)>)
    ensures
        tallies(r@, views::seq_view(texts@)),
{
    let ghost all = views::seq_view(texts@);
    let mut table: Vec<(String, usize)> = Vec::new();
    for n in 0..texts.len()
        invariant
            all == views::seq_view(texts@),
            tallies(table@, all.take(n as int)),
    {
        let text: &str = texts[n].as_str();
        let ghost seen = all.take(n as int);
        proof {
            assert(all.take(n + 1).drop_last() =~= seen);
            assert(all.take(n + 1).last() == text@);
        }
        let mut i: usize = 0;
        while i < table.len() && text::is_before(table[i].0.as_str(), text)
            invariant
                i <= table.len(),
                forall|k: int| 0 <= k < i ==> text::precedes(#[trigger] table@[k].0@, text@),
            decreases table.len() - i,
        {
            i += 1;
        }
        let ghost before = table@;
        if i < table.len() && text::same(table[i].0.as_str(), text) {
            proof {
                lemma_occurrences_bound(seen, text@);
            }
            let count: usize = table[i].1;
            let (name, _) = table.remove(i);
            table.insert(i, (name, count + 1));
            assert(table@ =~= before.update(i as int, table@[i as int]));
            assert(table@[i as int].0@ == before[i as int].0@);
            proof {
                lemma_tally_counted(before, table@, i as int, seen, text@);
            }
        } else {
            proof {
                if i < before.len() {
                    text::lemma_precedes_total(before[i as int].0@, text@);
                }
                assert forall|k: int| i <= k < before.len() implies text::precedes(
                    text@,
                    #[trigger] before[k].0@,
                ) by {
                    if k > i {
                        text::lemma_precedes_transitive(text@, before[i as int].0@, before[k].0@);
                    }
                }
            }
            table.insert(i, (text.to_owned(), 1));
            proof {
                lemma_tally_inserted(before, table@, i as int, seen, text@);
            }
        }
        assert(all.take(n + 1) =~= seen.push(text@));
    }
    assert(all.take(all.len() as int) =~= all);
    table
}

/// An object with the number of occurrences of every text of a run.
pub open spec fn counts_model(texts: Seq<Seq<char>>) -> JsonModel {
    JsonModel::Object(
        Map::new(
            |s: Seq<char>| texts.contains(s),
            |s: Seq<char>| JsonModel::Integer(occurrences(texts, s) as int),
        ),
    )
}

/// An object with the number of occurrences of every text of a run.
pub fn counts_json(texts: &Vec<String>) -> (r: Json)
    ensures
        r@ == counts_model(views::seq_view(texts@)),
{
    let ghost all = views::seq_view(texts@);
    let table = tally(texts);
    let mut out = Json::object();
    for n in 0..table.len()
        invariant
            tallies(table@, all),
            out@ is Object,
            forall|i: int|
                0 <= i < n ==> out@->Object_0.contains_key(#[trigger] table@[i].0@)
                    && out@->Object_0[table@[i].0@] == JsonModel::Integer(table@[i].1 as int),
            forall|s: Seq<char>| #[trigger]
                out@->Object_0.contains_key(s) ==> exists|i: int|
                    0 <= i < n && #[trigger] table@[i].0@ == s,
    {
        let ghost before = out@->Object_0;
        let count: usize = table[n].1;
        out = out.with(table[n].0.as_str(), Json::Unsigned(count as u64));
        proof {
            let key = table@[n as int].0@;
            let value = JsonModel::Integer(count as int);
            assert(out@->Object_0 == before.insert(key, value));
            assert forall|s: Seq<char>| #[trigger]
                out@->Object_0.contains_key(s) implies exists|i: int|
                0 <= i < n + 1 && #[trigger] table@[i].0@ == s by {
                if s == key {
                    assert(table@[n as int].0@ == s);
                } else {
                    assert(before.contains_key(s));
                }
            }
        }
    }
    proof {
        let goal = counts_model(all)->Object_0;
        assert forall|s: Seq<char>|
            out@->Object_0.contains_key(s) == #[trigger] goal.contains_key(s) by {
            lemma_occurrences_bound(all, s);
            if out@->Object_0.contains_key(s) {
                let i = choose|i: int| 0 <= i < table@.len() && #[trigger] table@[i].0@ == s;
                assert(table@[i].1 == occurrences(all, s));
            }
            if all.contains(s) {
                let i = choose|i: int| 0 <= i < table@.len() && #[trigger] table@[i].0@ == s;
                assert(out@->Object_0.contains_key(table@[i].0@));
            }
        }
        assert forall|s: Seq<char>| #[trigger] goal.contains_key(s) implies out@->Object_0[s]
            == goal[s] by {
            assert(out@->Object_0.contains_key(s));
            let i = choose|i: int| 0 <= i < table@.len() && #[trigger] table@[i].0@ == s;
            assert(table@[i].1 == occurrences(all, s));
        }
        assert(out@->Object_0 =~= goal);
    }
    out
}

/// Occurrences add up: those in two runs in a row are those in the first and
/// those in the second, and in a run of one text that text occurs once.
pub proof fn law_occurrences_add_up(
    a: Seq<Seq<char>>,
    b: Seq<Seq<char>>,
    text: Seq<char>,
    wanted: Seq<char>,
)
    ensures
        occurrences(a + b, wanted) == occurrences(a, wanted) + occurrences(b, wanted),
        occurrences(seq![text], wanted) == if text == wanted {
            1nat
        } else {
            0nat
        },
        occurrences(seq![], wanted) == 0,
    decreases b.len(),
{
    assert(seq![text].drop_last() =~= seq![]);
    assert(occurrences(seq![text].drop_last(), wanted) == 0);
    if b.len() == 0 {
        assert(a + b =~= a);
    } else {
        law_occurrences_add_up(a, b.drop_last(), text, wanted);
        assert((a + b).drop_last() =~= a + b.drop_last());
    }
}

/// The counts have a member for each text that occurs, and for no other.
pub proof fn law_counts_have_each_text(texts: Seq<Seq<char>>, wanted: Seq<char>)
    ensures
        counts_model(texts).get(wanted) == if texts.contains(wanted) {
            Some(JsonModel::Integer(occurrences(texts, wanted) as int))
        } else {
            None
        },
        occurrences(texts, wanted) > 0 <==> texts.contains(wanted),
{
    lemma_occurrences_bound(texts, wanted);
}

/// A tally has each text of a run in one place, with the number of times it
/// occurs, and no other text; its texts stand in order.
pub proof fn law_tally_has_each_text_once(
    table: Seq<(String, usize)>,
    texts: Seq<Seq<char>>,
    wanted: Seq<char>,
)
    requires
        tallies(table, texts),
    ensures
        texts.contains(wanted) <==> exists|i: int|
            0 <= i < table.len() && #[trigger] table[i].0@ == wanted,
        forall|i: int|
            0 <= i < table.len() && #[trigger] table[i].0@ == wanted ==> table[i].1
                == occurrences(texts, wanted),
        forall|i: int, j: int|
            0 <= i < j < table.len() ==> text::precedes(
                #[trigger] table[i].0@,
                #[trigger] table[j].0@,
            ),
{
    lemma_occurrences_bound(texts, wanted);
    if exists|i: int| 0 <= i < table.len() && #[trigger] table[i].0@ == wanted {
        let i = choose|i: int| 0 <= i < table.len() && #[trigger] table[i].0@ == wanted;
        assert(table[i].1 == occurrences(texts, wanted));
    }
}

} // verus!
