//! Reasoning increments: the upstream sends either increments or the whole
//! reasoning so far, and clients get increments.

use crate::text;
use crate::views;
use vstd::prelude::*;

verus! {

/// What was sent of the reasoning so far.
#[derive(Debug)]
pub struct ReasoningTracker {
    pub emitted: String,
}

impl View for ReasoningTracker {
    type V = Seq<char>;

    open spec fn view(&self) -> Seq<char> {
        self.emitted@
    }
}

/// The increment to send: of cumulative reasoning what goes beyond the text
/// sent so far, or all of it where it does not continue that text; else the
/// incremental reasoning as it is.
pub open spec fn increment(
    emitted: Seq<char>,
    cumulative: Option<Seq<char>>,
    incremental: Seq<char>,
) -> Seq<char> {
    match cumulative {
        Some(full) => if emitted.is_prefix_of(full) {
            full.skip(emitted.len() as int)
        } else {
            full
        },
        None => incremental,
    }
}

/// What has been sent after that increment.
pub open spec fn emitted_next(
    emitted: Seq<char>,
    cumulative: Option<Seq<char>>,
    incremental: Seq<char>,
) -> Seq<char> {
    match cumulative {
        Some(full) => full,
        None => emitted + incremental,
    }
}

impl ReasoningTracker {
    /// Nothing sent yet.
    pub fn new() -> (r: ReasoningTracker)
        ensures
            r@ == Seq::<char>::empty(),
    {
        ReasoningTracker { emitted: String::new() }
    }

    /// Takes in the reasoning of one delta and gives the increment to send.
    pub fn delta(&mut self, cumulative: &Option<String>, incremental: &str) -> (r: String)
        ensures
            r@ == increment(old(self)@, views::option_view(*cumulative), incremental@),
            final(self)@ == emitted_next(
                old(self)@,
                views::option_view(*cumulative),
                incremental@,
            ),
    {
        match cumulative {
            Some(full) => {
                let inc: String = match text::strip_prefix(full.as_str(), self.emitted.as_str()) {
                    Some(rest) => {
                        assert(full@.skip(self.emitted@.len() as int) =~= rest@);
                        rest.to_owned()
                    },
                    None => full.clone(),
                };
                self.emitted = full.clone();
                inc
            },
            None => {
                if incremental.is_empty() {
                    assert(self.emitted@ + incremental@ =~= self.emitted@);
                    assert(incremental@ =~= Seq::empty());
                    String::new()
                } else {
                    self.emitted.append(incremental);
                    incremental.to_owned()
                }
            },
        }
    }
}

/// The reasoning that one delta carries: its cumulative and its incremental
/// part.
pub type Reasoning = (Option<Seq<char>>, Seq<char>);

/// What has been sent after a run of deltas.
pub open spec fn emitted_after(deltas: Seq<Reasoning>) -> Seq<char>
    decreases deltas.len(),
{
    if deltas.len() == 0 {
        seq![]
    } else {
        emitted_next(emitted_after(deltas.drop_last()), deltas.last().0, deltas.last().1)
    }
}

/// The increments of a run of deltas, end to end: the reasoning as a client
/// sees it.
pub open spec fn received_after(deltas: Seq<Reasoning>) -> Seq<char>
    decreases deltas.len(),
{
    if deltas.len() == 0 {
        seq![]
    } else {
        received_after(deltas.drop_last()) + increment(
            emitted_after(deltas.drop_last()),
            deltas.last().0,
            deltas.last().1,
        )
    }
}

/// Every cumulative text continues what came before it.
pub open spec fn grows(deltas: Seq<Reasoning>) -> bool
    decreases deltas.len(),
{
    deltas.len() == 0 || {
        &&& grows(deltas.drop_last())
        &&& deltas.last().0 matches Some(full) ==> emitted_after(
            deltas.drop_last(),
        ).is_prefix_of(full)
    }
}

/// Nothing is lost and nothing is sent twice: while cumulative reasoning only
/// grows, the increments end to end are the reasoning itself.
pub proof fn law_increments_rebuild_the_reasoning(deltas: Seq<Reasoning>)
    requires
        grows(deltas),
    ensures
        received_after(deltas) == emitted_after(deltas),
    decreases deltas.len(),
{
    if deltas.len() > 0 {
        law_increments_rebuild_the_reasoning(deltas.drop_last());
        let before = emitted_after(deltas.drop_last());
        if let Some(full) = deltas.last().0 {
            assert(before + full.skip(before.len() as int) =~= full);
        }
    }
}

/// Repeating a cumulative text sends nothing.
pub proof fn law_repeated_reasoning_sends_nothing(full: Seq<char>, incremental: Seq<char>)
    ensures
        increment(full, Some(full), incremental).len() == 0,
{
}

/// What was sent before and the increment make up cumulative reasoning that
/// continues it; reasoning that does not is sent whole; without any, the
/// increment is the incremental reasoning, and that adds to what was sent.
pub proof fn law_increment_completes_what_was_sent(
    emitted: Seq<char>,
    full: Seq<char>,
    incremental: Seq<char>,
)
    ensures
        emitted.is_prefix_of(full) ==> emitted + increment(emitted, Some(full), incremental)
            == full,
        !emitted.is_prefix_of(full) ==> increment(emitted, Some(full), incremental) == full,
        emitted_next(emitted, Some(full), incremental) == full,
        increment(emitted, None, incremental) == incremental,
        emitted_next(emitted, None, incremental) == emitted + incremental,
{
    if emitted.is_prefix_of(full) {
        assert(emitted + full.skip(emitted.len() as int) =~= full);
    }
}

} // verus!
