//! Where the date changes in a list of entries.

use crate::entry::{DateEntry, EntryView};
use crate::number::{decimal_digits, decimal_text};
use vstd::prelude::*;
use vstd::string::StringExecFns;

verus! {

/// A place in a list where two neighbouring entries have different dates.
#[derive(Clone, Copy, Debug)]
pub struct Transition<'a> {
    /// Position of `included` in the list, counted from 1: the number of
    /// entries that are kept when the list is cut here.
    pub rank: usize,
    /// The last entry that is kept.
    pub included: &'a DateEntry,
    /// The entry after it, the first that is left out.
    pub excluded: &'a DateEntry,
}

/// Whether the entries at positions `i` and `i + 1`, counted from 0, have
/// different dates.
pub open spec fn date_changes_at(entries: Seq<EntryView>, i: int) -> bool {
    0 <= i && i + 1 < entries.len() && entries[i].date != entries[i + 1].date
}

/// Whether the date changes at no position from `from` up to, but not
/// including, `to`.
pub open spec fn dates_constant(entries: Seq<EntryView>, from: int, to: int) -> bool {
    forall|j: int| from <= j < to ==> !date_changes_at(entries, j)
}

/// Whether `i` is the first position at or after `skip` where the date
/// changes.
pub open spec fn is_first_change(entries: Seq<EntryView>, skip: int, i: int) -> bool {
    skip <= i && date_changes_at(entries, i) && dates_constant(entries, skip, i)
}

/// The line that shows an entry with its position in the list.
pub open spec fn position_line(position: nat, entry: EntryView) -> Seq<char> {
    "    "@ + decimal_digits(position) + ": "@ + entry.date + " "@ + entry.entry
}

/// The two lines that show a transition: the last entry that is kept, then
/// the first that is left out.
pub open spec fn transition_text(rank: nat, included: EntryView, excluded: EntryView) -> Seq<char> {
    position_line(rank, included) + "\n"@ + position_line(rank + 1, excluded)
}

/// Writes the line that shows an entry with its position in the list.
fn write_position_line(position: u128, entry: &DateEntry) -> (text: String)
    ensures
        text@ == position_line(position as nat, entry@),
{
    String::from_str("    ").concat(decimal_text(position).as_str()).concat(": ").concat(
        entry.date.as_str(),
    ).concat(" ").concat(entry.entry.as_str())
}

impl<'a> Transition<'a> {
    /// Whether the two entries have different dates and the rank is a
    /// position.
    pub open spec fn wf(self) -> bool {
        self.rank >= 1 && self.included@.date != self.excluded@.date
    }

    /// Whether this is the place in `entries` where the date changes
    /// between the positions `rank - 1` and `rank`, counted from 0.
    pub open spec fn is_at(self, entries: Seq<EntryView>) -> bool {
        &&& date_changes_at(entries, self.rank - 1)
        &&& self.included@ == entries[self.rank - 1]
        &&& self.excluded@ == entries[self.rank as int]
    }

    /// The two lines that show this transition.
    pub fn to_string(&self) -> (text: String)
        ensures
            text@ == transition_text(self.rank as nat, self.included@, self.excluded@),
    {
        let position = self.rank as u128;
        write_position_line(position, self.included).concat("\n").concat(
            write_position_line(position + 1, self.excluded).as_str(),
        )
    }

    /// Whether this is the first place in `entries` where the date changes
    /// when the pairs that start before position `skip` are left out.
    pub open spec fn is_found(self, entries: Seq<EntryView>, skip: int) -> bool {
        self.is_at(entries) && is_first_change(entries, skip, self.rank - 1)
    }
}

/// Finds the first pair of neighbours with different dates, leaving out the
/// pairs that start before position `target_count`, counted from 0. There is
/// none where the list has fewer than `target_count + 2` entries, or where
/// the date stays the same from that position on.
pub fn find_transition(items: &[DateEntry], target_count: usize) -> (res: Option<Transition<'_>>)
    ensures
        match res {
            Some(found) => found.is_found(items.deep_view(), target_count as int) && found.wf(),
            None => dates_constant(items.deep_view(), target_count as int, items.len() as int),
        },
{
    let n = items.len();
    let mut i = target_count;
    while i < n && n - i > 1
        invariant
            n == items.len(),
            target_count <= i,
            dates_constant(items.deep_view(), target_count as int, i as int),
        decreases n - i,
    {
        let first = &items[i];
        let second = &items[i + 1];
        if first.date != second.date {
            return Some(Transition { rank: i + 1, included: first, excluded: second });
        }
        i += 1;
    }
    None
}

/// A search finds a transition exactly where the date changes somewhere at
/// or after the position it starts from.
pub proof fn lemma_found_iff_date_changes(entries: Seq<EntryView>, skip: usize)
    ensures
        (exists|i: int| is_first_change(entries, skip as int, i)) <==> !dates_constant(
            entries,
            skip as int,
            entries.len() as int,
        ),
{
    if !dates_constant(entries, skip as int, entries.len() as int) {
        let j = choose|j: int| skip <= j < entries.len() && date_changes_at(entries, j);
        lemma_first_change_exists(entries, skip as int, j);
    }
}

/// Where the date changes at `j`, there is a first change at or after
/// `skip`.
proof fn lemma_first_change_exists(entries: Seq<EntryView>, skip: int, j: int)
    requires
        skip <= j,
        date_changes_at(entries, j),
    ensures
        exists|i: int| is_first_change(entries, skip, i),
    decreases j - skip,
{
    if dates_constant(entries, skip, j) {
        assert(is_first_change(entries, skip, j));
    } else {
        let earlier = choose|e: int| skip <= e < j && date_changes_at(entries, e);
        lemma_first_change_exists(entries, skip, earlier);
    }
}

/// Two searches of one list: the one that skips more finds a transition of
/// the same or a higher rank.
pub proof fn lemma_search_monotonic(
    entries: Seq<EntryView>,
    a: usize,
    b: usize,
    found_a: Transition,
    found_b: Transition,
)
    requires
        a < b,
        found_a.is_found(entries, a as int),
        found_b.is_found(entries, b as int),
    ensures
        found_a.rank <= found_b.rank,
{
}

/// A transition that a search finds lies between two entries with
/// different dates.
pub proof fn lemma_found_dates_differ(entries: Seq<EntryView>, skip: usize, found: Transition)
    requires
        found.is_found(entries, skip as int),
    ensures
        found.included@.date != found.excluded@.date,
        skip < found.rank < entries.len(),
{
}

/// Two searches that skip the same number of pairs find the same place.
pub proof fn lemma_search_unique(
    entries: Seq<EntryView>,
    skip: usize,
    first: Transition,
    second: Transition,
)
    requires
        first.is_found(entries, skip as int),
        second.is_found(entries, skip as int),
    ensures
        first.rank == second.rank,
        first.included@ == second.included@,
        first.excluded@ == second.excluded@,
{
}

/// A search that starts after `skip` but before the rank of the transition
/// found from `skip` finds that transition again.
pub proof fn lemma_search_repeats(
    entries: Seq<EntryView>,
    skip: usize,
    later: usize,
    found: Transition,
)
    requires
        found.is_found(entries, skip as int),
        skip <= later < found.rank,
    ensures
        found.is_found(entries, later as int),
{
}

} // verus!
