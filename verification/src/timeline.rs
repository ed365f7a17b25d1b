//! The timeline of the entries: their order by start time, and the choice of
//! the entry that is running and the one that follows.

use crate::entry::{views, Entry, EntryView};
use crate::instant::{earlier, shifted, Instant};
use vstd::prelude::*;

verus! {

/// What can keep a refresh from showing a schedule.
#[derive(Clone, Copy, Debug, PartialEq, Eq, Structural)]
pub enum Failure {
    /// The document could not be fetched.
    FetchFailure,
    /// The document is no HTML that can be read.
    DocumentParseFailure,
    /// Every entry has ended, or there is none.
    NoCurrentEvent,
}

/// The entry that is running and the one that follows it.
#[derive(Debug)]
pub struct Selection {
    pub current: Entry,
    pub next: Option<Entry>,
}

/// The length of an entry in seconds; an entry without length has none.
pub open spec fn length_or_zero(entry: EntryView) -> int {
    match entry.length {
        Some(length) => length,
        None => 0,
    }
}

/// The end of the window of an entry: its start shifted by its length.
pub open spec fn window_end(entry: EntryView) -> (int, int) {
    shifted(entry.start_time, length_or_zero(entry))
}

/// Whether the window of an entry ends strictly after `now`.
pub open spec fn ends_after(entry: EntryView, now: (int, int)) -> bool {
    earlier(now, window_end(entry))
}

/// Whether an entry starts strictly after `now`.
pub open spec fn starts_after(entry: EntryView, now: (int, int)) -> bool {
    earlier(now, entry.start_time)
}

/// Whether entry `i` of a list stands before entry `j` in the timeline: it
/// starts earlier, or at the same instant and stands earlier in the list.
pub open spec fn comes_before(entries: Seq<EntryView>, i: int, j: int) -> bool {
    earlier(entries[i].start_time, entries[j].start_time) || (entries[i].start_time
        == entries[j].start_time && i < j)
}

/// Whether a list is in ascending order of start time.
pub open spec fn ascending(entries: Seq<EntryView>) -> bool {
    forall|k: int, l: int|
        0 <= k < l < entries.len() ==> !earlier(
            #[trigger] entries[l].start_time,
            #[trigger] entries[k].start_time,
        )
}

/// Whether `sorted` holds the entries of `entries` in timeline order, where
/// `origin[k]` is the place in `entries` of the entry at place `k` of `sorted`.
/// Every entry is kept once, and entries with the same start time keep the
/// order that they have in `entries`.
pub open spec fn is_timeline(origin: Seq<int>, entries: Seq<EntryView>, sorted: Seq<EntryView>) -> bool {
    &&& origin.len() == entries.len()
    &&& sorted.len() == entries.len()
    &&& forall|k: int|
        0 <= k < origin.len() ==> 0 <= #[trigger] origin[k] < entries.len() && sorted[k]
            == entries[origin[k]]
    &&& forall|k: int, l: int|
        0 <= k < l < origin.len() ==> comes_before(entries, #[trigger] origin[k], #[trigger] origin[l])
    &&& forall|j: int| 0 <= j < entries.len() ==> #[trigger] origin.contains(j)
}

/// Whether entry `i` is the current one at `now`: its window has not ended,
/// and it stands in the timeline before every other entry of which that holds.
pub open spec fn is_current(entries: Seq<EntryView>, now: (int, int), i: int) -> bool {
    &&& 0 <= i < entries.len()
    &&& ends_after(entries[i], now)
    &&& forall|j: int|
        0 <= j < entries.len() && j != i && ends_after(#[trigger] entries[j], now) ==> comes_before(
            entries,
            i,
            j,
        )
}

/// Whether entry `k` is the next one at `now` beside the current entry
/// `current`: it starts after `now`, and it stands in the timeline before
/// every other entry but the current one of which that holds.
pub open spec fn is_next(entries: Seq<EntryView>, now: (int, int), current: int, k: int) -> bool {
    &&& 0 <= k < entries.len()
    &&& k != current
    &&& starts_after(entries[k], now)
    &&& forall|j: int|
        0 <= j < entries.len() && j != current && j != k && starts_after(
            #[trigger] entries[j],
            now,
        ) ==> comes_before(entries, k, j)
}

/// Whether no entry but the current one starts after `now`.
pub open spec fn none_next(entries: Seq<EntryView>, now: (int, int), current: int) -> bool {
    forall|j: int|
        0 <= j < entries.len() && j != current ==> !starts_after(#[trigger] entries[j], now)
}

/// Whether every window of a list has ended at `now`.
pub open spec fn all_ended(entries: Seq<EntryView>, now: (int, int)) -> bool {
    forall|j: int| 0 <= j < entries.len() ==> !ends_after(#[trigger] entries[j], now)
}

impl Entry {
    /// Whether the window of the entry ends strictly after `now`.
    pub fn ends_after(&self, now: &Instant) -> (r: bool)
        ensures
            r == ends_after(self@, now@),
    {
        let length: u64 = match self.length {
            Some(length) => length,
            None => 0,
        };
        self.start_time.plus_is_after(length, now)
    }

    /// Whether the entry starts strictly after `now`.
    pub fn starts_after(&self, now: &Instant) -> (r: bool)
        ensures
            r == starts_after(self@, now@),
    {
        now.is_before(&self.start_time)
    }
}

/// Sorts the entries and keeps, for the proof, the place that each came from.
fn sort_with_origin(entries: Vec<Entry>) -> (r: (Vec<Entry>, Ghost<Seq<int>>))
    ensures
        is_timeline(r.1@, views(entries@), views(r.0@)),
        forall|k: int| 0 <= k < r.0.len() ==> #[trigger] r.0[k] == entries[r.1@[k]],
{
    let ghost all = entries@;
    let ghost given = views(entries@);
    let ghost total = entries@.len() as int;
    let mut entries = entries;
    let mut sorted: Vec<Entry> = Vec::new();
    let ghost mut origin: Seq<int> = Seq::empty();
    let ghost mut place: Seq<int> = Seq::new(total as nat, |j: int| 0int);
    while entries.len() > 0
        invariant
            total == all.len(),
            given == views(all),
            entries@ =~= all.take(entries.len() as int),
            sorted.len() + entries.len() == total,
            origin.len() == sorted.len(),
            place.len() == total,
            forall|k: int|
                0 <= k < origin.len() ==> entries.len() <= #[trigger] origin[k] < total
                    && sorted[k] == all[origin[k]],
            forall|k: int, l: int|
                0 <= k < l < origin.len() ==> comes_before(
                    given,
                    #[trigger] origin[k],
                    #[trigger] origin[l],
                ),
            forall|j: int|
                entries.len() <= j < total ==> 0 <= #[trigger] place[j] < origin.len()
                    && origin[place[j]] == j,
        decreases entries.len(),
    {
        let entry = entries.pop().unwrap();
        let ghost index = entries.len() as int;
        let mut at: usize = 0;
        while at < sorted.len() && sorted[at].start_time.is_before(&entry.start_time)
            invariant
                at <= sorted.len(),
                origin.len() == sorted.len(),
                given == views(all),
                0 <= index < all.len(),
                entry@ == given[index],
                forall|k: int|
                    0 <= k < origin.len() ==> index < #[trigger] origin[k] < all.len()
                        && sorted[k] == all[origin[k]],
                forall|k: int|
                    0 <= k < at ==> earlier(
                        (#[trigger] sorted[k])@.start_time,
                        entry@.start_time,
                    ),
            decreases sorted.len() - at,
        {
            at += 1;
        }
        let ghost before = origin;
        let ghost before_place = place;
        let ghost before_sorted = sorted@;
        sorted.insert(at, entry);
        proof {
            origin = before.insert(at as int, index);
            place = Seq::new(
                total as nat,
                |j: int|
                    if j == index {
                        at as int
                    } else if before_place[j] >= at {
                        before_place[j] + 1
                    } else {
                        before_place[j]
                    },
            );
            assert forall|k: int| 0 <= k < origin.len() implies index <= #[trigger] origin[k]
                < total && sorted[k] == all[origin[k]] by {}
            assert forall|k: int, l: int| 0 <= k < l < origin.len() implies comes_before(
                given,
                #[trigger] origin[k],
                #[trigger] origin[l],
            ) by {
                if k == at {
                    // The entry that stood at this place does not start before
                    // the new one, and those behind it do not start before it.
                    assert(before_sorted[at as int] == all[before[at as int]]);
                }
            }
            assert forall|j: int| index <= j < total implies 0 <= #[trigger] place[j]
                < origin.len() && origin[place[j]] == j by {}
        }
    }
    proof {
        assert forall|j: int| 0 <= j < given.len() implies #[trigger] origin.contains(j) by {
            assert(origin[place[j]] == j);
        }
        assert forall|k: int| 0 <= k < origin.len() implies 0 <= #[trigger] origin[k]
            < given.len() && views(sorted@)[k] == given[origin[k]] by {}
    }
    (sorted, Ghost(origin))
}

/// Sorts the entries into ascending order of start time. Entries that start
/// at the same instant keep the order in which they were given.
pub fn sort_entries(entries: Vec<Entry>) -> (sorted: Vec<Entry>)
    ensures
        ascending(views(sorted@)),
        exists|origin: Seq<int>|
            {
                &&& #[trigger] is_timeline(origin, views(entries@), views(sorted@))
                &&& forall|k: int|
                    0 <= k < sorted.len() ==> #[trigger] sorted[k] == entries[origin[k]]
            },
{
    let ghost given = views(entries@);
    let (sorted, Ghost(origin)) = sort_with_origin(entries);
    proof {
        lemma_timeline_ascends(origin, given, views(sorted@));
    }
    sorted
}

/// The timeline is stable: of two entries that start at the same instant, the
/// one that stands first in the timeline stood first in the list.
pub proof fn lemma_timeline_is_stable(
    origin: Seq<int>,
    entries: Seq<EntryView>,
    sorted: Seq<EntryView>,
    k: int,
    l: int,
)
    requires
        is_timeline(origin, entries, sorted),
        0 <= k < l < sorted.len(),
        sorted[k].start_time == sorted[l].start_time,
    ensures
        origin[k] < origin[l],
        0 <= origin[k] < entries.len(),
        0 <= origin[l] < entries.len(),
        sorted[k] == entries[origin[k]],
        sorted[l] == entries[origin[l]],
{
}

/// A list in timeline order ascends by start time.
pub proof fn lemma_timeline_ascends(origin: Seq<int>, entries: Seq<EntryView>, sorted: Seq<EntryView>)
    requires
        is_timeline(origin, entries, sorted),
    ensures
        ascending(sorted),
{
    assert forall|k: int, l: int| 0 <= k < l < sorted.len() implies !earlier(
        #[trigger] sorted[l].start_time,
        #[trigger] sorted[k].start_time,
    ) by {
        assert(comes_before(entries, origin[k], origin[l]));
    }
}

/// Whether entry `i` is the first of a list whose window ends after `now`.
pub open spec fn is_first_open(entries: Seq<EntryView>, now: (int, int), i: int) -> bool {
    &&& 0 <= i < entries.len()
    &&& ends_after(entries[i], now)
    &&& forall|j: int| 0 <= j < i ==> !ends_after(#[trigger] entries[j], now)
}

/// Whether entry `k` is the first of a list, entry `skip` left aside, that
/// starts after `now`.
pub open spec fn is_first_ahead(entries: Seq<EntryView>, now: (int, int), skip: int, k: int) -> bool {
    &&& 0 <= k < entries.len()
    &&& k != skip
    &&& starts_after(entries[k], now)
    &&& forall|j: int| 0 <= j < k && j != skip ==> !starts_after(#[trigger] entries[j], now)
}

/// Whether a scan of a list in its order picks entry `i` as current and, as
/// next, the entry that `k` names, or none.
pub open spec fn scan_picks(entries: Seq<EntryView>, now: (int, int), i: int, k: Option<int>) -> bool {
    &&& is_first_open(entries, now, i)
    &&& match k {
        Some(k) => is_first_ahead(entries, now, i, k),
        None => none_next(entries, now, i),
    }
}

/// Whether the choice of entry `i` as current and, as next, of the entry that
/// `k` names, or of none, is the one that the timeline asks for.
pub open spec fn timeline_picks(entries: Seq<EntryView>, now: (int, int), i: int, k: Option<int>) -> bool {
    &&& is_current(entries, now, i)
    &&& match k {
        Some(k) => is_next(entries, now, i, k),
        None => none_next(entries, now, i),
    }
}

/// Whether a selection holds entry `i` of a list as current and, as next, the
/// entry that `k` names, or none.
pub open spec fn holds(selection: Selection, entries: Seq<Entry>, i: int, k: Option<int>) -> bool {
    &&& 0 <= i < entries.len()
    &&& selection.current == entries[i]
    &&& match k {
        Some(k) => 0 <= k < entries.len() && selection.next == Some(entries[k]),
        None => selection.next is None,
    }
}

/// Scans a list in the order in which it stands. The first entry whose window
/// ends after `now` is current; of the others, the first that starts after
/// `now` is next. Fails where every window has ended.
pub fn select_in_order(entries: Vec<Entry>, now: Instant) -> (outcome: Result<Selection, Failure>)
    ensures
        outcome is Err <==> all_ended(views(entries@), now@),
        outcome matches Err(failure) ==> failure == Failure::NoCurrentEvent,
        outcome matches Ok(selection) ==> exists|i: int, k: Option<int>|
            #[trigger] scan_picks(views(entries@), now@, i, k) && holds(selection, entries@, i, k),
{
    let ghost all = entries@;
    let ghost given = views(entries@);
    let mut entries = entries;
    let mut i: usize = 0;
    while i < entries.len() && !entries[i].ends_after(&now)
        invariant
            entries@ == all,
            given == views(all),
            i <= entries.len(),
            forall|j: int| 0 <= j < i ==> !ends_after(#[trigger] given[j], now@),
        decreases entries.len() - i,
    {
        i += 1;
    }
    if i == entries.len() {
        return Err(Failure::NoCurrentEvent);
    }
    let current = entries.remove(i);
    let mut k: usize = 0;
    while k < entries.len() && !entries[k].starts_after(&now)
        invariant
            entries@ == all.remove(i as int),
            given == views(all),
            0 <= i < all.len(),
            k <= entries.len(),
            forall|j: int|
                0 <= j < k + (if k > i { 1int } else { 0int }) && j != i ==> !starts_after(
                    #[trigger] given[j],
                    now@,
                ),
        decreases entries.len() - k,
    {
        k += 1;
    }
    if k == entries.len() {
        let selection = Selection { current, next: None };
        proof {
            assert(scan_picks(given, now@, i as int, None));
        }
        return Ok(selection);
    }
    let ghost place = if k >= i {
        k + 1
    } else {
        k as int
    };
    let next = entries.remove(k);
    let selection = Selection { current, next: Some(next) };
    proof {
        assert(scan_picks(given, now@, i as int, Some(place)));
    }
    Ok(selection)
}

/// A scan of the timeline picks what the timeline asks for: the current entry
/// is the one that stands first in the timeline among those whose window has
/// not ended, and the next entry the one that stands first among the others
/// that start after `now`.
pub proof fn lemma_scan_of_timeline(
    origin: Seq<int>,
    entries: Seq<EntryView>,
    sorted: Seq<EntryView>,
    now: (int, int),
    i: int,
    k: Option<int>,
)
    requires
        is_timeline(origin, entries, sorted),
        scan_picks(sorted, now, i, k),
    ensures
        timeline_picks(
            entries,
            now,
            origin[i],
            match k {
                Some(k) => Some(origin[k]),
                None => None,
            },
        ),
{
    let current = origin[i];
    assert forall|j: int|
        0 <= j < entries.len() && j != current && ends_after(
            #[trigger] entries[j],
            now,
        ) implies comes_before(entries, current, j) by {
        assert(origin.contains(j));
    }
    match k {
        Some(k) => {
            let next = origin[k];
            assert forall|j: int|
                0 <= j < entries.len() && j != current && j != next && starts_after(
                    #[trigger] entries[j],
                    now,
                ) implies comes_before(entries, next, j) by {
                assert(origin.contains(j));
            }
        },
        None => {
            assert forall|j: int| 0 <= j < entries.len() && j != current implies !starts_after(
                #[trigger] entries[j],
                now,
            ) by {
                assert(origin.contains(j));
            }
        },
    }
}

/// Where every window of the timeline has ended, every window of the list
/// has.
pub proof fn lemma_all_ended(
    origin: Seq<int>,
    entries: Seq<EntryView>,
    sorted: Seq<EntryView>,
    now: (int, int),
)
    requires
        is_timeline(origin, entries, sorted),
    ensures
        all_ended(sorted, now) <==> all_ended(entries, now),
{
    if all_ended(sorted, now) {
        assert forall|j: int| 0 <= j < entries.len() implies !ends_after(
            #[trigger] entries[j],
            now,
        ) by {
            assert(origin.contains(j));
        }
    }
    if all_ended(entries, now) {
        assert forall|l: int| 0 <= l < sorted.len() implies !ends_after(
            #[trigger] sorted[l],
            now,
        ) by {
            assert(sorted[l] == entries[origin[l]]);
        }
    }
}

/// The place of the current entry at `now`, or nothing where there is none.
pub open spec fn current_index(entries: Seq<EntryView>, now: (int, int)) -> Option<int> {
    if exists|i: int| is_current(entries, now, i) {
        Some(choose|i: int| is_current(entries, now, i))
    } else {
        None
    }
}

/// The place of the next entry at `now` beside the current entry `current`,
/// or nothing where there is none.
pub open spec fn next_index(entries: Seq<EntryView>, now: (int, int), current: int) -> Option<int> {
    if exists|k: int| is_next(entries, now, current, k) {
        Some(choose|k: int| is_next(entries, now, current, k))
    } else {
        None
    }
}

/// The current and the next entry at `now`, or nothing where every window
/// has ended.
pub open spec fn selected(entries: Seq<EntryView>, now: (int, int)) -> Option<
    (EntryView, Option<EntryView>),
> {
    match current_index(entries, now) {
        Some(i) => Some(
            (
                entries[i],
                match next_index(entries, now, i) {
                    Some(k) => Some(entries[k]),
                    None => None,
                },
            ),
        ),
        None => None,
    }
}

/// The entries of a selection as integers and texts; nothing for a failure.
pub open spec fn selection_view(outcome: Result<Selection, Failure>) -> Option<
    (EntryView, Option<EntryView>),
> {
    match outcome {
        Ok(selection) => Some(
            (
                selection.current@,
                match selection.next {
                    Some(next) => Some(next@),
                    None => None,
                },
            ),
        ),
        Err(_) => None,
    }
}

/// There is one choice that the timeline asks for and no other: two entries
/// cannot each stand before the other.
pub proof fn lemma_picks_are_unique(entries: Seq<EntryView>, now: (int, int), i: int, k: Option<int>)
    requires
        timeline_picks(entries, now, i, k),
    ensures
        current_index(entries, now) == Some(i),
        next_index(entries, now, i) == k,
{
}

/// Where every window has ended there is no current entry, and where there is
/// no current entry every window has ended.
pub proof fn lemma_none_current(entries: Seq<EntryView>, now: (int, int))
    requires
        all_ended(entries, now),
    ensures
        current_index(entries, now) is None,
        selected(entries, now) is None,
{
}

/// Picks the current and the next entry at `now`. The entries may stand in any
/// order. Current is the entry whose window has not ended and that starts
/// first; next is, of the other entries, the one that starts first after
/// `now`. Of entries that start at the same instant the one that stands first
/// in the list goes first. Fails where every window has ended.
pub fn select(entries: Vec<Entry>, now: Instant) -> (outcome: Result<Selection, Failure>)
    ensures
        outcome is Err <==> all_ended(views(entries@), now@),
        outcome matches Err(failure) ==> failure == Failure::NoCurrentEvent,
        outcome matches Ok(selection) ==> exists|i: int, k: Option<int>|
            #[trigger] timeline_picks(views(entries@), now@, i, k) && holds(
                selection,
                entries@,
                i,
                k,
            ),
        selection_view(outcome) == selected(views(entries@), now@),
{
    let ghost given = views(entries@);
    let (sorted, Ghost(origin)) = sort_with_origin(entries);
    let ghost ordered = sorted@;
    let outcome = select_in_order(sorted, now);
    proof {
        lemma_all_ended(origin, given, views(ordered), now@);
        if outcome is Ok {
            let selection = outcome->Ok_0;
            let (i, k) = choose|i: int, k: Option<int>|
                #[trigger] scan_picks(views(ordered), now@, i, k) && holds(selection, ordered, i, k);
            lemma_scan_of_timeline(origin, given, views(ordered), now@, i, k);
            let from = match k {
                Some(k) => Some(origin[k]),
                None => None,
            };
            lemma_picks_are_unique(given, now@, origin[i], from);
        } else {
            lemma_none_current(given, now@);
        }
    }
    outcome
}

} // verus!
