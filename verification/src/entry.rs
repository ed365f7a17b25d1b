//! Records of seven text fields, and the entries that are built from them.

use crate::instant::{clock_duration, parse_clock_duration, rfc3339_instant, Instant};
use crate::rows::{reversed, RawRow};
use vstd::prelude::*;

verus! {

/// The number of fields of a record.
pub const FIELD_COUNT: usize = 7;

/// Why a two-row unit of the schedule was left out.
#[derive(Clone, Copy, Debug, PartialEq, Eq, Structural)]
pub enum Discard {
    /// The cells of the two rows do not fill the seven fields exactly.
    MalformedRow,
    /// The start time is no date and time with offset.
    InvalidTimestamp,
}

/// The seven fields of one scheduled event, as the table gives them.
#[derive(Debug)]
pub struct Record {
    pub start_time: String,
    pub title: String,
    pub runner: String,
    pub setup_time: String,
    pub length: String,
    pub category: String,
    pub host: String,
}

/// The texts of a record.
pub struct RecordView {
    pub start_time: Seq<char>,
    pub title: Seq<char>,
    pub runner: Seq<char>,
    pub setup_time: Seq<char>,
    pub length: Seq<char>,
    pub category: Seq<char>,
    pub host: Seq<char>,
}

impl RecordView {
    /// The seven texts in the order of the fields.
    pub open spec fn fields(self) -> Seq<Seq<char>> {
        seq![
            self.start_time,
            self.title,
            self.runner,
            self.setup_time,
            self.length,
            self.category,
            self.host,
        ]
    }
}

impl View for Record {
    type V = RecordView;

    open spec fn view(&self) -> RecordView {
        RecordView {
            start_time: self.start_time@,
            title: self.title@,
            runner: self.runner@,
            setup_time: self.setup_time@,
            length: self.length@,
            category: self.category@,
            host: self.host@,
        }
    }
}

/// One scheduled event: when it starts, how long it runs and how long its
/// setup takes, where the table says so in a form that can be read, and the
/// texts that describe it.
#[derive(Debug)]
pub struct Entry {
    pub start_time: Instant,
    pub length: Option<u64>,
    pub setup_time: Option<u64>,
    pub title: String,
    pub runner: String,
    pub category: String,
    pub host: String,
}

/// An entry with its times as integers and its texts as sequences. Durations
/// are in whole seconds.
pub struct EntryView {
    pub start_time: (int, int),
    pub length: Option<int>,
    pub setup_time: Option<int>,
    pub title: Seq<char>,
    pub runner: Seq<char>,
    pub category: Seq<char>,
    pub host: Seq<char>,
}

/// A duration in seconds as an integer.
pub open spec fn seconds(duration: Option<u64>) -> Option<int> {
    match duration {
        Some(d) => Some(d as int),
        None => None,
    }
}

impl View for Entry {
    type V = EntryView;

    open spec fn view(&self) -> EntryView {
        EntryView {
            start_time: self.start_time@,
            length: seconds(self.length),
            setup_time: seconds(self.setup_time),
            title: self.title@,
            runner: self.runner@,
            category: self.category@,
            host: self.host@,
        }
    }
}

/// The record that a sequence of cell texts fills, where there are exactly
/// seven of them.
pub open spec fn filled(cells: Seq<Seq<char>>) -> Result<RecordView, Discard> {
    if cells.len() == FIELD_COUNT {
        Ok(
            RecordView {
                start_time: cells[0],
                title: cells[1],
                runner: cells[2],
                setup_time: cells[3],
                length: cells[4],
                category: cells[5],
                host: cells[6],
            },
        )
    } else {
        Err(Discard::MalformedRow)
    }
}

/// The entry that a record stands for. The start time must be readable; a
/// setup time or length that is not is absent from the entry. The four other
/// texts are taken over as they are.
pub open spec fn built(record: RecordView) -> Result<EntryView, Discard> {
    match rfc3339_instant(record.start_time) {
        Some(start) => Ok(
            EntryView {
                start_time: start,
                length: clock_duration(record.length),
                setup_time: clock_duration(record.setup_time),
                title: record.title,
                runner: record.runner,
                category: record.category,
                host: record.host,
            },
        ),
        None => Err(Discard::InvalidTimestamp),
    }
}

/// The entry that the cells of a primary and a secondary row stand for.
pub open spec fn built_from_rows(primary: Seq<Seq<char>>, secondary: Seq<Seq<char>>) -> Result<
    EntryView,
    Discard,
> {
    match filled(primary + secondary) {
        Ok(record) => built(record),
        Err(reason) => Err(reason),
    }
}

/// The outcome of building a record, with the record as its texts.
pub open spec fn record_outcome(outcome: Result<Record, Discard>) -> Result<RecordView, Discard> {
    match outcome {
        Ok(record) => Ok(record@),
        Err(reason) => Err(reason),
    }
}

/// The outcome of building an entry, with the entry as integers and texts.
pub open spec fn entry_outcome(outcome: Result<Entry, Discard>) -> Result<EntryView, Discard> {
    match outcome {
        Ok(entry) => Ok(entry@),
        Err(reason) => Err(reason),
    }
}

impl Record {
    /// Fills the seven fields with the cells of the primary row followed by
    /// those of the secondary row. Any other number of cells is a malformed
    /// row.
    pub fn from_rows(primary: RawRow, secondary: RawRow) -> (outcome: Result<Record, Discard>)
        ensures
            record_outcome(outcome) == filled(primary.deep_view() + secondary.deep_view()),
            outcome is Ok <==> primary.len() + secondary.len() == FIELD_COUNT,
    {
        let mut cells = primary;
        let mut rest = secondary;
        if cells.len() > FIELD_COUNT || rest.len() > FIELD_COUNT {
            return Err(Discard::MalformedRow);
        }
        if cells.len() + rest.len() != FIELD_COUNT {
            return Err(Discard::MalformedRow);
        }
        cells.append(&mut rest);
        let host = cells.pop().unwrap();
        let category = cells.pop().unwrap();
        let length = cells.pop().unwrap();
        let setup_time = cells.pop().unwrap();
        let runner = cells.pop().unwrap();
        let title = cells.pop().unwrap();
        let start_time = cells.pop().unwrap();
        Ok(Record { start_time, title, runner, setup_time, length, category, host })
    }
}

impl Entry {
    /// Builds the entry that a record stands for. Fails only where the start
    /// time cannot be read.
    pub fn try_from(record: Record) -> (outcome: Result<Entry, Discard>)
        ensures
            entry_outcome(outcome) == built(record@),
            outcome is Ok <==> rfc3339_instant(record.start_time@) is Some,
            outcome matches Err(reason) ==> reason == Discard::InvalidTimestamp,
            outcome matches Ok(entry) ==> {
                &&& entry.title@ == record.title@
                &&& entry.runner@ == record.runner@
                &&& entry.category@ == record.category@
                &&& entry.host@ == record.host@
                &&& seconds(entry.length) == clock_duration(record.length@)
                &&& seconds(entry.setup_time) == clock_duration(record.setup_time@)
            },
    {
        let start_time = match Instant::parse(record.start_time.as_str()) {
            Some(start) => start,
            None => {
                return Err(Discard::InvalidTimestamp);
            },
        };
        let setup_time = parse_clock_duration(record.setup_time.as_str());
        let length = parse_clock_duration(record.length.as_str());
        Ok(
            Entry {
                start_time,
                length,
                setup_time,
                title: record.title,
                runner: record.runner,
                category: record.category,
                host: record.host,
            },
        )
    }

    /// Builds the entry of one two-row unit of the schedule.
    pub fn from_rows(primary: RawRow, secondary: RawRow) -> (outcome: Result<Entry, Discard>)
        ensures
            entry_outcome(outcome) == built_from_rows(primary.deep_view(), secondary.deep_view()),
    {
        match Record::from_rows(primary, secondary) {
            Ok(record) => Entry::try_from(record),
            Err(reason) => Err(reason),
        }
    }
}

/// A record whose start time cannot be read gives no entry, and every other
/// record gives one.
pub proof fn lemma_start_time_is_required(record: RecordView)
    ensures
        rfc3339_instant(record.start_time) is None <==> built(record) == Err::<EntryView, Discard>(
            Discard::InvalidTimestamp,
        ),
        rfc3339_instant(record.start_time) is Some <==> built(record) is Ok,
{
}

/// A record whose length or setup time cannot be read still gives an entry, as
/// long as its start time can be read. The entry is then without that field
/// and has every other field as if the text had been readable.
pub proof fn lemma_durations_are_optional(record: RecordView)
    requires
        rfc3339_instant(record.start_time) is Some,
    ensures
        built(record) matches Ok(entry) && {
            &&& entry.start_time == rfc3339_instant(record.start_time)->Some_0
            &&& entry.length == clock_duration(record.length)
            &&& entry.setup_time == clock_duration(record.setup_time)
            &&& clock_duration(record.length) is None ==> entry.length is None
            &&& clock_duration(record.setup_time) is None ==> entry.setup_time is None
        },
{
}

/// The four free texts of a record are those of its entry, character for
/// character, whatever they hold.
pub proof fn lemma_texts_pass_through(record: RecordView)
    requires
        built(record) is Ok,
    ensures
        built(record) matches Ok(entry) && {
            &&& entry.title == record.title
            &&& entry.runner == record.runner
            &&& entry.category == record.category
            &&& entry.host == record.host
        },
{
}

/// The entries of a list as integers and texts.
pub open spec fn views(entries: Seq<Entry>) -> Seq<EntryView> {
    Seq::new(entries.len(), |i: int| entries[i]@)
}

/// The entry that a pair of rows stands for, or nothing where the pair is
/// left out.
pub open spec fn entry_of_pair(pair: (Seq<Seq<char>>, Seq<Seq<char>>)) -> Option<EntryView> {
    match built_from_rows(pair.0, pair.1) {
        Ok(entry) => Some(entry),
        Err(_) => None,
    }
}

/// The entries that the pairs of a table stand for, in the order of the
/// pairs, without the pairs that are left out.
pub open spec fn kept(pairs: Seq<(Seq<Seq<char>>, Seq<Seq<char>>)>) -> Seq<EntryView> {
    pairs.filter_map(|pair: (Seq<Seq<char>>, Seq<Seq<char>>)| entry_of_pair(pair))
}

/// Every entry that is kept was built from one of the pairs: none comes from
/// a pair whose cells do not fill a record, or whose start time cannot be
/// read.
pub proof fn lemma_kept_were_built(pairs: Seq<(Seq<Seq<char>>, Seq<Seq<char>>)>, entry: EntryView)
    requires
        kept(pairs).contains(entry),
    ensures
        exists|i: int|
            0 <= i < pairs.len() && #[trigger] built_from_rows(pairs[i].0, pairs[i].1) == Ok::<
                EntryView,
                Discard,
            >(entry),
        exists|i: int|
            0 <= i < pairs.len() && (#[trigger] pairs[i].0 + pairs[i].1).len() == FIELD_COUNT
                && rfc3339_instant((pairs[i].0 + pairs[i].1)[0]) == Some(entry.start_time),
{
    let keep = |pair: (Seq<Seq<char>>, Seq<Seq<char>>)| entry_of_pair(pair);
    pairs.lemma_filter_map_contains(keep, entry);
}

/// Builds the entries of a table from its pairs of rows, in their order. A
/// pair that gives no entry is left out; the others are not affected by it.
pub fn build_entries(pairs: Vec<(RawRow, RawRow)>) -> (entries: Vec<Entry>)
    ensures
        views(entries@) == kept(pairs.deep_view()),
{
    let ghost all = pairs@;
    let ghost texts = pairs.deep_view();
    let ghost keep = |pair: (Seq<Seq<char>>, Seq<Seq<char>>)| entry_of_pair(pair);
    let mut stack = reversed(pairs);
    let mut entries: Vec<Entry> = Vec::new();
    while stack.len() > 0
        invariant
            stack.len() <= all.len(),
            stack@ =~= all.reverse().take(stack.len() as int),
            texts.len() == all.len(),
            forall|j: int| 0 <= j < all.len() ==> #[trigger] texts[j] == all[j].deep_view(),
            keep == |pair: (Seq<Seq<char>>, Seq<Seq<char>>)| entry_of_pair(pair),
            views(entries@) =~= texts.take(all.len() - stack.len()).filter_map(keep),
        decreases stack.len(),
    {
        let ghost done = all.len() - stack.len();
        let pair = stack.pop().unwrap();
        proof {
            texts.lemma_filter_map_take_succ(keep, done);
        }
        match Entry::from_rows(pair.0, pair.1) {
            Ok(entry) => {
                entries.push(entry);
            },
            Err(_) => {},
        }
    }
    assert(texts.take(all.len() as int) =~= texts);
    entries
}

} // verus!
