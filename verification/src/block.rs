//! The schedule block: what it shows, and how one refresh changes it.

use crate::entry::{build_entries, kept, EntryView};
use crate::instant::Instant;
use crate::rows::{all_cleaned, clean_rows, pair_rows, paired};
use crate::timeline::{select, selected, selection_view, Failure, Selection};
use vstd::prelude::*;

verus! {

/// The seconds between two refreshes where the configuration names none.
pub const DEFAULT_INTERVAL: u64 = 20;

/// The configuration of the block.
#[derive(Debug, Clone)]
pub struct GDQConfig {
    /// Update interval in seconds.
    pub interval: u64,
    /// Format override.
    pub format: Option<String>,
}

impl Default for GDQConfig {
    fn default() -> (config: Self)
        ensures
            config.interval == DEFAULT_INTERVAL,
            config.format is None,
    {
        GDQConfig { interval: DEFAULT_INTERVAL, format: None }
    }
}

/// What the bar shows for the block: a text and the name of an icon.
#[derive(Debug)]
pub struct Label {
    pub text: String,
    pub icon: String,
}

/// The schedule block.
pub struct GDQ {
    id: usize,
    text: Label,
    format: String,
    update_interval: u64,
}

/// The state of a block as plain values.
pub struct GDQState {
    pub id: usize,
    pub text: Seq<char>,
    pub icon: Seq<char>,
    pub format: Seq<char>,
    pub update_interval: u64,
}

/// The text of a block that has not been refreshed.
pub open spec fn initial_text() -> Seq<char> {
    "N/A"@
}

/// The text of a block whose refresh failed.
pub open spec fn error_text() -> Seq<char> {
    "ERR"@
}

/// The name of the icon of the block.
pub open spec fn icon_name() -> Seq<char> {
    "joystick"@
}

/// The format of a block whose configuration overrides none.
pub open spec fn default_format() -> Seq<char> {
    "{name}"@
}

/// The format that a configuration asks for.
pub open spec fn format_of(config: GDQConfig) -> Seq<char> {
    match config.format {
        Some(format) => format@,
        None => default_format(),
    }
}

/// The text for a current title and the title of the next entry, if any.
pub open spec fn label_text(current: Seq<char>, next: Option<Seq<char>>) -> Seq<char> {
    current + " -> "@ + match next {
        Some(title) => title,
        None => "None"@,
    }
}

/// The text for a choice of entries; the error text where there is none.
pub open spec fn text_of(choice: Option<(EntryView, Option<EntryView>)>) -> Seq<char> {
    match choice {
        Some((current, next)) => label_text(
            current.title,
            match next {
                Some(next) => Some(next.title),
                None => None,
            },
        ),
        None => error_text(),
    }
}

/// The entries that the rows of a table stand for: the rows are cleaned,
/// paired and built, in their order.
pub open spec fn schedule(rows: Seq<Seq<Seq<char>>>) -> Seq<EntryView> {
    kept(paired(all_cleaned(rows)))
}

/// The choice of entries that one refresh comes to at `now`, from the rows of
/// the table or the failure to get them.
pub open spec fn refreshed(source: Result<Vec<Vec<String>>, Failure>, now: (int, int)) -> Option<
    (EntryView, Option<EntryView>),
> {
    match source {
        Ok(rows) => selected(schedule(rows.deep_view()), now),
        Err(_) => None,
    }
}

/// The failure that one refresh ends in, where it ends in one: the failure to
/// get the rows, or that no entry is current.
pub open spec fn failure_of(source: Result<Vec<Vec<String>>, Failure>) -> Failure {
    match source {
        Ok(_) => Failure::NoCurrentEvent,
        Err(failure) => failure,
    }
}

/// One refresh without the block: from the rows of the table, with the cell
/// texts as the document has them, to the current and the next entry at
/// `now`. A failure to get the rows is handed on.
pub fn refresh(source: Result<Vec<Vec<String>>, Failure>, now: Instant) -> (outcome: Result<
    Selection,
    Failure,
>)
    ensures
        selection_view(outcome) == refreshed(source, now@),
        outcome matches Err(failure) ==> failure == failure_of(source),
{
    match source {
        Ok(rows) => {
            let table = clean_rows(&rows);
            let pairs = pair_rows(table);
            let entries = build_entries(pairs);
            select(entries, now)
        },
        Err(failure) => Err(failure),
    }
}

/// The text that the block shows for the outcome of a refresh.
pub fn render(outcome: &Result<Selection, Failure>) -> (text: String)
    ensures
        text@ == text_of(selection_view(*outcome)),
{
    match outcome {
        Ok(selection) => {
            let mut text = selection.current.title.clone();
            text.append(" -> ");
            match &selection.next {
                Some(next) => text.append(next.title.as_str()),
                None => text.append("None"),
            }
            text
        },
        Err(_) => "ERR".to_owned(),
    }
}

impl GDQ {
    /// The state of the block as plain values.
    pub closed spec fn state(&self) -> GDQState {
        GDQState {
            id: self.id,
            text: self.text.text@,
            icon: self.text.icon@,
            format: self.format@,
            update_interval: self.update_interval,
        }
    }

    /// A block that has not been refreshed.
    pub fn new(id: usize, block_config: GDQConfig) -> (block: GDQ)
        ensures
            block.state() == (GDQState {
                id,
                text: initial_text(),
                icon: icon_name(),
                format: format_of(block_config),
                update_interval: block_config.interval,
            }),
    {
        let format = match block_config.format {
            Some(format) => format,
            None => "{name}".to_owned(),
        };
        GDQ {
            id,
            text: Label { text: "N/A".to_owned(), icon: "joystick".to_owned() },
            format,
            update_interval: block_config.interval,
        }
    }

    /// Refreshes the block at `now` and returns the seconds to wait before
    /// the next refresh. The block then shows the titles of the current and
    /// the next entry, or the error text where the rows could not be had or
    /// no entry is current. Nothing else of the block changes.
    pub fn update_at(&mut self, source: Result<Vec<Vec<String>>, Failure>, now: Instant) -> (interval:
        u64)
        ensures
            interval == old(self).state().update_interval,
            final(self).state() == (GDQState {
                text: text_of(refreshed(source, now@)),
                ..old(self).state()
            }),
    {
        let outcome = refresh(source, now);
        self.text.text = render(&outcome);
        self.update_interval
    }

    /// Refreshes the block at the reading of the system clock, which must not
    /// stand before the year 1970.
    pub fn update(&mut self, source: Result<Vec<Vec<String>>, Failure>) -> (interval: u64)
        ensures
            interval == old(self).state().update_interval,
            exists|now: (int, int)|
                final(self).state() == (GDQState {
                    text: #[trigger] text_of(refreshed(source, now)),
                    ..old(self).state()
                }),
    {
        let now = Instant::now();
        self.update_at(source, now)
    }

    /// What the bar shows for the block.
    pub fn view(&self) -> (widgets: Vec<&Label>)
        ensures
            widgets.len() == 1,
            widgets[0].text@ == self.state().text,
            widgets[0].icon@ == self.state().icon,
    {
        vec![&self.text]
    }

    /// The number of the block.
    pub fn id(&self) -> (id: usize)
        ensures
            id == self.state().id,
    {
        self.id
    }

    /// The format of the block.
    pub fn format(&self) -> (format: &str)
        ensures
            format@ == self.state().format,
    {
        self.format.as_str()
    }

    /// The seconds between two refreshes.
    pub fn update_interval(&self) -> (interval: u64)
        ensures
            interval == self.state().update_interval,
    {
        self.update_interval
    }
}

} // verus!
