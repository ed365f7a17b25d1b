//! Grouping of table rows into the two-row units of the schedule.

use vstd::prelude::*;

verus! {

/// The cell texts of one table row, in column order, each without surrounding
/// white space.
pub type RawRow = Vec<String>;

/// The rows of a table taken two at a time, in their order. A last row without
/// a partner is left out.
pub open spec fn paired(rows: Seq<Seq<Seq<char>>>) -> Seq<(Seq<Seq<char>>, Seq<Seq<char>>)> {
    Seq::new((rows.len() / 2) as nat, |k: int| (rows[2 * k], rows[2 * k + 1]))
}

/// The rows that the pairs hold, one after the other.
pub open spec fn unpaired(pairs: Seq<(Seq<Seq<char>>, Seq<Seq<char>>)>) -> Seq<Seq<Seq<char>>> {
    Seq::new(
        2 * pairs.len(),
        |i: int|
            if i % 2 == 0 {
                pairs[i / 2].0
            } else {
                pairs[i / 2].1
            },
    )
}

/// Pairing keeps every row of an even table, in its place: laid out again,
/// the pairs are the table. Of an odd table they are the table without its
/// last row.
pub proof fn lemma_pairs_keep_rows(rows: Seq<Seq<Seq<char>>>)
    ensures
        paired(rows).len() == rows.len() / 2,
        rows.len() % 2 == 0 ==> unpaired(paired(rows)) == rows,
        rows.len() % 2 == 1 ==> paired(rows).len() == (rows.len() - 1) / 2,
        rows.len() % 2 == 1 ==> unpaired(paired(rows)) == rows.drop_last(),
        rows.len() % 2 == 1 ==> paired(rows) == paired(rows.drop_last()),
{
    let back = unpaired(paired(rows));
    assert forall|i: int| 0 <= i < back.len() implies back[i] == rows[i] by {}
}

/// What std's `str::trim` leaves of a text: the text without the white space
/// at its two ends.
pub uninterp spec fn trimmed(text: Seq<char>) -> Seq<char>;

/// Calls std's `str::trim`. Trusted: the slice that comes back holds what
/// `trimmed` names for this text.
#[verifier::external_body]
fn trim_text<'a>(text: &'a str) -> (r: &'a str)
    ensures
        r@ == trimmed(text@),
{
    text.trim()
}

/// The cell texts of a row, each without the white space at its ends.
pub open spec fn cleaned(cells: Seq<Seq<char>>) -> Seq<Seq<char>> {
    Seq::new(cells.len(), |i: int| trimmed(cells[i]))
}

/// The rows of a table, each with its cell texts cleaned.
pub open spec fn all_cleaned(rows: Seq<Seq<Seq<char>>>) -> Seq<Seq<Seq<char>>> {
    Seq::new(rows.len(), |i: int| cleaned(rows[i]))
}

/// The same items in the opposite order.
pub fn reversed<T>(items: Vec<T>) -> (turned: Vec<T>)
    ensures
        turned@ == items@.reverse(),
{
    let ghost all = items@;
    let mut items = items;
    let mut turned: Vec<T> = Vec::new();
    while items.len() > 0
        invariant
            items@ =~= all.take(items.len() as int),
            turned.len() + items.len() == all.len(),
            forall|k: int| 0 <= k < turned.len() ==> #[trigger] turned[k] == all[all.len() - 1 - k],
        decreases items.len(),
    {
        let item = items.pop().unwrap();
        turned.push(item);
    }
    turned
}

/// Takes the white space off the two ends of every cell text of a row.
pub fn clean_row(cells: &Vec<String>) -> (row: RawRow)
    ensures
        row.deep_view() == cleaned(cells.deep_view()),
{
    let mut row: RawRow = Vec::new();
    let mut i: usize = 0;
    while i < cells.len()
        invariant
            i <= cells.len(),
            row.len() == i,
            forall|k: int| 0 <= k < i ==> (#[trigger] row[k])@ == trimmed(cells[k]@),
        decreases cells.len() - i,
    {
        let text = trim_text(cells[i].as_str());
        row.push(text.to_owned());
        i += 1;
    }
    row
}

/// Cleans every row of a table.
pub fn clean_rows(rows: &Vec<Vec<String>>) -> (table: Vec<RawRow>)
    ensures
        table.deep_view() == all_cleaned(rows.deep_view()),
{
    let mut table: Vec<RawRow> = Vec::new();
    let mut i: usize = 0;
    while i < rows.len()
        invariant
            i <= rows.len(),
            table.len() == i,
            forall|k: int|
                0 <= k < i ==> (#[trigger] table[k]).deep_view() == cleaned(rows[k].deep_view()),
        decreases rows.len() - i,
    {
        let row = clean_row(&rows[i]);
        table.push(row);
        i += 1;
    }
    table
}

/// Groups the rows of a table two at a time, in their order, and drops a last
/// row that has no partner.
pub fn pair_rows(rows: Vec<RawRow>) -> (pairs: Vec<(RawRow, RawRow)>)
    ensures
        pairs.deep_view() == paired(rows.deep_view()),
        pairs.len() == rows.len() / 2,
        forall|k: int|
            0 <= k < pairs.len() ==> #[trigger] pairs[k] == (rows[2 * k], rows[2 * k + 1]),
{
    let ghost all = rows@;
    let mut rows = rows;
    if rows.len() % 2 == 1 {
        rows.pop();
    }
    let ghost even = rows@;
    let mut backwards: Vec<(RawRow, RawRow)> = Vec::new();
    while rows.len() >= 2
        invariant
            even.len() == 2 * (all.len() / 2),
            even =~= all.take(even.len() as int),
            rows.len() % 2 == 0,
            rows@ =~= even.take(rows.len() as int),
            2 * backwards.len() + rows.len() == even.len(),
            forall|k: int|
                0 <= k < backwards.len() ==> #[trigger] backwards[k] == (
                    even[even.len() - 2 - 2 * k],
                    even[even.len() - 1 - 2 * k],
                ),
        decreases rows.len(),
    {
        let second = rows.pop().unwrap();
        let first = rows.pop().unwrap();
        backwards.push((first, second));
    }
    let pairs = reversed(backwards);
    assert forall|k: int| 0 <= k < pairs.len() implies #[trigger] pairs[k] == (
        all[2 * k],
        all[2 * k + 1],
    ) by {}
    pairs
}

} // verus!
