use gdq_schedule::rows::{clean_row, clean_rows, pair_rows, reversed};

fn row(cells: &[&str]) -> Vec<String> {
    cells.iter().map(|cell| cell.to_string()).collect()
}

#[test]
fn pairs_even_number_of_rows_in_order() {
    let rows = vec![row(&["a"]), row(&["b"]), row(&["c"]), row(&["d"])];
    let pairs = pair_rows(rows);
    assert_eq!(pairs.len(), 2);
    assert_eq!(pairs[0], (row(&["a"]), row(&["b"])));
    assert_eq!(pairs[1], (row(&["c"]), row(&["d"])));
}

#[test]
fn drops_last_row_of_odd_number() {
    let rows = vec![row(&["a"]), row(&["b"]), row(&["c"]), row(&["d"]), row(&["e"])];
    let pairs = pair_rows(rows);
    assert_eq!(pairs.len(), 2);
    assert_eq!(pairs[0], (row(&["a"]), row(&["b"])));
    assert_eq!(pairs[1], (row(&["c"]), row(&["d"])));
}

#[test]
fn pairs_of_no_rows_and_of_one_row_are_none() {
    assert_eq!(pair_rows(Vec::new()).len(), 0);
    assert_eq!(pair_rows(vec![row(&["only"])]).len(), 0);
}

#[test]
fn pairing_keeps_duplicates_and_cells() {
    let rows = vec![row(&["x", "y"]), row(&["x", "y"]), row(&[]), row(&["z"])];
    let pairs = pair_rows(rows);
    assert_eq!(pairs.len(), 2);
    assert_eq!(pairs[0], (row(&["x", "y"]), row(&["x", "y"])));
    assert_eq!(pairs[1], (row(&[]), row(&["z"])));
}

#[test]
fn pairs_many_rows() {
    let rows: Vec<Vec<String>> = (0..101).map(|i| vec![i.to_string()]).collect();
    let pairs = pair_rows(rows);
    assert_eq!(pairs.len(), 50);
    for k in 0..50 {
        assert_eq!(pairs[k].0, vec![(2 * k).to_string()]);
        assert_eq!(pairs[k].1, vec![(2 * k + 1).to_string()]);
    }
}

#[test]
fn reversed_turns_the_order() {
    assert_eq!(reversed(vec![1, 2, 3]), vec![3, 2, 1]);
    assert_eq!(reversed(Vec::<u8>::new()), Vec::<u8>::new());
    assert_eq!(reversed(vec!["a".to_string()]), vec!["a".to_string()]);
}

#[test]
fn clean_row_trims_both_ends_of_each_cell() {
    let cells = row(&["  a b ", "\n\tc\r\n", "d", "", "   "]);
    assert_eq!(clean_row(&cells), row(&["a b", "c", "d", "", ""]));
}

#[test]
fn clean_rows_keeps_rows_and_cells_in_place() {
    let rows = vec![row(&[" a ", "b "]), row(&[]), row(&[" c"])];
    assert_eq!(clean_rows(&rows), vec![row(&["a", "b"]), row(&[]), row(&["c"])]);
}
