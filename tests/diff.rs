use deet::diff::{diff_lines, lcs, DiffLine};
use deet::grid::{Grid, OutOfBounds};

fn lines(s: &str) -> Vec<String> {
    s.chars().map(|c| c.to_string()).collect()
}

#[test]
fn test_lcs() {
    let mut expected = Grid::new(5, 4);
    expected.set(1, 1, 1).unwrap();
    expected.set(1, 2, 1).unwrap();
    expected.set(1, 3, 1).unwrap();
    expected.set(2, 1, 1).unwrap();
    expected.set(2, 2, 1).unwrap();
    expected.set(2, 3, 2).unwrap();
    expected.set(3, 1, 1).unwrap();
    expected.set(3, 2, 1).unwrap();
    expected.set(3, 3, 2).unwrap();
    expected.set(4, 1, 1).unwrap();
    expected.set(4, 2, 2).unwrap();
    expected.set(4, 3, 2).unwrap();

    let result = lcs(
        &"abcd".chars().map(|c| c.to_string()).collect(),
        &"adb".chars().map(|c| c.to_string()).collect(),
    );
    assert_eq!(result.size(), expected.size());
    for row in 0..expected.size().0 {
        for col in 0..expected.size().1 {
            assert_eq!(result.get(row, col), expected.get(row, col));
        }
    }
}

#[test]
fn lcs_of_empty_lists_is_one_zero_cell() {
    let t = lcs(&Vec::new(), &Vec::new());
    assert_eq!(t.size(), (1, 1));
    assert_eq!(t.get(0, 0), Some(0));
}

#[test]
fn lcs_of_equal_lists_is_their_length() {
    let a = lines("xyz");
    let t = lcs(&a, &a);
    assert_eq!(t.get(3, 3), Some(3));
    assert_eq!(t.get(3, 0), Some(0));
}

#[test]
fn grid_rejects_out_of_range_cells() {
    let mut g = Grid::new(2, 3);
    assert_eq!(g.set(2, 0, 7), Err(OutOfBounds));
    assert_eq!(g.set(0, 3, 7), Err(OutOfBounds));
    assert_eq!(g.get(2, 0), None);
    assert_eq!(g.set(1, 2, 7), Ok(()));
    assert_eq!(g.get(1, 2), Some(7));
    g.clear();
    assert_eq!(g.get(1, 2), Some(0));
}

#[test]
fn diff_marks_common_added_and_removed_lines() {
    let a = lines("abcd");
    let b = lines("adb");
    let t = lcs(&a, &b);
    let d = diff_lines(&t, &a, &b);
    assert_eq!(
        d,
        vec![
            DiffLine::Common(0, 0),
            DiffLine::Removed(1),
            DiffLine::Removed(2),
            DiffLine::Common(3, 1),
            DiffLine::Added(2),
        ]
    );
}

#[test]
fn diff_of_identical_lists_is_all_common() {
    let a = lines("ab");
    let t = lcs(&a, &a);
    assert_eq!(diff_lines(&t, &a, &a), vec![DiffLine::Common(0, 0), DiffLine::Common(1, 1)]);
}

#[test]
fn diff_against_empty_list_adds_everything() {
    let a: Vec<String> = Vec::new();
    let b = lines("pq");
    let t = lcs(&a, &b);
    assert_eq!(diff_lines(&t, &a, &b), vec![DiffLine::Added(0), DiffLine::Added(1)]);
}
