use picross::hints::{column_hint, row_hint};
use picross::runs::line_runs;
use picross::text::{join_runs, push_decimal};

const T: bool = true;
const F: bool = false;

#[test]
fn runs_of_an_empty_line() {
    assert_eq!(line_runs(&Vec::new()), Vec::<usize>::new());
}

#[test]
fn runs_without_filled_cells() {
    assert_eq!(line_runs(&vec![F, F, F, F]), Vec::<usize>::new());
}

#[test]
fn runs_of_a_full_line() {
    assert_eq!(line_runs(&vec![T; 7]), vec![7]);
}

#[test]
fn runs_skip_leading_and_trailing_gaps() {
    assert_eq!(line_runs(&vec![F, F, T, T, F, T, F, F]), vec![2, 1]);
    assert_eq!(line_runs(&vec![T, F, F, F, T, T, T]), vec![1, 3]);
    assert_eq!(line_runs(&vec![F, T]), vec![1]);
    assert_eq!(line_runs(&vec![T, F]), vec![1]);
}

#[test]
fn runs_of_alternating_cells() {
    assert_eq!(line_runs(&vec![T, F, T, F, T, F, T]), vec![1, 1, 1, 1]);
}

#[test]
fn decimal_text() {
    for n in [0usize, 1, 9, 10, 11, 99, 100, 101, 909, 12345, 4294967295, usize::MAX] {
        let mut out = String::new();
        push_decimal(&mut out, n);
        assert_eq!(out, n.to_string());
    }
}

#[test]
fn decimal_is_appended() {
    let mut out = String::from("run ");
    push_decimal(&mut out, 42);
    push_decimal(&mut out, 7);
    assert_eq!(out, "run 427");
}

#[test]
fn joining_runs() {
    assert_eq!(join_runs(&Vec::new(), " "), "");
    assert_eq!(join_runs(&vec![3], " "), "3");
    assert_eq!(join_runs(&vec![3, 1, 12], " "), "3 1 12");
    assert_eq!(join_runs(&vec![3, 1, 12], "\n"), "3\n1\n12");
    assert_eq!(join_runs(&vec![10, 20], ", "), "10, 20");
    assert_eq!(join_runs(&vec![1, 2], ""), "12");
}

#[test]
fn row_hint_has_no_stray_separator() {
    assert_eq!(row_hint(&vec![F, T, T, F, F, T, F]), "2 1");
    assert_eq!(row_hint(&vec![F, F, F]), "");
    assert_eq!(row_hint(&vec![T, T, T]), "3");
    assert_eq!(row_hint(&Vec::new()), "");
}

#[test]
fn column_hint_has_no_stray_separator() {
    assert_eq!(column_hint(&vec![F, T, T, F, F, T, F]), "2\n1");
    assert_eq!(column_hint(&vec![F, F, F]), "");
    assert_eq!(column_hint(&vec![T, T, T]), "3");
    assert_eq!(column_hint(&vec![T, F, T, F, T]), "1\n1\n1");
}

#[test]
fn long_run_has_a_two_digit_hint() {
    let mut line = vec![T; 12];
    line.push(F);
    line.extend(vec![T; 10]);
    assert_eq!(row_hint(&line), "12 10");
    assert_eq!(column_hint(&line), "12\n10");
}
