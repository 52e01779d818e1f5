use rcoreutils::text::split_lines;
use rcoreutils::uniq::{find_runs, format_run};

#[test]
fn runs_of_lines() {
    let lines = split_lines("a\na\nb\na\n");
    let runs = find_runs(&lines);
    assert_eq!(runs, vec![(2, "a\n".to_string()), (1, "b\n".to_string()), (1, "a\n".to_string())]);
}

#[test]
fn trailing_space_does_not_count() {
    let lines = split_lines("a \na\n");
    assert_eq!(find_runs(&lines), vec![(2, "a \n".to_string())]);
    let lines = split_lines("x\nx");
    assert_eq!(find_runs(&lines), vec![(2, "x\n".to_string())]);
}

#[test]
fn leading_empty_lines_form_a_run() {
    let lines = split_lines("\n\nz\n");
    assert_eq!(find_runs(&lines), vec![(2, "\n".to_string()), (1, "z\n".to_string())]);
    assert!(find_runs(&vec![]).is_empty());
}

#[test]
fn run_format() {
    assert_eq!(format_run(3, "a\n", true), "   3 a\n");
    assert_eq!(format_run(12345, "a\n", true), "12345 a\n");
    assert_eq!(format_run(3, "a\n", false), "a\n");
}
