use rcoreutils::comm::{case_lines, check_inputs, format_column, merge_lines, Column, Config};

fn strings(v: &[&str]) -> Vec<String> {
    v.iter().map(|s| s.to_string()).collect()
}

fn config(show1: bool, show2: bool, show3: bool) -> Config {
    Config {
        file1: "a".to_string(),
        file2: "b".to_string(),
        show_col1: show1,
        show_col2: show2,
        show_col3: show3,
        insensitive: false,
        delimiter: "\t".to_string(),
    }
}

#[test]
fn merge_sorted_inputs() {
    let cols = merge_lines(&strings(&["a", "b", "d"]), &strings(&["b", "c", "d", "e"]));
    assert_eq!(
        cols,
        vec![
            Column::Col1("a".to_string()),
            Column::Col3("b".to_string()),
            Column::Col2("c".to_string()),
            Column::Col3("d".to_string()),
            Column::Col2("e".to_string()),
        ]
    );
    assert!(merge_lines(&vec![], &vec![]).is_empty());
    assert_eq!(merge_lines(&strings(&["ab"]), &strings(&["a"])), vec![Column::Col2("a".to_string()), Column::Col1("ab".to_string())]);
}

#[test]
fn case_folding() {
    assert_eq!(case_lines(strings(&["AbC"]), true), vec!["abc"]);
    assert_eq!(case_lines(strings(&["AbC"]), false), vec!["AbC"]);
}

#[test]
fn column_output() {
    let c = config(true, true, true);
    assert_eq!(format_column(&Column::Col1("x".to_string()), &c), Some("x".to_string()));
    assert_eq!(format_column(&Column::Col2("x".to_string()), &c), Some("\tx".to_string()));
    assert_eq!(format_column(&Column::Col3("x".to_string()), &c), Some("\t\tx".to_string()));
    let c = config(false, true, true);
    assert_eq!(format_column(&Column::Col1("x".to_string()), &c), None);
    assert_eq!(format_column(&Column::Col3("x".to_string()), &c), Some("\tx".to_string()));
    let c = config(false, false, true);
    assert_eq!(format_column(&Column::Col3("x".to_string()), &c), Some("x".to_string()));
}

#[test]
fn both_stdin() {
    assert_eq!(check_inputs("-", "-"), Err("Both input files cannot be STDIN (\"-\")".to_string()));
    assert_eq!(check_inputs("-", "b"), Ok(()));
}
