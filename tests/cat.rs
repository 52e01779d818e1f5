use rcoreutils::cat::{format_lines, number_line};

fn strings(v: &[&str]) -> Vec<String> {
    v.iter().map(|s| s.to_string()).collect()
}

#[test]
fn plain_lines() {
    assert_eq!(format_lines(&strings(&["a", "", "b"]), false, false), vec!["a", "", "b"]);
}

#[test]
fn numbered_lines() {
    assert_eq!(
        format_lines(&strings(&["a", "", "b"]), true, false),
        vec!["     1\ta", "     2\t", "     3\tb"]
    );
}

#[test]
fn numbered_nonblank_lines() {
    assert_eq!(
        format_lines(&strings(&["a", "", "b"]), false, true),
        vec!["     1\ta", "", "     2\tb"]
    );
}

#[test]
fn one_line_at_a_time() {
    assert_eq!(number_line("x", 0, true, false), ("     1\tx".to_string(), 1));
    assert_eq!(number_line("", 4, false, true), ("".to_string(), 4));
    assert_eq!(number_line("y", 4, false, true), ("     5\ty".to_string(), 5));
    assert_eq!(number_line("y", 4, false, false), ("y".to_string(), 4));
}
