use rcoreutils::wc::{add_counts, count, format_field, format_line, format_total, Config, FileInfo};

#[test]
fn test_count() {
    let text = "I don't want the world. I just want your half.\r\n";
    let info = count(text);
    assert!(info.is_ok());
    let expected = FileInfo {
        num_lines: 1,
        num_words: 10,
        num_bytes: 48,
        num_chars: 48,
    };
    assert_eq!(info.unwrap(), expected);
}

#[test]
fn test_format_field() {
    assert_eq!(format_field(1, false), "");
    assert_eq!(format_field(3, true), "       3");
    assert_eq!(format_field(13, true), "      13");
}

#[test]
fn count_empty_and_unterminated() {
    let info = count("").unwrap();
    assert_eq!(info, FileInfo { num_lines: 0, num_words: 0, num_bytes: 0, num_chars: 0 });
    let info = count("a b\n\nc").unwrap();
    assert_eq!(info, FileInfo { num_lines: 3, num_words: 3, num_bytes: 6, num_chars: 6 });
}

#[test]
fn count_multibyte_and_unicode_space() {
    // U+00E1 is two bytes; U+3000 is white space of three bytes.
    let info = count("\u{e1}b\u{3000}c\n").unwrap();
    assert_eq!(info, FileInfo { num_lines: 1, num_words: 2, num_bytes: 8, num_chars: 5 });
}

#[test]
fn format_field_wider_than_column() {
    assert_eq!(format_field(123456789, true), "123456789");
    assert_eq!(format_field(0, true), "       0");
}

#[test]
fn report_lines() {
    let config = Config::new(vec!["-".to_string()], false, false, false, false);
    assert!(config.lines && config.words && config.bytes && !config.chars);
    let info = FileInfo { num_lines: 1, num_words: 2, num_bytes: 3, num_chars: 4 };
    assert_eq!(format_line(&info, &config, "-"), "       1       2       3");
    assert_eq!(format_line(&info, &config, "f.txt"), "       1       2       3 f.txt");
    let config = Config::new(vec![], false, false, false, true);
    assert!(!config.lines && config.chars);
    assert_eq!(format_total(&info, &config), "       4 total");
}

#[test]
fn counts_add_up() {
    let a = FileInfo { num_lines: 1, num_words: 2, num_bytes: 3, num_chars: 4 };
    let b = FileInfo { num_lines: 10, num_words: 20, num_bytes: 30, num_chars: 40 };
    assert_eq!(
        add_counts(&a, &b),
        Some(FileInfo { num_lines: 11, num_words: 22, num_bytes: 33, num_chars: 44 })
    );
    let big = FileInfo { num_lines: usize::MAX, num_words: 0, num_bytes: 0, num_chars: 0 };
    assert_eq!(add_counts(&a, &big), None);
}
