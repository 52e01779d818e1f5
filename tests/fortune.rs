use rcoreutils::fortune::{build_pattern, fortune_text, is_fortune_file, parse_fortunes, parse_u64};

#[test]
fn test_parse_u64() {
    let res = parse_u64("a");
    assert!(res.is_err());
    assert_eq!(res.unwrap_err().to_string(), "\"a\" not a valid integer");

    let res = parse_u64("0");
    assert!(res.is_ok());
    assert_eq!(res.unwrap(), 0);

    let res = parse_u64("4");
    assert!(res.is_ok());
    assert_eq!(res.unwrap(), 4);
}

#[test]
fn u64_bounds() {
    assert_eq!(parse_u64("18446744073709551615"), Ok(u64::MAX));
    assert!(parse_u64("18446744073709551616").is_err());
    assert!(parse_u64("-1").is_err());
}

#[test]
fn fortunes_of_a_file() {
    let content = b"Q. What?\nA. That.\n%\n  Second one  \n%\n%\nlast";
    let fs = parse_fortunes("jokes", content);
    assert_eq!(fs.len(), 3);
    assert_eq!(fs[0].text, "Q. What?\nA. That.");
    assert_eq!(fs[1].text, "Second one");
    assert_eq!(fs[2].text, "last");
    assert!(fs.iter().all(|f| f.sources == "jokes"));
}

#[test]
fn fortunes_with_invalid_bytes() {
    let fs = parse_fortunes("x", b"a\xffb%");
    assert_eq!(fs.len(), 1);
    assert_eq!(fs[0].text, "a\u{fffd}b");
    assert!(parse_fortunes("x", b"").is_empty());
    assert!(parse_fortunes("x", b"% \n %").is_empty());
}

#[test]
fn which_files_hold_fortunes() {
    assert!(is_fortune_file(true, None));
    assert!(is_fortune_file(true, Some("txt")));
    assert!(!is_fortune_file(true, Some("dat")));
    assert!(!is_fortune_file(false, None));
}

#[test]
fn fortune_pattern() {
    assert!(build_pattern("^Q", true).is_ok());
    assert_eq!(build_pattern("(", false).unwrap_err(), "Invalid --pattern \"(\"");
}

#[test]
fn text_of_a_record() {
    assert_eq!(fortune_text("  Hello\nworld %\n"), "Hello\nworld");
    assert_eq!(fortune_text("%"), "");
    assert_eq!(fortune_text("a%b"), "ab");
}
