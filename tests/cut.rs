use csv::StringRecord;
use rcoreutils::cut::{
    extract_bytes, extract_chars, extract_fields, parse_delimiter, parse_extract, parse_index,
    parse_pos, parse_pos2, parse_range_item, Extract,
};

#[test]
fn test_extract_chars() {
    assert_eq!(extract_chars("", &[0..1]), "".to_string());
    assert_eq!(extract_chars("ábc", &[0..1]), "á".to_string());
    assert_eq!(extract_chars("ábc", &[0..1, 2..3]), "ác".to_string());
    assert_eq!(extract_chars("ábc", &[0..3]), "ábc".to_string());
    assert_eq!(extract_chars("ábc", &[2..3, 1..2]), "cb".to_string());
    assert_eq!(extract_chars("ábc", &[0..1, 1..2, 4..5]), "áb".to_string());
}

#[test]
fn test_extract_fields() {
    let rec = StringRecord::from(vec!["Captain", "Sham", "12345"]);
    assert_eq!(extract_fields(&rec, &[0..1]), &["Captain"]);
    assert_eq!(extract_fields(&rec, &[1..2]), &["Sham"]);
    assert_eq!(extract_fields(&rec, &[0..1, 2..3]), &["Captain", "12345"]);
    assert_eq!(extract_fields(&rec, &[0..1, 3..4]), &["Captain"]);
    assert_eq!(extract_fields(&rec, &[1..2, 0..1]), &["Sham", "Captain"]);
}

#[test]
fn test_extract_bytes() {
    assert_eq!(extract_bytes("ábc", &[0..1]), "�".to_string());
    assert_eq!(extract_bytes("ábc", &[0..2]), "á".to_string());
    assert_eq!(extract_bytes("ábc", &[0..3]), "áb".to_string());
    assert_eq!(extract_bytes("ábc", &[0..4]), "ábc".to_string());
    assert_eq!(extract_bytes("ábc", &[3..4, 2..3]), "cb".to_string());
    assert_eq!(extract_bytes("ábc", &[0..2, 5..6]), "á".to_string());
}

#[test]
fn test_parse_pos() {
    // SAD PATH TESTS

    // empty string is an error
    assert!(parse_pos("").is_err());

    // zero is an error
    let res = parse_pos("0");
    assert!(res.is_err());
    assert_eq!(res.unwrap_err().to_string(), "illegal list value: \"0\"");

    let res = parse_pos("0-1");
    assert!(res.is_err());
    assert_eq!(res.unwrap_err().to_string(), "illegal list value: \"0\"");

    // leading "+" is an error
    let res = parse_pos("+1");
    assert!(res.is_err());
    assert_eq!(res.unwrap_err().to_string(), "illegal list value: \"+1\"");

    let res = parse_pos("+1-2");
    assert!(res.is_err());
    assert_eq!(res.unwrap_err().to_string(), "illegal list value: \"+1-2\"");

    let res = parse_pos("1-+2");
    assert!(res.is_err());
    assert_eq!(res.unwrap_err().to_string(), "illegal list value: \"1-+2\"");

    // non-number is an error
    let res = parse_pos("a");
    assert!(res.is_err());
    assert_eq!(res.unwrap_err().to_string(), "illegal list value: \"a\"");

    let res = parse_pos("1,a");
    assert!(res.is_err());
    assert_eq!(res.unwrap_err().to_string(), "illegal list value: \"a\"");

    let res = parse_pos("1-a");
    assert!(res.is_err());
    assert_eq!(res.unwrap_err().to_string(), "illegal list value: \"1-a\"");

    let res = parse_pos("a-1");
    assert!(res.is_err());
    assert_eq!(res.unwrap_err().to_string(), "illegal list value: \"a-1\"");

    // broken ranges
    let res = parse_pos("-");
    assert!(res.is_err());

    let res = parse_pos(",");
    assert!(res.is_err());

    let res = parse_pos("1,");
    assert!(res.is_err());

    let res = parse_pos("1-");
    assert!(res.is_err());

    let res = parse_pos("1-1-1");
    assert!(res.is_err());

    let res = parse_pos("1-1-a");
    assert!(res.is_err());

    // first number must be less than second
    let res = parse_pos("1-1");
    assert!(res.is_err());
    assert_eq!(
        res.unwrap_err().to_string(),
        "First number in range (1) must be lower than second number (1)"
    );

    let res = parse_pos("2-1");
    assert!(res.is_err());
    assert_eq!(
        res.unwrap_err().to_string(),
        "First number in range (2) must be lower than second number (1)"
    );

    // HUZZAH! PATH TESTS
    let res = parse_pos("1");
    assert!(res.is_ok());
    assert_eq!(res.unwrap(), vec![0..1]);

    let res = parse_pos("01");
    assert!(res.is_ok());
    assert_eq!(res.unwrap(), vec![0..1]);

    let res = parse_pos("1,3");
    assert!(res.is_ok());
    assert_eq!(res.unwrap(), vec![0..1, 2..3]);

    let res = parse_pos("001,0003");
    assert!(res.is_ok());
    assert_eq!(res.unwrap(), vec![0..1, 2..3]);

    let res = parse_pos("1-3");
    assert!(res.is_ok());
    assert_eq!(res.unwrap(), vec![0..3]);

    let res = parse_pos("0001-03");
    assert!(res.is_ok());
    assert_eq!(res.unwrap(), vec![0..3]);

    let res = parse_pos("1,7,3-5");
    assert!(res.is_ok());
    assert_eq!(res.unwrap(), vec![0..1, 6..7, 2..5]);

    let res = parse_pos("15,19-20");
    assert!(res.is_ok());
    assert_eq!(res.unwrap(), vec![14..15, 18..20]);
}

#[test]
fn parse_index_edges() {
    assert_eq!(parse_index("1"), Ok(0));
    assert_eq!(parse_index("42"), Ok(41));
    assert_eq!(parse_index("+1"), Err("illegal list value: \"+1\"".to_string()));
    assert_eq!(parse_index("0"), Err("illegal list value: \"0\"".to_string()));
    assert_eq!(parse_index(""), Err("illegal list value: \"\"".to_string()));
}

#[test]
fn parse_pos_error_on_second_item_and_big_ranges() {
    assert_eq!(
        parse_pos("1-2,5-3").unwrap_err(),
        "First number in range (5) must be lower than second number (3)"
    );
    assert_eq!(parse_pos("3-10").unwrap(), vec![2..10]);
}

#[test]
fn extract_bytes_past_end_and_reversed() {
    assert_eq!(extract_bytes("abc", &[5..9]), "");
    assert_eq!(extract_bytes("abc", &[2..1]), "");
    assert_eq!(extract_chars("abc", &[1..100]), "bc");
}

#[test]
fn delimiter_must_be_one_byte() {
    assert_eq!(parse_delimiter(","), Ok(b','));
    assert_eq!(parse_delimiter("\t"), Ok(b'\t'));
    assert_eq!(
        parse_delimiter(",,"),
        Err("--delim \",,\" must be a single byte".to_string())
    );
    assert!(parse_delimiter("á").is_err());
    assert!(parse_delimiter("").is_err());
}

#[test]
fn extract_choice() {
    match parse_extract(Some("1"), None, None) {
        Ok(Extract::Fields(v)) => assert_eq!(v, vec![0..1]),
        other => panic!("unexpected {:?}", other),
    }
    match parse_extract(None, Some("2-3"), None) {
        Ok(Extract::Bytes(v)) => assert_eq!(v, vec![1..3]),
        other => panic!("unexpected {:?}", other),
    }
    match parse_extract(None, None, Some("4")) {
        Ok(Extract::Chars(v)) => assert_eq!(v, vec![3..4]),
        other => panic!("unexpected {:?}", other),
    }
    assert_eq!(
        parse_extract(None, None, None).unwrap_err(),
        "Must have --fields, --bytes, or --chars"
    );
    assert_eq!(
        parse_extract(Some("1"), Some("x"), None).unwrap_err(),
        "illegal list value: \"x\""
    );
}

#[test]
fn range_sides_in_other_decimal_digits() {
    // U+0661 is ARABIC-INDIC DIGIT ONE: a decimal digit, but not a number
    // that a position can be read from.
    assert_eq!(
        parse_pos("\u{661}-2").unwrap_err(),
        "illegal list value: \"\u{661}\""
    );
    assert_eq!(
        parse_pos("1-\u{662}").unwrap_err(),
        "illegal list value: \"\u{662}\""
    );
}

#[test]
fn range_item_from_captures() {
    let caps = Some(vec![Some("2-4".to_string()), Some("2".to_string()), Some("4".to_string())]);
    assert_eq!(parse_range_item("2-4", &caps), Ok(1..4));
    assert_eq!(parse_range_item("7", &None), Ok(6..7));
    assert_eq!(parse_range_item("x", &None), Err("illegal list value: \"x\"".to_string()));
    let caps = Some(vec![Some("0-4".to_string()), Some("0".to_string()), Some("4".to_string())]);
    assert_eq!(parse_range_item("0-4", &caps), Err("illegal list value: \"0\"".to_string()));
    let caps = Some(vec![Some("3-2".to_string()), Some("3".to_string()), Some("2".to_string())]);
    assert_eq!(
        parse_range_item("3-2", &caps),
        Err("First number in range (3) must be lower than second number (2)".to_string())
    );
}

#[test]
fn older_position_lists() {
    assert_eq!(parse_pos2("1,3-5"), Ok(vec![0..1, 2..5]));
    assert_eq!(parse_pos2("001,0003"), Ok(vec![0..1, 2..3]));
    assert_eq!(parse_pos2("1,a").unwrap_err(), "illegal list value: \"a\"");
    assert_eq!(parse_pos2("1,é").unwrap_err(), "illegal list value: \"é\"");
    assert_eq!(parse_pos2("+1").unwrap_err(), "illegal list value: \"+1\"");
    assert_eq!(parse_pos2("1,0").unwrap_err(), "illegal list value: \"1,0\"");
    assert_eq!(parse_pos2("1-2-3").unwrap_err(), "illegal list value: \"1-2-3\"");
    assert_eq!(parse_pos2("0-2").unwrap_err(), "illegal list value: \"0\"");
    assert_eq!(parse_pos2("1-").unwrap_err(), "illegal list value: \"\"");
    assert_eq!(
        parse_pos2("2-1").unwrap_err(),
        "First number in range (2) must be lower than second number (1)"
    );
    assert!(parse_pos2("").is_err());
}
