use rcoreutils::tail::{count_lines_bytes, get_start_index, parse_take_num, tail_bytes, tail_lines, TakeValue};

#[test]
fn test_parse_num() {
    let res = parse_take_num("3");
    assert!(res.is_ok());
    assert_eq!(res.unwrap(), TakeValue::TakeNum(-3));

    let res = parse_take_num("+3");
    assert!(res.is_ok());
    assert_eq!(res.unwrap(), TakeValue::TakeNum(3));

    let res = parse_take_num("-3");
    assert!(res.is_ok());
    assert_eq!(res.unwrap(), TakeValue::TakeNum(-3));

    let res = parse_take_num("0");
    assert!(res.is_ok());
    assert_eq!(res.unwrap(), TakeValue::TakeNum(0));

    let res = parse_take_num("+0");
    assert!(res.is_ok());
    assert_eq!(res.unwrap(), TakeValue::PlusZero);

    let res = parse_take_num(&i64::MAX.to_string());
    assert!(res.is_ok());
    assert_eq!(res.unwrap(), TakeValue::TakeNum(i64::MIN + 1));

    let res = parse_take_num(&(i64::MIN + 1).to_string());
    assert!(res.is_ok());
    assert_eq!(res.unwrap(), TakeValue::TakeNum(i64::MIN + 1));

    let res = parse_take_num(&(i64::MIN + 1).to_string());
    assert!(res.is_ok());
    assert_eq!(res.unwrap(), TakeValue::TakeNum(i64::MIN + 1));

    let res = parse_take_num(&format!("+{}", i64::MAX));
    assert!(res.is_ok());
    assert_eq!(res.unwrap(), TakeValue::TakeNum(i64::MAX));

    let res = parse_take_num(&i64::MIN.to_string());
    assert!(res.is_ok());
    assert_eq!(res.unwrap(), TakeValue::TakeNum(i64::MIN));

    let res = parse_take_num("3.14");
    assert!(res.is_err());
    assert_eq!(res.unwrap_err().to_string(), "3.14");

    let res = parse_take_num("foo");
    assert!(res.is_err());
    assert_eq!(res.unwrap_err().to_string(), "foo");
}

#[test]
fn test_get_start_index() {
    // +0 for empty file, returns None
    assert_eq!(get_start_index(&TakeValue::PlusZero, 0), None);

    // +0 for nonempty file, return index one less than the number of line
    assert_eq!(get_start_index(&TakeValue::PlusZero, 1), Some(0));

    // Taking 0 lines/bytes, return 0
    assert_eq!(get_start_index(&TakeValue::TakeNum(0), 1), None);

    // Taking any lines/bytes from enty file, returns None
    assert_eq!(get_start_index(&TakeValue::TakeNum(1), 0), None);

    // Taking more lines/bytes than available from file, returns None
    assert_eq!(get_start_index(&TakeValue::TakeNum(2), 1), None);

    // starting line/byte is less than totao lines/bytes
    assert_eq!(get_start_index(&TakeValue::TakeNum(1), 10), Some(0));
    assert_eq!(get_start_index(&TakeValue::TakeNum(2), 10), Some(1));
    assert_eq!(get_start_index(&TakeValue::TakeNum(3), 10), Some(2));
    assert_eq!(get_start_index(&TakeValue::TakeNum(4), 10), Some(3));

    // negative starting line/byte is less than totao lines/bytes
    assert_eq!(get_start_index(&TakeValue::TakeNum(-1), 10), Some(9));
    assert_eq!(get_start_index(&TakeValue::TakeNum(-2), 10), Some(8));
    assert_eq!(get_start_index(&TakeValue::TakeNum(-3), 10), Some(7));
    assert_eq!(get_start_index(&TakeValue::TakeNum(-4), 10), Some(6));

    // negative starting line is more than total
    // return 0 to print the entire file
    let result = get_start_index(&TakeValue::TakeNum(-20), 10);
    assert_eq!(result, Some(0));
}

#[test]
fn take_num_edges() {
    assert_eq!(parse_take_num("-0"), Ok(TakeValue::TakeNum(0)));
    assert_eq!(parse_take_num("+00"), Ok(TakeValue::TakeNum(0)));
    assert_eq!(parse_take_num("9223372036854775808"), Err("9223372036854775808".to_string()));
    assert_eq!(parse_take_num(""), Err("".to_string()));
    assert_eq!(get_start_index(&TakeValue::TakeNum(i64::MIN), 10), Some(0));
    assert_eq!(get_start_index(&TakeValue::TakeNum(-10), 10), Some(0));
}

#[test]
fn lines_and_bytes_of_text() {
    assert_eq!(count_lines_bytes(""), (0, 0));
    assert_eq!(count_lines_bytes("one\ntwo\nthree"), (3, 13));
    assert_eq!(count_lines_bytes("\u{e9}\n"), (1, 3));
}

#[test]
fn tail_of_lines_and_bytes() {
    let lines: Vec<String> = vec!["a\n".into(), "b\n".into(), "c\n".into()];
    assert_eq!(tail_lines(&lines, &TakeValue::TakeNum(-2)), vec!["b\n", "c\n"]);
    assert_eq!(tail_lines(&lines, &TakeValue::TakeNum(2)), vec!["b\n", "c\n"]);
    assert_eq!(tail_lines(&lines, &TakeValue::TakeNum(-9)), vec!["a\n", "b\n", "c\n"]);
    assert!(tail_lines(&lines, &TakeValue::TakeNum(0)).is_empty());
    assert!(tail_lines(&lines, &TakeValue::TakeNum(4)).is_empty());
    assert_eq!(tail_bytes(b"hello", &TakeValue::TakeNum(-3)), b"llo".to_vec());
    assert_eq!(tail_bytes(b"hello", &TakeValue::PlusZero), b"o".to_vec());
    assert!(tail_bytes(b"", &TakeValue::TakeNum(-3)).is_empty());
}
