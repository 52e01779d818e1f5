use rcoreutils::head::parse_positive_int;

#[test]
fn test_parse_positive_int() {
    // 3 is an ok integer
    let res = parse_positive_int("3");
    assert!(res.is_ok());
    assert_eq!(res.unwrap(), 3);

    // any string is an error
    let res = parse_positive_int("bing-bong");
    assert!(res.is_err());
    assert_eq!(res.unwrap_err().to_string(), "bing-bong".to_string());

    // 0 is an error
    let res = parse_positive_int("0");
    assert!(res.is_err());
    assert_eq!(res.unwrap_err().to_string(), "0".to_string());
}

#[test]
fn positive_int_takes_plus_and_rejects_minus() {
    assert_eq!(parse_positive_int("+7"), Ok(7));
    assert_eq!(parse_positive_int("007"), Ok(7));
    assert!(parse_positive_int("-1").is_err());
    assert!(parse_positive_int("").is_err());
    assert!(parse_positive_int("+").is_err());
    assert!(parse_positive_int(" 3").is_err());
    assert_eq!(
        parse_positive_int(&usize::MAX.to_string()),
        Ok(usize::MAX)
    );
    assert!(parse_positive_int("99999999999999999999999").is_err());
}
