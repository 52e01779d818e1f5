use rcoreutils::cal::{format_month, format_year, last_day_in_month, month_by_name, parse_int, parse_month, parse_year, Date};

#[test]
fn test_parse_int_as_usize() {
    let res = parse_int::<usize>("1");
    assert!(res.is_ok());
    assert_eq!(res.unwrap(), 1_usize);
}

#[test]
fn test_parse_int_negative_as_i32() {
    let res = parse_int::<i32>("-1");
    assert!(res.is_ok());
    assert_eq!(res.unwrap(), -1_i32);
}

#[test]
fn test_parse_int_fail_on_string() {
    let res = parse_int::<i64>("foo");
    assert!(res.is_err());
    assert_eq!(res.unwrap_err().to_string(), "Invalid integer \"foo\"");
}

#[test]
fn test_parse_year_1_ok() {
    let res = parse_year("1");
    assert!(res.is_ok());
    assert_eq!(res.unwrap(), 1_i32);
}

#[test]
fn test_parse_year_9999_ok() {
    let res = parse_year("9999");
    assert!(res.is_ok());
    assert_eq!(res.unwrap(), 9999_i32);
}

#[test]
fn test_parse_year_0_err() {
    let res = parse_year("0");
    assert!(res.is_err());
    assert_eq!(
        res.unwrap_err().to_string(),
        "year \"0\" not in the range 1 through 9999"
    );
}

#[test]
fn test_parse_year_10000_err() {
    let res = parse_year("10000");
    assert!(res.is_err());
    assert_eq!(
        res.unwrap_err().to_string(),
        "year \"10000\" not in the range 1 through 9999"
    );
}

#[test]
fn test_parse_year_foo_err() {
    let res = parse_year("foo");
    assert!(res.is_err());
}

#[test]
fn test_parse_month_1_ok() {
    let res = parse_month("1");
    assert!(res.is_ok());
    assert_eq!(res.unwrap(), 1_u32)
}

#[test]
fn test_parse_month_12_ok() {
    let res = parse_month("12");
    assert!(res.is_ok());
    assert_eq!(res.unwrap(), 12_u32)
}

#[test]
fn test_parse_month_jan_ok() {
    let res = parse_month("jan");
    assert!(res.is_ok());
    assert_eq!(res.unwrap(), 1_u32)
}

#[test]
fn test_parse_month_0_err() {
    let res = parse_month("0");
    assert!(res.is_err());
    assert_eq!(
        res.unwrap_err().to_string(),
        "month \"0\" not in the range 1 through 12"
    )
}

#[test]
fn test_parse_month_13_err() {
    let res = parse_month("13");
    assert!(res.is_err());
    assert_eq!(
        res.unwrap_err().to_string(),
        "month \"13\" not in the range 1 through 12"
    )
}

#[test]
fn test_parse_month_foo_err() {
    let res = parse_month("foo");
    assert!(res.is_err());
    assert_eq!(res.unwrap_err().to_string(), "Invalid month \"foo\"")
}

#[test]
fn test_last_day_in_month() {
    assert_eq!(last_day_in_month(2019, 11), Date::new(2019, 11, 30));
    assert_eq!(last_day_in_month(2023, 12), Date::new(2023, 12, 31));
    assert_eq!(last_day_in_month(2020, 1), Date::new(2020, 1, 31));
    assert_eq!(last_day_in_month(2020, 2), Date::new(2020, 2, 29));
    assert_eq!(last_day_in_month(2020, 4), Date::new(2020, 4, 30));
}

#[test]
fn test_format_month_2020_2_ok() {
    let today = Date::new(0, 1, 1);
    let leap_february = vec![
        "   February 2020      ",
        "Su Mo Tu We Th Fr Sa  ",
        "                   1  ",
        " 2  3  4  5  6  7  8  ",
        " 9 10 11 12 13 14 15  ",
        "16 17 18 19 20 21 22  ",
        "23 24 25 26 27 28 29  ",
        "                      ",
    ];
    assert_eq!(format_month(2020, 2, true, today), leap_february);
}

#[test]
fn test_format_month_2020_5_ok() {
    let today = Date::new(0, 1, 1);
    let may = vec![
        "        May           ",
        "Su Mo Tu We Th Fr Sa  ",
        "                1  2  ",
        " 3  4  5  6  7  8  9  ",
        "10 11 12 13 14 15 16  ",
        "17 18 19 20 21 22 23  ",
        "24 25 26 27 28 29 30  ",
        "31                    ",
    ];
    assert_eq!(format_month(2020, 5, false, today), may);
}

#[test]
fn test_format_month_2021_4_ok() {
    let today = Date::new(2021, 4, 7);
    let april_with_highlight = vec![
        "     April 2021       ",
        "Su Mo Tu We Th Fr Sa  ",
        "             1  2  3  ",
        " 4  5  6 \u{1b}[7m 7\u{1b}[0m  8  9 10  ",
        "11 12 13 14 15 16 17  ",
        "18 19 20 21 22 23 24  ",
        "25 26 27 28 29 30     ",
        "                      ",
    ];
    assert_eq!(format_month(2021, 4, true, today), april_with_highlight);
}

#[test]
fn test_format_month_2023_10_ok() {
    let today = Date::new(0, 1, 1);
    let october = vec![
        "    October 2023      ",
        "Su Mo Tu We Th Fr Sa  ",
        " 1  2  3  4  5  6  7  ",
        " 8  9 10 11 12 13 14  ",
        "15 16 17 18 19 20 21  ",
        "22 23 24 25 26 27 28  ",
        "29 30 31              ",
        "                      ",
    ];
    assert_eq!(format_month(2023, 10, true, today), october);
}

#[test]
fn month_names_by_prefix() {
    assert_eq!(parse_month("JUN"), Ok(6));
    assert_eq!(parse_month("Sep"), Ok(9));
    assert_eq!(parse_month("ma").unwrap_err(), "Invalid month \"ma\"");
    assert_eq!(parse_month("").unwrap_err(), "Invalid month \"\"");
    assert_eq!(parse_month("-1").unwrap_err(), "Invalid month \"-1\"");
    assert_eq!(parse_month("+3"), Ok(3));
}

#[test]
fn years_and_leap_days() {
    assert_eq!(parse_year("-5").unwrap_err(), "year \"-5\" not in the range 1 through 9999");
    assert_eq!(parse_year("x").unwrap_err(), "Invalid integer \"x\"");
    assert_eq!(last_day_in_month(1900, 2), Date::new(1900, 2, 28));
    assert_eq!(last_day_in_month(2000, 2), Date::new(2000, 2, 29));
    assert_eq!(parse_int::<u32>("4294967296").unwrap_err(), "Invalid integer \"4294967296\"");
    assert_eq!(parse_int::<i32>("-2147483648"), Ok(i32::MIN));
}

#[test]
fn month_of_year_one() {
    let lines = format_month(1, 1, true, Date::new(1, 1, 1));
    assert_eq!(lines[0], "     January 1        ");
    assert_eq!(lines[2], "   \u{1b}[7m 1\u{1b}[0m  2  3  4  5  6  ");
}

#[test]
fn months_by_lower_case_name() {
    assert_eq!(month_by_name("jan"), Some(1));
    assert_eq!(month_by_name("december"), Some(12));
    assert_eq!(month_by_name("ju"), None);
    assert_eq!(month_by_name("Jan"), None);
}

#[test]
fn whole_year() {
    let today = Date::new(0, 1, 1);
    let lines = format_year(2020, today);
    assert_eq!(lines.len(), 1 + 4 * 9 - 1);
    assert_eq!(lines[0], format!("{:>32}", 2020));
    let jan = format_month(2020, 1, false, today);
    let feb = format_month(2020, 2, false, today);
    let mar = format_month(2020, 3, false, today);
    for k in 0..8 {
        assert_eq!(lines[1 + k], format!("{}{}{}", jan[k], feb[k], mar[k]));
    }
    assert_eq!(lines[9], "");
    assert_eq!(lines[10], format!("{}{}{}", format_month(2020, 4, false, today)[0], format_month(2020, 5, false, today)[0], format_month(2020, 6, false, today)[0]));
    assert_eq!(lines[35], format!("{}{}{}", format_month(2020, 10, false, today)[7], format_month(2020, 11, false, today)[7], format_month(2020, 12, false, today)[7]));
}
