//! `cal`: month and year arguments, and the layout of a month.

use vstd::prelude::*;
use chrono::Datelike;
use crate::parse::{int_in, DecimalInt};
use crate::text::{
    align_center, align_right, center, chars_of, concat3, dec, dec_int, decimal, decimal_signed,
    lower_of, lowercase, pad_left, views,
};

verus! {

/// A day of the proleptic Gregorian calendar.
#[derive(Debug, Clone, Copy, PartialEq, Eq, Structural)]
pub struct Date {
    pub year: i32,
    pub month: u32,
    pub day: u32,
}

impl Date {
    /// The date with these parts.
    pub fn new(year: i32, month: u32, day: u32) -> (r: Date)
        ensures
            r == (Date { year, month, day }),
    {
        Date { year, month, day }
    }
}

/// The settings of one run: one month, or the whole year where `month` is
/// `None`, and the day to highlight.
#[derive(Debug)]
pub struct Config {
    pub month: Option<u32>,
    pub year: i32,
    pub today: Date,
}

/// The first year that chrono's `NaiveDate` holds.
pub const MIN_YEAR: i32 = -262143;

/// The last year that chrono's `NaiveDate` holds.
pub const MAX_YEAR: i32 = 262142;

/// Whether `y` is a leap year.
pub open spec fn is_leap(y: int) -> bool {
    (y % 4 == 0 && y % 100 != 0) || y % 400 == 0
}

/// The number of days of month `m` of year `y`.
pub open spec fn days_in_month(y: int, m: int) -> int {
    if m == 2 {
        if is_leap(y) {
            29
        } else {
            28
        }
    } else if m == 4 || m == 6 || m == 9 || m == 11 {
        30
    } else {
        31
    }
}

/// The days of the years before `y`, counted from the year 1.
pub open spec fn days_before_year(y: int) -> int {
    365 * (y - 1) + (y - 1) / 4 - (y - 1) / 100 + (y - 1) / 400
}

/// The days of the months of year `y` before month `m`.
pub open spec fn days_before_month(y: int, m: int) -> int
    decreases m,
{
    if m <= 1 {
        0
    } else {
        days_before_month(y, m - 1) + days_in_month(y, m - 1)
    }
}

/// The day of the week, from 0 for Sunday to 6 for Saturday
/// (1 January of the year 1 was a Monday).
pub open spec fn weekday(y: int, m: int, d: int) -> int {
    (days_before_year(y) + days_before_month(y, m) + d) % 7
}

/// Relies on chrono's `Datelike::num_days_in_month` of the month's first day.
#[verifier::external_body]
fn month_length(year: i32, month: u32) -> (r: u32)
    requires
        MIN_YEAR <= year <= MAX_YEAR,
        1 <= month <= 12,
    ensures
        r == days_in_month(year as int, month as int),
{
    chrono::NaiveDate::from_ymd_opt(year, month, 1).unwrap().num_days_in_month() as u32
}

/// Relies on chrono's `Datelike::weekday` and `Weekday::num_days_from_sunday`
/// for the first day of a month.
#[verifier::external_body]
fn first_weekday(year: i32, month: u32) -> (r: u32)
    requires
        MIN_YEAR <= year <= MAX_YEAR,
        1 <= month <= 12,
    ensures
        r == weekday(year as int, month as int, 1),
{
    chrono::NaiveDate::from_ymd_opt(year, month, 1).unwrap().weekday().num_days_from_sunday()
}

/// Relies on ansi_term's `Style::reverse` and `Style::paint`: the text between
/// the codes that switch reverse video on and all styles off.
#[verifier::external_body]
fn reverse_video(s: &str) -> (r: String)
    ensures
        r@ == seq!['\u{1b}', '[', '7', 'm'] + s@ + seq!['\u{1b}', '[', '0', 'm'],
{
    format!("{}", ansi_term::Style::new().reverse().paint(s))
}

/// The last day of a month.
pub fn last_day_in_month(year: i32, month: u32) -> (r: Date)
    requires
        MIN_YEAR <= year <= MAX_YEAR,
        1 <= month <= 12,
    ensures
        r == (Date { year, month, day: days_in_month(year as int, month as int) as u32 }),
{
    Date { year, month, day: month_length(year, month) }
}

/// The message for a string that is no integer.
pub open spec fn integer_error(s: Seq<char>) -> Seq<char> {
    "Invalid integer \""@ + s + "\""@
}

/// The message for a year out of range.
pub open spec fn year_error(s: Seq<char>) -> Seq<char> {
    "year \""@ + s + "\" not in the range 1 through 9999"@
}

/// The message for a month number out of range.
pub open spec fn month_range_error(s: Seq<char>) -> Seq<char> {
    "month \""@ + s + "\" not in the range 1 through 12"@
}

/// The message for a month that is neither a number nor a name.
pub open spec fn month_error(s: Seq<char>) -> Seq<char> {
    "Invalid month \""@ + s + "\""@
}

/// Reads an integer of type `T`.
pub fn parse_int<T: DecimalInt>(val: &str) -> (r: Result<T, String>)
    ensures
        match r {
            Ok(v) => int_in(val@, T::signed(), T::lowest(), T::highest()) == Some(v.int_of()),
            Err(e) => int_in(val@, T::signed(), T::lowest(), T::highest()) is None && e@
                == integer_error(val@),
        },
{
    match T::from_decimal(val) {
        Some(v) => Ok(v),
        None => Err(concat3("Invalid integer \"", val, "\"")),
    }
}

/// Reads a year, which must lie in 1 through 9999.
pub fn parse_year(year: &str) -> (r: Result<i32, String>)
    ensures
        match int_in(year@, true, i32::MIN as int, i32::MAX as int) {
            None => r is Err && r->Err_0@ == integer_error(year@),
            Some(v) => if 1 <= v <= 9999 {
                r == Ok::<i32, String>(v as i32)
            } else {
                r is Err && r->Err_0@ == year_error(year@)
            },
        },
{
    match parse_int::<i32>(year) {
        Ok(num) => {
            if 1 <= num && num <= 9999 {
                Ok(num)
            } else {
                Err(concat3("year \"", year, "\" not in the range 1 through 9999"))
            }
        },
        Err(e) => Err(e),
    }
}

/// The name of month `m`.
pub open spec fn month_name(m: int) -> Seq<char> {
    if m == 1 {
        "January"@
    } else if m == 2 {
        "February"@
    } else if m == 3 {
        "March"@
    } else if m == 4 {
        "April"@
    } else if m == 5 {
        "May"@
    } else if m == 6 {
        "June"@
    } else if m == 7 {
        "July"@
    } else if m == 8 {
        "August"@
    } else if m == 9 {
        "September"@
    } else if m == 10 {
        "October"@
    } else if m == 11 {
        "November"@
    } else {
        "December"@
    }
}

/// The name of month `m`, in lower case.
pub open spec fn month_key(m: int) -> Seq<char> {
    if m == 1 {
        "january"@
    } else if m == 2 {
        "february"@
    } else if m == 3 {
        "march"@
    } else if m == 4 {
        "april"@
    } else if m == 5 {
        "may"@
    } else if m == 6 {
        "june"@
    } else if m == 7 {
        "july"@
    } else if m == 8 {
        "august"@
    } else if m == 9 {
        "september"@
    } else if m == 10 {
        "october"@
    } else if m == 11 {
        "november"@
    } else {
        "december"@
    }
}

fn month_name_str(m: u32) -> (r: &'static str)
    ensures
        r@ == month_name(m as int),
{
    if m == 1 {
        "January"
    } else if m == 2 {
        "February"
    } else if m == 3 {
        "March"
    } else if m == 4 {
        "April"
    } else if m == 5 {
        "May"
    } else if m == 6 {
        "June"
    } else if m == 7 {
        "July"
    } else if m == 8 {
        "August"
    } else if m == 9 {
        "September"
    } else if m == 10 {
        "October"
    } else if m == 11 {
        "November"
    } else {
        "December"
    }
}

fn month_key_str(m: u32) -> (r: &'static str)
    ensures
        r@ == month_key(m as int),
{
    if m == 1 {
        "january"
    } else if m == 2 {
        "february"
    } else if m == 3 {
        "march"
    } else if m == 4 {
        "april"
    } else if m == 5 {
        "may"
    } else if m == 6 {
        "june"
    } else if m == 7 {
        "july"
    } else if m == 8 {
        "august"
    } else if m == 9 {
        "september"
    } else if m == 10 {
        "october"
    } else if m == 11 {
        "november"
    } else {
        "december"
    }
}

/// Whether `p` begins `s`.
pub open spec fn is_prefix(p: Seq<char>, s: Seq<char>) -> bool {
    p.len() <= s.len() && s.take(p.len() as int) == p
}

fn starts_with(s: &Vec<char>, p: &Vec<char>) -> (r: bool)
    ensures
        r == is_prefix(p@, s@),
{
    if p.len() > s.len() {
        return false;
    }
    let mut i: usize = 0;
    while i < p.len()
        invariant
            i <= p.len() <= s.len(),
            forall|j: int| 0 <= j < i ==> s@[j] == p@[j],
        decreases p.len() - i,
    {
        if s[i] != p[i] {
            assert(s@.take(p@.len() as int)[i as int] != p@[i as int]);
            return false;
        }
        i += 1;
    }
    assert(s@.take(p@.len() as int) =~= p@);
    true
}

/// The months among the first `n` whose lower-case names begin with `l`.
pub open spec fn months_named(l: Seq<char>, n: int) -> Seq<int>
    decreases n,
{
    if n <= 0 {
        Seq::empty()
    } else if is_prefix(l, month_key(n)) {
        months_named(l, n - 1).push(n)
    } else {
        months_named(l, n - 1)
    }
}

/// Reads a month: a number in 1 through 12, or the beginning of exactly one
/// month's name, in any case.
pub fn parse_month(month: &str) -> (r: Result<u32, String>)
    ensures
        match int_in(month@, false, 0, u32::MAX as int) {
            Some(v) => if 1 <= v <= 12 {
                r == Ok::<u32, String>(v as u32)
            } else {
                r is Err && r->Err_0@ == month_range_error(month@)
            },
            None => {
                let ms = months_named(lower_of(month@), 12);
                if ms.len() == 1 {
                    r == Ok::<u32, String>(ms[0] as u32)
                } else {
                    r is Err && r->Err_0@ == month_error(month@)
                }
            },
        },
{
    match parse_int::<u32>(month) {
        Ok(num) => {
            if 1 <= num && num <= 12 {
                Ok(num)
            } else {
                Err(concat3("month \"", month, "\" not in the range 1 through 12"))
            }
        },
        Err(_) => {
            let lower = lowercase(month);
            match month_by_name(lower.as_str()) {
                Some(m) => Ok(m),
                None => Err(concat3("Invalid month \"", month, "\"")),
            }
        },
    }
}

/// The width of each line of a month.
pub const LINE_WIDTH: usize = 22;

/// The title line: the month's name, and the year where `print_year` holds,
/// centred.
pub open spec fn title_line(year: int, month: int, print_year: bool) -> Seq<char> {
    let title = if print_year {
        month_name(month) + " "@ + dec_int(year)
    } else {
        month_name(month)
    };
    center(title + "  "@, LINE_WIDTH as int)
}

/// The line of weekday names.
pub open spec fn days_line() -> Seq<char> {
    "Su Mo Tu We Th Fr Sa  "@
}

/// Whether day `d` of the month is `today`.
pub open spec fn is_today(year: int, month: int, today: Date, d: int) -> bool {
    year == today.year && month == today.month && today.day == d
}

/// Cell `i` of the grid of a month that has `days` days and begins on
/// weekday `skip`: blank outside the month, else the day right-aligned in two
/// columns, in reverse video where it is `today`.
pub open spec fn cell(year: int, month: int, today: Date, skip: int, days: int, i: int) -> Seq<
    char,
> {
    if i < skip || i >= skip + days {
        "  "@
    } else {
        let d = i - skip + 1;
        let t = pad_left(dec(d as nat), 2);
        if is_today(year, month, today, d) {
            seq!['\u{1b}', '[', '7', 'm'] + t + seq!['\u{1b}', '[', '0', 'm']
        } else {
            t
        }
    }
}

/// The first `j` cells of week `k`, separated by single spaces.
pub open spec fn week_cells(
    year: int,
    month: int,
    today: Date,
    skip: int,
    days: int,
    k: int,
    j: int,
) -> Seq<char>
    decreases j,
{
    if j <= 0 {
        Seq::empty()
    } else if j == 1 {
        cell(year, month, today, skip, days, 7 * k)
    } else {
        week_cells(year, month, today, skip, days, k, j - 1) + " "@ + cell(
            year,
            month,
            today,
            skip,
            days,
            7 * k + j - 1,
        )
    }
}

/// The line of week `k`: its seven cells, then two spaces.
pub open spec fn week_line(year: int, month: int, today: Date, skip: int, days: int, k: int) -> Seq<
    char,
> {
    week_cells(year, month, today, skip, days, k, 7) + "  "@
}

/// The eight lines of a month: title, weekday names, and six weeks.
pub open spec fn month_lines(year: int, month: int, print_year: bool, today: Date) -> Seq<
    Seq<char>,
> {
    let skip = weekday(year, month, 1);
    let days = days_in_month(year, month);
    seq![title_line(year, month, print_year), days_line()] + Seq::new(
        6,
        |k: int| week_line(year, month, today, skip, days, k),
    )
}

fn format_cell(year: i32, month: u32, today: Date, skip: u32, days: u32, i: usize) -> (r: String)
    requires
        skip < 7,
        days <= 31,
        i < 42,
    ensures
        r@ == cell(year as int, month as int, today, skip as int, days as int, i as int),
{
    if i < skip as usize || i >= (skip + days) as usize {
        String::from_str("  ")
    } else {
        let d = i - skip as usize + 1;
        let t = align_right(decimal(d as u64).as_str(), 2);
        if year == today.year && month == today.month && today.day as usize == d {
            reverse_video(t.as_str())
        } else {
            t
        }
    }
}

fn format_week(year: i32, month: u32, today: Date, skip: u32, days: u32, k: usize) -> (r: String)
    requires
        skip < 7,
        days <= 31,
        k < 6,
    ensures
        r@ == week_line(year as int, month as int, today, skip as int, days as int, k as int),
{
    let mut line = format_cell(year, month, today, skip, days, 7 * k);
    let mut j: usize = 1;
    while j < 7
        invariant
            1 <= j <= 7,
            k < 6,
            skip < 7,
            days <= 31,
            line@ == week_cells(
                year as int,
                month as int,
                today,
                skip as int,
                days as int,
                k as int,
                j as int,
            ),
        decreases 7 - j,
    {
        let c = format_cell(year, month, today, skip, days, 7 * k + j);
        line.append(" ");
        line.append(c.as_str());
        j += 1;
    }
    line.append("  ");
    line
}

/// The lines of one month, as `cal` prints them: the title (with the year where
/// `print_year` holds), the weekday names, and six weeks from Sunday to
/// Saturday, the day `today` in reverse video.
pub fn format_month(year: i32, month: u32, print_year: bool, today: Date) -> (r: Vec<String>)
    requires
        MIN_YEAR <= year <= MAX_YEAR,
        1 <= month <= 12,
    ensures
        views(r@) == month_lines(year as int, month as int, print_year, today),
{
    let mut result: Vec<String> = Vec::new();
    let name = month_name_str(month);
    let mut title = if print_year {
        concat3(name, " ", decimal_signed(year as i64).as_str())
    } else {
        String::from_str(name)
    };
    title.append("  ");
    result.push(align_center(title.as_str(), LINE_WIDTH));
    result.push(String::from_str("Su Mo Tu We Th Fr Sa  "));
    let skip = first_weekday(year, month);
    let days = month_length(year, month);
    let ghost lines = month_lines(year as int, month as int, print_year, today);
    let mut k: usize = 0;
    while k < 6
        invariant
            k <= 6,
            skip as int == weekday(year as int, month as int, 1),
            days as int == days_in_month(year as int, month as int),
            lines == month_lines(year as int, month as int, print_year, today),
            views(result@) == lines.take(k + 2),
        decreases 6 - k,
    {
        let w = format_week(year, month, today, skip, days, k);
        let ghost before = result@;
        result.push(w);
        assert(views(result@) =~= views(before).push(w@));
        assert(lines.take(k + 3) =~= lines.take(k + 2).push(lines[k + 2]));
        k += 1;
    }
    assert(lines.take(8) =~= lines);
    result
}

/// Line `k` of the months of row `q` of a year (months `3q + 1` to
/// `3q + 3`), side by side.
pub open spec fn row_line(year: int, today: Date, q: int, k: int) -> Seq<char> {
    month_lines(year, 3 * q + 1, false, today)[k] + month_lines(year, 3 * q + 2, false, today)[k]
        + month_lines(year, 3 * q + 3, false, today)[k]
}

/// The first `q` rows of months of a year, each of eight lines and, but for
/// the last row of the year, followed by an empty line.
pub open spec fn year_rows(year: int, today: Date, q: int) -> Seq<Seq<char>>
    decreases q,
{
    if q <= 0 {
        Seq::empty()
    } else {
        year_rows(year, today, q - 1) + Seq::new(8, |k: int| row_line(year, today, q - 1, k)) + (
        if q - 1 < 3 {
            seq![Seq::<char>::empty()]
        } else {
            Seq::empty()
        })
    }
}

/// The lines of a whole year: the year right-aligned in 32 columns, then
/// four rows of three months.
pub open spec fn year_lines(year: int, today: Date) -> Seq<Seq<char>> {
    seq![pad_left(dec_int(year), 32)] + year_rows(year, today, 4)
}

/// The lines of a whole year, as `cal -y` prints them.
pub fn format_year(year: i32, today: Date) -> (r: Vec<String>)
    requires
        MIN_YEAR <= year <= MAX_YEAR,
    ensures
        views(r@) == year_lines(year as int, today),
{
    let mut out: Vec<String> = Vec::new();
    out.push(align_right(decimal_signed(year as i64).as_str(), 32));
    let ghost head = seq![pad_left(dec_int(year as int), 32)];
    assert(views(out@) =~= head + year_rows(year as int, today, 0));
    let mut q: u32 = 0;
    while q < 4
        invariant
            q <= 4,
            MIN_YEAR <= year <= MAX_YEAR,
            head == seq![pad_left(dec_int(year as int), 32)],
            views(out@) == head + year_rows(year as int, today, q as int),
        decreases 4 - q,
    {
        let m1 = format_month(year, 3 * q + 1, false, today);
        let m2 = format_month(year, 3 * q + 2, false, today);
        let m3 = format_month(year, 3 * q + 3, false, today);
        let ghost start = views(out@);
        assert(views(m1@).len() == 8 && views(m2@).len() == 8 && views(m3@).len() == 8);
        assert(start + Seq::new(0, |j: int| row_line(year as int, today, q as int, j)) =~= start);
        let mut k: usize = 0;
        while k < 8
            invariant
                k <= 8,
                q < 4,
                views(m1@) == month_lines(year as int, 3 * q + 1, false, today),
                views(m2@) == month_lines(year as int, 3 * q + 2, false, today),
                views(m3@) == month_lines(year as int, 3 * q + 3, false, today),
                m1@.len() == 8 && m2@.len() == 8 && m3@.len() == 8,
                views(out@) == start + Seq::new(k as nat, |j: int| row_line(year as int, today, q as int, j)),
            decreases 8 - k,
        {
            assert(views(m1@)[k as int] == m1@[k as int]@);
            assert(views(m2@)[k as int] == m2@[k as int]@);
            assert(views(m3@)[k as int] == m3@[k as int]@);
            let ghost before = out@;
            out.push(concat3(m1[k].as_str(), m2[k].as_str(), m3[k].as_str()));
            assert(views(out@) =~= views(before).push(out@.last()@));
            k += 1;
            assert(views(out@) =~= start + Seq::new(k as nat, |j: int| row_line(year as int, today, q as int, j)));
        }
        if q < 3 {
            let ghost before = out@;
            out.push(String::new());
            assert(views(out@) =~= views(before).push(Seq::<char>::empty()));
        }
        q += 1;
        assert(views(out@) =~= head + year_rows(year as int, today, q as int));
    }
    out
}

/// The month whose lower-case name `lower` begins, where exactly one does.
pub fn month_by_name(lower: &str) -> (r: Option<u32>)
    ensures
        ({
            let ms = months_named(lower@, 12);
            if ms.len() == 1 {
                r == Some(ms[0] as u32)
            } else {
                r is None
            }
        }),
{
    let l = chars_of(lower);
    let mut found: Vec<u32> = Vec::new();
    let mut m: u32 = 1;
    while m <= 12
        invariant
            1 <= m <= 13,
            l@ == lower@,
            found@.len() == months_named(l@, m - 1).len(),
            forall|j: int|
                0 <= j < found@.len() ==> found@[j] as int == #[trigger] months_named(l@, m - 1)[j],
        decreases 13 - m,
    {
        let key = chars_of(month_key_str(m));
        if starts_with(&key, &l) {
            found.push(m);
        }
        m += 1;
    }
    if found.len() == 1 {
        Some(found[0])
    } else {
        None
    }
}

} // verus!

