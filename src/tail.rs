//! `tail`: line and byte counts, and where the output starts.

use vstd::prelude::*;
use vstd::string::StringSliceAdditionalSpecFns;
use crate::parse::{int_in, parse_decimal};
use crate::text::{chars_of, lemma_bytes_cover_chars, views};
use crate::wc::{count, FileInfo, lemma_counts_bounded, line_count};

verus! {

/// How much to take: `+0` (`PlusZero`), or a count, negative for the last
/// lines or bytes and positive for those from a 1-based position on.
#[derive(Debug, Clone, Copy, PartialEq, Eq, Structural)]
pub enum TakeValue {
    PlusZero,
    TakeNum(i64),
}

/// The settings of one run.
#[derive(Debug)]
pub struct Config {
    pub files: Vec<String>,
    pub lines: TakeValue,
    pub bytes: Option<TakeValue>,
    pub quiet: bool,
}

/// What a count argument stands for: `+0`, or the integer it writes, made
/// negative unless it carries a sign; the argument itself where it is no
/// 64-bit integer.
pub open spec fn take_value(s: Seq<char>) -> Result<TakeValue, Seq<char>> {
    match int_in(s, true, i64::MIN as int, i64::MAX as int) {
        None => Err(s),
        Some(n) => if s == seq!['+', '0'] {
            Ok(TakeValue::PlusZero)
        } else if s[0] == '+' || s[0] == '-' {
            Ok(TakeValue::TakeNum(n as i64))
        } else {
            Ok(TakeValue::TakeNum((-n) as i64))
        },
    }
}

/// Reads a count argument of `-n` or `-c`.
pub fn parse_take_num(value: &str) -> (r: Result<TakeValue, String>)
    ensures
        match take_value(value@) {
            Ok(t) => r == Ok::<TakeValue, String>(t),
            Err(e) => r is Err && r->Err_0@ == e,
        },
{
    match parse_decimal(value, true, i64::MIN as i128, i64::MAX as i128) {
        None => Err(String::from_str(value)),
        Some(n) => {
            let cs = chars_of(value);
            if cs.len() == 2 && cs[0] == '+' && cs[1] == '0' {
                assert(value@ =~= seq!['+', '0']);
                Ok(TakeValue::PlusZero)
            } else if cs[0] == '+' || cs[0] == '-' {
                Ok(TakeValue::TakeNum(n as i64))
            } else {
                assert(n >= 0);
                Ok(TakeValue::TakeNum(-(n as i64)))
            }
        },
    }
}

/// The 0-based index where the output starts, for `total` lines or bytes:
/// none for an empty input, a count of zero or a start past the end; the
/// last `-n` (all, where there are fewer); or from position `n` on. `+0`
/// gives the last one.
pub open spec fn start_index(take: TakeValue, total: int) -> Option<int> {
    if total == 0 {
        None
    } else {
        match take {
            TakeValue::PlusZero => Some(total - 1),
            TakeValue::TakeNum(n) => if n == 0 || n > total {
                None
            } else if n < 0 {
                if -n > total {
                    Some(0)
                } else {
                    Some(total + n)
                }
            } else {
                Some(n - 1)
            },
        }
    }
}

/// Where the output starts, for `total` lines or bytes.
pub fn get_start_index(take_val: &TakeValue, total: i64) -> (r: Option<u64>)
    requires
        total >= 0,
    ensures
        match start_index(*take_val, total as int) {
            Some(i) => r == Some(i as u64),
            None => r is None,
        },
{
    if total == 0 {
        return None;
    }
    match take_val {
        TakeValue::PlusZero => Some((total - 1) as u64),
        TakeValue::TakeNum(num) => {
            let num = *num;
            if num == 0 || num > total {
                None
            } else if num < 0 {
                if num < -total {
                    Some(0)
                } else {
                    Some((total + num) as u64)
                }
            } else {
                Some((num - 1) as u64)
            }
        },
    }
}

/// The number of lines and of bytes of `text`.
pub fn count_lines_bytes(text: &str) -> (r: (i64, i64))
    requires
        text.spec_bytes().len() <= i64::MAX,
    ensures
        r.0 == line_count(text@),
        r.1 == text.spec_bytes().len(),
{
    let info = match count(text) {
        Ok(info) => info,
        Err(_) => FileInfo { num_lines: 0, num_words: 0, num_bytes: 0, num_chars: 0 },
    };
    proof {
        lemma_counts_bounded(text@);
        lemma_bytes_cover_chars(text@);
    }
    (info.num_lines as i64, info.num_bytes as i64)
}

/// The lines that `tail` prints: those from the start index on, or none.
pub fn tail_lines(lines: &Vec<String>, num_lines: &TakeValue) -> (r: Vec<String>)
    requires
        lines@.len() <= i64::MAX,
    ensures
        views(r@) == match start_index(*num_lines, lines@.len() as int) {
            Some(i) => views(lines@).skip(i),
            None => Seq::empty(),
        },
{
    let mut r: Vec<String> = Vec::new();
    match get_start_index(num_lines, lines.len() as i64) {
        None => {
            assert(views(r@) =~= Seq::empty());
        },
        Some(start) => {
            let mut i: usize = start as usize;
            while i < lines.len()
                invariant
                    start < lines@.len(),
                    start <= i <= lines@.len(),
                    views(r@) == views(lines@).subrange(start as int, i as int),
                decreases lines.len() - i,
            {
                let ghost before = r@;
                r.push(lines[i].clone());
                assert(views(r@) =~= views(before).push(lines@[i as int]@));
                i += 1;
                assert(views(lines@).subrange(start as int, i as int) =~= views(lines@).subrange(
                    start as int,
                    i - 1,
                ).push(lines@[i - 1]@));
            }
            assert(views(lines@).subrange(start as int, lines@.len() as int) =~= views(
                lines@,
            ).skip(start as int));
        },
    }
    r
}

/// The bytes that `tail -c` prints: those from the start index on, or none.
pub fn tail_bytes(bytes: &[u8], num_bytes: &TakeValue) -> (r: Vec<u8>)
    requires
        bytes@.len() <= i64::MAX,
    ensures
        r@ == match start_index(*num_bytes, bytes@.len() as int) {
            Some(i) => bytes@.skip(i),
            None => Seq::empty(),
        },
{
    let mut r: Vec<u8> = Vec::new();
    match get_start_index(num_bytes, bytes.len() as i64) {
        None => {},
        Some(start) => {
            let mut i: usize = start as usize;
            while i < bytes.len()
                invariant
                    start < bytes@.len(),
                    start <= i <= bytes@.len(),
                    r@ == bytes@.subrange(start as int, i as int),
                decreases bytes.len() - i,
            {
                r.push(bytes[i]);
                i += 1;
                assert(r@ =~= bytes@.subrange(start as int, i as int));
            }
            assert(bytes@.subrange(start as int, bytes@.len() as int) =~= bytes@.skip(start as int));
        },
    }
    r
}

} // verus!

