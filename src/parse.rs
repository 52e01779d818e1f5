//! Decimal integers, read the way std's `str::parse` reads them: an optional
//! `+` (or, for signed types, `-`) and at least one ASCII digit, nothing else.

use vstd::prelude::*;
use crate::text::chars_of;

verus! {

/// Whether `c` is an ASCII digit.
pub open spec fn is_digit(c: char) -> bool {
    '0' <= c <= '9'
}

/// The value of the digit `c`.
pub open spec fn digit_value(c: char) -> nat {
    ((c as u32) - 48) as nat
}

/// Whether `s` is made of ASCII digits only.
pub open spec fn all_digits(s: Seq<char>) -> bool {
    forall|i: int| 0 <= i < s.len() ==> is_digit(#[trigger] s[i])
}

/// The number that the digits `s` write in base ten.
pub open spec fn digits_value(s: Seq<char>) -> nat
    decreases s.len(),
{
    if s.len() == 0 {
        0
    } else {
        digits_value(s.drop_last()) * 10 + digit_value(s.last())
    }
}

/// The value of a run of at least one digit.
pub open spec fn unsigned_value(s: Seq<char>) -> Option<int> {
    if s.len() > 0 && all_digits(s) {
        Some(digits_value(s) as int)
    } else {
        None
    }
}

/// The integer that `s` writes: an optional sign, then at least one digit.
/// A `-` is read only when `signed` holds.
pub open spec fn int_value(s: Seq<char>, signed: bool) -> Option<int> {
    if s.len() > 0 && s[0] == '+' {
        unsigned_value(s.skip(1))
    } else if signed && s.len() > 0 && s[0] == '-' {
        match unsigned_value(s.skip(1)) {
            Some(v) => Some(-v),
            None => None,
        }
    } else {
        unsigned_value(s)
    }
}

/// The integer that `s` writes, where it lies in `lo ..= hi`.
pub open spec fn int_in(s: Seq<char>, signed: bool, lo: int, hi: int) -> Option<int> {
    match int_value(s, signed) {
        Some(v) => if lo <= v <= hi {
            Some(v)
        } else {
            None
        },
        None => None,
    }
}

/// A bound above every value that the integer types here can hold (2^64).
pub const BIG: u128 = 0x1_0000_0000_0000_0000;

/// Reads the decimal integer `s` and keeps it if it lies in `lo ..= hi`.
pub fn parse_decimal(s: &str, signed: bool, lo: i128, hi: i128) -> (r: Option<i128>)
    requires
        -(BIG as int) <= lo,
        hi <= BIG,
    ensures
        match r {
            Some(v) => int_in(s@, signed, lo as int, hi as int) == Some(v as int),
            None => int_in(s@, signed, lo as int, hi as int) is None,
        },
{
    let cs = chars_of(s);
    let n = cs.len();
    let mut start: usize = 0;
    let mut neg = false;
    if n > 0 && cs[0] == '+' {
        start = 1;
    } else if signed && n > 0 && cs[0] == '-' {
        start = 1;
        neg = true;
    }
    if start >= n {
        assert(s@.skip(start as int).len() == 0);
        return None;
    }
    let ghost body = s@.skip(start as int);
    proof {
        if start == 0 {
            assert(s@.skip(0) == s@);
        }
    }
    assert(int_value(s@, signed) == if neg {
        match unsigned_value(body) {
            Some(v) => Some(-v),
            None => None,
        }
    } else {
        unsigned_value(body)
    });
    let mut acc: u128 = 0;
    let mut big = false;
    let mut i: usize = start;
    while i < n
        invariant
            start <= i <= n,
            n == s@.len(),
            cs@ == s@,
            body == s@.skip(start as int),
            forall|j: int| start <= j < i ==> is_digit(#[trigger] s@[j]),
            int_value(s@, signed) == if neg {
                match unsigned_value(body) {
                    Some(v) => Some(-v),
                    None => None,
                }
            } else {
                unsigned_value(body)
            },
            body.len() > 0,
            !big ==> acc as int == digits_value(body.take(i - start)),
            !big ==> acc <= BIG,
            big ==> digits_value(body.take(i - start)) > BIG,
        decreases n - i,
    {
        let c = cs[i];
        if !('0' <= c && c <= '9') {
            assert(!is_digit(body[i - start]));
            assert(!all_digits(body));
            return None;
        }
        let d = ((c as u32) - 48) as u128;
        let ghost prev = digits_value(body.take(i - start));
        assert(body.take(i + 1 - start).drop_last() == body.take(i - start));
        assert(digits_value(body.take(i + 1 - start)) == prev * 10 + d);
        if !big {
            acc = acc * 10 + d;
            if acc > BIG {
                big = true;
            }
        } else {
            assert(prev * 10 + d > BIG) by (nonlinear_arith)
                requires
                    prev > BIG,
                    d >= 0,
            ;
        }
        i += 1;
    }
    assert(body.take(n - start) == body);
    assert(all_digits(body));
    if big {
        assert(unsigned_value(body) == Some(digits_value(body) as int));
        return None;
    }
    let v: i128 = if neg {
        -(acc as i128)
    } else {
        acc as i128
    };
    if lo <= v && v <= hi {
        Some(v)
    } else {
        None
    }
}

/// Integer types that can be read from their decimal form.
pub trait DecimalInt: Sized {
    /// The value as a mathematical integer.
    spec fn int_of(&self) -> int;

    /// Whether the type reads a leading `-`.
    spec fn signed() -> bool;

    /// The smallest value of the type.
    spec fn lowest() -> int;

    /// The largest value of the type.
    spec fn highest() -> int;

    /// Reads `s`; `None` where it is no integer of the type.
    fn from_decimal(s: &str) -> (r: Option<Self>)
        ensures
            match r {
                Some(v) => int_in(s@, Self::signed(), Self::lowest(), Self::highest()) == Some(
                    v.int_of(),
                ),
                None => int_in(s@, Self::signed(), Self::lowest(), Self::highest()) is None,
            },
    ;
}

impl DecimalInt for usize {
    open spec fn int_of(&self) -> int {
        *self as int
    }

    open spec fn signed() -> bool {
        false
    }

    open spec fn lowest() -> int {
        0
    }

    open spec fn highest() -> int {
        usize::MAX as int
    }

    fn from_decimal(s: &str) -> (r: Option<usize>) {
        match parse_decimal(s, false, 0, usize::MAX as i128) {
            Some(v) => Some(v as usize),
            None => None,
        }
    }
}

impl DecimalInt for u32 {
    open spec fn int_of(&self) -> int {
        *self as int
    }

    open spec fn signed() -> bool {
        false
    }

    open spec fn lowest() -> int {
        0
    }

    open spec fn highest() -> int {
        u32::MAX as int
    }

    fn from_decimal(s: &str) -> (r: Option<u32>) {
        match parse_decimal(s, false, 0, u32::MAX as i128) {
            Some(v) => Some(v as u32),
            None => None,
        }
    }
}

impl DecimalInt for u64 {
    open spec fn int_of(&self) -> int {
        *self as int
    }

    open spec fn signed() -> bool {
        false
    }

    open spec fn lowest() -> int {
        0
    }

    open spec fn highest() -> int {
        u64::MAX as int
    }

    fn from_decimal(s: &str) -> (r: Option<u64>) {
        match parse_decimal(s, false, 0, u64::MAX as i128) {
            Some(v) => Some(v as u64),
            None => None,
        }
    }
}

impl DecimalInt for i32 {
    open spec fn int_of(&self) -> int {
        *self as int
    }

    open spec fn signed() -> bool {
        true
    }

    open spec fn lowest() -> int {
        i32::MIN as int
    }

    open spec fn highest() -> int {
        i32::MAX as int
    }

    fn from_decimal(s: &str) -> (r: Option<i32>) {
        match parse_decimal(s, true, i32::MIN as i128, i32::MAX as i128) {
            Some(v) => Some(v as i32),
            None => None,
        }
    }
}

impl DecimalInt for i64 {
    open spec fn int_of(&self) -> int {
        *self as int
    }

    open spec fn signed() -> bool {
        true
    }

    open spec fn lowest() -> int {
        i64::MIN as int
    }

    open spec fn highest() -> int {
        i64::MAX as int
    }

    fn from_decimal(s: &str) -> (r: Option<i64>) {
        match parse_decimal(s, true, i64::MIN as i128, i64::MAX as i128) {
            Some(v) => Some(v as i64),
            None => None,
        }
    }
}

} // verus!
