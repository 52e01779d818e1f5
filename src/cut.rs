//! `cut`: position lists, and the selection of characters, bytes or fields.

use vstd::prelude::*;
use core::ops::Range;
use vstd::string::StringSliceAdditionalSpecFns;
use crate::parse::{int_in, parse_decimal};
use crate::pattern::{capture_view, captures_of, regex_captures};
use crate::text::{
    chars_of, concat3, dec, decimal, lossy_of, string_of, utf8_lossy, views,
};

verus! {

/// What the positions select from each line.
#[derive(Debug)]
pub enum Extract {
    Fields(Vec<Range<usize>>),
    Bytes(Vec<Range<usize>>),
    Chars(Vec<Range<usize>>),
}

/// The settings of one run.
#[derive(Debug)]
pub struct Config {
    pub files: Vec<String>,
    pub delimiter: u8,
    pub extract: Extract,
}

/// The message for a position that is no positive integer.
pub open spec fn list_error(s: Seq<char>) -> Seq<char> {
    "illegal list value: \""@ + s + "\""@
}

/// The message for a range whose ends are out of order (given 1-based).
pub open spec fn order_error(a: nat, b: nat) -> Seq<char> {
    "First number in range ("@ + dec(a) + ") must be lower than second number ("@ + dec(b)
        + ")"@
}

/// The 0-based index that the 1-based position `s` names: a positive decimal
/// integer without a leading `+`.
pub open spec fn index_value(s: Seq<char>) -> Option<int> {
    if s.len() > 0 && s[0] == '+' {
        None
    } else {
        match int_in(s, false, 1, usize::MAX as int) {
            Some(n) => Some(n - 1),
            None => None,
        }
    }
}

/// The pattern of a closed range: two runs of decimal digits joined by `-`.
pub open spec fn range_pattern() -> Seq<char> {
    "^(\\d+)-(\\d+)$"@
}

/// What one item of a position list stands for, given what the range pattern
/// captures in it: a single position, else the two sides of a range, else the
/// item is wrong. The result is the half-open range of 0-based indices, or
/// the error message.
pub open spec fn item_range_from(p: Seq<char>, caps: Option<Seq<Option<Seq<char>>>>) -> Result<
    (int, int),
    Seq<char>,
> {
    match index_value(p) {
        Some(n) => Ok((n, n + 1)),
        None => match caps {
            Some(c) => if c.len() >= 3 && c[1] is Some && c[2] is Some {
                let left = c[1]->0;
                let right = c[2]->0;
                match index_value(left) {
                    None => Err(list_error(left)),
                    Some(a) => match index_value(right) {
                        None => Err(list_error(right)),
                        Some(b) => if a >= b {
                            Err(order_error((a + 1) as nat, (b + 1) as nat))
                        } else {
                            Ok((a, b + 1))
                        },
                    },
                }
            } else {
                Err(list_error(p))
            },
            None => Err(list_error(p)),
        },
    }
}

/// What one item of a position list stands for.
pub open spec fn item_range(p: Seq<char>) -> Result<(int, int), Seq<char>> {
    item_range_from(p, captures_of(range_pattern(), p))
}

/// The pieces of `s` between the separators `sep`.
pub open spec fn split_on(s: Seq<char>, sep: char) -> Seq<Seq<char>>
    decreases s.len(),
{
    if s.len() == 0 {
        seq![Seq::empty()]
    } else {
        let p = split_on(s.drop_last(), sep);
        if s.last() == sep {
            p.push(Seq::empty())
        } else {
            p.update(p.len() - 1, p.last().push(s.last()))
        }
    }
}

/// The ranges of the items `ps`, or the message of the first that is wrong.
pub open spec fn item_ranges(ps: Seq<Seq<char>>) -> Result<Seq<(int, int)>, Seq<char>>
    decreases ps.len(),
{
    if ps.len() == 0 {
        Ok(Seq::empty())
    } else {
        match item_ranges(ps.drop_last()) {
            Err(e) => Err(e),
            Ok(v) => match item_range(ps.last()) {
                Ok(r) => Ok(v.push(r)),
                Err(e) => Err(e),
            },
        }
    }
}

/// The position list that `s` writes: items separated by commas.
pub open spec fn position_list(s: Seq<char>) -> Result<Seq<(int, int)>, Seq<char>> {
    item_ranges(split_on(s, ','))
}

/// The ends of each range, as integers.
pub open spec fn bounds(v: Seq<Range<usize>>) -> Seq<(int, int)> {
    v.map_values(|r: Range<usize>| (r.start as int, r.end as int))
}

proof fn lemma_split_nonempty(s: Seq<char>, sep: char)
    ensures
        split_on(s, sep).len() > 0,
    decreases s.len(),
{
    if s.len() > 0 {
        lemma_split_nonempty(s.drop_last(), sep);
    }
}

/// Cuts `s` at each `sep`.
pub fn split_chars(s: &Vec<char>, sep: char) -> (r: Vec<Vec<char>>)
    ensures
        r@.len() == split_on(s@, sep).len(),
        forall|i: int| 0 <= i < r@.len() ==> r@[i]@ == #[trigger] split_on(s@, sep)[i],
{
    let mut r: Vec<Vec<char>> = Vec::new();
    let mut cur: Vec<char> = Vec::new();
    let mut i: usize = 0;
    while i < s.len()
        invariant
            i <= s.len(),
            r@.len() + 1 == split_on(s@.take(i as int), sep).len(),
            forall|j: int| 0 <= j < r@.len() ==> r@[j]@ == #[trigger] split_on(s@.take(i as int), sep)[j],
            cur@ == split_on(s@.take(i as int), sep).last(),
        decreases s.len() - i,
    {
        proof {
            lemma_split_nonempty(s@.take(i as int), sep);
        }
        assert(s@.take(i + 1).drop_last() == s@.take(i as int));
        let c = s[i];
        if c == sep {
            r.push(cur);
            cur = Vec::new();
        } else {
            cur.push(c);
        }
        i += 1;
    }
    assert(s@.take(s.len() as int) == s@);
    r.push(cur);
    r
}

/// Reads a 1-based position and gives its 0-based index.
pub fn parse_index(input: &str) -> (r: Result<usize, String>)
    ensures
        match r {
            Ok(n) => index_value(input@) == Some(n as int),
            Err(e) => index_value(input@) is None && e@ == list_error(input@),
        },
{
    let cs = chars_of(input);
    let v = if cs.len() > 0 && cs[0] == '+' {
        None
    } else {
        parse_decimal(input, false, 1, usize::MAX as i128)
    };
    match v {
        Some(n) => Ok((n - 1) as usize),
        None => Err(concat3("illegal list value: \"", input, "\"")),
    }
}

/// Reads one item of a position list, given what the range pattern captures
/// in it.
pub fn parse_range_item(piece: &str, caps: &Option<Vec<Option<String>>>) -> (r: Result<
    Range<usize>,
    String,
>)
    ensures
        match r {
            Ok(v) => item_range_from(piece@, capture_view(*caps)) == Ok::<(int, int), Seq<char>>(
                (v.start as int, v.end as int),
            ),
            Err(e) => item_range_from(piece@, capture_view(*caps)) == Err::<(int, int), Seq<char>>(
                e@,
            ),
        },
{
    let whole = parse_index(piece);
    match whole {
        Ok(n) => Ok(Range { start: n, end: n + 1 }),
        Err(e) => match caps {
            None => Err(e),
            Some(c) => {
                if c.len() < 3 {
                    return Err(e);
                }
                let (left, right) = match (&c[1], &c[2]) {
                    (Some(l), Some(r)) => (l, r),
                    _ => {
                        return Err(e);
                    },
                };
                let a = match parse_index(left.as_str()) {
                    Ok(a) => a,
                    Err(e) => {
                        return Err(e);
                    },
                };
                let b = match parse_index(right.as_str()) {
                    Ok(b) => b,
                    Err(e) => {
                        return Err(e);
                    },
                };
                if a >= b {
                    let mut msg = String::from_str("First number in range (");
                    msg.append(decimal((a + 1) as u64).as_str());
                    msg.append(") must be lower than second number (");
                    msg.append(decimal((b + 1) as u64).as_str());
                    msg.append(")");
                    return Err(msg);
                }
                Ok(Range { start: a, end: b + 1 })
            },
        },
    }
}

/// Reads one item of a position list.
fn parse_item(piece: &str) -> (r: Result<Range<usize>, String>)
    ensures
        match r {
            Ok(v) => item_range(piece@) == Ok::<(int, int), Seq<char>>((v.start as int, v.end as int)),
            Err(e) => item_range(piece@) == Err::<(int, int), Seq<char>>(e@),
        },
{
    match parse_index(piece) {
        Ok(n) => Ok(Range { start: n, end: n + 1 }),
        Err(_) => {
            let caps = regex_captures("^(\\d+)-(\\d+)$", piece);
            parse_range_item(piece, &caps)
        },
    }
}

proof fn lemma_error_stays(ps: Seq<Seq<char>>, i: int, n: int)
    requires
        0 <= i <= n <= ps.len(),
        item_ranges(ps.take(i)) is Err,
    ensures
        item_ranges(ps.take(n)) == item_ranges(ps.take(i)),
    decreases n - i,
{
    if n > i {
        lemma_error_stays(ps, i, n - 1);
        assert(ps.take(n).drop_last() == ps.take(n - 1));
    }
}

/// Every range of a position list holds at least one index: its start is
/// below its end, and neither is negative.
pub proof fn lemma_position_ranges_nonempty(s: Seq<char>)
    ensures
        position_list(s) is Ok ==> forall|i: int|
            0 <= i < position_list(s)->Ok_0.len() ==> 0 <= (#[trigger] position_list(s)->Ok_0[i]).0
                < position_list(s)->Ok_0[i].1,
{
    lemma_item_ranges_nonempty(split_on(s, ','));
}

proof fn lemma_item_ranges_nonempty(ps: Seq<Seq<char>>)
    ensures
        item_ranges(ps) is Ok ==> forall|i: int|
            0 <= i < item_ranges(ps)->Ok_0.len() ==> 0 <= (#[trigger] item_ranges(ps)->Ok_0[i]).0
                < item_ranges(ps)->Ok_0[i].1,
    decreases ps.len(),
{
    if ps.len() > 0 {
        lemma_item_ranges_nonempty(ps.drop_last());
        if item_ranges(ps) is Ok {
            let v = item_ranges(ps.drop_last())->Ok_0;
            let r = item_range(ps.last())->Ok_0;
            assert(0 <= r.0 < r.1);
            assert forall|i: int| 0 <= i < item_ranges(ps)->Ok_0.len() implies 0 <= (
            #[trigger] item_ranges(ps)->Ok_0[i]).0 < item_ranges(ps)->Ok_0[i].1 by {
                if i < v.len() {
                    assert(item_ranges(ps)->Ok_0[i] == v[i]);
                }
            }
        }
    }
}

/// Reads a position list: comma-separated 1-based positions (`3`) and closed
/// ranges (`3-5`), each made a half-open range of 0-based indices, in order.
pub fn parse_pos(range: &str) -> (r: Result<Vec<Range<usize>>, String>)
    ensures
        match r {
            Ok(v) => position_list(range@) == Ok::<Seq<(int, int)>, Seq<char>>(bounds(v@)),
            Err(e) => position_list(range@) == Err::<Seq<(int, int)>, Seq<char>>(e@),
        },
{
    let cs = chars_of(range);
    let pieces = split_chars(&cs, ',');
    let ghost ps = split_on(range@, ',');
    let mut out: Vec<Range<usize>> = Vec::new();
    let mut i: usize = 0;
    assert(ps.take(0) =~= Seq::<Seq<char>>::empty());
    assert(bounds(out@) =~= Seq::<(int, int)>::empty());
    while i < pieces.len()
        invariant
            i <= pieces.len(),
            ps == split_on(range@, ','),
            pieces@.len() == ps.len(),
            forall|j: int| 0 <= j < pieces@.len() ==> pieces@[j]@ == #[trigger] ps[j],
            item_ranges(ps.take(i as int)) == Ok::<Seq<(int, int)>, Seq<char>>(bounds(out@)),
        decreases pieces.len() - i,
    {
        assert(ps.take(i + 1).drop_last() == ps.take(i as int));
        assert(ps.take(i + 1).last() == pieces@[i as int]@);
        let piece = string_of(&pieces[i]);
        match parse_item(piece.as_str()) {
            Ok(rg) => {
                let ghost before = out@;
                out.push(rg);
                assert(bounds(out@) =~= bounds(before).push((rg.start as int, rg.end as int)));
            },
            Err(e) => {
                proof {
                    assert(item_ranges(ps.take(i + 1)) == Err::<Seq<(int, int)>, Seq<char>>(e@));
                    lemma_error_stays(ps, i + 1, ps.len() as int);
                    assert(ps.take(ps.len() as int) == ps);
                }
                return Err(e);
            },
        }
        i += 1;
    }
    assert(ps.take(pieces.len() as int) == ps);
    Ok(out)
}

/// Whether `c` has the Unicode `Alphabetic` property, as
/// `char::is_alphabetic` reports it.
pub uninterp spec fn alphabetic(c: char) -> bool;

/// Relies on `char::is_alphabetic`: the Unicode `Alphabetic` property.
#[verifier::external_body]
fn is_alphabetic(c: char) -> (r: bool)
    ensures
        r == alphabetic(c),
{
    c.is_alphabetic()
}

/// Whether `p` holds a `+` or a letter.
pub open spec fn has_sign_or_letter(p: Seq<char>) -> bool {
    exists|i: int| 0 <= i < p.len() && (p[i] == '+' || alphabetic(#[trigger] p[i]))
}

/// A positive integer that `s` writes.
pub open spec fn positive_value(s: Seq<char>) -> Option<int> {
    int_in(s, false, 1, usize::MAX as int)
}

/// What one item of a list stands for under the older reading of position
/// lists: an item with a `+` or a letter, or a wrong side of a range, is
/// named in the message; a wrong single position, or more than one `-`,
/// names the whole list `whole`.
pub open spec fn item_range2(p: Seq<char>, whole: Seq<char>) -> Result<(int, int), Seq<char>> {
    if has_sign_or_letter(p) {
        Err(list_error(p))
    } else {
        let parts = split_on(p, '-');
        if parts.len() == 1 {
            match positive_value(p) {
                Some(e) => Ok((e - 1, e)),
                None => Err(list_error(whole)),
            }
        } else if parts.len() == 2 {
            match positive_value(parts[0]) {
                None => Err(list_error(parts[0])),
                Some(a) => match positive_value(parts[1]) {
                    None => Err(list_error(parts[1])),
                    Some(b) => if a >= b {
                        Err(order_error(a as nat, b as nat))
                    } else {
                        Ok((a - 1, b))
                    },
                },
            }
        } else {
            Err(list_error(whole))
        }
    }
}

/// The ranges of the items `ps` of the list `whole` under the older reading,
/// or the message of the first that is wrong.
pub open spec fn item_ranges2(ps: Seq<Seq<char>>, whole: Seq<char>) -> Result<
    Seq<(int, int)>,
    Seq<char>,
>
    decreases ps.len(),
{
    if ps.len() == 0 {
        Ok(Seq::empty())
    } else {
        match item_ranges2(ps.drop_last(), whole) {
            Err(e) => Err(e),
            Ok(v) => match item_range2(ps.last(), whole) {
                Ok(r) => Ok(v.push(r)),
                Err(e) => Err(e),
            },
        }
    }
}

/// The position list that `s` writes under the older reading.
pub open spec fn position_list2(s: Seq<char>) -> Result<Seq<(int, int)>, Seq<char>> {
    item_ranges2(split_on(s, ','), s)
}

proof fn lemma_error_stays2(ps: Seq<Seq<char>>, whole: Seq<char>, i: int, n: int)
    requires
        0 <= i <= n <= ps.len(),
        item_ranges2(ps.take(i), whole) is Err,
    ensures
        item_ranges2(ps.take(n), whole) == item_ranges2(ps.take(i), whole),
    decreases n - i,
{
    if n > i {
        lemma_error_stays2(ps, whole, i, n - 1);
        assert(ps.take(n).drop_last() == ps.take(n - 1));
    }
}

fn parse_positive(s: &Vec<char>) -> (r: Option<usize>)
    ensures
        match r {
            Some(n) => positive_value(s@) == Some(n as int),
            None => positive_value(s@) is None,
        },
{
    let t = string_of(s);
    match parse_decimal(t.as_str(), false, 1, usize::MAX as i128) {
        Some(n) => Some(n as usize),
        None => None,
    }
}

fn parse_item2(p: &Vec<char>, whole: &str) -> (r: Result<Range<usize>, String>)
    ensures
        match r {
            Ok(v) => item_range2(p@, whole@) == Ok::<(int, int), Seq<char>>(
                (v.start as int, v.end as int),
            ),
            Err(e) => item_range2(p@, whole@) == Err::<(int, int), Seq<char>>(e@),
        },
{
    let mut i: usize = 0;
    while i < p.len()
        invariant
            i <= p@.len(),
            forall|j: int| 0 <= j < i ==> !(p@[j] == '+' || alphabetic(#[trigger] p@[j])),
        decreases p.len() - i,
    {
        if p[i] == '+' || is_alphabetic(p[i]) {
            assert(has_sign_or_letter(p@));
            let t = string_of(p);
            return Err(concat3("illegal list value: \"", t.as_str(), "\""));
        }
        i += 1;
    }
    let parts = split_chars(p, '-');
    if parts.len() == 1 {
        assert(parts@[0]@ == p@) by {
            lemma_single_piece(p@, '-');
        }
        match parse_positive(p) {
            Some(e) => Ok(Range { start: e - 1, end: e }),
            None => Err(concat3("illegal list value: \"", whole, "\"")),
        }
    } else if parts.len() == 2 {
        let a = match parse_positive(&parts[0]) {
            Some(a) => a,
            None => {
                let t = string_of(&parts[0]);
                return Err(concat3("illegal list value: \"", t.as_str(), "\""));
            },
        };
        let b = match parse_positive(&parts[1]) {
            Some(b) => b,
            None => {
                let t = string_of(&parts[1]);
                return Err(concat3("illegal list value: \"", t.as_str(), "\""));
            },
        };
        if a >= b {
            let mut msg = String::from_str("First number in range (");
            msg.append(decimal(a as u64).as_str());
            msg.append(") must be lower than second number (");
            msg.append(decimal(b as u64).as_str());
            msg.append(")");
            return Err(msg);
        }
        Ok(Range { start: a - 1, end: b })
    } else {
        Err(concat3("illegal list value: \"", whole, "\""))
    }
}

proof fn lemma_single_piece(s: Seq<char>, sep: char)
    requires
        split_on(s, sep).len() == 1,
    ensures
        split_on(s, sep)[0] == s,
    decreases s.len(),
{
    if s.len() > 0 {
        lemma_split_nonempty(s.drop_last(), sep);
        if s.last() != sep {
            lemma_single_piece(s.drop_last(), sep);
            assert(s == s.drop_last().push(s.last()));
        }
    }
}

/// Reads a position list the older way: comma-separated items, each a
/// positive position or two joined by `-`, checked for `+` and letters
/// first. It stands beside `parse_pos`, whose messages name the wrong part
/// more closely.
pub fn parse_pos2(range: &str) -> (r: Result<Vec<Range<usize>>, String>)
    ensures
        match r {
            Ok(v) => position_list2(range@) == Ok::<Seq<(int, int)>, Seq<char>>(bounds(v@)),
            Err(e) => position_list2(range@) == Err::<Seq<(int, int)>, Seq<char>>(e@),
        },
{
    let cs = chars_of(range);
    let pieces = split_chars(&cs, ',');
    let ghost ps = split_on(range@, ',');
    let mut out: Vec<Range<usize>> = Vec::new();
    let mut i: usize = 0;
    assert(ps.take(0) =~= Seq::<Seq<char>>::empty());
    assert(bounds(out@) =~= Seq::<(int, int)>::empty());
    while i < pieces.len()
        invariant
            i <= pieces.len(),
            ps == split_on(range@, ','),
            pieces@.len() == ps.len(),
            forall|j: int| 0 <= j < pieces@.len() ==> pieces@[j]@ == #[trigger] ps[j],
            item_ranges2(ps.take(i as int), range@) == Ok::<Seq<(int, int)>, Seq<char>>(
                bounds(out@),
            ),
        decreases pieces.len() - i,
    {
        assert(ps.take(i + 1).drop_last() == ps.take(i as int));
        assert(ps.take(i + 1).last() == pieces@[i as int]@);
        match parse_item2(&pieces[i], range) {
            Ok(rg) => {
                let ghost before = out@;
                out.push(rg);
                assert(bounds(out@) =~= bounds(before).push((rg.start as int, rg.end as int)));
            },
            Err(e) => {
                proof {
                    assert(item_ranges2(ps.take(i + 1), range@) == Err::<Seq<(int, int)>, Seq<char>>(
                        e@,
                    ));
                    lemma_error_stays2(ps, range@, i + 1, ps.len() as int);
                    assert(ps.take(ps.len() as int) == ps);
                }
                return Err(e);
            },
        }
        i += 1;
    }
    assert(ps.take(pieces.len() as int) == ps);
    Ok(out)
}

/// `n`, but no more than `len`.
pub open spec fn clamp(n: int, len: int) -> int {
    if n < len {
        n
    } else {
        len
    }
}

/// The items of `s` whose indices lie in the half-open range `r`.
pub open spec fn span<T>(s: Seq<T>, r: (int, int)) -> Seq<T> {
    let a = clamp(r.0, s.len() as int);
    let b = clamp(r.1, s.len() as int);
    if a < b {
        s.subrange(a, b)
    } else {
        Seq::empty()
    }
}

/// The items of `s` that the ranges `rs` select, range after range, each in
/// its own order; indices past the end select nothing.
pub open spec fn pick<T>(s: Seq<T>, rs: Seq<(int, int)>) -> Seq<T>
    decreases rs.len(),
{
    if rs.len() == 0 {
        Seq::empty()
    } else {
        pick(s, rs.drop_last()) + span(s, rs.last())
    }
}

fn pick_items<T: Copy>(s: &[T], ranges: &[Range<usize>]) -> (r: Vec<T>)
    ensures
        r@ == pick(s@, bounds(ranges@)),
{
    let mut out: Vec<T> = Vec::new();
    let mut k: usize = 0;
    while k < ranges.len()
        invariant
            k <= ranges.len(),
            out@ == pick(s@, bounds(ranges@.take(k as int))),
        decreases ranges.len() - k,
    {
        let a = if ranges[k].start < s.len() {
            ranges[k].start
        } else {
            s.len()
        };
        let b = if ranges[k].end < s.len() {
            ranges[k].end
        } else {
            s.len()
        };
        let ghost before = out@;
        if a < b {
            let mut i: usize = a;
            while i < b
                invariant
                    a <= i <= b <= s.len(),
                    out@ == before + s@.subrange(a as int, i as int),
                decreases b - i,
            {
                out.push(s[i]);
                i += 1;
                assert(out@ =~= before + s@.subrange(a as int, i as int));
            }
        }
        assert(bounds(ranges@.take(k + 1)).drop_last() =~= bounds(ranges@.take(k as int)));
        assert(bounds(ranges@.take(k + 1)).last() == (
        ranges@[k as int].start as int,
        ranges@[k as int].end as int,
        ));
        if a >= b {
            assert(out@ =~= before);
        }
        k += 1;
    }
    assert(ranges@.take(ranges.len() as int) == ranges@);
    out
}

/// The characters of `line` at the positions `char_pos`.
pub fn extract_chars(line: &str, char_pos: &[Range<usize>]) -> (r: String)
    ensures
        r@ == pick(line@, bounds(char_pos@)),
{
    let cs = chars_of(line);
    let v = pick_items(cs.as_slice(), char_pos);
    string_of(&v)
}

/// The bytes of `line` at the positions `byte_pos`, read back as UTF-8 with
/// each invalid sequence replaced by U+FFFD.
pub fn extract_bytes(line: &str, byte_pos: &[Range<usize>]) -> (r: String)
    ensures
        r@ == lossy_of(pick(line.spec_bytes(), bounds(byte_pos@))),
        vstd::utf8::valid_utf8(pick(line.spec_bytes(), bounds(byte_pos@))) ==> r@
            == vstd::utf8::decode_utf8(pick(line.spec_bytes(), bounds(byte_pos@))),
{
    let bytes = line.as_bytes();
    let v = pick_items(bytes, byte_pos);
    utf8_lossy(v.as_slice())
}

#[verifier::external_type_specification]
#[verifier::external_body]
pub struct ExStringRecord(csv::StringRecord);

/// The fields that a csv record holds, in order.
pub uninterp spec fn record_fields(r: csv::StringRecord) -> Seq<Seq<char>>;

/// Relies on csv's `StringRecord::len`: the number of fields in the record.
pub assume_specification[ csv::StringRecord::len ](r: &csv::StringRecord) -> (n: usize)
    ensures
        n == record_fields(*r).len(),
;

/// Relies on csv's `StringRecord::get`: the field at index `i`, or `None` past
/// the last one.
pub assume_specification[ csv::StringRecord::get ](r: &csv::StringRecord, i: usize) -> (f:
    Option<&str>)
    ensures
        i < record_fields(*r).len() ==> f is Some && f->0@ == record_fields(*r)[i as int],
        i >= record_fields(*r).len() ==> f is None,
;

/// The fields of `record` at the positions `field_pos`.
pub fn extract_fields(record: &csv::StringRecord, field_pos: &[Range<usize>]) -> (r: Vec<String>)
    ensures
        views(r@) == pick(record_fields(*record), bounds(field_pos@)),
{
    let ghost fs = record_fields(*record);
    let n = record.len();
    let mut out: Vec<String> = Vec::new();
    let mut k: usize = 0;
    while k < field_pos.len()
        invariant
            k <= field_pos.len(),
            fs == record_fields(*record),
            n == fs.len(),
            views(out@) == pick(fs, bounds(field_pos@.take(k as int))),
        decreases field_pos.len() - k,
    {
        let a = if field_pos[k].start < n {
            field_pos[k].start
        } else {
            n
        };
        let b = if field_pos[k].end < n {
            field_pos[k].end
        } else {
            n
        };
        let ghost before = views(out@);
        if a < b {
            let mut i: usize = a;
            while i < b
                invariant
                    a <= i <= b <= n,
                    fs == record_fields(*record),
                    n == fs.len(),
                    views(out@) == before + fs.subrange(a as int, i as int),
                decreases b - i,
            {
                match record.get(i) {
                    Some(f) => {
                        let ghost prev = out@;
                        out.push(f.to_owned());
                        assert(views(out@) =~= views(prev).push(fs[i as int]));
                    },
                    None => {},
                }
                i += 1;
                assert(views(out@) =~= before + fs.subrange(a as int, i as int));
            }
        }
        assert(bounds(field_pos@.take(k + 1)).drop_last() =~= bounds(field_pos@.take(k as int)));
        assert(bounds(field_pos@.take(k + 1)).last() == (
        field_pos@[k as int].start as int,
        field_pos@[k as int].end as int,
        ));
        if a >= b {
            assert(views(out@) =~= before);
        }
        k += 1;
    }
    assert(field_pos@.take(field_pos.len() as int) == field_pos@);
    out
}

/// The message for a delimiter that is not one byte.
pub open spec fn delimiter_error(s: Seq<char>) -> Seq<char> {
    "--delim \""@ + s + "\" must be a single byte"@
}

/// Reads the field delimiter, which must be a single byte.
pub fn parse_delimiter(delim: &str) -> (r: Result<u8, String>)
    ensures
        match r {
            Ok(b) => delim.spec_bytes() == seq![b],
            Err(e) => delim.spec_bytes().len() != 1 && e@ == delimiter_error(delim@),
        },
{
    let bytes = delim.as_bytes();
    if bytes.len() == 1 {
        assert(delim.spec_bytes() =~= seq![bytes[0]]);
        Ok(bytes[0])
    } else {
        Err(concat3("--delim \"", delim, "\" must be a single byte"))
    }
}

/// The message when no list of positions is given.
pub open spec fn no_list_error() -> Seq<char> {
    "Must have --fields, --bytes, or --chars"@
}

/// The position list that an optional argument gives, if any.
pub open spec fn optional_list(s: Option<Seq<char>>) -> Result<Option<Seq<(int, int)>>, Seq<char>> {
    match s {
        None => Ok(None),
        Some(t) => match position_list(t) {
            Ok(v) => Ok(Some(v)),
            Err(e) => Err(e),
        },
    }
}

fn parse_optional(s: Option<&str>) -> (r: Result<Option<Vec<Range<usize>>>, String>)
    ensures
        match s {
            None => r == Ok::<Option<Vec<Range<usize>>>, String>(None),
            Some(t) => match r {
                Ok(Some(v)) => position_list(t@) == Ok::<Seq<(int, int)>, Seq<char>>(bounds(v@)),
                Ok(None) => false,
                Err(e) => position_list(t@) == Err::<Seq<(int, int)>, Seq<char>>(e@),
            },
        },
{
    match s {
        None => Ok(None),
        Some(t) => match parse_pos(t) {
            Ok(v) => Ok(Some(v)),
            Err(e) => Err(e),
        },
    }
}

/// Chooses what to extract from the `--fields`, `--bytes` and `--chars`
/// arguments: each given list is read, in that order, and the first given one
/// is taken.
pub fn parse_extract(fields: Option<&str>, bytes: Option<&str>, chars: Option<&str>) -> (r: Result<
    Extract,
    String,
>)
    ensures
        match (optional_list(opt_view(fields)), optional_list(opt_view(bytes)), optional_list(opt_view(chars))) {
            (Err(e), _, _) => r is Err && r->Err_0@ == e,
            (Ok(_), Err(e), _) => r is Err && r->Err_0@ == e,
            (Ok(_), Ok(_), Err(e)) => r is Err && r->Err_0@ == e,
            (Ok(Some(f)), Ok(_), Ok(_)) => r is Ok && r->Ok_0 is Fields && bounds(r->Ok_0->Fields_0@) == f,
            (Ok(None), Ok(Some(b)), Ok(_)) => r is Ok && r->Ok_0 is Bytes && bounds(r->Ok_0->Bytes_0@) == b,
            (Ok(None), Ok(None), Ok(Some(c))) => r is Ok && r->Ok_0 is Chars && bounds(r->Ok_0->Chars_0@) == c,
            (Ok(None), Ok(None), Ok(None)) => r is Err && r->Err_0@ == no_list_error(),
        },
{
    let f = parse_optional(fields);
    let f = match f {
        Ok(f) => f,
        Err(e) => {
            return Err(e);
        },
    };
    let b = parse_optional(bytes);
    let b = match b {
        Ok(b) => b,
        Err(e) => {
            return Err(e);
        },
    };
    let c = parse_optional(chars);
    let c = match c {
        Ok(c) => c,
        Err(e) => {
            return Err(e);
        },
    };
    match (f, b, c) {
        (Some(v), _, _) => Ok(Extract::Fields(v)),
        (None, Some(v), _) => Ok(Extract::Bytes(v)),
        (None, None, Some(v)) => Ok(Extract::Chars(v)),
        (None, None, None) => Err(String::from_str("Must have --fields, --bytes, or --chars")),
    }
}

/// The view of an optional string.
pub open spec fn opt_view(s: Option<&str>) -> Option<Seq<char>> {
    match s {
        Some(t) => Some(t@),
        None => None,
    }
}

} // verus!



