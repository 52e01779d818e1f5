//! `fortune`: the arguments, which files hold fortunes, and the records
//! of a fortune file.

use vstd::prelude::*;
use crate::parse::{int_in, DecimalInt};
use crate::pattern::{pattern_valid, Pattern};
use crate::text::{
    chars_of, concat3, lossy_of, pieces, split_bytes_after, string_of, trim, trim_chars, utf8_lossy,
};

verus! {

/// The settings of one run.
#[derive(Debug)]
pub struct Config {
    pub sources: Vec<String>,
    pub pattern: Option<Pattern>,
    pub seed: Option<u64>,
}

/// One fortune, and the file it came from.
#[derive(Debug)]
pub struct Fortune {
    pub sources: String,
    pub text: String,
}

/// The message for a seed that is no integer.
pub open spec fn seed_error(s: Seq<char>) -> Seq<char> {
    "\""@ + s + "\" not a valid integer"@
}

/// Reads the random seed.
pub fn parse_u64(val: &str) -> (r: Result<u64, String>)
    ensures
        match int_in(val@, false, 0, u64::MAX as int) {
            Some(n) => r == Ok::<u64, String>(n as u64),
            None => r is Err && r->Err_0@ == seed_error(val@),
        },
{
    match u64::from_decimal(val) {
        Some(n) => Ok(n),
        None => Err(concat3("\"", val, "\" not a valid integer")),
    }
}

/// The message for a pattern that does not compile.
pub open spec fn pattern_error(s: Seq<char>) -> Seq<char> {
    "Invalid --pattern \""@ + s + "\""@
}

/// Compiles the `--pattern` argument, with or without case folding.
pub fn build_pattern(val: &str, insensitive: bool) -> (r: Result<Pattern, String>)
    ensures
        r is Ok <==> pattern_valid(val@, insensitive),
        match r {
            Ok(p) => p.source() == val@ && p.insensitive() == insensitive,
            Err(e) => e@ == pattern_error(val@),
        },
{
    match Pattern::new(val, insensitive) {
        Some(p) => Ok(p),
        None => Err(concat3("Invalid --pattern \"", val, "\"")),
    }
}

/// Whether a file found under a source holds fortunes: a plain file whose
/// extension is not `dat`.
pub fn is_fortune_file(is_file: bool, extension: Option<&str>) -> (r: bool)
    ensures
        r == (is_file && match extension {
            Some(e) => e@ != seq!['d', 'a', 't'],
            None => true,
        }),
{
    if !is_file {
        return false;
    }
    match extension {
        None => true,
        Some(e) => {
            let cs = chars_of(e);
            if cs.len() == 3 && cs[0] == 'd' && cs[1] == 'a' && cs[2] == 't' {
                assert(e@ =~= seq!['d', 'a', 't']);
                false
            } else {
                true
            }
        },
    }
}

/// `s` without the character `c`.
pub open spec fn without(s: Seq<char>, c: char) -> Seq<char>
    decreases s.len(),
{
    if s.len() == 0 {
        s
    } else if s.last() == c {
        without(s.drop_last(), c)
    } else {
        without(s.drop_last(), c).push(s.last())
    }
}

/// The text of one record: its bytes read as UTF-8, without `%`, trimmed.
pub open spec fn record_text(record: Seq<u8>) -> Seq<char> {
    trim(without(lossy_of(record), '%'))
}

/// The texts of the records that are not empty, in order.
pub open spec fn fortune_texts(records: Seq<Seq<u8>>) -> Seq<Seq<char>>
    decreases records.len(),
{
    if records.len() == 0 {
        Seq::empty()
    } else if record_text(records.last()).len() > 0 {
        fortune_texts(records.drop_last()).push(record_text(records.last()))
    } else {
        fortune_texts(records.drop_last())
    }
}

fn remove_char(s: &Vec<char>, c: char) -> (r: Vec<char>)
    ensures
        r@ == without(s@, c),
{
    let mut r: Vec<char> = Vec::new();
    let mut i: usize = 0;
    while i < s.len()
        invariant
            i <= s@.len(),
            r@ == without(s@.take(i as int), c),
        decreases s.len() - i,
    {
        assert(s@.take(i + 1).drop_last() == s@.take(i as int));
        if s[i] != c {
            r.push(s[i]);
        }
        i += 1;
    }
    assert(s@.take(s@.len() as int) == s@);
    r
}

/// The text of a decoded record: without `%`, trimmed of white space.
pub fn fortune_text(decoded: &str) -> (r: String)
    ensures
        r@ == trim(without(decoded@, '%')),
{
    let cs = chars_of(decoded);
    let kept = remove_char(&cs, '%');
    string_of(&trim_chars(&kept))
}

/// The fortunes of a file whose contents are `content`: the records that end
/// at each `%`, read as UTF-8, with `%` dropped and white space trimmed, the
/// empty ones left out; each names `source`.
pub fn parse_fortunes(source: &str, content: &[u8]) -> (r: Vec<Fortune>)
    ensures
        r@.len() == fortune_texts(pieces(content@, 37u8)).len(),
        forall|i: int|
            0 <= i < r@.len() ==> (#[trigger] r@[i]).text@ == fortune_texts(
                pieces(content@, 37u8),
            )[i] && r@[i].sources@ == source@,
{
    let records = split_bytes_after(content, 37u8);
    let ghost ps = pieces(content@, 37u8);
    let mut r: Vec<Fortune> = Vec::new();
    let mut i: usize = 0;
    while i < records.len()
        invariant
            i <= records@.len(),
            ps == pieces(content@, 37u8),
            records@.len() == ps.len(),
            forall|j: int| 0 <= j < records@.len() ==> records@[j]@ == #[trigger] ps[j],
            r@.len() == fortune_texts(ps.take(i as int)).len(),
            forall|j: int|
                0 <= j < r@.len() ==> (#[trigger] r@[j]).text@ == fortune_texts(ps.take(i as int))[j]
                    && r@[j].sources@ == source@,
        decreases records.len() - i,
    {
        assert(ps.take(i + 1).drop_last() == ps.take(i as int));
        assert(ps.take(i + 1).last() == records@[i as int]@);
        let raw = utf8_lossy(records[i].as_slice());
        let text = fortune_text(raw.as_str());
        if !text.as_str().is_empty() {
            let ghost before = r@;
            r.push(Fortune { sources: String::from_str(source), text });
            assert forall|j: int| 0 <= j < r@.len() implies (#[trigger] r@[j]).text@
                == fortune_texts(ps.take(i + 1))[j] && r@[j].sources@ == source@ by {
                if j < before.len() {
                    assert(r@[j] == before[j]);
                }
            }
        }
        i += 1;
    }
    assert(ps.take(records@.len() as int) == ps);
    r
}

} // verus!
