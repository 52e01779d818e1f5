//! `cat`: line numbering.

use vstd::prelude::*;
use crate::text::{align_right, concat3, dec, decimal, pad_left, views};

verus! {

/// The settings of one run.
#[derive(Debug)]
pub struct Config {
    pub files: Vec<String>,
    pub number_lines: bool,
    pub number_nonblank_lines: bool,
}

/// A line after its number, right-aligned in six columns, and a tab.
pub open spec fn numbered(n: nat, line: Seq<char>) -> Seq<char> {
    pad_left(dec(n), 6) + "\t"@ + line
}

/// The output lines for `lines`, and the last number given: every line is
/// numbered where `number_lines` holds; else, where `number_nonblank` holds,
/// every line that is not empty.
pub open spec fn cat_lines(lines: Seq<Seq<char>>, number_lines: bool, number_nonblank: bool) -> (
    Seq<Seq<char>>,
    nat,
)
    decreases lines.len(),
{
    if lines.len() == 0 {
        (Seq::empty(), 0)
    } else {
        let (out, n) = cat_lines(lines.drop_last(), number_lines, number_nonblank);
        let l = lines.last();
        if number_lines || (number_nonblank && l.len() > 0) {
            (out.push(numbered(n + 1, l)), n + 1)
        } else {
            (out.push(l), n)
        }
    }
}

proof fn lemma_cat_count(lines: Seq<Seq<char>>, number_lines: bool, number_nonblank: bool)
    ensures
        cat_lines(lines, number_lines, number_nonblank).1 <= lines.len(),
        cat_lines(lines, number_lines, number_nonblank).0.len() == lines.len(),
    decreases lines.len(),
{
    if lines.len() > 0 {
        lemma_cat_count(lines.drop_last(), number_lines, number_nonblank);
    }
}

/// One line as `cat` prints it, after `count` numbered lines: the printed
/// line and the new count.
pub fn number_line(line: &str, count: u64, number_lines: bool, number_nonblank_lines: bool) -> (r: (
    String,
    u64,
))
    requires
        count < u64::MAX,
    ensures
        number_lines || (number_nonblank_lines && line@.len() > 0) ==> r.0@ == numbered(
            (count + 1) as nat,
            line@,
        ) && r.1 == count + 1,
        !(number_lines || (number_nonblank_lines && line@.len() > 0)) ==> r.0@ == line@ && r.1
            == count,
{
    if number_lines || (number_nonblank_lines && !line.is_empty()) {
        let num = align_right(decimal(count + 1).as_str(), 6);
        (concat3(num.as_str(), "\t", line), count + 1)
    } else {
        (String::from_str(line), count)
    }
}

/// The lines of one input as `cat` prints them, numbered as the flags say.
pub fn format_lines(lines: &Vec<String>, number_lines: bool, number_nonblank_lines: bool) -> (r: Vec<
    String,
>)
    ensures
        views(r@) == cat_lines(views(lines@), number_lines, number_nonblank_lines).0,
{
    let ghost ls = views(lines@);
    let mut out: Vec<String> = Vec::new();
    let mut n: u64 = 0;
    let mut i: usize = 0;
    while i < lines.len()
        invariant
            i <= lines@.len(),
            ls == views(lines@),
            views(out@) == cat_lines(ls.take(i as int), number_lines, number_nonblank_lines).0,
            n == cat_lines(ls.take(i as int), number_lines, number_nonblank_lines).1,
        decreases lines.len() - i,
    {
        assert(ls.take(i + 1).drop_last() =~= ls.take(i as int));
        assert(ls.take(i + 1).last() == lines@[i as int]@);
        proof {
            lemma_cat_count(ls.take(i as int), number_lines, number_nonblank_lines);
        }
        let ghost before = out@;
        let (shown, next) = number_line(lines[i].as_str(), n, number_lines, number_nonblank_lines);
        out.push(shown);
        n = next;
        assert(views(out@) =~= views(before).push(out@.last()@));
        i += 1;
    }
    assert(ls.take(lines@.len() as int) =~= ls);
    out
}

} // verus!
