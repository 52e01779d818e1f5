//! `uniq`: runs of equal lines, and how each is printed.

use vstd::prelude::*;
use crate::text::{
    align_right, chars_of, concat3, dec, decimal, pad_left, trim_end, trimmed_end, views,
};

verus! {

/// The settings of one run.
#[derive(Debug)]
pub struct Config {
    pub in_file: String,
    pub out_file: Option<String>,
    pub count: bool,
}

/// The runs found in `lines` so far: the finished runs (count and first
/// line), the first line of the open run, and its count, which is zero only
/// before the first line. Lines that differ only in white space at their ends
/// are equal.
pub open spec fn scan(lines: Seq<Seq<char>>) -> (Seq<(nat, Seq<char>)>, Seq<char>, nat)
    decreases lines.len(),
{
    if lines.len() == 0 {
        (Seq::empty(), Seq::empty(), 0)
    } else {
        let (done, first, n) = scan(lines.drop_last());
        let l = lines.last();
        if n == 0 || trim_end(l) != trim_end(first) {
            (
                if n > 0 {
                    done.push((n, first))
                } else {
                    done
                },
                l,
                1,
            )
        } else {
            (done, first, n + 1)
        }
    }
}

/// The runs of equal lines of `lines`, each with its count and first line.
pub open spec fn runs(lines: Seq<Seq<char>>) -> Seq<(nat, Seq<char>)> {
    let (done, first, n) = scan(lines);
    if n > 0 {
        done.push((n, first))
    } else {
        done
    }
}

/// The sum of the counts of `rs`.
pub open spec fn total(rs: Seq<(nat, Seq<char>)>) -> nat
    decreases rs.len(),
{
    if rs.len() == 0 {
        0
    } else {
        total(rs.drop_last()) + rs.last().0
    }
}

proof fn lemma_scan_total(lines: Seq<Seq<char>>)
    ensures
        total(scan(lines).0) + scan(lines).2 == lines.len(),
    decreases lines.len(),
{
    if lines.len() > 0 {
        lemma_scan_total(lines.drop_last());
        let (done, first, n) = scan(lines.drop_last());
        assert(done.push((n, first)).drop_last() == done);
    }
}

/// Every line is counted once: the counts of the runs add up to the number of
/// lines.
pub proof fn lemma_runs_count_every_line(lines: Seq<Seq<char>>)
    ensures
        total(runs(lines)) == lines.len(),
{
    lemma_scan_total(lines);
    let (done, first, n) = scan(lines);
    assert(done.push((n, first)).drop_last() == done);
}

fn same_trimmed(a: &str, b: &str) -> (r: bool)
    ensures
        r == (trim_end(a@) == trim_end(b@)),
{
    let x = chars_of(a);
    let y = chars_of(b);
    let m = trimmed_end(&x);
    let n = trimmed_end(&y);
    if m != n {
        assert(trim_end(a@).len() == m && trim_end(b@).len() == n);
        return false;
    }
    let mut i: usize = 0;
    while i < m
        invariant
            i <= m <= x@.len(),
            m <= y@.len(),
            x@.take(m as int) == trim_end(a@),
            y@.take(m as int) == trim_end(b@),
            forall|j: int| 0 <= j < i ==> x@[j] == y@[j],
        decreases m - i,
    {
        if x[i] != y[i] {
            assert(trim_end(a@)[i as int] != trim_end(b@)[i as int]);
            return false;
        }
        i += 1;
    }
    assert(trim_end(a@) =~= trim_end(b@));
    true
}

/// The runs of equal lines, each with its count and first line.
pub fn find_runs(lines: &Vec<String>) -> (r: Vec<(usize, String)>)
    ensures
        r@.len() == runs(views(lines@)).len(),
        forall|i: int|
            0 <= i < r@.len() ==> (#[trigger] r@[i]).0 == runs(views(lines@))[i].0
                && r@[i].1@ == runs(views(lines@))[i].1,
{
    let ghost ls = views(lines@);
    let mut done: Vec<(usize, String)> = Vec::new();
    let mut first = String::new();
    let mut n: usize = 0;
    let mut i: usize = 0;
    while i < lines.len()
        invariant
            i <= lines@.len(),
            ls == views(lines@),
            n <= i,
            scan(ls.take(i as int)).1 == first@,
            scan(ls.take(i as int)).2 == n,
            done@.len() == scan(ls.take(i as int)).0.len(),
            forall|j: int|
                0 <= j < done@.len() ==> (#[trigger] done@[j]).0 == scan(ls.take(i as int)).0[j].0
                    && done@[j].1@ == scan(ls.take(i as int)).0[j].1,
        decreases lines.len() - i,
    {
        assert(ls.take(i + 1).drop_last() =~= ls.take(i as int));
        assert(ls.take(i + 1).last() == lines@[i as int]@);
        if n == 0 || !same_trimmed(lines[i].as_str(), first.as_str()) {
            if n > 0 {
                let ghost before = done@;
                done.push((n, first));
                assert forall|j: int| 0 <= j < done@.len() implies (#[trigger] done@[j]).0 == scan(
                    ls.take(i + 1),
                ).0[j].0 && done@[j].1@ == scan(ls.take(i + 1)).0[j].1 by {
                    if j < before.len() {
                        assert(done@[j] == before[j]);
                    }
                }
            }
            first = lines[i].clone();
            n = 1;
        } else {
            n += 1;
        }
        i += 1;
    }
    assert(ls.take(lines@.len() as int) =~= ls);
    if n > 0 {
        let ghost before = done@;
        done.push((n, first));
        assert forall|j: int| 0 <= j < done@.len() implies (#[trigger] done@[j]).0 == runs(ls)[j].0
            && done@[j].1@ == runs(ls)[j].1 by {
            if j < before.len() {
                assert(done@[j] == before[j]);
            }
        }
    }
    done
}

/// How a run is printed: its first line, after its count right-aligned in
/// four columns and a space where `show_count` holds.
pub open spec fn run_text(n: nat, line: Seq<char>, show_count: bool) -> Seq<char> {
    if show_count {
        pad_left(dec(n), 4) + " "@ + line
    } else {
        line
    }
}

/// Formats one run.
pub fn format_run(count: usize, line: &str, show_count: bool) -> (r: String)
    ensures
        r@ == run_text(count as nat, line@, show_count),
{
    if show_count {
        concat3(align_right(decimal(count as u64).as_str(), 4).as_str(), " ", line)
    } else {
        String::from_str(line)
    }
}

} // verus!
