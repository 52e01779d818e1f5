//! `comm`: merging two sorted lists of lines into three columns.

use vstd::prelude::*;
use crate::text::{chars_of, lower_of, lowercase, views};

verus! {

/// The settings of one run.
#[derive(Debug)]
pub struct Config {
    pub file1: String,
    pub file2: String,
    pub show_col1: bool,
    pub show_col2: bool,
    pub show_col3: bool,
    pub insensitive: bool,
    pub delimiter: String,
}

/// A line of output: only in the first input, only in the second, or in both.
#[derive(Debug, PartialEq, Eq)]
pub enum Column {
    Col1(String),
    Col2(String),
    Col3(String),
}

/// The message when both inputs are standard input.
pub open spec fn both_stdin_error() -> Seq<char> {
    "Both input files cannot be STDIN (\"-\")"@
}

/// Checks that at most one input is standard input (`-`).
pub fn check_inputs(file1: &str, file2: &str) -> (r: Result<(), String>)
    ensures
        r is Err <==> (file1@ == seq!['-'] && file2@ == seq!['-']),
        r is Err ==> r->Err_0@ == both_stdin_error(),
{
    let a = chars_of(file1);
    let b = chars_of(file2);
    if a.len() == 1 && a[0] == '-' && b.len() == 1 && b[0] == '-' {
        assert(file1@ =~= seq!['-'] && file2@ =~= seq!['-']);
        return Err(String::from_str("Both input files cannot be STDIN (\"-\")"));
    }
    proof {
        if file1@ == seq!['-'] && file2@ == seq!['-'] {
            assert(a@[0] == '-' && b@[0] == '-');
        }
    }
    Ok(())
}

/// The lines as compared: in lower case where `insensitive` holds.
pub open spec fn cased(lines: Seq<Seq<char>>, insensitive: bool) -> Seq<Seq<char>> {
    if insensitive {
        lines.map_values(|l: Seq<char>| lower_of(l))
    } else {
        lines
    }
}

/// The lines in lower case where `insensitive` holds, else as they are.
pub fn case_lines(lines: Vec<String>, insensitive: bool) -> (r: Vec<String>)
    ensures
        views(r@) == cased(views(lines@), insensitive),
{
    if !insensitive {
        return lines;
    }
    let mut r: Vec<String> = Vec::new();
    let mut i: usize = 0;
    while i < lines.len()
        invariant
            i <= lines@.len(),
            r@.len() == i,
            forall|j: int| 0 <= j < i ==> (#[trigger] r@[j])@ == lower_of(lines@[j]@),
        decreases lines.len() - i,
    {
        r.push(lowercase(lines[i].as_str()));
        i += 1;
    }
    assert(views(r@) =~= cased(views(lines@), insensitive));
    r
}

/// How two lines compare, character by character: negative, zero or positive.
pub open spec fn compare(a: Seq<char>, b: Seq<char>) -> int
    decreases a.len(),
{
    if a.len() == 0 && b.len() == 0 {
        0
    } else if a.len() == 0 {
        -1
    } else if b.len() == 0 {
        1
    } else if a[0] < b[0] {
        -1
    } else if a[0] > b[0] {
        1
    } else {
        compare(a.drop_first(), b.drop_first())
    }
}

fn compare_lines(a: &Vec<char>, b: &Vec<char>) -> (r: i8)
    ensures
        r as int == compare(a@, b@),
{
    let mut i: usize = 0;
    assert(a@.skip(0) == a@ && b@.skip(0) == b@);
    while i < a.len() && i < b.len() && a[i] == b[i]
        invariant
            i <= a@.len(),
            i <= b@.len(),
            compare(a@.skip(i as int), b@.skip(i as int)) == compare(a@, b@),
        decreases a.len() - i,
    {
        assert(a@.skip(i as int).drop_first() == a@.skip(i + 1));
        assert(b@.skip(i as int).drop_first() == b@.skip(i + 1));
        i += 1;
    }
    if i == a.len() && i == b.len() {
        assert(a@.skip(i as int).len() == 0);
        0
    } else if i == a.len() {
        -1
    } else if i == b.len() {
        1
    } else if a[i] < b[i] {
        assert(a@.skip(i as int)[0] == a@[i as int]);
        assert(b@.skip(i as int)[0] == b@[i as int]);
        -1
    } else {
        assert(a@.skip(i as int)[0] == a@[i as int]);
        assert(b@.skip(i as int)[0] == b@[i as int]);
        1
    }
}

/// The lines of `a` and `b` merged in order, each marked with its column: 1
/// where it comes from `a` alone, 2 from `b` alone, 3 where the next lines of
/// both are equal.
pub open spec fn merged(a: Seq<Seq<char>>, b: Seq<Seq<char>>) -> Seq<(int, Seq<char>)>
    decreases a.len() + b.len(),
{
    if a.len() == 0 && b.len() == 0 {
        Seq::empty()
    } else if b.len() == 0 || (a.len() > 0 && compare(a[0], b[0]) < 0) {
        seq![(1, a[0])] + merged(a.drop_first(), b)
    } else if a.len() == 0 || compare(a[0], b[0]) > 0 {
        seq![(2, b[0])] + merged(a, b.drop_first())
    } else {
        seq![(3, a[0])] + merged(a.drop_first(), b.drop_first())
    }
}

/// The lines of the entries in column `k` or in column 3, in order.
pub open spec fn side(m: Seq<(int, Seq<char>)>, k: int) -> Seq<Seq<char>>
    decreases m.len(),
{
    if m.len() == 0 {
        Seq::empty()
    } else {
        (if m[0].0 == k || m[0].0 == 3 {
            seq![m[0].1]
        } else {
            Seq::empty()
        }) + side(m.drop_first(), k)
    }
}

proof fn lemma_compare_equal(x: Seq<char>, y: Seq<char>)
    requires
        compare(x, y) == 0,
    ensures
        x == y,
    decreases x.len(),
{
    if x.len() > 0 && y.len() > 0 {
        lemma_compare_equal(x.drop_first(), y.drop_first());
        assert(x =~= seq![x[0]] + x.drop_first());
        assert(y =~= seq![y[0]] + y.drop_first());
    }
}

/// Merging loses and reorders nothing: the entries in columns 1 and 3 are
/// the first input, and those in columns 2 and 3 the second, each in order.
pub proof fn lemma_merge_keeps_inputs(a: Seq<Seq<char>>, b: Seq<Seq<char>>)
    ensures
        side(merged(a, b), 1) == a,
        side(merged(a, b), 2) == b,
    decreases a.len() + b.len(),
{
    let m = merged(a, b);
    if a.len() == 0 && b.len() == 0 {
    } else if b.len() == 0 || (a.len() > 0 && compare(a[0], b[0]) < 0) {
        lemma_merge_keeps_inputs(a.drop_first(), b);
        assert(m.drop_first() =~= merged(a.drop_first(), b));
        assert(a =~= seq![a[0]] + a.drop_first());
        assert(side(m, 2) =~= side(merged(a.drop_first(), b), 2));
    } else if a.len() == 0 || compare(a[0], b[0]) > 0 {
        lemma_merge_keeps_inputs(a, b.drop_first());
        assert(m.drop_first() =~= merged(a, b.drop_first()));
        assert(b =~= seq![b[0]] + b.drop_first());
        assert(side(m, 1) =~= side(merged(a, b.drop_first()), 1));
    } else {
        lemma_compare_equal(a[0], b[0]);
        lemma_merge_keeps_inputs(a.drop_first(), b.drop_first());
        assert(m.drop_first() =~= merged(a.drop_first(), b.drop_first()));
        assert(a =~= seq![a[0]] + a.drop_first());
        assert(b =~= seq![b[0]] + b.drop_first());
    }
}

/// The column of a line, with its text.
pub open spec fn column_view(c: Column) -> (int, Seq<char>) {
    match c {
        Column::Col1(s) => (1, s@),
        Column::Col2(s) => (2, s@),
        Column::Col3(s) => (3, s@),
    }
}

/// Merges two sorted lists of lines into the three columns.
pub fn merge_lines(lines1: &Vec<String>, lines2: &Vec<String>) -> (r: Vec<Column>)
    ensures
        r@.map_values(|c: Column| column_view(c)) == merged(views(lines1@), views(lines2@)),
{
    let ghost a = views(lines1@);
    let ghost b = views(lines2@);
    let mut out: Vec<Column> = Vec::new();
    let mut i: usize = 0;
    let mut j: usize = 0;
    assert(a.skip(0) == a && b.skip(0) == b);
    assert(out@.map_values(|c: Column| column_view(c)) =~= Seq::empty());
    assert(Seq::<(int, Seq<char>)>::empty() + merged(a, b) =~= merged(a, b));
    while i < lines1.len() || j < lines2.len()
        invariant
            i <= lines1@.len(),
            j <= lines2@.len(),
            a == views(lines1@),
            b == views(lines2@),
            out@.map_values(|c: Column| column_view(c)) + merged(a.skip(i as int), b.skip(j as int))
                == merged(a, b),
        decreases lines1@.len() - i + lines2@.len() - j,
    {
        let ghost before = out@;
        let ghost rest = merged(a.skip(i as int), b.skip(j as int));
        if i < lines1.len() {
            assert(a.skip(i as int).drop_first() =~= a.skip(i + 1));
        }
        if j < lines2.len() {
            assert(b.skip(j as int).drop_first() =~= b.skip(j + 1));
        }
        if j == lines2.len() {
            assert(a.skip(i as int)[0] == lines1@[i as int]@);
            out.push(Column::Col1(lines1[i].clone()));
            i += 1;
        } else if i == lines1.len() {
            assert(b.skip(j as int)[0] == lines2@[j as int]@);
            out.push(Column::Col2(lines2[j].clone()));
            j += 1;
        } else {
            assert(a.skip(i as int)[0] == lines1@[i as int]@);
            assert(b.skip(j as int)[0] == lines2@[j as int]@);
            let x = chars_of(lines1[i].as_str());
            let y = chars_of(lines2[j].as_str());
            let c = compare_lines(&x, &y);
            if c < 0 {
                out.push(Column::Col1(lines1[i].clone()));
                i += 1;
            } else if c > 0 {
                out.push(Column::Col2(lines2[j].clone()));
                j += 1;
            } else {
                out.push(Column::Col3(lines1[i].clone()));
                i += 1;
                j += 1;
            }
        }
        assert(out@.map_values(|c: Column| column_view(c)) =~= before.map_values(
            |c: Column| column_view(c),
        ).push(rest[0]));
        assert(seq![rest[0]] + merged(a.skip(i as int), b.skip(j as int)) =~= rest);
    }
    assert(a.skip(i as int) =~= Seq::<Seq<char>>::empty());
    assert(b.skip(j as int) =~= Seq::<Seq<char>>::empty());
    assert(out@.map_values(|c: Column| column_view(c)) + Seq::empty() =~= out@.map_values(
        |c: Column| column_view(c),
    ));
    out
}

/// The cells printed for a line in column `col`: blanks for the shown columns
/// to its left, then the line; nothing where its column is hidden.
pub open spec fn cells(col: int, text: Seq<char>, show1: bool, show2: bool, show3: bool) -> Seq<
    Seq<char>,
> {
    if col == 1 {
        if show1 {
            seq![text]
        } else {
            Seq::empty()
        }
    } else if col == 2 {
        if show2 {
            (if show1 {
                seq![Seq::<char>::empty()]
            } else {
                Seq::empty()
            }) + seq![text]
        } else {
            Seq::empty()
        }
    } else {
        if show3 {
            (if show1 {
                seq![Seq::<char>::empty()]
            } else {
                Seq::empty()
            }) + (if show2 {
                seq![Seq::<char>::empty()]
            } else {
                Seq::empty()
            }) + seq![text]
        } else {
            Seq::empty()
        }
    }
}

/// The cells joined by `delim`.
pub open spec fn joined(cells: Seq<Seq<char>>, delim: Seq<char>) -> Seq<char>
    decreases cells.len(),
{
    if cells.len() == 0 {
        Seq::empty()
    } else if cells.len() == 1 {
        cells[0]
    } else {
        joined(cells.drop_last(), delim) + delim + cells.last()
    }
}

/// The printed line of one output entry: its cells joined by the delimiter,
/// or nothing where its column is hidden.
pub fn format_column(col: &Column, config: &Config) -> (r: Option<String>)
    ensures
        ({
            let (k, t) = column_view(*col);
            let cs = cells(k, t, config.show_col1, config.show_col2, config.show_col3);
            if cs.len() == 0 {
                r is None
            } else {
                r is Some && r->0@ == joined(cs, config.delimiter@)
            }
        }),
{
    let mut cs: Vec<String> = Vec::new();
    match col {
        Column::Col1(val) => {
            if config.show_col1 {
                cs.push(val.clone());
            }
        },
        Column::Col2(val) => {
            if config.show_col2 {
                if config.show_col1 {
                    cs.push(String::new());
                }
                cs.push(val.clone());
            }
        },
        Column::Col3(val) => {
            if config.show_col3 {
                if config.show_col1 {
                    cs.push(String::new());
                }
                if config.show_col2 {
                    cs.push(String::new());
                }
                cs.push(val.clone());
            }
        },
    }
    let ghost (k, t) = column_view(*col);
    assert(views(cs@) =~= cells(k, t, config.show_col1, config.show_col2, config.show_col3));
    if cs.len() == 0 {
        return None;
    }
    let mut r = cs[0].clone();
    let mut i: usize = 1;
    while i < cs.len()
        invariant
            1 <= i <= cs@.len(),
            r@ == joined(views(cs@).take(i as int), config.delimiter@),
        decreases cs.len() - i,
    {
        assert(views(cs@).take(i + 1).drop_last() =~= views(cs@).take(i as int));
        r.append(config.delimiter.as_str());
        r.append(cs[i].as_str());
        i += 1;
    }
    assert(views(cs@).take(cs@.len() as int) =~= views(cs@));
    Some(r)
}

} // verus!
