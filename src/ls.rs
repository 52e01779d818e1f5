//! `ls`: which entries are listed, permission strings, and the long listing.

use vstd::prelude::*;
use crate::text::{chars_of, dec, decimal, push_char, views};

verus! {

/// The settings of one run.
#[derive(Debug)]
pub struct Config {
    pub paths: Vec<String>,
    pub long: bool,
    pub show_hidden: bool,
}

/// Whether a directory entry with this file name is listed: hidden ones
/// (whose names begin with a dot) only where `show_hidden` holds.
pub open spec fn listed(file_name: Option<Seq<char>>, show_hidden: bool) -> bool {
    match file_name {
        Some(n) => show_hidden || !(n.len() > 0 && n[0] == '.'),
        None => true,
    }
}

/// Tells whether a directory entry with this file name is listed.
pub fn is_listed(file_name: Option<&str>, show_hidden: bool) -> (r: bool)
    ensures
        r == listed(
            match file_name {
                Some(n) => Some(n@),
                None => None,
            },
            show_hidden,
        ),
{
    match file_name {
        Some(n) => {
            let cs = chars_of(n);
            show_hidden || !(cs.len() > 0 && cs[0] == '.')
        },
        None => true,
    }
}

/// The letter of the permission at place `i` of `rwxrwxrwx`.
pub open spec fn perm_letter(i: int) -> char {
    if i % 3 == 0 {
        'r'
    } else if i % 3 == 1 {
        'w'
    } else {
        'x'
    }
}

/// The permission string of `mode`: place `i` shows its letter where bit
/// `8 - i` of `mode` is set, and `-` where it is clear.
pub open spec fn mode_string(mode: u32) -> Seq<char> {
    Seq::new(
        9,
        |i: int|
            if (mode >> ((8 - i) as u32)) & 1 == 1 {
                perm_letter(i)
            } else {
                '-'
            },
    )
}

/// The permission string of `mode`, owner, group and others, as in `rwxr-xr-x`.
pub fn format_mode(mode: u32) -> (r: String)
    ensures
        r@ == mode_string(mode),
{
    let mut r = String::new();
    let mut i: u32 = 0;
    while i < 9
        invariant
            i <= 9,
            r@ == mode_string(mode).take(i as int),
        decreases 9 - i,
    {
        let c = if (mode >> (8 - i)) & 1 == 1 {
            if i % 3 == 0 {
                'r'
            } else if i % 3 == 1 {
                'w'
            } else {
                'x'
            }
        } else {
            '-'
        };
        push_char(&mut r, c);
        assert(mode_string(mode).take(i + 1) =~= mode_string(mode).take(i as int).push(c));
        i += 1;
    }
    assert(mode_string(mode).take(9) =~= mode_string(mode));
    r
}

/// What `ls -l` shows of one file, as gathered from the file system.
#[derive(Debug)]
pub struct LongEntry {
    pub is_dir: bool,
    pub mode: u32,
    pub nlink: u64,
    pub user: String,
    pub group: String,
    pub size: u64,
    pub modified: String,
    pub path: String,
}

/// The column layout of the long listing.
pub open spec fn long_row_spec() -> Seq<char> {
    "{:<}{:<}  {:>}  {:<}  {:<}  {:>}  {:<}  {:<}"@
}

/// The cells of one line of the long listing.
pub open spec fn long_cells(e: LongEntry) -> Seq<Seq<char>> {
    seq![
        if e.is_dir {
            "d"@
        } else {
            "-"@
        },
        mode_string(e.mode),
        dec(e.nlink as nat),
        e.user@,
        e.group@,
        dec(e.size as nat),
        e.modified@,
        e.path@,
    ]
}

/// What tabular prints for a row layout and rows of cells.
pub uninterp spec fn table_text(row_spec: Seq<char>, rows: Seq<Seq<Seq<char>>>) -> Seq<char>;

/// Relies on tabular's `Table::new`, `Row::from_cells`, `Table::add_row` and
/// `Display for Table`: the rows laid out in aligned columns. `new` panics on
/// a layout it cannot read and `add_row` on a row of another width, so only
/// the long listing's layout with eight cells a row is taken.
#[verifier::external_body]
fn render_table(row_spec: &str, rows: &Vec<Vec<String>>) -> (r: String)
    requires
        row_spec@ == long_row_spec(),
        forall|i: int| 0 <= i < rows@.len() ==> #[trigger] rows@[i]@.len() == 8,
    ensures
        r@ == table_text(row_spec@, rows@.map_values(|row: Vec<String>| views(row@))),
{
    let mut table = tabular::Table::new(row_spec);
    for row in rows {
        table.add_row(tabular::Row::from_cells(row.iter().cloned()));
    }
    table.to_string()
}

fn long_row(e: &LongEntry) -> (r: Vec<String>)
    ensures
        views(r@) == long_cells(*e),
        r@.len() == 8,
{
    let mut r: Vec<String> = Vec::new();
    r.push(String::from_str(if e.is_dir { "d" } else { "-" }));
    r.push(format_mode(e.mode));
    r.push(decimal(e.nlink));
    r.push(e.user.clone());
    r.push(e.group.clone());
    r.push(decimal(e.size));
    r.push(e.modified.clone());
    r.push(e.path.clone());
    assert(views(r@) =~= long_cells(*e));
    r
}

/// The long listing of `entries`: for each, its type and permissions, link
/// count, owner, group, size, time of modification and path, in columns.
pub fn format_output(entries: &Vec<LongEntry>) -> (r: String)
    ensures
        r@ == table_text(long_row_spec(), entries@.map_values(|e: LongEntry| long_cells(e))),
{
    let mut rows: Vec<Vec<String>> = Vec::new();
    let mut i: usize = 0;
    while i < entries.len()
        invariant
            i <= entries.len(),
            rows@.len() == i,
            forall|j: int| 0 <= j < i ==> #[trigger] rows@[j]@.len() == 8,
            forall|j: int| 0 <= j < i ==> views(#[trigger] rows@[j]@) == long_cells(entries@[j]),
        decreases entries.len() - i,
    {
        rows.push(long_row(&entries[i]));
        i += 1;
    }
    let r = render_table("{:<}{:<}  {:>}  {:<}  {:<}  {:>}  {:<}  {:<}", &rows);
    assert(rows@.map_values(|row: Vec<String>| views(row@)) =~= entries@.map_values(
        |e: LongEntry| long_cells(e),
    ));
    r
}

} // verus!
