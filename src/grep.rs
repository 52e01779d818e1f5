//! `grep`: the choice of lines and the report.

use vstd::prelude::*;
use crate::pattern::{pattern_matches, pattern_valid, Pattern};
use crate::text::{concat2, concat3, dec, decimal, views};

verus! {

/// The settings of one run.
#[derive(Debug)]
pub struct Config {
    pub pattern: Pattern,
    pub files: Vec<String>,
    pub recursive: bool,
    pub count: bool,
    pub invert_match: bool,
}

/// The message for a pattern that does not compile.
pub open spec fn pattern_error(s: Seq<char>) -> Seq<char> {
    "Invalid pattern \""@ + s + "\""@
}

/// Compiles the search pattern, with or without case folding.
pub fn build_pattern(source: &str, insensitive: bool) -> (r: Result<Pattern, String>)
    ensures
        r is Ok <==> pattern_valid(source@, insensitive),
        match r {
            Ok(p) => p.source() == source@ && p.insensitive() == insensitive,
            Err(e) => e@ == pattern_error(source@),
        },
{
    match Pattern::new(source, insensitive) {
        Some(p) => Ok(p),
        None => Err(concat3("Invalid pattern \"", source, "\"")),
    }
}

/// The lines of `lines` that `p` matches, or, where `invert` holds, those it
/// does not match, in order.
pub open spec fn selected_lines(p: Pattern, lines: Seq<Seq<char>>, invert: bool) -> Seq<Seq<char>>
    decreases lines.len(),
{
    if lines.len() == 0 {
        Seq::empty()
    } else if pattern_matches(p.source(), p.insensitive(), lines.last()) != invert {
        selected_lines(p, lines.drop_last(), invert).push(lines.last())
    } else {
        selected_lines(p, lines.drop_last(), invert)
    }
}

/// The lines that match the pattern, or, with `invert_match`, those that do
/// not. Lines in memory are always searched: the result is `Ok`.
pub fn find_lines(lines: &Vec<String>, pattern: &Pattern, invert_match: bool) -> (r: Result<
    Vec<String>,
    String,
>)
    ensures
        r is Ok,
        views(r->Ok_0@) == selected_lines(*pattern, views(lines@), invert_match),
{
    let mut r: Vec<String> = Vec::new();
    let mut i: usize = 0;
    while i < lines.len()
        invariant
            i <= lines@.len(),
            views(r@) == selected_lines(*pattern, views(lines@).take(i as int), invert_match),
        decreases lines.len() - i,
    {
        assert(views(lines@).take(i + 1).drop_last() =~= views(lines@).take(i as int));
        assert(views(lines@).take(i + 1).last() == lines@[i as int]@);
        if pattern.is_match(lines[i].as_str()) != invert_match {
            let ghost before = r@;
            r.push(lines[i].clone());
            assert(views(r@) =~= views(before).push(lines@[i as int]@));
        }
        i += 1;
    }
    assert(views(lines@).take(lines@.len() as int) =~= views(lines@));
    Ok(r)
}

/// What a path met while walking stands for: an error for a directory when
/// the search is not recursive, nothing for a directory when it is, else the
/// file to search.
pub fn entry_result(path: &str, is_dir: bool, recursive: bool) -> (r: Option<Result<String, String>>)
    ensures
        is_dir && !recursive ==> r is Some && r->0 is Err && r->0->Err_0@ == path@
            + " is a directory"@,
        is_dir && recursive ==> r is None,
        !is_dir ==> r is Some && r->0 is Ok && r->0->Ok_0@ == path@,
{
    if is_dir {
        if recursive {
            None
        } else {
            Some(Err(concat2(path, " is a directory")))
        }
    } else {
        Some(Ok(String::from_str(path)))
    }
}

/// The name prefix of each output line.
pub open spec fn name_prefix(filename: Seq<char>, show_name: bool) -> Seq<char> {
    if show_name {
        filename + ":"@
    } else {
        Seq::empty()
    }
}

/// The lines, each after the prefix, one after the other.
pub open spec fn prefixed(prefix: Seq<char>, lines: Seq<Seq<char>>) -> Seq<char>
    decreases lines.len(),
{
    if lines.len() == 0 {
        Seq::empty()
    } else {
        prefixed(prefix, lines.drop_last()) + prefix + lines.last()
    }
}

/// What `grep` prints for one file: the number of matching lines, or the
/// lines themselves, each after the file's name and a colon where
/// `show_name` holds.
pub fn format_matches(filename: &str, show_name: bool, count: bool, matches: &Vec<String>) -> (r:
    String)
    ensures
        count ==> r@ == name_prefix(filename@, show_name) + dec(matches@.len() as nat) + "\n"@,
        !count ==> r@ == prefixed(name_prefix(filename@, show_name), views(matches@)),
{
    let prefix = if show_name {
        concat2(filename, ":")
    } else {
        String::new()
    };
    if count {
        return concat3(prefix.as_str(), decimal(matches.len() as u64).as_str(), "\n");
    }
    let mut r = String::new();
    let mut i: usize = 0;
    while i < matches.len()
        invariant
            i <= matches@.len(),
            prefix@ == name_prefix(filename@, show_name),
            r@ == prefixed(prefix@, views(matches@).take(i as int)),
        decreases matches.len() - i,
    {
        assert(views(matches@).take(i + 1).drop_last() =~= views(matches@).take(i as int));
        r.append(prefix.as_str());
        r.append(matches[i].as_str());
        i += 1;
    }
    assert(views(matches@).take(matches@.len() as int) =~= views(matches@));
    r
}

} // verus!
