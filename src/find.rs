//! `find`: the entry types and the tests on each entry.

use vstd::prelude::*;
use crate::pattern::{pattern_matches, pattern_valid, Pattern};
use crate::text::{chars_of, concat3};

verus! {

/// The kinds of entry that `-t` selects.
#[derive(Debug, Clone, Copy, PartialEq, Eq, Structural)]
pub enum EntryType {
    Dir,
    File,
    Link,
}

/// The settings of one run.
#[derive(Debug)]
pub struct Config {
    pub paths: Vec<String>,
    pub names: Vec<Pattern>,
    pub entry_types: Vec<EntryType>,
}

/// Reads a type argument: `d`, `f` or `l`.
pub fn parse_entry_type(s: &str) -> (r: Option<EntryType>)
    ensures
        s@ == seq!['d'] ==> r == Some(EntryType::Dir),
        s@ == seq!['f'] ==> r == Some(EntryType::File),
        s@ == seq!['l'] ==> r == Some(EntryType::Link),
        s@ != seq!['d'] && s@ != seq!['f'] && s@ != seq!['l'] ==> r is None,
{
    let cs = chars_of(s);
    if cs.len() != 1 {
        return None;
    }
    assert(s@ =~= seq![cs[0]]);
    if cs[0] == 'd' {
        Some(EntryType::Dir)
    } else if cs[0] == 'f' {
        Some(EntryType::File)
    } else if cs[0] == 'l' {
        Some(EntryType::Link)
    } else {
        None
    }
}

/// The message for a name pattern that does not compile.
pub open spec fn name_error(s: Seq<char>) -> Seq<char> {
    "Invalid --name \""@ + s + "\""@
}

/// Compiles a `--name` pattern.
pub fn build_name_pattern(name: &str) -> (r: Result<Pattern, String>)
    ensures
        r is Ok <==> pattern_valid(name@, false),
        match r {
            Ok(p) => p.source() == name@ && !p.insensitive(),
            Err(e) => e@ == name_error(name@),
        },
{
    match Pattern::new(name, false) {
        Some(p) => Ok(p),
        None => Err(concat3("Invalid --name \"", name, "\"")),
    }
}

/// Whether an entry of this kind is of type `t`.
pub open spec fn is_of_type(t: EntryType, is_dir: bool, is_file: bool, is_symlink: bool) -> bool {
    match t {
        EntryType::Dir => is_dir,
        EntryType::File => is_file,
        EntryType::Link => is_symlink,
    }
}

/// Tells whether an entry passes the type test: no types are given, or it is
/// of one of them.
pub fn type_matches(types: &Vec<EntryType>, is_dir: bool, is_file: bool, is_symlink: bool) -> (r:
    bool)
    ensures
        r == (types@.len() == 0 || exists|i: int|
            0 <= i < types@.len() && is_of_type(#[trigger] types@[i], is_dir, is_file, is_symlink)),
{
    if types.len() == 0 {
        return true;
    }
    let mut i: usize = 0;
    while i < types.len()
        invariant
            i <= types@.len(),
            forall|j: int| 0 <= j < i ==> !is_of_type(#[trigger] types@[j], is_dir, is_file, is_symlink),
        decreases types.len() - i,
    {
        let hit = match types[i] {
            EntryType::Dir => is_dir,
            EntryType::File => is_file,
            EntryType::Link => is_symlink,
        };
        if hit {
            return true;
        }
        i += 1;
    }
    false
}

/// Tells whether an entry passes the name test: no patterns are given, or one
/// of them matches its file name.
pub fn name_matches(names: &Vec<Pattern>, file_name: &str) -> (r: bool)
    ensures
        r == (names@.len() == 0 || exists|i: int|
            0 <= i < names@.len() && pattern_matches(
                #[trigger] names@[i].source(),
                names@[i].insensitive(),
                file_name@,
            )),
{
    if names.len() == 0 {
        return true;
    }
    let mut i: usize = 0;
    while i < names.len()
        invariant
            i <= names@.len(),
            forall|j: int|
                0 <= j < i ==> !pattern_matches(
                    #[trigger] names@[j].source(),
                    names@[j].insensitive(),
                    file_name@,
                ),
        decreases names.len() - i,
    {
        if names[i].is_match(file_name) {
            return true;
        }
        i += 1;
    }
    false
}

} // verus!
