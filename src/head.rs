//! `head`: the count arguments.

use vstd::prelude::*;
use crate::parse::{int_in, parse_decimal};

verus! {

/// The settings of one run: the files, and how many lines, or bytes, to print.
#[derive(Debug)]
pub struct Config {
    pub files: Vec<String>,
    pub lines: usize,
    pub bytes: Option<usize>,
}

/// Reads a positive count; the error is the argument itself.
pub fn parse_positive_int(value: &str) -> (r: Result<usize, String>)
    ensures
        match int_in(value@, false, 1, usize::MAX as int) {
            Some(n) => r == Ok::<usize, String>(n as usize),
            None => r is Err && r->Err_0@ == value@,
        },
{
    match parse_decimal(value, false, 1, usize::MAX as i128) {
        Some(n) => Ok(n as usize),
        None => Err(String::from_str(value)),
    }
}

} // verus!
