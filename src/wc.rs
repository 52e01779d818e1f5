//! `wc`: counting lines, words, bytes and characters, and the report lines.

use vstd::prelude::*;
use vstd::string::StringSliceAdditionalSpecFns;
use crate::text::{align_right, chars_of, dec, decimal, is_space, is_space_char, pad_left};

verus! {

/// The settings of one run: the files, and which counts are shown.
#[derive(Debug)]
pub struct Config {
    pub files: Vec<String>,
    pub lines: bool,
    pub words: bool,
    pub bytes: bool,
    pub chars: bool,
}

impl Config {
    /// The settings for these flags; where none is set, lines, words and bytes
    /// are shown.
    pub fn new(files: Vec<String>, lines: bool, words: bool, bytes: bool, chars: bool) -> (r: Config)
        ensures
            r.files == files,
            r.chars == chars,
            !lines && !words && !bytes && !chars ==> r.lines && r.words && r.bytes,
            lines || words || bytes || chars ==> r.lines == lines && r.words == words && r.bytes
                == bytes,
    {
        if !lines && !words && !bytes && !chars {
            Config { files, lines: true, words: true, bytes: true, chars }
        } else {
            Config { files, lines, words, bytes, chars }
        }
    }
}

/// The counts of one input.
#[derive(Debug, PartialEq, Eq, Structural, Clone, Copy)]
pub struct FileInfo {
    pub num_lines: usize,
    pub num_words: usize,
    pub num_bytes: usize,
    pub num_chars: usize,
}

/// The number of lines of `s`: its newlines, and one more where the text
/// after the last newline is not empty.
pub open spec fn line_count(s: Seq<char>) -> nat
    decreases s.len(),
{
    if s.len() == 0 {
        0
    } else if s.len() == 1 || s[s.len() - 2] == '\n' {
        line_count(s.drop_last()) + 1
    } else {
        line_count(s.drop_last())
    }
}

/// The number of words of `s`: runs of characters that are not white space.
pub open spec fn word_count(s: Seq<char>) -> nat
    decreases s.len(),
{
    if s.len() == 0 {
        0
    } else if !is_space(s.last()) && (s.len() == 1 || is_space(s[s.len() - 2])) {
        word_count(s.drop_last()) + 1
    } else {
        word_count(s.drop_last())
    }
}

pub(crate) proof fn lemma_counts_bounded(s: Seq<char>)
    ensures
        line_count(s) <= s.len(),
        word_count(s) <= s.len(),
    decreases s.len(),
{
    if s.len() > 0 {
        lemma_counts_bounded(s.drop_last());
    }
}

/// Counts the lines, words, bytes and characters of `text`. Text in memory
/// is always counted: the result is `Ok`.
pub fn count(text: &str) -> (r: Result<FileInfo, String>)
    ensures
        r is Ok,
        r->Ok_0.num_lines == line_count(text@),
        r->Ok_0.num_words == word_count(text@),
        r->Ok_0.num_bytes == text.spec_bytes().len(),
        r->Ok_0.num_chars == text@.len(),
{
    let mut num_lines: usize = 0;
    let mut num_words: usize = 0;
    let mut num_chars: usize = 0;
    let cs = chars_of(text);
    let mut i: usize = 0;
    while i < cs.len()
        invariant
            cs@ == text@,
            i <= cs.len(),
            num_lines == line_count(text@.take(i as int)),
            num_words == word_count(text@.take(i as int)),
        decreases cs.len() - i,
    {
        assert(text@.take(i + 1).drop_last() == text@.take(i as int));
        proof {
            lemma_counts_bounded(text@.take(i as int));
        }
        let c = cs[i];
        if i == 0 || cs[i - 1] == '\n' {
            num_lines += 1;
        }
        if !is_space_char(c) && (i == 0 || is_space_char(cs[i - 1])) {
            num_words += 1;
        }
        i += 1;
    }
    assert(text@.take(text@.len() as int) == text@);
    num_chars = cs.len();
    Ok(FileInfo { num_lines, num_words, num_bytes: text.as_bytes().len(), num_chars })
}

/// A count right-aligned in eight columns where `show` holds, else nothing.
pub open spec fn field(value: nat, show: bool) -> Seq<char> {
    if show {
        pad_left(dec(value), 8)
    } else {
        Seq::empty()
    }
}

/// Formats one count: right-aligned in eight columns, or empty where it is not
/// shown.
pub fn format_field(value: usize, show: bool) -> (r: String)
    ensures
        r@ == field(value as nat, show),
{
    if show {
        align_right(decimal(value as u64).as_str(), 8)
    } else {
        String::new()
    }
}

/// The counts that `config` shows, in the order lines, words, characters,
/// bytes.
pub open spec fn counts_text(info: FileInfo, config: Config) -> Seq<char> {
    field(info.num_lines as nat, config.lines) + field(info.num_words as nat, config.words) + field(
        info.num_chars as nat,
        config.chars,
    ) + field(info.num_bytes as nat, config.bytes)
}

fn format_counts(info: &FileInfo, config: &Config) -> (r: String)
    ensures
        r@ == counts_text(*info, *config),
{
    let mut r = format_field(info.num_lines, config.lines);
    r.append(format_field(info.num_words, config.words).as_str());
    r.append(format_field(info.num_chars, config.chars).as_str());
    r.append(format_field(info.num_bytes, config.bytes).as_str());
    r
}

/// The report line of one input: its counts, then its name, except for
/// standard input (`-`).
pub fn format_line(info: &FileInfo, config: &Config, filename: &str) -> (r: String)
    ensures
        r@ == counts_text(*info, *config) + if filename@ == seq!['-'] {
            Seq::empty()
        } else {
            " "@ + filename@
        },
{
    let mut r = format_counts(info, config);
    let cs = chars_of(filename);
    if cs.len() == 1 && cs[0] == '-' {
        assert(filename@ =~= seq!['-']);
        return r;
    }
    r.append(" ");
    r.append(filename);
    r
}

/// The report line of the totals.
pub fn format_total(info: &FileInfo, config: &Config) -> (r: String)
    ensures
        r@ == counts_text(*info, *config) + " total"@,
{
    let mut r = format_counts(info, config);
    r.append(" total");
    r
}

/// The sums of two counts, where each fits.
pub fn add_counts(a: &FileInfo, b: &FileInfo) -> (r: Option<FileInfo>)
    ensures
        match r {
            Some(s) => s.num_lines == a.num_lines + b.num_lines && s.num_words == a.num_words
                + b.num_words && s.num_bytes == a.num_bytes + b.num_bytes && s.num_chars
                == a.num_chars + b.num_chars,
            None => a.num_lines + b.num_lines > usize::MAX || a.num_words + b.num_words
                > usize::MAX || a.num_bytes + b.num_bytes > usize::MAX || a.num_chars
                + b.num_chars > usize::MAX,
        },
{
    let l = a.num_lines.checked_add(b.num_lines);
    let w = a.num_words.checked_add(b.num_words);
    let by = a.num_bytes.checked_add(b.num_bytes);
    let c = a.num_chars.checked_add(b.num_chars);
    match (l, w, by, c) {
        (Some(l), Some(w), Some(by), Some(c)) => Some(
            FileInfo { num_lines: l, num_words: w, num_bytes: by, num_chars: c },
        ),
        _ => None,
    }
}

} // verus!
