//! Regular expressions, as the `regex` crate reads and matches them.

use vstd::prelude::*;

verus! {

#[verifier::external_type_specification]
#[verifier::external_body]
pub struct ExRegex(regex::Regex);

/// Whether the `regex` crate accepts `source` as a pattern, with or without
/// case folding.
pub uninterp spec fn pattern_valid(source: Seq<char>, insensitive: bool) -> bool;

/// Whether the pattern `source`, with or without case folding, matches
/// somewhere in `text`.
pub uninterp spec fn pattern_matches(source: Seq<char>, insensitive: bool, text: Seq<char>) -> bool;

/// A compiled pattern, together with the text and the flag it was built from.
#[derive(Debug)]
pub struct Pattern {
    regex: regex::Regex,
    source: String,
    insensitive: bool,
}

impl Pattern {
    /// The text of the pattern.
    pub closed spec fn source(&self) -> Seq<char> {
        self.source@
    }

    /// Whether the pattern ignores case.
    pub closed spec fn insensitive(&self) -> bool {
        self.insensitive
    }

    /// Relies on regex's `RegexBuilder::new`, `case_insensitive` and `build`:
    /// the pattern compiles, or it is refused.
    #[verifier::external_body]
    pub(crate) fn new(source: &str, insensitive: bool) -> (r: Option<Pattern>)
        ensures
            r is Some <==> pattern_valid(source@, insensitive),
            r is Some ==> r->0.source() == source@ && r->0.insensitive() == insensitive,
    {
        match regex::RegexBuilder::new(source).case_insensitive(insensitive).build() {
            Ok(regex) => Some(Pattern { regex, source: source.to_string(), insensitive }),
            Err(_) => None,
        }
    }

    /// Relies on regex's `Regex::is_match`: whether the compiled pattern
    /// matches somewhere in `text`.
    #[verifier::external_body]
    pub(crate) fn is_match(&self, text: &str) -> (r: bool)
        ensures
            r == pattern_matches(self.source(), self.insensitive(), text@),
    {
        self.regex.is_match(text)
    }
}

/// The groups that the pattern `pattern` captures at its first match in
/// `text`, group 0 being the whole match, each `None` where it took no part;
/// `None` where the pattern does not compile or does not match.
pub uninterp spec fn captures_of(pattern: Seq<char>, text: Seq<char>) -> Option<
    Seq<Option<Seq<char>>>,
>;

/// The view of what a capture returns.
pub open spec fn capture_view(c: Option<Vec<Option<String>>>) -> Option<Seq<Option<Seq<char>>>> {
    match c {
        Some(v) => Some(
            v@.map_values(
                |g: Option<String>|
                    match g {
                        Some(s) => Some(s@),
                        None => None,
                    },
            ),
        ),
        None => None,
    }
}

/// Relies on regex's `Regex::new` and `Regex::captures`: the groups of the
/// first match of the compiled pattern in `text`.
#[verifier::external_body]
pub(crate) fn regex_captures(pattern: &str, text: &str) -> (r: Option<Vec<Option<String>>>)
    ensures
        capture_view(r) == captures_of(pattern@, text@),
{
    match regex::Regex::new(pattern) {
        Ok(re) => re.captures(text).map(
            |c| c.iter().map(|g| g.map(|m| m.as_str().to_string())).collect(),
        ),
        Err(_) => None,
    }
}

} // verus!

