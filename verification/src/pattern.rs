//! Regular-expression matching through the `regex` crate.
use vstd::prelude::*;

verus! {

/// What compiling `pattern` with `regex::Regex::new` and testing `text` with
/// `Regex::is_match` gives: `None` when the pattern does not compile, else
/// whether the pattern matches somewhere in `text`.
pub uninterp spec fn regex_search(pattern: Seq<char>, text: Seq<char>) -> Option<bool>;

/// Compiles `pattern` with `regex::Regex::new` and, when that succeeds, asks
/// `Regex::is_match` whether it matches anywhere in `text`. The result is named
/// `regex_search`; nothing is claimed about which texts a pattern matches.
#[verifier::external_body]
pub(crate) fn regex_is_match(pattern: &str, text: &str) -> (r: Option<bool>)
    ensures
        r == regex_search(pattern@, text@),
{
    match regex::Regex::new(pattern) {
        Ok(re) => Some(re.is_match(text)),
        Err(_) => None,
    }
}

/// `pattern` compiles and matches somewhere in `text`.
pub open spec fn regex_matches(pattern: Seq<char>, text: Seq<char>) -> bool {
    regex_search(pattern, text) == Some(true)
}

pub fn regex_found(pattern: &str, text: &str) -> (b: bool)
    ensures
        b == regex_matches(pattern@, text@),
{
    match regex_is_match(pattern, text) {
        Some(m) => m,
        None => false,
    }
}


/// Runs of characters other than lowercase ASCII letters and digits.
pub const SLUG_PATTERN: &'static str = "[^a-z0-9]+";

/// What compiling `pattern` with `regex::Regex::new` and calling
/// `Regex::replace_all(text, rep)` gives: `None` when the pattern does not
/// compile, else the text with every match replaced.
pub uninterp spec fn regex_replaced(pattern: Seq<char>, text: Seq<char>, rep: Seq<char>) -> Option<
    Seq<char>,
>;

/// Compiles `pattern` with `regex::Regex::new` and, when that succeeds,
/// replaces every non-overlapping match in `text` with `rep` through
/// `Regex::replace_all`. The result is named `regex_replaced`; nothing is
/// claimed about which parts of a text a pattern matches. The one fact stated
/// beside the name is that `SLUG_PATTERN`, a bracketed class of ASCII ranges
/// followed by `+`, is valid regex syntax and compiles.
#[verifier::external_body]
pub(crate) fn regex_replace_all(pattern: &str, text: &str, rep: &str) -> (r: Option<String>)
    ensures
        regex_replaced(pattern@, text@, rep@) == match r {
            Some(s) => Some(s@),
            None => None,
        },
        pattern@ == SLUG_PATTERN@ ==> r is Some,
{
    match regex::Regex::new(pattern) {
        Ok(re) => Some(re.replace_all(text, rep).into_owned()),
        Err(_) => None,
    }
}

} // verus!
