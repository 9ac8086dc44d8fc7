//! Regular-expression matching, provided by the `regex` crate.
//!
//! Each function compiles its pattern and performs one operation. The result
//! of a pattern that fails to compile is `None`; the patterns this crate
//! passes are fixed literals that compile.

use regex::Regex;
use vstd::prelude::*;

verus! {

/// What `Regex::new(pattern)` followed by `replace_all(text, replacement)`
/// yields, or `None` when the pattern does not compile.
pub uninterp spec fn regex_replaced(pattern: Seq<char>, text: Seq<char>, replacement: Seq<char>) -> Option<Seq<char>>;

/// The pieces `Regex::split` cuts `text` into, or `None` when the pattern
/// does not compile.
pub uninterp spec fn regex_pieces(pattern: Seq<char>, text: Seq<char>) -> Option<Seq<Seq<char>>>;

/// Capture group `group` of the first match of `pattern` in `text`
/// (`Some(None)` when there is no match or the group did not take part), or
/// `None` when the pattern does not compile.
pub uninterp spec fn regex_first_group(pattern: Seq<char>, text: Seq<char>, group: nat) -> Option<Option<Seq<char>>>;

/// The capture groups of every non-overlapping match of `pattern` in
/// `text`, in order (group 0 being the whole match, `None` for a group that
/// did not take part), or `None` when the pattern does not compile.
pub uninterp spec fn regex_every_match(pattern: Seq<char>, text: Seq<char>) -> Option<Seq<Seq<Option<Seq<char>>>>>;

/// What `Regex::new(pattern)` followed by `replace(text, replacement)` (the
/// first match only) yields, or `None` when the pattern does not compile.
pub uninterp spec fn regex_replaced_first(pattern: Seq<char>, text: Seq<char>, replacement: Seq<char>) -> Option<Seq<char>>;

/// Whether `pattern` matches somewhere in `text`, or `None` when the pattern
/// does not compile.
pub uninterp spec fn regex_matches(pattern: Seq<char>, text: Seq<char>) -> Option<bool>;

/// `Regex::new(pattern)?.replace_all(text, replacement)`.
#[verifier::external_body]
pub(crate) fn regex_replace_all(pattern: &str, text: &str, replacement: &str) -> (res: Option<String>)
    ensures
        res.deep_view() == regex_replaced(pattern@, text@, replacement@),
{
    let re = Regex::new(pattern).ok()?;
    Some(re.replace_all(text, replacement).into_owned())
}

/// `Regex::new(pattern)?.split(text)`, each piece owned.
#[verifier::external_body]
pub(crate) fn regex_split(pattern: &str, text: &str) -> (res: Option<Vec<String>>)
    ensures
        res.deep_view() == regex_pieces(pattern@, text@),
{
    let re = Regex::new(pattern).ok()?;
    Some(re.split(text).map(|piece| piece.to_string()).collect())
}

/// Group `group` of `Regex::new(pattern)?.captures(text)`.
#[verifier::external_body]
pub(crate) fn regex_capture_first(pattern: &str, text: &str, group: usize) -> (res: Option<Option<String>>)
    ensures
        res.deep_view() == regex_first_group(pattern@, text@, group as nat),
{
    let re = Regex::new(pattern).ok()?;
    Some(re.captures(text).and_then(|c| c.get(group)).map(|m| m.as_str().to_string()))
}

/// The groups of each item of `Regex::new(pattern)?.captures_iter(text)`.
#[verifier::external_body]
pub(crate) fn regex_captures_all(pattern: &str, text: &str) -> (res: Option<Vec<Vec<Option<String>>>>)
    ensures
        res.deep_view() == regex_every_match(pattern@, text@),
{
    let re = Regex::new(pattern).ok()?;
    Some(re.captures_iter(text).map(|c| c.iter().map(|g| g.map(|m| m.as_str().to_string())).collect()).collect())
}

/// `Regex::new(pattern)?.replace(text, replacement)`.
#[verifier::external_body]
pub(crate) fn regex_replace_first(pattern: &str, text: &str, replacement: &str) -> (res: Option<String>)
    ensures
        res.deep_view() == regex_replaced_first(pattern@, text@, replacement@),
{
    let re = Regex::new(pattern).ok()?;
    Some(re.replace(text, replacement).into_owned())
}

/// `Regex::new(pattern)?.is_match(text)`.
#[verifier::external_body]
pub(crate) fn regex_is_match(pattern: &str, text: &str) -> (res: Option<bool>)
    ensures
        res == regex_matches(pattern@, text@),
{
    let re = Regex::new(pattern).ok()?;
    Some(re.is_match(text))
}

} // verus!
