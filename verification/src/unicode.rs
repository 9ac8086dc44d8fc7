//! Unicode normalization, provided by the `unicode-normalization` crate.

use unicode_normalization::UnicodeNormalization;
use vstd::prelude::*;

verus! {

/// The NFC (canonical composition) form of `s`, as `unicode-normalization`
/// computes it.
pub uninterp spec fn nfc(s: Seq<char>) -> Seq<char>;

/// NFC-normalize `s` with `unicode-normalization`'s `nfc` iterator adaptor.
/// Nothing is claimed of the result beyond its being that crate's NFC form of
/// the input.
#[verifier::external_body]
pub(crate) fn nfc_chars(s: &[char]) -> (res: Vec<char>)
    ensures
        res@ == nfc(s@),
{
    s.iter().copied().nfc().collect()
}

} // verus!

verus! {

/// The NFD (canonical decomposition) form of `s`, as `unicode-normalization`
/// computes it.
pub uninterp spec fn nfd(s: Seq<char>) -> Seq<char>;

/// NFD-normalize `s` with `unicode-normalization`'s `nfd` iterator adaptor.
/// Nothing is claimed of the result beyond its being that crate's NFD form
/// of the input.
#[verifier::external_body]
pub(crate) fn nfd_chars(s: &[char]) -> (res: Vec<char>)
    ensures
        res@ == nfd(s@),
{
    s.iter().copied().nfd().collect()
}

/// Whether `c` has the Unicode `Alphabetic` property.
pub uninterp spec fn alphabetic(c: char) -> bool;

/// std's `char::is_alphabetic`.
#[verifier::external_body]
pub(crate) fn is_alphabetic(c: char) -> (r: bool)
    ensures
        r == alphabetic(c),
{
    c.is_alphabetic()
}

} // verus!
