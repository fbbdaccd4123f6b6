//! What the library takes on trust from outside itself: the lower-casing of
//! the standard library and the look at the file system. Nothing in this
//! file is proved; each contract says what is taken for granted.

use vstd::prelude::*;

verus! {

/// The lower-case form of a text as `str::to_lowercase` of the standard
/// library gives it. It follows the Unicode rules for lower case, so it is a
/// function of the text alone; nothing more is assumed of it.
pub uninterp spec fn lowercase(s: Seq<char>) -> Seq<char>;

/// Calls `str::to_lowercase`. The contract gives the result its name:
/// the same text always has the same lower-case form.
#[verifier::external_body]
pub(crate) fn to_lowercase(s: &str) -> (lower: String)
    ensures
        lower@ == lowercase(s@),
{
    s.to_lowercase()
}

/// Calls `std::path::Path::exists`: whether something, of whatever kind,
/// can be reached at `path` right now. The answer depends on the disk, so
/// the contract claims nothing of it.
#[verifier::external_body]
pub(crate) fn path_exists(path: &str) -> (found: bool) {
    std::path::Path::new(path).exists()
}

} // verus!
