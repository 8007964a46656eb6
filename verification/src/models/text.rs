//! Operations on text that the tree needs.

use vstd::prelude::*;

verus! {

/// The characters of an optional text.
pub open spec fn opt_text(t: Option<String>) -> Option<Seq<char>> {
    match t {
        Some(s) => Some(s@),
        None => None,
    }
}

/// The texts of a list, each as its characters.
pub open spec fn texts(list: Seq<String>) -> Seq<Seq<char>> {
    list.map_values(|s: String| s@)
}

/// Whether two texts hold the same characters. The texts are compared on
/// copies, and the copies are overwritten before they are released: one of
/// the texts may be a password.
pub fn same_text(a: &str, b: &str) -> (r: bool)
    ensures
        r == (a@ == b@),
{
    let mut left = a.to_owned();
    let mut right = b.to_owned();
    let r = left == right;
    wipe(&mut left);
    wipe(&mut right);
    r
}

/// Overwrites the bytes of a text with zeros and empties it, through the
/// `zeroize` of `zeroize::Zeroize` for `String`. The text is empty afterwards,
/// and the call does not panic.
#[verifier::external_body]
pub(crate) fn wipe(s: &mut String)
    ensures
        final(s)@ == Seq::<char>::empty(),
    opens_invariants none
    no_unwind
{
    zeroize::Zeroize::zeroize(s);
}

} // verus!
