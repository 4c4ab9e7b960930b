//! The code points of a glyph, an ordered set of `norad`.

use vstd::prelude::*;
use crate::seqs::distinct;

verus! {

/// `norad::Codepoints`: a set of code points that keeps the order in which
/// they came in.
#[verifier::external_type_specification]
#[verifier::external_body]
pub struct ExCodepoints(norad::Codepoints);

/// The code points that a set holds, in the order in which they came in.
pub uninterp spec fn codepoints_seq(c: norad::Codepoints) -> Seq<char>;

/// The code points of an optional set.
pub open spec fn optional_codepoints(c: Option<norad::Codepoints>) -> Option<Seq<char>> {
    match c {
        Some(c) => Some(codepoints_seq(c)),
        None => None,
    }
}

/// `norad::Codepoints::new` collects the items into an ordered set: each code
/// point is kept where it first occurred, and a repeat changes nothing.
#[verifier::external_body]
pub(crate) fn codepoints_new(chars: &Vec<char>) -> (r: norad::Codepoints)
    ensures
        codepoints_seq(r) == distinct(chars@),
{
    norad::Codepoints::new(chars.iter().copied())
}

/// `norad::Codepoints::iter` hands out the code points in the order in which
/// they came in; none occurs twice.
#[verifier::external_body]
pub(crate) fn codepoints_to_vec(c: &norad::Codepoints) -> (r: Vec<char>)
    ensures
        r@ == codepoints_seq(*c),
        r@.no_duplicates(),
{
    c.iter().collect()
}

/// `Clone::clone` of `norad::Codepoints` gives a set with the same code
/// points in the same order.
#[verifier::external_body]
pub(crate) fn codepoints_clone(c: &norad::Codepoints) -> (r: norad::Codepoints)
    ensures
        codepoints_seq(r) == codepoints_seq(*c),
{
    c.clone()
}

/// A copy of an optional set of code points.
pub fn copy_codepoints(c: &Option<norad::Codepoints>) -> (r: Option<norad::Codepoints>)
    ensures
        optional_codepoints(r) == optional_codepoints(*c),
{
    match c {
        Some(c) => Some(codepoints_clone(c)),
        None => None,
    }
}

} // verus!
