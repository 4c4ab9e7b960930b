//! Fresh identifiers for masters and layers.

use vstd::prelude::*;

verus! {

/// `c` is a digit or one of the capital letters `A` to `F`.
pub open spec fn is_upper_hex(c: char) -> bool {
    ('0' <= c && c <= '9') || ('A' <= c && c <= 'F')
}

/// `s` has the shape of an identifier: 36 characters, hyphens after the
/// eighth, twelfth, sixteenth and twentieth digit, and digits of base sixteen
/// in capitals everywhere else.
pub open spec fn is_identifier(s: Seq<char>) -> bool {
    &&& s.len() == 36
    &&& forall|i: int|
        0 <= i < 36 ==> if i == 8 || i == 13 || i == 18 || i == 23 {
            #[trigger] s[i] == '-'
        } else {
            is_upper_hex(s[i])
        }
}

/// `uuid::Uuid::new_v4` makes a random identifier, and the hyphenated
/// formatter's `encode_upper` writes it as 36 characters: five groups of
/// capital digits of base sixteen with hyphens between them. Which
/// identifier comes out is not said.
#[verifier::external_body]
fn random_identifier() -> (r: String)
    ensures
        is_identifier(r@),
{
    uuid::Uuid::new_v4().hyphenated().encode_upper(&mut uuid::Uuid::encode_buffer()).to_string()
}

/// As many fresh identifiers as asked for.
pub fn fresh_identifiers(count: usize) -> (r: Vec<String>)
    ensures
        r@.len() == count,
        forall|i: int| 0 <= i < count ==> is_identifier(#[trigger] r@[i]@),
{
    let mut r: Vec<String> = Vec::new();
    let mut i: usize = 0;
    while i < count
        invariant
            i <= count,
            r@.len() == i,
            forall|j: int| 0 <= j < i ==> is_identifier(#[trigger] r@[j]@),
        decreases count - i,
    {
        r.push(random_identifier());
        i += 1;
    }
    r
}

} // verus!
