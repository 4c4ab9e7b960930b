//! Which names a glyph or a layer may have.

use vstd::prelude::*;

verus! {

/// `c` is a control character.
pub open spec fn is_control(c: char) -> bool {
    c as int <= 0x1f || c as int == 0x7f || (0x80 <= c as int && c as int <= 0x9f)
}

/// `name` can name a glyph or a layer: it is not empty and holds no control
/// character.
pub open spec fn valid_name(name: Seq<char>) -> bool {
    name.len() > 0 && forall|i: int| 0 <= i < name.len() ==> !is_control(#[trigger] name[i])
}

/// `norad::Name::new` accepts a name that is not empty and holds none of the
/// control characters `0x00..=0x1F`, `0x7F` and `0x80..=0x9F`, and refuses
/// every other.
#[verifier::external_body]
fn name_accepted(name: &str) -> (r: bool)
    ensures
        r == valid_name(name@),
{
    norad::Name::new(name).is_ok()
}

/// Whether `name` can name a glyph or a layer.
pub fn is_valid_name(name: &str) -> (r: bool)
    ensures
        r == valid_name(name@),
{
    name_accepted(name)
}

} // verus!
