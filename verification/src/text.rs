//! Moving between `str`, `String` and vectors of characters.

use vstd::prelude::*;

verus! {

/// `str::eq` compares the characters of the two slices.
pub assume_specification[ <str as PartialEq>::eq ](a: &str, b: &str) -> (r: bool)
    ensures
        r == (a@ == b@),
;

/// `String::push` appends one character.
pub assume_specification[ std::string::String::push ](s: &mut std::string::String, c: char)
    ensures
        final(s)@ == old(s)@.push(c),
;

/// `char::from_u32` gives the character with the given number, and `None`
/// where no character has it: for the surrogates `0xD800..=0xDFFF` and for
/// every number above `0x10FFFF`.
pub assume_specification[ char::from_u32 ](i: u32) -> (r: Option<char>)
    ensures
        match r {
            Some(c) => c as int == i as int && (i <= 0xD7FF || (0xE000 <= i && i <= 0x10FFFF)),
            None => (0xD800 <= i && i <= 0xDFFF) || i > 0x10FFFF,
        },
;

/// The characters of `s`, in order.
pub fn chars_of(s: &str) -> (r: Vec<char>)
    ensures
        r@ == s@,
{
    let mut r: Vec<char> = Vec::new();
    for c in it: s.chars()
        invariant
            it.seq() == s@,
            r@ == it.seq().take(it.index() as int),
    {
        r.push(c);
        assert(it.seq().take(it.index() + 1) =~= it.seq().take(it.index() as int).push(c));
    }
    assert(s@.take(s@.len() as int) =~= s@);
    r
}

/// The string made of `chars`, in order.
pub fn string_of(chars: &Vec<char>) -> (r: String)
    ensures
        r@ == chars@,
{
    let mut r = String::new();
    let mut i: usize = 0;
    while i < chars.len()
        invariant
            i <= chars.len(),
            r@ == chars@.take(i as int),
        decreases chars.len() - i,
    {
        r.push(chars[i]);
        assert(chars@.take(i + 1) =~= chars@.take(i as int).push(chars@[i as int]));
        i += 1;
    }
    assert(chars@.take(chars@.len() as int) =~= chars@);
    r
}

/// Appends the characters of `source` to `target`.
pub fn push_all(target: &mut Vec<char>, source: &Vec<char>)
    ensures
        final(target)@ == old(target)@ + source@,
{
    let mut i: usize = 0;
    while i < source.len()
        invariant
            i <= source.len(),
            target@ == old(target)@ + source@.take(i as int),
        decreases source.len() - i,
    {
        target.push(source[i]);
        assert(source@.take(i + 1) =~= source@.take(i as int).push(source@[i as int]));
        assert(target@ =~= old(target)@ + source@.take(i + 1));
        i += 1;
    }
    assert(source@.take(source@.len() as int) =~= source@);
}

/// Appends the characters of `source` to `target`.
pub fn push_str(target: &mut Vec<char>, source: &str)
    ensures
        final(target)@ == old(target)@ + source@,
{
    let chars = chars_of(source);
    push_all(target, &chars);
}

} // verus!
