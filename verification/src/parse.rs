//! Reading the text of a property list.

use vstd::prelude::*;
use crate::decimal::{chars_digits, has_point, is_digit_char, Decimal};
use crate::digits::{all_digits, value_of_digits};
use crate::grammar::{
    atom_len, atom_value, escape, hex_value, integer_of_text, is_atom_char, is_hex, is_octal,
    is_space, line_of, parse_angle, parse_document, parse_entries, parse_hex, parse_items,
    parse_key, parse_quoted, parse_value, trim_spaces, Fault, ParseErrorKind,
};
use crate::plist::{entries_model, lemma_entries_model, lemma_items_model, Plist, PlistModel};
use crate::text::{chars_of, string_of};

verus! {

/// Why a text could not be read: what is wrong, and where.
#[derive(Debug, Clone, Copy, PartialEq, Eq, Structural)]
pub struct ParseError {
    pub kind: ParseErrorKind,
    /// How many characters stand before the fault.
    pub offset: usize,
    /// The line of the fault, the first line being line 0.
    pub line: usize,
}

/// The fault of the given kind at `offset` in a text of `len` characters.
pub open spec fn fault_in(kind: ParseErrorKind, len: int, offset: int) -> Fault {
    Fault { kind, remaining: (len - offset) as nat }
}

fn is_space_char(c: char) -> (r: bool)
    ensures
        r == is_space(c),
{
    c == ' ' || c == '\t' || c == '\r' || c == '\n'
}

fn is_atom(c: char) -> (r: bool)
    ensures
        r == is_atom_char(c),
{
    ('a' <= c && c <= 'z') || ('A' <= c && c <= 'Z') || ('0' <= c && c <= '9') || c == '_' || c
        == '$' || c == '/' || c == ':' || c == '.' || c == '-'
}

/// The index of the first character at or after `i` that is no space.
fn skip_spaces(s: &Vec<char>, i: usize) -> (j: usize)
    requires
        i <= s.len(),
    ensures
        i <= j <= s.len(),
        s@.skip(j as int) == trim_spaces(s@.skip(i as int)),
{
    let mut j: usize = i;
    while j < s.len() && is_space_char(s[j])
        invariant
            i <= j <= s.len(),
            trim_spaces(s@.skip(j as int)) == trim_spaces(s@.skip(i as int)),
        decreases s.len() - j,
    {
        assert(s@.skip(j as int).skip(1) =~= s@.skip(j + 1));
        j += 1;
    }
    j
}

/// The index of the first character at or after `i` that cannot stand in a
/// bare string.
fn atom_end(s: &Vec<char>, i: usize) -> (j: usize)
    requires
        i <= s.len(),
    ensures
        i <= j <= s.len(),
        j - i == atom_len(s@.skip(i as int)),
        i < s.len() && is_atom_char(s@[i as int]) ==> j > i,
{
    let mut j: usize = i;
    while j < s.len() && is_atom(s[j])
        invariant
            i <= j <= s.len(),
            atom_len(s@.skip(i as int)) == (j - i) + atom_len(s@.skip(j as int)),
        decreases s.len() - j,
    {
        assert(s@.skip(j as int).skip(1) =~= s@.skip(j + 1));
        j += 1;
    }
    j
}

/// The characters of `s` from `i` up to `j`.
fn slice_of(s: &Vec<char>, i: usize, j: usize) -> (r: Vec<char>)
    requires
        i <= j <= s.len(),
    ensures
        r@ == s@.subrange(i as int, j as int),
        r@ == s@.skip(i as int).take(j - i),
{
    let mut r: Vec<char> = Vec::new();
    let mut k: usize = i;
    while k < j
        invariant
            i <= k <= j <= s.len(),
            r@ == s@.subrange(i as int, k as int),
        decreases j - k,
    {
        r.push(s[k]);
        assert(r@ =~= s@.subrange(i as int, k + 1));
        k += 1;
    }
    assert(s@.subrange(i as int, j as int) =~= s@.skip(i as int).take(j - i));
    r
}

/// The whole number that `a` writes, where it is the shortest text of one
/// that an `i64` holds.
fn read_integer(a: &Vec<char>) -> (r: Option<i64>)
    ensures
        r == integer_of_text(a@),
{
    let negative = a.len() > 0 && a[0] == '-';
    let start: usize = if negative { 1 } else { 0 };
    let ghost body = if negative { a@.skip(1) } else { a@ };
    assert(body =~= a@.skip(start as int));
    if a.len() == start {
        return None;
    }
    let mut digits: Vec<u8> = Vec::new();
    let mut k: usize = start;
    while k < a.len()
        invariant
            start <= k <= a.len(),
            body == a@.skip(start as int),
            body == (if a@.len() > 0 && a@[0] == '-' { a@.skip(1) } else { a@ }),
            forall|i: int| 0 <= i < k - start ==> is_digit_char(#[trigger] body[i]),
            digits@ == chars_digits(body.take(k - start)),
            all_digits(digits@),
        decreases a.len() - k,
    {
        let c = a[k];
        if !('0' <= c && c <= '9') {
            assert(!is_digit_char(body[k - start]));
            return None;
        }
        digits.push(((c as u32) - 48) as u8);
        assert(digits@ =~= chars_digits(body.take(k + 1 - start)));
        k += 1;
    }
    assert(body.take(body.len() as int) =~= body);
    if digits.len() > 1 && digits[0] == 0 {
        return None;
    }
    match value_of_digits(&digits) {
        None => None,
        Some(v) => {
            if negative {
                if v == 0 || v > 0x8000_0000_0000_0000 {
                    None
                } else if v == 0x8000_0000_0000_0000 {
                    Some(i64::MIN)
                } else {
                    Some(-(v as i64))
                }
            } else {
                if v > 0x7fff_ffff_ffff_ffff {
                    None
                } else {
                    Some(v as i64)
                }
            }
        },
    }
}

/// Whether `a` holds a decimal point.
fn holds_point(a: &Vec<char>) -> (r: bool)
    ensures
        r == has_point(a@),
{
    let mut k: usize = 0;
    while k < a.len()
        invariant
            k <= a.len(),
            forall|i: int| 0 <= i < k ==> a@[i] != '.',
        decreases a.len() - k,
    {
        if a[k] == '.' {
            assert(a@[k as int] == '.');
            return true;
        }
        k += 1;
    }
    false
}

/// What the bare token `a` means.
pub fn read_atom(a: &Vec<char>) -> (r: Plist)
    ensures
        r.deep_view() == atom_value(a@),
{
    let text = string_of(a);
    if text.as_str().eq("infinity") {
        return Plist::Float(Decimal::infinity(false));
    }
    if text.as_str().eq("-infinity") {
        return Plist::Float(Decimal::infinity(true));
    }
    match read_integer(a) {
        Some(n) => Plist::Integer(n),
        None => {
            if holds_point(a) {
                match Decimal::parse_literal(a) {
                    Some(d) => Plist::Float(d),
                    None => Plist::String(text),
                }
            } else {
                Plist::String(text)
            }
        },
    }
}

fn is_octal_char(c: char) -> (r: bool)
    ensures
        r == is_octal(c),
{
    '0' <= c && c <= '7'
}

/// What stands for the characters after a backslash at `i`, and how many of
/// them it takes.
fn read_escape(s: &Vec<char>, i: usize) -> (r: Option<(char, usize)>)
    requires
        i <= s.len(),
    ensures
        match r {
            Some((c, n)) => escape(s@.skip(i as int)) == Some((c, n as int)) && 1 <= n && i + n
                <= s.len(),
            None => escape(s@.skip(i as int)) is None,
        },
{
    if i >= s.len() {
        return None;
    }
    let c = s[i];
    if c == '"' || c == '\\' {
        Some((c, 1))
    } else if c == 'n' {
        Some(('\n', 1))
    } else if c == 'r' {
        Some(('\r', 1))
    } else if c == 't' {
        Some(('\t', 1))
    } else if s.len() - i >= 3 && '0' <= c && c <= '3' && is_octal_char(s[i + 1]) && is_octal_char(
        s[i + 2],
    ) {
        let code: u32 = ((c as u32) - 48) * 64 + ((s[i + 1] as u32) - 48) * 8 + ((s[i + 2] as u32)
            - 48);
        let decoded = code as u8 as char;
        Some((decoded, 3))
    } else {
        None
    }
}

/// The string that ends at the first closing quote at or after `i`, and the
/// index after the quote.
fn read_quoted(s: &Vec<char>, i: usize) -> (r: Result<(String, usize), (ParseErrorKind, usize)>)
    requires
        i <= s.len(),
    ensures
        match r {
            Ok((text, j)) => i < j <= s.len() && parse_quoted(s@.skip(i as int), Seq::empty())
                == Ok::<(Seq<char>, Seq<char>), Fault>((text@, s@.skip(j as int))),
            Err((kind, at)) => at <= s.len() && parse_quoted(s@.skip(i as int), Seq::empty())
                == Err::<(Seq<char>, Seq<char>), Fault>(fault_in(kind, s@.len() as int, at as int)),
        },
{
    let mut acc: Vec<char> = Vec::new();
    let mut j: usize = i;
    loop
        invariant
            i <= j <= s.len(),
            parse_quoted(s@.skip(i as int), Seq::empty()) == parse_quoted(
                s@.skip(j as int),
                acc@,
            ),
        decreases s.len() - j,
    {
        if j >= s.len() {
            return Err((ParseErrorKind::UnterminatedString, j));
        }
        let c = s[j];
        assert(s@.skip(j as int)[0] == c);
        assert(s@.skip(j as int).skip(1) =~= s@.skip(j + 1));
        if c == '"' {
            return Ok((string_of(&acc), j + 1));
        } else if c == '\\' {
            if j + 1 == s.len() {
                return Err((ParseErrorKind::UnterminatedString, j + 1));
            }
            match read_escape(s, j + 1) {
                Some((decoded, n)) => {
                    assert(s@.skip(j as int).skip(1 + n) =~= s@.skip(j + 1 + n));
                    acc.push(decoded);
                    j = j + 1 + n;
                },
                None => {
                    return Err((ParseErrorKind::InvalidEscape, j));
                },
            }
        } else {
            acc.push(c);
            j += 1;
        }
    }
}

fn is_hex_char(c: char) -> (r: bool)
    ensures
        r == is_hex(c),
{
    ('0' <= c && c <= '9') || ('a' <= c && c <= 'f') || ('A' <= c && c <= 'F')
}

fn hex_digit_value(c: char) -> (r: u8)
    requires
        is_hex(c),
    ensures
        r as int == hex_value(c),
        r < 16,
{
    if '0' <= c && c <= '9' {
        ((c as u32) - 48) as u8
    } else if 'a' <= c && c <= 'f' {
        ((c as u32) - 87) as u8
    } else {
        ((c as u32) - 55) as u8
    }
}

/// The bytes that end at the first `>` at or after `i`, and the index after
/// the `>`.
fn read_hex(s: &Vec<char>, i: usize) -> (r: Result<(Vec<u8>, usize), (ParseErrorKind, usize)>)
    requires
        i <= s.len(),
    ensures
        match r {
            Ok((bytes, j)) => i < j <= s.len() && parse_hex(s@.skip(i as int), Seq::empty()) == Ok::<
                (Seq<u8>, Seq<char>),
                Fault,
            >((bytes@, s@.skip(j as int))),
            Err((kind, at)) => at <= s.len() && parse_hex(s@.skip(i as int), Seq::empty()) == Err::<
                (Seq<u8>, Seq<char>),
                Fault,
            >(fault_in(kind, s@.len() as int, at as int)),
        },
{
    let mut acc: Vec<u8> = Vec::new();
    let mut j: usize = i;
    loop
        invariant
            i <= j <= s.len(),
            parse_hex(s@.skip(i as int), Seq::empty()) == parse_hex(s@.skip(j as int), acc@),
        decreases s.len() - j,
    {
        if j >= s.len() {
            return Err((ParseErrorKind::UnexpectedToken, j));
        }
        let c = s[j];
        assert(s@.skip(j as int)[0] == c);
        assert(s@.skip(j as int).skip(1) =~= s@.skip(j + 1));
        if c == '>' {
            return Ok((acc, j + 1));
        } else if s.len() - j >= 2 && is_hex_char(c) && is_hex_char(s[j + 1]) {
            assert(s@.skip(j as int)[1] == s@[j + 1]);
            assert(s@.skip(j as int).skip(2) =~= s@.skip(j + 2));
            acc.push(hex_digit_value(c) * 16 + hex_digit_value(s[j + 1]));
            j += 2;
        } else {
            assert(s@.len() - j >= 2 ==> s@.skip(j as int)[1] == s@[j + 1]);
            return Err((ParseErrorKind::UnexpectedToken, j));
        }
    }
}

/// The value that follows a `<` before `i`: a truth value or raw bytes.
fn read_angle(s: &Vec<char>, i: usize) -> (r: Result<(Plist, usize), (ParseErrorKind, usize)>)
    requires
        i <= s.len(),
    ensures
        match r {
            Ok((value, j)) => i < j <= s.len() && parse_angle(s@.skip(i as int)) == Ok::<
                (PlistModel, Seq<char>),
                Fault,
            >((value.deep_view(), s@.skip(j as int))),
            Err((kind, at)) => at <= s.len() && parse_angle(s@.skip(i as int)) == Err::<
                (PlistModel, Seq<char>),
                Fault,
            >(fault_in(kind, s@.len() as int, at as int)),
        },
{
    let ghost t = s@.skip(i as int);
    if i < s.len() && s[i] == '*' {
        if s.len() - i >= 4 {
            assert(t[1] == s@[i + 1] && t[2] == s@[i + 2] && t[3] == s@[i + 3]);
            assert(t.skip(4) =~= s@.skip(i + 4));
            if s[i + 1] == 'B' && (s[i + 2] == 'Y' || s[i + 2] == 'N') && s[i + 3] == '>' {
                return Ok((Plist::Boolean(s[i + 2] == 'Y'), i + 4));
            }
        }
        Err((ParseErrorKind::UnexpectedToken, i))
    } else {
        match read_hex(s, i) {
            Ok((bytes, j)) => Ok((Plist::Data(bytes), j)),
            Err(e) => Err(e),
        }
    }
}

/// The key that starts at `i`, and the index after it.
fn read_key(s: &Vec<char>, i: usize) -> (r: Result<(String, usize), (ParseErrorKind, usize)>)
    requires
        i <= s.len(),
    ensures
        match r {
            Ok((key, j)) => i < j <= s.len() && parse_key(s@.skip(i as int)) == Ok::<
                (Seq<char>, Seq<char>),
                Fault,
            >((key@, s@.skip(j as int))),
            Err((kind, at)) => at <= s.len() && parse_key(s@.skip(i as int)) == Err::<
                (Seq<char>, Seq<char>),
                Fault,
            >(fault_in(kind, s@.len() as int, at as int)),
        },
{
    if i >= s.len() {
        return Err((ParseErrorKind::UnexpectedToken, i));
    }
    let c = s[i];
    assert(s@.skip(i as int)[0] == c);
    assert(s@.skip(i as int).skip(1) =~= s@.skip(i + 1));
    if c == '"' {
        read_quoted(s, i + 1)
    } else if is_atom(c) {
        let j = atom_end(s, i);
        let atom = slice_of(s, i, j);
        assert(s@.skip(i as int).skip(j - i) =~= s@.skip(j as int));
        Ok((string_of(&atom), j))
    } else {
        Err((ParseErrorKind::UnexpectedToken, i))
    }
}

/// The value that starts at or after `i`, and the index after it.
fn read_value(s: &Vec<char>, i: usize) -> (r: Result<(Plist, usize), (ParseErrorKind, usize)>)
    requires
        i <= s.len(),
    ensures
        match r {
            Ok((value, j)) => i < j <= s.len() && parse_value(s@.skip(i as int)) == Ok::<
                (PlistModel, Seq<char>),
                Fault,
            >((value.deep_view(), s@.skip(j as int))),
            Err((kind, at)) => at <= s.len() && parse_value(s@.skip(i as int)) == Err::<
                (PlistModel, Seq<char>),
                Fault,
            >(fault_in(kind, s@.len() as int, at as int)),
        },
    decreases s.len() - i, 0nat,
{
    let j = skip_spaces(s, i);
    if j >= s.len() {
        return Err((ParseErrorKind::UnexpectedToken, j));
    }
    let c = s[j];
    assert(s@.skip(j as int)[0] == c);
    assert(s@.skip(j as int).skip(1) =~= s@.skip(j + 1));
    if c == '{' {
        read_entries(s, j + 1)
    } else if c == '(' {
        read_items(s, j + 1)
    } else if c == '"' {
        match read_quoted(s, j + 1) {
            Ok((text, k)) => Ok((Plist::String(text), k)),
            Err(e) => Err(e),
        }
    } else if c == '<' {
        read_angle(s, j + 1)
    } else if is_atom(c) {
        let k = atom_end(s, j);
        let atom = slice_of(s, j, k);
        assert(s@.skip(j as int).skip(k - j) =~= s@.skip(k as int));
        Ok((read_atom(&atom), k))
    } else {
        Err((ParseErrorKind::UnexpectedToken, j))
    }
}

/// The dictionary whose entries start at or after `i`, after a `{`, and the
/// index after its `}`.
fn read_entries(s: &Vec<char>, i: usize) -> (r: Result<(Plist, usize), (ParseErrorKind, usize)>)
    requires
        i <= s.len(),
    ensures
        match r {
            Ok((value, j)) => i < j <= s.len() && parse_entries(s@.skip(i as int), Seq::empty())
                == Ok::<(PlistModel, Seq<char>), Fault>((value.deep_view(), s@.skip(j as int))),
            Err((kind, at)) => at <= s.len() && parse_entries(s@.skip(i as int), Seq::empty())
                == Err::<(PlistModel, Seq<char>), Fault>(
                fault_in(kind, s@.len() as int, at as int),
            ),
        },
    decreases s.len() - i, 1nat,
{
    let mut acc: Vec<(String, Plist)> = Vec::new();
    let mut j: usize = i;
    assert(entries_model(acc@) =~= Seq::empty());
    loop
        invariant
            i <= j <= s.len(),
            parse_entries(s@.skip(i as int), Seq::empty()) == parse_entries(
                s@.skip(j as int),
                entries_model(acc@),
            ),
        decreases s.len() - j,
    {
        let u = skip_spaces(s, j);
        if u >= s.len() {
            return Err((ParseErrorKind::UnexpectedToken, u));
        }
        assert(s@.skip(u as int)[0] == s@[u as int]);
        assert(s@.skip(u as int).skip(1) =~= s@.skip(u + 1));
        if s[u] == '}' {
            proof {
                lemma_entries_model(acc);
            }
            return Ok((Plist::Dictionary(acc), u + 1));
        }
        let (key, after_key) = match read_key(s, u) {
            Ok(found) => found,
            Err(e) => {
                return Err(e);
            },
        };
        let at_equals = skip_spaces(s, after_key);
        if at_equals >= s.len() || s[at_equals] != '=' {
            assert(at_equals < s.len() ==> s@.skip(at_equals as int)[0] == s@[at_equals as int]);
            return Err((ParseErrorKind::UnexpectedToken, at_equals));
        }
        assert(s@.skip(at_equals as int)[0] == s@[at_equals as int]);
        assert(s@.skip(at_equals as int).skip(1) =~= s@.skip(at_equals + 1));
        let (value, after_value) = match read_value(s, at_equals + 1) {
            Ok(found) => found,
            Err(e) => {
                return Err(e);
            },
        };
        let at_end = skip_spaces(s, after_value);
        if at_end >= s.len() || s[at_end] != ';' {
            assert(at_end < s.len() ==> s@.skip(at_end as int)[0] == s@[at_end as int]);
            return Err((ParseErrorKind::UnexpectedToken, at_end));
        }
        assert(s@.skip(at_end as int)[0] == s@[at_end as int]);
        assert(s@.skip(at_end as int).skip(1) =~= s@.skip(at_end + 1));
        let ghost before = entries_model(acc@);
        acc.push((key, value));
        assert(entries_model(acc@) =~= before.push((key@, value.deep_view())));
        j = at_end + 1;
    }
}

/// The array whose items start at or after `i`, after a `(`, and the index
/// after its `)`.
fn read_items(s: &Vec<char>, i: usize) -> (r: Result<(Plist, usize), (ParseErrorKind, usize)>)
    requires
        i <= s.len(),
    ensures
        match r {
            Ok((value, j)) => i < j <= s.len() && parse_items(s@.skip(i as int), Seq::empty())
                == Ok::<(PlistModel, Seq<char>), Fault>((value.deep_view(), s@.skip(j as int))),
            Err((kind, at)) => at <= s.len() && parse_items(s@.skip(i as int), Seq::empty())
                == Err::<(PlistModel, Seq<char>), Fault>(
                fault_in(kind, s@.len() as int, at as int),
            ),
        },
    decreases s.len() - i, 1nat,
{
    let mut acc: Vec<Plist> = Vec::new();
    let mut j: usize = i;
    assert(acc.deep_view() =~= Seq::empty());
    loop
        invariant
            i <= j <= s.len(),
            parse_items(s@.skip(i as int), Seq::empty()) == parse_items(
                s@.skip(j as int),
                acc.deep_view(),
            ),
        decreases s.len() - j,
    {
        let u = skip_spaces(s, j);
        if u >= s.len() {
            return Err((ParseErrorKind::UnexpectedToken, u));
        }
        assert(s@.skip(u as int)[0] == s@[u as int]);
        assert(s@.skip(u as int).skip(1) =~= s@.skip(u + 1));
        if s[u] == ')' {
            proof {
                lemma_items_model(acc);
            }
            return Ok((Plist::Array(acc), u + 1));
        }
        let (value, after_value) = match read_value(s, u) {
            Ok(found) => found,
            Err(e) => {
                return Err(e);
            },
        };
        let at_end = skip_spaces(s, after_value);
        if at_end >= s.len() {
            return Err((ParseErrorKind::UnexpectedToken, at_end));
        }
        assert(s@.skip(at_end as int)[0] == s@[at_end as int]);
        assert(s@.skip(at_end as int).skip(1) =~= s@.skip(at_end + 1));
        let ghost before = acc.deep_view();
        if s[at_end] == ',' {
            acc.push(value);
            assert(acc.deep_view() =~= before.push(value.deep_view()));
            j = at_end + 1;
        } else if s[at_end] == ')' {
            acc.push(value);
            assert(acc.deep_view() =~= before.push(value.deep_view()));
            proof {
                lemma_items_model(acc);
            }
            return Ok((Plist::Array(acc), at_end + 1));
        } else {
            return Err((ParseErrorKind::UnexpectedToken, at_end));
        }
    }
}

/// The line in which the character at `offset` stands, the first line being
/// line 0.
fn line_at(s: &Vec<char>, offset: usize) -> (r: usize)
    requires
        offset <= s.len(),
    ensures
        r == line_of(s@, offset as int),
{
    let mut line: usize = 0;
    let mut k: usize = 0;
    while k < offset
        invariant
            k <= offset <= s.len(),
            line == line_of(s@, k as int),
            line <= k,
        decreases offset - k,
    {
        if s[k] == '\n' {
            line += 1;
        }
        k += 1;
    }
    line
}

/// What `r` says of a text `t`: the value that the text holds, or the fault
/// in it with the place where it was found.
pub open spec fn reads_as(t: Seq<char>, r: Result<Plist, ParseError>) -> bool {
    match r {
        Ok(value) => parse_document(t) == Ok::<PlistModel, Fault>(value.deep_view()),
        Err(e) => {
            &&& e.offset <= t.len()
            &&& parse_document(t) == Err::<PlistModel, Fault>(
                fault_in(e.kind, t.len() as int, e.offset as int),
            )
            &&& e.line == line_of(t, e.offset as int)
        },
    }
}

/// The value that the characters `s` hold.
pub fn parse_chars(s: &Vec<char>) -> (r: Result<Plist, ParseError>)
    ensures
        reads_as(s@, r),
{
    assert(s@.skip(0) =~= s@);
    match read_value(s, 0) {
        Err((kind, offset)) => Err(ParseError { kind, offset, line: line_at(s, offset) }),
        Ok((value, j)) => {
            let end = skip_spaces(s, j);
            if end == s.len() {
                Ok(value)
            } else {
                Err(
                    ParseError {
                        kind: ParseErrorKind::TrailingInput,
                        offset: end,
                        line: line_at(s, end),
                    },
                )
            }
        },
    }
}

impl Plist {
    /// The value that `text` holds: one value, with nothing but spaces
    /// after it. Fails with the first fault in the text.
    pub fn parse(text: &str) -> (r: Result<Plist, ParseError>)
        ensures
            reads_as(text@, r),
    {
        let s = chars_of(text);
        parse_chars(&s)
    }
}

} // verus!
