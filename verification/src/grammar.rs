//! The text of a property list: what each text means, and how each value is
//! written.
//!
//! A dictionary is written `{ key = value; ... }`, an array `( value, ... )`.
//! A string stands in double quotes, with `\` before a quote or a backslash,
//! or bare where it is made of letters, digits and `_ $ / : .` and could not
//! be taken for a number. A whole number is written in decimal digits, any
//! other number with a decimal point; `infinity` is the infinite number. A
//! truth value is `<*BY>` or `<*BN>`, and raw bytes are digits of base
//! sixteen between `<` and `>`.

use vstd::prelude::*;
use crate::decimal::{
    chars_digits, decimal_of_text, digit_chars, has_point, is_digit_char, DecimalModel,
};
use crate::digits::{canonical_digits, digits_value, nat_digits};
use crate::plist::PlistModel;

verus! {

/// What is wrong with a text.
#[derive(Debug, Clone, Copy, PartialEq, Eq, Structural)]
pub enum ParseErrorKind {
    /// Something stands where it cannot stand, or the text ends too early.
    UnexpectedToken,
    /// A quoted string has no closing quote.
    UnterminatedString,
    /// A backslash in a quoted string is followed by something that it
    /// cannot escape.
    InvalidEscape,
    /// Something follows the value.
    TrailingInput,
}

/// A fault in a text: what is wrong, and how many characters of the text
/// were left where it was found.
pub struct Fault {
    pub kind: ParseErrorKind,
    pub remaining: nat,
}

/// The fault of the given kind at the start of `t`.
pub open spec fn fault_at(kind: ParseErrorKind, t: Seq<char>) -> Fault {
    Fault { kind, remaining: t.len() }
}

/// `c` separates tokens.
pub open spec fn is_space(c: char) -> bool {
    c == ' ' || c == '\t' || c == '\r' || c == '\n'
}

/// `c` can stand in a bare string.
pub open spec fn is_atom_char(c: char) -> bool {
    ('a' <= c && c <= 'z') || ('A' <= c && c <= 'Z') || ('0' <= c && c <= '9') || c == '_' || c
        == '$' || c == '/' || c == ':' || c == '.' || c == '-'
}

/// `c` can stand in a bare string that is written out: a hyphen is left to
/// quoted strings.
pub open spec fn is_bare_char(c: char) -> bool {
    is_atom_char(c) && c != '-'
}

/// `t` without the spaces at its start.
pub open spec fn trim_spaces(t: Seq<char>) -> Seq<char>
    decreases t.len(),
{
    if t.len() > 0 && is_space(t[0]) {
        trim_spaces(t.skip(1))
    } else {
        t
    }
}

/// How many characters of a bare string `t` begins with.
pub open spec fn atom_len(t: Seq<char>) -> nat
    decreases t.len(),
{
    if t.len() > 0 && is_atom_char(t[0]) {
        1 + atom_len(t.skip(1))
    } else {
        0
    }
}

/// Every character of `t` is a decimal digit.
pub open spec fn all_digit_chars(t: Seq<char>) -> bool {
    forall|i: int| 0 <= i < t.len() ==> is_digit_char(#[trigger] t[i])
}

/// The whole number that `a` writes, where `a` is the shortest way to write
/// a whole number that an `i64` holds: digits without a leading zero, after
/// a minus sign where the number is below zero.
pub open spec fn integer_of_text(a: Seq<char>) -> Option<i64> {
    let negative = a.len() > 0 && a[0] == '-';
    let body = if negative { a.skip(1) } else { a };
    let digits = chars_digits(body);
    if body.len() == 0 || !all_digit_chars(body) || !canonical_digits(digits) {
        None
    } else if negative {
        if digits_value(digits) == 0 || digits_value(digits) > 0x8000_0000_0000_0000 {
            None
        } else {
            Some((-(digits_value(digits) as int)) as i64)
        }
    } else {
        if digits_value(digits) > 0x7fff_ffff_ffff_ffff {
            None
        } else {
            Some(digits_value(digits) as i64)
        }
    }
}

/// What a bare token means: `infinity` and `-infinity` are the infinite
/// numbers; the shortest text of a whole number is that number; a decimal
/// literal with a point is that number; and anything else is a string.
pub open spec fn atom_value(a: Seq<char>) -> PlistModel {
    if a == "infinity"@ {
        PlistModel::Float(DecimalModel::infinity(false))
    } else if a == "-infinity"@ {
        PlistModel::Float(DecimalModel::infinity(true))
    } else {
        match integer_of_text(a) {
            Some(n) => PlistModel::Integer(n),
            None => if has_point(a) && decimal_of_text(a) is Some {
                PlistModel::Float(decimal_of_text(a)->0)
            } else {
                PlistModel::String(a)
            },
        }
    }
}

/// `c` is a digit of base eight.
pub open spec fn is_octal(c: char) -> bool {
    '0' <= c && c <= '7'
}

/// What stands for the characters after a backslash, and how many of them
/// it takes: a quote, a backslash, `n`, `r` and `t` for a line feed, a
/// carriage return and a tab, and three digits of base eight, the first
/// below four, for the character with that number.
pub open spec fn escape(t: Seq<char>) -> Option<(char, int)> {
    if t.len() == 0 {
        None
    } else if t[0] == '"' || t[0] == '\\' {
        Some((t[0], 1))
    } else if t[0] == 'n' {
        Some(('\n', 1))
    } else if t[0] == 'r' {
        Some(('\r', 1))
    } else if t[0] == 't' {
        Some(('\t', 1))
    } else if t.len() >= 3 && '0' <= t[0] && t[0] <= '3' && is_octal(t[1]) && is_octal(t[2]) {
        Some((((t[0] as int - 48) * 64 + (t[1] as int - 48) * 8 + (t[2] as int - 48)) as char, 3))
    } else {
        None
    }
}

/// The string that `t` holds up to its closing quote, after `acc`, and what
/// follows the quote.
pub open spec fn parse_quoted(t: Seq<char>, acc: Seq<char>) -> Result<(Seq<char>, Seq<char>), Fault>
    decreases t.len(),
{
    if t.len() == 0 {
        Err(fault_at(ParseErrorKind::UnterminatedString, t))
    } else if t[0] == '"' {
        Ok((acc, t.skip(1)))
    } else if t[0] == '\\' {
        if t.len() == 1 {
            Err(fault_at(ParseErrorKind::UnterminatedString, t.skip(1)))
        } else {
            match escape(t.skip(1)) {
                Some((c, n)) => parse_quoted(t.skip(1 + n), acc.push(c)),
                None => Err(fault_at(ParseErrorKind::InvalidEscape, t)),
            }
        }
    } else {
        parse_quoted(t.skip(1), acc.push(t[0]))
    }
}

/// `c` is a digit of base sixteen.
pub open spec fn is_hex(c: char) -> bool {
    ('0' <= c && c <= '9') || ('a' <= c && c <= 'f') || ('A' <= c && c <= 'F')
}

/// The number that the digit `c` of base sixteen writes.
pub open spec fn hex_value(c: char) -> int {
    if '0' <= c && c <= '9' {
        c as int - 48
    } else if 'a' <= c && c <= 'f' {
        c as int - 87
    } else {
        c as int - 55
    }
}

/// The bytes that `t` holds up to its closing `>`, after `acc`, and what
/// follows the `>`.
pub open spec fn parse_hex(t: Seq<char>, acc: Seq<u8>) -> Result<(Seq<u8>, Seq<char>), Fault>
    decreases t.len(),
{
    if t.len() == 0 {
        Err(fault_at(ParseErrorKind::UnexpectedToken, t))
    } else if t[0] == '>' {
        Ok((acc, t.skip(1)))
    } else if t.len() >= 2 && is_hex(t[0]) && is_hex(t[1]) {
        parse_hex(t.skip(2), acc.push((hex_value(t[0]) * 16 + hex_value(t[1])) as u8))
    } else {
        Err(fault_at(ParseErrorKind::UnexpectedToken, t))
    }
}

/// The value that `t` holds after a `<`: a truth value or raw bytes.
pub open spec fn parse_angle(t: Seq<char>) -> Result<(PlistModel, Seq<char>), Fault> {
    if t.len() > 0 && t[0] == '*' {
        if t.len() >= 4 && t[1] == 'B' && (t[2] == 'Y' || t[2] == 'N') && t[3] == '>' {
            Ok((PlistModel::Boolean(t[2] == 'Y'), t.skip(4)))
        } else {
            Err(fault_at(ParseErrorKind::UnexpectedToken, t))
        }
    } else {
        match parse_hex(t, Seq::empty()) {
            Ok((bytes, rest)) => Ok((PlistModel::Data(bytes), rest)),
            Err(f) => Err(f),
        }
    }
}

/// The key that `t` starts with: a quoted string, or a bare token as it
/// stands.
pub open spec fn parse_key(t: Seq<char>) -> Result<(Seq<char>, Seq<char>), Fault> {
    if t.len() == 0 {
        Err(fault_at(ParseErrorKind::UnexpectedToken, t))
    } else if t[0] == '"' {
        parse_quoted(t.skip(1), Seq::empty())
    } else if is_atom_char(t[0]) {
        Ok((t.take(atom_len(t) as int), t.skip(atom_len(t) as int)))
    } else {
        Err(fault_at(ParseErrorKind::UnexpectedToken, t))
    }
}

/// The value that `t` starts with, and what follows it.
///
/// Here and in `parse_entries` and `parse_items` the lengths of what is
/// left are compared only to show that reading ends. Reading always takes
/// input, so these comparisons turn nothing away.
pub open spec fn parse_value(t: Seq<char>) -> Result<(PlistModel, Seq<char>), Fault>
    decreases t.len(), 0nat,
{
    let u = trim_spaces(t);
    if u.len() > t.len() || u.len() == 0 {
        Err(fault_at(ParseErrorKind::UnexpectedToken, u))
    } else if u[0] == '{' {
        parse_entries(u.skip(1), Seq::empty())
    } else if u[0] == '(' {
        parse_items(u.skip(1), Seq::empty())
    } else if u[0] == '"' {
        match parse_quoted(u.skip(1), Seq::empty()) {
            Ok((s, rest)) => Ok((PlistModel::String(s), rest)),
            Err(f) => Err(f),
        }
    } else if u[0] == '<' {
        parse_angle(u.skip(1))
    } else if is_atom_char(u[0]) {
        Ok((atom_value(u.take(atom_len(u) as int)), u.skip(atom_len(u) as int)))
    } else {
        Err(fault_at(ParseErrorKind::UnexpectedToken, u))
    }
}

/// The dictionary whose first entries are `acc` and whose further entries
/// `t` holds up to the closing `}`, and what follows the `}`. Each entry is
/// a key, `=`, a value and `;`.
pub open spec fn parse_entries(t: Seq<char>, acc: Seq<(Seq<char>, PlistModel)>) -> Result<
    (PlistModel, Seq<char>),
    Fault,
>
    decreases t.len(), 1nat,
{
    let u = trim_spaces(t);
    if u.len() > t.len() || u.len() == 0 {
        Err(fault_at(ParseErrorKind::UnexpectedToken, u))
    } else if u[0] == '}' {
        Ok((PlistModel::Dictionary(acc), u.skip(1)))
    } else {
        match parse_key(u) {
            Err(f) => Err(f),
            Ok((key, after_key)) => {
                let at_equals = trim_spaces(after_key);
                if at_equals.len() == 0 || at_equals[0] != '=' || at_equals.len() > u.len() {
                    Err(fault_at(ParseErrorKind::UnexpectedToken, at_equals))
                } else {
                    match parse_value(at_equals.skip(1)) {
                        Err(f) => Err(f),
                        Ok((value, after_value)) => {
                            let at_end = trim_spaces(after_value);
                            if at_end.len() == 0 || at_end[0] != ';' || at_end.len()
                                > at_equals.len() {
                                Err(fault_at(ParseErrorKind::UnexpectedToken, at_end))
                            } else {
                                parse_entries(at_end.skip(1), acc.push((key, value)))
                            }
                        },
                    }
                }
            },
        }
    }
}

/// The array whose first items are `acc` and whose further items `t` holds
/// up to the closing `)`, and what follows the `)`. The items have commas
/// between them, and the last may have one after it.
pub open spec fn parse_items(t: Seq<char>, acc: Seq<PlistModel>) -> Result<
    (PlistModel, Seq<char>),
    Fault,
>
    decreases t.len(), 1nat,
{
    let u = trim_spaces(t);
    if u.len() > t.len() || u.len() == 0 {
        Err(fault_at(ParseErrorKind::UnexpectedToken, u))
    } else if u[0] == ')' {
        Ok((PlistModel::Array(acc), u.skip(1)))
    } else {
        match parse_value(u) {
            Err(f) => Err(f),
            Ok((value, after_value)) => {
                let at_end = trim_spaces(after_value);
                if at_end.len() == 0 || at_end.len() >= u.len() {
                    Err(fault_at(ParseErrorKind::UnexpectedToken, at_end))
                } else if at_end[0] == ',' {
                    parse_items(at_end.skip(1), acc.push(value))
                } else if at_end[0] == ')' {
                    Ok((PlistModel::Array(acc.push(value)), at_end.skip(1)))
                } else {
                    Err(fault_at(ParseErrorKind::UnexpectedToken, at_end))
                }
            },
        }
    }
}

/// The value that the whole of `t` holds: one value, with nothing but
/// spaces after it.
pub open spec fn parse_document(t: Seq<char>) -> Result<PlistModel, Fault> {
    match parse_value(t) {
        Err(f) => Err(f),
        Ok((value, rest)) => {
            let end = trim_spaces(rest);
            if end.len() == 0 {
                Ok(value)
            } else {
                Err(fault_at(ParseErrorKind::TrailingInput, end))
            }
        },
    }
}

/// The number of the line in which the character at `offset` stands, the
/// first line being line 0: how many line feeds stand before it.
pub open spec fn line_of(t: Seq<char>, offset: int) -> nat
    decreases offset,
{
    if offset <= 0 || offset > t.len() {
        0
    } else if t[offset - 1] == '\n' {
        line_of(t, offset - 1) + 1
    } else {
        line_of(t, offset - 1)
    }
}

/// `s` with a backslash before each quote and each backslash.
pub open spec fn escaped(s: Seq<char>) -> Seq<char>
    decreases s.len(),
{
    if s.len() == 0 {
        s
    } else if s[0] == '"' || s[0] == '\\' {
        seq!['\\', s[0]] + escaped(s.skip(1))
    } else {
        seq![s[0]] + escaped(s.skip(1))
    }
}

/// `s` can be written bare: it is not empty, holds only what a written bare
/// string can hold, and would be read as that string and not as a number.
pub open spec fn is_bare(s: Seq<char>) -> bool {
    &&& s.len() > 0
    &&& forall|i: int| 0 <= i < s.len() ==> is_bare_char(#[trigger] s[i])
    &&& atom_value(s) == PlistModel::String(s)
}

/// How the string `s` is written: bare where it can be, and else in quotes.
pub open spec fn string_text(s: Seq<char>) -> Seq<char> {
    if is_bare(s) {
        s
    } else {
        seq!['"'] + escaped(s) + seq!['"']
    }
}

/// How the whole number `n` is written.
pub open spec fn integer_text(n: i64) -> Seq<char> {
    if n < 0 {
        seq!['-'] + digit_chars(nat_digits((-(n as int)) as nat))
    } else {
        digit_chars(nat_digits(n as nat))
    }
}

/// How the number `d` is written: with a decimal point, so that it is not
/// taken for a whole number; an infinity as `infinity`.
pub open spec fn float_text(d: DecimalModel) -> Seq<char> {
    if d.infinite {
        if d.negative {
            "-infinity"@
        } else {
            "infinity"@
        }
    } else if d.fraction.len() == 0 {
        d.display() + seq!['.', '0']
    } else {
        d.display()
    }
}

/// The digit of base sixteen that writes `n`.
pub open spec fn hex_digit(n: int) -> char {
    if n < 10 {
        (n + 48) as char
    } else {
        (n + 87) as char
    }
}

/// How the bytes `bytes` are written: two digits of base sixteen each.
pub open spec fn hex_text(bytes: Seq<u8>) -> Seq<char>
    decreases bytes.len(),
{
    if bytes.len() == 0 {
        Seq::empty()
    } else {
        seq![hex_digit(bytes[0] as int / 16), hex_digit(bytes[0] as int % 16)] + hex_text(
            bytes.skip(1),
        )
    }
}

/// How an entry of a dictionary is written, given the text of its value.
pub open spec fn entry_text(key: Seq<char>, value: Seq<char>) -> Seq<char> {
    string_text(key) + seq![' ', '=', ' '] + value + seq![';', '\n']
}

/// How the items of an array are written, given their texts: each on a line
/// of its own, with commas between them.
pub open spec fn items_text(items: Seq<Seq<char>>) -> Seq<char>
    decreases items.len(),
{
    if items.len() == 0 {
        Seq::empty()
    } else if items.len() == 1 {
        seq!['\n'] + items[0]
    } else {
        items_text(items.drop_last()) + seq![',', '\n'] + items.last()
    }
}

/// How the parts of `v` are written: the entries of a dictionary, the items
/// of an array.
pub open spec fn part_texts(v: PlistModel) -> Seq<Seq<char>>
    decreases v, 0nat,
{
    match v {
        PlistModel::Dictionary(entries) => Seq::new(
            entries.len(),
            |i: int|
                if 0 <= i < entries.len() {
                    entry_text(entries[i].0, text_of(entries[i].1))
                } else {
                    Seq::empty()
                },
        ),
        PlistModel::Array(items) => Seq::new(
            items.len(),
            |i: int|
                if 0 <= i < items.len() {
                    text_of(items[i])
                } else {
                    Seq::empty()
                },
        ),
        _ => Seq::empty(),
    }
}

/// How the value `v` is written.
pub open spec fn text_of(v: PlistModel) -> Seq<char>
    decreases v, 1nat,
{
    match v {
        PlistModel::Dictionary(_) => seq!['{', '\n'] + part_texts(v).flatten() + seq!['}'],
        PlistModel::Array(_) => seq!['('] + items_text(part_texts(v)) + seq!['\n', ')'],
        PlistModel::String(s) => string_text(s),
        PlistModel::Integer(n) => integer_text(n),
        PlistModel::Float(d) => float_text(d),
        PlistModel::Boolean(b) => if b {
            "<*BY>"@
        } else {
            "<*BN>"@
        },
        PlistModel::Data(bytes) => seq!['<'] + hex_text(bytes) + seq!['>'],
    }
}

} // verus!
