//! Writing the text of a property list.

use vstd::prelude::*;
use crate::decimal::{digit_chars, write_digits, Decimal};
use crate::digits::{digits_of_u64, lemma_nat_digits, nat_digits};
use crate::grammar::{
    entry_text, escaped, float_text, hex_digit, hex_text, integer_text, is_bare, is_bare_char,
    items_text, part_texts, string_text, text_of,
};
use crate::grammar::{parse_document, Fault};
use crate::parse::read_atom;
use crate::plist::PlistModel;
use crate::roundtrip::lemma_round_trip;
use crate::plist::Plist;
use crate::text::{chars_of, push_str, string_of};

verus! {

fn is_bare_letter(c: char) -> (r: bool)
    ensures
        r == is_bare_char(c),
{
    ('a' <= c && c <= 'z') || ('A' <= c && c <= 'Z') || ('0' <= c && c <= '9') || c == '_' || c
        == '$' || c == '/' || c == ':' || c == '.'
}

/// Whether the string `s` can be written bare.
fn can_be_bare(s: &Vec<char>) -> (r: bool)
    ensures
        r == is_bare(s@),
{
    if s.len() == 0 {
        return false;
    }
    let mut k: usize = 0;
    while k < s.len()
        invariant
            k <= s.len(),
            forall|i: int| 0 <= i < k ==> is_bare_char(#[trigger] s@[i]),
        decreases s.len() - k,
    {
        if !is_bare_letter(s[k]) {
            return false;
        }
        k += 1;
    }
    match read_atom(s) {
        Plist::String(_) => true,
        _ => false,
    }
}

/// Appends `s` with a backslash before each quote and each backslash.
fn write_escaped(s: &Vec<char>, out: &mut Vec<char>)
    ensures
        final(out)@ == old(out)@ + escaped(s@),
{
    let mut k: usize = 0;
    assert(s@.skip(0) =~= s@);
    while k < s.len()
        invariant
            k <= s.len(),
            out@ + escaped(s@.skip(k as int)) == old(out)@ + escaped(s@),
        decreases s.len() - k,
    {
        let c = s[k];
        let ghost before = out@;
        let ghost rest = s@.skip(k as int);
        assert(rest[0] == c);
        assert(rest.skip(1) =~= s@.skip(k + 1));
        if c == '"' || c == '\\' {
            out.push('\\');
            out.push(c);
            assert(out@ + escaped(s@.skip(k + 1)) =~= before + (seq!['\\', c] + escaped(
                rest.skip(1),
            )));
        } else {
            out.push(c);
            assert(out@ + escaped(s@.skip(k + 1)) =~= before + (seq![c] + escaped(rest.skip(1))));
        }
        k += 1;
    }
    assert(escaped(s@.skip(s@.len() as int)) =~= Seq::<char>::empty());
    assert(out@ + Seq::<char>::empty() =~= out@);
}

/// Appends the string `s` as it is written: bare where it can be, and else
/// in quotes.
pub fn write_string(s: &str, out: &mut Vec<char>)
    ensures
        final(out)@ == old(out)@ + string_text(s@),
{
    let chars = chars_of(s);
    if can_be_bare(&chars) {
        crate::text::push_all(out, &chars);
    } else {
        out.push('"');
        write_escaped(&chars, out);
        out.push('"');
        assert(out@ =~= old(out)@ + (seq!['"'] + escaped(s@) + seq!['"']));
    }
}

/// Appends the whole number `n` as it is written.
pub fn write_integer(n: i64, out: &mut Vec<char>)
    ensures
        final(out)@ == old(out)@ + integer_text(n),
{
    let m = crate::decimal::magnitude(n);
    let digits = digits_of_u64(m);
    proof {
        lemma_nat_digits(m as nat);
    }
    if n < 0 {
        out.push('-');
        write_digits(&digits, out);
        assert(out@ =~= old(out)@ + (seq!['-'] + digit_chars(nat_digits((-(n as int)) as nat))));
    } else {
        write_digits(&digits, out);
    }
}

/// Appends the number `d` as it is written.
pub fn write_float(d: &Decimal, out: &mut Vec<char>)
    ensures
        final(out)@ == old(out)@ + float_text(d@),
{
    if d.is_infinite() {
        if d.is_negative() {
            push_str(out, "-infinity");
        } else {
            push_str(out, "infinity");
        }
    } else {
        d.write_display(out);
        if d.is_integer() {
            out.push('.');
            out.push('0');
            assert(out@ =~= old(out)@ + (d@.display() + seq!['.', '0']));
        }
    }
}

fn hex_letter(n: u8) -> (r: char)
    requires
        n < 16,
    ensures
        r == hex_digit(n as int),
{
    if n < 10 {
        (n + 48) as char
    } else {
        (n + 87) as char
    }
}

/// Appends the digits of base sixteen of `bytes`.
fn write_hex(bytes: &Vec<u8>, out: &mut Vec<char>)
    ensures
        final(out)@ == old(out)@ + hex_text(bytes@),
{
    let mut k: usize = 0;
    assert(bytes@.skip(0) =~= bytes@);
    while k < bytes.len()
        invariant
            k <= bytes.len(),
            out@ + hex_text(bytes@.skip(k as int)) == old(out)@ + hex_text(bytes@),
        decreases bytes.len() - k,
    {
        let b = bytes[k];
        let ghost before = out@;
        let ghost rest = bytes@.skip(k as int);
        assert(rest[0] == b);
        assert(rest.skip(1) =~= bytes@.skip(k + 1));
        out.push(hex_letter(b / 16));
        out.push(hex_letter(b % 16));
        assert(out@ + hex_text(bytes@.skip(k + 1)) =~= before + (seq![
            hex_digit(b as int / 16),
            hex_digit(b as int % 16),
        ] + hex_text(rest.skip(1))));
        k += 1;
    }
    assert(hex_text(bytes@.skip(bytes@.len() as int)) =~= Seq::<char>::empty());
    assert(out@ + Seq::<char>::empty() =~= out@);
}

/// Appends the dictionary `v`, whose entries are `entries`, as it is
/// written.
#[verifier::loop_isolation(false)]
fn write_dictionary(v: &Plist, entries: &Vec<(String, Plist)>, out: &mut Vec<char>)
    requires
        *v == Plist::Dictionary(*entries),
    ensures
        final(out)@ == old(out)@ + text_of(v.deep_view()),
        v.deep_view().wf(),
    decreases v, 0nat,
{
    let ghost parts = part_texts(v.deep_view());
    out.push('{');
    out.push('\n');
    let mut i: usize = 0;
    assert(parts.take(0) =~= Seq::<Seq<char>>::empty());
    assert(out@ =~= old(out)@ + seq!['{', '\n'] + parts.take(0).flatten());
    while i < entries.len()
        invariant
            i <= entries.len(),
            parts.len() == entries.len(),
            out@ == old(out)@ + seq!['{', '\n'] + parts.take(i as int).flatten(),
            forall|j: int| 0 <= j < i ==> (#[trigger] entries@[j]).1.deep_view().wf(),
        decreases entries.len() - i,
    {
        let ghost before = out@;
        write_string(entries[i].0.as_str(), out);
        out.push(' ');
        out.push('=');
        out.push(' ');
        write_value(&entries[i].1, out);
        out.push(';');
        out.push('\n');
        proof {
            let part = entry_text(entries@[i as int].0@, text_of(entries@[i as int].1.deep_view()));
            assert(parts[i as int] == part);
            assert(out@ =~= before + part);
            assert(parts.take(i + 1) =~= parts.take(i as int).push(part));
            parts.take(i as int).lemma_flatten_push(part);
        }
        i += 1;
    }
    assert(parts.take(parts.len() as int) =~= parts);
    out.push('}');
}

/// Appends the array `v`, whose items are `items`, as it is written.
#[verifier::loop_isolation(false)]
fn write_array(v: &Plist, items: &Vec<Plist>, out: &mut Vec<char>)
    requires
        *v == Plist::Array(*items),
    ensures
        final(out)@ == old(out)@ + text_of(v.deep_view()),
        v.deep_view().wf(),
    decreases v, 0nat,
{
    let ghost parts = part_texts(v.deep_view());
    out.push('(');
    let mut i: usize = 0;
    assert(parts.take(0) =~= Seq::<Seq<char>>::empty());
    assert(out@ =~= old(out)@ + seq!['('] + items_text(parts.take(0)));
    while i < items.len()
        invariant
            i <= items.len(),
            parts.len() == items.len(),
            out@ == old(out)@ + seq!['('] + items_text(parts.take(i as int)),
            forall|j: int| 0 <= j < i ==> (#[trigger] items@[j]).deep_view().wf(),
        decreases items.len() - i,
    {
        let ghost before = out@;
        if i > 0 {
            out.push(',');
        }
        out.push('\n');
        write_value(&items[i], out);
        proof {
            let part = text_of(items@[i as int].deep_view());
            assert(parts[i as int] == part);
            assert(parts.take(i + 1).drop_last() =~= parts.take(i as int));
            assert(parts.take(i + 1).last() == part);
            if i > 0 {
                assert(out@ =~= before + seq![',', '\n'] + part);
            } else {
                assert(out@ =~= before + seq!['\n'] + part);
                assert(parts.take(1)[0] == part);
                assert(items_text(parts.take(0)) =~= Seq::<char>::empty());
            }
        }
        i += 1;
    }
    assert(parts.take(parts.len() as int) =~= parts);
    out.push('\n');
    out.push(')');
    assert(out@ =~= old(out)@ + (seq!['('] + items_text(parts) + seq!['\n', ')']));
}

/// Appends the value `v` as it is written.
pub fn write_value(v: &Plist, out: &mut Vec<char>)
    ensures
        final(out)@ == old(out)@ + text_of(v.deep_view()),
        v.deep_view().wf(),
    decreases v, 1nat,
{
    match v {
        Plist::Dictionary(entries) => {
            write_dictionary(v, entries, out);
        },
        Plist::Array(items) => {
            write_array(v, items, out);
        },
        Plist::String(s) => {
            write_string(s.as_str(), out);
        },
        Plist::Integer(n) => {
            write_integer(*n, out);
        },
        Plist::Float(d) => {
            proof {
                use_type_invariant(d);
            }
            write_float(d, out);
        },
        Plist::Boolean(b) => {
            if *b {
                push_str(out, "<*BY>");
            } else {
                push_str(out, "<*BN>");
            }
        },
        Plist::Data(bytes) => {
            out.push('<');
            write_hex(bytes, out);
            out.push('>');
            assert(out@ =~= old(out)@ + (seq!['<'] + hex_text(bytes@) + seq!['>']));
        },
    }
}

impl Plist {
    /// The text of this value. Reading the text gives the value back.
    pub fn to_string(&self) -> (r: String)
        ensures
            r@ == text_of(self.deep_view()),
            parse_document(r@) == Ok::<PlistModel, Fault>(self.deep_view()),
    {
        let mut out: Vec<char> = Vec::new();
        write_value(self, &mut out);
        assert(out@ =~= text_of(self.deep_view()));
        proof {
            lemma_round_trip(self.deep_view());
        }
        string_of(&out)
    }
}

} // verus!
