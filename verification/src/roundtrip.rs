//! Reading what was written gives back what was written.

use vstd::prelude::*;
use crate::decimal::{
    chars_digits, decimal_of_text, digit_chars, has_point, is_digit_char, lemma_leading_digits,
    strip_zeros, trim_zeros, DecimalModel,
};
use crate::digits::{all_digits, lemma_nat_digits, nat_digits};
use crate::grammar::{
    all_digit_chars, atom_len, atom_value, entry_text, escape, escaped, float_text, hex_digit,
    hex_text, hex_value, integer_of_text, integer_text, is_atom_char, is_bare, is_bare_char,
    is_hex, is_space, items_text, parse_document, parse_entries, parse_hex, parse_items, parse_key,
    parse_quoted, parse_value, part_texts, string_text, text_of, trim_spaces, Fault,
};
use crate::plist::PlistModel;

verus! {

/// Trimming takes nothing but spaces away, and there is nothing left to
/// trim after it.
pub proof fn lemma_trim(t: Seq<char>)
    ensures
        trim_spaces(t).len() <= t.len(),
        trim_spaces(trim_spaces(t)) == trim_spaces(t),
        trim_spaces(t).len() == 0 || !is_space(trim_spaces(t)[0]),
    decreases t.len(),
{
    if t.len() > 0 && is_space(t[0]) {
        lemma_trim(t.skip(1));
    }
}

/// What stands before a value, a dictionary's entries or an array's items
/// may be trimmed beforehand.
pub proof fn lemma_parse_trimmed(t: Seq<char>)
    ensures
        parse_value(t) == parse_value(trim_spaces(t)),
        forall|acc: Seq<(Seq<char>, PlistModel)>| #[trigger]
            parse_entries(t, acc) == parse_entries(trim_spaces(t), acc),
        forall|acc: Seq<PlistModel>| #[trigger]
            parse_items(t, acc) == parse_items(trim_spaces(t), acc),
{
    lemma_trim(t);
    lemma_trim(trim_spaces(t));
}

/// A bare token is no longer than the text that it starts.
pub proof fn lemma_atom_len_bound(t: Seq<char>)
    ensures
        atom_len(t) <= t.len(),
    decreases t.len(),
{
    if t.len() > 0 && is_atom_char(t[0]) {
        lemma_atom_len_bound(t.skip(1));
    }
}

/// Reading a quoted string takes at least its closing quote.
pub proof fn lemma_quoted_consumes(t: Seq<char>, acc: Seq<char>)
    ensures
        parse_quoted(t, acc) matches Ok((_, rest)) ==> rest.len() < t.len(),
    decreases t.len(),
{
    if t.len() > 0 && t[0] != '"' {
        if t[0] == '\\' {
            if t.len() > 1 {
                match escape(t.skip(1)) {
                    Some((c, n)) => {
                        lemma_quoted_consumes(t.skip(1 + n), acc.push(c));
                    },
                    None => {},
                }
            }
        } else {
            lemma_quoted_consumes(t.skip(1), acc.push(t[0]));
        }
    }
}

/// Reading raw bytes takes at least their closing `>`.
pub proof fn lemma_hex_consumes(t: Seq<char>, acc: Seq<u8>)
    ensures
        parse_hex(t, acc) matches Ok((_, rest)) ==> rest.len() < t.len(),
    decreases t.len(),
{
    if t.len() > 0 && t[0] != '>' && t.len() >= 2 && is_hex(t[0]) && is_hex(t[1]) {
        lemma_hex_consumes(
            t.skip(2),
            acc.push((hex_value(t[0]) * 16 + hex_value(t[1])) as u8),
        );
    }
}

/// Reading a key takes at least one character.
pub proof fn lemma_key_consumes(t: Seq<char>)
    ensures
        parse_key(t) matches Ok((_, rest)) ==> rest.len() < t.len(),
{
    if t.len() > 0 {
        if t[0] == '"' {
            lemma_quoted_consumes(t.skip(1), Seq::empty());
        } else {
            lemma_atom_len_bound(t);
        }
    }
}

/// Reading a value takes at least one character. This is why reading
/// ends, and why the comparisons of lengths in `parse_value`,
/// `parse_entries` and `parse_items`, which are there to show that it ends,
/// never turn anything away.
pub proof fn lemma_value_consumes(t: Seq<char>)
    ensures
        parse_value(t) matches Ok((_, rest)) ==> rest.len() < t.len(),
    decreases t.len(), 0nat,
{
    let u = trim_spaces(t);
    lemma_trim(t);
    if u.len() > 0 {
        if u[0] == '{' {
            lemma_entries_consumes(u.skip(1), Seq::empty());
        } else if u[0] == '(' {
            lemma_items_consumes(u.skip(1), Seq::empty());
        } else if u[0] == '"' {
            lemma_quoted_consumes(u.skip(1), Seq::empty());
        } else if u[0] == '<' {
            lemma_hex_consumes(u.skip(1), Seq::empty());
        } else if is_atom_char(u[0]) {
            lemma_atom_len_bound(u);
        }
    }
}

/// Reading the entries of a dictionary takes at least its closing `}`.
pub proof fn lemma_entries_consumes(t: Seq<char>, acc: Seq<(Seq<char>, PlistModel)>)
    ensures
        parse_entries(t, acc) matches Ok((_, rest)) ==> rest.len() < t.len(),
    decreases t.len(), 1nat,
{
    let u = trim_spaces(t);
    lemma_trim(t);
    if u.len() > 0 && u[0] != '}' {
        lemma_key_consumes(u);
        match parse_key(u) {
            Ok((key, after_key)) => {
                let at_equals = trim_spaces(after_key);
                lemma_trim(after_key);
                if at_equals.len() > 0 && at_equals[0] == '=' {
                    lemma_value_consumes(at_equals.skip(1));
                    match parse_value(at_equals.skip(1)) {
                        Ok((value, after_value)) => {
                            let at_end = trim_spaces(after_value);
                            lemma_trim(after_value);
                            if at_end.len() > 0 && at_end[0] == ';' {
                                lemma_entries_consumes(at_end.skip(1), acc.push((key, value)));
                            }
                        },
                        Err(_) => {},
                    }
                }
            },
            Err(_) => {},
        }
    }
}

/// Reading the items of an array takes at least its closing `)`.
pub proof fn lemma_items_consumes(t: Seq<char>, acc: Seq<PlistModel>)
    ensures
        parse_items(t, acc) matches Ok((_, rest)) ==> rest.len() < t.len(),
    decreases t.len(), 1nat,
{
    let u = trim_spaces(t);
    lemma_trim(t);
    if u.len() > 0 && u[0] != ')' {
        lemma_value_consumes(u);
        match parse_value(u) {
            Ok((value, after_value)) => {
                let at_end = trim_spaces(after_value);
                lemma_trim(after_value);
                if at_end.len() > 0 && at_end.len() < u.len() && at_end[0] == ',' {
                    lemma_items_consumes(at_end.skip(1), acc.push(value));
                }
            },
            Err(_) => {},
        }
    }
}

/// `rest` does not go on with a bare token.
pub open spec fn ends_token(rest: Seq<char>) -> bool {
    rest.len() == 0 || !is_atom_char(rest[0])
}

/// Every character of `a` can stand in a bare token.
pub open spec fn all_atom_chars(a: Seq<char>) -> bool {
    forall|i: int| 0 <= i < a.len() ==> is_atom_char(#[trigger] a[i])
}

/// A run of characters of a bare token, with something else after it, is
/// the whole token.
pub proof fn lemma_atom_len(a: Seq<char>, rest: Seq<char>)
    requires
        all_atom_chars(a),
        ends_token(rest),
    ensures
        atom_len(a + rest) == a.len(),
        (a + rest).take(a.len() as int) == a,
        (a + rest).skip(a.len() as int) == rest,
    decreases a.len(),
{
    assert((a + rest).take(a.len() as int) =~= a);
    assert((a + rest).skip(a.len() as int) =~= rest);
    if a.len() > 0 {
        assert((a + rest).skip(1) =~= a.skip(1) + rest);
        assert forall|i: int| 0 <= i < a.skip(1).len() implies is_atom_char(
            #[trigger] a.skip(1)[i],
        ) by {
            assert(a.skip(1)[i] == a[i + 1]);
        }
        lemma_atom_len(a.skip(1), rest);
        assert((a + rest)[0] == a[0]);
    } else {
        assert(a + rest =~= rest);
    }
}

/// A string that was escaped and closed with a quote is read back as it
/// was.
pub proof fn lemma_quoted(s: Seq<char>, acc: Seq<char>, tail: Seq<char>)
    ensures
        parse_quoted(escaped(s) + seq!['"'] + tail, acc) == Ok::<(Seq<char>, Seq<char>), Fault>(
            (acc + s, tail),
        ),
    decreases s.len(),
{
    let t = escaped(s) + seq!['"'] + tail;
    if s.len() == 0 {
        assert(t[0] == '"');
        assert(t.skip(1) =~= tail);
        assert(acc + s =~= acc);
    } else {
        let c = s[0];
        let next = escaped(s.skip(1)) + seq!['"'] + tail;
        if c == '"' || c == '\\' {
            assert(t =~= seq!['\\', c] + next);
            assert(t[0] == '\\');
            assert(t.skip(1)[0] == c);
            assert(escape(t.skip(1)) == Some((c, 1int)));
            assert(t.skip(2) =~= next);
        } else {
            assert(t =~= seq![c] + next);
            assert(t[0] == c);
            assert(t.skip(1) =~= next);
        }
        lemma_quoted(s.skip(1), acc.push(c), tail);
        assert(acc.push(c) + s.skip(1) =~= acc + s);
    }
}

/// The digit of base sixteen that writes a number below sixteen is read as
/// that number.
pub proof fn lemma_hex_digit(n: int)
    requires
        0 <= n < 16,
    ensures
        is_hex(hex_digit(n)),
        hex_value(hex_digit(n)) == n,
        hex_digit(n) != '>',
        hex_digit(n) != '*',
{
}

/// Bytes that were written and closed with `>` are read back as they were.
pub proof fn lemma_hex(bytes: Seq<u8>, acc: Seq<u8>, tail: Seq<char>)
    ensures
        parse_hex(hex_text(bytes) + seq!['>'] + tail, acc) == Ok::<(Seq<u8>, Seq<char>), Fault>(
            (acc + bytes, tail),
        ),
    decreases bytes.len(),
{
    let t = hex_text(bytes) + seq!['>'] + tail;
    if bytes.len() == 0 {
        assert(t[0] == '>');
        assert(t.skip(1) =~= tail);
        assert(acc + bytes =~= acc);
    } else {
        let b = bytes[0];
        let hi = b as int / 16;
        let lo = b as int % 16;
        lemma_hex_digit(hi);
        lemma_hex_digit(lo);
        let next = hex_text(bytes.skip(1)) + seq!['>'] + tail;
        assert(t =~= seq![hex_digit(hi), hex_digit(lo)] + next);
        assert(t[0] == hex_digit(hi) && t[1] == hex_digit(lo));
        assert(t.skip(2) =~= next);
        assert((hi * 16 + lo) as u8 == b);
        lemma_hex(bytes.skip(1), acc.push(b), tail);
        assert(acc.push(b) + bytes.skip(1) =~= acc + bytes);
    }
}

/// The characters that write digits are digits, and can stand in a bare
/// token.
pub proof fn lemma_digit_chars(d: Seq<u8>)
    requires
        all_digits(d),
    ensures
        digit_chars(d).len() == d.len(),
        all_digit_chars(digit_chars(d)),
        all_atom_chars(digit_chars(d)),
        chars_digits(digit_chars(d)) == d,
{
    assert(chars_digits(digit_chars(d)) =~= d);
    assert forall|i: int| 0 <= i < d.len() implies is_digit_char(#[trigger] digit_chars(d)[i])
        && is_atom_char(digit_chars(d)[i]) by {
        assert(d[i] < 10);
    }
}

/// A whole number that was written is read back as it was.
pub proof fn lemma_integer(n: i64)
    ensures
        integer_text(n).len() > 0,
        all_atom_chars(integer_text(n)),
        atom_value(integer_text(n)) == PlistModel::Integer(n),
{
    let m: nat = if n < 0 { (-(n as int)) as nat } else { n as nat };
    let d = nat_digits(m);
    lemma_nat_digits(m);
    lemma_digit_chars(d);
    let a = integer_text(n);
    let body = if n < 0 { a.skip(1) } else { a };
    assert(body =~= digit_chars(d));
    assert(a[0] == '-' <==> n < 0) by {
        if n >= 0 {
            assert(a[0] == digit_chars(d)[0]);
            assert(is_digit_char(a[0]));
        }
    }
    assert(all_atom_chars(a)) by {
        assert forall|i: int| 0 <= i < a.len() implies is_atom_char(#[trigger] a[i]) by {
            if n < 0 && i > 0 {
                assert(a[i] == digit_chars(d)[i - 1]);
            } else if n >= 0 {
                assert(a[i] == digit_chars(d)[i]);
            }
        }
    }
    reveal_strlit("infinity");
    reveal_strlit("-infinity");
    assert(a != "infinity"@) by {
        if a == "infinity"@ {
            assert(a[0] == 'i');
        }
    }
    assert(a != "-infinity"@) by {
        if a == "-infinity"@ {
            assert(a[1] == 'i');
            assert(body[0] == 'i');
        }
    }
    assert(integer_of_text(a) == Some(n));
}

/// A number that was written is read back as it was.
pub proof fn lemma_float(d: DecimalModel)
    requires
        d.wf(),
    ensures
        float_text(d).len() > 0,
        all_atom_chars(float_text(d)),
        atom_value(float_text(d)) == PlistModel::Float(d),
{
    let a = float_text(d);
    reveal_strlit("infinity");
    reveal_strlit("-infinity");
    if d.infinite {
        assert(d.whole =~= Seq::<u8>::empty());
        assert(d.fraction =~= Seq::<u8>::empty());
        assert(d == DecimalModel::infinity(d.negative));
        assert("-infinity"@ != "infinity"@) by {
            assert("-infinity"@[0] == '-');
            assert("infinity"@[0] == 'i');
        }
        assert forall|i: int| 0 <= i < a.len() implies is_atom_char(#[trigger] a[i]) by {
            if d.negative {
                assert(a[0] == '-' && a[1] == 'i' && a[2] == 'n' && a[3] == 'f' && a[4] == 'i'
                    && a[5] == 'n' && a[6] == 'i' && a[7] == 't' && a[8] == 'y');
            } else {
                assert(a[0] == 'i' && a[1] == 'n' && a[2] == 'f' && a[3] == 'i' && a[4] == 'n'
                    && a[5] == 'i' && a[6] == 't' && a[7] == 'y');
            }
        }
    } else {
        let sign = if d.negative { seq!['-'] } else { Seq::<char>::empty() };
        let fr = if d.fraction.len() == 0 { seq![0u8] } else { d.fraction };
        let w = digit_chars(d.whole);
        let f = digit_chars(fr);
        lemma_digit_chars(d.whole);
        lemma_digit_chars(fr);
        assert(f =~= if d.fraction.len() == 0 { seq!['0'] } else { digit_chars(d.fraction) });
        assert(a =~= sign + w + seq!['.'] + f);
        let body = if d.negative { a.skip(1) } else { a };
        assert(body =~= w + seq!['.'] + f);
        let k = w.len() as int;
        assert(a[0] == '-' <==> d.negative) by {
            if !d.negative {
                assert(a[0] == w[0]);
                assert(is_digit_char(w[0]));
            }
        }
        assert forall|j: int| 0 <= j < k implies is_digit_char(#[trigger] body[j]) by {
            assert(body[j] == w[j]);
        }
        assert(body[k] == '.');
        lemma_leading_digits(body, k);
        let rest = body.skip(k);
        assert(rest =~= seq!['.'] + f);
        assert(rest.skip(1) =~= f);
        lemma_leading_digits(f, f.len() as int);
        assert(body.take(k) =~= w);
        assert(strip_zeros(d.whole) == d.whole);
        assert(trim_zeros(fr) == d.fraction) by {
            if d.fraction.len() == 0 {
                assert(fr.drop_last() =~= Seq::<u8>::empty());
                assert(trim_zeros(fr.drop_last()) == fr.drop_last());
                assert(d.fraction =~= Seq::<u8>::empty());
            }
        }
        assert(decimal_of_text(a) == Some(d));
        assert(!all_digit_chars(body)) by {
            assert(!is_digit_char(body[k]));
        }
        assert(integer_of_text(a) is None);
        assert(has_point(a)) by {
            assert(a[sign.len() + k] == '.');
        }
        assert forall|i: int| 0 <= i < a.len() implies is_atom_char(#[trigger] a[i]) by {
            let j = i - sign.len();
            if j >= 0 {
                if j < k {
                    assert(a[i] == w[j]);
                } else if j > k {
                    assert(a[i] == f[j - k - 1]);
                }
            }
        }
        assert(a != "infinity"@) by {
            if a == "infinity"@ {
                assert(a[0] == 'i');
            }
        }
        assert(a != "-infinity"@) by {
            if a == "-infinity"@ {
                assert(a[1] == 'i');
                assert(body[0] == 'i');
            }
        }
    }
}

/// `c` can start the text of a value.
pub open spec fn starts_value(c: char) -> bool {
    c == '{' || c == '(' || c == '"' || c == '<' || is_atom_char(c)
}

/// The text of a string starts with a quote or with a character of a bare
/// token, and a key that was written is read back as it was.
pub proof fn lemma_key(s: Seq<char>, rest: Seq<char>)
    requires
        ends_token(rest),
    ensures
        string_text(s).len() > 0,
        string_text(s)[0] == '"' || is_bare_char(string_text(s)[0]),
        parse_key(string_text(s) + rest) == Ok::<(Seq<char>, Seq<char>), Fault>((s, rest)),
{
    let t = string_text(s) + rest;
    if is_bare(s) {
        assert(all_atom_chars(s)) by {
            assert forall|i: int| 0 <= i < s.len() implies is_atom_char(#[trigger] s[i]) by {
                assert(is_bare_char(s[i]));
            }
        }
        lemma_atom_len(s, rest);
        assert(t[0] == s[0]);
        assert(is_bare_char(s[0]));
    } else {
        assert(t =~= seq!['"'] + (escaped(s) + seq!['"'] + rest));
        assert(t[0] == '"');
        assert(t.skip(1) =~= escaped(s) + seq!['"'] + rest);
        lemma_quoted(s, Seq::empty(), rest);
        assert(Seq::<char>::empty() + s =~= s);
    }
}

/// A token that would be read as a string, a whole number or a number
/// starts a value and is read as what it means.
pub proof fn lemma_atom(a: Seq<char>, rest: Seq<char>)
    requires
        a.len() > 0,
        all_atom_chars(a),
        ends_token(rest),
    ensures
        parse_value(a + rest) == Ok::<(PlistModel, Seq<char>), Fault>((atom_value(a), rest)),
{
    let t = a + rest;
    assert(t[0] == a[0]);
    assert(is_atom_char(a[0]));
    lemma_atom_len(a, rest);
}

/// A string that was written is read back as it was.
pub proof fn lemma_string(s: Seq<char>, rest: Seq<char>)
    requires
        ends_token(rest),
    ensures
        parse_value(string_text(s) + rest) == Ok::<(PlistModel, Seq<char>), Fault>(
            (PlistModel::String(s), rest),
        ),
{
    let t = string_text(s) + rest;
    lemma_key(s, rest);
    if is_bare(s) {
        assert(all_atom_chars(s)) by {
            assert forall|i: int| 0 <= i < s.len() implies is_atom_char(#[trigger] s[i]) by {
                assert(is_bare_char(s[i]));
            }
        }
        lemma_atom(s, rest);
    } else {
        assert(t =~= seq!['"'] + (escaped(s) + seq!['"'] + rest));
        assert(t[0] == '"');
        assert(t.skip(1) =~= escaped(s) + seq!['"'] + rest);
        lemma_quoted(s, Seq::empty(), rest);
        assert(Seq::<char>::empty() + s =~= s);
    }
}

/// The text of a value is not empty and starts with what starts a value.
pub proof fn lemma_first_char(v: PlistModel)
    requires
        v.wf(),
    ensures
        text_of(v).len() > 0,
        starts_value(text_of(v)[0]),
{
    match v {
        PlistModel::Dictionary(_) => {},
        PlistModel::Array(_) => {},
        PlistModel::String(s) => {
            lemma_key(s, Seq::empty());
        },
        PlistModel::Integer(n) => {
            lemma_integer(n);
        },
        PlistModel::Float(d) => {
            lemma_float(d);
        },
        PlistModel::Boolean(b) => {
            reveal_strlit("<*BY>");
            reveal_strlit("<*BN>");
        },
        PlistModel::Data(_) => {},
    }
}

/// What is left of the text of an array from its item `k` on, the comma
/// before that item left out.
pub open spec fn items_rest(parts: Seq<Seq<char>>, k: int, end: Seq<char>) -> Seq<char>
    decreases parts.len() - k,
{
    if k < 0 || k >= parts.len() {
        end
    } else {
        seq!['\n'] + parts[k] + (if k + 1 < parts.len() {
            seq![',']
        } else {
            Seq::empty()
        }) + items_rest(parts, k + 1, end)
    }
}

/// The text of the items of an array is the text of its first items and
/// what is left from there on.
proof fn lemma_items_split(parts: Seq<Seq<char>>, m: int, end: Seq<char>)
    requires
        0 <= m <= parts.len(),
    ensures
        items_text(parts.take(m)) + (if 0 < m < parts.len() {
            seq![',']
        } else {
            Seq::empty()
        }) + items_rest(parts, m, end) == items_text(parts) + end,
    decreases parts.len() - m,
{
    let n = parts.len() as int;
    if m == n {
        assert(parts.take(m) =~= parts);
        assert(items_text(parts) + Seq::<char>::empty() + end =~= items_text(parts) + end);
    } else {
        lemma_items_split(parts, m + 1, end);
        let c = if m + 1 < n { seq![','] } else { Seq::<char>::empty() };
        let r = items_rest(parts, m + 1, end);
        assert(parts.take(m + 1).drop_last() =~= parts.take(m));
        assert(parts.take(m + 1).last() == parts[m]);
        if m == 0 {
            assert(parts.take(1)[0] == parts[0]);
            assert(items_text(parts.take(0)) =~= Seq::<char>::empty());
            assert(items_text(parts.take(0)) + Seq::<char>::empty() + items_rest(parts, 0, end)
                =~= items_text(parts.take(1)) + c + r);
        } else {
            assert(items_text(parts.take(m)) + seq![','] + items_rest(parts, m, end)
                =~= items_text(parts.take(m + 1)) + c + r);
        }
    }
}

/// One space before something that is no space is all that trimming takes
/// away.
proof fn lemma_trim_one(t: Seq<char>)
    requires
        t.len() >= 2,
        is_space(t[0]),
        !is_space(t[1]),
    ensures
        trim_spaces(t) == t.skip(1),
{
    assert(t.skip(1)[0] == t[1]);
    assert(trim_spaces(t.skip(1)) == t.skip(1));
}

/// A text that starts a value has nothing to trim.
proof fn lemma_trim_none(t: Seq<char>)
    requires
        t.len() > 0,
        !is_space(t[0]),
    ensures
        trim_spaces(t) == t,
{
}

/// An entry that was written is read back as it was, once its value is.
proof fn lemma_entry(
    key: Seq<char>,
    value_text: Seq<char>,
    value: PlistModel,
    after: Seq<char>,
    acc: Seq<(Seq<char>, PlistModel)>,
)
    requires
        value_text.len() > 0,
        starts_value(value_text[0]),
        parse_value(value_text + (seq![';', '\n'] + after)) == Ok::<
            (PlistModel, Seq<char>),
            Fault,
        >((value, seq![';', '\n'] + after)),
    ensures
        parse_entries(entry_text(key, value_text) + after, acc) == parse_entries(
            after,
            acc.push((key, value)),
        ),
{
    let tail2 = seq![';', '\n'] + after;
    let value_part = value_text + tail2;
    let before_value = seq![' '] + value_part;
    let at_equals = seq!['='] + before_value;
    let tail1 = seq![' '] + at_equals;
    let t = entry_text(key, value_text) + after;
    assert(t =~= string_text(key) + tail1);
    lemma_key(key, tail1);
    assert(t[0] == string_text(key)[0]);
    lemma_trim_none(t);
    assert(tail1[1] == '=');
    lemma_trim_one(tail1);
    assert(tail1.skip(1) =~= at_equals);
    assert(at_equals.skip(1) =~= before_value);
    assert(before_value[1] == value_text[0]);
    lemma_trim_one(before_value);
    assert(before_value.skip(1) =~= value_part);
    lemma_parse_trimmed(before_value);
    lemma_trim_none(tail2);
    assert(tail2.skip(1) =~= seq!['\n'] + after);
    let last = tail2.skip(1);
    assert(last.skip(1) =~= after);
    lemma_parse_trimmed(last);
    lemma_parse_trimmed(after);
    assert(trim_spaces(last) == trim_spaces(after));
    assert(at_equals.len() <= t.len());
    assert(tail2.len() <= at_equals.len());
    let grown = acc.push((key, value));
    assert(parse_key(t) == Ok::<(Seq<char>, Seq<char>), Fault>((key, tail1)));
    assert(t[0] != '}');
    assert(trim_spaces(tail1) == at_equals);
    assert(at_equals[0] == '=');
    assert(parse_value(at_equals.skip(1)) == Ok::<(PlistModel, Seq<char>), Fault>(
        (value, tail2),
    ));
    assert(trim_spaces(tail2) == tail2);
    assert(tail2[0] == ';');
    assert(parse_entries(tail2.skip(1), grown) == parse_entries(after, grown));
    assert(parse_entries(t, acc) == parse_entries(tail2.skip(1), grown));
}

/// An item that was written before a comma is read back as it was, once
/// its value is.
proof fn lemma_item(value_text: Seq<char>, value: PlistModel, next: Seq<char>, acc: Seq<PlistModel>)
    requires
        value_text.len() > 0,
        starts_value(value_text[0]),
        parse_value(value_text + (seq![','] + next)) == Ok::<(PlistModel, Seq<char>), Fault>(
            (value, seq![','] + next),
        ),
    ensures
        parse_items(seq!['\n'] + value_text + (seq![','] + next), acc) == parse_items(
            next,
            acc.push(value),
        ),
{
    let tail = seq![','] + next;
    let u = value_text + tail;
    let t = seq!['\n'] + value_text + tail;
    assert(t =~= seq!['\n'] + u);
    assert(t[1] == value_text[0]);
    lemma_trim_one(t);
    assert(t.skip(1) =~= u);
    lemma_parse_trimmed(t);
    assert(u[0] == value_text[0]);
    lemma_trim_none(u);
    lemma_trim_none(tail);
    assert(tail.skip(1) =~= next);
}

/// The last item of an array, as it was written, is read back as it was,
/// once its value is.
proof fn lemma_last_item(
    value_text: Seq<char>,
    value: PlistModel,
    rest: Seq<char>,
    acc: Seq<PlistModel>,
)
    requires
        value_text.len() > 0,
        starts_value(value_text[0]),
        parse_value(value_text + (seq!['\n', ')'] + rest)) == Ok::<
            (PlistModel, Seq<char>),
            Fault,
        >((value, seq!['\n', ')'] + rest)),
    ensures
        parse_items(seq!['\n'] + value_text + (seq!['\n', ')'] + rest), acc) == Ok::<
            (PlistModel, Seq<char>),
            Fault,
        >((PlistModel::Array(acc.push(value)), rest)),
{
    let tail = seq!['\n', ')'] + rest;
    let u = value_text + tail;
    let t = seq!['\n'] + value_text + tail;
    assert(t =~= seq!['\n'] + u);
    assert(t[1] == value_text[0]);
    lemma_trim_one(t);
    assert(t.skip(1) =~= u);
    lemma_parse_trimmed(t);
    assert(u[0] == value_text[0]);
    lemma_trim_none(u);
    lemma_trim_one(tail);
    assert(tail.skip(1) =~= seq![')'] + rest);
    assert(tail.skip(1).skip(1) =~= rest);
}

/// An array without items, as it was written, is read back as it was.
proof fn lemma_no_items(rest: Seq<char>)
    ensures
        parse_items(seq!['\n', ')'] + rest, Seq::empty()) == Ok::<(PlistModel, Seq<char>), Fault>(
            (PlistModel::Array(Seq::empty()), rest),
        ),
{
    let e = seq!['\n', ')'] + rest;
    lemma_trim_one(e);
    assert(e.skip(1) =~= seq![')'] + rest);
    assert(e.skip(1).skip(1) =~= rest);
}

/// A truth value that was written is read back as it was.
proof fn lemma_boolean(b: bool, rest: Seq<char>)
    ensures
        parse_value(text_of(PlistModel::Boolean(b)) + rest) == Ok::<
            (PlistModel, Seq<char>),
            Fault,
        >((PlistModel::Boolean(b), rest)),
{
    reveal_strlit("<*BY>");
    reveal_strlit("<*BN>");
    let a = text_of(PlistModel::Boolean(b));
    let t = a + rest;
    assert(t[0] == a[0] && t[1] == a[1] && t[2] == a[2] && t[3] == a[3] && t[4] == a[4]);
    lemma_trim_none(t);
    let u = t.skip(1);
    assert(u[0] == '*' && u[1] == 'B' && u[2] == a[3] && u[3] == '>');
    assert(u.skip(4) =~= rest);
}

/// Raw bytes that were written are read back as they were.
proof fn lemma_data(bytes: Seq<u8>, rest: Seq<char>)
    ensures
        parse_value(text_of(PlistModel::Data(bytes)) + rest) == Ok::<
            (PlistModel, Seq<char>),
            Fault,
        >((PlistModel::Data(bytes), rest)),
{
    let t = text_of(PlistModel::Data(bytes)) + rest;
    assert(t =~= seq!['<'] + (hex_text(bytes) + seq!['>'] + rest));
    lemma_trim_none(t);
    assert(t.skip(1) =~= hex_text(bytes) + seq!['>'] + rest);
    lemma_hex(bytes, Seq::empty(), rest);
    assert(Seq::<u8>::empty() + bytes =~= bytes);
    if bytes.len() > 0 {
        lemma_hex_digit(bytes[0] as int / 16);
        assert(t.skip(1)[0] == hex_digit(bytes[0] as int / 16));
    } else {
        assert(t.skip(1)[0] == '>');
    }
}

/// A value that was written is read back as it was, whatever follows it,
/// as long as that does not go on with a bare token.
pub proof fn lemma_value(v: PlistModel, rest: Seq<char>)
    requires
        v.wf(),
        ends_token(rest),
    ensures
        parse_value(text_of(v) + rest) == Ok::<(PlistModel, Seq<char>), Fault>((v, rest)),
    decreases v, 1nat, 0nat,
{
    let t = text_of(v) + rest;
    match v {
        PlistModel::Dictionary(entries) => {
            let parts = part_texts(v);
            let inner = parts.flatten() + seq!['}'] + rest;
            assert(t =~= seq!['{'] + (seq!['\n'] + inner));
            lemma_trim_none(t);
            let body = t.skip(1);
            assert(body =~= seq!['\n'] + inner);
            assert(body.skip(1) =~= inner);
            lemma_parse_trimmed(body);
            lemma_parse_trimmed(inner);
            assert(trim_spaces(body) == trim_spaces(inner));
            assert(parts.skip(0) =~= parts);
            assert(entries.take(0) =~= Seq::<(Seq<char>, PlistModel)>::empty());
            lemma_entries(v, 0, rest);
        },
        PlistModel::Array(items) => {
            let parts = part_texts(v);
            let end = seq!['\n', ')'] + rest;
            assert(t =~= seq!['('] + (items_text(parts) + end));
            lemma_trim_none(t);
            assert(t.skip(1) =~= items_text(parts) + end);
            lemma_items_split(parts, 0, end);
            assert(parts.take(0) =~= Seq::<Seq<char>>::empty());
            assert(items_text(parts.take(0)) + Seq::<char>::empty() + items_rest(parts, 0, end)
                =~= items_rest(parts, 0, end));
            if items.len() == 0 {
                lemma_no_items(rest);
                assert(items =~= Seq::<PlistModel>::empty());
            } else {
                assert(items.take(0) =~= Seq::<PlistModel>::empty());
                lemma_items(v, 0, rest);
            }
        },
        PlistModel::String(s) => {
            lemma_string(s, rest);
        },
        PlistModel::Integer(n) => {
            lemma_integer(n);
            lemma_atom(integer_text(n), rest);
        },
        PlistModel::Float(d) => {
            lemma_float(d);
            lemma_atom(float_text(d), rest);
        },
        PlistModel::Boolean(b) => {
            lemma_boolean(b, rest);
        },
        PlistModel::Data(bytes) => {
            lemma_data(bytes, rest);
        },
    }
}

/// The entries of a dictionary from the entry `k` on, as they were
/// written, are read back as they were.
pub proof fn lemma_entries(v: PlistModel, k: int, rest: Seq<char>)
    requires
        v is Dictionary,
        v.wf(),
        0 <= k <= v->Dictionary_0.len(),
    ensures
        parse_entries(
            part_texts(v).skip(k).flatten() + seq!['}'] + rest,
            v->Dictionary_0.take(k),
        ) == Ok::<(PlistModel, Seq<char>), Fault>((v, rest)),
    decreases v, 0nat, v->Dictionary_0.len() - k,
{
    let entries = v->Dictionary_0;
    let parts = part_texts(v);
    let n = entries.len() as int;
    let acc = entries.take(k);
    let t = parts.skip(k).flatten() + seq!['}'] + rest;
    if k == n {
        assert(parts.skip(k) =~= Seq::<Seq<char>>::empty());
        assert(t =~= seq!['}'] + rest);
        lemma_trim_none(t);
        assert(t.skip(1) =~= rest);
        assert(acc =~= entries);
    } else {
        let key = entries[k].0;
        let value = entries[k].1;
        let after = parts.skip(k + 1).flatten() + seq!['}'] + rest;
        assert(parts[k] == entry_text(key, text_of(value)));
        assert(parts.skip(k).first() == parts[k]);
        assert(parts.skip(k).drop_first() =~= parts.skip(k + 1));
        assert(t =~= entry_text(key, text_of(value)) + after);
        lemma_first_char(value);
        lemma_value(value, seq![';', '\n'] + after);
        lemma_entry(key, text_of(value), value, after, acc);
        assert(acc.push((key, value)) =~= entries.take(k + 1));
        lemma_entries(v, k + 1, rest);
    }
}

/// The items of an array from the item `k` on, as they were written, are
/// read back as they were.
pub proof fn lemma_items(v: PlistModel, k: int, rest: Seq<char>)
    requires
        v is Array,
        v.wf(),
        0 <= k < v->Array_0.len(),
    ensures
        parse_items(
            items_rest(part_texts(v), k, seq!['\n', ')'] + rest),
            v->Array_0.take(k),
        ) == Ok::<(PlistModel, Seq<char>), Fault>((v, rest)),
    decreases v, 0nat, v->Array_0.len() - k,
{
    let items = v->Array_0;
    let parts = part_texts(v);
    let n = items.len() as int;
    let acc = items.take(k);
    let end = seq!['\n', ')'] + rest;
    let t = items_rest(parts, k, end);
    let value = items[k];
    let r = items_rest(parts, k + 1, end);
    assert(parts[k] == text_of(value));
    lemma_first_char(value);
    assert(acc.push(value) =~= items.take(k + 1));
    if k + 1 < n {
        assert(t =~= seq!['\n'] + text_of(value) + (seq![','] + r));
        lemma_value(value, seq![','] + r);
        lemma_item(text_of(value), value, r, acc);
        lemma_items(v, k + 1, rest);
    } else {
        assert(r == end);
        assert(t =~= seq!['\n'] + text_of(value) + end);
        lemma_value(value, end);
        lemma_last_item(text_of(value), value, rest, acc);
        assert(items.take(n) =~= items);
    }
}

/// Reading the text of a value gives the value back.
pub proof fn lemma_round_trip(v: PlistModel)
    requires
        v.wf(),
    ensures
        parse_document(text_of(v)) == Ok::<PlistModel, Fault>(v),
{
    lemma_value(v, Seq::empty());
    assert(text_of(v) + Seq::<char>::empty() =~= text_of(v));
}

/// What a bare token means has its numbers in their shortest form.
pub proof fn lemma_atom_wf(a: Seq<char>)
    ensures
        atom_value(a).wf(),
{
    crate::decimal::lemma_literal_wf(a);
}

/// A value that was read has its numbers in their shortest form.
pub proof fn lemma_value_wf(t: Seq<char>)
    ensures
        parse_value(t) matches Ok((v, _)) ==> v.wf(),
    decreases t.len(), 0nat,
{
    let u = trim_spaces(t);
    if u.len() <= t.len() && u.len() > 0 {
        if u[0] == '{' {
            lemma_entries_wf(u.skip(1), Seq::empty());
        } else if u[0] == '(' {
            lemma_items_wf(u.skip(1), Seq::empty());
        } else if u[0] == '"' {
        } else if u[0] == '<' {
        } else if is_atom_char(u[0]) {
            lemma_atom_wf(u.take(atom_len(u) as int));
        }
    }
}

/// A dictionary that was read has its numbers in their shortest form.
pub proof fn lemma_entries_wf(t: Seq<char>, acc: Seq<(Seq<char>, PlistModel)>)
    requires
        forall|i: int| 0 <= i < acc.len() ==> (#[trigger] acc[i]).1.wf(),
    ensures
        parse_entries(t, acc) matches Ok((v, _)) ==> v.wf(),
    decreases t.len(), 1nat,
{
    let u = trim_spaces(t);
    if u.len() <= t.len() && u.len() > 0 && u[0] != '}' {
        match parse_key(u) {
            Ok((key, after_key)) => {
                let at_equals = trim_spaces(after_key);
                if !(at_equals.len() == 0 || at_equals[0] != '=' || at_equals.len() > u.len()) {
                    lemma_value_wf(at_equals.skip(1));
                    match parse_value(at_equals.skip(1)) {
                        Ok((value, after_value)) => {
                            let at_end = trim_spaces(after_value);
                            if !(at_end.len() == 0 || at_end[0] != ';' || at_end.len()
                                > at_equals.len()) {
                                let next = acc.push((key, value));
                                assert forall|i: int| 0 <= i < next.len() implies (
                                #[trigger] next[i]).1.wf() by {
                                    if i < acc.len() {
                                        assert(next[i] == acc[i]);
                                    }
                                }
                                lemma_entries_wf(at_end.skip(1), next);
                            }
                        },
                        Err(_) => {},
                    }
                }
            },
            Err(_) => {},
        }
    }
}

/// An array that was read has its numbers in their shortest form.
pub proof fn lemma_items_wf(t: Seq<char>, acc: Seq<PlistModel>)
    requires
        forall|i: int| 0 <= i < acc.len() ==> (#[trigger] acc[i]).wf(),
    ensures
        parse_items(t, acc) matches Ok((v, _)) ==> v.wf(),
    decreases t.len(), 1nat,
{
    let u = trim_spaces(t);
    if u.len() <= t.len() && u.len() > 0 && u[0] != ')' {
        lemma_value_wf(u);
        match parse_value(u) {
            Ok((value, after_value)) => {
                let at_end = trim_spaces(after_value);
                if !(at_end.len() == 0 || at_end.len() >= u.len()) {
                    let next = acc.push(value);
                    assert forall|i: int| 0 <= i < next.len() implies (#[trigger] next[i]).wf() by {
                        if i < acc.len() {
                            assert(next[i] == acc[i]);
                        }
                    }
                    if at_end[0] == ',' {
                        lemma_items_wf(at_end.skip(1), next);
                    }
                }
            },
            Err(_) => {},
        }
    }
}

/// A text that is read gives a value tree whose numbers are in their
/// shortest form.
pub proof fn lemma_document_wf(t: Seq<char>)
    ensures
        parse_document(t) matches Ok(v) ==> v.wf(),
{
    lemma_value_wf(t);
}

} // verus!
