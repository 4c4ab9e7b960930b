//! Decimal numbers, kept exactly.
//!
//! Coordinates, widths and axis positions are decimal numbers in the files
//! this crate reads and writes. A [`Decimal`] keeps the digits of such a number
//! as they are written, so that nothing is lost on the way through.

use vstd::prelude::*;
use crate::digits::{
    all_digits, canonical_digits, digits_of_u64, digits_value, lemma_digits_value_prefix,
    lemma_nat_digits, nat_digits,
};

verus! {

/// A decimal number or an infinity.
#[derive(Debug, PartialEq, Eq)]
pub struct Decimal {
    negative: bool,
    infinite: bool,
    whole: Vec<u8>,
    fraction: Vec<u8>,
}

/// What a [`Decimal`] stands for: a sign, and either an infinity or the digits
/// before and after the decimal point.
pub struct DecimalModel {
    pub negative: bool,
    pub infinite: bool,
    pub whole: Seq<u8>,
    pub fraction: Seq<u8>,
}

/// `s` without the zeros at its end.
pub open spec fn trim_zeros(s: Seq<u8>) -> Seq<u8>
    decreases s.len(),
{
    if s.len() > 0 && s.last() == 0 {
        trim_zeros(s.drop_last())
    } else {
        s
    }
}

impl DecimalModel {
    /// The digits are in their shortest form: no leading zero before the
    /// point (but for a lone zero), no trailing zero after it; an infinity
    /// has no digits.
    pub open spec fn wf(self) -> bool {
        if self.infinite {
            self.whole.len() == 0 && self.fraction.len() == 0
        } else {
            &&& canonical_digits(self.whole)
            &&& all_digits(self.fraction)
            &&& self.fraction.len() > 0 ==> self.fraction.last() != 0
        }
    }

    /// The number is zero, of either sign.
    pub open spec fn is_zero(self) -> bool {
        !self.infinite && self.whole == seq![0u8] && self.fraction.len() == 0
    }

    /// The number has no digits after the point.
    pub open spec fn is_integer(self) -> bool {
        !self.infinite && self.fraction.len() == 0
    }

    /// The two stand for the same number: they are alike, or both are zero.
    pub open spec fn same_number(self, other: DecimalModel) -> bool {
        self == other || (self.is_zero() && other.is_zero())
    }

    /// The number with the opposite sign.
    pub open spec fn negated(self) -> DecimalModel {
        DecimalModel { negative: !self.negative, ..self }
    }

    /// The whole number `n`.
    pub open spec fn of_int(n: int) -> DecimalModel {
        DecimalModel {
            negative: n < 0,
            infinite: false,
            whole: nat_digits((if n < 0 { -n } else { n }) as nat),
            fraction: Seq::empty(),
        }
    }

    /// An infinity.
    pub open spec fn infinity(negative: bool) -> DecimalModel {
        DecimalModel { negative, infinite: true, whole: Seq::empty(), fraction: Seq::empty() }
    }

    /// The size of the nearest whole number, halves going away from zero.
    pub open spec fn rounded_magnitude(self) -> nat {
        if self.fraction.len() > 0 && self.fraction[0] >= 5 {
            digits_value(self.whole) + 1
        } else {
            digits_value(self.whole)
        }
    }

    /// The nearest whole number, halves going away from zero, kept within
    /// what an `i64` holds; an infinity goes to the nearest end of that range.
    pub open spec fn rounded(self) -> int {
        if self.negative {
            if self.infinite || self.rounded_magnitude() > 0x8000_0000_0000_0000 {
                -0x8000_0000_0000_0000
            } else {
                -(self.rounded_magnitude() as int)
            }
        } else {
            if self.infinite || self.rounded_magnitude() > 0x7fff_ffff_ffff_ffff {
                0x7fff_ffff_ffff_ffff
            } else {
                self.rounded_magnitude() as int
            }
        }
    }

    /// The whole number that this is, where it is one that an `i64` holds and
    /// is no negative zero.
    pub open spec fn as_int(self) -> Option<int> {
        if !self.is_integer() {
            None
        } else if self.negative {
            if digits_value(self.whole) == 0 || digits_value(self.whole) > 0x8000_0000_0000_0000 {
                None
            } else {
                Some(-(digits_value(self.whole) as int))
            }
        } else {
            if digits_value(self.whole) > 0x7fff_ffff_ffff_ffff {
                None
            } else {
                Some(digits_value(self.whole) as int)
            }
        }
    }
}

impl DeepView for Decimal {
    type V = DecimalModel;

    closed spec fn deep_view(&self) -> DecimalModel {
        DecimalModel {
            negative: self.negative,
            infinite: self.infinite,
            whole: self.whole@,
            fraction: self.fraction@,
        }
    }
}

impl View for Decimal {
    type V = DecimalModel;

    open spec fn view(&self) -> DecimalModel {
        self.deep_view()
    }
}

impl Clone for Decimal {
    fn clone(&self) -> (r: Decimal)
        ensures
            r@ == self@,
    {
        self.copy()
    }
}

/// The size of `n`.
pub fn magnitude(n: i64) -> (r: u64)
    ensures
        r as int == (if n < 0 { -(n as int) } else { n as int }),
{
    if n >= 0 {
        n as u64
    } else if n == i64::MIN {
        0x8000_0000_0000_0000u64
    } else {
        (-n) as u64
    }
}

impl Decimal {
    /// Every `Decimal` is in its shortest form.
    #[verifier::type_invariant]
    pub open spec fn inv(self) -> bool {
        self@.wf()
    }

    /// Zero.
    pub fn zero() -> (r: Decimal)
        ensures
            r@ == DecimalModel::of_int(0),
    {
        Decimal::from_i64(0)
    }

    /// The whole number `n`.
    pub fn from_i64(n: i64) -> (r: Decimal)
        ensures
            r@ == DecimalModel::of_int(n as int),
    {
        let m = magnitude(n);
        let whole = digits_of_u64(m);
        proof {
            lemma_nat_digits(m as nat);
        }
        Decimal { negative: n < 0, infinite: false, whole, fraction: Vec::new() }
    }

    /// An infinity of the given sign.
    pub fn infinity(negative: bool) -> (r: Decimal)
        ensures
            r@ == DecimalModel::infinity(negative),
    {
        Decimal { negative, infinite: true, whole: Vec::new(), fraction: Vec::new() }
    }

    /// A copy of this number.
    pub fn copy(&self) -> (r: Decimal)
        ensures
            r@ == self@,
    {
        proof {
            use_type_invariant(self);
        }
        let r = Decimal {
            negative: self.negative,
            infinite: self.infinite,
            whole: self.whole.clone(),
            fraction: self.fraction.clone(),
        };
        assert(r.whole@ =~= self.whole@);
        assert(r.fraction@ =~= self.fraction@);
        r
    }

    /// Whether this is an infinity.
    pub fn is_infinite(&self) -> (r: bool)
        ensures
            r == self@.infinite,
    {
        self.infinite
    }

    /// Whether this is a number without digits after the point.
    pub fn is_integer(&self) -> (r: bool)
        ensures
            r == self@.is_integer(),
    {
        !self.infinite && self.fraction.len() == 0
    }

    /// Whether this is below zero or a negative zero.
    pub fn is_negative(&self) -> (r: bool)
        ensures
            r == self@.negative,
    {
        self.negative
    }

    /// Whether this is zero, of either sign.
    pub fn is_zero(&self) -> (r: bool)
        ensures
            r == self@.is_zero(),
    {
        let r = !self.infinite && self.whole.len() == 1 && self.whole[0] == 0
            && self.fraction.len() == 0;
        proof {
            if r {
                assert(self.whole@ =~= seq![0u8]);
            }
        }
        r
    }

    /// The number with the opposite sign.
    pub fn neg(&self) -> (r: Decimal)
        ensures
            r@ == self@.negated(),
    {
        let c = self.copy();
        proof {
            use_type_invariant(&c);
        }
        Decimal { negative: !c.negative, infinite: c.infinite, whole: c.whole, fraction: c.fraction }
    }

    /// Whether the two stand for the same number. A zero equals a zero of
    /// the other sign.
    pub fn eq_value(&self, other: &Decimal) -> (r: bool)
        ensures
            r == self@.same_number(other@),
    {
        if self.is_zero() && other.is_zero() {
            return true;
        }
        let r = self.negative == other.negative && self.infinite == other.infinite
            && same_digits(&self.whole, &other.whole) && same_digits(
            &self.fraction,
            &other.fraction,
        );
        r
    }

    /// The nearest whole number, halves going away from zero, kept within
    /// what an `i64` holds.
    pub fn round(&self) -> (r: i64)
        ensures
            r as int == self@.rounded(),
    {
        proof {
            use_type_invariant(self);
        }
        if self.infinite {
            return if self.negative { i64::MIN } else { i64::MAX };
        }
        let up: bool = self.fraction.len() > 0 && self.fraction[0] >= 5;
        // The size, or `None` where it is beyond 2^63.
        let size: Option<u64> = match capped_value(&self.whole) {
            None => None,
            Some(v) => if up {
                if v >= 0x8000_0000_0000_0000 { None } else { Some(v + 1) }
            } else {
                Some(v)
            },
        };
        match size {
            None => if self.negative { i64::MIN } else { i64::MAX },
            Some(v) => {
                if self.negative {
                    if v == 0x8000_0000_0000_0000 { i64::MIN } else { -(v as i64) }
                } else {
                    if v > 0x7fff_ffff_ffff_ffff { i64::MAX } else { v as i64 }
                }
            },
        }
    }

    /// The whole number that this is, where it is one that an `i64` holds
    /// and is no negative zero.
    pub fn as_i64(&self) -> (r: Option<i64>)
        ensures
            match r {
                Some(n) => self@.as_int() == Some(n as int),
                None => self@.as_int() is None,
            },
    {
        proof {
            use_type_invariant(self);
        }
        if self.infinite || self.fraction.len() > 0 {
            return None;
        }
        match capped_value(&self.whole) {
            None => None,
            Some(v) => {
                if self.negative {
                    if v == 0 {
                        None
                    } else if v == 0x8000_0000_0000_0000 {
                        Some(i64::MIN)
                    } else {
                        Some(-(v as i64))
                    }
                } else {
                    if v > 0x7fff_ffff_ffff_ffff { None } else { Some(v as i64) }
                }
            },
        }
    }
}

/// Whether the two vectors hold the same digits.
fn same_digits(a: &Vec<u8>, b: &Vec<u8>) -> (r: bool)
    ensures
        r == (a@ == b@),
{
    if a.len() != b.len() {
        return false;
    }
    let mut i: usize = 0;
    while i < a.len()
        invariant
            i <= a.len(),
            a.len() == b.len(),
            a@.take(i as int) == b@.take(i as int),
        decreases a.len() - i,
    {
        if a[i] != b[i] {
            return false;
        }
        assert(a@.take(i + 1) =~= a@.take(i as int).push(a@[i as int]));
        assert(b@.take(i + 1) =~= b@.take(i as int).push(b@[i as int]));
        i += 1;
    }
    assert(a@.take(a@.len() as int) =~= a@);
    assert(b@.take(b@.len() as int) =~= b@);
    true
}

/// The number that `digits` write, or `None` where it is beyond 2^63.
fn capped_value(digits: &Vec<u8>) -> (r: Option<u64>)
    requires
        all_digits(digits@),
    ensures
        match r {
            Some(v) => v as nat == digits_value(digits@) && v <= 0x8000_0000_0000_0000,
            None => digits_value(digits@) > 0x8000_0000_0000_0000,
        },
{
    let mut acc: u64 = 0;
    let mut i: usize = 0;
    assert(digits@.take(0) =~= Seq::<u8>::empty());
    while i < digits.len()
        invariant
            i <= digits.len(),
            all_digits(digits@),
            acc as nat == digits_value(digits@.take(i as int)),
            acc <= 0x8000_0000_0000_0000,
        decreases digits.len() - i,
    {
        let d: u8 = digits[i];
        assert(digits@.take(i + 1).drop_last() =~= digits@.take(i as int));
        assert(digits@.take(i + 1).last() == d);
        if acc > (0x8000_0000_0000_0000u64 - d as u64) / 10 {
            proof {
                lemma_digits_value_prefix(digits@, i + 1);
            }
            return None;
        }
        acc = acc * 10 + d as u64;
        i += 1;
    }
    assert(digits@.take(digits@.len() as int) =~= digits@);
    Some(acc)
}


/// `c` is one of the ten decimal digits.
pub open spec fn is_digit_char(c: char) -> bool {
    '0' <= c && c <= '9'
}

/// The digit that the character `c` writes.
pub open spec fn digit_of_char(c: char) -> u8 {
    (c as int - 48) as u8
}

/// The character that writes the digit `d`.
pub open spec fn char_of_digit(d: u8) -> char {
    (d as int + 48) as char
}

/// The characters that write the digits `s`.
pub open spec fn digit_chars(s: Seq<u8>) -> Seq<char> {
    Seq::new(s.len(), |i: int| char_of_digit(s[i]))
}

/// The digits that the characters `t` write.
pub open spec fn chars_digits(t: Seq<char>) -> Seq<u8> {
    Seq::new(t.len(), |i: int| digit_of_char(t[i]))
}

/// How many digits `t` begins with.
pub open spec fn leading_digits(t: Seq<char>) -> nat
    decreases t.len(),
{
    if t.len() > 0 && is_digit_char(t[0]) {
        1 + leading_digits(t.skip(1))
    } else {
        0
    }
}

/// `s` without the zeros at its start, but for the last digit.
pub open spec fn strip_zeros(s: Seq<u8>) -> Seq<u8>
    decreases s.len(),
{
    if s.len() > 1 && s[0] == 0 {
        strip_zeros(s.skip(1))
    } else {
        s
    }
}

/// The number with the given sign whose digits before and after the point
/// are written by `whole` and `fraction`.
pub open spec fn decimal_of_parts(negative: bool, whole: Seq<char>, fraction: Seq<char>)
    -> DecimalModel {
    DecimalModel {
        negative,
        infinite: false,
        whole: strip_zeros(chars_digits(whole)),
        fraction: trim_zeros(chars_digits(fraction)),
    }
}

/// The number that `t` writes, where `t` is a decimal literal: an optional
/// minus sign, one digit or more, and optionally a point followed by one
/// digit or more.
pub open spec fn decimal_of_text(t: Seq<char>) -> Option<DecimalModel> {
    let negative = t.len() > 0 && t[0] == '-';
    let body = if negative { t.skip(1) } else { t };
    let k = leading_digits(body) as int;
    let rest = body.skip(k);
    if k == 0 {
        None
    } else if rest.len() == 0 {
        Some(decimal_of_parts(negative, body.take(k), Seq::empty()))
    } else if rest[0] == '.' && rest.len() > 1 && leading_digits(rest.skip(1)) == rest.len() - 1 {
        Some(decimal_of_parts(negative, body.take(k), rest.skip(1)))
    } else {
        None
    }
}

/// `t` holds a decimal point.
pub open spec fn has_point(t: Seq<char>) -> bool {
    t.contains('.')
}

impl DecimalModel {
    /// The shortest text of the number: its digits, with a point only where
    /// digits follow it; `inf` for an infinity.
    pub open spec fn display(self) -> Seq<char> {
        let sign = if self.negative { seq!['-'] } else { Seq::<char>::empty() };
        if self.infinite {
            sign + seq!['i', 'n', 'f']
        } else if self.fraction.len() == 0 {
            sign + digit_chars(self.whole)
        } else {
            sign + digit_chars(self.whole) + seq!['.'] + digit_chars(self.fraction)
        }
    }

    /// The number that `t` writes: `inf` and `-inf` are the infinities, and
    /// the rest are decimal literals.
    pub open spec fn parse(t: Seq<char>) -> Option<DecimalModel> {
        if t == seq!['i', 'n', 'f'] {
            Some(DecimalModel::infinity(false))
        } else if t == seq!['-', 'i', 'n', 'f'] {
            Some(DecimalModel::infinity(true))
        } else {
            decimal_of_text(t)
        }
    }
}

/// Where `t` begins with `k` digits and goes on with something else, it has
/// `k` leading digits.
pub proof fn lemma_leading_digits(t: Seq<char>, k: int)
    requires
        0 <= k <= t.len(),
        forall|j: int| 0 <= j < k ==> is_digit_char(#[trigger] t[j]),
        k == t.len() || !is_digit_char(t[k]),
    ensures
        leading_digits(t) == k,
    decreases k,
{
    if k > 0 {
        let u = t.skip(1);
        assert forall|j: int| 0 <= j < k - 1 implies is_digit_char(#[trigger] u[j]) by {
            assert(u[j] == t[j + 1]);
        }
        lemma_leading_digits(u, k - 1);
    }
}

/// The characters that write digits are digits, and their digits are
/// those that they write.
proof fn lemma_digit_chars(s: Seq<u8>)
    requires
        all_digits(s),
    ensures
        chars_digits(digit_chars(s)) == s,
        forall|i: int| 0 <= i < s.len() ==> is_digit_char(#[trigger] digit_chars(s)[i]),
{
    assert(chars_digits(digit_chars(s)) =~= s);
    assert forall|i: int| 0 <= i < s.len() implies is_digit_char(#[trigger] digit_chars(s)[i]) by {
        assert(s[i] < 10);
    }
}

/// The characters that `t` begins with, as many as are digits, are digits.
pub proof fn lemma_leading_are_digits(t: Seq<char>)
    ensures
        leading_digits(t) <= t.len(),
        forall|i: int| 0 <= i < leading_digits(t) ==> is_digit_char(#[trigger] t[i]),
    decreases t.len(),
{
    if t.len() > 0 && is_digit_char(t[0]) {
        let u = t.skip(1);
        lemma_leading_are_digits(u);
        assert forall|i: int| 0 <= i < leading_digits(t) implies is_digit_char(#[trigger] t[i]) by {
            if i > 0 {
                assert(t[i] == u[i - 1]);
            }
        }
    }
}

/// Digits without their leading zeros are in their shortest form.
proof fn lemma_strip_zeros(s: Seq<u8>)
    requires
        s.len() >= 1,
        all_digits(s),
    ensures
        canonical_digits(strip_zeros(s)),
    decreases s.len(),
{
    if s.len() > 1 && s[0] == 0 {
        let u = s.skip(1);
        assert forall|i: int| 0 <= i < u.len() implies #[trigger] u[i] < 10 by {
            assert(u[i] == s[i + 1]);
        }
        lemma_strip_zeros(u);
    }
}

/// Digits without their trailing zeros are digits that do not end in zero.
proof fn lemma_trim_zeros(s: Seq<u8>)
    requires
        all_digits(s),
    ensures
        all_digits(trim_zeros(s)),
        trim_zeros(s).len() > 0 ==> trim_zeros(s).last() != 0,
    decreases s.len(),
{
    if s.len() > 0 && s.last() == 0 {
        let u = s.drop_last();
        assert forall|i: int| 0 <= i < u.len() implies #[trigger] u[i] < 10 by {
            assert(u[i] == s[i]);
        }
        lemma_trim_zeros(u);
    }
}

/// What digits write are digits.
proof fn lemma_chars_digits(t: Seq<char>)
    requires
        forall|i: int| 0 <= i < t.len() ==> is_digit_char(#[trigger] t[i]),
    ensures
        all_digits(chars_digits(t)),
{
    assert forall|i: int| 0 <= i < t.len() implies #[trigger] chars_digits(t)[i] < 10 by {
        assert(is_digit_char(t[i]));
    }
}

/// A decimal literal is read as a number in its shortest form.
pub proof fn lemma_literal_wf(t: Seq<char>)
    ensures
        decimal_of_text(t) matches Some(d) ==> d.wf(),
{
    if decimal_of_text(t) is Some {
        let negative = t.len() > 0 && t[0] == '-';
        let body = if negative { t.skip(1) } else { t };
        let k = leading_digits(body) as int;
        let rest = body.skip(k);
        lemma_leading_are_digits(body);
        let whole = body.take(k);
        assert forall|i: int| 0 <= i < whole.len() implies is_digit_char(#[trigger] whole[i]) by {
            assert(whole[i] == body[i]);
        }
        lemma_chars_digits(whole);
        lemma_strip_zeros(chars_digits(whole));
        if rest.len() == 0 {
            let none = Seq::<char>::empty();
            lemma_chars_digits(none);
            lemma_trim_zeros(chars_digits(none));
        } else {
            let fraction = rest.skip(1);
            lemma_leading_are_digits(fraction);
            lemma_chars_digits(fraction);
            lemma_trim_zeros(chars_digits(fraction));
        }
    }
}

/// A text that writes a number is read as a number in its shortest form.
pub proof fn lemma_parse_wf(t: Seq<char>)
    ensures
        DecimalModel::parse(t) matches Some(d) ==> d.wf(),
{
    lemma_literal_wf(t);
}

/// The shortest text of a number is read as that number.
pub proof fn lemma_display_parses(d: DecimalModel)
    requires
        d.wf(),
    ensures
        DecimalModel::parse(d.display()) == Some(d),
{
    let a = d.display();
    let inf = seq!['i', 'n', 'f'];
    let minus_inf = seq!['-', 'i', 'n', 'f'];
    if d.infinite {
        assert(d.whole =~= Seq::<u8>::empty());
        assert(d.fraction =~= Seq::<u8>::empty());
        assert(d == DecimalModel::infinity(d.negative));
        if d.negative {
            assert(a =~= minus_inf);
            assert(minus_inf[0] != inf[0]);
        } else {
            assert(a =~= inf);
        }
    } else {
        let sign = if d.negative { seq!['-'] } else { Seq::<char>::empty() };
        let w = digit_chars(d.whole);
        let f = digit_chars(d.fraction);
        lemma_digit_chars(d.whole);
        lemma_digit_chars(d.fraction);
        let body = if d.negative { a.skip(1) } else { a };
        let k = w.len() as int;
        if d.fraction.len() == 0 {
            assert(a =~= sign + w);
            assert(body =~= w);
        } else {
            assert(a =~= sign + w + seq!['.'] + f);
            assert(body =~= w + seq!['.'] + f);
            assert(body[k] == '.');
        }
        assert(a[0] == '-' <==> d.negative) by {
            if !d.negative {
                assert(a[0] == w[0]);
                assert(is_digit_char(w[0]));
            }
        }
        assert forall|j: int| 0 <= j < k implies is_digit_char(#[trigger] body[j]) by {
            assert(body[j] == w[j]);
        }
        lemma_leading_digits(body, k);
        assert(body.take(k) =~= w);
        assert(strip_zeros(d.whole) == d.whole);
        let rest = body.skip(k);
        if d.fraction.len() == 0 {
            assert(rest.len() == 0);
            assert(chars_digits(Seq::<char>::empty()) =~= Seq::<u8>::empty());
            assert(trim_zeros(Seq::<u8>::empty()) =~= Seq::<u8>::empty());
            assert(d.fraction =~= Seq::<u8>::empty());
        } else {
            assert(rest =~= seq!['.'] + f);
            assert(rest.skip(1) =~= f);
            lemma_leading_digits(f, f.len() as int);
            assert(trim_zeros(d.fraction) == d.fraction);
        }
        assert(decimal_of_text(a) == Some(d));
        assert(a != inf) by {
            if a == inf {
                assert(a[0] == 'i');
                assert(body[0] == 'i');
            }
        }
        assert(a != minus_inf) by {
            if a == minus_inf {
                assert(a[1] == 'i');
                assert(body[0] == 'i');
            }
        }
    }
}

fn is_digit(c: char) -> (r: bool)
    ensures
        r == is_digit_char(c),
{
    '0' <= c && c <= '9'
}

fn digit_value(c: char) -> (r: u8)
    requires
        is_digit_char(c),
    ensures
        r == digit_of_char(c),
        r < 10,
{
    ((c as u32) - 48) as u8
}

fn digit_letter(d: u8) -> (r: char)
    requires
        d < 10,
    ensures
        r == char_of_digit(d),
        is_digit_char(r),
{
    (d + 48) as char
}

/// The digits written by `t[from..to]`.
fn read_digits(t: &Vec<char>, from: usize, to: usize) -> (r: Vec<u8>)
    requires
        from <= to <= t.len(),
        forall|j: int| from <= j < to ==> is_digit_char(#[trigger] t@[j]),
    ensures
        r@ == chars_digits(t@.subrange(from as int, to as int)),
        all_digits(r@),
{
    let mut r: Vec<u8> = Vec::new();
    let mut i: usize = from;
    while i < to
        invariant
            from <= i <= to <= t.len(),
            forall|j: int| from <= j < to ==> is_digit_char(#[trigger] t@[j]),
            r@ == chars_digits(t@.subrange(from as int, i as int)),
            all_digits(r@),
        decreases to - i,
    {
        let d = digit_value(t[i]);
        r.push(d);
        assert(r@ =~= chars_digits(t@.subrange(from as int, i + 1)));
        i += 1;
    }
    r
}

/// The index of the first character at or after `from` that is no digit.
fn skip_digits(t: &Vec<char>, from: usize) -> (r: usize)
    requires
        from <= t.len(),
    ensures
        from <= r <= t.len(),
        forall|j: int| from <= j < r ==> is_digit_char(#[trigger] t@[j]),
        r == t.len() || !is_digit_char(t@[r as int]),
        r - from == leading_digits(t@.skip(from as int)),
{
    let mut i: usize = from;
    while i < t.len() && is_digit(t[i])
        invariant
            from <= i <= t.len(),
            forall|j: int| from <= j < i ==> is_digit_char(#[trigger] t@[j]),
        decreases t.len() - i,
    {
        i += 1;
    }
    proof {
        let u = t@.skip(from as int);
        assert forall|j: int| 0 <= j < i - from implies is_digit_char(#[trigger] u[j]) by {
            assert(u[j] == t@[from + j]);
        }
        lemma_leading_digits(u, i - from);
    }
    i
}

/// `digits` without its leading zeros, but for the last digit.
fn strip_leading(digits: Vec<u8>) -> (r: Vec<u8>)
    requires
        digits.len() >= 1,
        all_digits(digits@),
    ensures
        r@ == strip_zeros(digits@),
        canonical_digits(r@),
{
    let mut z: usize = 0;
    assert(digits@.skip(0) =~= digits@);
    while z + 1 < digits.len() && digits[z] == 0
        invariant
            z < digits.len(),
            strip_zeros(digits@) == strip_zeros(digits@.skip(z as int)),
        decreases digits.len() - z,
    {
        assert(digits@.skip(z as int).skip(1) =~= digits@.skip(z + 1));
        z += 1;
    }
    let mut r: Vec<u8> = Vec::new();
    let mut i: usize = z;
    while i < digits.len()
        invariant
            z <= i <= digits.len(),
            r@ == digits@.subrange(z as int, i as int),
        decreases digits.len() - i,
    {
        r.push(digits[i]);
        assert(r@ =~= digits@.subrange(z as int, i + 1));
        i += 1;
    }
    assert(r@ =~= digits@.skip(z as int));
    r
}

/// `digits` without its trailing zeros.
fn trim_trailing(digits: Vec<u8>) -> (r: Vec<u8>)
    requires
        all_digits(digits@),
    ensures
        r@ == trim_zeros(digits@),
        all_digits(r@),
        r@.len() > 0 ==> r@.last() != 0,
{
    let mut r = digits;
    while r.len() > 0 && r[r.len() - 1] == 0
        invariant
            all_digits(r@),
            trim_zeros(digits@) == trim_zeros(r@),
        decreases r.len(),
    {
        let ghost before = r@;
        r.pop();
        assert(r@ =~= before.drop_last());
    }
    r
}

impl Decimal {
    /// The number that the decimal literal `t` writes, if it is one.
    pub fn parse_literal(t: &Vec<char>) -> (r: Option<Decimal>)
        ensures
            r.deep_view() == decimal_of_text(t@),
    {
        let n = t.len();
        let negative = n > 0 && t[0] == '-';
        let start: usize = if negative { 1 } else { 0 };
        let ghost body = if negative { t@.skip(1) } else { t@ };
        assert(body =~= t@.skip(start as int));
        let mid = skip_digits(t, start);
        let ghost k = (mid - start) as int;
        if mid == start {
            return None;
        }
        assert(body.take(k) =~= t@.subrange(start as int, mid as int));
        let ghost rest = body.skip(k);
        assert(rest =~= t@.skip(mid as int));
        let whole = strip_leading(read_digits(t, start, mid));
        if mid == n {
            assert(chars_digits(Seq::<char>::empty()) =~= Seq::<u8>::empty());
            return Some(Decimal { negative, infinite: false, whole, fraction: Vec::new() });
        }
        if t[mid] != '.' || mid + 1 == n {
            return None;
        }
        let end = skip_digits(t, mid + 1);
        assert(rest.skip(1) =~= t@.skip(mid + 1));
        if end != n {
            return None;
        }
        assert(rest.skip(1) =~= t@.subrange(mid + 1, n as int));
        let fraction = trim_trailing(read_digits(t, mid + 1, n));
        Some(Decimal { negative, infinite: false, whole, fraction })
    }

    /// The number that `text` writes: `inf` and `-inf` are the infinities,
    /// the rest are decimal literals. `None` where `text` writes no number.
    pub fn parse(text: &str) -> (r: Option<Decimal>)
        ensures
            r.deep_view() == DecimalModel::parse(text@),
    {
        let t = crate::text::chars_of(text);
        if t.len() == 3 && t[0] == 'i' && t[1] == 'n' && t[2] == 'f' {
            assert(t@ =~= seq!['i', 'n', 'f']);
            return Some(Decimal::infinity(false));
        }
        if t.len() == 4 && t[0] == '-' && t[1] == 'i' && t[2] == 'n' && t[3] == 'f' {
            assert(t@ =~= seq!['-', 'i', 'n', 'f']);
            return Some(Decimal::infinity(true));
        }
        assert(t@ != seq!['i', 'n', 'f']) by {
            if t@ == seq!['i', 'n', 'f'] {
                assert(t@.len() == 3 && t@[0] == 'i' && t@[1] == 'n' && t@[2] == 'f');
            }
        }
        assert(t@ != seq!['-', 'i', 'n', 'f']) by {
            if t@ == seq!['-', 'i', 'n', 'f'] {
                assert(t@.len() == 4 && t@[0] == '-' && t@[1] == 'i' && t@[2] == 'n' && t@[3]
                    == 'f');
            }
        }
        Decimal::parse_literal(&t)
    }

    /// Appends the shortest text of the number to `out`.
    pub fn write_display(&self, out: &mut Vec<char>)
        ensures
            final(out)@ == old(out)@ + self@.display(),
    {
        proof {
            use_type_invariant(self);
        }
        let ghost sign = if self.negative { seq!['-'] } else { Seq::<char>::empty() };
        if self.negative {
            out.push('-');
        }
        assert(out@ =~= old(out)@ + sign);
        if self.infinite {
            out.push('i');
            out.push('n');
            out.push('f');
            assert(out@ =~= old(out)@ + (sign + seq!['i', 'n', 'f']));
            return;
        }
        write_digits(&self.whole, out);
        if self.fraction.len() > 0 {
            out.push('.');
            write_digits(&self.fraction, out);
            assert(out@ =~= old(out)@ + (sign + digit_chars(self.whole@) + seq!['.']
                + digit_chars(self.fraction@)));
        } else {
            assert(out@ =~= old(out)@ + (sign + digit_chars(self.whole@)));
        }
    }

    /// The shortest text of the number.
    pub fn display_chars(&self) -> (r: Vec<char>)
        ensures
            r@ == self@.display(),
    {
        let mut out: Vec<char> = Vec::new();
        self.write_display(&mut out);
        assert(out@ =~= self@.display());
        out
    }

    /// The shortest text of the number.
    pub fn to_string(&self) -> (r: String)
        ensures
            r@ == self@.display(),
    {
        let chars = self.display_chars();
        crate::text::string_of(&chars)
    }
}

/// Appends the characters that write `digits` to `out`.
pub fn write_digits(digits: &Vec<u8>, out: &mut Vec<char>)
    requires
        all_digits(digits@),
    ensures
        final(out)@ == old(out)@ + digit_chars(digits@),
{
    let mut i: usize = 0;
    while i < digits.len()
        invariant
            i <= digits.len(),
            all_digits(digits@),
            out@ == old(out)@ + digit_chars(digits@.take(i as int)),
        decreases digits.len() - i,
    {
        let c = digit_letter(digits[i]);
        out.push(c);
        assert(out@ =~= old(out)@ + digit_chars(digits@.take(i + 1)));
        i += 1;
    }
    assert(digits@.take(digits@.len() as int) =~= digits@);
}

} // verus!
