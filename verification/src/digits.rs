//! Decimal digits and the numbers they write.

use vstd::prelude::*;

verus! {

/// The number written by the decimal digits `s`, most significant first.
pub open spec fn digits_value(s: Seq<u8>) -> nat
    decreases s.len(),
{
    if s.len() == 0 {
        0
    } else {
        digits_value(s.drop_last()) * 10 + s.last() as nat
    }
}

/// The decimal digits of `n`, most significant first, without a leading zero.
pub open spec fn nat_digits(n: nat) -> Seq<u8>
    decreases n,
{
    if n < 10 {
        seq![n as u8]
    } else {
        nat_digits(n / 10).push((n % 10) as u8)
    }
}

/// Every element of `s` is a decimal digit.
pub open spec fn all_digits(s: Seq<u8>) -> bool {
    forall|i: int| 0 <= i < s.len() ==> #[trigger] s[i] < 10
}

/// `s` is the shortest way to write a number: at least one digit, and no
/// leading zero before another digit.
pub open spec fn canonical_digits(s: Seq<u8>) -> bool {
    &&& s.len() >= 1
    &&& all_digits(s)
    &&& s.len() > 1 ==> s[0] != 0
}

/// The digits of a number are canonical and write that number.
pub proof fn lemma_nat_digits(n: nat)
    ensures
        canonical_digits(nat_digits(n)),
        digits_value(nat_digits(n)) == n,
        n >= 1 ==> nat_digits(n)[0] != 0,
    decreases n,
{
    if n < 10 {
        let s = seq![n as u8];
        assert(s.drop_last() =~= Seq::<u8>::empty());
        assert(digits_value(s.drop_last()) == 0);
    } else {
        lemma_nat_digits(n / 10);
        let p = nat_digits(n / 10);
        let s = p.push((n % 10) as u8);
        assert(s.drop_last() =~= p);
        assert(s[0] == p[0]);
    }
}

/// A number of two digits or more is at least ten, and one with a first digit
/// other than zero is at least one.
pub proof fn lemma_digits_value_lower(s: Seq<u8>)
    requires
        s.len() >= 1,
        s[0] != 0,
    ensures
        digits_value(s) >= 1,
        s.len() > 1 ==> digits_value(s) >= 10,
    decreases s.len(),
{
    if s.len() == 1 {
        assert(s.drop_last() =~= Seq::<u8>::empty());
        assert(digits_value(s.drop_last()) == 0);
    } else {
        lemma_digits_value_lower(s.drop_last());
    }
}

/// Canonical digits are the digits of the number they write.
pub proof fn lemma_digits_of_value(s: Seq<u8>)
    requires
        canonical_digits(s),
    ensures
        nat_digits(digits_value(s)) == s,
    decreases s.len(),
{
    if s.len() == 1 {
        assert(s.drop_last() =~= Seq::<u8>::empty());
        assert(digits_value(s.drop_last()) == 0);
        assert(digits_value(s) == s[0] as nat);
        assert(nat_digits(s[0] as nat) =~= s);
    } else {
        let p = s.drop_last();
        assert(canonical_digits(p));
        lemma_digits_of_value(p);
        lemma_digits_value_lower(p);
        let v = digits_value(s);
        assert(v == digits_value(p) * 10 + s.last() as nat);
        assert(v / 10 == digits_value(p));
        assert(v % 10 == s.last() as nat);
        assert(p.push(s.last()) =~= s);
    }
}

/// A number written with a prefix of the digits is no larger.
pub proof fn lemma_digits_value_prefix(s: Seq<u8>, i: int)
    requires
        0 <= i <= s.len(),
    ensures
        digits_value(s.take(i)) <= digits_value(s),
    decreases s.len() - i,
{
    if i == s.len() {
        assert(s.take(i) =~= s);
    } else {
        lemma_digits_value_prefix(s, i + 1);
        assert(s.take(i + 1).drop_last() =~= s.take(i));
    }
}

/// The decimal digits of `n`.
pub fn digits_of_u64(n: u64) -> (r: Vec<u8>)
    ensures
        r@ == nat_digits(n as nat),
    decreases n,
{
    if n < 10 {
        let mut r: Vec<u8> = Vec::new();
        r.push(n as u8);
        assert(r@ =~= seq![n as u8]);
        r
    } else {
        let mut r = digits_of_u64(n / 10);
        r.push((n % 10) as u8);
        r
    }
}

/// The number that `digits` write, unless it is larger than a `u64` holds.
pub fn value_of_digits(digits: &Vec<u8>) -> (r: Option<u64>)
    requires
        all_digits(digits@),
    ensures
        match r {
            Some(v) => v as nat == digits_value(digits@),
            None => digits_value(digits@) > u64::MAX,
        },
{
    let mut acc: u64 = 0;
    let mut i: usize = 0;
    assert(digits@.take(0) =~= Seq::<u8>::empty());
    while i < digits.len()
        invariant
            i <= digits.len(),
            all_digits(digits@),
            acc as nat == digits_value(digits@.take(i as int)),
        decreases digits.len() - i,
    {
        let d: u8 = digits[i];
        assert(digits@.take(i + 1).drop_last() =~= digits@.take(i as int));
        assert(digits@.take(i + 1).last() == d);
        if acc > (u64::MAX - d as u64) / 10 {
            proof {
                lemma_digits_value_prefix(digits@, i + 1);
            }
            return None;
        }
        acc = acc * 10 + d as u64;
        i += 1;
    }
    assert(digits@.take(digits@.len() as int) =~= digits@);
    Some(acc)
}

} // verus!
