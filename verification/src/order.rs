//! The order of names: by code point, character by character, a name before
//! any longer name that starts with it.

use vstd::prelude::*;
use crate::seqs::{first_match, lemma_first_match, lemma_first_match_at, lemma_first_match_none};
use crate::text::chars_of;

verus! {

/// `a` comes before `b`.
pub open spec fn text_less(a: Seq<char>, b: Seq<char>) -> bool
    decreases a.len(),
{
    if b.len() == 0 {
        false
    } else if a.len() == 0 {
        true
    } else if a[0] != b[0] {
        a[0] < b[0]
    } else {
        text_less(a.skip(1), b.skip(1))
    }
}

/// Of two different names one comes before the other.
pub proof fn lemma_less_total(a: Seq<char>, b: Seq<char>)
    ensures
        text_less(a, b) || text_less(b, a) || a == b,
        !(text_less(a, b) && text_less(b, a)),
    decreases a.len(),
{
    if a.len() > 0 && b.len() > 0 && a[0] == b[0] {
        lemma_less_total(a.skip(1), b.skip(1));
        if a.skip(1) == b.skip(1) {
            assert(a =~= seq![a[0]] + a.skip(1));
            assert(b =~= seq![b[0]] + b.skip(1));
        }
    } else if a.len() == 0 && b.len() == 0 {
        assert(a =~= b);
    }
}

/// What comes before a name comes before all that the name comes before.
pub proof fn lemma_less_transitive(a: Seq<char>, b: Seq<char>, c: Seq<char>)
    requires
        text_less(a, b),
        text_less(b, c),
    ensures
        text_less(a, c),
    decreases a.len(),
{
    if a.len() > 0 && a[0] == b[0] && b[0] == c[0] {
        lemma_less_transitive(a.skip(1), b.skip(1), c.skip(1));
    }
}

/// Where two names agree up to `i`, their order is that of what follows.
proof fn lemma_less_after_prefix(a: Seq<char>, b: Seq<char>, i: int)
    requires
        0 <= i <= a.len(),
        i <= b.len(),
        a.take(i) == b.take(i),
    ensures
        text_less(a, b) == text_less(a.skip(i), b.skip(i)),
    decreases i,
{
    if i > 0 {
        assert(a[0] == a.take(i)[0]);
        assert(b[0] == b.take(i)[0]);
        assert(a.skip(1).take(i - 1) =~= a.take(i).skip(1));
        assert(b.skip(1).take(i - 1) =~= b.take(i).skip(1));
        lemma_less_after_prefix(a.skip(1), b.skip(1), i - 1);
        assert(a.skip(1).skip(i - 1) =~= a.skip(i));
        assert(b.skip(1).skip(i - 1) =~= b.skip(i));
    } else {
        assert(a.skip(0) =~= a);
        assert(b.skip(0) =~= b);
    }
}

/// Whether `a` comes before `b`.
pub fn less(a: &Vec<char>, b: &Vec<char>) -> (r: bool)
    ensures
        r == text_less(a@, b@),
{
    let mut i: usize = 0;
    assert(a@.take(0) =~= b@.take(0));
    while i < a.len() && i < b.len()
        invariant
            i <= a.len(),
            i <= b.len(),
            a@.take(i as int) == b@.take(i as int),
        decreases a.len() - i,
    {
        proof {
            lemma_less_after_prefix(a@, b@, i as int);
        }
        if a[i] != b[i] {
            return a[i] < b[i];
        }
        assert(a@.take(i + 1) =~= a@.take(i as int).push(a@[i as int]));
        assert(b@.take(i + 1) =~= b@.take(i as int).push(b@[i as int]));
        i += 1;
    }
    proof {
        lemma_less_after_prefix(a@, b@, i as int);
    }
    i < b.len()
}

/// `names` with `x` put in before the first name that does not come before
/// it.
pub open spec fn inserted(names: Seq<Seq<char>>, x: Seq<char>) -> Seq<Seq<char>> {
    match first_match(names, |n: Seq<char>| !text_less(n, x)) {
        Some(k) => names.take(k) + seq![x] + names.skip(k),
        None => names.push(x),
    }
}

/// The names of `names` in order.
pub open spec fn sorted(names: Seq<Seq<char>>) -> Seq<Seq<char>>
    decreases names.len(),
{
    if names.len() == 0 {
        names
    } else {
        inserted(sorted(names.drop_last()), names.last())
    }
}

/// No name of `names` comes before an earlier one.
pub open spec fn ordered(names: Seq<Seq<char>>) -> bool {
    forall|i: int, j: int| 0 <= i < j < names.len() ==> !text_less(names[j], names[i])
}

/// Putting a name into ordered names leaves them ordered, and adds that name
/// and no other.
pub proof fn lemma_inserted(names: Seq<Seq<char>>, x: Seq<char>)
    requires
        ordered(names),
    ensures
        ordered(inserted(names, x)),
        inserted(names, x).len() == names.len() + 1,
        forall|n: Seq<char>| #[trigger] inserted(names, x).contains(n) <==> (names.contains(n) || n == x),
{
    let p = |n: Seq<char>| !text_less(n, x);
    let r = inserted(names, x);
    lemma_first_match(names, p);
    let k = match first_match(names, p) {
        Some(k) => k,
        None => names.len() as int,
    };
    assert(r =~= names.take(k) + seq![x] + names.skip(k));
    assert forall|i: int, j: int| 0 <= i < j < r.len() implies !text_less(r[j], r[i]) by {
        if j == k {
            // r[i] comes before x
            lemma_less_total(r[i], x);
        } else if i == k {
            // names[k] does not come before x, and r[j] not before names[k]
            let m = r[j];
            assert(m == names[j - 1]);
            if text_less(m, x) {
                if j - 1 > k {
                    lemma_less_total(names[k], x);
                    if x == names[k] {
                    } else {
                        lemma_less_transitive(m, x, names[k]);
                    }
                }
            }
        } else {
            let ii = if i < k { i } else { i - 1 };
            let jj = if j < k { j } else { j - 1 };
            assert(r[i] == names[ii]);
            assert(r[j] == names[jj]);
        }
    }
    assert forall|n: Seq<char>| #[trigger] r.contains(n) <==> (names.contains(n) || n == x) by {
        if r.contains(n) {
            let i = choose|i: int| 0 <= i < r.len() && r[i] == n;
            if i < k {
                assert(names[i] == n);
            } else if i > k {
                assert(names[i - 1] == n);
            }
        }
        if names.contains(n) {
            let i = choose|i: int| 0 <= i < names.len() && names[i] == n;
            if i < k {
                assert(r[i] == n);
            } else {
                assert(r[i + 1] == n);
            }
        }
        if n == x {
            assert(r[k] == n);
        }
    }
}

/// `sorted(names)` is ordered and holds the names of `names`, as many as
/// there were.
pub proof fn lemma_sorted(names: Seq<Seq<char>>)
    ensures
        ordered(sorted(names)),
        sorted(names).len() == names.len(),
        forall|n: Seq<char>| #[trigger] sorted(names).contains(n) <==> names.contains(n),
    decreases names.len(),
{
    if names.len() > 0 {
        let init = names.drop_last();
        lemma_sorted(init);
        lemma_inserted(sorted(init), names.last());
        assert(names =~= init.push(names.last()));
        assert forall|n: Seq<char>| #[trigger] sorted(names).contains(n) <==> names.contains(n) by {
            vstd::seq_lib::lemma_seq_contains_after_push(init, names.last(), n);
        }
    }
}

/// The names of `names` in order.
pub fn sort_names(names: Vec<String>) -> (r: Vec<String>)
    ensures
        r.deep_view() == sorted(names.deep_view()),
{
    let mut out: Vec<String> = Vec::new();
    let ghost all = names.deep_view();
    let mut i: usize = 0;
    assert(all.take(0) =~= Seq::<Seq<char>>::empty());
    assert(out.deep_view() =~= sorted(all.take(0)));
    while i < names.len()
        invariant
            i <= names.len(),
            all == names.deep_view(),
            out.deep_view() == sorted(all.take(i as int)),
        decreases names.len() - i,
    {
        let name = names[i].clone();
        let x = chars_of(name.as_str());
        let ghost before = out.deep_view();
        let ghost p = |n: Seq<char>| !text_less(n, x@);
        // The first place whose name does not come before `name`.
        let mut k: usize = 0;
        let mut found = false;
        while k < out.len() && !found
            invariant
                k <= out.len(),
                before == out.deep_view(),
                p == |n: Seq<char>| !text_less(n, x@),
                forall|j: int| 0 <= j < k ==> !p(#[trigger] before[j]),
                found ==> k < out.len() && p(before[k as int]),
            decreases out.len() - k + (if found { 0int } else { 1int }),
        {
            let n = chars_of(out[k].as_str());
            assert(n@ == before[k as int]);
            if !less(&n, &x) {
                found = true;
            } else {
                k += 1;
            }
        }
        proof {
            if found {
                lemma_first_match_at(before, p, k as int);
            } else {
                lemma_first_match_none(before, p);
            }
        }
        out.insert(k, name);
        proof {
            assert(all.take(i + 1).drop_last() =~= all.take(i as int));
            assert(all.take(i + 1).last() == x@);
            if k < before.len() {
                assert(out.deep_view() =~= before.take(k as int) + seq![x@] + before.skip(
                    k as int,
                ));
            } else {
                assert(out.deep_view() =~= before.push(x@));
            }
        }
        i += 1;
    }
    assert(all.take(all.len() as int) =~= all);
    out
}

} // verus!
