//! Searching sequences.

use vstd::prelude::*;

verus! {

/// The index of the first element of `s` that meets `p`.
pub open spec fn first_match<T>(s: Seq<T>, p: spec_fn(T) -> bool) -> Option<int>
    decreases s.len(),
{
    if s.len() == 0 {
        None
    } else if p(s[0]) {
        Some(0)
    } else {
        match first_match(s.skip(1), p) {
            Some(i) => Some(i + 1),
            None => None,
        }
    }
}

/// What `first_match` finds is in range, meets `p`, and nothing before it
/// does; where it finds nothing, no element meets `p`.
pub proof fn lemma_first_match<T>(s: Seq<T>, p: spec_fn(T) -> bool)
    ensures
        match first_match(s, p) {
            Some(i) => 0 <= i < s.len() && p(s[i]) && forall|j: int| 0 <= j < i ==> !p(#[trigger] s[j]),
            None => forall|j: int| 0 <= j < s.len() ==> !p(#[trigger] s[j]),
        },
    decreases s.len(),
{
    if s.len() > 0 && !p(s[0]) {
        let t = s.skip(1);
        lemma_first_match(t, p);
        match first_match(t, p) {
            Some(i) => {
                assert(s[i + 1] == t[i]);
                assert forall|j: int| 0 <= j < i + 1 implies !p(#[trigger] s[j]) by {
                    if j > 0 {
                        assert(s[j] == t[j - 1]);
                    }
                }
            },
            None => {
                assert forall|j: int| 0 <= j < s.len() implies !p(#[trigger] s[j]) by {
                    if j > 0 {
                        assert(s[j] == t[j - 1]);
                    }
                }
            },
        }
    }
}

/// The first element that meets `p`, with nothing before it that does, is
/// what `first_match` finds.
pub proof fn lemma_first_match_at<T>(s: Seq<T>, p: spec_fn(T) -> bool, i: int)
    requires
        0 <= i < s.len(),
        p(s[i]),
        forall|j: int| 0 <= j < i ==> !p(#[trigger] s[j]),
    ensures
        first_match(s, p) == Some(i),
{
    lemma_first_match(s, p);
}

/// Where no element meets `p`, `first_match` finds nothing.
pub proof fn lemma_first_match_none<T>(s: Seq<T>, p: spec_fn(T) -> bool)
    requires
        forall|j: int| 0 <= j < s.len() ==> !p(#[trigger] s[j]),
    ensures
        first_match(s, p) is None,
{
    lemma_first_match(s, p);
}

/// `s` with every element that occurred before left out.
pub open spec fn distinct<T>(s: Seq<T>) -> Seq<T>
    decreases s.len(),
{
    if s.len() == 0 {
        s
    } else {
        let head = distinct(s.drop_last());
        if head.contains(s.last()) {
            head
        } else {
            head.push(s.last())
        }
    }
}

/// `distinct(s)` holds what `s` holds, each element once.
pub proof fn lemma_distinct<T>(s: Seq<T>)
    ensures
        distinct(s).no_duplicates(),
        forall|x: T| #[trigger] distinct(s).contains(x) <==> s.contains(x),
        distinct(s).len() <= s.len(),
    decreases s.len(),
{
    if s.len() > 0 {
        let init = s.drop_last();
        let last = s.last();
        lemma_distinct(init);
        let head = distinct(init);
        assert(s =~= init.push(last));
        assert forall|x: T| #[trigger] distinct(s).contains(x) <==> s.contains(x) by {
            vstd::seq_lib::lemma_seq_contains_after_push(init, last, x);
            vstd::seq_lib::lemma_seq_contains_after_push(head, last, x);
            assert(head.contains(x) <==> init.contains(x));
            assert(head.contains(last) <==> init.contains(last));
        }
        if !head.contains(last) {
            let d = head.push(last);
            assert forall|i: int, j: int| 0 <= i < d.len() && 0 <= j < d.len() && i != j implies d[i]
                != d[j] by {
                if i == head.len() {
                    assert(head[j] == d[j]);
                    assert(head.contains(head[j]));
                } else if j == head.len() {
                    assert(head[i] == d[i]);
                    assert(head.contains(head[i]));
                }
            }
        }
    }
}

/// A sequence without repeats is its own `distinct`.
pub proof fn lemma_distinct_of_no_duplicates<T>(s: Seq<T>)
    requires
        s.no_duplicates(),
    ensures
        distinct(s) == s,
    decreases s.len(),
{
    if s.len() > 0 {
        let init = s.drop_last();
        lemma_distinct_of_no_duplicates(init);
        if init.contains(s.last()) {
            let i = choose|i: int| 0 <= i < init.len() && init[i] == s.last();
            assert(s[i] == s[s.len() - 1]);
        }
        assert(init.push(s.last()) =~= s);
    }
}

/// The values of `s`, or the first error in it.
pub open spec fn collect<T, E>(s: Seq<Result<T, E>>) -> Result<Seq<T>, E> {
    match first_match(s, |r: Result<T, E>| r is Err) {
        Some(i) => Err(s[i]->Err_0),
        None => Ok(s.map_values(|r: Result<T, E>| r->Ok_0)),
    }
}

/// An error with only values before it is what `collect` gives.
pub proof fn lemma_collect_err<T, E>(s: Seq<Result<T, E>>, i: int)
    requires
        0 <= i < s.len(),
        s[i] is Err,
        forall|j: int| 0 <= j < i ==> (#[trigger] s[j]) is Ok,
    ensures
        collect(s) == Err::<Seq<T>, E>(s[i]->Err_0),
{
    lemma_first_match_at(s, |r: Result<T, E>| r is Err, i);
}

/// Where every element is a value, `collect` gives the values.
pub proof fn lemma_collect_ok<T, E>(s: Seq<Result<T, E>>, items: Seq<T>)
    requires
        items.len() == s.len(),
        forall|j: int| 0 <= j < s.len() ==> (#[trigger] s[j]) == Ok::<T, E>(items[j]),
    ensures
        collect(s) == Ok::<Seq<T>, E>(items),
{
    lemma_first_match_none(s, |r: Result<T, E>| r is Err);
    assert(s.map_values(|r: Result<T, E>| r->Ok_0) =~= items);
}

/// The values that `s` holds, without the places that hold none, or the
/// first error in `s`.
pub open spec fn gather<T, E>(s: Seq<Result<Option<T>, E>>) -> Result<Seq<T>, E> {
    match collect(s) {
        Err(e) => Err(e),
        Ok(found) => Ok(found.filter_map(|o: Option<T>| o)),
    }
}

/// What `filter_map` keeps is what `f` makes of an element of the sequence.
pub proof fn lemma_filter_map_source<A, B>(s: Seq<A>, f: spec_fn(A) -> Option<B>, k: int) -> (i: int)
    requires
        0 <= k < s.filter_map(f).len(),
    ensures
        0 <= i < s.len(),
        f(s[i]) == Some(s.filter_map(f)[k]),
    decreases s.len(),
{
    let init = s.drop_last();
    if f(s.last()) is Some && k == init.filter_map(f).len() {
        s.len() - 1
    } else {
        lemma_filter_map_source(init, f, k)
    }
}

/// What `f` makes of an element of the sequence is among what `filter_map`
/// keeps.
pub proof fn lemma_filter_map_keeps<A, B>(s: Seq<A>, f: spec_fn(A) -> Option<B>, i: int) -> (k: int)
    requires
        0 <= i < s.len(),
        f(s[i]) is Some,
    ensures
        0 <= k < s.filter_map(f).len(),
        f(s[i]) == Some(s.filter_map(f)[k]),
    decreases s.len(),
{
    let init = s.drop_last();
    if i == s.len() - 1 {
        init.filter_map(f).len() as int
    } else {
        lemma_filter_map_keeps(init, f, i)
    }
}

/// `filter_map` keeps apart what was apart: where the elements of which `f`
/// makes something differ in their keys, and `f` keeps the key, what
/// `filter_map` keeps differs in its keys.
pub proof fn lemma_filter_map_distinct<A, B, K>(
    s: Seq<A>,
    f: spec_fn(A) -> Option<B>,
    key_before: spec_fn(A) -> K,
    key_after: spec_fn(B) -> K,
)
    requires
        forall|i: int, j: int|
            0 <= i < j < s.len() && f(s[i]) is Some && f(s[j]) is Some ==> key_before(s[i])
                != key_before(s[j]),
        forall|i: int|
            0 <= i < s.len() && f(s[i]) is Some ==> key_after(f(s[i])->0) == key_before(
                #[trigger] s[i],
            ),
    ensures
        forall|k: int, l: int|
            0 <= k < l < s.filter_map(f).len() ==> key_after(s.filter_map(f)[k]) != key_after(
                s.filter_map(f)[l],
            ),
    decreases s.len(),
{
    if s.len() > 0 {
        let init = s.drop_last();
        let kept = init.filter_map(f);
        assert forall|i: int, j: int|
            0 <= i < j < init.len() && f(init[i]) is Some && f(init[j]) is Some implies key_before(
            init[i],
        ) != key_before(init[j]) by {
            assert(init[i] == s[i] && init[j] == s[j]);
        }
        assert forall|i: int| 0 <= i < init.len() && f(init[i]) is Some implies key_after(
            f(init[i])->0,
        ) == key_before(#[trigger] init[i]) by {
            assert(init[i] == s[i]);
        }
        lemma_filter_map_distinct(init, f, key_before, key_after);
        if f(s.last()) is Some {
            let all = s.filter_map(f);
            assert(all =~= kept.push(f(s.last())->0));
            assert forall|k: int, l: int| 0 <= k < l < all.len() implies key_after(all[k])
                != key_after(all[l]) by {
                if l == kept.len() {
                    let i = lemma_filter_map_source(init, f, k);
                    assert(init[i] == s[i]);
                    assert(key_after(all[k]) == key_before(s[i]));
                    assert(key_after(all[l]) == key_before(s[s.len() - 1]));
                } else {
                    assert(all[k] == kept[k] && all[l] == kept[l]);
                }
            }
        }
    }
}

/// `gather` keeps apart what was apart: where the values of the sequence
/// differ in their keys, the values that `gather` gives differ in theirs,
/// and each of them is a value of the sequence.
pub proof fn lemma_gather_distinct<T, E, K>(s: Seq<Result<Option<T>, E>>, key: spec_fn(T) -> K)
    requires
        gather(s) is Ok,
        forall|i: int, j: int|
            0 <= i < j < s.len() && (#[trigger] s[i]) is Ok && s[i]->Ok_0 is Some && (
            #[trigger] s[j]) is Ok && s[j]->Ok_0 is Some ==> key(s[i]->Ok_0->0) != key(
                s[j]->Ok_0->0,
            ),
    ensures
        forall|k: int, l: int|
            0 <= k < l < gather(s)->Ok_0.len() ==> key(gather(s)->Ok_0[k]) != key(
                gather(s)->Ok_0[l],
            ),
        forall|k: int|
            0 <= k < gather(s)->Ok_0.len() ==> exists|i: int|
                0 <= i < s.len() && #[trigger] s[i] == Ok::<Option<T>, E>(
                    Some(#[trigger] gather(s)->Ok_0[k]),
                ),
{
    let found = collect(s)->Ok_0;
    let keep = |o: Option<T>| o;
    lemma_first_match(s, |r: Result<Option<T>, E>| r is Err);
    assert(found.len() == s.len());
    assert forall|i: int| 0 <= i < s.len() implies s[i] == Ok::<Option<T>, E>(#[trigger] found[i]) by {
        assert(s[i] is Ok);
    }
    assert(gather(s)->Ok_0 == found.filter_map(keep));
    lemma_filter_map_distinct(found, keep, |o: Option<T>| key(o->0), key);
    assert forall|k: int| 0 <= k < gather(s)->Ok_0.len() implies exists|i: int|
        0 <= i < s.len() && #[trigger] s[i] == Ok::<Option<T>, E>(
            Some(#[trigger] gather(s)->Ok_0[k]),
        ) by {
        let i = lemma_filter_map_source(found, keep, k);
        assert(s[i] == Ok::<Option<T>, E>(found[i]));
    }
}

/// Where `gather` gives values, nothing in the sequence is an error.
pub proof fn lemma_gather_ok<T, E>(s: Seq<Result<Option<T>, E>>)
    requires
        gather(s) is Ok,
    ensures
        forall|i: int| 0 <= i < s.len() ==> (#[trigger] s[i]) is Ok,
{
    lemma_first_match(s, |r: Result<Option<T>, E>| r is Err);
}

/// A value of the sequence is among the values that `gather` gives.
pub proof fn lemma_gather_keeps<T, E>(s: Seq<Result<Option<T>, E>>, i: int) -> (k: int)
    requires
        gather(s) is Ok,
        0 <= i < s.len(),
        s[i] matches Ok(Some(_)),
    ensures
        0 <= k < gather(s)->Ok_0.len(),
        s[i] == Ok::<Option<T>, E>(Some(gather(s)->Ok_0[k])),
{
    let found = collect(s)->Ok_0;
    let keep = |o: Option<T>| o;
    lemma_first_match(s, |r: Result<Option<T>, E>| r is Err);
    assert(found[i] == s[i]->Ok_0);
    assert(gather(s)->Ok_0 == found.filter_map(keep));
    lemma_filter_map_keeps(found, keep, i)
}

/// What `map_values` makes of what `filter_map` keeps is what `filter_map`
/// keeps of both together.
pub proof fn lemma_filter_map_then<A, B, C>(
    s: Seq<A>,
    f: spec_fn(A) -> Option<B>,
    k: spec_fn(B) -> C,
    both: spec_fn(A) -> Option<C>,
)
    requires
        forall|i: int|
            0 <= i < s.len() ==> both(#[trigger] s[i]) == match f(s[i]) {
                Some(b) => Some(k(b)),
                None => None,
            },
    ensures
        s.filter_map(f).map_values(k) == s.filter_map(both),
    decreases s.len(),
{
    if s.len() == 0 {
        assert(s.filter_map(f).map_values(k) =~= s.filter_map(both));
    } else {
        let init = s.drop_last();
        assert forall|i: int| 0 <= i < init.len() implies both(#[trigger] init[i]) == match f(
            init[i],
        ) {
            Some(b) => Some(k(b)),
            None => None,
        } by {
            assert(init[i] == s[i]);
        }
        lemma_filter_map_then(init, f, k, both);
        assert(s.last() == s[s.len() - 1]);
        assert(s.filter_map(f).map_values(k) =~= s.filter_map(both));
    }
}

/// Where `f` keeps every element as it is, `filter_map` gives the sequence
/// back.
pub proof fn lemma_filter_map_all<A>(s: Seq<A>, f: spec_fn(A) -> Option<A>)
    requires
        forall|i: int| 0 <= i < s.len() ==> f(#[trigger] s[i]) == Some(s[i]),
    ensures
        s.filter_map(f) == s,
    decreases s.len(),
{
    if s.len() == 0 {
        assert(s.filter_map(f) =~= s);
    } else {
        let init = s.drop_last();
        assert forall|i: int| 0 <= i < init.len() implies f(#[trigger] init[i]) == Some(init[i]) by {
            assert(init[i] == s[i]);
        }
        lemma_filter_map_all(init, f);
        assert(s.last() == s[s.len() - 1]);
        assert(s.filter_map(f) =~= s);
    }
}

/// Two sequences whose elements meet their conditions in the same places
/// have their first match in the same place.
pub proof fn lemma_first_match_alike<S, T>(
    s: Seq<S>,
    p: spec_fn(S) -> bool,
    t: Seq<T>,
    q: spec_fn(T) -> bool,
)
    requires
        s.len() == t.len(),
        forall|i: int| 0 <= i < s.len() ==> p(#[trigger] s[i]) == q(t[i]),
    ensures
        first_match(s, p) == first_match(t, q),
{
    lemma_first_match(s, p);
    lemma_first_match(t, q);
    match first_match(s, p) {
        Some(i) => {
            assert(q(t[i]));
            if first_match(t, q) is Some {
                let j = first_match(t, q)->0;
                assert(p(s[j]) == q(t[j]));
            }
        },
        None => {
            if first_match(t, q) is Some {
                let j = first_match(t, q)->0;
                assert(p(s[j]) == q(t[j]));
            }
        },
    }
}

} // verus!
