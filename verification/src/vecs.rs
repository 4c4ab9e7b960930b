//! Building one vector from another.

use vstd::prelude::*;
use crate::seqs::{
    collect, first_match, gather, lemma_collect_err, lemma_collect_ok, lemma_first_match_at,
    lemma_first_match_none,
};

verus! {

/// The results of `f` on the elements of `v`, in order.
pub fn map_vec<A, B, F: Fn(&A) -> B>(v: &Vec<A>, f: F) -> (r: Vec<B>)
    requires
        forall|i: int| 0 <= i < v@.len() ==> call_requires(f, (&#[trigger] v@[i],)),
    ensures
        r@.len() == v@.len(),
        forall|i: int| 0 <= i < v@.len() ==> call_ensures(f, (&v@[i],), #[trigger] r@[i]),
{
    let mut r: Vec<B> = Vec::new();
    let mut i: usize = 0;
    while i < v.len()
        invariant
            i <= v.len(),
            r@.len() == i,
            forall|j: int| 0 <= j < v@.len() ==> call_requires(f, (&#[trigger] v@[j],)),
            forall|j: int| 0 <= j < i ==> call_ensures(f, (&v@[j],), #[trigger] r@[j]),
        decreases v.len() - i,
    {
        let item = f(&v[i]);
        r.push(item);
        i += 1;
    }
    r
}

/// The model of an optional index.
pub open spec fn index_model(i: Option<usize>) -> Option<int> {
    match i {
        Some(i) => Some(i as int),
        None => None,
    }
}

/// The index of the first element of `v` for which `f` says yes.
pub fn find_first<A: DeepView, F: Fn(&A) -> bool>(
    v: &Vec<A>,
    f: F,
    Ghost(p): Ghost<spec_fn(A::V) -> bool>,
) -> (r: Option<usize>)
    requires
        forall|x: A| call_requires(f, (&x,)),
        forall|x: A, b: bool| call_ensures(f, (&x,), b) ==> b == p(x.deep_view()),
    ensures
        index_model(r) == first_match(v.deep_view(), p),
        r matches Some(i) ==> i < v@.len(),
{
    let ghost m = v.deep_view();
    let mut i: usize = 0;
    while i < v.len()
        invariant
            i <= v.len(),
            m == v.deep_view(),
            forall|x: A| call_requires(f, (&x,)),
            forall|x: A, b: bool| call_ensures(f, (&x,), b) ==> b == p(x.deep_view()),
            forall|j: int| 0 <= j < i ==> !p(#[trigger] m[j]),
        decreases v.len() - i,
    {
        if f(&v[i]) {
            proof {
                assert(p(m[i as int]));
                lemma_first_match_at(m, p, i as int);
            }
            return Some(i);
        }
        assert(!p(m[i as int]));
        i += 1;
    }
    proof {
        lemma_first_match_none(m, p);
    }
    None
}

/// What `f` makes of the elements of `v`, in order.
pub fn map_model<A: DeepView, B: DeepView, F: Fn(&A) -> B>(
    v: &Vec<A>,
    f: F,
    Ghost(g): Ghost<spec_fn(A::V) -> B::V>,
) -> (r: Vec<B>)
    requires
        forall|x: A| call_requires(f, (&x,)),
        forall|x: A, y: B| call_ensures(f, (&x,), y) ==> y.deep_view() == g(x.deep_view()),
    ensures
        r.deep_view() == v.deep_view().map_values(g),
{
    let r = map_vec(v, f);
    assert(r.deep_view() =~= v.deep_view().map_values(g));
    r
}

/// What `f` makes of those elements of `v` of which it makes something, in
/// order.
pub fn filter_map_model<A: DeepView, B: DeepView, F: Fn(&A) -> Option<B>>(
    v: &Vec<A>,
    f: F,
    Ghost(g): Ghost<spec_fn(A::V) -> Option<B::V>>,
) -> (r: Vec<B>)
    requires
        forall|x: A| call_requires(f, (&x,)),
        forall|x: A, y: Option<B>| call_ensures(f, (&x,), y) ==> y.deep_view() == g(x.deep_view()),
    ensures
        r.deep_view() == v.deep_view().filter_map(g),
{
    let ghost m = v.deep_view();
    let mut r: Vec<B> = Vec::new();
    let mut i: usize = 0;
    assert(r.deep_view() =~= m.take(0).filter_map(g));
    while i < v.len()
        invariant
            i <= v.len(),
            m == v.deep_view(),
            forall|x: A| call_requires(f, (&x,)),
            forall|x: A, y: Option<B>|
                call_ensures(f, (&x,), y) ==> y.deep_view() == g(x.deep_view()),
            r.deep_view() == m.take(i as int).filter_map(g),
        decreases v.len() - i,
    {
        let ghost before = r.deep_view();
        proof {
            m.lemma_filter_map_take_succ(g, i as int);
        }
        match f(&v[i]) {
            Some(item) => {
                let ghost item_model = item.deep_view();
                r.push(item);
                assert(r.deep_view() =~= before + seq![item_model]);
            },
            None => {
                assert(r.deep_view() =~= before + Seq::empty());
            },
        }
        i += 1;
    }
    assert(m.take(m.len() as int) =~= m);
    r
}

/// What `f` makes of the elements of `v`, in order, or the first error that
/// it meets.
pub fn try_map_model<A: DeepView, B: DeepView, E: DeepView, F: Fn(&A) -> Result<B, E>>(
    v: &Vec<A>,
    f: F,
    Ghost(g): Ghost<spec_fn(A::V) -> Result<B::V, E::V>>,
) -> (r: Result<Vec<B>, E>)
    requires
        forall|x: A| call_requires(f, (&x,)),
        forall|x: A, y: Result<B, E>|
            call_ensures(f, (&x,), y) ==> match y {
                Ok(b) => g(x.deep_view()) == Ok::<B::V, E::V>(b.deep_view()),
                Err(e) => g(x.deep_view()) == Err::<B::V, E::V>(e.deep_view()),
            },
    ensures
        match r {
            Ok(items) => collect(v.deep_view().map_values(g)) == Ok::<Seq<B::V>, E::V>(
                items.deep_view(),
            ),
            Err(e) => collect(v.deep_view().map_values(g)) == Err::<Seq<B::V>, E::V>(
                e.deep_view(),
            ),
        },
{
    let ghost s = v.deep_view().map_values(g);
    let mut r: Vec<B> = Vec::new();
    let mut i: usize = 0;
    while i < v.len()
        invariant
            i <= v.len(),
            s == v.deep_view().map_values(g),
            forall|x: A| call_requires(f, (&x,)),
            forall|x: A, y: Result<B, E>|
                call_ensures(f, (&x,), y) ==> match y {
                    Ok(b) => g(x.deep_view()) == Ok::<B::V, E::V>(b.deep_view()),
                    Err(e) => g(x.deep_view()) == Err::<B::V, E::V>(e.deep_view()),
                },
            r@.len() == i,
            forall|j: int| 0 <= j < i ==> (#[trigger] s[j]) == Ok::<B::V, E::V>(r.deep_view()[j]),
        decreases v.len() - i,
    {
        match f(&v[i]) {
            Ok(item) => {
                r.push(item);
            },
            Err(e) => {
                proof {
                    assert(s[i as int] == Err::<B::V, E::V>(e.deep_view()));
                    lemma_collect_err(s, i as int);
                }
                return Err(e);
            },
        }
        i += 1;
    }
    proof {
        lemma_collect_ok(s, r.deep_view());
    }
    Ok(r)
}

/// What `f` makes of the numbers below `n`, in order and without the
/// numbers of which it makes nothing, or the first error that it meets.
pub fn gather_range<B: DeepView, E: DeepView, F: Fn(usize) -> Result<Option<B>, E>>(
    n: usize,
    f: F,
    Ghost(g): Ghost<spec_fn(int) -> Result<Option<B::V>, E::V>>,
) -> (r: Result<Vec<B>, E>)
    requires
        forall|i: usize| i < n ==> call_requires(f, (i,)),
        forall|i: usize, y: Result<Option<B>, E>|
            i < n && call_ensures(f, (i,), y) ==> match y {
                Ok(b) => g(i as int) == Ok::<Option<B::V>, E::V>(b.deep_view()),
                Err(e) => g(i as int) == Err::<Option<B::V>, E::V>(e.deep_view()),
            },
    ensures
        match r {
            Ok(items) => gather(Seq::new(n as nat, |i: int| g(i))) == Ok::<Seq<B::V>, E::V>(
                items.deep_view(),
            ),
            Err(e) => gather(Seq::new(n as nat, |i: int| g(i))) == Err::<Seq<B::V>, E::V>(
                e.deep_view(),
            ),
        },
{
    let ghost s = Seq::new(n as nat, |i: int| g(i));
    let ghost unwrap = |o: Option<B::V>| o;
    let ghost mut found: Seq<Option<B::V>> = Seq::empty();
    let mut r: Vec<B> = Vec::new();
    let mut i: usize = 0;
    assert(r.deep_view() =~= found.filter_map(unwrap));
    while i < n
        invariant
            i <= n,
            s == Seq::new(n as nat, |i: int| g(i)),
            unwrap == |o: Option<B::V>| o,
            forall|i: usize| i < n ==> call_requires(f, (i,)),
            forall|i: usize, y: Result<Option<B>, E>|
                i < n && call_ensures(f, (i,), y) ==> match y {
                    Ok(b) => g(i as int) == Ok::<Option<B::V>, E::V>(b.deep_view()),
                    Err(e) => g(i as int) == Err::<Option<B::V>, E::V>(e.deep_view()),
                },
            found.len() == i,
            forall|j: int| 0 <= j < i ==> (#[trigger] s[j]) == Ok::<Option<B::V>, E::V>(found[j]),
            r.deep_view() == found.filter_map(unwrap),
        decreases n - i,
    {
        match f(i) {
            Ok(item) => {
                let ghost before = r.deep_view();
                let ghost item_model = item.deep_view();
                proof {
                    let next = found.push(item_model);
                    assert(next.drop_last() =~= found);
                    found = next;
                }
                match item {
                    Some(b) => {
                        r.push(b);
                        assert(r.deep_view() =~= before + seq![item_model->0]);
                    },
                    None => {},
                }
            },
            Err(e) => {
                proof {
                    assert(s[i as int] == Err::<Option<B::V>, E::V>(e.deep_view()));
                    lemma_collect_err(s, i as int);
                }
                return Err(e);
            },
        }
        i += 1;
    }
    proof {
        lemma_collect_ok(s, found);
    }
    Ok(r)
}

/// Whether `names` holds `name`.
pub fn contains_name(names: &Vec<String>, name: &str) -> (r: bool)
    ensures
        r == names.deep_view().contains(name@),
{
    let mut i: usize = 0;
    while i < names.len()
        invariant
            i <= names.len(),
            forall|j: int| 0 <= j < i ==> names.deep_view()[j] != name@,
        decreases names.len() - i,
    {
        if names[i].as_str().eq(name) {
            assert(names.deep_view()[i as int] == name@);
            return true;
        }
        i += 1;
    }
    false
}

/// `names` with every name that occurred before left out.
pub fn distinct_names(names: &Vec<String>) -> (r: Vec<String>)
    ensures
        r.deep_view() == crate::seqs::distinct(names.deep_view()),
{
    let ghost all = names.deep_view();
    let mut r: Vec<String> = Vec::new();
    let mut i: usize = 0;
    assert(all.take(0) =~= Seq::<Seq<char>>::empty());
    assert(r.deep_view() =~= crate::seqs::distinct(all.take(0)));
    while i < names.len()
        invariant
            i <= names.len(),
            all == names.deep_view(),
            r.deep_view() == crate::seqs::distinct(all.take(i as int)),
        decreases names.len() - i,
    {
        let ghost before = r.deep_view();
        assert(all.take(i + 1).drop_last() =~= all.take(i as int));
        assert(all.take(i + 1).last() == all[i as int]);
        if !contains_name(&r, names[i].as_str()) {
            r.push(names[i].clone());
            assert(r.deep_view() =~= before.push(all[i as int]));
        }
        i += 1;
    }
    assert(all.take(all.len() as int) =~= all);
    r
}

} // verus!
