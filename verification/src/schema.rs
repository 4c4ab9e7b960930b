//! Reading the fields of a record from the entries of a dictionary, and
//! keeping the entries that the record does not know.

use vstd::prelude::*;
use crate::decimal::{Decimal, DecimalModel};
use crate::error::{ConversionError, ConversionErrorModel, ErrorKind};
use crate::plist::{dict_get, entries_model, lookup, under_key, Plist, PlistModel};
use crate::seqs::{
    collect, first_match, lemma_first_match, lemma_first_match_at, lemma_first_match_none,
};
use crate::vecs::{filter_map_model, try_map_model};

verus! {

/// The failure of a dictionary that lacks the entry `key`.
pub open spec fn missing(key: Seq<char>) -> ConversionErrorModel {
    ConversionErrorModel::new(ErrorKind::MissingField, key)
}

/// The failure of a node under `key`, or of a record called `key`, that is
/// of the wrong kind.
pub open spec fn wrong(key: Seq<char>) -> ConversionErrorModel {
    ConversionErrorModel::new(ErrorKind::WrongVariant, key)
}

/// The field under `key`, which must be there and of the right kind.
pub open spec fn scalar_field<T>(
    entries: Seq<(Seq<char>, PlistModel)>,
    key: Seq<char>,
    g: spec_fn(PlistModel) -> Option<T>,
) -> Result<T, ConversionErrorModel> {
    match lookup(entries, key) {
        None => Err(missing(key)),
        Some(p) => match g(p) {
            Some(x) => Ok(x),
            None => Err(wrong(key)),
        },
    }
}

/// The field under `key`, which must be of the right kind where it is
/// there.
pub open spec fn optional_field<T>(
    entries: Seq<(Seq<char>, PlistModel)>,
    key: Seq<char>,
    g: spec_fn(PlistModel) -> Option<T>,
) -> Result<Option<T>, ConversionErrorModel> {
    match lookup(entries, key) {
        None => Ok(None),
        Some(p) => match g(p) {
            Some(x) => Ok(Some(x)),
            None => Err(wrong(key)),
        },
    }
}

/// The records of the array `p`, which is the value under `key`.
pub open spec fn records_of<T>(
    p: PlistModel,
    key: Seq<char>,
    g: spec_fn(PlistModel) -> Result<T, ConversionErrorModel>,
) -> Result<Seq<T>, ConversionErrorModel> {
    match p {
        PlistModel::Array(items) => collect(items.map_values(g)),
        _ => Err(wrong(key)),
    }
}

/// The records in the array under `key`, which must be there.
pub open spec fn record_list<T>(
    entries: Seq<(Seq<char>, PlistModel)>,
    key: Seq<char>,
    g: spec_fn(PlistModel) -> Result<T, ConversionErrorModel>,
) -> Result<Seq<T>, ConversionErrorModel> {
    match lookup(entries, key) {
        None => Err(missing(key)),
        Some(p) => records_of(p, key, g),
    }
}

/// The records in the array under `key`, where there is one.
pub open spec fn optional_record_list<T>(
    entries: Seq<(Seq<char>, PlistModel)>,
    key: Seq<char>,
    g: spec_fn(PlistModel) -> Result<T, ConversionErrorModel>,
) -> Result<Option<Seq<T>>, ConversionErrorModel> {
    match lookup(entries, key) {
        None => Ok(None),
        Some(p) => match records_of(p, key, g) {
            Ok(records) => Ok(Some(records)),
            Err(e) => Err(e),
        },
    }
}

/// The entry, unless the record knows its key.
pub open spec fn unless_known(known: Seq<Seq<char>>, entry: (Seq<char>, PlistModel)) -> Option<
    (Seq<char>, PlistModel),
> {
    if known.contains(entry.0) {
        None
    } else {
        Some(entry)
    }
}

/// The entries whose keys the record does not know, in their order.
pub open spec fn unknown(entries: Seq<(Seq<char>, PlistModel)>, known: Seq<Seq<char>>) -> Seq<
    (Seq<char>, PlistModel),
> {
    entries.filter_map(|e: (Seq<char>, PlistModel)| unless_known(known, e))
}

/// The string of a node.
pub open spec fn as_text(p: PlistModel) -> Option<Seq<char>> {
    match p {
        PlistModel::String(s) => Some(s),
        _ => None,
    }
}

/// The whole number of a node.
pub open spec fn as_int(p: PlistModel) -> Option<i64> {
    match p {
        PlistModel::Integer(n) => Some(n),
        _ => None,
    }
}

/// The number of a node, which may be written as a whole number.
pub open spec fn as_number(p: PlistModel) -> Option<DecimalModel> {
    match p {
        PlistModel::Integer(n) => Some(DecimalModel::of_int(n as int)),
        PlistModel::Float(d) => Some(d),
        _ => None,
    }
}

/// The truth value of a node, which may be written as a whole number: zero
/// for no, anything else for yes.
pub open spec fn as_flag(p: PlistModel) -> Option<bool> {
    match p {
        PlistModel::Boolean(b) => Some(b),
        PlistModel::Integer(n) => Some(n != 0),
        _ => None,
    }
}

/// The node for a number: a whole number where it is one that an `i64`
/// holds.
pub open spec fn number_node(d: DecimalModel) -> PlistModel {
    match d.as_int() {
        Some(n) => PlistModel::Integer(n as i64),
        None => PlistModel::Float(d),
    }
}

/// The node for a truth value: one for yes, zero for no.
pub open spec fn flag_node(b: bool) -> PlistModel {
    PlistModel::Integer(if b { 1i64 } else { 0i64 })
}

/// The string of the node `p`.
pub fn read_text(p: &Plist) -> (r: Option<String>)
    ensures
        r.deep_view() == as_text(p.deep_view()),
{
    match p {
        Plist::String(s) => Some(s.clone()),
        _ => None,
    }
}

/// The whole number of the node `p`.
pub fn read_int(p: &Plist) -> (r: Option<i64>)
    ensures
        r == as_int(p.deep_view()),
{
    match p {
        Plist::Integer(n) => Some(*n),
        _ => None,
    }
}

/// The number of the node `p`.
pub fn read_decimal(p: &Plist) -> (r: Option<Decimal>)
    ensures
        r.deep_view() == as_number(p.deep_view()),
{
    match p {
        Plist::Integer(n) => Some(Decimal::from_i64(*n)),
        Plist::Float(d) => Some(d.copy()),
        _ => None,
    }
}

/// The truth value of the node `p`.
pub fn read_flag(p: &Plist) -> (r: Option<bool>)
    ensures
        r == as_flag(p.deep_view()),
{
    match p {
        Plist::Boolean(b) => Some(*b),
        Plist::Integer(n) => Some(*n != 0),
        _ => None,
    }
}

/// The node for the number `d`.
pub fn write_number(d: &Decimal) -> (r: Plist)
    ensures
        r.deep_view() == number_node(d@),
{
    match d.as_i64() {
        Some(n) => Plist::Integer(n),
        None => Plist::Float(d.copy()),
    }
}

/// The node for the truth value `b`.
pub fn write_flag(b: bool) -> (r: Plist)
    ensures
        r.deep_view() == flag_node(b),
{
    Plist::Integer(if b { 1 } else { 0 })
}

/// The field under `key`, which must be there and of the right kind.
pub fn read_field<T: DeepView, F: Fn(&Plist) -> Option<T>>(
    entries: &Vec<(String, Plist)>,
    key: &str,
    f: F,
    Ghost(g): Ghost<spec_fn(PlistModel) -> Option<T::V>>,
) -> (r: Result<T, ConversionError>)
    requires
        forall|p: Plist| call_requires(f, (&p,)),
        forall|p: Plist, y: Option<T>|
            call_ensures(f, (&p,), y) ==> y.deep_view() == g(p.deep_view()),
    ensures
        match r {
            Ok(x) => scalar_field(entries_model(entries@), key@, g) == Ok::<
                T::V,
                ConversionErrorModel,
            >(x.deep_view()),
            Err(e) => scalar_field(entries_model(entries@), key@, g) == Err::<
                T::V,
                ConversionErrorModel,
            >(e.deep_view()),
        },
{
    match dict_get(entries, key) {
        None => Err(ConversionError::new(ErrorKind::MissingField, key)),
        Some(p) => match f(p) {
            Some(x) => Ok(x),
            None => Err(ConversionError::new(ErrorKind::WrongVariant, key)),
        },
    }
}

/// The field under `key`, which must be of the right kind where it is
/// there.
pub fn read_optional<T: DeepView, F: Fn(&Plist) -> Option<T>>(
    entries: &Vec<(String, Plist)>,
    key: &str,
    f: F,
    Ghost(g): Ghost<spec_fn(PlistModel) -> Option<T::V>>,
) -> (r: Result<Option<T>, ConversionError>)
    requires
        forall|p: Plist| call_requires(f, (&p,)),
        forall|p: Plist, y: Option<T>|
            call_ensures(f, (&p,), y) ==> y.deep_view() == g(p.deep_view()),
    ensures
        match r {
            Ok(x) => optional_field(entries_model(entries@), key@, g) == Ok::<
                Option<T::V>,
                ConversionErrorModel,
            >(x.deep_view()),
            Err(e) => optional_field(entries_model(entries@), key@, g) == Err::<
                Option<T::V>,
                ConversionErrorModel,
            >(e.deep_view()),
        },
{
    match dict_get(entries, key) {
        None => Ok(None),
        Some(p) => match f(p) {
            Some(x) => Ok(Some(x)),
            None => Err(ConversionError::new(ErrorKind::WrongVariant, key)),
        },
    }
}

/// The records of the array `p`, which is the value under `key`.
pub fn read_records<T: DeepView, F: Fn(&Plist) -> Result<T, ConversionError>>(
    p: &Plist,
    key: &str,
    f: F,
    Ghost(g): Ghost<spec_fn(PlistModel) -> Result<T::V, ConversionErrorModel>>,
) -> (r: Result<Vec<T>, ConversionError>)
    requires
        forall|p: Plist| call_requires(f, (&p,)),
        forall|p: Plist, y: Result<T, ConversionError>|
            call_ensures(f, (&p,), y) ==> match y {
                Ok(b) => g(p.deep_view()) == Ok::<T::V, ConversionErrorModel>(b.deep_view()),
                Err(e) => g(p.deep_view()) == Err::<T::V, ConversionErrorModel>(e.deep_view()),
            },
    ensures
        match r {
            Ok(x) => records_of(p.deep_view(), key@, g) == Ok::<Seq<T::V>, ConversionErrorModel>(
                x.deep_view(),
            ),
            Err(e) => records_of(p.deep_view(), key@, g) == Err::<
                Seq<T::V>,
                ConversionErrorModel,
            >(e.deep_view()),
        },
{
    match p.as_array() {
        Some(items) => try_map_model(items, f, Ghost(g)),
        None => Err(ConversionError::new(ErrorKind::WrongVariant, key)),
    }
}

/// The records in the array under `key`, which must be there.
pub fn read_list<T: DeepView, F: Fn(&Plist) -> Result<T, ConversionError>>(
    entries: &Vec<(String, Plist)>,
    key: &str,
    f: F,
    Ghost(g): Ghost<spec_fn(PlistModel) -> Result<T::V, ConversionErrorModel>>,
) -> (r: Result<Vec<T>, ConversionError>)
    requires
        forall|p: Plist| call_requires(f, (&p,)),
        forall|p: Plist, y: Result<T, ConversionError>|
            call_ensures(f, (&p,), y) ==> match y {
                Ok(b) => g(p.deep_view()) == Ok::<T::V, ConversionErrorModel>(b.deep_view()),
                Err(e) => g(p.deep_view()) == Err::<T::V, ConversionErrorModel>(e.deep_view()),
            },
    ensures
        match r {
            Ok(x) => record_list(entries_model(entries@), key@, g) == Ok::<
                Seq<T::V>,
                ConversionErrorModel,
            >(x.deep_view()),
            Err(e) => record_list(entries_model(entries@), key@, g) == Err::<
                Seq<T::V>,
                ConversionErrorModel,
            >(e.deep_view()),
        },
{
    match dict_get(entries, key) {
        None => Err(ConversionError::new(ErrorKind::MissingField, key)),
        Some(p) => read_records(p, key, f, Ghost(g)),
    }
}

/// The records in the array under `key`, where there is one.
pub fn read_optional_list<T: DeepView, F: Fn(&Plist) -> Result<T, ConversionError>>(
    entries: &Vec<(String, Plist)>,
    key: &str,
    f: F,
    Ghost(g): Ghost<spec_fn(PlistModel) -> Result<T::V, ConversionErrorModel>>,
) -> (r: Result<Option<Vec<T>>, ConversionError>)
    requires
        forall|p: Plist| call_requires(f, (&p,)),
        forall|p: Plist, y: Result<T, ConversionError>|
            call_ensures(f, (&p,), y) ==> match y {
                Ok(b) => g(p.deep_view()) == Ok::<T::V, ConversionErrorModel>(b.deep_view()),
                Err(e) => g(p.deep_view()) == Err::<T::V, ConversionErrorModel>(e.deep_view()),
            },
    ensures
        match r {
            Ok(x) => optional_record_list(entries_model(entries@), key@, g) == Ok::<
                Option<Seq<T::V>>,
                ConversionErrorModel,
            >(x.deep_view()),
            Err(e) => optional_record_list(entries_model(entries@), key@, g) == Err::<
                Option<Seq<T::V>>,
                ConversionErrorModel,
            >(e.deep_view()),
        },
{
    match dict_get(entries, key) {
        None => Ok(None),
        Some(p) => match read_records(p, key, f, Ghost(g)) {
            Ok(records) => Ok(Some(records)),
            Err(e) => Err(e),
        },
    }
}

/// Whether `keys` holds `key`.
pub fn knows(keys: &Vec<&'static str>, key: &str) -> (r: bool)
    ensures
        r == keys.deep_view().contains(key@),
{
    let mut i: usize = 0;
    while i < keys.len()
        invariant
            i <= keys.len(),
            forall|j: int| 0 <= j < i ==> keys.deep_view()[j] != key@,
        decreases keys.len() - i,
    {
        if keys[i].eq(key) {
            assert(keys.deep_view()[i as int] == key@);
            return true;
        }
        i += 1;
    }
    false
}

/// Copies of the entries whose keys are not in `keys`, in their order.
pub fn read_unknown(entries: &Vec<(String, Plist)>, keys: &Vec<&'static str>) -> (r: Vec<
    (String, Plist),
>)
    ensures
        entries_model(r@) == unknown(entries_model(entries@), keys.deep_view()),
{
    let keep = |e: &(String, Plist)| -> (r: Option<(String, Plist)>)
        ensures
            r.deep_view() == unless_known(keys.deep_view(), e.deep_view()),
        {
            if knows(keys, e.0.as_str()) {
                None
            } else {
                Some((e.0.clone(), e.1.copy()))
            }
        };
    let r = filter_map_model(
        entries,
        keep,
        Ghost(|e: (Seq<char>, PlistModel)| unless_known(keys.deep_view(), e)),
    );
    assert(entries_model(r@) =~= r.deep_view());
    assert(entries_model(entries@) =~= entries.deep_view());
    r
}

/// The value under `key` after an entry was added at the end is the one it
/// was, where there was one, and else that of the new entry, where that is
/// under `key`.
pub proof fn lemma_lookup_push(
    entries: Seq<(Seq<char>, PlistModel)>,
    entry: (Seq<char>, PlistModel),
    key: Seq<char>,
)
    ensures
        lookup(entries.push(entry), key) == match lookup(entries, key) {
            Some(v) => Some(v),
            None => if entry.0 == key {
                Some(entry.1)
            } else {
                None
            },
        },
{
    let p = under_key(key);
    let grown = entries.push(entry);
    lemma_first_match(entries, p);
    match first_match(entries, p) {
        Some(i) => {
            assert(grown[i] == entries[i]);
            assert forall|j: int| 0 <= j < i implies !p(#[trigger] grown[j]) by {
                assert(grown[j] == entries[j]);
            }
            lemma_first_match_at(grown, p, i);
        },
        None => {
            if entry.0 == key {
                assert forall|j: int| 0 <= j < entries.len() implies !p(#[trigger] grown[j]) by {
                    assert(grown[j] == entries[j]);
                }
                assert(p(grown[entries.len() as int]));
                lemma_first_match_at(grown, p, entries.len() as int);
            } else {
                assert forall|j: int| 0 <= j < grown.len() implies !p(#[trigger] grown[j]) by {
                    if j < entries.len() {
                        assert(grown[j] == entries[j]);
                    }
                }
                lemma_first_match_none(grown, p);
            }
        },
    }
}

/// Among the entries that a record does not know, a key that it does not
/// know has the value that it had among all the entries.
pub proof fn lemma_lookup_unknown(
    entries: Seq<(Seq<char>, PlistModel)>,
    known: Seq<Seq<char>>,
    key: Seq<char>,
)
    requires
        !known.contains(key),
    ensures
        lookup(unknown(entries, known), key) == lookup(entries, key),
    decreases entries.len(),
{
    let g = |e: (Seq<char>, PlistModel)| unless_known(known, e);
    if entries.len() == 0 {
        assert(unknown(entries, known) =~= entries);
    } else {
        let init = entries.drop_last();
        let last = entries.last();
        lemma_lookup_unknown(init, known, key);
        assert(entries =~= init.push(last));
        lemma_lookup_push(init, last, key);
        if known.contains(last.0) {
            assert(unknown(entries, known) == unknown(init, known));
        } else {
            assert(unknown(entries, known) =~= unknown(init, known).push(last));
            lemma_lookup_push(unknown(init, known), last, key);
        }
    }
}

} // verus!
