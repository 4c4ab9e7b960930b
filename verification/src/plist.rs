//! The value tree of a property list.

use vstd::prelude::*;
use crate::decimal::{Decimal, DecimalModel};
use crate::seqs::{first_match, lemma_first_match_at, lemma_first_match_none};

verus! {

/// A node of a property list.
///
/// A dictionary keeps its entries in the order in which they were added. A
/// key is looked up from the front, so of two entries under one key the first
/// is the one that is found.
#[derive(Debug, PartialEq)]
pub enum Plist {
    Dictionary(Vec<(String, Plist)>),
    Array(Vec<Plist>),
    String(String),
    Integer(i64),
    Float(Decimal),
    Boolean(bool),
    Data(Vec<u8>),
}

/// What a [`Plist`] stands for.
pub enum PlistModel {
    Dictionary(Seq<(Seq<char>, PlistModel)>),
    Array(Seq<PlistModel>),
    String(Seq<char>),
    Integer(i64),
    Float(DecimalModel),
    Boolean(bool),
    Data(Seq<u8>),
}

/// The entries of a dictionary, as a model.
pub open spec fn entries_model(entries: Seq<(String, Plist)>) -> Seq<(Seq<char>, PlistModel)> {
    Seq::new(entries.len(), |i: int| (entries[i].0@, entries[i].1.deep_view()))
}

impl Plist {
    /// What this tree stands for.
    pub open spec fn model(self) -> PlistModel
        decreases self,
    {
        match self {
            Plist::Dictionary(entries) => PlistModel::Dictionary(
                Seq::new(
                    entries@.len(),
                    |i: int|
                        if 0 <= i < entries@.len() {
                            (entries@[i].0@, entries@[i].1.model())
                        } else {
                            (Seq::empty(), PlistModel::Boolean(false))
                        },
                ),
            ),
            Plist::Array(items) => PlistModel::Array(
                Seq::new(
                    items@.len(),
                    |i: int|
                        if 0 <= i < items@.len() {
                            items@[i].model()
                        } else {
                            PlistModel::Boolean(false)
                        },
                ),
            ),
            Plist::String(s) => PlistModel::String(s@),
            Plist::Integer(n) => PlistModel::Integer(n),
            Plist::Float(d) => PlistModel::Float(d@),
            Plist::Boolean(b) => PlistModel::Boolean(b),
            Plist::Data(bytes) => PlistModel::Data(bytes@),
        }
    }
}

impl DeepView for Plist {
    type V = PlistModel;

    open spec fn deep_view(&self) -> PlistModel {
        self.model()
    }
}

impl View for Plist {
    type V = PlistModel;

    open spec fn view(&self) -> PlistModel {
        self.deep_view()
    }
}

/// Whether an entry stands under `key`.
pub open spec fn under_key(key: Seq<char>) -> spec_fn((Seq<char>, PlistModel)) -> bool {
    |e: (Seq<char>, PlistModel)| e.0 == key
}

/// The value of the first entry of `entries` under `key`.
pub open spec fn lookup(entries: Seq<(Seq<char>, PlistModel)>, key: Seq<char>) -> Option<
    PlistModel,
> {
    match first_match(entries, under_key(key)) {
        Some(i) => Some(entries[i].1),
        None => None,
    }
}

impl PlistModel {
    /// Every number in the tree is in its shortest form.
    pub open spec fn wf(self) -> bool
        decreases self,
    {
        match self {
            PlistModel::Dictionary(entries) => forall|i: int|
                0 <= i < entries.len() ==> (#[trigger] entries[i]).1.wf(),
            PlistModel::Array(items) => forall|i: int| 0 <= i < items.len() ==> (#[trigger] items[i]).wf(),
            PlistModel::Float(d) => d.wf(),
            _ => true,
        }
    }

    /// The value under `key`, where this is a dictionary that has one.
    pub open spec fn get(self, key: Seq<char>) -> Option<PlistModel> {
        match self {
            PlistModel::Dictionary(entries) => lookup(entries, key),
            _ => None,
        }
    }
}

/// The model of the dictionary entries `entries`.
pub proof fn lemma_entries_model(entries: Vec<(String, Plist)>)
    ensures
        Plist::Dictionary(entries).deep_view() == PlistModel::Dictionary(entries_model(entries@)),
{
    assert(Plist::Dictionary(entries).deep_view()->Dictionary_0 =~= entries_model(entries@));
}

/// The value of the first entry of `entries` under `key`.
pub fn dict_get<'a>(entries: &'a Vec<(String, Plist)>, key: &str) -> (r: Option<&'a Plist>)
    ensures
        r.deep_view() == lookup(entries_model(entries@), key@),
        r matches Some(p) ==> exists|i: int| 0 <= i < entries@.len() && entries@[i].1 == *p,
{
    let ghost m = entries_model(entries@);
    let ghost p = under_key(key@);
    let mut i: usize = 0;
    while i < entries.len()
        invariant
            i <= entries.len(),
            m == entries_model(entries@),
            p == under_key(key@),
            forall|j: int| 0 <= j < i ==> !p(#[trigger] m[j]),
        decreases entries.len() - i,
    {
        if entries[i].0.as_str().eq(key) {
            proof {
                assert(p(m[i as int]));
                lemma_first_match_at(m, p, i as int);
            }
            return Some(&entries[i].1);
        }
        i += 1;
    }
    proof {
        lemma_first_match_none(m, p);
    }
    None
}

impl Plist {
    /// A copy of this tree.
    #[verifier::loop_isolation(false)]
    pub fn copy(&self) -> (r: Plist)
        ensures
            r.deep_view() == self.deep_view(),
        decreases self,
    {
        match self {
            Plist::Dictionary(entries) => {
                let mut out: Vec<(String, Plist)> = Vec::new();
                let mut i: usize = 0;
                while i < entries.len()
                    invariant
                        i <= entries.len(),
                        out@.len() == i,
                        forall|j: int|
                            0 <= j < i ==> (#[trigger] out@[j]).0@ == entries@[j].0@ && out@[j].1.deep_view()
                                == entries@[j].1.deep_view(),
                    decreases entries.len() - i,
                {
                    let value = entries[i].1.copy();
                    out.push((entries[i].0.clone(), value));
                    i += 1;
                }
                let r = Plist::Dictionary(out);
                assert(r.deep_view()->Dictionary_0 =~= self.deep_view()->Dictionary_0);
                r
            },
            Plist::Array(items) => {
                let mut out: Vec<Plist> = Vec::new();
                let mut i: usize = 0;
                while i < items.len()
                    invariant
                        i <= items.len(),
                        out@.len() == i,
                        forall|j: int|
                            0 <= j < i ==> (#[trigger] out@[j]).deep_view() == items@[j].deep_view(),
                    decreases items.len() - i,
                {
                    let value = items[i].copy();
                    out.push(value);
                    i += 1;
                }
                let r = Plist::Array(out);
                assert(r.deep_view()->Array_0 =~= self.deep_view()->Array_0);
                r
            },
            Plist::String(s) => Plist::String(s.clone()),
            Plist::Integer(n) => Plist::Integer(*n),
            Plist::Float(d) => Plist::Float(d.copy()),
            Plist::Boolean(b) => Plist::Boolean(*b),
            Plist::Data(bytes) => {
                let out = bytes.clone();
                assert(out@ =~= bytes@);
                Plist::Data(out)
            },
        }
    }

    /// The string, where this node is one.
    pub fn as_str(&self) -> (r: Option<&String>)
        ensures
            match r {
                Some(s) => self.deep_view() == PlistModel::String(s@),
                None => !(self.deep_view() is String),
            },
    {
        match self {
            Plist::String(s) => Some(s),
            _ => None,
        }
    }

    /// The items, where this node is an array.
    pub fn as_array(&self) -> (r: Option<&Vec<Plist>>)
        ensures
            match r {
                Some(items) => *self == Plist::Array(*items) && self.deep_view()
                    == PlistModel::Array(items.deep_view()),
                None => !(self.deep_view() is Array),
            },
    {
        match self {
            Plist::Array(items) => {
                proof {
                    lemma_items_model(*items);
                }
                Some(items)
            },
            _ => None,
        }
    }

    /// The entries, where this node is a dictionary.
    pub fn as_dict(&self) -> (r: Option<&Vec<(String, Plist)>>)
        ensures
            match r {
                Some(entries) => *self == Plist::Dictionary(*entries) && self.deep_view()
                    == PlistModel::Dictionary(entries_model(entries@)),
                None => !(self.deep_view() is Dictionary),
            },
    {
        match self {
            Plist::Dictionary(entries) => {
                proof {
                    lemma_entries_model(*entries);
                }
                Some(entries)
            },
            _ => None,
        }
    }

    /// The truth value, where this node is one.
    pub fn as_boolean(&self) -> (r: Option<bool>)
        ensures
            match r {
                Some(b) => self.deep_view() == PlistModel::Boolean(b),
                None => !(self.deep_view() is Boolean),
            },
    {
        match self {
            Plist::Boolean(b) => Some(*b),
            _ => None,
        }
    }

    /// The value under `key`, where this node is a dictionary that has one.
    pub fn get(&self, key: &str) -> (r: Option<&Plist>)
        ensures
            r.deep_view() == self.deep_view().get(key@),
    {
        match self {
            Plist::Dictionary(entries) => {
                proof {
                    lemma_entries_model(*entries);
                }
                dict_get(entries, key)
            },
            _ => None,
        }
    }
}

impl Clone for Plist {
    fn clone(&self) -> (r: Plist)
        ensures
            r.deep_view() == self.deep_view(),
    {
        self.copy()
    }
}

/// The model of the array items `items`.
pub proof fn lemma_items_model(items: Vec<Plist>)
    ensures
        Plist::Array(items).deep_view() == PlistModel::Array(items.deep_view()),
{
    assert(Plist::Array(items).deep_view()->Array_0 =~= items.deep_view());
}

impl Plist {
    /// A string node.
    pub fn string(text: &str) -> (r: Plist)
        ensures
            r.deep_view() == PlistModel::String(text@),
    {
        Plist::String(text.to_owned())
    }

    /// An array node.
    pub fn array(items: Vec<Plist>) -> (r: Plist)
        ensures
            r.deep_view() == PlistModel::Array(items.deep_view()),
    {
        proof {
            lemma_items_model(items);
        }
        Plist::Array(items)
    }

    /// A dictionary node.
    pub fn dictionary(entries: Vec<(String, Plist)>) -> (r: Plist)
        ensures
            r.deep_view() == PlistModel::Dictionary(entries_model(entries@)),
    {
        proof {
            lemma_entries_model(entries);
        }
        Plist::Dictionary(entries)
    }

    /// A dictionary node of two entries.
    pub fn pair(first_key: &str, first: Plist, second_key: &str, second: Plist) -> (r: Plist)
        ensures
            r.deep_view() == PlistModel::Dictionary(
                seq![(first_key@, first.deep_view()), (second_key@, second.deep_view())],
            ),
    {
        let mut entries: Vec<(String, Plist)> = Vec::new();
        entries.push((first_key.to_owned(), first));
        entries.push((second_key.to_owned(), second));
        assert(entries_model(entries@) =~= seq![
            (first_key@, first.deep_view()),
            (second_key@, second.deep_view()),
        ]);
        Plist::dictionary(entries)
    }
}

} // verus!
