//! A record that is written as a value tree and read again is the record
//! that it was.

use vstd::prelude::*;
use crate::codec::{
    is_scalar_char, lemma_affine_round_trip, lemma_codepoints_round_trip, lemma_node_round_trip,
    lemma_point_round_trip,
};
use crate::decimal::DecimalModel;
use crate::digits::lemma_digits_of_value;
use crate::error::ConversionErrorModel;
use crate::font::{
    AnchorModel, ComponentModel, FontMasterModel, FontModel, GlyphModel, GuideLineModel,
    InstanceModel, LayerModel, NodeModel, PathModel,
};
use crate::names::valid_name;
use crate::plist::{lookup, PlistModel};
use crate::records::{
    as_affine, as_node, as_point, component_keys, font_keys, glyph_keys, instance_keys,
    instance_slot_keys, layer_keys, master_keys, master_slot_keys, optional_array,
    optional_entry, optional_flag, optional_integer, optional_number, optional_text,
    slot_entries, slots_of,
};
use crate::schema::{
    as_flag, as_int, as_number, as_text, flag_node, lemma_lookup_push, number_node,
    optional_field, optional_record_list, record_list, records_of, scalar_field, unknown,
    unless_known,
};
use crate::seqs::lemma_collect_ok;

verus! {

/// The entries for the keys of a record with their values, each key where
/// it has a value, in the order of the keys.
pub open spec fn schema_entries(keys: Seq<Seq<char>>, values: Seq<Option<PlistModel>>) -> Seq<
    (Seq<char>, PlistModel),
>
    decreases keys.len(),
{
    if keys.len() == 0 || values.len() == 0 {
        Seq::empty()
    } else {
        schema_entries(keys.drop_last(), values.drop_last()) + optional_entry(
            keys.last(),
            values.last(),
        )
    }
}

/// The record knows none of the keys of the entries.
pub open spec fn none_known(entries: Seq<(Seq<char>, PlistModel)>, known: Seq<Seq<char>>) -> bool {
    forall|i: int| 0 <= i < entries.len() ==> !known.contains((#[trigger] entries[i]).0)
}

/// One more key with its value is one more entry, where it has a value.
pub proof fn lemma_schema_push(
    keys: Seq<Seq<char>>,
    values: Seq<Option<PlistModel>>,
    key: Seq<char>,
    value: Option<PlistModel>,
)
    requires
        keys.len() == values.len(),
    ensures
        schema_entries(keys.push(key), values.push(value)) == schema_entries(keys, values)
            + optional_entry(key, value),
{
    assert(keys.push(key).drop_last() =~= keys);
    assert(values.push(value).drop_last() =~= values);
}

/// The value under a key is that of the first part that has the key.
pub proof fn lemma_lookup_concat(
    a: Seq<(Seq<char>, PlistModel)>,
    b: Seq<(Seq<char>, PlistModel)>,
    key: Seq<char>,
)
    ensures
        lookup(a + b, key) == match lookup(a, key) {
            Some(v) => Some(v),
            None => lookup(b, key),
        },
    decreases b.len(),
{
    if b.len() == 0 {
        assert(a + b =~= a);
        crate::seqs::lemma_first_match_none(b, crate::plist::under_key(key));
    } else {
        let init = b.drop_last();
        let last = b.last();
        lemma_lookup_concat(a, init, key);
        assert(b =~= init.push(last));
        assert(a + b =~= (a + init).push(last));
        lemma_lookup_push(a + init, last, key);
        lemma_lookup_push(init, last, key);
    }
}

/// The value under a key among the entries of a record is the value of the
/// key, and no other key has it.
pub proof fn lemma_schema_lookup(
    keys: Seq<Seq<char>>,
    values: Seq<Option<PlistModel>>,
    key: Seq<char>,
)
    requires
        keys.no_duplicates(),
        keys.len() == values.len(),
    ensures
        forall|j: int| 0 <= j < keys.len() && keys[j] == key ==> lookup(
            schema_entries(keys, values),
            key,
        ) == values[j],
        !keys.contains(key) ==> lookup(schema_entries(keys, values), key) is None,
    decreases keys.len(),
{
    let p = crate::plist::under_key(key);
    if keys.len() == 0 {
        crate::seqs::lemma_first_match_none(schema_entries(keys, values), p);
    } else {
        let init_keys = keys.drop_last();
        let init_values = values.drop_last();
        let before = schema_entries(init_keys, init_values);
        let entry = optional_entry(keys.last(), values.last());
        assert(init_keys.no_duplicates()) by {
            assert forall|i: int, j: int|
                0 <= i < init_keys.len() && 0 <= j < init_keys.len() && i != j implies init_keys[i]
                != init_keys[j] by {
                assert(init_keys[i] == keys[i] && init_keys[j] == keys[j]);
            }
        }
        lemma_schema_lookup(init_keys, init_values, key);
        lemma_lookup_concat(before, entry, key);
        let n = keys.len() - 1;
        if keys[n] == key {
            assert(!init_keys.contains(key)) by {
                if init_keys.contains(key) {
                    let i = choose|i: int| 0 <= i < init_keys.len() && init_keys[i] == key;
                    assert(keys[i] == keys[n]);
                }
            }
            match values.last() {
                Some(v) => {
                    assert(p(entry[0]));
                    crate::seqs::lemma_first_match_at(entry, p, 0);
                },
                None => {
                    crate::seqs::lemma_first_match_none(entry, p);
                },
            }
        } else {
            crate::seqs::lemma_first_match_none(entry, p);
            assert forall|j: int| 0 <= j < keys.len() && keys[j] == key implies lookup(
                schema_entries(keys, values),
                key,
            ) == values[j] by {
                assert(init_keys[j] == keys[j]);
                assert(init_values[j] == values[j]);
            }
            if !keys.contains(key) {
                assert(!init_keys.contains(key)) by {
                    if init_keys.contains(key) {
                        let i = choose|i: int| 0 <= i < init_keys.len() && init_keys[i] == key;
                        assert(keys[i] == key);
                    }
                }
            }
        }
    }
}

/// What is not known of two parts is what is not known of each.
pub proof fn lemma_unknown_concat(
    a: Seq<(Seq<char>, PlistModel)>,
    b: Seq<(Seq<char>, PlistModel)>,
    known: Seq<Seq<char>>,
)
    ensures
        unknown(a + b, known) == unknown(a, known) + unknown(b, known),
    decreases b.len(),
{
    let g = |e: (Seq<char>, PlistModel)| unless_known(known, e);
    if b.len() == 0 {
        assert(a + b =~= a);
        assert(unknown(b, known) =~= Seq::empty());
        assert(unknown(a, known) + unknown(b, known) =~= unknown(a, known));
    } else {
        let init = b.drop_last();
        lemma_unknown_concat(a, init, known);
        assert((a + b).drop_last() =~= a + init);
        assert((a + b).last() == b.last());
        assert(unknown(a + b, known) =~= unknown(a, known) + unknown(b, known));
    }
}

/// Of the entries of a record, written before entries that it does not
/// know, those that it does not know are what is not known.
pub proof fn lemma_schema_unknown(
    keys: Seq<Seq<char>>,
    values: Seq<Option<PlistModel>>,
    other: Seq<(Seq<char>, PlistModel)>,
)
    requires
        keys.len() == values.len(),
        none_known(other, keys),
    ensures
        unknown(schema_entries(keys, values) + other, keys) == other,
{
    let fields = schema_entries(keys, values);
    lemma_unknown_concat(fields, other, keys);
    lemma_schema_known(keys, values, keys.len() as int);
    assert(keys.take(keys.len() as int) =~= keys);
    assert(values.take(values.len() as int) =~= values);
    lemma_unknown_of_known(fields, keys);
    lemma_unknown_of_unknown(other, keys);
    assert(Seq::<(Seq<char>, PlistModel)>::empty() + other =~= other);
}

proof fn lemma_schema_known(keys: Seq<Seq<char>>, values: Seq<Option<PlistModel>>, n: int)
    requires
        keys.len() == values.len(),
        0 <= n <= keys.len(),
    ensures
        forall|i: int|
            0 <= i < schema_entries(keys.take(n), values.take(n)).len() ==> keys.contains(
                (#[trigger] schema_entries(keys.take(n), values.take(n))[i]).0,
            ),
    decreases n,
{
    if n > 0 {
        lemma_schema_known(keys, values, n - 1);
        let k = keys.take(n);
        let v = values.take(n);
        assert(k.drop_last() =~= keys.take(n - 1));
        assert(v.drop_last() =~= values.take(n - 1));
        let before = schema_entries(keys.take(n - 1), values.take(n - 1));
        let entry = optional_entry(k.last(), v.last());
        assert(k.last() == keys[n - 1]);
        assert forall|i: int| 0 <= i < schema_entries(k, v).len() implies keys.contains(
            (#[trigger] schema_entries(k, v)[i]).0,
        ) by {
            if i < before.len() {
                assert(schema_entries(k, v)[i] == before[i]);
            } else {
                assert(schema_entries(k, v)[i] == entry[i - before.len()]);
            }
        }
    }
}

proof fn lemma_unknown_of_known(fields: Seq<(Seq<char>, PlistModel)>, known: Seq<Seq<char>>)
    requires
        forall|i: int| 0 <= i < fields.len() ==> known.contains((#[trigger] fields[i]).0),
    ensures
        unknown(fields, known) == Seq::<(Seq<char>, PlistModel)>::empty(),
    decreases fields.len(),
{
    if fields.len() == 0 {
        assert(unknown(fields, known) =~= Seq::empty());
    } else {
        let init = fields.drop_last();
        assert forall|i: int| 0 <= i < init.len() implies known.contains((#[trigger] init[i]).0) by {
            assert(init[i] == fields[i]);
        }
        lemma_unknown_of_known(init, known);
        assert(known.contains(fields[fields.len() - 1].0));
    }
}

proof fn lemma_unknown_of_unknown(other: Seq<(Seq<char>, PlistModel)>, known: Seq<Seq<char>>)
    requires
        none_known(other, known),
    ensures
        unknown(other, known) == other,
    decreases other.len(),
{
    if other.len() == 0 {
        assert(unknown(other, known) =~= other);
    } else {
        let init = other.drop_last();
        assert(none_known(init, known)) by {
            assert forall|i: int| 0 <= i < init.len() implies !known.contains(
                (#[trigger] init[i]).0,
            ) by {
                assert(init[i] == other[i]);
            }
        }
        lemma_unknown_of_unknown(init, known);
        assert(!known.contains(other[other.len() - 1].0));
        assert(unknown(other, known) =~= init.push(other.last()));
        assert(init.push(other.last()) =~= other);
    }
}

/// What a record reads of its own fields, written before entries that it
/// does not know: under each of its keys the value of that key, and as
/// unknown the entries that it does not know.
pub proof fn lemma_schema_read(
    keys: Seq<Seq<char>>,
    values: Seq<Option<PlistModel>>,
    other: Seq<(Seq<char>, PlistModel)>,
)
    requires
        keys.no_duplicates(),
        keys.len() == values.len(),
        none_known(other, keys),
    ensures
        forall|j: int|
            0 <= j < keys.len() ==> lookup(schema_entries(keys, values) + other, #[trigger] keys[j])
                == values[j],
        unknown(schema_entries(keys, values) + other, keys) == other,
{
    lemma_schema_unknown(keys, values, other);
    assert forall|j: int| 0 <= j < keys.len() implies lookup(
        schema_entries(keys, values) + other,
        #[trigger] keys[j],
    ) == values[j] by {
        lemma_schema_lookup(keys, values, keys[j]);
        lemma_lookup_concat(schema_entries(keys, values), other, keys[j]);
        assert(lookup(other, keys[j]) is None) by {
            let p = crate::plist::under_key(keys[j]);
            assert forall|i: int| 0 <= i < other.len() implies !p(#[trigger] other[i]) by {
                assert(!keys.contains(other[i].0));
            }
            crate::seqs::lemma_first_match_none(other, p);
        }
    }
}

/// The entries for the first keys of a record and one more key.
pub proof fn lemma_schema_take(keys: Seq<Seq<char>>, values: Seq<Option<PlistModel>>, n: int)
    requires
        keys.len() == values.len(),
        0 <= n < keys.len(),
    ensures
        schema_entries(keys.take(n + 1), values.take(n + 1)) == schema_entries(
            keys.take(n),
            values.take(n),
        ) + optional_entry(keys[n], values[n]),
{
    assert(keys.take(n + 1) =~= keys.take(n).push(keys[n]));
    assert(values.take(n + 1) =~= values.take(n).push(values[n]));
    lemma_schema_push(keys.take(n), values.take(n), keys[n], values[n]);
}

/// A number that was written as a node is read as that number.
pub proof fn lemma_number_node(d: DecimalModel)
    requires
        d.wf(),
    ensures
        as_number(number_node(d)) == Some(d),
{
    match d.as_int() {
        Some(n) => {
            lemma_digits_of_value(d.whole);
            assert(d.fraction =~= Seq::<u8>::empty());
            let m: nat = if n < 0 { (-n) as nat } else { n as nat };
            assert(m == crate::digits::digits_value(d.whole));
            assert(DecimalModel::of_int(n) == d);
        },
        None => {},
    }
}

/// Records that were written as an array are read as those records, where
/// each of them is read as it was.
pub proof fn lemma_list_round_trip<T>(
    xs: Seq<T>,
    key: Seq<char>,
    to: spec_fn(T) -> PlistModel,
    from: spec_fn(PlistModel) -> Result<T, ConversionErrorModel>,
)
    requires
        forall|i: int| 0 <= i < xs.len() ==> from(to(#[trigger] xs[i])) == Ok::<
            T,
            ConversionErrorModel,
        >(xs[i]),
    ensures
        records_of(PlistModel::Array(xs.map_values(to)), key, from) == Ok::<
            Seq<T>,
            ConversionErrorModel,
        >(xs),
{
    let items = xs.map_values(to);
    let read = items.map_values(from);
    assert forall|j: int| 0 <= j < read.len() implies (#[trigger] read[j]) == Ok::<
        T,
        ConversionErrorModel,
    >(xs[j]) by {
        assert(items[j] == to(xs[j]));
    }
    lemma_collect_ok(read, xs);
}

/// The keys of paths.
pub open spec fn path_keys() -> Seq<Seq<char>> {
    seq!["closed"@, "nodes"@]
}

/// The keys of anchors.
pub open spec fn anchor_keys() -> Seq<Seq<char>> {
    seq!["name"@, "position"@]
}

/// The keys of guide lines.
pub open spec fn guide_line_keys() -> Seq<Seq<char>> {
    seq!["angle"@, "position"@]
}

proof fn lemma_path_keys()
    ensures
        path_keys().no_duplicates(),
{
    reveal_strlit("closed");
    reveal_strlit("nodes");
    let k = path_keys();
    assert forall|i: int, j: int| 0 <= i < k.len() && 0 <= j < k.len() && i != j implies k[i]
        != k[j] by {
        if k[i] == k[j] {
            assert(k[i].len() == k[j].len());
        }
    }
}

proof fn lemma_anchor_keys()
    ensures
        anchor_keys().no_duplicates(),
{
    reveal_strlit("name");
    reveal_strlit("position");
    let k = anchor_keys();
    assert forall|i: int, j: int| 0 <= i < k.len() && 0 <= j < k.len() && i != j implies k[i]
        != k[j] by {
        if k[i] == k[j] {
            assert(k[i].len() == k[j].len());
        }
    }
}

proof fn lemma_guide_line_keys()
    ensures
        guide_line_keys().no_duplicates(),
{
    reveal_strlit("angle");
    reveal_strlit("position");
    let k = guide_line_keys();
    assert forall|i: int, j: int| 0 <= i < k.len() && 0 <= j < k.len() && i != j implies k[i]
        != k[j] by {
        if k[i] == k[j] {
            assert(k[i].len() == k[j].len());
        }
    }
}

proof fn lemma_component_keys()
    ensures
        component_keys().no_duplicates(),
{
    reveal_strlit("name");
    reveal_strlit("transform");
    let k = component_keys();
    assert forall|i: int, j: int| 0 <= i < k.len() && 0 <= j < k.len() && i != j implies k[i]
        != k[j] by {
        if k[i] == k[j] {
            assert(k[i].len() == k[j].len());
        }
    }
}

proof fn lemma_layer_keys()
    ensures
        layer_keys().no_duplicates(),
{
    reveal_strlit("name");
    reveal_strlit("associatedMasterId");
    reveal_strlit("layerId");
    reveal_strlit("width");
    reveal_strlit("paths");
    reveal_strlit("components");
    reveal_strlit("anchors");
    reveal_strlit("guideLines");
    let k = layer_keys();
    assert forall|i: int, j: int| 0 <= i < k.len() && 0 <= j < k.len() && i != j implies k[i]
        != k[j] by {
        if k[i] == k[j] {
            assert(k[i].len() == k[j].len());
            assert(k[i][0] == k[j][0]);
        }
    }
}

proof fn lemma_glyph_keys()
    ensures
        glyph_keys().no_duplicates(),
{
    reveal_strlit("unicode");
    reveal_strlit("layers");
    reveal_strlit("glyphname");
    reveal_strlit("leftKerningGroup");
    reveal_strlit("rightKerningGroup");
    let k = glyph_keys();
    assert forall|i: int, j: int| 0 <= i < k.len() && 0 <= j < k.len() && i != j implies k[i]
        != k[j] by {
        if k[i] == k[j] {
            assert(k[i].len() == k[j].len());
        }
    }
}

proof fn lemma_master_keys()
    ensures
        master_keys().no_duplicates(),
{
    reveal_strlit("id");
    reveal_strlit("ascender");
    reveal_strlit("capHeight");
    reveal_strlit("descender");
    reveal_strlit("xHeight");
    reveal_strlit("italicAngle");
    reveal_strlit("weightValue");
    reveal_strlit("widthValue");
    reveal_strlit("customValue");
    reveal_strlit("customValue1");
    reveal_strlit("customValue2");
    reveal_strlit("customValue3");
    let k = master_keys();
    assert forall|i: int, j: int| 0 <= i < k.len() && 0 <= j < k.len() && i != j implies k[i]
        != k[j] by {
        if k[i] == k[j] {
            assert(k[i].len() == k[j].len());
            assert(k[i][0] == k[j][0]);
            assert(k[i].last() == k[j].last());
        }
    }
}

proof fn lemma_instance_keys()
    ensures
        instance_keys().no_duplicates(),
{
    reveal_strlit("name");
    reveal_strlit("interpolationWeight");
    reveal_strlit("interpolationWidth");
    reveal_strlit("interpolationCustom");
    reveal_strlit("interpolationCustom1");
    reveal_strlit("interpolationCustom2");
    reveal_strlit("interpolationCustom3");
    reveal_strlit("isBold");
    reveal_strlit("isItalic");
    reveal_strlit("linkStyle");
    let k = instance_keys();
    assert forall|i: int, j: int| 0 <= i < k.len() && 0 <= j < k.len() && i != j implies k[i]
        != k[j] by {
        if k[i] == k[j] {
            assert(k[i].len() == k[j].len());
            assert(k[i].last() == k[j].last());
        }
    }
}

proof fn lemma_font_keys()
    ensures
        font_keys().no_duplicates(),
{
    reveal_strlit("familyName");
    reveal_strlit("versionMajor");
    reveal_strlit("versionMinor");
    reveal_strlit("unitsPerEm");
    reveal_strlit("glyphs");
    reveal_strlit("fontMaster");
    reveal_strlit("instances");
    reveal_strlit("disablesAutomaticAlignment");
    let k = font_keys();
    assert forall|i: int, j: int| 0 <= i < k.len() && 0 <= j < k.len() && i != j implies k[i]
        != k[j] by {
        if k[i] == k[j] {
            assert(k[i].len() == k[j].len());
            assert(k[i][0] == k[j][0]);
            assert(k[i][8] == k[j][8]);
        }
    }
}

/// A node of a path whose numbers are in their shortest form is read as it
/// was written.
pub proof fn lemma_node_identity(n: NodeModel)
    requires
        n.pt.x.wf(),
        n.pt.y.wf(),
    ensures
        crate::records::as_node(n.to_plist()) == Ok::<NodeModel, ConversionErrorModel>(n),
{
    lemma_node_round_trip(n);
}

impl PathModel {
    /// The numbers of the path are in their shortest form.
    pub open spec fn valid(self) -> bool {
        forall|i: int|
            0 <= i < self.nodes.len() ==> (#[trigger] self.nodes[i]).pt.x.wf()
                && self.nodes[i].pt.y.wf()
    }
}

/// A path is read as it was written.
pub proof fn lemma_path_identity(x: PathModel)
    requires
        x.valid(),
    ensures
        PathModel::from_plist(x.to_plist()) == Ok::<PathModel, ConversionErrorModel>(x),
{
    let keys = path_keys();
    let nodes = PlistModel::Array(x.nodes.map_values(|n: NodeModel| n.to_plist()));
    let values = seq![Some(flag_node(x.closed)), Some(nodes)];
    lemma_path_keys();
    lemma_schema_take(keys, values, 0);
    lemma_schema_take(keys, values, 1);
    assert(keys.take(0) =~= Seq::<Seq<char>>::empty());
    assert(keys.take(2) =~= keys);
    assert(values.take(2) =~= values);
    let entries = seq![("closed"@, flag_node(x.closed)), ("nodes"@, nodes)];
    assert(entries =~= schema_entries(keys, values) + Seq::empty());
    lemma_schema_read(keys, values, Seq::empty());
    assert(lookup(entries, keys[0]) == values[0]);
    assert(lookup(entries, keys[1]) == values[1]);
    assert forall|i: int| 0 <= i < x.nodes.len() implies crate::records::as_node(
        (#[trigger] x.nodes[i]).to_plist(),
    ) == Ok::<NodeModel, ConversionErrorModel>(x.nodes[i]) by {
        lemma_node_identity(x.nodes[i]);
    }
    lemma_list_round_trip(
        x.nodes,
        "nodes"@,
        |n: NodeModel| n.to_plist(),
        |p: PlistModel| crate::records::as_node(p),
    );
}

/// An optional number is in its shortest form.
pub open spec fn optional_wf(d: Option<DecimalModel>) -> bool {
    match d {
        Some(d) => d.wf(),
        None => true,
    }
}

proof fn lemma_read_text(entries: Seq<(Seq<char>, PlistModel)>, key: Seq<char>, s: Seq<char>)
    requires
        lookup(entries, key) == Some(PlistModel::String(s)),
    ensures
        scalar_field(entries, key, |p: PlistModel| as_text(p)) == Ok::<
            Seq<char>,
            ConversionErrorModel,
        >(s),
{
}

proof fn lemma_read_int(entries: Seq<(Seq<char>, PlistModel)>, key: Seq<char>, n: i64)
    requires
        lookup(entries, key) == Some(PlistModel::Integer(n)),
    ensures
        scalar_field(entries, key, |p: PlistModel| as_int(p)) == Ok::<i64, ConversionErrorModel>(n),
{
}

proof fn lemma_read_optional_text(
    entries: Seq<(Seq<char>, PlistModel)>,
    key: Seq<char>,
    s: Option<Seq<char>>,
)
    requires
        lookup(entries, key) == optional_text(s),
    ensures
        optional_field(entries, key, |p: PlistModel| as_text(p)) == Ok::<
            Option<Seq<char>>,
            ConversionErrorModel,
        >(s),
{
}

proof fn lemma_read_optional_int(
    entries: Seq<(Seq<char>, PlistModel)>,
    key: Seq<char>,
    n: Option<i64>,
)
    requires
        lookup(entries, key) == optional_integer(n),
    ensures
        optional_field(entries, key, |p: PlistModel| as_int(p)) == Ok::<
            Option<i64>,
            ConversionErrorModel,
        >(n),
{
}

proof fn lemma_read_optional_flag(
    entries: Seq<(Seq<char>, PlistModel)>,
    key: Seq<char>,
    b: Option<bool>,
)
    requires
        lookup(entries, key) == optional_flag(b),
    ensures
        optional_field(entries, key, |p: PlistModel| as_flag(p)) == Ok::<
            Option<bool>,
            ConversionErrorModel,
        >(b),
{
}

proof fn lemma_read_number(entries: Seq<(Seq<char>, PlistModel)>, key: Seq<char>, d: DecimalModel)
    requires
        lookup(entries, key) == Some(number_node(d)),
        d.wf(),
    ensures
        scalar_field(entries, key, |p: PlistModel| as_number(p)) == Ok::<
            DecimalModel,
            ConversionErrorModel,
        >(d),
{
    lemma_number_node(d);
}

proof fn lemma_read_optional_number(
    entries: Seq<(Seq<char>, PlistModel)>,
    key: Seq<char>,
    d: Option<DecimalModel>,
)
    requires
        lookup(entries, key) == optional_number(d),
        optional_wf(d),
    ensures
        optional_field(entries, key, |p: PlistModel| as_number(p)) == Ok::<
            Option<DecimalModel>,
            ConversionErrorModel,
        >(d),
{
    if d is Some {
        lemma_number_node(d->0);
    }
}

proof fn lemma_read_point(
    entries: Seq<(Seq<char>, PlistModel)>,
    key: Seq<char>,
    p: crate::geometry::PointModel,
)
    requires
        lookup(entries, key) == Some(PlistModel::String(crate::codec::point_text(p))),
        p.x.wf(),
        p.y.wf(),
    ensures
        scalar_field(entries, key, |p: PlistModel| as_point(p)) == Ok::<
            crate::geometry::PointModel,
            ConversionErrorModel,
        >(p),
{
    lemma_point_round_trip(p);
}

proof fn lemma_read_list<T>(
    entries: Seq<(Seq<char>, PlistModel)>,
    key: Seq<char>,
    xs: Seq<T>,
    to: spec_fn(T) -> PlistModel,
    from: spec_fn(PlistModel) -> Result<T, ConversionErrorModel>,
)
    requires
        lookup(entries, key) == Some(PlistModel::Array(xs.map_values(to))),
        forall|i: int| 0 <= i < xs.len() ==> from(to(#[trigger] xs[i])) == Ok::<
            T,
            ConversionErrorModel,
        >(xs[i]),
    ensures
        record_list(entries, key, from) == Ok::<Seq<T>, ConversionErrorModel>(xs),
{
    lemma_list_round_trip(xs, key, to, from);
}

proof fn lemma_read_optional_list<T>(
    entries: Seq<(Seq<char>, PlistModel)>,
    key: Seq<char>,
    xs: Option<Seq<T>>,
    to: spec_fn(T) -> PlistModel,
    from: spec_fn(PlistModel) -> Result<T, ConversionErrorModel>,
)
    requires
        lookup(entries, key) == optional_array(xs, to),
        xs matches Some(s) ==> forall|i: int| 0 <= i < s.len() ==> from(to(#[trigger] s[i]))
            == Ok::<T, ConversionErrorModel>(s[i]),
    ensures
        optional_record_list(entries, key, from) == Ok::<Option<Seq<T>>, ConversionErrorModel>(xs),
{
    if xs is Some {
        lemma_list_round_trip(xs->0, key, to, from);
    }
}

proof fn lemma_read_slots(
    entries: Seq<(Seq<char>, PlistModel)>,
    keys: Seq<Seq<char>>,
    slots: Seq<Option<DecimalModel>>,
)
    requires
        keys.len() == 6,
        slots.len() == 6,
        forall|i: int| 0 <= i < 6 ==> lookup(entries, #[trigger] keys[i]) == optional_number(slots[i]),
        forall|i: int| 0 <= i < 6 ==> optional_wf(#[trigger] slots[i]),
    ensures
        slots_of(entries, keys) == Ok::<Seq<Option<DecimalModel>>, ConversionErrorModel>(slots),
{
    assert(optional_wf(slots[0]) && optional_wf(slots[1]) && optional_wf(slots[2]) && optional_wf(
        slots[3],
    ) && optional_wf(slots[4]) && optional_wf(slots[5]));
    lemma_read_optional_number(entries, keys[0], slots[0]);
    lemma_read_optional_number(entries, keys[1], slots[1]);
    lemma_read_optional_number(entries, keys[2], slots[2]);
    lemma_read_optional_number(entries, keys[3], slots[3]);
    lemma_read_optional_number(entries, keys[4], slots[4]);
    lemma_read_optional_number(entries, keys[5], slots[5]);
    assert(slots =~= seq![slots[0], slots[1], slots[2], slots[3], slots[4], slots[5]]);
}

impl AnchorModel {
    /// The numbers of the anchor are in their shortest form.
    pub open spec fn valid(self) -> bool {
        self.position.x.wf() && self.position.y.wf()
    }
}

/// An anchor is read as it was written.
pub proof fn lemma_anchor_identity(x: AnchorModel)
    requires
        x.valid(),
    ensures
        AnchorModel::from_plist(x.to_plist()) == Ok::<AnchorModel, ConversionErrorModel>(x),
{
    let keys = anchor_keys();
    let position = PlistModel::String(crate::codec::point_text(x.position));
    let values = seq![Some(PlistModel::String(x.name)), Some(position)];
    lemma_anchor_keys();
    lemma_schema_take(keys, values, 0);
    lemma_schema_take(keys, values, 1);
    assert(keys.take(0) =~= Seq::<Seq<char>>::empty());
    assert(keys.take(2) =~= keys);
    assert(values.take(2) =~= values);
    let entries = seq![("name"@, PlistModel::String(x.name)), ("position"@, position)];
    assert(entries =~= schema_entries(keys, values) + Seq::empty());
    lemma_schema_read(keys, values, Seq::empty());
    assert(lookup(entries, keys[0]) == values[0]);
    assert(lookup(entries, keys[1]) == values[1]);
    lemma_read_text(entries, "name"@, x.name);
    lemma_read_point(entries, "position"@, x.position);
}

impl GuideLineModel {
    /// The numbers of the guide line are in their shortest form.
    pub open spec fn valid(self) -> bool {
        optional_wf(self.angle) && self.position.x.wf() && self.position.y.wf()
    }
}

/// A guide line is read as it was written.
pub proof fn lemma_guide_line_identity(x: GuideLineModel)
    requires
        x.valid(),
    ensures
        GuideLineModel::from_plist(x.to_plist()) == Ok::<GuideLineModel, ConversionErrorModel>(x),
{
    let keys = guide_line_keys();
    let position = PlistModel::String(crate::codec::point_text(x.position));
    let values = seq![optional_number(x.angle), Some(position)];
    lemma_guide_line_keys();
    lemma_schema_take(keys, values, 0);
    lemma_schema_take(keys, values, 1);
    assert(keys.take(0) =~= Seq::<Seq<char>>::empty());
    assert(keys.take(2) =~= keys);
    assert(values.take(2) =~= values);
    let entries = optional_entry("angle"@, optional_number(x.angle)) + seq![
        ("position"@, position),
    ];
    assert(entries =~= schema_entries(keys, values) + Seq::empty());
    lemma_schema_read(keys, values, Seq::empty());
    assert(lookup(entries, keys[0]) == values[0]);
    assert(lookup(entries, keys[1]) == values[1]);
    lemma_read_optional_number(entries, "angle"@, x.angle);
    lemma_read_point(entries, "position"@, x.position);
}

impl ComponentModel {
    /// The values of the keys of a component, in the order of the keys.
    pub open spec fn values(self) -> Seq<Option<PlistModel>> {
        seq![
            Some(PlistModel::String(self.name)),
            match self.transform {
                Some(t) => Some(PlistModel::String(crate::codec::affine_text(t))),
                None => None,
            },
        ]
    }

    /// The numbers of the component are in their shortest form, and what it
    /// keeps besides its fields stands under keys that it does not know.
    pub open spec fn valid(self) -> bool {
        &&& self.transform matches Some(t) ==> t.x_scale.wf() && t.xy_scale.wf() && t.yx_scale.wf()
            && t.y_scale.wf() && t.x_offset.wf() && t.y_offset.wf()
        &&& none_known(self.other_stuff, component_keys())
    }
}

/// The entries for the fields of a component are those for its keys with
/// their values.
proof fn lemma_component_fields(x: ComponentModel)
    ensures
        x.fields() == schema_entries(component_keys(), x.values()),
{
    let keys = component_keys();
    let values = x.values();
    lemma_schema_take(keys, values, 0);
    lemma_schema_take(keys, values, 1);
    assert(keys.take(0) =~= Seq::<Seq<char>>::empty());
    assert(keys.take(2) =~= keys);
    assert(values.take(2) =~= values);
    assert(x.fields() =~= schema_entries(keys, values));
}

/// A component is read as it was written.
pub proof fn lemma_component_identity(x: ComponentModel)
    requires
        x.valid(),
    ensures
        ComponentModel::from_plist(x.to_plist()) == Ok::<ComponentModel, ConversionErrorModel>(x),
{
    let keys = component_keys();
    let values = x.values();
    lemma_component_keys();
    lemma_component_fields(x);
    let entries = x.fields() + x.other_stuff;
    lemma_schema_read(keys, values, x.other_stuff);
    assert(lookup(entries, keys[0]) == values[0]);
    assert(lookup(entries, keys[1]) == values[1]);
    lemma_read_text(entries, "name"@, x.name);
    if x.transform is Some {
        lemma_affine_round_trip(x.transform->0);
    }
    assert(optional_field(entries, "transform"@, |p: PlistModel| as_affine(p)) == Ok::<
        Option<crate::geometry::AffineModel>,
        ConversionErrorModel,
    >(x.transform));
}

impl LayerModel {
    /// The values of the keys of a layer, in the order of the keys.
    pub open spec fn values(self) -> Seq<Option<PlistModel>> {
        seq![
            optional_text(self.name),
            optional_text(self.associated_master_id),
            Some(PlistModel::String(self.layer_id)),
            Some(number_node(self.width)),
            optional_array(self.paths, |x: PathModel| x.to_plist()),
            optional_array(self.components, |x: ComponentModel| x.to_plist()),
            optional_array(self.anchors, |x: AnchorModel| x.to_plist()),
            optional_array(self.guide_lines, |x: GuideLineModel| x.to_plist()),
        ]
    }

    /// The numbers of the layer are in their shortest form, and what it
    /// keeps besides its fields stands under keys that it does not know.
    pub open spec fn valid(self) -> bool {
        &&& self.width.wf()
        &&& self.paths matches Some(s) ==> forall|i: int|
            0 <= i < s.len() ==> (#[trigger] s[i]).valid()
        &&& self.components matches Some(s) ==> forall|i: int|
            0 <= i < s.len() ==> (#[trigger] s[i]).valid()
        &&& self.anchors matches Some(s) ==> forall|i: int|
            0 <= i < s.len() ==> (#[trigger] s[i]).valid()
        &&& self.guide_lines matches Some(s) ==> forall|i: int|
            0 <= i < s.len() ==> (#[trigger] s[i]).valid()
        &&& none_known(self.other_stuff, layer_keys())
    }
}

/// The entries for the fields of a layer are those for its keys with
/// their values.
proof fn lemma_layer_fields(x: LayerModel)
    ensures
        x.fields() == schema_entries(layer_keys(), x.values()),
{
    let k = layer_keys();
    let v = x.values();
    let none = Seq::<(Seq<char>, PlistModel)>::empty();
    assert(k.take(0) =~= Seq::<Seq<char>>::empty());
    lemma_schema_take(k, v, 0);
    let p1 = optional_entry(k[0], v[0]);
    assert(none + p1 =~= p1);
    lemma_schema_take(k, v, 1);
    let p2 = p1 + optional_entry(k[1], v[1]);
    lemma_schema_take(k, v, 2);
    lemma_schema_take(k, v, 3);
    let p4 = p2 + seq![(k[2], v[2]->0), (k[3], v[3]->0)];
    assert(p4 =~= p2 + optional_entry(k[2], v[2]) + optional_entry(k[3], v[3]));
    lemma_schema_take(k, v, 4);
    let p5 = p4 + optional_entry(k[4], v[4]);
    lemma_schema_take(k, v, 5);
    let p6 = p5 + optional_entry(k[5], v[5]);
    lemma_schema_take(k, v, 6);
    let p7 = p6 + optional_entry(k[6], v[6]);
    lemma_schema_take(k, v, 7);
    let p8 = p7 + optional_entry(k[7], v[7]);
    assert(k.take(8) =~= k);
    assert(v.take(8) =~= v);
    assert(x.fields() == p8);
}

proof fn lemma_layer_entries(x: LayerModel)
    requires
        none_known(x.other_stuff, layer_keys()),
    ensures
        forall|j: int|
            0 <= j < 8 ==> lookup(x.fields() + x.other_stuff, #[trigger] layer_keys()[j])
                == x.values()[j],
        unknown(x.fields() + x.other_stuff, layer_keys()) == x.other_stuff,
{
    lemma_layer_keys();
    lemma_layer_fields(x);
    lemma_schema_read(layer_keys(), x.values(), x.other_stuff);
}

/// A layer is read as it was written.
pub proof fn lemma_layer_identity(x: LayerModel)
    requires
        x.valid(),
    ensures
        LayerModel::from_plist(x.to_plist()) == Ok::<LayerModel, ConversionErrorModel>(x),
{
    let entries = x.fields() + x.other_stuff;
    let keys = layer_keys();
    lemma_layer_entries(x);
    assert(lookup(entries, keys[0]) == x.values()[0]);
    assert(lookup(entries, keys[1]) == x.values()[1]);
    assert(lookup(entries, keys[2]) == x.values()[2]);
    assert(lookup(entries, keys[3]) == x.values()[3]);
    assert(lookup(entries, keys[4]) == x.values()[4]);
    assert(lookup(entries, keys[5]) == x.values()[5]);
    assert(lookup(entries, keys[6]) == x.values()[6]);
    assert(lookup(entries, keys[7]) == x.values()[7]);
    lemma_read_optional_text(entries, "name"@, x.name);
    lemma_read_optional_text(entries, "associatedMasterId"@, x.associated_master_id);
    lemma_read_text(entries, "layerId"@, x.layer_id);
    lemma_read_number(entries, "width"@, x.width);
    if x.paths is Some {
        let s = x.paths->0;
        assert forall|i: int| 0 <= i < s.len() implies PathModel::from_plist(
            (#[trigger] s[i]).to_plist(),
        ) == Ok::<PathModel, ConversionErrorModel>(s[i]) by {
            lemma_path_identity(s[i]);
        }
    }
    lemma_read_optional_list(
        entries,
        "paths"@,
        x.paths,
        |x: PathModel| x.to_plist(),
        |p: PlistModel| PathModel::from_plist(p),
    );
    if x.components is Some {
        let s = x.components->0;
        assert forall|i: int| 0 <= i < s.len() implies ComponentModel::from_plist(
            (#[trigger] s[i]).to_plist(),
        ) == Ok::<ComponentModel, ConversionErrorModel>(s[i]) by {
            lemma_component_identity(s[i]);
        }
    }
    lemma_read_optional_list(
        entries,
        "components"@,
        x.components,
        |x: ComponentModel| x.to_plist(),
        |p: PlistModel| ComponentModel::from_plist(p),
    );
    if x.anchors is Some {
        let s = x.anchors->0;
        assert forall|i: int| 0 <= i < s.len() implies AnchorModel::from_plist(
            (#[trigger] s[i]).to_plist(),
        ) == Ok::<AnchorModel, ConversionErrorModel>(s[i]) by {
            lemma_anchor_identity(s[i]);
        }
    }
    lemma_read_optional_list(
        entries,
        "anchors"@,
        x.anchors,
        |x: AnchorModel| x.to_plist(),
        |p: PlistModel| AnchorModel::from_plist(p),
    );
    if x.guide_lines is Some {
        let s = x.guide_lines->0;
        assert forall|i: int| 0 <= i < s.len() implies GuideLineModel::from_plist(
            (#[trigger] s[i]).to_plist(),
        ) == Ok::<GuideLineModel, ConversionErrorModel>(s[i]) by {
            lemma_guide_line_identity(s[i]);
        }
    }
    lemma_read_optional_list(
        entries,
        "guideLines"@,
        x.guide_lines,
        |x: GuideLineModel| x.to_plist(),
        |p: PlistModel| GuideLineModel::from_plist(p),
    );
}

impl GlyphModel {
    /// The values of the keys of a glyph, in the order of the keys.
    pub open spec fn values(self) -> Seq<Option<PlistModel>> {
        seq![
            match self.unicode {
                Some(c) => Some(PlistModel::String(crate::codec::codepoints_text(c))),
                None => None,
            },
            Some(PlistModel::Array(self.layers.map_values(|x: LayerModel| x.to_plist()))),
            Some(PlistModel::String(self.glyphname)),
            optional_text(self.left_kerning_group),
            optional_text(self.right_kerning_group),
        ]
    }

    /// The glyph has a name that a glyph can have and code points that are
    /// all different, its layers are valid, and what it keeps besides its
    /// fields stands under keys that it does not know.
    pub open spec fn valid(self) -> bool {
        &&& valid_name(self.glyphname)
        &&& self.unicode matches Some(c) ==> c.no_duplicates() && forall|i: int|
            0 <= i < c.len() ==> is_scalar_char(#[trigger] c[i])
        &&& forall|i: int| 0 <= i < self.layers.len() ==> (#[trigger] self.layers[i]).valid()
        &&& none_known(self.other_stuff, glyph_keys())
    }
}

/// The entries for the fields of a glyph are those for its keys with their
/// values.
proof fn lemma_glyph_fields(x: GlyphModel)
    ensures
        x.fields() == schema_entries(glyph_keys(), x.values()),
{
    let keys = glyph_keys();
    let values = x.values();
    lemma_schema_take(keys, values, 0);
    lemma_schema_take(keys, values, 1);
    lemma_schema_take(keys, values, 2);
    lemma_schema_take(keys, values, 3);
    lemma_schema_take(keys, values, 4);
    assert(keys.take(0) =~= Seq::<Seq<char>>::empty());
    assert(keys.take(5) =~= keys);
    assert(values.take(5) =~= values);
    assert(x.fields() =~= schema_entries(keys, values));
}

proof fn lemma_glyph_entries(x: GlyphModel)
    requires
        none_known(x.other_stuff, glyph_keys()),
    ensures
        forall|j: int|
            0 <= j < 5 ==> lookup(x.fields() + x.other_stuff, #[trigger] glyph_keys()[j])
                == x.values()[j],
        unknown(x.fields() + x.other_stuff, glyph_keys()) == x.other_stuff,
{
    lemma_glyph_keys();
    lemma_glyph_fields(x);
    lemma_schema_read(glyph_keys(), x.values(), x.other_stuff);
}

/// A glyph is read as it was written.
pub proof fn lemma_glyph_identity(x: GlyphModel)
    requires
        x.valid(),
    ensures
        GlyphModel::from_plist(x.to_plist()) == Ok::<GlyphModel, ConversionErrorModel>(x),
{
    let entries = x.fields() + x.other_stuff;
    let keys = glyph_keys();
    lemma_glyph_entries(x);
    assert(lookup(entries, keys[0]) == x.values()[0]);
    assert(lookup(entries, keys[1]) == x.values()[1]);
    assert(lookup(entries, keys[2]) == x.values()[2]);
    assert(lookup(entries, keys[3]) == x.values()[3]);
    assert(lookup(entries, keys[4]) == x.values()[4]);
    if x.unicode is Some {
        lemma_codepoints_round_trip(x.unicode->0);
    }
    assert(optional_field(
        entries,
        "unicode"@,
        |p: PlistModel| crate::codec::codepoints_of_plist(p),
    ) == Ok::<Option<Seq<char>>, ConversionErrorModel>(x.unicode));
    assert forall|i: int| 0 <= i < x.layers.len() implies LayerModel::from_plist(
        (#[trigger] x.layers[i]).to_plist(),
    ) == Ok::<LayerModel, ConversionErrorModel>(x.layers[i]) by {
        lemma_layer_identity(x.layers[i]);
    }
    lemma_read_list(
        entries,
        "layers"@,
        x.layers,
        |x: LayerModel| x.to_plist(),
        |p: PlistModel| LayerModel::from_plist(p),
    );
    assert(crate::records::name_field(entries) == Ok::<Seq<char>, ConversionErrorModel>(
        x.glyphname,
    ));
    lemma_read_optional_text(entries, "leftKerningGroup"@, x.left_kerning_group);
    lemma_read_optional_text(entries, "rightKerningGroup"@, x.right_kerning_group);
}

impl FontMasterModel {
    /// The values of the keys of a master, in the order of the keys.
    pub open spec fn values(self) -> Seq<Option<PlistModel>> {
        seq![
            Some(PlistModel::String(self.id)),
            optional_integer(self.ascender),
            optional_integer(self.cap_height),
            optional_integer(self.descender),
            optional_integer(self.x_height),
            optional_number(self.italic_angle),
            optional_number(self.weight_value),
            optional_number(self.width_value),
            optional_number(self.custom_value),
            optional_number(self.custom_value1),
            optional_number(self.custom_value2),
            optional_number(self.custom_value3),
        ]
    }

    /// The numbers of the master are in their shortest form, and what it
    /// keeps besides its fields stands under keys that it does not know.
    pub open spec fn valid(self) -> bool {
        &&& optional_wf(self.italic_angle)
        &&& optional_wf(self.weight_value)
        &&& optional_wf(self.width_value)
        &&& optional_wf(self.custom_value)
        &&& optional_wf(self.custom_value1)
        &&& optional_wf(self.custom_value2)
        &&& optional_wf(self.custom_value3)
        &&& none_known(self.other_stuff, master_keys())
    }
}

/// The entries for six slots are one entry after the other.
proof fn lemma_slot_entries(
    before: Seq<(Seq<char>, PlistModel)>,
    keys: Seq<Seq<char>>,
    slots: Seq<Option<DecimalModel>>,
)
    ensures
        before + slot_entries(keys, slots) == before + optional_entry(
            keys[0],
            optional_number(slots[0]),
        ) + optional_entry(keys[1], optional_number(slots[1])) + optional_entry(
            keys[2],
            optional_number(slots[2]),
        ) + optional_entry(keys[3], optional_number(slots[3])) + optional_entry(
            keys[4],
            optional_number(slots[4]),
        ) + optional_entry(keys[5], optional_number(slots[5])),
{
    let a = optional_entry(keys[0], optional_number(slots[0]));
    let b = optional_entry(keys[1], optional_number(slots[1]));
    let c = optional_entry(keys[2], optional_number(slots[2]));
    let d = optional_entry(keys[3], optional_number(slots[3]));
    let e = optional_entry(keys[4], optional_number(slots[4]));
    let f = optional_entry(keys[5], optional_number(slots[5]));
    assert(before + (a + b + c + d + e + f) =~= before + a + b + c + d + e + f);
}

/// The entries for the fields of a master are those for its keys with
/// their values.
proof fn lemma_master_fields(x: FontMasterModel)
    ensures
        x.fields() == schema_entries(master_keys(), x.values()),
{
    let k = master_keys();
    let v = x.values();
    let none = Seq::<(Seq<char>, PlistModel)>::empty();
    assert(k.take(0) =~= Seq::<Seq<char>>::empty());
    lemma_schema_take(k, v, 0);
    let p1 = seq![(k[0], v[0]->0)];
    assert(none + optional_entry(k[0], v[0]) =~= p1);
    lemma_schema_take(k, v, 1);
    let p2 = p1 + optional_entry(k[1], v[1]);
    lemma_schema_take(k, v, 2);
    let p3 = p2 + optional_entry(k[2], v[2]);
    lemma_schema_take(k, v, 3);
    let p4 = p3 + optional_entry(k[3], v[3]);
    lemma_schema_take(k, v, 4);
    let p5 = p4 + optional_entry(k[4], v[4]);
    lemma_schema_take(k, v, 5);
    let p6 = p5 + optional_entry(k[5], v[5]);
    lemma_schema_take(k, v, 6);
    lemma_schema_take(k, v, 7);
    lemma_schema_take(k, v, 8);
    lemma_schema_take(k, v, 9);
    lemma_schema_take(k, v, 10);
    lemma_schema_take(k, v, 11);
    lemma_slot_entries(p6, master_slot_keys(), x.slots());
    assert(k.take(12) =~= k);
    assert(v.take(12) =~= v);
    assert(x.fields() == p6 + slot_entries(master_slot_keys(), x.slots()));
}

proof fn lemma_master_entries(x: FontMasterModel)
    requires
        none_known(x.other_stuff, master_keys()),
    ensures
        forall|j: int|
            0 <= j < 12 ==> lookup(x.fields() + x.other_stuff, #[trigger] master_keys()[j])
                == x.values()[j],
        unknown(x.fields() + x.other_stuff, master_keys()) == x.other_stuff,
{
    lemma_master_keys();
    lemma_master_fields(x);
    lemma_schema_read(master_keys(), x.values(), x.other_stuff);
}

/// A master is read as it was written.
pub proof fn lemma_master_identity(x: FontMasterModel)
    requires
        x.valid(),
    ensures
        FontMasterModel::from_plist(x.to_plist()) == Ok::<FontMasterModel, ConversionErrorModel>(
            x,
        ),
{
    let entries = x.fields() + x.other_stuff;
    let keys = master_keys();
    let slot_keys = master_slot_keys();
    lemma_master_entries(x);
    assert(lookup(entries, keys[0]) == x.values()[0]);
    assert(lookup(entries, keys[1]) == x.values()[1]);
    assert(lookup(entries, keys[2]) == x.values()[2]);
    assert(lookup(entries, keys[3]) == x.values()[3]);
    assert(lookup(entries, keys[4]) == x.values()[4]);
    assert(lookup(entries, keys[5]) == x.values()[5]);
    lemma_read_text(entries, "id"@, x.id);
    lemma_read_optional_int(entries, "ascender"@, x.ascender);
    lemma_read_optional_int(entries, "capHeight"@, x.cap_height);
    lemma_read_optional_int(entries, "descender"@, x.descender);
    lemma_read_optional_int(entries, "xHeight"@, x.x_height);
    lemma_read_optional_number(entries, "italicAngle"@, x.italic_angle);
    assert forall|i: int| 0 <= i < 6 implies lookup(entries, #[trigger] slot_keys[i])
        == optional_number(x.slots()[i]) by {
        assert(slot_keys[i] == keys[6 + i]);
        assert(lookup(entries, keys[6 + i]) == x.values()[6 + i]);
    }
    lemma_read_slots(entries, slot_keys, x.slots());
}

impl InstanceModel {
    /// The values of the keys of an instance, in the order of the keys.
    pub open spec fn values(self) -> Seq<Option<PlistModel>> {
        seq![
            Some(PlistModel::String(self.name)),
            optional_number(self.interpolation_weight),
            optional_number(self.interpolation_width),
            optional_number(self.interpolation_custom),
            optional_number(self.interpolation_custom1),
            optional_number(self.interpolation_custom2),
            optional_number(self.interpolation_custom3),
            optional_flag(self.is_bold),
            optional_flag(self.is_italic),
            optional_text(self.link_style),
        ]
    }

    /// The numbers of the instance are in their shortest form, and what it
    /// keeps besides its fields stands under keys that it does not know.
    pub open spec fn valid(self) -> bool {
        &&& optional_wf(self.interpolation_weight)
        &&& optional_wf(self.interpolation_width)
        &&& optional_wf(self.interpolation_custom)
        &&& optional_wf(self.interpolation_custom1)
        &&& optional_wf(self.interpolation_custom2)
        &&& optional_wf(self.interpolation_custom3)
        &&& none_known(self.other_stuff, instance_keys())
    }
}

/// The entries for the fields of an instance are those for its keys with
/// their values.
proof fn lemma_instance_fields(x: InstanceModel)
    ensures
        x.fields() == schema_entries(instance_keys(), x.values()),
{
    let k = instance_keys();
    let v = x.values();
    let none = Seq::<(Seq<char>, PlistModel)>::empty();
    assert(k.take(0) =~= Seq::<Seq<char>>::empty());
    lemma_schema_take(k, v, 0);
    let p1 = seq![(k[0], v[0]->0)];
    assert(none + optional_entry(k[0], v[0]) =~= p1);
    lemma_schema_take(k, v, 1);
    lemma_schema_take(k, v, 2);
    lemma_schema_take(k, v, 3);
    lemma_schema_take(k, v, 4);
    lemma_schema_take(k, v, 5);
    lemma_schema_take(k, v, 6);
    lemma_slot_entries(p1, instance_slot_keys(), x.slots());
    let p7 = p1 + slot_entries(instance_slot_keys(), x.slots());
    lemma_schema_take(k, v, 7);
    let p8 = p7 + optional_entry(k[7], v[7]);
    lemma_schema_take(k, v, 8);
    let p9 = p8 + optional_entry(k[8], v[8]);
    lemma_schema_take(k, v, 9);
    let p10 = p9 + optional_entry(k[9], v[9]);
    assert(k.take(10) =~= k);
    assert(v.take(10) =~= v);
    assert(x.fields() == p10);
}

proof fn lemma_instance_entries(x: InstanceModel)
    requires
        none_known(x.other_stuff, instance_keys()),
    ensures
        forall|j: int|
            0 <= j < 10 ==> lookup(x.fields() + x.other_stuff, #[trigger] instance_keys()[j])
                == x.values()[j],
        unknown(x.fields() + x.other_stuff, instance_keys()) == x.other_stuff,
{
    lemma_instance_keys();
    lemma_instance_fields(x);
    lemma_schema_read(instance_keys(), x.values(), x.other_stuff);
}

/// An instance is read as it was written.
pub proof fn lemma_instance_identity(x: InstanceModel)
    requires
        x.valid(),
    ensures
        InstanceModel::from_plist(x.to_plist()) == Ok::<InstanceModel, ConversionErrorModel>(x),
{
    let entries = x.fields() + x.other_stuff;
    let keys = instance_keys();
    let slot_keys = instance_slot_keys();
    lemma_instance_entries(x);
    assert(lookup(entries, keys[0]) == x.values()[0]);
    assert(lookup(entries, keys[7]) == x.values()[7]);
    assert(lookup(entries, keys[8]) == x.values()[8]);
    assert(lookup(entries, keys[9]) == x.values()[9]);
    lemma_read_text(entries, "name"@, x.name);
    assert forall|i: int| 0 <= i < 6 implies lookup(entries, #[trigger] slot_keys[i])
        == optional_number(x.slots()[i]) by {
        assert(slot_keys[i] == keys[1 + i]);
        assert(lookup(entries, keys[1 + i]) == x.values()[1 + i]);
    }
    lemma_read_slots(entries, slot_keys, x.slots());
    lemma_read_optional_flag(entries, "isBold"@, x.is_bold);
    lemma_read_optional_flag(entries, "isItalic"@, x.is_italic);
    lemma_read_optional_text(entries, "linkStyle"@, x.link_style);
}

impl FontModel {
    /// The values of the keys of a font, in the order of the keys.
    pub open spec fn values(self) -> Seq<Option<PlistModel>> {
        seq![
            Some(PlistModel::String(self.family_name)),
            Some(PlistModel::Integer(self.version_major)),
            Some(PlistModel::Integer(self.version_minor)),
            Some(PlistModel::Integer(self.units_per_em)),
            Some(PlistModel::Array(self.glyphs.map_values(|x: GlyphModel| x.to_plist()))),
            Some(
                PlistModel::Array(self.font_master.map_values(|x: FontMasterModel| x.to_plist())),
            ),
            optional_array(self.instances, |x: InstanceModel| x.to_plist()),
            optional_flag(self.disables_automatic_alignment),
        ]
    }

    /// The glyphs, masters and instances of the font are valid, and what it
    /// keeps besides its fields stands under keys that it does not know.
    pub open spec fn valid(self) -> bool {
        &&& forall|i: int| 0 <= i < self.glyphs.len() ==> (#[trigger] self.glyphs[i]).valid()
        &&& forall|i: int|
            0 <= i < self.font_master.len() ==> (#[trigger] self.font_master[i]).valid()
        &&& self.instances matches Some(s) ==> forall|i: int|
            0 <= i < s.len() ==> (#[trigger] s[i]).valid()
        &&& none_known(self.other_stuff, font_keys())
    }
}

/// The entries for the fields of a font are those for its keys with their
/// values.
proof fn lemma_font_fields(x: FontModel)
    ensures
        x.fields() == schema_entries(font_keys(), x.values()),
{
    let keys = font_keys();
    let values = x.values();
    lemma_schema_take(keys, values, 0);
    lemma_schema_take(keys, values, 1);
    lemma_schema_take(keys, values, 2);
    lemma_schema_take(keys, values, 3);
    lemma_schema_take(keys, values, 4);
    lemma_schema_take(keys, values, 5);
    lemma_schema_take(keys, values, 6);
    lemma_schema_take(keys, values, 7);
    assert(keys.take(0) =~= Seq::<Seq<char>>::empty());
    assert(keys.take(8) =~= keys);
    assert(values.take(8) =~= values);
    assert(x.fields() =~= schema_entries(keys, values));
}

proof fn lemma_font_entries(x: FontModel)
    requires
        none_known(x.other_stuff, font_keys()),
    ensures
        forall|j: int|
            0 <= j < 8 ==> lookup(x.fields() + x.other_stuff, #[trigger] font_keys()[j])
                == x.values()[j],
        unknown(x.fields() + x.other_stuff, font_keys()) == x.other_stuff,
{
    lemma_font_keys();
    lemma_font_fields(x);
    lemma_schema_read(font_keys(), x.values(), x.other_stuff);
}

/// A font is read as it was written.
pub proof fn lemma_font_identity(x: FontModel)
    requires
        x.valid(),
    ensures
        FontModel::from_plist(x.to_plist()) == Ok::<FontModel, ConversionErrorModel>(x),
{
    let entries = x.fields() + x.other_stuff;
    let keys = font_keys();
    lemma_font_entries(x);
    assert(lookup(entries, keys[0]) == x.values()[0]);
    assert(lookup(entries, keys[1]) == x.values()[1]);
    assert(lookup(entries, keys[2]) == x.values()[2]);
    assert(lookup(entries, keys[3]) == x.values()[3]);
    assert(lookup(entries, keys[4]) == x.values()[4]);
    assert(lookup(entries, keys[5]) == x.values()[5]);
    assert(lookup(entries, keys[6]) == x.values()[6]);
    assert(lookup(entries, keys[7]) == x.values()[7]);
    lemma_read_text(entries, "familyName"@, x.family_name);
    lemma_read_int(entries, "versionMajor"@, x.version_major);
    lemma_read_int(entries, "versionMinor"@, x.version_minor);
    lemma_read_int(entries, "unitsPerEm"@, x.units_per_em);
    assert forall|i: int| 0 <= i < x.glyphs.len() implies GlyphModel::from_plist(
        (#[trigger] x.glyphs[i]).to_plist(),
    ) == Ok::<GlyphModel, ConversionErrorModel>(x.glyphs[i]) by {
        lemma_glyph_identity(x.glyphs[i]);
    }
    lemma_read_list(
        entries,
        "glyphs"@,
        x.glyphs,
        |x: GlyphModel| x.to_plist(),
        |p: PlistModel| GlyphModel::from_plist(p),
    );
    assert forall|i: int| 0 <= i < x.font_master.len() implies FontMasterModel::from_plist(
        (#[trigger] x.font_master[i]).to_plist(),
    ) == Ok::<FontMasterModel, ConversionErrorModel>(x.font_master[i]) by {
        lemma_master_identity(x.font_master[i]);
    }
    lemma_read_list(
        entries,
        "fontMaster"@,
        x.font_master,
        |x: FontMasterModel| x.to_plist(),
        |p: PlistModel| FontMasterModel::from_plist(p),
    );
    if x.instances is Some {
        let s = x.instances->0;
        assert forall|i: int| 0 <= i < s.len() implies InstanceModel::from_plist(
            (#[trigger] s[i]).to_plist(),
        ) == Ok::<InstanceModel, ConversionErrorModel>(s[i]) by {
            lemma_instance_identity(s[i]);
        }
    }
    lemma_read_optional_list(
        entries,
        "instances"@,
        x.instances,
        |x: InstanceModel| x.to_plist(),
        |p: PlistModel| InstanceModel::from_plist(p),
    );
    lemma_read_optional_flag(entries, "disablesAutomaticAlignment"@, x.disables_automatic_alignment);
}

/// A key that a record does not know has, among the fields of the record
/// and what it did not know of some entries, the value that it had among
/// those entries.
proof fn lemma_keeps_unknown(
    keys: Seq<Seq<char>>,
    values: Seq<Option<PlistModel>>,
    entries: Seq<(Seq<char>, PlistModel)>,
    key: Seq<char>,
)
    requires
        keys.no_duplicates(),
        keys.len() == values.len(),
        !keys.contains(key),
    ensures
        lookup(schema_entries(keys, values) + unknown(entries, keys), key) == lookup(entries, key),
{
    lemma_schema_lookup(keys, values, key);
    lemma_lookup_concat(schema_entries(keys, values), unknown(entries, keys), key);
    crate::schema::lemma_lookup_unknown(entries, keys, key);
}

/// What a font does not know is kept: a key that the font does not know
/// has, in the value tree that is written for the font, the value that it
/// had in the value tree that the font was read from.
pub proof fn lemma_font_keeps_unknown(entries: Seq<(Seq<char>, PlistModel)>, key: Seq<char>)
    requires
        !font_keys().contains(key),
        FontModel::from_plist(PlistModel::Dictionary(entries)) is Ok,
    ensures
        FontModel::from_plist(PlistModel::Dictionary(entries))->Ok_0.to_plist().get(key) == lookup(
            entries,
            key,
        ),
{
    let x = FontModel::from_plist(PlistModel::Dictionary(entries))->Ok_0;
    lemma_font_keys();
    lemma_font_fields(x);
    lemma_keeps_unknown(font_keys(), x.values(), entries, key);
}

/// What a glyph does not know is kept when it is read and written.
pub proof fn lemma_glyph_keeps_unknown(entries: Seq<(Seq<char>, PlistModel)>, key: Seq<char>)
    requires
        !glyph_keys().contains(key),
        GlyphModel::from_plist(PlistModel::Dictionary(entries)) is Ok,
    ensures
        GlyphModel::from_plist(PlistModel::Dictionary(entries))->Ok_0.to_plist().get(key)
            == lookup(entries, key),
{
    let x = GlyphModel::from_plist(PlistModel::Dictionary(entries))->Ok_0;
    lemma_glyph_keys();
    lemma_glyph_fields(x);
    lemma_keeps_unknown(glyph_keys(), x.values(), entries, key);
}

/// What a layer does not know is kept when it is read and written.
pub proof fn lemma_layer_keeps_unknown(entries: Seq<(Seq<char>, PlistModel)>, key: Seq<char>)
    requires
        !layer_keys().contains(key),
        LayerModel::from_plist(PlistModel::Dictionary(entries)) is Ok,
    ensures
        LayerModel::from_plist(PlistModel::Dictionary(entries))->Ok_0.to_plist().get(key)
            == lookup(entries, key),
{
    let x = LayerModel::from_plist(PlistModel::Dictionary(entries))->Ok_0;
    lemma_layer_keys();
    lemma_layer_fields(x);
    lemma_keeps_unknown(layer_keys(), x.values(), entries, key);
}

/// What a component does not know is kept when it is read and written.
pub proof fn lemma_component_keeps_unknown(entries: Seq<(Seq<char>, PlistModel)>, key: Seq<char>)
    requires
        !component_keys().contains(key),
        ComponentModel::from_plist(PlistModel::Dictionary(entries)) is Ok,
    ensures
        ComponentModel::from_plist(PlistModel::Dictionary(entries))->Ok_0.to_plist().get(key)
            == lookup(entries, key),
{
    let x = ComponentModel::from_plist(PlistModel::Dictionary(entries))->Ok_0;
    lemma_component_keys();
    lemma_component_fields(x);
    lemma_keeps_unknown(component_keys(), x.values(), entries, key);
}

/// What a master does not know is kept when it is read and written.
pub proof fn lemma_master_keeps_unknown(entries: Seq<(Seq<char>, PlistModel)>, key: Seq<char>)
    requires
        !master_keys().contains(key),
        FontMasterModel::from_plist(PlistModel::Dictionary(entries)) is Ok,
    ensures
        FontMasterModel::from_plist(PlistModel::Dictionary(entries))->Ok_0.to_plist().get(key)
            == lookup(entries, key),
{
    let x = FontMasterModel::from_plist(PlistModel::Dictionary(entries))->Ok_0;
    lemma_master_keys();
    lemma_master_fields(x);
    lemma_keeps_unknown(master_keys(), x.values(), entries, key);
}

/// What an instance does not know is kept when it is read and written.
pub proof fn lemma_instance_keeps_unknown(entries: Seq<(Seq<char>, PlistModel)>, key: Seq<char>)
    requires
        !instance_keys().contains(key),
        InstanceModel::from_plist(PlistModel::Dictionary(entries)) is Ok,
    ensures
        InstanceModel::from_plist(PlistModel::Dictionary(entries))->Ok_0.to_plist().get(key)
            == lookup(entries, key),
{
    let x = InstanceModel::from_plist(PlistModel::Dictionary(entries))->Ok_0;
    lemma_instance_keys();
    lemma_instance_fields(x);
    lemma_keeps_unknown(instance_keys(), x.values(), entries, key);
}

/// A font that was written as text is read as the font that it was: its
/// text is read as its value tree, and its value tree as the font.
pub proof fn lemma_font_text_identity(x: FontModel)
    requires
        x.valid(),
        x.to_plist().wf(),
    ensures
        crate::grammar::parse_document(crate::grammar::text_of(x.to_plist())) == Ok::<
            PlistModel,
            crate::grammar::Fault,
        >(x.to_plist()),
        crate::records::font_of_text(crate::grammar::text_of(x.to_plist())) == Ok::<
            FontModel,
            ConversionErrorModel,
        >(x),
{
    crate::roundtrip::lemma_round_trip(x.to_plist());
    lemma_font_identity(x);
}

/// What a record does not know of some entries is exactly that: it knows
/// none of their keys, each of them is one of the entries, and a key that
/// the record does not know has among them the value that it has among the
/// entries.
pub proof fn lemma_unknown_exact(entries: Seq<(Seq<char>, PlistModel)>, known: Seq<Seq<char>>)
    ensures
        none_known(unknown(entries, known), known),
        forall|i: int|
            0 <= i < unknown(entries, known).len() ==> entries.contains(
                #[trigger] unknown(entries, known)[i],
            ),
        forall|key: Seq<char>|
            !known.contains(key) ==> #[trigger] lookup(unknown(entries, known), key) == lookup(
                entries,
                key,
            ),
{
    let keep = |e: (Seq<char>, PlistModel)| unless_known(known, e);
    let kept = unknown(entries, known);
    assert forall|i: int| 0 <= i < kept.len() implies !known.contains((#[trigger] kept[i]).0)
        && entries.contains(kept[i]) by {
        let j = crate::seqs::lemma_filter_map_source(entries, keep, i);
        assert(entries[j] == kept[i]);
    }
    assert forall|key: Seq<char>| !known.contains(key) implies #[trigger] lookup(kept, key)
        == lookup(entries, key) by {
        crate::schema::lemma_lookup_unknown(entries, known, key);
    }
}

/// A key that a record does not know has, in the value tree that is written
/// for the record, the value that it has in what the record keeps besides
/// its fields.
proof fn lemma_writes_unknown(
    keys: Seq<Seq<char>>,
    values: Seq<Option<PlistModel>>,
    other: Seq<(Seq<char>, PlistModel)>,
    key: Seq<char>,
)
    requires
        keys.no_duplicates(),
        keys.len() == values.len(),
        !keys.contains(key),
    ensures
        lookup(schema_entries(keys, values) + other, key) == lookup(other, key),
{
    lemma_schema_lookup(keys, values, key);
    lemma_lookup_concat(schema_entries(keys, values), other, key);
}

/// What a font keeps besides its fields, when it is read, is what it does
/// not know of the entries: nothing under a key that it knows, and under
/// any other key what the entries have there.
pub proof fn lemma_font_reads_unknown(entries: Seq<(Seq<char>, PlistModel)>)
    requires
        FontModel::from_plist(PlistModel::Dictionary(entries)) is Ok,
    ensures
        ({
            let x = FontModel::from_plist(PlistModel::Dictionary(entries))->Ok_0;
            &&& x.other_stuff == unknown(entries, font_keys())
            &&& none_known(x.other_stuff, font_keys())
            &&& forall|key: Seq<char>|
                !font_keys().contains(key) ==> #[trigger] lookup(x.other_stuff, key) == lookup(
                    entries,
                    key,
                )
        }),
{
    lemma_unknown_exact(entries, font_keys());
}

/// What a font keeps besides its fields is written: a key that it does not
/// know has, in the value tree that is written for it, the value that it
/// has there.
pub proof fn lemma_font_writes_unknown(x: FontModel, key: Seq<char>)
    requires
        !font_keys().contains(key),
    ensures
        x.to_plist().get(key) == lookup(x.other_stuff, key),
{
    lemma_font_keys();
    lemma_font_fields(x);
    lemma_writes_unknown(font_keys(), x.values(), x.other_stuff, key);
}

/// What a glyph keeps besides its fields, when it is read, is what it does
/// not know of the entries: nothing under a key that it knows, and under
/// any other key what the entries have there.
pub proof fn lemma_glyph_reads_unknown(entries: Seq<(Seq<char>, PlistModel)>)
    requires
        GlyphModel::from_plist(PlistModel::Dictionary(entries)) is Ok,
    ensures
        ({
            let x = GlyphModel::from_plist(PlistModel::Dictionary(entries))->Ok_0;
            &&& x.other_stuff == unknown(entries, glyph_keys())
            &&& none_known(x.other_stuff, glyph_keys())
            &&& forall|key: Seq<char>|
                !glyph_keys().contains(key) ==> #[trigger] lookup(x.other_stuff, key) == lookup(
                    entries,
                    key,
                )
        }),
{
    lemma_unknown_exact(entries, glyph_keys());
}

/// What a glyph keeps besides its fields is written: a key that it does not
/// know has, in the value tree that is written for it, the value that it
/// has there.
pub proof fn lemma_glyph_writes_unknown(x: GlyphModel, key: Seq<char>)
    requires
        !glyph_keys().contains(key),
    ensures
        x.to_plist().get(key) == lookup(x.other_stuff, key),
{
    lemma_glyph_keys();
    lemma_glyph_fields(x);
    lemma_writes_unknown(glyph_keys(), x.values(), x.other_stuff, key);
}

/// What a layer keeps besides its fields, when it is read, is what it does
/// not know of the entries: nothing under a key that it knows, and under
/// any other key what the entries have there.
pub proof fn lemma_layer_reads_unknown(entries: Seq<(Seq<char>, PlistModel)>)
    requires
        LayerModel::from_plist(PlistModel::Dictionary(entries)) is Ok,
    ensures
        ({
            let x = LayerModel::from_plist(PlistModel::Dictionary(entries))->Ok_0;
            &&& x.other_stuff == unknown(entries, layer_keys())
            &&& none_known(x.other_stuff, layer_keys())
            &&& forall|key: Seq<char>|
                !layer_keys().contains(key) ==> #[trigger] lookup(x.other_stuff, key) == lookup(
                    entries,
                    key,
                )
        }),
{
    lemma_unknown_exact(entries, layer_keys());
}

/// What a layer keeps besides its fields is written: a key that it does not
/// know has, in the value tree that is written for it, the value that it
/// has there.
pub proof fn lemma_layer_writes_unknown(x: LayerModel, key: Seq<char>)
    requires
        !layer_keys().contains(key),
    ensures
        x.to_plist().get(key) == lookup(x.other_stuff, key),
{
    lemma_layer_keys();
    lemma_layer_fields(x);
    lemma_writes_unknown(layer_keys(), x.values(), x.other_stuff, key);
}

/// What a component keeps besides its fields, when it is read, is what it does
/// not know of the entries: nothing under a key that it knows, and under
/// any other key what the entries have there.
pub proof fn lemma_component_reads_unknown(entries: Seq<(Seq<char>, PlistModel)>)
    requires
        ComponentModel::from_plist(PlistModel::Dictionary(entries)) is Ok,
    ensures
        ({
            let x = ComponentModel::from_plist(PlistModel::Dictionary(entries))->Ok_0;
            &&& x.other_stuff == unknown(entries, component_keys())
            &&& none_known(x.other_stuff, component_keys())
            &&& forall|key: Seq<char>|
                !component_keys().contains(key) ==> #[trigger] lookup(x.other_stuff, key) == lookup(
                    entries,
                    key,
                )
        }),
{
    lemma_unknown_exact(entries, component_keys());
}

/// What a component keeps besides its fields is written: a key that it does not
/// know has, in the value tree that is written for it, the value that it
/// has there.
pub proof fn lemma_component_writes_unknown(x: ComponentModel, key: Seq<char>)
    requires
        !component_keys().contains(key),
    ensures
        x.to_plist().get(key) == lookup(x.other_stuff, key),
{
    lemma_component_keys();
    lemma_component_fields(x);
    lemma_writes_unknown(component_keys(), x.values(), x.other_stuff, key);
}

/// What a master keeps besides its fields, when it is read, is what it does
/// not know of the entries: nothing under a key that it knows, and under
/// any other key what the entries have there.
pub proof fn lemma_master_reads_unknown(entries: Seq<(Seq<char>, PlistModel)>)
    requires
        FontMasterModel::from_plist(PlistModel::Dictionary(entries)) is Ok,
    ensures
        ({
            let x = FontMasterModel::from_plist(PlistModel::Dictionary(entries))->Ok_0;
            &&& x.other_stuff == unknown(entries, master_keys())
            &&& none_known(x.other_stuff, master_keys())
            &&& forall|key: Seq<char>|
                !master_keys().contains(key) ==> #[trigger] lookup(x.other_stuff, key) == lookup(
                    entries,
                    key,
                )
        }),
{
    lemma_unknown_exact(entries, master_keys());
}

/// What a master keeps besides its fields is written: a key that it does not
/// know has, in the value tree that is written for it, the value that it
/// has there.
pub proof fn lemma_master_writes_unknown(x: FontMasterModel, key: Seq<char>)
    requires
        !master_keys().contains(key),
    ensures
        x.to_plist().get(key) == lookup(x.other_stuff, key),
{
    lemma_master_keys();
    lemma_master_fields(x);
    lemma_writes_unknown(master_keys(), x.values(), x.other_stuff, key);
}

/// What an instance keeps besides its fields, when it is read, is what it does
/// not know of the entries: nothing under a key that it knows, and under
/// any other key what the entries have there.
pub proof fn lemma_instance_reads_unknown(entries: Seq<(Seq<char>, PlistModel)>)
    requires
        InstanceModel::from_plist(PlistModel::Dictionary(entries)) is Ok,
    ensures
        ({
            let x = InstanceModel::from_plist(PlistModel::Dictionary(entries))->Ok_0;
            &&& x.other_stuff == unknown(entries, instance_keys())
            &&& none_known(x.other_stuff, instance_keys())
            &&& forall|key: Seq<char>|
                !instance_keys().contains(key) ==> #[trigger] lookup(x.other_stuff, key) == lookup(
                    entries,
                    key,
                )
        }),
{
    lemma_unknown_exact(entries, instance_keys());
}

/// What an instance keeps besides its fields is written: a key that it does not
/// know has, in the value tree that is written for it, the value that it
/// has there.
pub proof fn lemma_instance_writes_unknown(x: InstanceModel, key: Seq<char>)
    requires
        !instance_keys().contains(key),
    ensures
        x.to_plist().get(key) == lookup(x.other_stuff, key),
{
    lemma_instance_keys();
    lemma_instance_fields(x);
    lemma_writes_unknown(instance_keys(), x.values(), x.other_stuff, key);
}

/// Each record that is read from a list is what is read from one item of
/// the list.
pub proof fn lemma_records_read<T>(
    p: PlistModel,
    key: Seq<char>,
    from: spec_fn(PlistModel) -> Result<T, ConversionErrorModel>,
    i: int,
) -> (item: PlistModel)
    requires
        records_of(p, key, from) is Ok,
        0 <= i < records_of(p, key, from)->Ok_0.len(),
    ensures
        from(item) == Ok::<T, ConversionErrorModel>(records_of(p, key, from)->Ok_0[i]),
        p.wf() ==> item.wf(),
{
    let items = p->Array_0;
    let read = items.map_values(from);
    crate::seqs::lemma_first_match(read, |r: Result<T, ConversionErrorModel>| r is Err);
    assert(read[i] is Ok);
    items[i]
}

/// What stands under a key of a dictionary whose numbers are in their
/// shortest form has its numbers in their shortest form.
proof fn lemma_lookup_wf(entries: Seq<(Seq<char>, PlistModel)>, key: Seq<char>)
    requires
        PlistModel::Dictionary(entries).wf(),
    ensures
        lookup(entries, key) matches Some(v) ==> v.wf(),
{
    crate::seqs::lemma_first_match(entries, crate::plist::under_key(key));
    if lookup(entries, key) is Some {
        let i = crate::seqs::first_match(entries, crate::plist::under_key(key))->0;
        let v = PlistModel::Dictionary(entries);
        assert(v->Dictionary_0 == entries);
        assert(forall|j: int| 0 <= j < entries.len() ==> (#[trigger] entries[j]).1.wf());
    }
}

/// A number that a node holds is in its shortest form.
proof fn lemma_number_wf(p: PlistModel)
    requires
        p.wf(),
    ensures
        as_number(p) matches Some(d) ==> d.wf(),
{
    match p {
        PlistModel::Integer(n) => {
            crate::digits::lemma_nat_digits((if n < 0 { -n } else { n as int }) as nat);
        },
        _ => {},
    }
}

/// A number that is read from under a key is in its shortest form.
proof fn lemma_number_read(entries: Seq<(Seq<char>, PlistModel)>, key: Seq<char>)
    requires
        PlistModel::Dictionary(entries).wf(),
    ensures
        optional_field(entries, key, |p: PlistModel| as_number(p)) matches Ok(d) ==> optional_wf(d),
        scalar_field(entries, key, |p: PlistModel| as_number(p)) matches Ok(d) ==> d.wf(),
{
    lemma_lookup_wf(entries, key);
    if lookup(entries, key) is Some {
        lemma_number_wf(lookup(entries, key)->0);
    }
}

/// A point that is read from under a key has its numbers in their shortest
/// form.
proof fn lemma_point_read(entries: Seq<(Seq<char>, PlistModel)>, key: Seq<char>)
    ensures
        scalar_field(entries, key, |p: PlistModel| as_point(p)) matches Ok(pt) ==> pt.x.wf()
            && pt.y.wf(),
{
    match lookup(entries, key) {
        Some(PlistModel::String(s)) => {
            crate::codec::lemma_point_wf(s);
        },
        _ => {},
    }
}

/// The six slots that are read are in their shortest form.
proof fn lemma_slots_wf(entries: Seq<(Seq<char>, PlistModel)>, keys: Seq<Seq<char>>)
    requires
        PlistModel::Dictionary(entries).wf(),
    ensures
        slots_of(entries, keys) matches Ok(slots) ==> optional_wf(slots[0]) && optional_wf(slots[1])
            && optional_wf(slots[2]) && optional_wf(slots[3]) && optional_wf(slots[4])
            && optional_wf(slots[5]),
{
    lemma_number_read(entries, keys[0]);
    lemma_number_read(entries, keys[1]);
    lemma_number_read(entries, keys[2]);
    lemma_number_read(entries, keys[3]);
    lemma_number_read(entries, keys[4]);
    lemma_number_read(entries, keys[5]);
}

/// A path that was read is valid.
pub proof fn lemma_path_read_valid(p: PlistModel)
    requires
        PathModel::from_plist(p) is Ok,
    ensures
        PathModel::from_plist(p)->Ok_0.valid(),
{
    let entries = p->Dictionary_0;
    let x = PathModel::from_plist(p)->Ok_0;
    let from = |p: PlistModel| as_node(p);
    assert(record_list(entries, "nodes"@, from) == Ok::<Seq<NodeModel>, ConversionErrorModel>(
        x.nodes,
    ));
    let list = lookup(entries, "nodes"@)->0;
    assert forall|i: int| 0 <= i < x.nodes.len() implies (#[trigger] x.nodes[i]).pt.x.wf()
        && x.nodes[i].pt.y.wf() by {
        let item = lemma_records_read(list, "nodes"@, from, i);
        crate::codec::lemma_node_wf(item->String_0);
    }
}

/// An anchor that was read is valid.
pub proof fn lemma_anchor_read_valid(p: PlistModel)
    requires
        AnchorModel::from_plist(p) is Ok,
    ensures
        AnchorModel::from_plist(p)->Ok_0.valid(),
{
    lemma_point_read(p->Dictionary_0, "position"@);
}

/// A guide line that was read from a value tree whose numbers are in their
/// shortest form is valid.
pub proof fn lemma_guide_line_read_valid(p: PlistModel)
    requires
        p.wf(),
        GuideLineModel::from_plist(p) is Ok,
    ensures
        GuideLineModel::from_plist(p)->Ok_0.valid(),
{
    lemma_point_read(p->Dictionary_0, "position"@);
    lemma_number_read(p->Dictionary_0, "angle"@);
}

/// A component that was read is valid.
pub proof fn lemma_component_read_valid(p: PlistModel)
    requires
        ComponentModel::from_plist(p) is Ok,
    ensures
        ComponentModel::from_plist(p)->Ok_0.valid(),
{
    let entries = p->Dictionary_0;
    lemma_unknown_exact(entries, component_keys());
    match lookup(entries, "transform"@) {
        Some(PlistModel::String(s)) => {
            crate::codec::lemma_affine_wf(s);
        },
        _ => {},
    }
}

/// A master that was read from a value tree whose numbers are in their
/// shortest form is valid.
pub proof fn lemma_master_read_valid(p: PlistModel)
    requires
        p.wf(),
        FontMasterModel::from_plist(p) is Ok,
    ensures
        FontMasterModel::from_plist(p)->Ok_0.valid(),
{
    let entries = p->Dictionary_0;
    lemma_unknown_exact(entries, master_keys());
    lemma_number_read(entries, "italicAngle"@);
    lemma_slots_wf(entries, master_slot_keys());
}

/// An instance that was read from a value tree whose numbers are in their
/// shortest form is valid.
pub proof fn lemma_instance_read_valid(p: PlistModel)
    requires
        p.wf(),
        InstanceModel::from_plist(p) is Ok,
    ensures
        InstanceModel::from_plist(p)->Ok_0.valid(),
{
    let entries = p->Dictionary_0;
    lemma_unknown_exact(entries, instance_keys());
    lemma_slots_wf(entries, instance_slot_keys());
}

/// A layer that was read from a value tree whose numbers are in their
/// shortest form is valid.
pub proof fn lemma_layer_read_valid(p: PlistModel)
    requires
        p.wf(),
        LayerModel::from_plist(p) is Ok,
    ensures
        LayerModel::from_plist(p)->Ok_0.valid(),
{
    let entries = p->Dictionary_0;
    let x = LayerModel::from_plist(p)->Ok_0;
    let path = |p: PlistModel| PathModel::from_plist(p);
    let component = |p: PlistModel| ComponentModel::from_plist(p);
    let anchor = |p: PlistModel| AnchorModel::from_plist(p);
    let guide_line = |p: PlistModel| GuideLineModel::from_plist(p);
    lemma_unknown_exact(entries, layer_keys());
    lemma_number_read(entries, "width"@);
    lemma_lookup_wf(entries, "paths"@);
    lemma_lookup_wf(entries, "components"@);
    lemma_lookup_wf(entries, "anchors"@);
    lemma_lookup_wf(entries, "guideLines"@);
    assert(optional_record_list(entries, "paths"@, path) == Ok::<
        Option<Seq<PathModel>>,
        ConversionErrorModel,
    >(x.paths));
    assert(optional_record_list(entries, "components"@, component) == Ok::<
        Option<Seq<ComponentModel>>,
        ConversionErrorModel,
    >(x.components));
    assert(optional_record_list(entries, "anchors"@, anchor) == Ok::<
        Option<Seq<AnchorModel>>,
        ConversionErrorModel,
    >(x.anchors));
    assert(optional_record_list(entries, "guideLines"@, guide_line) == Ok::<
        Option<Seq<GuideLineModel>>,
        ConversionErrorModel,
    >(x.guide_lines));
    if x.paths is Some {
        let s = x.paths->0;
        assert forall|i: int| 0 <= i < s.len() implies (#[trigger] s[i]).valid() by {
            let item = lemma_records_read(lookup(entries, "paths"@)->0, "paths"@, path, i);
            lemma_path_read_valid(item);
        }
    }
    if x.components is Some {
        let s = x.components->0;
        assert forall|i: int| 0 <= i < s.len() implies (#[trigger] s[i]).valid() by {
            let item = lemma_records_read(
                lookup(entries, "components"@)->0,
                "components"@,
                component,
                i,
            );
            lemma_component_read_valid(item);
        }
    }
    if x.anchors is Some {
        let s = x.anchors->0;
        assert forall|i: int| 0 <= i < s.len() implies (#[trigger] s[i]).valid() by {
            let item = lemma_records_read(lookup(entries, "anchors"@)->0, "anchors"@, anchor, i);
            lemma_anchor_read_valid(item);
        }
    }
    if x.guide_lines is Some {
        let s = x.guide_lines->0;
        assert forall|i: int| 0 <= i < s.len() implies (#[trigger] s[i]).valid() by {
            let item = lemma_records_read(
                lookup(entries, "guideLines"@)->0,
                "guideLines"@,
                guide_line,
                i,
            );
            lemma_guide_line_read_valid(item);
        }
    }
}

/// A glyph that was read from a value tree whose numbers are in their
/// shortest form is valid.
pub proof fn lemma_glyph_read_valid(p: PlistModel)
    requires
        p.wf(),
        GlyphModel::from_plist(p) is Ok,
    ensures
        GlyphModel::from_plist(p)->Ok_0.valid(),
{
    let entries = p->Dictionary_0;
    let x = GlyphModel::from_plist(p)->Ok_0;
    let from = |p: PlistModel| LayerModel::from_plist(p);
    lemma_unknown_exact(entries, glyph_keys());
    lemma_lookup_wf(entries, "layers"@);
    assert(valid_name(x.glyphname)) by {
        reveal_strlit("infinity");
    }
    if lookup(entries, "unicode"@) is Some {
        crate::codec::lemma_codepoints_read(lookup(entries, "unicode"@)->0);
    }
    assert(record_list(entries, "layers"@, from) == Ok::<Seq<LayerModel>, ConversionErrorModel>(
        x.layers,
    ));
    assert forall|i: int| 0 <= i < x.layers.len() implies (#[trigger] x.layers[i]).valid() by {
        let item = lemma_records_read(lookup(entries, "layers"@)->0, "layers"@, from, i);
        lemma_layer_read_valid(item);
    }
}

/// A font that was read from a value tree whose numbers are in their
/// shortest form is valid: it is read again as the font that it is when it
/// is written.
pub proof fn lemma_font_read_valid(p: PlistModel)
    requires
        p.wf(),
        FontModel::from_plist(p) is Ok,
    ensures
        FontModel::from_plist(p)->Ok_0.valid(),
{
    let entries = p->Dictionary_0;
    let x = FontModel::from_plist(p)->Ok_0;
    let glyph = |p: PlistModel| GlyphModel::from_plist(p);
    let master = |p: PlistModel| FontMasterModel::from_plist(p);
    let instance = |p: PlistModel| InstanceModel::from_plist(p);
    lemma_unknown_exact(entries, font_keys());
    lemma_lookup_wf(entries, "glyphs"@);
    lemma_lookup_wf(entries, "fontMaster"@);
    lemma_lookup_wf(entries, "instances"@);
    assert(record_list(entries, "glyphs"@, glyph) == Ok::<Seq<GlyphModel>, ConversionErrorModel>(
        x.glyphs,
    ));
    assert(record_list(entries, "fontMaster"@, master) == Ok::<
        Seq<FontMasterModel>,
        ConversionErrorModel,
    >(x.font_master));
    assert(optional_record_list(entries, "instances"@, instance) == Ok::<
        Option<Seq<InstanceModel>>,
        ConversionErrorModel,
    >(x.instances));
    assert forall|i: int| 0 <= i < x.glyphs.len() implies (#[trigger] x.glyphs[i]).valid() by {
        let item = lemma_records_read(lookup(entries, "glyphs"@)->0, "glyphs"@, glyph, i);
        lemma_glyph_read_valid(item);
    }
    assert forall|i: int| 0 <= i < x.font_master.len() implies (#[trigger] x.font_master[i]).valid() by {
        let item = lemma_records_read(lookup(entries, "fontMaster"@)->0, "fontMaster"@, master, i);
        lemma_master_read_valid(item);
    }
    if x.instances is Some {
        let s = x.instances->0;
        assert forall|i: int| 0 <= i < s.len() implies (#[trigger] s[i]).valid() by {
            let item = lemma_records_read(
                lookup(entries, "instances"@)->0,
                "instances"@,
                instance,
                i,
            );
            lemma_instance_read_valid(item);
        }
    }
}

} // verus!
