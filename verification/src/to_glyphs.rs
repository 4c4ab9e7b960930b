//! From a designspace and its font objects to a Glyphs source.

use vstd::prelude::*;
use crate::codepoints::codepoints_clone;
use crate::context::{
    design_location, design_location_float, design_location_float_of, design_location_of,
    ContextModel, DesignspaceContext, LayerId, LayerIdModel,
};
use crate::decimal::{Decimal, DecimalModel};
use crate::designspace::{InstanceSource, InstanceSourceModel, SourceModel};
use crate::error::{ConversionError, ConversionErrorModel, ErrorKind};
use crate::font::{
    Anchor, Component, Font, FontMaster, FontMasterModel, FontModel, Glyph, GlyphModel, Instance,
    InstanceModel, Layer, LayerModel, Path,
};
use crate::plist::{entries_model, Plist, PlistModel};
use crate::properties::{
    font_properties, glyph_order_of, lemma_glyph_order_covers, listed_names, rounded_or,
    FontProperties,
};
use crate::seqs::{
    collect, gather, lemma_filter_map_all, lemma_filter_map_distinct, lemma_filter_map_source,
    lemma_filter_map_then, lemma_first_match, lemma_gather_distinct, lemma_gather_keeps,
    lemma_gather_ok,
};
use crate::ufo::{
    ContourModel, UfoAnchorModel, UfoComponentModel, UfoGlyph, UfoGlyphModel, UfoLayer,
    UfoLayerModel,
};
use crate::vecs::{filter_map_model, gather_range, map_model, try_map_model};

verus! {

/// `s`, or nothing where `s` is empty.
pub open spec fn unless_empty<T>(s: Seq<T>) -> Option<Seq<T>> {
    if s.len() == 0 {
        None
    } else {
        Some(s)
    }
}

/// The whole number `n` where there is one.
pub open spec fn optional_int(n: Option<i64>) -> Option<DecimalModel> {
    match n {
        Some(n) => Some(DecimalModel::of_int(n as int)),
        None => None,
    }
}

/// The number with the opposite sign where there is one.
pub open spec fn optional_negated(v: Option<DecimalModel>) -> Option<DecimalModel> {
    match v {
        Some(v) => Some(v.negated()),
        None => None,
    }
}

/// A custom parameter: a dictionary of a name and a value.
pub open spec fn custom_parameter(name: Seq<char>, value: PlistModel) -> PlistModel {
    PlistModel::Dictionary(seq![("name"@, PlistModel::String(name)), ("value"@, value)])
}

/// The entries that a master keeps besides its fields: its exact place on
/// the axes, by name, and its style name.
pub open spec fn master_parameters(axis_location: PlistModel, style: Seq<char>) -> Seq<
    (Seq<char>, PlistModel),
> {
    seq![
        (
            "customParameters"@,
            PlistModel::Array(
                seq![
                    custom_parameter("Axis Location"@, axis_location),
                    custom_parameter("Master Name"@, PlistModel::String(style)),
                ],
            ),
        ),
    ]
}

/// The master that the source at `i` becomes. Vertical metrics are rounded,
/// and where the font object has none they are 800, 700, -200 and 500; the
/// italic angle changes its sign; the place on the axes goes into the six
/// slots by position. The source must have a style name.
pub open spec fn master_of(context: ContextModel, i: int) -> Result<
    FontMasterModel,
    ConversionErrorModel,
> {
    let source = context.designspace.sources[i];
    let info = context.source_ufo(i).font_info;
    let place = design_location_of(source.location);
    match source.stylename {
        None => Err(ConversionErrorModel::new(ErrorKind::MissingStyleName, source.name)),
        Some(style) => match context.axis_location(source.location) {
            Err(e) => Err(e),
            Ok(axis_location) => Ok(
                FontMasterModel {
                    id: context.ids[i],
                    ascender: Some(rounded_or(info.ascender, 800)),
                    cap_height: Some(rounded_or(info.cap_height, 700)),
                    descender: Some(rounded_or(info.descender, -200i64)),
                    x_height: Some(rounded_or(info.x_height, 500)),
                    italic_angle: optional_negated(info.italic_angle),
                    weight_value: Some(DecimalModel::of_int(place.0 as int)),
                    width_value: optional_int(place.1),
                    custom_value: optional_int(place.2),
                    custom_value1: optional_int(place.3),
                    custom_value2: optional_int(place.4),
                    custom_value3: optional_int(place.5),
                    other_stuff: master_parameters(axis_location, style),
                },
            ),
        },
    }
}

/// Whether a style of a style map is bold and whether it is italic: neither
/// where none is given, and for the four styles `regular`, `bold`, `italic`
/// and `bold italic` what their names say. No other style is known.
pub open spec fn style_flags(style: Option<Seq<char>>) -> Option<(bool, bool)> {
    match style {
        None => Some((false, false)),
        Some(s) => if s == "regular"@ {
            Some((false, false))
        } else if s == "bold"@ {
            Some((true, false))
        } else if s == "italic"@ {
            Some((false, true))
        } else if s == "bold italic"@ {
            Some((true, true))
        } else {
            None
        },
    }
}

/// The instance of a Glyphs source that an instance of a designspace
/// becomes.
pub open spec fn instance_of(instance: InstanceSourceModel) -> Result<
    InstanceModel,
    ConversionErrorModel,
> {
    let place = design_location_float_of(instance.location);
    match style_flags(instance.stylemapstylename) {
        None => Err(
            ConversionErrorModel::new(
                ErrorKind::UnknownStyleMapStyle,
                instance.stylemapstylename->0,
            ),
        ),
        Some((bold, italic)) => Ok(
            InstanceModel {
                name: match instance.stylename {
                    Some(name) => name,
                    None => Seq::empty(),
                },
                interpolation_weight: Some(place.0),
                interpolation_width: place.1,
                interpolation_custom: place.2,
                interpolation_custom1: place.3,
                interpolation_custom2: place.4,
                interpolation_custom3: place.5,
                is_bold: Some(bold),
                is_italic: Some(italic),
                link_style: instance.stylemapfamilyname,
                other_stuff: Seq::empty(),
            },
        ),
    }
}

/// The layer of a Glyphs source that one drawing of a glyph becomes, under
/// the given identity. An anchor without a name is left out. Paths,
/// components and anchors are missing where there are none.
pub open spec fn layer_of(id: LayerIdModel, glyph: UfoGlyphModel) -> LayerModel {
    let (associated_master_id, layer_id, name) = match id {
        LayerIdModel::Master(id) => (None, id, None),
        LayerIdModel::AssociatedWithMaster(parent, id, name) => (Some(parent), id, Some(name)),
    };
    LayerModel {
        name,
        associated_master_id,
        layer_id,
        width: glyph.width,
        paths: unless_empty(glyph.contours.map_values(|c: ContourModel| c.to_path())),
        components: unless_empty(
            glyph.components.map_values(|c: UfoComponentModel| c.to_component()),
        ),
        anchors: unless_empty(glyph.anchors.filter_map(|a: UfoAnchorModel| a.to_anchor())),
        guide_lines: None,
        other_stuff: Seq::empty(),
    }
}

/// A glyph of a Glyphs source, without layers, for a glyph of the default
/// layer of a font object: its name and its code points.
pub open spec fn glyph_of(glyph: UfoGlyphModel) -> GlyphModel {
    GlyphModel {
        unicode: Some(glyph.codepoints),
        layers: Seq::empty(),
        glyphname: glyph.name,
        left_kerning_group: None,
        right_kerning_group: None,
        other_stuff: Seq::empty(),
    }
}

/// The master that the source at `i` becomes, where it is a master.
pub open spec fn master_slot(context: ContextModel, i: int) -> Result<
    Option<FontMasterModel>,
    ConversionErrorModel,
> {
    if context.designspace.sources[i].layer is Some {
        Ok(None)
    } else {
        match master_of(context, i) {
            Ok(m) => Ok(Some(m)),
            Err(e) => Err(e),
        }
    }
}

/// The layer of its font object that the source at `i` is drawn in, with the
/// identity that it gets: the default layer for a master, the layer of the
/// given name for another source. The layer must be there.
pub open spec fn layer_slot(context: ContextModel, i: int) -> Result<
    Option<(LayerIdModel, UfoLayerModel)>,
    ConversionErrorModel,
> {
    let source = context.designspace.sources[i];
    let ufo = context.source_ufo(i);
    match context.layer_id(i) {
        Err(e) => Err(e),
        Ok(id) => match id {
            LayerIdModel::Master(_) => if ufo.layers.len() == 0 {
                Err(ConversionErrorModel::new(ErrorKind::MissingLayer, source.filename))
            } else {
                Ok(Some((id, ufo.layers[0])))
            },
            LayerIdModel::AssociatedWithMaster(_, _, name) => match ufo.layer_index(name) {
                Some(k) => Ok(Some((id, ufo.layers[k]))),
                None => Err(ConversionErrorModel::new(ErrorKind::MissingLayer, name)),
            },
        },
    }
}

/// A master for each source, where the source is a master.
pub open spec fn master_slots(context: ContextModel) -> Seq<
    Result<Option<FontMasterModel>, ConversionErrorModel>,
> {
    Seq::new(context.designspace.sources.len(), |i: int| master_slot(context, i))
}

/// The layer that each source is drawn in, with the identity that it gets.
pub open spec fn layer_slots(context: ContextModel) -> Seq<
    Result<Option<(LayerIdModel, UfoLayerModel)>, ConversionErrorModel>,
> {
    Seq::new(context.designspace.sources.len(), |i: int| layer_slot(context, i))
}

/// The layer that a source's drawing of the glyph `name` becomes, where the
/// source has one.
pub open spec fn drawn_layer(slot: (LayerIdModel, UfoLayerModel), name: Seq<char>) -> Option<
    LayerModel,
> {
    match slot.1.glyph_index(name) {
        Some(k) => Some(layer_of(slot.0, slot.1.glyphs[k])),
        None => None,
    }
}

/// The glyph `name` with a layer for each source that draws it, in the
/// order of the sources, where the default layer has a glyph of that name.
pub open spec fn converted_glyph(
    default_layer: UfoLayerModel,
    slots: Seq<(LayerIdModel, UfoLayerModel)>,
    name: Seq<char>,
) -> Option<GlyphModel> {
    match default_layer.glyph_index(name) {
        Some(g) => Some(
            GlyphModel {
                layers: slots.filter_map(|slot: (LayerIdModel, UfoLayerModel)| drawn_layer(slot, name)),
                ..glyph_of(default_layer.glyphs[g])
            },
        ),
        None => None,
    }
}

/// The entries that a font keeps besides its fields: the version of the
/// application, the axes, and the order of the glyphs.
pub open spec fn font_parameters(axes: PlistModel, glyph_order: Seq<Seq<char>>) -> Seq<
    (Seq<char>, PlistModel),
> {
    seq![
        (".appVersion"@, PlistModel::String("1361"@)),
        (
            "customParameters"@,
            PlistModel::Array(
                seq![
                    custom_parameter("Axes"@, axes),
                    custom_parameter(
                        "glyphOrder"@,
                        PlistModel::Array(
                            glyph_order.map_values(|name: Seq<char>| PlistModel::String(name)),
                        ),
                    ),
                ],
            ),
        ),
    ]
}

/// The Glyphs source of a designspace and its font objects: what the font
/// objects say of the family; a master for each source without a layer; an
/// instance for each instance; and the glyphs of the default layer in the
/// order of the glyphs, each with a layer for each source that draws it.
pub open spec fn font_of(context: ContextModel) -> Result<FontModel, ConversionErrorModel> {
    match font_properties(context) {
        Err(e) => Err(e),
        Ok(properties) => match gather(master_slots(context)) {
            Err(e) => Err(e),
            Ok(masters) => match collect(
                context.designspace.instances.map_values(|i: InstanceSourceModel| instance_of(i)),
            ) {
                Err(e) => Err(e),
                Ok(instances) => match gather(layer_slots(context)) {
                    Err(e) => Err(e),
                    Ok(slots) => {
                        let default_layer = context.source_ufo(
                            context.default_source()->Ok_0,
                        ).layers[0];
                        Ok(
                            FontModel {
                                family_name: properties.family_name,
                                version_major: properties.version_major,
                                version_minor: properties.version_minor,
                                units_per_em: properties.units_per_em,
                                glyphs: properties.glyph_order.filter_map(
                                    |name: Seq<char>| converted_glyph(default_layer, slots, name),
                                ),
                                font_master: masters,
                                instances: Some(instances),
                                disables_automatic_alignment: Some(
                                    properties.disables_automatic_alignment,
                                ),
                                other_stuff: font_parameters(
                                    context.global_axes(),
                                    properties.glyph_order,
                                ),
                            },
                        )
                    },
                },
            },
        },
    }
}

/// The identifier of the layer itself.
pub open spec fn own_id(id: LayerIdModel) -> Seq<char> {
    match id {
        LayerIdModel::Master(id) => id,
        LayerIdModel::AssociatedWithMaster(_, id, _) => id,
    }
}

/// `id` is the identifier of a master of the font.
pub open spec fn is_master_id(font: FontModel, id: Seq<char>) -> bool {
    exists|m: int| 0 <= m < font.font_master.len() && (#[trigger] font.font_master[m]).id == id
}

/// The layer is that of a master of the font, under the master's
/// identifier and without a name, or it belongs to a master of the font and
/// has a name.
pub open spec fn layer_has_master(font: FontModel, layer: LayerModel) -> bool {
    match layer.associated_master_id {
        None => is_master_id(font, layer.layer_id) && layer.name is None,
        Some(parent) => is_master_id(font, parent) && layer.name is Some,
    }
}

/// The layers are in order as layers of a glyph of the font: no two of
/// them have one identifier, and each is that of a master or belongs to one.
pub open spec fn layers_in_order(font: FontModel, layers: Seq<LayerModel>) -> bool {
    &&& forall|i: int, j: int|
        0 <= i < j < layers.len() ==> (#[trigger] layers[i]).layer_id != (
        #[trigger] layers[j]).layer_id
    &&& forall|i: int| 0 <= i < layers.len() ==> layer_has_master(font, #[trigger] layers[i])
}

/// The identifiers of the font are in order: no two masters have one
/// identifier, no two layers of a glyph have one, and every layer is that of
/// a master or belongs to one.
pub open spec fn identifiers_in_order(font: FontModel) -> bool {
    &&& forall|i: int, j: int|
        0 <= i < j < font.font_master.len() ==> (#[trigger] font.font_master[i]).id != (
        #[trigger] font.font_master[j]).id
    &&& forall|g: int|
        0 <= g < font.glyphs.len() ==> layers_in_order(font, (#[trigger] font.glyphs[g]).layers)
}

/// The master of the source at `i`, which is a master, is among the masters
/// of the font.
proof fn lemma_master_is_there(context: ContextModel, i: int)
    requires
        gather(master_slots(context)) is Ok,
        0 <= i < context.designspace.sources.len(),
        context.designspace.sources[i].layer is None,
    ensures
        exists|m: int|
            0 <= m < gather(master_slots(context))->Ok_0.len() && (#[trigger] gather(
                master_slots(context),
            )->Ok_0[m]).id == context.ids[i],
{
    let ms = master_slots(context);
    lemma_gather_ok(ms);
    assert(ms[i] == master_slot(context, i));
    assert(ms[i] is Ok);
    let m = lemma_gather_keeps(ms, i);
    assert(gather(ms)->Ok_0[m].id == context.ids[i]);
}

/// The layers of the glyph `name` have each an identifier of their own, and
/// each is that of a master or belongs to one.
proof fn lemma_layers_in_order(context: ContextModel, name: Seq<char>)
    requires
        context.wf(),
        font_of(context) is Ok,
    ensures
        layers_in_order(
            font_of(context)->Ok_0,
            gather(layer_slots(context))->Ok_0.filter_map(
                |slot: (LayerIdModel, UfoLayerModel)| drawn_layer(slot, name),
            ),
        ),
{
    let font = font_of(context)->Ok_0;
    let ls = layer_slots(context);
    let slots = gather(ls)->Ok_0;
    let own = |slot: (LayerIdModel, UfoLayerModel)| own_id(slot.0);
    let draw = |slot: (LayerIdModel, UfoLayerModel)| drawn_layer(slot, name);
    let layers = slots.filter_map(draw);
    assert forall|i: int, j: int|
        0 <= i < j < ls.len() && (#[trigger] ls[i]) is Ok && ls[i]->Ok_0 is Some && (
        #[trigger] ls[j]) is Ok && ls[j]->Ok_0 is Some implies own(ls[i]->Ok_0->0) != own(
        ls[j]->Ok_0->0,
    ) by {
        assert(ls[i] == layer_slot(context, i));
        assert(ls[j] == layer_slot(context, j));
        assert(own(ls[i]->Ok_0->0) == context.ids[i]);
        assert(own(ls[j]->Ok_0->0) == context.ids[j]);
    }
    lemma_gather_distinct(ls, own);
    lemma_filter_map_distinct(slots, draw, own, |layer: LayerModel| layer.layer_id);
    assert forall|i: int| 0 <= i < layers.len() implies layer_has_master(
        font,
        #[trigger] layers[i],
    ) by {
        let k = lemma_filter_map_source(slots, draw, i);
        let at = choose|at: int|
            0 <= at < ls.len() && #[trigger] ls[at] == Ok::<
                Option<(LayerIdModel, UfoLayerModel)>,
                ConversionErrorModel,
            >(Some(slots[k]));
        assert(ls[at] == layer_slot(context, at));
        let source = context.designspace.sources[at];
        match source.layer {
            None => {
                lemma_master_is_there(context, at);
            },
            Some(_) => {
                lemma_first_match(
                    context.designspace.sources,
                    |s: SourceModel| s.filename == source.filename && s.layer is None,
                );
                lemma_master_is_there(context, context.master_in(source.filename)->0);
            },
        }
    }
}

/// The identifiers of a converted font are in order: no two masters have
/// one identifier, no two layers of a glyph have one, and every layer is
/// that of a master or belongs to one.
pub proof fn lemma_identifiers_in_order(context: ContextModel)
    requires
        context.wf(),
        font_of(context) is Ok,
    ensures
        identifiers_in_order(font_of(context)->Ok_0),
{
    let font = font_of(context)->Ok_0;
    let ms = master_slots(context);
    assert forall|i: int, j: int|
        0 <= i < j < ms.len() && (#[trigger] ms[i]) is Ok && ms[i]->Ok_0 is Some && (
        #[trigger] ms[j]) is Ok && ms[j]->Ok_0 is Some implies ms[i]->Ok_0->0.id
        != ms[j]->Ok_0->0.id by {
        assert(ms[i] == master_slot(context, i));
        assert(ms[j] == master_slot(context, j));
        assert(ms[i]->Ok_0->0.id == context.ids[i]);
        assert(ms[j]->Ok_0->0.id == context.ids[j]);
    }
    lemma_gather_distinct(ms, |m: FontMasterModel| m.id);
    let slots = gather(layer_slots(context))->Ok_0;
    let default_layer = context.source_ufo(context.default_source()->Ok_0).layers[0];
    let order = font_properties(context)->Ok_0.glyph_order;
    let convert = |name: Seq<char>| converted_glyph(default_layer, slots, name);
    assert(font.glyphs == order.filter_map(convert));
    assert forall|g: int| 0 <= g < font.glyphs.len() implies layers_in_order(
        font,
        (#[trigger] font.glyphs[g]).layers,
    ) by {
        let n = lemma_filter_map_source(order, convert, g);
        lemma_layers_in_order(context, order[n]);
    }
}

/// `name` where the layer has a glyph of that name.
pub open spec fn drawn_name(layer: UfoLayerModel, name: Seq<char>) -> Option<Seq<char>> {
    if layer.glyph_index(name) is Some {
        Some(name)
    } else {
        None
    }
}

/// The names of the glyphs of the font, in order.
pub open spec fn glyph_names(font: FontModel) -> Seq<Seq<char>> {
    font.glyphs.map_values(|g: GlyphModel| g.glyphname)
}

/// The glyphs of a converted font stand in the order of the glyphs: their
/// names are the names of that order, without those that the default layer
/// does not draw. Where the default layer draws every name that its font
/// object lists, they are all the names of that order: first the names that
/// are listed, then the names of the other glyphs in the order of names.
/// The order is also what the font lists as its `glyphOrder`.
pub proof fn lemma_glyphs_follow_order(context: ContextModel)
    requires
        font_of(context) is Ok,
    ensures
        ({
            let font = font_of(context)->Ok_0;
            let ufo = context.source_ufo(context.default_source()->Ok_0);
            let listed = listed_names(ufo.lib)->Ok_0;
            let order = glyph_order_of(listed, ufo.layers[0].glyph_names());
            &&& glyph_names(font) == order.filter_map(
                |name: Seq<char>| drawn_name(ufo.layers[0], name),
            )
            &&& (forall|i: int|
                0 <= i < listed.len() ==> ufo.layers[0].glyph_index(#[trigger] listed[i]) is Some)
                ==> glyph_names(font) == order
            &&& font.other_stuff == font_parameters(context.global_axes(), order)
        }),
{
    let font = font_of(context)->Ok_0;
    let ufo = context.source_ufo(context.default_source()->Ok_0);
    let default_layer = ufo.layers[0];
    let listed = listed_names(ufo.lib)->Ok_0;
    let names = default_layer.glyph_names();
    let order = glyph_order_of(listed, names);
    let slots = gather(layer_slots(context))->Ok_0;
    let convert = |name: Seq<char>| converted_glyph(default_layer, slots, name);
    let drawn = |name: Seq<char>| drawn_name(default_layer, name);
    assert(font.glyphs == order.filter_map(convert));
    assert forall|i: int| 0 <= i < order.len() implies drawn(#[trigger] order[i]) == match convert(
        order[i],
    ) {
        Some(g) => Some(g.glyphname),
        None => None,
    } by {
        lemma_first_match(default_layer.glyphs, |g: UfoGlyphModel| g.name == order[i]);
    }
    lemma_filter_map_then(order, convert, |g: GlyphModel| g.glyphname, drawn);
    if forall|i: int| 0 <= i < listed.len() ==> default_layer.glyph_index(#[trigger] listed[i]) is Some {
        lemma_glyph_order_covers(listed, names);
        assert forall|i: int| 0 <= i < order.len() implies drawn(#[trigger] order[i]) == Some(
            order[i],
        ) by {
            let n = order[i];
            assert(order.contains(n));
            if listed.contains(n) {
                let j = choose|j: int| 0 <= j < listed.len() && listed[j] == n;
                assert(default_layer.glyph_index(listed[j]) is Some);
            } else {
                assert(names.contains(n));
                let j = choose|j: int| 0 <= j < names.len() && names[j] == n;
                assert(default_layer.glyphs[j].name == n);
                lemma_first_match(default_layer.glyphs, |g: UfoGlyphModel| g.name == n);
            }
        }
        lemma_filter_map_all(order, drawn);
    }
}

fn whole(n: Option<i64>) -> (r: Option<Decimal>)
    ensures
        r.deep_view() == optional_int(n),
{
    match n {
        Some(n) => Some(Decimal::from_i64(n)),
        None => None,
    }
}

fn rounded(v: &Option<Decimal>, default: i64) -> (r: i64)
    ensures
        r == rounded_or(v.deep_view(), default),
{
    match v {
        Some(v) => v.round(),
        None => default,
    }
}

/// A custom parameter.
fn parameter(name: &str, value: Plist) -> (r: Plist)
    ensures
        r.deep_view() == custom_parameter(name@, value.deep_view()),
{
    Plist::pair("name", Plist::string(name), "value", value)
}

/// A dictionary's entries: `customParameters` with the two given
/// parameters, after the entries of `before`.
fn with_parameters(before: Vec<(String, Plist)>, first: Plist, second: Plist) -> (r: Vec<
    (String, Plist),
>)
    ensures
        entries_model(r@) == entries_model(before@).push(
            (
                "customParameters"@,
                PlistModel::Array(seq![first.deep_view(), second.deep_view()]),
            ),
        ),
{
    let mut items: Vec<Plist> = Vec::new();
    items.push(first);
    items.push(second);
    assert(items.deep_view() =~= seq![first.deep_view(), second.deep_view()]);
    let mut entries = before;
    entries.push(("customParameters".to_owned(), Plist::array(items)));
    assert(entries_model(entries@) =~= entries_model(before@).push(
        ("customParameters"@, PlistModel::Array(seq![first.deep_view(), second.deep_view()])),
    ));
    entries
}

/// The master that the source at `i` becomes. Fails where the source has no
/// style name, and where its place on the axes cannot be written down.
pub fn master_from(context: &DesignspaceContext, i: usize) -> (r: Result<
    FontMaster,
    ConversionError,
>)
    requires
        i < context.deep_view().designspace.sources.len(),
    ensures
        match r {
            Ok(m) => master_of(context.deep_view(), i as int) == Ok::<
                FontMasterModel,
                ConversionErrorModel,
            >(m.deep_view()),
            Err(e) => master_of(context.deep_view(), i as int) == Err::<
                FontMasterModel,
                ConversionErrorModel,
            >(e.deep_view()),
        },
{
    let source = &context.designspace().sources[i];
    let info = &context.source_ufo(i).font_info;
    let place = design_location(&source.location);
    let style = match &source.stylename {
        Some(style) => style,
        None => {
            return Err(ConversionError::new(ErrorKind::MissingStyleName, source.name.as_str()));
        },
    };
    let axis_location = match context.axis_location(&source.location) {
        Ok(p) => p,
        Err(e) => {
            return Err(e);
        },
    };
    let italic_angle = match &info.italic_angle {
        Some(v) => Some(v.neg()),
        None => None,
    };
    let other_stuff = with_parameters(
        Vec::new(),
        parameter("Axis Location", axis_location),
        parameter("Master Name", Plist::String(style.clone())),
    );
    assert(entries_model(other_stuff@) =~= master_parameters(axis_location.deep_view(), style@));
    Ok(
        FontMaster {
            id: context.source_id(i).clone(),
            ascender: Some(rounded(&info.ascender, 800)),
            cap_height: Some(rounded(&info.cap_height, 700)),
            descender: Some(rounded(&info.descender, -200)),
            x_height: Some(rounded(&info.x_height, 500)),
            italic_angle,
            weight_value: Some(Decimal::from_i64(place.0)),
            width_value: whole(place.1),
            custom_value: whole(place.2),
            custom_value1: whole(place.3),
            custom_value2: whole(place.4),
            custom_value3: whole(place.5),
            other_stuff,
        },
    )
}

/// Whether a style of a style map is bold and whether it is italic.
fn read_style(style: &Option<String>) -> (r: Option<(bool, bool)>)
    ensures
        r == style_flags(style.deep_view()),
{
    match style {
        None => Some((false, false)),
        Some(s) => {
            let s = s.as_str();
            if s.eq("regular") {
                Some((false, false))
            } else if s.eq("bold") {
                Some((true, false))
            } else if s.eq("italic") {
                Some((false, true))
            } else if s.eq("bold italic") {
                Some((true, true))
            } else {
                None
            }
        },
    }
}

/// The instance of a Glyphs source that `instance` becomes. Fails where the
/// style of its style map is none of the four known ones.
pub fn instance_from(instance: &InstanceSource) -> (r: Result<Instance, ConversionError>)
    ensures
        match r {
            Ok(i) => instance_of(instance.deep_view()) == Ok::<InstanceModel, ConversionErrorModel>(
                i.deep_view(),
            ),
            Err(e) => instance_of(instance.deep_view()) == Err::<
                InstanceModel,
                ConversionErrorModel,
            >(e.deep_view()),
        },
{
    let name = match &instance.stylename {
        Some(name) => name.clone(),
        None => String::new(),
    };
    let place = design_location_float(&instance.location);
    let (is_bold, is_italic) = match read_style(&instance.stylemapstylename) {
        Some(flags) => flags,
        None => {
            let style = match &instance.stylemapstylename {
                Some(s) => s.as_str(),
                None => "",
            };
            return Err(ConversionError::new(ErrorKind::UnknownStyleMapStyle, style));
        },
    };
    let other_stuff: Vec<(String, Plist)> = Vec::new();
    assert(entries_model(other_stuff@) =~= Seq::empty());
    Ok(
        Instance {
            name,
            interpolation_weight: Some(place.0),
            interpolation_width: place.1,
            interpolation_custom: place.2,
            interpolation_custom1: place.3,
            interpolation_custom2: place.4,
            interpolation_custom3: place.5,
            is_bold: Some(is_bold),
            is_italic: Some(is_italic),
            link_style: instance.stylemapfamilyname.clone(),
            other_stuff,
        },
    )
}

fn some_unless_empty<T: DeepView>(v: Vec<T>) -> (r: Option<Vec<T>>)
    ensures
        r.deep_view() == unless_empty(v.deep_view()),
{
    if v.len() == 0 {
        None
    } else {
        Some(v)
    }
}

/// The layer of a Glyphs source that the drawing `glyph` becomes, under the
/// identity `layer_id`.
pub fn layer_from(layer_id: &LayerId, glyph: &UfoGlyph) -> (r: Layer)
    ensures
        r.deep_view() == layer_of(layer_id.deep_view(), glyph.deep_view()),
{
    let (associated_master_id, id, name) = match layer_id {
        LayerId::Master(id) => (None, id.clone(), None),
        LayerId::AssociatedWithMaster(parent, id, name) => (
            Some(parent.clone()),
            id.clone(),
            Some(name.clone()),
        ),
    };
    let paths = map_model(
        &glyph.contours,
        Path::from_contour,
        Ghost(|c: ContourModel| c.to_path()),
    );
    let components = map_model(
        &glyph.components,
        Component::from_ufo,
        Ghost(|c: UfoComponentModel| c.to_component()),
    );
    let anchors = filter_map_model(
        &glyph.anchors,
        Anchor::from_ufo,
        Ghost(|a: UfoAnchorModel| a.to_anchor()),
    );
    let other_stuff: Vec<(String, Plist)> = Vec::new();
    assert(entries_model(other_stuff@) =~= Seq::empty());
    Layer {
        name,
        associated_master_id,
        layer_id: id,
        width: glyph.width.copy(),
        paths: some_unless_empty(paths),
        components: some_unless_empty(components),
        anchors: some_unless_empty(anchors),
        guide_lines: None,
        other_stuff,
    }
}

/// A glyph of a Glyphs source, without layers, for the glyph `glyph` of the
/// default layer of a font object.
pub fn new_glyph_from(glyph: &UfoGlyph) -> (r: Glyph)
    ensures
        r.deep_view() == glyph_of(glyph.deep_view()),
{
    let other_stuff: Vec<(String, Plist)> = Vec::new();
    let layers: Vec<Layer> = Vec::new();
    assert(entries_model(other_stuff@) =~= Seq::empty());
    assert(layers.deep_view() =~= Seq::empty());
    Glyph {
        unicode: Some(codepoints_clone(&glyph.codepoints)),
        glyphname: glyph.name.clone(),
        layers,
        other_stuff,
        left_kerning_group: None,
        right_kerning_group: None,
    }
}

/// The layer of its font object that the source at `i` is drawn in, with the
/// identity that it gets.
fn source_layer<'a>(context: &'a DesignspaceContext, i: usize) -> (r: Result<
    Option<(LayerId, &'a UfoLayer)>,
    ConversionError,
>)
    requires
        i < context.deep_view().designspace.sources.len(),
    ensures
        match r {
            Ok(slot) => layer_slot(context.deep_view(), i as int) == Ok::<
                Option<(LayerIdModel, UfoLayerModel)>,
                ConversionErrorModel,
            >(slot.deep_view()),
            Err(e) => layer_slot(context.deep_view(), i as int) == Err::<
                Option<(LayerIdModel, UfoLayerModel)>,
                ConversionErrorModel,
            >(e.deep_view()),
        },
{
    let source = &context.designspace().sources[i];
    let ufo = context.source_ufo(i);
    let id = match context.id_for_source_name(i) {
        Ok(id) => id,
        Err(e) => {
            return Err(e);
        },
    };
    match &id {
        LayerId::Master(_) => {
            if ufo.layers.len() == 0 {
                Err(ConversionError::new(ErrorKind::MissingLayer, source.filename.as_str()))
            } else {
                Ok(Some((id, &ufo.layers[0])))
            }
        },
        LayerId::AssociatedWithMaster(_, _, name) => match ufo.layer_index(name.as_str()) {
            Some(k) => Ok(Some((id.clone(), &ufo.layers[k]))),
            None => Err(ConversionError::new(ErrorKind::MissingLayer, name.as_str())),
        },
    }
}

/// A master for each source without a layer, in the order of the sources.
fn masters_from(context: &DesignspaceContext) -> (r: Result<Vec<FontMaster>, ConversionError>)
    ensures
        match r {
            Ok(m) => gather(master_slots(context.deep_view())) == Ok::<
                Seq<FontMasterModel>,
                ConversionErrorModel,
            >(m.deep_view()),
            Err(e) => gather(master_slots(context.deep_view())) == Err::<
                Seq<FontMasterModel>,
                ConversionErrorModel,
            >(e.deep_view()),
        },
{
    let n = context.designspace().sources.len();
    let master_at = |i: usize| -> (r: Result<Option<FontMaster>, ConversionError>)
        requires
            i < context.deep_view().designspace.sources.len(),
        ensures
            match r {
                Ok(m) => master_slot(context.deep_view(), i as int) == Ok::<
                    Option<FontMasterModel>,
                    ConversionErrorModel,
                >(m.deep_view()),
                Err(e) => master_slot(context.deep_view(), i as int) == Err::<
                    Option<FontMasterModel>,
                    ConversionErrorModel,
                >(e.deep_view()),
            },
        {
            if context.designspace().sources[i].layer.is_some() {
                Ok(None)
            } else {
                match master_from(context, i) {
                    Ok(m) => Ok(Some(m)),
                    Err(e) => Err(e),
                }
            }
        };
    let ghost g = |i: int| master_slot(context.deep_view(), i);
    assert(Seq::new(n as nat, |i: int| g(i)) =~= master_slots(context.deep_view()));
    gather_range(n, master_at, Ghost(g))
}

/// The layer that each source is drawn in, with the identity that it gets,
/// in the order of the sources.
fn source_layers<'a>(context: &'a DesignspaceContext) -> (r: Result<
    Vec<(LayerId, &'a UfoLayer)>,
    ConversionError,
>)
    ensures
        match r {
            Ok(s) => gather(layer_slots(context.deep_view())) == Ok::<
                Seq<(LayerIdModel, UfoLayerModel)>,
                ConversionErrorModel,
            >(s.deep_view()),
            Err(e) => gather(layer_slots(context.deep_view())) == Err::<
                Seq<(LayerIdModel, UfoLayerModel)>,
                ConversionErrorModel,
            >(e.deep_view()),
        },
{
    let n = context.designspace().sources.len();
    let layer_at = |i: usize| -> (r: Result<Option<(LayerId, &'a UfoLayer)>, ConversionError>)
        requires
            i < context.deep_view().designspace.sources.len(),
        ensures
            match r {
                Ok(slot) => layer_slot(context.deep_view(), i as int) == Ok::<
                    Option<(LayerIdModel, UfoLayerModel)>,
                    ConversionErrorModel,
                >(slot.deep_view()),
                Err(e) => layer_slot(context.deep_view(), i as int) == Err::<
                    Option<(LayerIdModel, UfoLayerModel)>,
                    ConversionErrorModel,
                >(e.deep_view()),
            },
        { source_layer(context, i) };
    let ghost g = |i: int| layer_slot(context.deep_view(), i);
    assert(Seq::new(n as nat, |i: int| g(i)) =~= layer_slots(context.deep_view()));
    gather_range(n, layer_at, Ghost(g))
}

/// The glyph `name` with a layer for each source that draws it, where the
/// default layer has a glyph of that name.
fn glyph_from(default_layer: &UfoLayer, slots: &Vec<(LayerId, &UfoLayer)>, name: &str) -> (r:
    Option<Glyph>)
    ensures
        r.deep_view() == converted_glyph(default_layer.deep_view(), slots.deep_view(), name@),
{
    match default_layer.glyph_index(name) {
        None => None,
        Some(g) => {
            let mut glyph = new_glyph_from(&default_layer.glyphs[g]);
            let draw = |slot: &(LayerId, &UfoLayer)| -> (r: Option<Layer>)
                ensures
                    r.deep_view() == drawn_layer(slot.deep_view(), name@),
                {
                    match slot.1.glyph_index(name) {
                        Some(k) => Some(layer_from(&slot.0, &slot.1.glyphs[k])),
                        None => None,
                    }
                };
            glyph.layers = filter_map_model(
                slots,
                draw,
                Ghost(|slot: (LayerIdModel, UfoLayerModel)| drawn_layer(slot, name@)),
            );
            Some(glyph)
        },
    }
}

/// The glyphs of the default layer in the given order, each with a layer
/// for each source that draws it.
fn glyphs_from(
    default_layer: &UfoLayer,
    slots: &Vec<(LayerId, &UfoLayer)>,
    order: &Vec<String>,
) -> (r: Vec<Glyph>)
    ensures
        r.deep_view() == order.deep_view().filter_map(
            |name: Seq<char>| converted_glyph(default_layer.deep_view(), slots.deep_view(), name),
        ),
{
    let convert = |name: &String| -> (r: Option<Glyph>)
        ensures
            r.deep_view() == converted_glyph(default_layer.deep_view(), slots.deep_view(), name@),
        { glyph_from(default_layer, slots, name.as_str()) };
    filter_map_model(
        order,
        convert,
        Ghost(
            |name: Seq<char>|
                converted_glyph(default_layer.deep_view(), slots.deep_view(), name),
        ),
    )
}

/// The entries that a font keeps besides its fields.
fn font_entries(context: &DesignspaceContext, glyph_order: &Vec<String>) -> (r: Vec<
    (String, Plist),
>)
    ensures
        entries_model(r@) == font_parameters(
            context.deep_view().global_axes(),
            glyph_order.deep_view(),
        ),
{
    let as_string = |name: &String| -> (r: Plist)
        ensures
            r.deep_view() == PlistModel::String(name@),
        { Plist::String(name.clone()) };
    let order = map_model(
        glyph_order,
        as_string,
        Ghost(|name: Seq<char>| PlistModel::String(name)),
    );
    let mut other_stuff: Vec<(String, Plist)> = Vec::new();
    other_stuff.push((".appVersion".to_owned(), Plist::string("1361")));
    let other_stuff = with_parameters(
        other_stuff,
        parameter("Axes", context.global_axes()),
        parameter("glyphOrder", Plist::array(order)),
    );
    assert(entries_model(other_stuff@) =~= font_parameters(
        context.deep_view().global_axes(),
        glyph_order.deep_view(),
    ));
    other_stuff
}

/// The Glyphs source of the designspace and the font objects of `context`.
/// Its identifiers are in order.
pub fn command_to_glyphs(context: &DesignspaceContext) -> (r: Result<Font, ConversionError>)
    ensures
        match r {
            Ok(font) => font_of(context.deep_view()) == Ok::<FontModel, ConversionErrorModel>(
                font.deep_view(),
            ) && identifiers_in_order(font.deep_view()),
            Err(e) => font_of(context.deep_view()) == Err::<FontModel, ConversionErrorModel>(
                e.deep_view(),
            ),
        },
{
    let properties = match FontProperties::from_context(context) {
        Ok(p) => p,
        Err(e) => {
            return Err(e);
        },
    };
    let font_master = match masters_from(context) {
        Ok(m) => m,
        Err(e) => {
            return Err(e);
        },
    };
    let instances = match try_map_model(
        &context.designspace().instances,
        instance_from,
        Ghost(|i: InstanceSourceModel| instance_of(i)),
    ) {
        Ok(i) => i,
        Err(e) => {
            return Err(e);
        },
    };
    let slots = match source_layers(context) {
        Ok(s) => s,
        Err(e) => {
            return Err(e);
        },
    };
    let default_layer = match context.default_layer() {
        Ok(layer) => layer,
        Err(e) => {
            return Err(e);
        },
    };
    let glyphs = glyphs_from(default_layer, &slots, &properties.glyph_order);
    let other_stuff = font_entries(context, &properties.glyph_order);
    proof {
        use_type_invariant(context);
        lemma_identifiers_in_order(context.deep_view());
    }
    Ok(
        Font {
            disables_automatic_alignment: Some(properties.disables_automatic_alignment),
            family_name: properties.family_name,
            font_master,
            glyphs,
            instances: Some(instances),
            other_stuff,
            units_per_em: properties.units_per_em,
            version_major: properties.version_major,
            version_minor: properties.version_minor,
        },
    )
}

} // verus!
