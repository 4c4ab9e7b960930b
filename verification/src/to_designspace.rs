//! From a Glyphs source back into the font objects of a designspace.
//!
//! Each font object receives the layers that the designspace draws in it.
//! A layer or a glyph that the font object lacks is passed over and
//! reported; a name or an outline that cannot be handed over stops the
//! conversion.

use vstd::prelude::*;
use crate::codepoints::{codepoints_clone, codepoints_new};
use crate::context::{find_ufo, ufo_index};
use crate::designspace::{Designspace, DesignspaceModel, Source, SourceModel};
use crate::error::{ConversionError, ConversionErrorModel, ErrorKind};
use crate::font::{
    Anchor, AnchorModel, Component, ComponentModel, Font, FontMaster, FontMasterModel, FontModel,
    Glyph, GlyphModel, Layer, LayerModel, Path, PathModel,
};
use crate::location::{location_of, location_text, Location};
use crate::seqs::{collect, first_match, lemma_first_match, lemma_first_match_alike};
use crate::ufo::{
    Contour, ContourModel, Ufo, UfoAnchor, UfoAnchorModel, UfoComponent, UfoComponentModel,
    UfoGlyph, UfoGlyphModel, UfoLayerModel, UfoModel,
};
use crate::vecs::{find_first, index_model, try_map_model};

verus! {

/// The index of the first entry under `key`.
pub open spec fn key_index<V>(entries: Seq<(Seq<char>, V)>, key: Seq<char>) -> Option<int> {
    first_match(entries, |e: (Seq<char>, V)| e.0 == key)
}

/// The entries with `value` under `key`: in the place of the first entry
/// under that key, or at the end where there is none.
pub open spec fn upsert<V>(entries: Seq<(Seq<char>, V)>, key: Seq<char>, value: V) -> Seq<
    (Seq<char>, V),
> {
    match key_index(entries, key) {
        Some(i) => entries.update(i, (key, value)),
        None => entries.push((key, value)),
    }
}

/// The layers that a font object receives: for each identifier of a master
/// or name of another layer of the Glyphs source, the layer of the font
/// object that it goes to, which is the default layer where no name is given.
pub type LayerTargets = Vec<(String, Option<String>)>;

/// What a [`LayerTargets`] stands for.
pub type LayerTargetsModel = Seq<(Seq<char>, Option<Seq<char>>)>;

/// What the sources of a designspace ask of one font object.
pub open spec fn targets_in(
    mapping: Seq<(Seq<char>, LayerTargetsModel)>,
    filename: Seq<char>,
) -> LayerTargetsModel {
    match key_index(mapping, filename) {
        Some(i) => mapping[i].1,
        None => Seq::empty(),
    }
}

/// The entry that a source adds to what its font object receives. A source
/// with a layer sends the layer of the Glyphs source that is named after
/// the source's location to that layer. A source without one sends the layer
/// of the master that has the source's style name to the default layer.
pub open spec fn target_of(font: FontModel, source: SourceModel) -> Result<
    (Seq<char>, Option<Seq<char>>),
    ConversionErrorModel,
> {
    match source.layer {
        Some(layer) => match location_of(source.location) {
            Ok(values) => Ok((location_text(values), Some(layer))),
            Err(e) => Err(e),
        },
        None => match source.stylename {
            None => Err(ConversionErrorModel::new(ErrorKind::MissingStyleName, source.name)),
            Some(style) => match first_match(
                font.font_master,
                |m: FontMasterModel| m.name() == Some(style),
            ) {
                Some(k) => Ok((font.font_master[k].id, None)),
                None => Err(ConversionErrorModel::new(ErrorKind::MissingMaster, style)),
            },
        },
    }
}

/// What each font object receives, by the name of its file, after the given
/// sources have been read in order. A later source under the same key takes
/// the place of an earlier one.
pub open spec fn mapping_of(font: FontModel, sources: Seq<SourceModel>) -> Result<
    Seq<(Seq<char>, LayerTargetsModel)>,
    ConversionErrorModel,
>
    decreases sources.len(),
{
    if sources.len() == 0 {
        Ok(Seq::empty())
    } else {
        match mapping_of(font, sources.drop_last()) {
            Err(e) => Err(e),
            Ok(mapping) => match target_of(font, sources.last()) {
                Err(e) => Err(e),
                Ok((key, value)) => {
                    let filename = sources.last().filename;
                    Ok(upsert(mapping, filename, upsert(targets_in(mapping, filename), key, value)))
                },
            },
        }
    }
}

/// A Glyphs source, and what each font object of a designspace receives
/// from it.
#[derive(Debug, PartialEq)]
pub struct Glyphs2DesignspaceContext {
    pub font: Font,
    /// For each font object, by the name of its file, the layers that it
    /// receives.
    pub ufo_mapping: Vec<(String, LayerTargets)>,
}

/// What a [`Glyphs2DesignspaceContext`] stands for.
pub struct Glyphs2DesignspaceContextModel {
    pub font: FontModel,
    pub ufo_mapping: Seq<(Seq<char>, LayerTargetsModel)>,
}

impl DeepView for Glyphs2DesignspaceContext {
    type V = Glyphs2DesignspaceContextModel;

    open spec fn deep_view(&self) -> Glyphs2DesignspaceContextModel {
        Glyphs2DesignspaceContextModel {
            font: self.font.deep_view(),
            ufo_mapping: self.ufo_mapping.deep_view(),
        }
    }
}

/// Puts `value` under `key`: in the place of the first entry under that key,
/// or at the end where there is none.
fn put_target(entries: &mut LayerTargets, key: String, value: Option<String>)
    ensures
        final(entries).deep_view() == upsert(old(entries).deep_view(), key@, value.deep_view()),
{
    let ghost before = entries.deep_view();
    let under_key = |e: &(String, Option<String>)| -> (b: bool)
        ensures
            b == (e.0@ == key@),
        { e.0 == key };
    let found = find_first(
        entries,
        under_key,
        Ghost(|e: (Seq<char>, Option<Seq<char>>)| e.0 == key@),
    );
    match found {
        Some(i) => {
            entries.set(i, (key, value));
            assert(entries.deep_view() =~= before.update(i as int, (key@, value.deep_view())));
        },
        None => {
            entries.push((key, value));
            assert(entries.deep_view() =~= before.push((key@, value.deep_view())));
        },
    }
}

/// The index of the first master with the given style name.
fn find_master(font: &Font, style: &str) -> (r: Option<usize>)
    ensures
        index_model(r) == first_match(
            font.deep_view().font_master,
            |m: FontMasterModel| m.name() == Some(style@),
        ),
        r matches Some(i) ==> i < font.font_master@.len(),
{
    let has_style = |m: &FontMaster| -> (b: bool)
        ensures
            b == (m.deep_view().name() == Some(style@)),
        {
            match m.name() {
                Some(name) => name.eq(style),
                None => false,
            }
        };
    find_first(&font.font_master, has_style, Ghost(|m: FontMasterModel| m.name() == Some(style@)))
}

/// The entry that `source` adds to what its font object receives.
fn target_for(font: &Font, source: &Source) -> (r: Result<
    (String, Option<String>),
    ConversionError,
>)
    ensures
        match r {
            Ok(t) => target_of(font.deep_view(), source.deep_view()) == Ok::<
                (Seq<char>, Option<Seq<char>>),
                ConversionErrorModel,
            >(t.deep_view()),
            Err(e) => target_of(font.deep_view(), source.deep_view()) == Err::<
                (Seq<char>, Option<Seq<char>>),
                ConversionErrorModel,
            >(e.deep_view()),
        },
{
    match &source.layer {
        Some(layer) => match Location::from_dimension(&source.location) {
            Ok(location) => Ok((location.to_string(), Some(layer.clone()))),
            Err(e) => Err(e),
        },
        None => match &source.stylename {
            None => Err(ConversionError::new(ErrorKind::MissingStyleName, source.name.as_str())),
            Some(style) => match find_master(font, style.as_str()) {
                Some(k) => Ok((font.font_master[k].id.clone(), None)),
                None => Err(ConversionError::new(ErrorKind::MissingMaster, style.as_str())),
            },
        },
    }
}

/// Adds the entry `key`, `value` to what the font object `filename`
/// receives.
fn put_in_mapping(
    mapping: &mut Vec<(String, LayerTargets)>,
    filename: &String,
    key: String,
    value: Option<String>,
)
    ensures
        final(mapping).deep_view() == upsert(
            old(mapping).deep_view(),
            filename@,
            upsert(targets_in(old(mapping).deep_view(), filename@), key@, value.deep_view()),
        ),
{
    let ghost before = mapping.deep_view();
    let of_file = |e: &(String, LayerTargets)| -> (b: bool)
        ensures
            b == (e.0@ == filename@),
        { e.0 == *filename };
    let found = find_first(
        mapping,
        of_file,
        Ghost(|e: (Seq<char>, LayerTargetsModel)| e.0 == filename@),
    );
    match found {
        Some(i) => {
            let mut targets: LayerTargets = Vec::new();
            let ghost inner = mapping@[i as int].1.deep_view();
            targets.append(&mut mapping[i].1);
            assert(targets.deep_view() =~= inner);
            put_target(&mut targets, key, value);
            let ghost updated = targets.deep_view();
            mapping.set(i, (filename.clone(), targets));
            assert(mapping.deep_view() =~= before.update(i as int, (filename@, updated)));
        },
        None => {
            let mut targets: LayerTargets = Vec::new();
            assert(targets.deep_view() =~= Seq::empty());
            put_target(&mut targets, key, value);
            let ghost updated = targets.deep_view();
            mapping.push((filename.clone(), targets));
            assert(mapping.deep_view() =~= before.push((filename@, updated)));
        },
    }
}

impl Glyphs2DesignspaceContext {
    /// The Glyphs source `font` with what each font object of `designspace`
    /// receives from it. Fails where a master source has no style name or no
    /// master with that name, and where a source with a layer has no
    /// location, or one of more than six coordinates.
    pub fn new(font: Font, designspace: &Designspace) -> (r: Result<
        Glyphs2DesignspaceContext,
        ConversionError,
    >)
        ensures
            match r {
                Ok(c) => c.font == font && mapping_of(
                    font.deep_view(),
                    designspace.deep_view().sources,
                ) == Ok::<Seq<(Seq<char>, LayerTargetsModel)>, ConversionErrorModel>(
                    c.deep_view().ufo_mapping,
                ),
                Err(e) => mapping_of(font.deep_view(), designspace.deep_view().sources) == Err::<
                    Seq<(Seq<char>, LayerTargetsModel)>,
                    ConversionErrorModel,
                >(e.deep_view()),
            },
    {
        let ghost sources = designspace.deep_view().sources;
        let mut ufo_mapping: Vec<(String, LayerTargets)> = Vec::new();
        let mut i: usize = 0;
        assert(sources.take(0) =~= Seq::<SourceModel>::empty());
        assert(ufo_mapping.deep_view() =~= Seq::empty());
        while i < designspace.sources.len()
            invariant
                i <= designspace.sources.len(),
                sources == designspace.deep_view().sources,
                mapping_of(font.deep_view(), sources.take(i as int)) == Ok::<
                    Seq<(Seq<char>, LayerTargetsModel)>,
                    ConversionErrorModel,
                >(ufo_mapping.deep_view()),
            decreases designspace.sources.len() - i,
        {
            let source = &designspace.sources[i];
            proof {
                assert(sources.take(i + 1).drop_last() =~= sources.take(i as int));
                assert(sources.take(i + 1).last() == sources[i as int]);
            }
            match target_for(&font, source) {
                Err(e) => {
                    proof {
                        lemma_mapping_error(font.deep_view(), sources, i + 1);
                    }
                    return Err(e);
                },
                Ok((key, value)) => {
                    put_in_mapping(&mut ufo_mapping, &source.filename, key, value);
                },
            }
            i += 1;
        }
        assert(sources.take(sources.len() as int) =~= sources);
        Ok(Glyphs2DesignspaceContext { font, ufo_mapping })
    }
}

/// An error among the first sources is the error of them all.
proof fn lemma_mapping_error(font: FontModel, sources: Seq<SourceModel>, k: int)
    requires
        0 <= k <= sources.len(),
        mapping_of(font, sources.take(k)) is Err,
    ensures
        mapping_of(font, sources) == mapping_of(font, sources.take(k)),
    decreases sources.len() - k,
{
    if k == sources.len() {
        assert(sources.take(k) =~= sources);
    } else {
        assert(sources.take(k + 1).drop_last() =~= sources.take(k));
        lemma_mapping_error(font, sources, k + 1);
    }
}

/// `s`, or nothing at all where there is none.
pub open spec fn or_empty<T>(s: Option<Seq<T>>) -> Seq<T> {
    match s {
        Some(s) => s,
        None => Seq::empty(),
    }
}

/// The anchor that a font object has for `anchor`.
pub open spec fn anchor_result(anchor: AnchorModel) -> Result<UfoAnchorModel, ConversionErrorModel> {
    match anchor.to_ufo() {
        Some(a) => Ok(a),
        None => Err(ConversionErrorModel::new(ErrorKind::InvalidName, anchor.name)),
    }
}

/// The component that a font object has for `component`.
pub open spec fn component_result(component: ComponentModel) -> Result<
    UfoComponentModel,
    ConversionErrorModel,
> {
    match component.to_ufo() {
        Some(c) => Ok(c),
        None => Err(ConversionErrorModel::new(ErrorKind::InvalidName, component.name)),
    }
}

/// The contour that a font object has for `path`.
pub open spec fn contour_result(path: PathModel) -> Result<ContourModel, ConversionErrorModel> {
    match path.to_contour() {
        Some(c) => Ok(c),
        None => Err(ConversionErrorModel::new(ErrorKind::OpenPathStart, Seq::empty())),
    }
}

/// The drawing that a font object has for the layer `layer` of the glyph
/// `glyph`: the layer's width, anchors, contours and components, and the
/// glyph's code points. Every name must be one that a font object accepts,
/// and every open path must start with a plain line node.
pub open spec fn ufo_glyph_of(glyph: GlyphModel, layer: LayerModel) -> Result<
    UfoGlyphModel,
    ConversionErrorModel,
> {
    match collect(or_empty(layer.anchors).map_values(|a: AnchorModel| anchor_result(a))) {
        Err(e) => Err(e),
        Ok(anchors) => match collect(
            or_empty(layer.paths).map_values(|p: PathModel| contour_result(p)),
        ) {
            Err(e) => Err(e),
            Ok(contours) => match collect(
                or_empty(layer.components).map_values(|c: ComponentModel| component_result(c)),
            ) {
                Err(e) => Err(e),
                Ok(components) => Ok(
                    UfoGlyphModel {
                        name: "converted_glyph"@,
                        width: layer.width,
                        codepoints: match glyph.unicode {
                            Some(c) => c,
                            None => Seq::empty(),
                        },
                        anchors,
                        contours,
                        components,
                    },
                ),
            },
        },
    }
}

fn anchors_to_ufo(anchors: &Option<Vec<Anchor>>) -> (r: Result<Vec<UfoAnchor>, ConversionError>)
    ensures
        match r {
            Ok(a) => collect(
                or_empty(anchors.deep_view()).map_values(|a: AnchorModel| anchor_result(a)),
            ) == Ok::<Seq<UfoAnchorModel>, ConversionErrorModel>(a.deep_view()),
            Err(e) => collect(
                or_empty(anchors.deep_view()).map_values(|a: AnchorModel| anchor_result(a)),
            ) == Err::<Seq<UfoAnchorModel>, ConversionErrorModel>(e.deep_view()),
        },
{
    let ghost g = |a: AnchorModel| anchor_result(a);
    match anchors {
        Some(anchors) => {
            let r = try_map_model(anchors, Anchor::to_ufo, Ghost(g));
            assert(anchors.deep_view().map_values(g) =~= or_empty(Some(anchors.deep_view())).map_values(
                |a: AnchorModel| anchor_result(a),
            ));
            r
        },
        None => {
            let r: Vec<UfoAnchor> = Vec::new();
            proof {
                let s = Seq::<AnchorModel>::empty().map_values(|a: AnchorModel| anchor_result(a));
                crate::seqs::lemma_collect_ok(s, r.deep_view());
            }
            Ok(r)
        },
    }
}

fn paths_to_ufo(paths: &Option<Vec<Path>>) -> (r: Result<Vec<Contour>, ConversionError>)
    ensures
        match r {
            Ok(c) => collect(or_empty(paths.deep_view()).map_values(|p: PathModel| contour_result(p)))
                == Ok::<Seq<ContourModel>, ConversionErrorModel>(c.deep_view()),
            Err(e) => collect(
                or_empty(paths.deep_view()).map_values(|p: PathModel| contour_result(p)),
            ) == Err::<Seq<ContourModel>, ConversionErrorModel>(e.deep_view()),
        },
{
    let ghost g = |p: PathModel| contour_result(p);
    match paths {
        Some(paths) => {
            let r = try_map_model(paths, Path::to_contour, Ghost(g));
            assert(paths.deep_view().map_values(g) =~= or_empty(Some(paths.deep_view())).map_values(
                |p: PathModel| contour_result(p),
            ));
            r
        },
        None => {
            let r: Vec<Contour> = Vec::new();
            proof {
                let s = Seq::<PathModel>::empty().map_values(|p: PathModel| contour_result(p));
                crate::seqs::lemma_collect_ok(s, r.deep_view());
            }
            Ok(r)
        },
    }
}

fn components_to_ufo(components: &Option<Vec<Component>>) -> (r: Result<
    Vec<UfoComponent>,
    ConversionError,
>)
    ensures
        match r {
            Ok(c) => collect(
                or_empty(components.deep_view()).map_values(
                    |c: ComponentModel| component_result(c),
                ),
            ) == Ok::<Seq<UfoComponentModel>, ConversionErrorModel>(c.deep_view()),
            Err(e) => collect(
                or_empty(components.deep_view()).map_values(
                    |c: ComponentModel| component_result(c),
                ),
            ) == Err::<Seq<UfoComponentModel>, ConversionErrorModel>(e.deep_view()),
        },
{
    let ghost g = |c: ComponentModel| component_result(c);
    match components {
        Some(components) => {
            let r = try_map_model(components, Component::to_ufo, Ghost(g));
            assert(components.deep_view().map_values(g) =~= or_empty(
                Some(components.deep_view()),
            ).map_values(|c: ComponentModel| component_result(c)));
            r
        },
        None => {
            let r: Vec<UfoComponent> = Vec::new();
            proof {
                let s = Seq::<ComponentModel>::empty().map_values(
                    |c: ComponentModel| component_result(c),
                );
                crate::seqs::lemma_collect_ok(s, r.deep_view());
            }
            Ok(r)
        },
    }
}

/// The drawing that a font object has for the layer `layer` of the glyph
/// `glyph`. Fails on a name that a font object does not accept, and on an
/// open path that does not start with a plain line node.
pub fn convert_glyphs_glyph_to_ufo_glyph(glyph: &Glyph, layer: &Layer) -> (r: Result<
    UfoGlyph,
    ConversionError,
>)
    ensures
        match r {
            Ok(g) => ufo_glyph_of(glyph.deep_view(), layer.deep_view()) == Ok::<
                UfoGlyphModel,
                ConversionErrorModel,
            >(g.deep_view()),
            Err(e) => ufo_glyph_of(glyph.deep_view(), layer.deep_view()) == Err::<
                UfoGlyphModel,
                ConversionErrorModel,
            >(e.deep_view()),
        },
{
    let anchors = match anchors_to_ufo(&layer.anchors) {
        Ok(a) => a,
        Err(e) => {
            return Err(e);
        },
    };
    let contours = match paths_to_ufo(&layer.paths) {
        Ok(c) => c,
        Err(e) => {
            return Err(e);
        },
    };
    let components = match components_to_ufo(&layer.components) {
        Ok(c) => c,
        Err(e) => {
            return Err(e);
        },
    };
    let codepoints = match &glyph.unicode {
        Some(c) => codepoints_clone(c),
        None => {
            let none: Vec<char> = Vec::new();
            assert(crate::seqs::distinct(none@) =~= Seq::<char>::empty());
            codepoints_new(&none)
        },
    };
    Ok(
        UfoGlyph {
            name: "converted_glyph".to_owned(),
            width: layer.width.copy(),
            codepoints,
            anchors,
            contours,
            components,
        },
    )
}

/// What was passed over because a font object lacks it.
#[derive(Debug, PartialEq, Eq)]
pub enum Skipped {
    /// The font object has no layer of this name.
    Layer(String),
    /// The layer that the given layer of the Glyphs source goes to has no
    /// glyph of this name. A layer without a name is the layer of a master.
    Glyph { glyph: String, layer: Option<String> },
}

/// What a [`Skipped`] stands for.
pub enum SkippedModel {
    Layer(Seq<char>),
    Glyph { glyph: Seq<char>, layer: Option<Seq<char>> },
}

impl DeepView for Skipped {
    type V = SkippedModel;

    open spec fn deep_view(&self) -> SkippedModel {
        match self {
            Skipped::Layer(name) => SkippedModel::Layer(name@),
            Skipped::Glyph { glyph, layer } => SkippedModel::Glyph {
                glyph: glyph@,
                layer: layer.deep_view(),
            },
        }
    }
}

/// The key under which a layer of a Glyphs source is looked for: its name,
/// or its identifier where it has no name.
pub open spec fn layer_key(layer: LayerModel) -> Seq<char> {
    match layer.name {
        Some(name) => name,
        None => layer.layer_id,
    }
}

/// The index of the layer of the font object that `target` names, and
/// whether it is the default layer. No name means the default layer, which
/// is the first.
pub open spec fn target_layer(ufo: UfoModel, target: Option<Seq<char>>) -> (Option<int>, bool) {
    match target {
        None => (
            if ufo.layers.len() > 0 {
                Some(0int)
            } else {
                None
            },
            true,
        ),
        Some(name) => (ufo.layer_index(name), ufo.layers.len() > 0 && ufo.layers[0].name == name),
    }
}

/// The glyph of a font object after it was overwritten: it keeps its name,
/// and takes the width, anchors, contours and components of `converted`. It
/// takes the code points too where it stands in the default layer; in any
/// other layer it has none.
pub open spec fn written_glyph(existing: UfoGlyphModel, converted: UfoGlyphModel, is_default: bool)
    -> UfoGlyphModel {
    UfoGlyphModel {
        name: existing.name,
        width: converted.width,
        codepoints: if is_default {
            converted.codepoints
        } else {
            Seq::empty()
        },
        anchors: converted.anchors,
        contours: converted.contours,
        components: converted.components,
    }
}

/// Code points go into the default layer only: a glyph that is written into
/// another layer has none, whatever the glyph of the Glyphs source has, and
/// one that is written into the default layer has those of that glyph.
pub proof fn lemma_codepoints_in_default_layer_only(
    existing: UfoGlyphModel,
    glyph: GlyphModel,
    layer: LayerModel,
)
    requires
        ufo_glyph_of(glyph, layer) is Ok,
    ensures
        written_glyph(existing, ufo_glyph_of(glyph, layer)->Ok_0, false).codepoints
            == Seq::<char>::empty(),
        written_glyph(existing, ufo_glyph_of(glyph, layer)->Ok_0, true).codepoints == or_empty(
            glyph.unicode,
        ),
{
}

/// The font object with `glyph` in the place `gi` of its layer `li`.
pub open spec fn with_glyph(ufo: UfoModel, li: int, gi: int, glyph: UfoGlyphModel) -> UfoModel {
    UfoModel {
        layers: ufo.layers.update(
            li,
            UfoLayerModel { glyphs: ufo.layers[li].glyphs.update(gi, glyph), ..ufo.layers[li] },
        ),
        ..ufo
    }
}

/// The font object, and what was passed over so far, after one layer of a
/// glyph was handed over. A layer that the font object does not receive
/// changes nothing. A layer or a glyph that the font object lacks is passed
/// over and noted.
pub open spec fn apply_layer(
    state: (UfoModel, Seq<SkippedModel>),
    targets: LayerTargetsModel,
    glyph: GlyphModel,
    layer: LayerModel,
) -> Result<(UfoModel, Seq<SkippedModel>), ConversionErrorModel> {
    let (ufo, skipped) = state;
    match key_index(targets, layer_key(layer)) {
        None => Ok(state),
        Some(t) => {
            let target = targets[t].1;
            let (li, is_default) = target_layer(ufo, target);
            match li {
                None => Ok((ufo, skipped.push(SkippedModel::Layer(or_empty(target))))),
                Some(li) => match ufo.layers[li].glyph_index(glyph.glyphname) {
                    None => Ok(
                        (
                            ufo,
                            skipped.push(
                                SkippedModel::Glyph { glyph: glyph.glyphname, layer: layer.name },
                            ),
                        ),
                    ),
                    Some(gi) => match ufo_glyph_of(glyph, layer) {
                        Err(e) => Err(e),
                        Ok(converted) => Ok(
                            (
                                with_glyph(
                                    ufo,
                                    li,
                                    gi,
                                    written_glyph(ufo.layers[li].glyphs[gi], converted, is_default),
                                ),
                                skipped,
                            ),
                        ),
                    },
                },
            }
        },
    }
}

/// The state after the given layers of a glyph were handed over in order.
pub open spec fn apply_layers(
    state: (UfoModel, Seq<SkippedModel>),
    targets: LayerTargetsModel,
    glyph: GlyphModel,
    layers: Seq<LayerModel>,
) -> Result<(UfoModel, Seq<SkippedModel>), ConversionErrorModel>
    decreases layers.len(),
{
    if layers.len() == 0 {
        Ok(state)
    } else {
        match apply_layers(state, targets, glyph, layers.drop_last()) {
            Err(e) => Err(e),
            Ok(next) => apply_layer(next, targets, glyph, layers.last()),
        }
    }
}

/// The state after all layers of the given glyphs were handed over in order.
pub open spec fn apply_glyphs(
    state: (UfoModel, Seq<SkippedModel>),
    targets: LayerTargetsModel,
    glyphs: Seq<GlyphModel>,
) -> Result<(UfoModel, Seq<SkippedModel>), ConversionErrorModel>
    decreases glyphs.len(),
{
    if glyphs.len() == 0 {
        Ok(state)
    } else {
        match apply_glyphs(state, targets, glyphs.drop_last()) {
            Err(e) => Err(e),
            Ok(next) => apply_layers(next, targets, glyphs.last(), glyphs.last().layers),
        }
    }
}

/// The glyph is as it was, or it has no code points.
pub open spec fn kept_or_cleared(before: UfoGlyphModel, after: UfoGlyphModel) -> bool {
    after == before || after.codepoints.len() == 0
}

/// The layer `after` is the layer `before` with some of its glyphs
/// overwritten: it has the same name and the same glyphs by name, and,
/// unless it is the default layer, each of its glyphs is as it was or has no
/// code points.
pub open spec fn layer_overwritten(before: UfoLayerModel, after: UfoLayerModel, is_default: bool)
    -> bool {
    &&& after.name == before.name
    &&& after.glyphs.len() == before.glyphs.len()
    &&& forall|g: int|
        0 <= g < before.glyphs.len() ==> (#[trigger] after.glyphs[g]).name == before.glyphs[g].name
            && (is_default || kept_or_cleared(before.glyphs[g], after.glyphs[g]))
}

/// The font object `after` is the font object `before` with some of its
/// glyphs overwritten: it has the same metadata and the same layers by name,
/// each with the same glyphs by name, and outside the default layer each
/// glyph is as it was or has no code points.
pub open spec fn overwritten(before: UfoModel, after: UfoModel) -> bool {
    &&& after.font_info == before.font_info
    &&& after.lib == before.lib
    &&& after.layers.len() == before.layers.len()
    &&& forall|l: int|
        0 <= l < before.layers.len() ==> layer_overwritten(
            before.layers[l],
            #[trigger] after.layers[l],
            l == 0,
        )
}

/// What was overwritten twice was overwritten.
pub proof fn lemma_overwritten_twice(a: UfoModel, b: UfoModel, c: UfoModel)
    requires
        overwritten(a, b),
        overwritten(b, c),
    ensures
        overwritten(a, c),
{
    assert forall|l: int| 0 <= l < a.layers.len() implies layer_overwritten(
        a.layers[l],
        #[trigger] c.layers[l],
        l == 0,
    ) by {
        assert(layer_overwritten(a.layers[l], b.layers[l], l == 0));
        assert(layer_overwritten(b.layers[l], c.layers[l], l == 0));
        assert forall|g: int| 0 <= g < a.layers[l].glyphs.len() implies (
        #[trigger] c.layers[l].glyphs[g]).name == a.layers[l].glyphs[g].name && (l == 0
            || kept_or_cleared(a.layers[l].glyphs[g], c.layers[l].glyphs[g])) by {
            assert(b.layers[l].glyphs[g].name == a.layers[l].glyphs[g].name);
        }
    }
}

/// A font object that was overwritten has its layers and its glyphs where
/// they were.
pub proof fn lemma_overwritten_places(
    before: UfoModel,
    after: UfoModel,
    target: Option<Seq<char>>,
    name: Seq<char>,
)
    requires
        overwritten(before, after),
    ensures
        target_layer(after, target) == target_layer(before, target),
        forall|l: int|
            0 <= l < before.layers.len() ==> (#[trigger] after.layers[l]).glyph_index(name)
                == before.layers[l].glyph_index(name),
{
    match target {
        Some(layer) => {
            assert forall|l: int| 0 <= l < before.layers.len() implies (#[trigger] before.layers[l]).name
                == after.layers[l].name by {
                assert(layer_overwritten(before.layers[l], after.layers[l], l == 0));
            }
            lemma_first_match_alike(
                before.layers,
                |l: UfoLayerModel| l.name == layer,
                after.layers,
                |l: UfoLayerModel| l.name == layer,
            );
        },
        None => {},
    }
    assert forall|l: int| 0 <= l < before.layers.len() implies (#[trigger] after.layers[l]).glyph_index(
        name,
    ) == before.layers[l].glyph_index(name) by {
        assert(layer_overwritten(before.layers[l], after.layers[l], l == 0));
        lemma_first_match_alike(
            before.layers[l].glyphs,
            |g: UfoGlyphModel| g.name == name,
            after.layers[l].glyphs,
            |g: UfoGlyphModel| g.name == name,
        );
    }
}

/// Handing one layer over overwrites the font object. Where the layer goes
/// to a layer of the font object that is not its default layer, and to a
/// glyph that is there, that glyph has no code points afterwards.
pub proof fn lemma_layer_overwrites(
    state: (UfoModel, Seq<SkippedModel>),
    targets: LayerTargetsModel,
    glyph: GlyphModel,
    layer: LayerModel,
)
    requires
        apply_layer(state, targets, glyph, layer) is Ok,
    ensures
        overwritten(state.0, apply_layer(state, targets, glyph, layer)->Ok_0.0),
        goes_to(state.0, targets, glyph, layer) matches Some((li, gi)) ==> li > 0 ==> apply_layer(
            state,
            targets,
            glyph,
            layer,
        )->Ok_0.0.layers[li].glyphs[gi].codepoints.len() == 0,
{
    let ufo = state.0;
    let after = apply_layer(state, targets, glyph, layer)->Ok_0.0;
    lemma_first_match(targets, |e: (Seq<char>, Option<Seq<char>>)| e.0 == layer_key(layer));
    if goes_to(ufo, targets, glyph, layer) is Some {
        let t = key_index(targets, layer_key(layer))->0;
        let target = targets[t].1;
        let (li, gi) = goes_to(ufo, targets, glyph, layer)->0;
        match target {
            Some(name) => {
                lemma_first_match(ufo.layers, |l: UfoLayerModel| l.name == name);
            },
            None => {},
        }
        lemma_first_match(ufo.layers[li].glyphs, |g: UfoGlyphModel| g.name == glyph.glyphname);
        let is_default = target_layer(ufo, target).1;
        assert(is_default <==> li == 0);
        let written = written_glyph(
            ufo.layers[li].glyphs[gi],
            ufo_glyph_of(glyph, layer)->Ok_0,
            is_default,
        );
        assert(after == with_glyph(ufo, li, gi, written));
        assert forall|l: int| 0 <= l < ufo.layers.len() implies layer_overwritten(
            ufo.layers[l],
            #[trigger] after.layers[l],
            l == 0,
        ) by {
            if l == li {
                assert forall|g: int| 0 <= g < ufo.layers[l].glyphs.len() implies (
                #[trigger] after.layers[l].glyphs[g]).name == ufo.layers[l].glyphs[g].name && (l == 0
                    || kept_or_cleared(ufo.layers[l].glyphs[g], after.layers[l].glyphs[g])) by {}
            }
        }
    } else {
        assert(after == ufo);
        assert forall|l: int| 0 <= l < ufo.layers.len() implies layer_overwritten(
            ufo.layers[l],
            #[trigger] after.layers[l],
            l == 0,
        ) by {}
    }
}

/// Where the layer `layer` of the glyph `glyph` goes in the font object: the
/// index of the layer that receives it and the index of the glyph there,
/// where both are there.
pub open spec fn goes_to(
    ufo: UfoModel,
    targets: LayerTargetsModel,
    glyph: GlyphModel,
    layer: LayerModel,
) -> Option<(int, int)> {
    match key_index(targets, layer_key(layer)) {
        None => None,
        Some(t) => match target_layer(ufo, targets[t].1).0 {
            None => None,
            Some(li) => match ufo.layers[li].glyph_index(glyph.glyphname) {
                None => None,
                Some(gi) => Some((li, gi)),
            },
        },
    }
}

/// A font object with nothing overwritten is overwritten.
pub proof fn lemma_overwritten_same(ufo: UfoModel)
    ensures
        overwritten(ufo, ufo),
{
    assert forall|l: int| 0 <= l < ufo.layers.len() implies layer_overwritten(
        ufo.layers[l],
        #[trigger] ufo.layers[l],
        l == 0,
    ) by {}
}

/// A layer goes to the same place in a font object that was overwritten,
/// and that place is in the font object.
pub proof fn lemma_goes_to(
    before: UfoModel,
    after: UfoModel,
    targets: LayerTargetsModel,
    glyph: GlyphModel,
    layer: LayerModel,
)
    requires
        overwritten(before, after),
    ensures
        goes_to(after, targets, glyph, layer) == goes_to(before, targets, glyph, layer),
        goes_to(before, targets, glyph, layer) matches Some((li, gi)) ==> 0 <= li
            < before.layers.len() && 0 <= gi < before.layers[li].glyphs.len(),
{
    match key_index(targets, layer_key(layer)) {
        None => {},
        Some(t) => {
            let target = targets[t].1;
            lemma_overwritten_places(before, after, target, glyph.glyphname);
            match target {
                Some(name) => {
                    lemma_first_match(before.layers, |l: UfoLayerModel| l.name == name);
                },
                None => {},
            }
            match target_layer(before, target).0 {
                None => {},
                Some(li) => {
                    lemma_first_match(
                        before.layers[li].glyphs,
                        |g: UfoGlyphModel| g.name == glyph.glyphname,
                    );
                },
            }
        },
    }
}

/// Handing the layers of a glyph over overwrites the font object.
pub proof fn lemma_layers_overwrite(
    state: (UfoModel, Seq<SkippedModel>),
    targets: LayerTargetsModel,
    glyph: GlyphModel,
    layers: Seq<LayerModel>,
)
    requires
        apply_layers(state, targets, glyph, layers) is Ok,
    ensures
        overwritten(state.0, apply_layers(state, targets, glyph, layers)->Ok_0.0),
    decreases layers.len(),
{
    if layers.len() == 0 {
        lemma_overwritten_same(state.0);
    } else {
        let mid = apply_layers(state, targets, glyph, layers.drop_last())->Ok_0;
        let end = apply_layer(mid, targets, glyph, layers.last())->Ok_0;
        lemma_layers_overwrite(state, targets, glyph, layers.drop_last());
        lemma_layer_overwrites(mid, targets, glyph, layers.last());
        lemma_overwritten_twice(state.0, mid.0, end.0);
    }
}

/// Handing glyphs over overwrites the font object.
pub proof fn lemma_glyphs_overwrite(
    state: (UfoModel, Seq<SkippedModel>),
    targets: LayerTargetsModel,
    glyphs: Seq<GlyphModel>,
)
    requires
        apply_glyphs(state, targets, glyphs) is Ok,
    ensures
        overwritten(state.0, apply_glyphs(state, targets, glyphs)->Ok_0.0),
    decreases glyphs.len(),
{
    if glyphs.len() == 0 {
        lemma_overwritten_same(state.0);
    } else {
        let mid = apply_glyphs(state, targets, glyphs.drop_last())->Ok_0;
        let end = apply_layers(mid, targets, glyphs.last(), glyphs.last().layers)->Ok_0;
        lemma_glyphs_overwrite(state, targets, glyphs.drop_last());
        lemma_layers_overwrite(mid, targets, glyphs.last(), glyphs.last().layers);
        lemma_overwritten_twice(state.0, mid.0, end.0);
    }
}

/// Of the layers of a glyph that are handed over, one that goes to a layer
/// of the font object other than its default layer leaves the glyph there
/// without code points, whatever is handed over after it.
pub proof fn lemma_layers_clear(
    state: (UfoModel, Seq<SkippedModel>),
    targets: LayerTargetsModel,
    glyph: GlyphModel,
    layers: Seq<LayerModel>,
    b: int,
)
    requires
        apply_layers(state, targets, glyph, layers) is Ok,
        0 <= b < layers.len(),
        goes_to(state.0, targets, glyph, layers[b]) matches Some((li, gi)) && li > 0,
    ensures
        ({
            let (li, gi) = goes_to(state.0, targets, glyph, layers[b])->0;
            apply_layers(state, targets, glyph, layers)->Ok_0.0.layers[li].glyphs[gi].codepoints.len()
                == 0
        }),
    decreases layers.len(),
{
    let init = layers.drop_last();
    let mid = apply_layers(state, targets, glyph, init)->Ok_0;
    let end = apply_layer(mid, targets, glyph, layers.last())->Ok_0;
    let (li, gi) = goes_to(state.0, targets, glyph, layers[b])->0;
    lemma_layers_overwrite(state, targets, glyph, init);
    lemma_layer_overwrites(mid, targets, glyph, layers.last());
    lemma_goes_to(state.0, mid.0, targets, glyph, layers[b]);
    if b == layers.len() - 1 {
        assert(layers.last() == layers[b]);
    } else {
        assert(init[b] == layers[b]);
        lemma_layers_clear(state, targets, glyph, init, b);
        assert(layer_overwritten(mid.0.layers[li], end.0.layers[li], li == 0));
        assert(kept_or_cleared(mid.0.layers[li].glyphs[gi], end.0.layers[li].glyphs[gi]));
    }
}

/// Code points stay out of the other layers: of the glyphs that are handed
/// over, a layer that goes to a layer of the font object other than its
/// default layer leaves the glyph there without code points, whatever that
/// glyph had and whatever is handed over after it.
pub proof fn lemma_glyphs_clear(
    state: (UfoModel, Seq<SkippedModel>),
    targets: LayerTargetsModel,
    glyphs: Seq<GlyphModel>,
    a: int,
    b: int,
)
    requires
        apply_glyphs(state, targets, glyphs) is Ok,
        0 <= a < glyphs.len(),
        0 <= b < glyphs[a].layers.len(),
        goes_to(state.0, targets, glyphs[a], glyphs[a].layers[b]) matches Some((li, gi)) && li > 0,
    ensures
        ({
            let (li, gi) = goes_to(state.0, targets, glyphs[a], glyphs[a].layers[b])->0;
            apply_glyphs(state, targets, glyphs)->Ok_0.0.layers[li].glyphs[gi].codepoints.len() == 0
        }),
    decreases glyphs.len(),
{
    let init = glyphs.drop_last();
    let last = glyphs.last();
    let mid = apply_glyphs(state, targets, init)->Ok_0;
    let end = apply_layers(mid, targets, last, last.layers)->Ok_0;
    let (li, gi) = goes_to(state.0, targets, glyphs[a], glyphs[a].layers[b])->0;
    lemma_glyphs_overwrite(state, targets, init);
    lemma_layers_overwrite(mid, targets, last, last.layers);
    lemma_goes_to(state.0, mid.0, targets, glyphs[a], glyphs[a].layers[b]);
    if a == glyphs.len() - 1 {
        assert(last == glyphs[a]);
        lemma_layers_clear(mid, targets, last, last.layers, b);
    } else {
        assert(init[a] == glyphs[a]);
        lemma_glyphs_clear(state, targets, init, a, b);
        assert(layer_overwritten(mid.0.layers[li], end.0.layers[li], li == 0));
        assert(kept_or_cleared(mid.0.layers[li].glyphs[gi], end.0.layers[li].glyphs[gi]));
    }
}

/// The glyph of the default layer is as it was, or it has the code points
/// of one of the glyphs `glyphs` that has its name.
pub open spec fn kept_or_filled(
    before: UfoGlyphModel,
    after: UfoGlyphModel,
    glyphs: Seq<GlyphModel>,
) -> bool {
    after == before || exists|a: int|
        0 <= a < glyphs.len() && (#[trigger] glyphs[a]).glyphname == before.name
            && after.codepoints == or_empty(glyphs[a].unicode)
}

/// Each glyph of the default layer is as it was, or it has the code points
/// of one of the glyphs `glyphs` that has its name.
pub open spec fn default_filled(before: UfoModel, after: UfoModel, glyphs: Seq<GlyphModel>) -> bool {
    before.layers.len() > 0 ==> forall|g: int|
        0 <= g < before.layers[0].glyphs.len() ==> kept_or_filled(
            before.layers[0].glyphs[g],
            #[trigger] after.layers[0].glyphs[g],
            glyphs,
        )
}

/// The glyphs that have the name of the glyph at `a` have its code points.
pub open spec fn one_name_one_set(glyphs: Seq<GlyphModel>, a: int) -> bool {
    forall|other: int|
        0 <= other < glyphs.len() && (#[trigger] glyphs[other]).glyphname == glyphs[a].glyphname
            ==> or_empty(glyphs[other].unicode) == or_empty(glyphs[a].unicode)
}

/// A default layer that was filled twice was filled.
proof fn lemma_filled_twice(a: UfoModel, b: UfoModel, c: UfoModel, glyphs: Seq<GlyphModel>)
    requires
        overwritten(a, b),
        default_filled(a, b, glyphs),
        default_filled(b, c, glyphs),
    ensures
        default_filled(a, c, glyphs),
{
    if a.layers.len() > 0 {
        assert(layer_overwritten(a.layers[0], b.layers[0], true));
        assert forall|g: int| 0 <= g < a.layers[0].glyphs.len() implies kept_or_filled(
            a.layers[0].glyphs[g],
            #[trigger] c.layers[0].glyphs[g],
            glyphs,
        ) by {
            assert(b.layers[0].glyphs[g].name == a.layers[0].glyphs[g].name);
            assert(kept_or_filled(a.layers[0].glyphs[g], b.layers[0].glyphs[g], glyphs));
            assert(kept_or_filled(b.layers[0].glyphs[g], c.layers[0].glyphs[g], glyphs));
        }
    }
}

/// Handing one layer of the glyph at `a` over fills the default layer: where
/// the layer goes to a glyph of the default layer, that glyph has the code
/// points of the glyph at `a` afterwards.
proof fn lemma_layer_fills(
    state: (UfoModel, Seq<SkippedModel>),
    targets: LayerTargetsModel,
    glyphs: Seq<GlyphModel>,
    a: int,
    layer: LayerModel,
)
    requires
        0 <= a < glyphs.len(),
        apply_layer(state, targets, glyphs[a], layer) is Ok,
    ensures
        default_filled(state.0, apply_layer(state, targets, glyphs[a], layer)->Ok_0.0, glyphs),
        goes_to(state.0, targets, glyphs[a], layer) matches Some((li, gi)) ==> li == 0
            ==> apply_layer(state, targets, glyphs[a], layer)->Ok_0.0.layers[0].glyphs[gi].codepoints
            == or_empty(glyphs[a].unicode),
{
    let ufo = state.0;
    let glyph = glyphs[a];
    let after = apply_layer(state, targets, glyph, layer)->Ok_0.0;
    lemma_overwritten_same(ufo);
    lemma_goes_to(ufo, ufo, targets, glyph, layer);
    if goes_to(ufo, targets, glyph, layer) is Some {
        let t = key_index(targets, layer_key(layer))->0;
        let target = targets[t].1;
        let (li, gi) = goes_to(ufo, targets, glyph, layer)->0;
        lemma_first_match(ufo.layers[li].glyphs, |g: UfoGlyphModel| g.name == glyph.glyphname);
        match target {
            Some(name) => {
                lemma_first_match(ufo.layers, |l: UfoLayerModel| l.name == name);
            },
            None => {},
        }
        let is_default = target_layer(ufo, target).1;
        assert(is_default <==> li == 0);
        let written = written_glyph(
            ufo.layers[li].glyphs[gi],
            ufo_glyph_of(glyph, layer)->Ok_0,
            is_default,
        );
        assert(after == with_glyph(ufo, li, gi, written));
        if ufo.layers.len() > 0 {
            assert forall|g: int| 0 <= g < ufo.layers[0].glyphs.len() implies kept_or_filled(
                ufo.layers[0].glyphs[g],
                #[trigger] after.layers[0].glyphs[g],
                glyphs,
            ) by {
                if li == 0 && g == gi {
                    assert(glyphs[a].glyphname == ufo.layers[0].glyphs[g].name);
                }
            }
        }
    } else {
        assert(after == ufo);
    }
}

/// Handing layers of the glyph at `a` over fills the default layer.
proof fn lemma_layers_fill(
    state: (UfoModel, Seq<SkippedModel>),
    targets: LayerTargetsModel,
    glyphs: Seq<GlyphModel>,
    a: int,
    layers: Seq<LayerModel>,
)
    requires
        0 <= a < glyphs.len(),
        apply_layers(state, targets, glyphs[a], layers) is Ok,
    ensures
        default_filled(state.0, apply_layers(state, targets, glyphs[a], layers)->Ok_0.0, glyphs),
    decreases layers.len(),
{
    if layers.len() > 0 {
        let mid = apply_layers(state, targets, glyphs[a], layers.drop_last())->Ok_0;
        let end = apply_layer(mid, targets, glyphs[a], layers.last())->Ok_0;
        lemma_layers_fill(state, targets, glyphs, a, layers.drop_last());
        lemma_layers_overwrite(state, targets, glyphs[a], layers.drop_last());
        lemma_layer_fills(mid, targets, glyphs, a, layers.last());
        lemma_filled_twice(state.0, mid.0, end.0, glyphs);
    }
}

/// Handing the first `n` of the glyphs over fills the default layer.
proof fn lemma_glyphs_fill(
    state: (UfoModel, Seq<SkippedModel>),
    targets: LayerTargetsModel,
    glyphs: Seq<GlyphModel>,
    n: int,
)
    requires
        0 <= n <= glyphs.len(),
        apply_glyphs(state, targets, glyphs.take(n)) is Ok,
    ensures
        default_filled(state.0, apply_glyphs(state, targets, glyphs.take(n))->Ok_0.0, glyphs),
    decreases n,
{
    if n > 0 {
        assert(glyphs.take(n).drop_last() =~= glyphs.take(n - 1));
        assert(glyphs.take(n).last() == glyphs[n - 1]);
        let last = glyphs[n - 1];
        let mid = apply_glyphs(state, targets, glyphs.take(n - 1))->Ok_0;
        let end = apply_layers(mid, targets, last, last.layers)->Ok_0;
        lemma_glyphs_fill(state, targets, glyphs, n - 1);
        lemma_glyphs_overwrite(state, targets, glyphs.take(n - 1));
        lemma_layers_fill(mid, targets, glyphs, n - 1, last.layers);
        lemma_filled_twice(state.0, mid.0, end.0, glyphs);
    }
}

/// Of the layers of the glyph at `a` that are handed over, one that goes to
/// a glyph of the default layer leaves it with the code points of the glyph
/// at `a`, whatever is handed over after it.
proof fn lemma_layers_set(
    state: (UfoModel, Seq<SkippedModel>),
    targets: LayerTargetsModel,
    glyphs: Seq<GlyphModel>,
    a: int,
    layers: Seq<LayerModel>,
    b: int,
)
    requires
        0 <= a < glyphs.len(),
        one_name_one_set(glyphs, a),
        apply_layers(state, targets, glyphs[a], layers) is Ok,
        0 <= b < layers.len(),
        goes_to(state.0, targets, glyphs[a], layers[b]) matches Some((li, gi)) && li == 0,
    ensures
        ({
            let (li, gi) = goes_to(state.0, targets, glyphs[a], layers[b])->0;
            apply_layers(state, targets, glyphs[a], layers)->Ok_0.0.layers[0].glyphs[gi].codepoints
                == or_empty(glyphs[a].unicode)
        }),
    decreases layers.len(),
{
    let glyph = glyphs[a];
    let init = layers.drop_last();
    let mid = apply_layers(state, targets, glyph, init)->Ok_0;
    let end = apply_layer(mid, targets, glyph, layers.last())->Ok_0;
    let (li, gi) = goes_to(state.0, targets, glyph, layers[b])->0;
    lemma_layers_overwrite(state, targets, glyph, init);
    lemma_layer_fills(mid, targets, glyphs, a, layers.last());
    lemma_goes_to(state.0, mid.0, targets, glyph, layers[b]);
    lemma_first_match(state.0.layers[0].glyphs, |g: UfoGlyphModel| g.name == glyph.glyphname);
    if b == layers.len() - 1 {
        assert(layers.last() == layers[b]);
    } else {
        assert(init[b] == layers[b]);
        lemma_layers_set(state, targets, glyphs, a, init, b);
        assert(layer_overwritten(state.0.layers[0], mid.0.layers[0], true));
        assert(kept_or_filled(mid.0.layers[0].glyphs[gi], end.0.layers[0].glyphs[gi], glyphs));
    }
}

/// Of the first `n` glyphs that are handed over, a layer that goes to a
/// glyph of the default layer leaves it with the code points of its glyph.
proof fn lemma_glyphs_set_among(
    state: (UfoModel, Seq<SkippedModel>),
    targets: LayerTargetsModel,
    glyphs: Seq<GlyphModel>,
    n: int,
    a: int,
    b: int,
)
    requires
        0 <= a < n <= glyphs.len(),
        one_name_one_set(glyphs, a),
        apply_glyphs(state, targets, glyphs.take(n)) is Ok,
        0 <= b < glyphs[a].layers.len(),
        goes_to(state.0, targets, glyphs[a], glyphs[a].layers[b]) matches Some((li, gi)) && li == 0,
    ensures
        ({
            let (li, gi) = goes_to(state.0, targets, glyphs[a], glyphs[a].layers[b])->0;
            apply_glyphs(state, targets, glyphs.take(n))->Ok_0.0.layers[0].glyphs[gi].codepoints
                == or_empty(glyphs[a].unicode)
        }),
    decreases n,
{
    assert(glyphs.take(n).drop_last() =~= glyphs.take(n - 1));
    assert(glyphs.take(n).last() == glyphs[n - 1]);
    let last = glyphs[n - 1];
    let mid = apply_glyphs(state, targets, glyphs.take(n - 1))->Ok_0;
    let end = apply_layers(mid, targets, last, last.layers)->Ok_0;
    let (li, gi) = goes_to(state.0, targets, glyphs[a], glyphs[a].layers[b])->0;
    lemma_glyphs_overwrite(state, targets, glyphs.take(n - 1));
    lemma_goes_to(state.0, mid.0, targets, glyphs[a], glyphs[a].layers[b]);
    lemma_first_match(state.0.layers[0].glyphs, |g: UfoGlyphModel| g.name == glyphs[a].glyphname);
    if a == n - 1 {
        lemma_layers_set(mid, targets, glyphs, a, last.layers, b);
    } else {
        lemma_glyphs_set_among(state, targets, glyphs, n - 1, a, b);
        lemma_layers_fill(mid, targets, glyphs, n - 1, last.layers);
        assert(layer_overwritten(state.0.layers[0], mid.0.layers[0], true));
        assert(kept_or_filled(mid.0.layers[0].glyphs[gi], end.0.layers[0].glyphs[gi], glyphs));
    }
}

/// Code points go into the default layer: of the glyphs that are handed
/// over, a layer that goes to a glyph of the default layer of the font
/// object leaves it with the code points of its glyph, whatever is handed
/// over after it, where the glyphs of one name have the same code points.
pub proof fn lemma_glyphs_set(
    state: (UfoModel, Seq<SkippedModel>),
    targets: LayerTargetsModel,
    glyphs: Seq<GlyphModel>,
    a: int,
    b: int,
)
    requires
        0 <= a < glyphs.len(),
        one_name_one_set(glyphs, a),
        apply_glyphs(state, targets, glyphs) is Ok,
        0 <= b < glyphs[a].layers.len(),
        goes_to(state.0, targets, glyphs[a], glyphs[a].layers[b]) matches Some((li, gi)) && li == 0,
    ensures
        ({
            let (li, gi) = goes_to(state.0, targets, glyphs[a], glyphs[a].layers[b])->0;
            apply_glyphs(state, targets, glyphs)->Ok_0.0.layers[0].glyphs[gi].codepoints == or_empty(
                glyphs[a].unicode,
            )
        }),
{
    assert(glyphs.take(glyphs.len() as int) =~= glyphs);
    lemma_glyphs_set_among(state, targets, glyphs, glyphs.len() as int, a, b);
}

/// An error among the first layers is the error of them all.
proof fn lemma_layers_error(
    state: (UfoModel, Seq<SkippedModel>),
    targets: LayerTargetsModel,
    glyph: GlyphModel,
    layers: Seq<LayerModel>,
    k: int,
)
    requires
        0 <= k <= layers.len(),
        apply_layers(state, targets, glyph, layers.take(k)) is Err,
    ensures
        apply_layers(state, targets, glyph, layers) == apply_layers(
            state,
            targets,
            glyph,
            layers.take(k),
        ),
    decreases layers.len() - k,
{
    if k == layers.len() {
        assert(layers.take(k) =~= layers);
    } else {
        assert(layers.take(k + 1).drop_last() =~= layers.take(k));
        lemma_layers_error(state, targets, glyph, layers, k + 1);
    }
}

/// An error among the first glyphs is the error of them all.
proof fn lemma_glyphs_error(
    state: (UfoModel, Seq<SkippedModel>),
    targets: LayerTargetsModel,
    glyphs: Seq<GlyphModel>,
    k: int,
)
    requires
        0 <= k <= glyphs.len(),
        apply_glyphs(state, targets, glyphs.take(k)) is Err,
    ensures
        apply_glyphs(state, targets, glyphs) == apply_glyphs(state, targets, glyphs.take(k)),
    decreases glyphs.len() - k,
{
    if k == glyphs.len() {
        assert(glyphs.take(k) =~= glyphs);
    } else {
        assert(glyphs.take(k + 1).drop_last() =~= glyphs.take(k));
        lemma_glyphs_error(state, targets, glyphs, k + 1);
    }
}

/// The index of the layer of the font object that `target` names, and
/// whether it is the default layer.
fn find_target_layer(ufo: &Ufo, target: &Option<String>) -> (r: (Option<usize>, bool))
    ensures
        (index_model(r.0), r.1) == target_layer(ufo.deep_view(), target.deep_view()),
        r.0 matches Some(i) ==> i < ufo.layers@.len(),
{
    match target {
        None => (
            if ufo.layers.len() > 0 {
                Some(0)
            } else {
                None
            },
            true,
        ),
        Some(name) => (
            ufo.layer_index(name.as_str()),
            ufo.layers.len() > 0 && ufo.layers[0].name == *name,
        ),
    }
}

/// Puts `glyph` in the place `gi` of the layer `li` of the font object.
fn put_glyph(ufo: &mut Ufo, li: usize, gi: usize, glyph: UfoGlyph)
    requires
        li < old(ufo).layers@.len(),
        gi < old(ufo).layers@[li as int].glyphs@.len(),
    ensures
        final(ufo).deep_view() == with_glyph(
            old(ufo).deep_view(),
            li as int,
            gi as int,
            glyph.deep_view(),
        ),
{
    let ghost before = ufo.deep_view();
    ufo.layers[li].glyphs[gi] = glyph;
    assert(ufo.layers@[li as int].glyphs.deep_view() =~= before.layers[li as int].glyphs.update(
        gi as int,
        glyph.deep_view(),
    ));
    assert(ufo.layers.deep_view() =~= before.layers.update(
        li as int,
        UfoLayerModel {
            glyphs: before.layers[li as int].glyphs.update(gi as int, glyph.deep_view()),
            ..before.layers[li as int]
        },
    ));
}

/// Hands one layer of a glyph over to the font object.
fn update_layer(
    glyph: &Glyph,
    layer: &Layer,
    targets: &LayerTargets,
    ufo: &mut Ufo,
    skipped: &mut Vec<Skipped>,
) -> (r: Result<(), ConversionError>)
    ensures
        match r {
            Ok(_) => apply_layer(
                (old(ufo).deep_view(), old(skipped).deep_view()),
                targets.deep_view(),
                glyph.deep_view(),
                layer.deep_view(),
            ) == Ok::<(UfoModel, Seq<SkippedModel>), ConversionErrorModel>(
                (final(ufo).deep_view(), final(skipped).deep_view()),
            ),
            Err(e) => apply_layer(
                (old(ufo).deep_view(), old(skipped).deep_view()),
                targets.deep_view(),
                glyph.deep_view(),
                layer.deep_view(),
            ) == Err::<(UfoModel, Seq<SkippedModel>), ConversionErrorModel>(e.deep_view()),
        },
{
    let key: &String = match &layer.name {
        Some(name) => name,
        None => &layer.layer_id,
    };
    let under_key = |e: &(String, Option<String>)| -> (b: bool)
        ensures
            b == (e.0@ == key@),
        { e.0 == *key };
    let found = find_first(
        targets,
        under_key,
        Ghost(|e: (Seq<char>, Option<Seq<char>>)| e.0 == key@),
    );
    let t = match found {
        Some(t) => t,
        None => {
            return Ok(());
        },
    };
    let target = &targets[t].1;
    let ghost skipped_before = skipped.deep_view();
    let (li, is_default) = find_target_layer(ufo, target);
    let li = match li {
        Some(li) => li,
        None => {
            let name = match target {
                Some(name) => name.clone(),
                None => String::new(),
            };
            skipped.push(Skipped::Layer(name));
            assert(skipped.deep_view() =~= skipped_before.push(
                SkippedModel::Layer(or_empty(target.deep_view())),
            ));
            return Ok(());
        },
    };
    let gi = match ufo.layers[li].glyph_index(glyph.glyphname.as_str()) {
        Some(gi) => gi,
        None => {
            skipped.push(
                Skipped::Glyph { glyph: glyph.glyphname.clone(), layer: layer.name.clone() },
            );
            assert(skipped.deep_view() =~= skipped_before.push(
                SkippedModel::Glyph {
                    glyph: glyph.deep_view().glyphname,
                    layer: layer.deep_view().name,
                },
            ));
            return Ok(());
        },
    };
    let converted = match convert_glyphs_glyph_to_ufo_glyph(glyph, layer) {
        Ok(c) => c,
        Err(e) => {
            return Err(e);
        },
    };
    let codepoints = if is_default {
        converted.codepoints
    } else {
        let none: Vec<char> = Vec::new();
        assert(crate::seqs::distinct(none@) =~= Seq::<char>::empty());
        codepoints_new(&none)
    };
    let written = UfoGlyph {
        name: ufo.layers[li].glyphs[gi].name.clone(),
        width: converted.width,
        codepoints,
        anchors: converted.anchors,
        contours: converted.contours,
        components: converted.components,
    };
    put_glyph(ufo, li, gi, written);
    Ok(())
}

/// Hands the layers of a glyph over to the font object.
fn update_glyph(
    glyph: &Glyph,
    targets: &LayerTargets,
    ufo: &mut Ufo,
    skipped: &mut Vec<Skipped>,
) -> (r: Result<(), ConversionError>)
    ensures
        match r {
            Ok(_) => apply_layers(
                (old(ufo).deep_view(), old(skipped).deep_view()),
                targets.deep_view(),
                glyph.deep_view(),
                glyph.deep_view().layers,
            ) == Ok::<(UfoModel, Seq<SkippedModel>), ConversionErrorModel>(
                (final(ufo).deep_view(), final(skipped).deep_view()),
            ),
            Err(e) => apply_layers(
                (old(ufo).deep_view(), old(skipped).deep_view()),
                targets.deep_view(),
                glyph.deep_view(),
                glyph.deep_view().layers,
            ) == Err::<(UfoModel, Seq<SkippedModel>), ConversionErrorModel>(e.deep_view()),
        },
{
    let ghost start = (ufo.deep_view(), skipped.deep_view());
    let ghost layers = glyph.deep_view().layers;
    let mut j: usize = 0;
    assert(layers.take(0) =~= Seq::<LayerModel>::empty());
    while j < glyph.layers.len()
        invariant
            j <= glyph.layers.len(),
            layers == glyph.deep_view().layers,
            start == (old(ufo).deep_view(), old(skipped).deep_view()),
            apply_layers(start, targets.deep_view(), glyph.deep_view(), layers.take(j as int))
                == Ok::<(UfoModel, Seq<SkippedModel>), ConversionErrorModel>(
                (ufo.deep_view(), skipped.deep_view()),
            ),
        decreases glyph.layers.len() - j,
    {
        proof {
            assert(layers.take(j + 1).drop_last() =~= layers.take(j as int));
            assert(layers.take(j + 1).last() == layers[j as int]);
        }
        match update_layer(glyph, &glyph.layers[j], targets, ufo, skipped) {
            Ok(_) => {},
            Err(e) => {
                proof {
                    lemma_layers_error(
                        start,
                        targets.deep_view(),
                        glyph.deep_view(),
                        layers,
                        j + 1,
                    );
                }
                return Err(e);
            },
        }
        j += 1;
    }
    assert(layers.take(layers.len() as int) =~= layers);
    Ok(())
}

/// The font object `ufo` after it received its layers from `font`, and what
/// was passed over because the font object lacks it. Each layer of each
/// glyph that `targets` sends somewhere overwrites the width, anchors,
/// contours and components of the glyph of the same name in the layer it
/// goes to. The font object keeps its layers and its glyphs, and outside
/// its default layer a glyph is as it was or has no code points. Fails on a
/// name that a font object does not accept, and on an open path that does
/// not start with a plain line node.
pub fn update_ufo(font: &Font, targets: &LayerTargets, ufo: Ufo) -> (r: Result<
    (Ufo, Vec<Skipped>),
    ConversionError,
>)
    ensures
        match r {
            Ok(done) => apply_glyphs(
                (ufo.deep_view(), Seq::empty()),
                targets.deep_view(),
                font.deep_view().glyphs,
            ) == Ok::<(UfoModel, Seq<SkippedModel>), ConversionErrorModel>(done.deep_view())
                && overwritten(ufo.deep_view(), done.0.deep_view()),
            Err(e) => apply_glyphs(
                (ufo.deep_view(), Seq::empty()),
                targets.deep_view(),
                font.deep_view().glyphs,
            ) == Err::<(UfoModel, Seq<SkippedModel>), ConversionErrorModel>(e.deep_view()),
        },
{
    let ghost start = (ufo.deep_view(), Seq::<SkippedModel>::empty());
    let ghost glyphs = font.deep_view().glyphs;
    let mut current = ufo;
    let mut skipped: Vec<Skipped> = Vec::new();
    let mut i: usize = 0;
    assert(glyphs.take(0) =~= Seq::<GlyphModel>::empty());
    assert(skipped.deep_view() =~= Seq::<SkippedModel>::empty());
    while i < font.glyphs.len()
        invariant
            i <= font.glyphs.len(),
            glyphs == font.deep_view().glyphs,
            start == (ufo.deep_view(), Seq::<SkippedModel>::empty()),
            apply_glyphs(start, targets.deep_view(), glyphs.take(i as int)) == Ok::<
                (UfoModel, Seq<SkippedModel>),
                ConversionErrorModel,
            >((current.deep_view(), skipped.deep_view())),
        decreases font.glyphs.len() - i,
    {
        proof {
            assert(glyphs.take(i + 1).drop_last() =~= glyphs.take(i as int));
            assert(glyphs.take(i + 1).last() == glyphs[i as int]);
        }
        match update_glyph(&font.glyphs[i], targets, &mut current, &mut skipped) {
            Ok(_) => {},
            Err(e) => {
                proof {
                    lemma_glyphs_error(start, targets.deep_view(), glyphs, i + 1);
                }
                return Err(e);
            },
        }
        i += 1;
    }
    assert(glyphs.take(glyphs.len() as int) =~= glyphs);
    proof {
        lemma_glyphs_overwrite(start, targets.deep_view(), glyphs);
    }
    Ok((current, skipped))
}

/// How the run of the normalizer on a font object ended.
#[derive(Debug, Clone, Copy, PartialEq, Eq, Structural)]
pub enum NormalizerOutcome {
    /// The normalizer ran to its end, and `success` says whether it ended
    /// well.
    Ran { success: bool },
    /// The normalizer is not installed.
    NotFound,
    /// The normalizer could not be started for another reason.
    Failed,
}

/// What follows from the run of the normalizer.
#[derive(Debug, Clone, Copy, PartialEq, Eq, Structural)]
pub enum NormalizerVerdict {
    /// The font object is as it should be.
    Done,
    /// The font object stays as it was saved; this is worth a note.
    Skipped,
    /// The conversion of this font object has failed.
    Fatal,
}

/// What follows from the run of the normalizer: that it is not installed is
/// put up with; that it could not be started for another reason, or ran and
/// ended in failure, is not.
pub fn run_ufonormalizer(outcome: NormalizerOutcome) -> (r: NormalizerVerdict)
    ensures
        r == match outcome {
            NormalizerOutcome::Ran { success: true } => NormalizerVerdict::Done,
            NormalizerOutcome::Ran { success: false } => NormalizerVerdict::Fatal,
            NormalizerOutcome::NotFound => NormalizerVerdict::Skipped,
            NormalizerOutcome::Failed => NormalizerVerdict::Fatal,
        },
{
    match outcome {
        NormalizerOutcome::Ran { success: true } => NormalizerVerdict::Done,
        NormalizerOutcome::Ran { success: false } => NormalizerVerdict::Fatal,
        NormalizerOutcome::NotFound => NormalizerVerdict::Skipped,
        NormalizerOutcome::Failed => NormalizerVerdict::Fatal,
    }
}

/// What becomes of one font object: the name of its file, the font object
/// after it received its layers, and what was passed over. The font object
/// must be among those handed in.
pub open spec fn target_result(
    font: FontModel,
    ufos: Seq<(Seq<char>, UfoModel)>,
    entry: (Seq<char>, LayerTargetsModel),
) -> Result<(Seq<char>, UfoModel, Seq<SkippedModel>), ConversionErrorModel> {
    match ufo_index(ufos, entry.0) {
        None => Err(ConversionErrorModel::new(ErrorKind::MissingFontObject, entry.0)),
        Some(u) => match apply_glyphs((ufos[u].1, Seq::empty()), entry.1, font.glyphs) {
            Ok((ufo, skipped)) => Ok((entry.0, ufo, skipped)),
            Err(e) => Err(e),
        },
    }
}

/// What becomes of the font objects of a designspace when a Glyphs source
/// is handed over to them: for each font object that the sources name, in
/// the order in which they first name it, the font object after it
/// received its layers.
pub open spec fn designspace_of(
    font: FontModel,
    designspace: DesignspaceModel,
    ufos: Seq<(Seq<char>, UfoModel)>,
) -> Result<Seq<(Seq<char>, UfoModel, Seq<SkippedModel>)>, ConversionErrorModel> {
    match mapping_of(font, designspace.sources) {
        Err(e) => Err(e),
        Ok(mapping) => collect(
            mapping.map_values(|entry: (Seq<char>, LayerTargetsModel)| target_result(font, ufos, entry)),
        ),
    }
}

/// Each font object that comes out of a conversion is the font object of
/// that file that went in, with some of its glyphs overwritten: outside its
/// default layer a glyph is as it was or has no code points.
pub proof fn lemma_designspace_overwrites(
    font: FontModel,
    designspace: DesignspaceModel,
    ufos: Seq<(Seq<char>, UfoModel)>,
    i: int,
)
    requires
        designspace_of(font, designspace, ufos) is Ok,
        0 <= i < designspace_of(font, designspace, ufos)->Ok_0.len(),
    ensures
        one_overwritten(ufos, designspace_of(font, designspace, ufos)->Ok_0[i]),
{
    let mapping = mapping_of(font, designspace.sources)->Ok_0;
    let results = mapping.map_values(
        |entry: (Seq<char>, LayerTargetsModel)| target_result(font, ufos, entry),
    );
    lemma_first_match(
        results,
        |r: Result<(Seq<char>, UfoModel, Seq<SkippedModel>), ConversionErrorModel>| r is Err,
    );
    assert(results[i] == target_result(font, ufos, mapping[i]));
    assert(results[i] is Ok);
    let u = ufo_index(ufos, mapping[i].0)->0;
    lemma_glyphs_overwrite((ufos[u].1, Seq::empty()), mapping[i].1, font.glyphs);
}

/// The font object `done` is the font object of its file among `ufos`,
/// with some of its glyphs overwritten.
pub open spec fn one_overwritten(
    ufos: Seq<(Seq<char>, UfoModel)>,
    done: (Seq<char>, UfoModel, Seq<SkippedModel>),
) -> bool {
    match ufo_index(ufos, done.0) {
        Some(u) => overwritten(ufos[u].1, done.1),
        None => false,
    }
}

/// Each of the font objects `done` is the font object of its file among
/// `ufos`, with some of its glyphs overwritten.
pub open spec fn all_overwritten(
    ufos: Seq<(Seq<char>, UfoModel)>,
    done: Seq<(Seq<char>, UfoModel, Seq<SkippedModel>)>,
) -> bool {
    forall|i: int| 0 <= i < done.len() ==> one_overwritten(ufos, #[trigger] done[i])
}

/// Hands the Glyphs source `font` over to the font objects `ufos` of
/// `designspace`, each given with the name of its file. Gives, for each
/// font object that the sources name, the name of its file, the font object
/// after it received its layers, and what was passed over because the font
/// object lacks it. Each font object keeps its layers and its glyphs, and
/// outside its default layer a glyph is as it was or has no code points.
pub fn command_to_designspace(font: Font, designspace: &Designspace, ufos: &Vec<(String, Ufo)>)
    -> (r: Result<Vec<(String, Ufo, Vec<Skipped>)>, ConversionError>)
    ensures
        match r {
            Ok(done) => designspace_of(
                font.deep_view(),
                designspace.deep_view(),
                ufos.deep_view(),
            ) == Ok::<Seq<(Seq<char>, UfoModel, Seq<SkippedModel>)>, ConversionErrorModel>(
                done.deep_view(),
            ) && all_overwritten(ufos.deep_view(), done.deep_view()),
            Err(e) => designspace_of(font.deep_view(), designspace.deep_view(), ufos.deep_view())
                == Err::<Seq<(Seq<char>, UfoModel, Seq<SkippedModel>)>, ConversionErrorModel>(
                e.deep_view(),
            ),
        },
{
    let context = match Glyphs2DesignspaceContext::new(font, designspace) {
        Ok(c) => c,
        Err(e) => {
            return Err(e);
        },
    };
    let convert = |entry: &(String, LayerTargets)| -> (r: Result<
        (String, Ufo, Vec<Skipped>),
        ConversionError,
    >)
        ensures
            match r {
                Ok(done) => target_result(font.deep_view(), ufos.deep_view(), entry.deep_view())
                    == Ok::<(Seq<char>, UfoModel, Seq<SkippedModel>), ConversionErrorModel>(
                    done.deep_view(),
                ),
                Err(e) => target_result(font.deep_view(), ufos.deep_view(), entry.deep_view())
                    == Err::<(Seq<char>, UfoModel, Seq<SkippedModel>), ConversionErrorModel>(
                    e.deep_view(),
                ),
            },
        {
            match find_ufo(ufos, entry.0.as_str()) {
                None => Err(
                    ConversionError::new(ErrorKind::MissingFontObject, entry.0.as_str()),
                ),
                Some(u) => match update_ufo(&context.font, &entry.1, ufos[u].1.clone()) {
                    Ok((ufo, skipped)) => Ok((entry.0.clone(), ufo, skipped)),
                    Err(e) => Err(e),
                },
            }
        };
    let r = try_map_model(
        &context.ufo_mapping,
        convert,
        Ghost(
            |entry: (Seq<char>, LayerTargetsModel)|
                target_result(font.deep_view(), ufos.deep_view(), entry),
        ),
    );
    proof {
        if r is Ok {
            let done = r->Ok_0.deep_view();
            assert forall|i: int| 0 <= i < done.len() implies one_overwritten(
                ufos.deep_view(),
                #[trigger] done[i],
            ) by {
                lemma_designspace_overwrites(
                    font.deep_view(),
                    designspace.deep_view(),
                    ufos.deep_view(),
                    i,
                );
            }
        }
    }
    r
}

} // verus!
