//! A font object as the conversion reads and rewrites it: its metadata, and
//! the outlines of its glyphs layer by layer.

use vstd::prelude::*;
use crate::codepoints::{codepoints_clone, codepoints_seq};
use crate::decimal::{Decimal, DecimalModel};
use crate::font::copy_entries;
use crate::geometry::{Affine, AffineModel};
use crate::plist::{entries_model, Plist, PlistModel};
use crate::seqs::first_match;
use crate::vecs::{find_first, index_model};

verus! {

/// The kind of a point on a contour.
#[derive(Debug, Clone, Copy, PartialEq, Eq, Structural)]
pub enum PointType {
    /// The first point of an open contour.
    Move,
    Line,
    OffCurve,
    Curve,
    QCurve,
}

/// A point on a contour.
#[derive(Debug, PartialEq)]
pub struct ContourPoint {
    pub x: Decimal,
    pub y: Decimal,
    pub typ: PointType,
    pub smooth: bool,
}

/// What a [`ContourPoint`] stands for.
pub struct ContourPointModel {
    pub x: DecimalModel,
    pub y: DecimalModel,
    pub typ: PointType,
    pub smooth: bool,
}

impl DeepView for ContourPoint {
    type V = ContourPointModel;

    open spec fn deep_view(&self) -> ContourPointModel {
        ContourPointModel { x: self.x@, y: self.y@, typ: self.typ, smooth: self.smooth }
    }
}

impl Clone for ContourPoint {
    fn clone(&self) -> (r: ContourPoint)
        ensures
            r.deep_view() == self.deep_view(),
    {
        ContourPoint { x: self.x.copy(), y: self.y.copy(), typ: self.typ, smooth: self.smooth }
    }
}

/// A contour: its points in drawing order. It is open where its first point
/// is a `Move`, and closed otherwise.
#[derive(Debug, PartialEq)]
pub struct Contour {
    pub points: Vec<ContourPoint>,
}

/// What a [`Contour`] stands for.
pub struct ContourModel {
    pub points: Seq<ContourPointModel>,
}

impl ContourModel {
    /// The contour is closed: it has no first point that is a `Move`.
    pub open spec fn is_closed(self) -> bool {
        self.points.len() == 0 || self.points[0].typ != PointType::Move
    }
}

impl DeepView for Contour {
    type V = ContourModel;

    open spec fn deep_view(&self) -> ContourModel {
        ContourModel { points: self.points.deep_view() }
    }
}

impl Clone for Contour {
    fn clone(&self) -> (r: Contour)
        ensures
            r.deep_view() == self.deep_view(),
    {
        let points = self.points.clone();
        assert(points.deep_view() =~= self.points.deep_view());
        Contour { points }
    }
}

impl Contour {
    /// Whether the contour is closed.
    pub fn is_closed(&self) -> (r: bool)
        ensures
            r == self.deep_view().is_closed(),
    {
        if self.points.len() == 0 {
            true
        } else {
            match self.points[0].typ {
                PointType::Move => false,
                _ => true,
            }
        }
    }
}

/// A reference to another glyph, placed by a transform.
#[derive(Debug, PartialEq)]
pub struct UfoComponent {
    pub base: String,
    pub transform: Affine,
}

/// What a [`UfoComponent`] stands for.
pub struct UfoComponentModel {
    pub base: Seq<char>,
    pub transform: AffineModel,
}

impl DeepView for UfoComponent {
    type V = UfoComponentModel;

    open spec fn deep_view(&self) -> UfoComponentModel {
        UfoComponentModel { base: self.base@, transform: self.transform.deep_view() }
    }
}

impl Clone for UfoComponent {
    fn clone(&self) -> (r: UfoComponent)
        ensures
            r.deep_view() == self.deep_view(),
    {
        UfoComponent { base: self.base.clone(), transform: self.transform.clone() }
    }
}

/// A point of attachment, which may have no name.
#[derive(Debug, PartialEq)]
pub struct UfoAnchor {
    pub x: Decimal,
    pub y: Decimal,
    pub name: Option<String>,
}

/// What a [`UfoAnchor`] stands for.
pub struct UfoAnchorModel {
    pub x: DecimalModel,
    pub y: DecimalModel,
    pub name: Option<Seq<char>>,
}

impl DeepView for UfoAnchor {
    type V = UfoAnchorModel;

    open spec fn deep_view(&self) -> UfoAnchorModel {
        UfoAnchorModel { x: self.x@, y: self.y@, name: self.name.deep_view() }
    }
}

impl Clone for UfoAnchor {
    fn clone(&self) -> (r: UfoAnchor)
        ensures
            r.deep_view() == self.deep_view(),
    {
        UfoAnchor { x: self.x.copy(), y: self.y.copy(), name: self.name.clone() }
    }
}

/// One drawing of a glyph in a layer of a font object.
#[derive(Debug, PartialEq)]
pub struct UfoGlyph {
    pub name: String,
    pub width: Decimal,
    pub codepoints: norad::Codepoints,
    pub anchors: Vec<UfoAnchor>,
    pub contours: Vec<Contour>,
    pub components: Vec<UfoComponent>,
}

/// What a [`UfoGlyph`] stands for.
pub struct UfoGlyphModel {
    pub name: Seq<char>,
    pub width: DecimalModel,
    pub codepoints: Seq<char>,
    pub anchors: Seq<UfoAnchorModel>,
    pub contours: Seq<ContourModel>,
    pub components: Seq<UfoComponentModel>,
}

impl DeepView for UfoGlyph {
    type V = UfoGlyphModel;

    open spec fn deep_view(&self) -> UfoGlyphModel {
        UfoGlyphModel {
            name: self.name@,
            width: self.width@,
            codepoints: codepoints_seq(self.codepoints),
            anchors: self.anchors.deep_view(),
            contours: self.contours.deep_view(),
            components: self.components.deep_view(),
        }
    }
}

impl Clone for UfoGlyph {
    fn clone(&self) -> (r: UfoGlyph)
        ensures
            r.deep_view() == self.deep_view(),
    {
        let anchors = self.anchors.clone();
        let contours = self.contours.clone();
        let components = self.components.clone();
        proof {
            assert(anchors.deep_view() =~= self.anchors.deep_view());
            assert(contours.deep_view() =~= self.contours.deep_view());
            assert(components.deep_view() =~= self.components.deep_view());
        }
        UfoGlyph {
            name: self.name.clone(),
            width: self.width.copy(),
            codepoints: codepoints_clone(&self.codepoints),
            anchors,
            contours,
            components,
        }
    }
}

/// A layer of a font object: its name and its glyphs.
#[derive(Debug, PartialEq)]
pub struct UfoLayer {
    pub name: String,
    pub glyphs: Vec<UfoGlyph>,
}

/// What a [`UfoLayer`] stands for.
pub struct UfoLayerModel {
    pub name: Seq<char>,
    pub glyphs: Seq<UfoGlyphModel>,
}

impl DeepView for UfoLayer {
    type V = UfoLayerModel;

    open spec fn deep_view(&self) -> UfoLayerModel {
        UfoLayerModel { name: self.name@, glyphs: self.glyphs.deep_view() }
    }
}

impl Clone for UfoLayer {
    fn clone(&self) -> (r: UfoLayer)
        ensures
            r.deep_view() == self.deep_view(),
    {
        let glyphs = self.glyphs.clone();
        assert(glyphs.deep_view() =~= self.glyphs.deep_view());
        UfoLayer { name: self.name.clone(), glyphs }
    }
}

/// The metadata of a font object that the conversion reads.
#[derive(Debug, PartialEq)]
pub struct FontInfo {
    pub family_name: Option<String>,
    pub units_per_em: Option<Decimal>,
    pub version_major: Option<i64>,
    pub version_minor: Option<i64>,
    pub ascender: Option<Decimal>,
    pub cap_height: Option<Decimal>,
    pub descender: Option<Decimal>,
    pub x_height: Option<Decimal>,
    pub italic_angle: Option<Decimal>,
}

/// What a [`FontInfo`] stands for.
pub struct FontInfoModel {
    pub family_name: Option<Seq<char>>,
    pub units_per_em: Option<DecimalModel>,
    pub version_major: Option<i64>,
    pub version_minor: Option<i64>,
    pub ascender: Option<DecimalModel>,
    pub cap_height: Option<DecimalModel>,
    pub descender: Option<DecimalModel>,
    pub x_height: Option<DecimalModel>,
    pub italic_angle: Option<DecimalModel>,
}

impl DeepView for FontInfo {
    type V = FontInfoModel;

    open spec fn deep_view(&self) -> FontInfoModel {
        FontInfoModel {
            family_name: self.family_name.deep_view(),
            units_per_em: self.units_per_em.deep_view(),
            version_major: self.version_major,
            version_minor: self.version_minor,
            ascender: self.ascender.deep_view(),
            cap_height: self.cap_height.deep_view(),
            descender: self.descender.deep_view(),
            x_height: self.x_height.deep_view(),
            italic_angle: self.italic_angle.deep_view(),
        }
    }
}

impl Clone for FontInfo {
    fn clone(&self) -> (r: FontInfo)
        ensures
            r.deep_view() == self.deep_view(),
    {
        FontInfo {
            family_name: self.family_name.clone(),
            units_per_em: self.units_per_em.clone(),
            version_major: self.version_major,
            version_minor: self.version_minor,
            ascender: self.ascender.clone(),
            cap_height: self.cap_height.clone(),
            descender: self.descender.clone(),
            x_height: self.x_height.clone(),
            italic_angle: self.italic_angle.clone(),
        }
    }
}

/// A font object. Its first layer is its default layer.
#[derive(Debug, PartialEq)]
pub struct Ufo {
    pub font_info: FontInfo,
    /// The font's own dictionary of further data.
    pub lib: Vec<(String, Plist)>,
    /// The layers, the default layer first.
    pub layers: Vec<UfoLayer>,
}

/// What a [`Ufo`] stands for.
pub struct UfoModel {
    pub font_info: FontInfoModel,
    pub lib: Seq<(Seq<char>, PlistModel)>,
    /// The layers, the default layer first.
    pub layers: Seq<UfoLayerModel>,
}

impl DeepView for Ufo {
    type V = UfoModel;

    open spec fn deep_view(&self) -> UfoModel {
        UfoModel {
            font_info: self.font_info.deep_view(),
            lib: entries_model(self.lib@),
            layers: self.layers.deep_view(),
        }
    }
}

impl Clone for Ufo {
    fn clone(&self) -> (r: Ufo)
        ensures
            r.deep_view() == self.deep_view(),
    {
        let layers = self.layers.clone();
        assert(layers.deep_view() =~= self.layers.deep_view());
        Ufo { font_info: self.font_info.clone(), lib: copy_entries(&self.lib), layers }
    }
}

impl UfoLayerModel {
    /// The index of the glyph with the given name.
    pub open spec fn glyph_index(self, name: Seq<char>) -> Option<int> {
        first_match(self.glyphs, |g: UfoGlyphModel| g.name == name)
    }

    /// The names of the glyphs, in order.
    pub open spec fn glyph_names(self) -> Seq<Seq<char>> {
        self.glyphs.map_values(|g: UfoGlyphModel| g.name)
    }
}

impl UfoModel {
    /// The index of the layer with the given name.
    pub open spec fn layer_index(self, name: Seq<char>) -> Option<int> {
        first_match(self.layers, |l: UfoLayerModel| l.name == name)
    }

    /// The default layer: the first one, where there is any.
    pub open spec fn default_layer(self) -> Option<UfoLayerModel> {
        if self.layers.len() > 0 {
            Some(self.layers[0])
        } else {
            None
        }
    }
}

impl UfoLayer {
    /// The index of the glyph with the given name.
    pub fn glyph_index(&self, name: &str) -> (r: Option<usize>)
        ensures
            index_model(r) == self.deep_view().glyph_index(name@),
            r matches Some(i) ==> i < self.glyphs@.len(),
    {
        let named = |g: &UfoGlyph| -> (b: bool)
            ensures
                b == (g.deep_view().name == name@),
            { g.name.as_str().eq(name) };
        find_first(&self.glyphs, named, Ghost(|g: UfoGlyphModel| g.name == name@))
    }
}

impl Ufo {
    /// The default layer: the first one, where there is any.
    pub fn default_layer(&self) -> (r: Option<&UfoLayer>)
        ensures
            r.deep_view() == self.deep_view().default_layer(),
    {
        if self.layers.len() > 0 {
            Some(&self.layers[0])
        } else {
            None
        }
    }

    /// The index of the layer with the given name.
    pub fn layer_index(&self, name: &str) -> (r: Option<usize>)
        ensures
            index_model(r) == self.deep_view().layer_index(name@),
            r matches Some(i) ==> i < self.layers@.len(),
    {
        let named = |l: &UfoLayer| -> (b: bool)
            ensures
                b == (l.deep_view().name == name@),
            { l.name.as_str().eq(name) };
        find_first(&self.layers, named, Ghost(|l: UfoLayerModel| l.name == name@))
    }
}

} // verus!
