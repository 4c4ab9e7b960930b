//! The records of a Glyphs source: the font, its glyphs, layers and outlines,
//! its masters and instances.
//!
//! Every record that a source stores as a dictionary keeps the entries it
//! does not know in `other_stuff`, in the order in which they stood.

use vstd::prelude::*;
use crate::codepoints::{copy_codepoints, optional_codepoints};
use crate::decimal::{Decimal, DecimalModel};
use crate::geometry::{Affine, AffineModel, Point, PointModel};
use crate::node_type::NodeType;
use crate::plist::{dict_get, entries_model, lookup, Plist, PlistModel};
use crate::seqs::first_match;
use crate::vecs::{find_first, index_model};

verus! {

/// A copy of the dictionary entries `entries`.
pub fn copy_entries(entries: &Vec<(String, Plist)>) -> (r: Vec<(String, Plist)>)
    ensures
        entries_model(r@) == entries_model(entries@),
{
    let mut out: Vec<(String, Plist)> = Vec::new();
    let mut i: usize = 0;
    while i < entries.len()
        invariant
            i <= entries.len(),
            out@.len() == i,
            forall|j: int|
                0 <= j < i ==> (#[trigger] out@[j]).0@ == entries@[j].0@ && out@[j].1.deep_view()
                    == entries@[j].1.deep_view(),
        decreases entries.len() - i,
    {
        let value = entries[i].1.copy();
        out.push((entries[i].0.clone(), value));
        i += 1;
    }
    assert(entries_model(out@) =~= entries_model(entries@));
    out
}

/// A node of a path: a point and its kind.
#[derive(Debug, PartialEq)]
pub struct Node {
    pub pt: Point,
    pub node_type: NodeType,
}

/// What a [`Node`] stands for.
pub struct NodeModel {
    pub pt: PointModel,
    pub node_type: NodeType,
}

impl DeepView for Node {
    type V = NodeModel;

    open spec fn deep_view(&self) -> NodeModel {
        NodeModel { pt: self.pt.deep_view(), node_type: self.node_type }
    }
}

impl Clone for Node {
    fn clone(&self) -> (r: Node)
        ensures
            r.deep_view() == self.deep_view(),
    {
        Node { pt: self.pt.clone(), node_type: self.node_type }
    }
}

/// A contour. The start of a closed path is its last node.
#[derive(Debug, PartialEq)]
pub struct Path {
    pub closed: bool,
    pub nodes: Vec<Node>,
}

/// What a [`Path`] stands for.
pub struct PathModel {
    pub closed: bool,
    pub nodes: Seq<NodeModel>,
}

impl DeepView for Path {
    type V = PathModel;

    open spec fn deep_view(&self) -> PathModel {
        PathModel { closed: self.closed, nodes: self.nodes.deep_view() }
    }
}

impl Clone for Path {
    fn clone(&self) -> (r: Path)
        ensures
            r.deep_view() == self.deep_view(),
    {
        let nodes = self.nodes.clone();
        assert(nodes.deep_view() =~= self.nodes.deep_view());
        Path { closed: self.closed, nodes }
    }
}

/// A reference to another glyph, placed by a transform. No transform means
/// the identity.
#[derive(Debug, PartialEq)]
pub struct Component {
    pub name: String,
    pub transform: Option<Affine>,
    pub other_stuff: Vec<(String, Plist)>,
}

/// What a [`Component`] stands for.
pub struct ComponentModel {
    pub name: Seq<char>,
    pub transform: Option<AffineModel>,
    pub other_stuff: Seq<(Seq<char>, PlistModel)>,
}

impl DeepView for Component {
    type V = ComponentModel;

    open spec fn deep_view(&self) -> ComponentModel {
        ComponentModel {
            name: self.name@,
            transform: self.transform.deep_view(),
            other_stuff: entries_model(self.other_stuff@),
        }
    }
}

impl Clone for Component {
    fn clone(&self) -> (r: Component)
        ensures
            r.deep_view() == self.deep_view(),
    {
        Component {
            name: self.name.clone(),
            transform: self.transform.clone(),
            other_stuff: copy_entries(&self.other_stuff),
        }
    }
}

/// A named point of attachment.
#[derive(Debug, PartialEq)]
pub struct Anchor {
    pub name: String,
    pub position: Point,
}

/// What an [`Anchor`] stands for.
pub struct AnchorModel {
    pub name: Seq<char>,
    pub position: PointModel,
}

impl DeepView for Anchor {
    type V = AnchorModel;

    open spec fn deep_view(&self) -> AnchorModel {
        AnchorModel { name: self.name@, position: self.position.deep_view() }
    }
}

impl Clone for Anchor {
    fn clone(&self) -> (r: Anchor)
        ensures
            r.deep_view() == self.deep_view(),
    {
        Anchor { name: self.name.clone(), position: self.position.clone() }
    }
}

/// A guide line through a point.
#[derive(Debug, PartialEq)]
pub struct GuideLine {
    pub angle: Option<Decimal>,
    pub position: Point,
}

/// What a [`GuideLine`] stands for.
pub struct GuideLineModel {
    pub angle: Option<DecimalModel>,
    pub position: PointModel,
}

impl DeepView for GuideLine {
    type V = GuideLineModel;

    open spec fn deep_view(&self) -> GuideLineModel {
        GuideLineModel { angle: self.angle.deep_view(), position: self.position.deep_view() }
    }
}

impl Clone for GuideLine {
    fn clone(&self) -> (r: GuideLine)
        ensures
            r.deep_view() == self.deep_view(),
    {
        GuideLine { angle: self.angle.clone(), position: self.position.clone() }
    }
}

/// One drawing of a glyph. A layer without `associated_master_id` is the
/// layer of the master whose identifier is `layer_id`; one with it belongs
/// to that master and has a `name` of its own.
#[derive(Debug, PartialEq)]
pub struct Layer {
    pub name: Option<String>,
    pub associated_master_id: Option<String>,
    pub layer_id: String,
    pub width: Decimal,
    pub paths: Option<Vec<Path>>,
    pub components: Option<Vec<Component>>,
    pub anchors: Option<Vec<Anchor>>,
    pub guide_lines: Option<Vec<GuideLine>>,
    pub other_stuff: Vec<(String, Plist)>,
}

/// What a [`Layer`] stands for.
pub struct LayerModel {
    pub name: Option<Seq<char>>,
    pub associated_master_id: Option<Seq<char>>,
    pub layer_id: Seq<char>,
    pub width: DecimalModel,
    pub paths: Option<Seq<PathModel>>,
    pub components: Option<Seq<ComponentModel>>,
    pub anchors: Option<Seq<AnchorModel>>,
    pub guide_lines: Option<Seq<GuideLineModel>>,
    pub other_stuff: Seq<(Seq<char>, PlistModel)>,
}

impl DeepView for Layer {
    type V = LayerModel;

    open spec fn deep_view(&self) -> LayerModel {
        LayerModel {
            name: self.name.deep_view(),
            associated_master_id: self.associated_master_id.deep_view(),
            layer_id: self.layer_id@,
            width: self.width@,
            paths: self.paths.deep_view(),
            components: self.components.deep_view(),
            anchors: self.anchors.deep_view(),
            guide_lines: self.guide_lines.deep_view(),
            other_stuff: entries_model(self.other_stuff@),
        }
    }
}

impl Clone for Layer {
    fn clone(&self) -> (r: Layer)
        ensures
            r.deep_view() == self.deep_view(),
    {
        let paths = self.paths.clone();
        let components = self.components.clone();
        let anchors = self.anchors.clone();
        let guide_lines = self.guide_lines.clone();
        proof {
            if self.paths is Some {
                assert(paths->0.deep_view() =~= self.paths->0.deep_view());
            }
            if self.components is Some {
                assert(components->0.deep_view() =~= self.components->0.deep_view());
            }
            if self.anchors is Some {
                assert(anchors->0.deep_view() =~= self.anchors->0.deep_view());
            }
            if self.guide_lines is Some {
                assert(guide_lines->0.deep_view() =~= self.guide_lines->0.deep_view());
            }
        }
        Layer {
            name: self.name.clone(),
            associated_master_id: self.associated_master_id.clone(),
            layer_id: self.layer_id.clone(),
            width: self.width.copy(),
            paths,
            components,
            anchors,
            guide_lines,
            other_stuff: copy_entries(&self.other_stuff),
        }
    }
}

/// A glyph: its name, its code points and its layers.
#[derive(Debug, PartialEq)]
pub struct Glyph {
    /// The Unicode value or values of the glyph.
    pub unicode: Option<norad::Codepoints>,
    pub layers: Vec<Layer>,
    /// The name of the glyph.
    pub glyphname: String,
    pub left_kerning_group: Option<String>,
    pub right_kerning_group: Option<String>,
    pub other_stuff: Vec<(String, Plist)>,
}

/// What a [`Glyph`] stands for.
pub struct GlyphModel {
    pub unicode: Option<Seq<char>>,
    pub layers: Seq<LayerModel>,
    pub glyphname: Seq<char>,
    pub left_kerning_group: Option<Seq<char>>,
    pub right_kerning_group: Option<Seq<char>>,
    pub other_stuff: Seq<(Seq<char>, PlistModel)>,
}

impl DeepView for Glyph {
    type V = GlyphModel;

    open spec fn deep_view(&self) -> GlyphModel {
        GlyphModel {
            unicode: optional_codepoints(self.unicode),
            layers: self.layers.deep_view(),
            glyphname: self.glyphname@,
            left_kerning_group: self.left_kerning_group.deep_view(),
            right_kerning_group: self.right_kerning_group.deep_view(),
            other_stuff: entries_model(self.other_stuff@),
        }
    }
}

impl Clone for Glyph {
    fn clone(&self) -> (r: Glyph)
        ensures
            r.deep_view() == self.deep_view(),
    {
        let layers = self.layers.clone();
        assert(layers.deep_view() =~= self.layers.deep_view());
        Glyph {
            unicode: copy_codepoints(&self.unicode),
            layers,
            glyphname: self.glyphname.clone(),
            left_kerning_group: self.left_kerning_group.clone(),
            right_kerning_group: self.right_kerning_group.clone(),
            other_stuff: copy_entries(&self.other_stuff),
        }
    }
}

/// A master of the family: its identifier, its vertical metrics and its
/// place on up to six axes, by position.
#[derive(Debug, PartialEq)]
pub struct FontMaster {
    pub id: String,
    pub ascender: Option<i64>,
    pub cap_height: Option<i64>,
    pub descender: Option<i64>,
    pub x_height: Option<i64>,
    pub italic_angle: Option<Decimal>,
    pub weight_value: Option<Decimal>,
    pub width_value: Option<Decimal>,
    pub custom_value: Option<Decimal>,
    pub custom_value1: Option<Decimal>,
    pub custom_value2: Option<Decimal>,
    pub custom_value3: Option<Decimal>,
    pub other_stuff: Vec<(String, Plist)>,
}

/// What a [`FontMaster`] stands for.
pub struct FontMasterModel {
    pub id: Seq<char>,
    pub ascender: Option<i64>,
    pub cap_height: Option<i64>,
    pub descender: Option<i64>,
    pub x_height: Option<i64>,
    pub italic_angle: Option<DecimalModel>,
    pub weight_value: Option<DecimalModel>,
    pub width_value: Option<DecimalModel>,
    pub custom_value: Option<DecimalModel>,
    pub custom_value1: Option<DecimalModel>,
    pub custom_value2: Option<DecimalModel>,
    pub custom_value3: Option<DecimalModel>,
    pub other_stuff: Seq<(Seq<char>, PlistModel)>,
}

impl DeepView for FontMaster {
    type V = FontMasterModel;

    open spec fn deep_view(&self) -> FontMasterModel {
        FontMasterModel {
            id: self.id@,
            ascender: self.ascender,
            cap_height: self.cap_height,
            descender: self.descender,
            x_height: self.x_height,
            italic_angle: self.italic_angle.deep_view(),
            weight_value: self.weight_value.deep_view(),
            width_value: self.width_value.deep_view(),
            custom_value: self.custom_value.deep_view(),
            custom_value1: self.custom_value1.deep_view(),
            custom_value2: self.custom_value2.deep_view(),
            custom_value3: self.custom_value3.deep_view(),
            other_stuff: entries_model(self.other_stuff@),
        }
    }
}

impl Clone for FontMaster {
    fn clone(&self) -> (r: FontMaster)
        ensures
            r.deep_view() == self.deep_view(),
    {
        FontMaster {
            id: self.id.clone(),
            ascender: self.ascender,
            cap_height: self.cap_height,
            descender: self.descender,
            x_height: self.x_height,
            italic_angle: self.italic_angle.clone(),
            weight_value: self.weight_value.clone(),
            width_value: self.width_value.clone(),
            custom_value: self.custom_value.clone(),
            custom_value1: self.custom_value1.clone(),
            custom_value2: self.custom_value2.clone(),
            custom_value3: self.custom_value3.clone(),
            other_stuff: copy_entries(&self.other_stuff),
        }
    }
}

/// An instance of the family: a style name and its place on up to six axes,
/// by position.
#[derive(Debug, PartialEq)]
pub struct Instance {
    pub name: String,
    pub interpolation_weight: Option<Decimal>,
    pub interpolation_width: Option<Decimal>,
    pub interpolation_custom: Option<Decimal>,
    pub interpolation_custom1: Option<Decimal>,
    pub interpolation_custom2: Option<Decimal>,
    pub interpolation_custom3: Option<Decimal>,
    pub is_bold: Option<bool>,
    pub is_italic: Option<bool>,
    pub link_style: Option<String>,
    pub other_stuff: Vec<(String, Plist)>,
}

/// What an [`Instance`] stands for.
pub struct InstanceModel {
    pub name: Seq<char>,
    pub interpolation_weight: Option<DecimalModel>,
    pub interpolation_width: Option<DecimalModel>,
    pub interpolation_custom: Option<DecimalModel>,
    pub interpolation_custom1: Option<DecimalModel>,
    pub interpolation_custom2: Option<DecimalModel>,
    pub interpolation_custom3: Option<DecimalModel>,
    pub is_bold: Option<bool>,
    pub is_italic: Option<bool>,
    pub link_style: Option<Seq<char>>,
    pub other_stuff: Seq<(Seq<char>, PlistModel)>,
}

impl DeepView for Instance {
    type V = InstanceModel;

    open spec fn deep_view(&self) -> InstanceModel {
        InstanceModel {
            name: self.name@,
            interpolation_weight: self.interpolation_weight.deep_view(),
            interpolation_width: self.interpolation_width.deep_view(),
            interpolation_custom: self.interpolation_custom.deep_view(),
            interpolation_custom1: self.interpolation_custom1.deep_view(),
            interpolation_custom2: self.interpolation_custom2.deep_view(),
            interpolation_custom3: self.interpolation_custom3.deep_view(),
            is_bold: self.is_bold,
            is_italic: self.is_italic,
            link_style: self.link_style.deep_view(),
            other_stuff: entries_model(self.other_stuff@),
        }
    }
}

impl Clone for Instance {
    fn clone(&self) -> (r: Instance)
        ensures
            r.deep_view() == self.deep_view(),
    {
        Instance {
            name: self.name.clone(),
            interpolation_weight: self.interpolation_weight.clone(),
            interpolation_width: self.interpolation_width.clone(),
            interpolation_custom: self.interpolation_custom.clone(),
            interpolation_custom1: self.interpolation_custom1.clone(),
            interpolation_custom2: self.interpolation_custom2.clone(),
            interpolation_custom3: self.interpolation_custom3.clone(),
            is_bold: self.is_bold,
            is_italic: self.is_italic,
            link_style: self.link_style.clone(),
            other_stuff: copy_entries(&self.other_stuff),
        }
    }
}

/// A family: its name and version, its glyphs, masters and instances.
#[derive(Debug, PartialEq)]
pub struct Font {
    pub family_name: String,
    pub version_major: i64,
    pub version_minor: i64,
    pub units_per_em: i64,
    pub glyphs: Vec<Glyph>,
    pub font_master: Vec<FontMaster>,
    pub instances: Option<Vec<Instance>>,
    pub disables_automatic_alignment: Option<bool>,
    pub other_stuff: Vec<(String, Plist)>,
}

/// What a [`Font`] stands for.
pub struct FontModel {
    pub family_name: Seq<char>,
    pub version_major: i64,
    pub version_minor: i64,
    pub units_per_em: i64,
    pub glyphs: Seq<GlyphModel>,
    pub font_master: Seq<FontMasterModel>,
    pub instances: Option<Seq<InstanceModel>>,
    pub disables_automatic_alignment: Option<bool>,
    pub other_stuff: Seq<(Seq<char>, PlistModel)>,
}

impl DeepView for Font {
    type V = FontModel;

    open spec fn deep_view(&self) -> FontModel {
        FontModel {
            family_name: self.family_name@,
            version_major: self.version_major,
            version_minor: self.version_minor,
            units_per_em: self.units_per_em,
            glyphs: self.glyphs.deep_view(),
            font_master: self.font_master.deep_view(),
            instances: self.instances.deep_view(),
            disables_automatic_alignment: self.disables_automatic_alignment,
            other_stuff: entries_model(self.other_stuff@),
        }
    }
}

impl Clone for Font {
    fn clone(&self) -> (r: Font)
        ensures
            r.deep_view() == self.deep_view(),
    {
        let glyphs = self.glyphs.clone();
        let font_master = self.font_master.clone();
        let instances = self.instances.clone();
        proof {
            assert(glyphs.deep_view() =~= self.glyphs.deep_view());
            assert(font_master.deep_view() =~= self.font_master.deep_view());
            if self.instances is Some {
                assert(instances->0.deep_view() =~= self.instances->0.deep_view());
            }
        }
        Font {
            family_name: self.family_name.clone(),
            version_major: self.version_major,
            version_minor: self.version_minor,
            units_per_em: self.units_per_em,
            glyphs,
            font_master,
            instances,
            disables_automatic_alignment: self.disables_automatic_alignment,
            other_stuff: copy_entries(&self.other_stuff),
        }
    }
}

impl PathModel {
    /// The path with `node` added at its end.
    pub open spec fn with_node(self, node: NodeModel) -> PathModel {
        PathModel { nodes: self.nodes.push(node), ..self }
    }
}

impl Path {
    /// A path without nodes.
    pub fn new(closed: bool) -> (r: Path)
        ensures
            r.deep_view() == (PathModel { closed, nodes: Seq::empty() }),
    {
        let r = Path { nodes: Vec::new(), closed };
        assert(r.nodes.deep_view() =~= Seq::empty());
        r
    }

    /// Adds a node of the given kind at `pt` to the end of the path.
    pub fn add(&mut self, pt: Point, node_type: NodeType)
        ensures
            final(self).deep_view() == old(self).deep_view().with_node(
                NodeModel { pt: pt.deep_view(), node_type },
            ),
    {
        self.nodes.push(Node { pt, node_type });
        assert(self.nodes.deep_view() =~= old(self).nodes.deep_view().push(
            NodeModel { pt: pt.deep_view(), node_type },
        ));
    }

    /// Moves the first `delta` nodes to the end of the path, in their order.
    pub fn rotate_left(&mut self, delta: usize)
        requires
            delta <= old(self).nodes@.len(),
        ensures
            final(self).closed == old(self).closed,
            final(self).nodes.deep_view() == old(self).nodes.deep_view().skip(delta as int)
                + old(self).nodes.deep_view().take(delta as int),
    {
        let ghost before = self.nodes.deep_view();
        let mut tail = self.nodes.split_off(delta);
        assert(self.nodes.deep_view() =~= before.take(delta as int));
        assert(tail.deep_view() =~= before.skip(delta as int));
        tail.append(&mut self.nodes);
        assert(tail.deep_view() =~= before.skip(delta as int) + before.take(delta as int));
        self.nodes = tail;
    }

    /// Puts the nodes of the path in the opposite order.
    pub fn reverse(&mut self)
        ensures
            final(self).closed == old(self).closed,
            final(self).nodes.deep_view() == old(self).nodes.deep_view().reverse(),
    {
        let ghost before = self.nodes.deep_view();
        let mut out: Vec<Node> = Vec::new();
        while self.nodes.len() > 0
            invariant
                self.closed == old(self).closed,
                out@.len() + self.nodes@.len() == before.len(),
                self.nodes.deep_view() == before.take(self.nodes@.len() as int),
                forall|j: int|
                    0 <= j < out@.len() ==> (#[trigger] out.deep_view()[j]) == before[before.len()
                        - 1 - j],
            decreases self.nodes@.len(),
        {
            let ghost rest = self.nodes.deep_view();
            let ghost done = out.deep_view();
            match self.nodes.pop() {
                Some(node) => {
                    assert(node.deep_view() == rest.last());
                    assert(rest.last() == before[rest.len() - 1]);
                    assert(self.nodes.deep_view() =~= rest.drop_last());
                    out.push(node);
                    assert(out.deep_view() =~= done.push(node.deep_view()));
                },
                None => {},
            }
        }
        assert(out.deep_view() =~= before.reverse());
        self.nodes = out;
    }
}

impl GlyphModel {
    /// The index of the layer with the given identifier.
    pub open spec fn layer_index(self, layer_id: Seq<char>) -> Option<int> {
        first_match(self.layers, |l: LayerModel| l.layer_id == layer_id)
    }
}

impl FontModel {
    /// The index of the glyph with the given name.
    pub open spec fn glyph_index(self, glyphname: Seq<char>) -> Option<int> {
        first_match(self.glyphs, |g: GlyphModel| g.glyphname == glyphname)
    }
}

impl Glyph {
    /// The name of the glyph.
    pub fn name(&self) -> (r: &str)
        ensures
            r@ == self.deep_view().glyphname,
    {
        self.glyphname.as_str()
    }

    /// The index of the layer with the given identifier.
    pub fn layer_index(&self, layer_id: &str) -> (r: Option<usize>)
        ensures
            index_model(r) == self.deep_view().layer_index(layer_id@),
            r matches Some(i) ==> i < self.layers@.len(),
    {
        let identified = |l: &Layer| -> (b: bool)
            ensures
                b == (l.deep_view().layer_id == layer_id@),
            { l.layer_id.as_str().eq(layer_id) };
        find_first(&self.layers, identified, Ghost(|l: LayerModel| l.layer_id == layer_id@))
    }

    /// The first layer with the given identifier.
    pub fn get_layer(&self, layer_id: &str) -> (r: Option<&Layer>)
        ensures
            match self.deep_view().layer_index(layer_id@) {
                Some(i) => r == Some(&self.layers@[i]),
                None => r is None,
            },
    {
        match self.layer_index(layer_id) {
            Some(i) => Some(&self.layers[i]),
            None => None,
        }
    }
}

impl Font {
    /// The first glyph with the given name, to be changed in place.
    pub fn get_glyph_mut(&mut self, glyphname: &str) -> (r: Option<&mut Glyph>)
        ensures
            match old(self).deep_view().glyph_index(glyphname@) {
                Some(i) => r is Some && *r->0 == old(self).glyphs@[i] && *final(self) == (Font {
                    glyphs: final(self).glyphs,
                    ..*old(self)
                }) && final(self).glyphs@ == old(self).glyphs@.update(i, *final(r->0)),
                None => r is None && *final(self) == *old(self),
            },
    {
        match self.glyph_index(glyphname) {
            Some(i) => Some(&mut self.glyphs[i]),
            None => None,
        }
    }

    /// The index of the glyph with the given name.
    pub fn glyph_index(&self, glyphname: &str) -> (r: Option<usize>)
        ensures
            index_model(r) == self.deep_view().glyph_index(glyphname@),
            r matches Some(i) ==> i < self.glyphs@.len(),
    {
        let named = |g: &Glyph| -> (b: bool)
            ensures
                b == (g.deep_view().glyphname == glyphname@),
            { g.glyphname.as_str().eq(glyphname) };
        find_first(&self.glyphs, named, Ghost(|g: GlyphModel| g.glyphname == glyphname@))
    }

    /// The first glyph with the given name.
    pub fn get_glyph(&self, glyphname: &str) -> (r: Option<&Glyph>)
        ensures
            match self.deep_view().glyph_index(glyphname@) {
                Some(i) => r == Some(&self.glyphs@[i]),
                None => r is None,
            },
    {
        match self.glyph_index(glyphname) {
            Some(i) => Some(&self.glyphs[i]),
            None => None,
        }
    }
}

/// The style name that a master keeps among its custom parameters: the
/// string under `value` in the first parameter whose `name` is
/// `Master Name`.
pub open spec fn master_name(other_stuff: Seq<(Seq<char>, PlistModel)>) -> Option<Seq<char>> {
    match lookup(other_stuff, "customParameters"@) {
        Some(PlistModel::Array(parameters)) => match first_match(
            parameters,
            |p: PlistModel| p.get("name"@) == Some(PlistModel::String("Master Name"@)),
        ) {
            Some(i) => match parameters[i].get("value"@) {
                Some(PlistModel::String(name)) => Some(name),
                _ => None,
            },
            None => None,
        },
        _ => None,
    }
}

impl FontMasterModel {
    /// The style name of the master.
    pub open spec fn name(self) -> Option<Seq<char>> {
        master_name(self.other_stuff)
    }
}

impl FontMaster {
    /// The style name of the master, where its custom parameters hold one.
    pub fn name(&self) -> (r: Option<&str>)
        ensures
            match r {
                Some(name) => self.deep_view().name() == Some(name@),
                None => self.deep_view().name() is None,
            },
    {
        let parameters = match dict_get(&self.other_stuff, "customParameters") {
            Some(value) => match value.as_array() {
                Some(parameters) => parameters,
                None => {
                    return None;
                },
            },
            None => {
                return None;
            },
        };
        let is_name = |p: &Plist| -> (b: bool)
            ensures
                b == (p.deep_view().get("name"@) == Some(PlistModel::String("Master Name"@))),
            {
                match p.get("name") {
                    Some(value) => match value.as_str() {
                        Some(s) => s.as_str().eq("Master Name"),
                        None => false,
                    },
                    None => false,
                }
            };
        let found = find_first(
            parameters,
            is_name,
            Ghost(|p: PlistModel| p.get("name"@) == Some(PlistModel::String("Master Name"@))),
        );
        match found {
            Some(i) => match parameters[i].get("value") {
                Some(value) => match value.as_str() {
                    Some(s) => Some(s.as_str()),
                    None => None,
                },
                None => None,
            },
            None => None,
        }
    }
}

} // verus!
