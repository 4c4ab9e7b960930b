//! The records of a Glyphs source as value trees, and back.
//!
//! A record is read from a dictionary and written as one. The entries that
//! a record does not know are kept in its `other_stuff` when it is read and
//! written after its fields, in their order, when it is written.

use vstd::prelude::*;
use crate::codec::{
    affine_of_text, affine_text, node_of_text, node_text, point_of_text, point_text, read_affine,
    read_node, read_point, write_affine, write_node, write_point,
};
use crate::decimal::{Decimal, DecimalModel};
use crate::error::{ConversionError, ConversionErrorModel, ErrorKind};
use crate::codec::{codepoints_of_plist, codepoints_text, codepoints_to_plist, read_codepoints};
use crate::codepoints::optional_codepoints;
use crate::font::{
    Anchor, AnchorModel, Component, ComponentModel, Font, FontMaster, FontMasterModel, FontModel,
    Glyph, GlyphModel, GuideLine, GuideLineModel, Instance, InstanceModel, Layer, LayerModel,
    Node, NodeModel, Path, PathModel,
};
use crate::grammar::{parse_document, text_of};
use crate::names::{is_valid_name, valid_name};
use crate::parse::{reads_as, ParseError};
use crate::plist::{dict_get, lookup};
use crate::schema::{as_int, missing, read_int};
use crate::geometry::{Affine, AffineModel, Point, PointModel};
use crate::plist::{entries_model, Plist, PlistModel};
use crate::schema::{
    as_flag, as_number, as_text, flag_node, number_node, optional_field, optional_record_list,
    read_decimal, read_field, read_flag, read_list, read_optional, read_optional_list,
    read_text, read_unknown, record_list, scalar_field, unknown, wrong, write_flag,
    write_number,
};
use crate::vecs::map_model;

verus! {

/// The point that a node of a value tree holds.
pub open spec fn as_point(p: PlistModel) -> Option<PointModel> {
    match p {
        PlistModel::String(s) => point_of_text(s),
        _ => None,
    }
}

/// The transform that a node of a value tree holds.
pub open spec fn as_affine(p: PlistModel) -> Option<AffineModel> {
    match p {
        PlistModel::String(s) => affine_of_text(s),
        _ => None,
    }
}

/// The node of a path that a node of a value tree holds.
pub open spec fn as_node(p: PlistModel) -> Result<NodeModel, ConversionErrorModel> {
    match p {
        PlistModel::String(s) => match node_of_text(s) {
            Some(n) => Ok(n),
            None => Err(wrong("nodes"@)),
        },
        _ => Err(wrong("nodes"@)),
    }
}

/// The entry under `key`, where there is a value.
pub open spec fn optional_entry(key: Seq<char>, value: Option<PlistModel>) -> Seq<
    (Seq<char>, PlistModel),
> {
    match value {
        Some(v) => seq![(key, v)],
        None => Seq::empty(),
    }
}

/// The node for an optional string.
pub open spec fn optional_text(s: Option<Seq<char>>) -> Option<PlistModel> {
    match s {
        Some(s) => Some(PlistModel::String(s)),
        None => None,
    }
}

/// The node for an optional whole number.
pub open spec fn optional_integer(n: Option<i64>) -> Option<PlistModel> {
    match n {
        Some(n) => Some(PlistModel::Integer(n)),
        None => None,
    }
}

/// The node for an optional number.
pub open spec fn optional_number(d: Option<DecimalModel>) -> Option<PlistModel> {
    match d {
        Some(d) => Some(number_node(d)),
        None => None,
    }
}

/// The node for an optional truth value.
pub open spec fn optional_flag(b: Option<bool>) -> Option<PlistModel> {
    match b {
        Some(b) => Some(flag_node(b)),
        None => None,
    }
}

/// The node for an optional list of records.
pub open spec fn optional_array<T>(s: Option<Seq<T>>, g: spec_fn(T) -> PlistModel) -> Option<
    PlistModel,
> {
    match s {
        Some(s) => Some(PlistModel::Array(s.map_values(g))),
        None => None,
    }
}

fn point_from(p: &Plist) -> (r: Option<Point>)
    ensures
        r.deep_view() == as_point(p.deep_view()),
{
    match p {
        Plist::String(s) => read_point(s.as_str()),
        _ => None,
    }
}

fn affine_from(p: &Plist) -> (r: Option<Affine>)
    ensures
        r.deep_view() == as_affine(p.deep_view()),
{
    match p {
        Plist::String(s) => read_affine(s.as_str()),
        _ => None,
    }
}

/// Adds the entry `key`, `value` at the end.
pub fn put(entries: &mut Vec<(String, Plist)>, key: &str, value: Plist)
    ensures
        entries_model(final(entries)@) == entries_model(old(entries)@).push(
            (key@, value.deep_view()),
        ),
{
    entries.push((key.to_owned(), value));
    assert(entries_model(entries@) =~= entries_model(old(entries)@).push(
        (key@, value.deep_view()),
    ));
}

/// Adds the entry `key`, `value` at the end, where there is a value.
pub fn put_optional(entries: &mut Vec<(String, Plist)>, key: &str, value: Option<Plist>)
    ensures
        entries_model(final(entries)@) == entries_model(old(entries)@) + optional_entry(
            key@,
            value.deep_view(),
        ),
{
    match value {
        Some(v) => {
            put(entries, key, v);
            assert(entries_model(entries@) =~= entries_model(old(entries)@) + optional_entry(
                key@,
                Some(v.deep_view()),
            ));
        },
        None => {
            assert(entries_model(entries@) =~= entries_model(old(entries)@) + optional_entry(
                key@,
                None,
            ));
        },
    }
}

/// Adds copies of the entries of `other` at the end.
pub fn put_all(entries: &mut Vec<(String, Plist)>, other: &Vec<(String, Plist)>)
    ensures
        entries_model(final(entries)@) == entries_model(old(entries)@) + entries_model(other@),
{
    let mut copies = crate::font::copy_entries(other);
    let ghost before = entries_model(entries@);
    let ghost added = entries_model(copies@);
    entries.append(&mut copies);
    assert(entries_model(entries@) =~= before + added);
}

fn text_node(s: &Option<String>) -> (r: Option<Plist>)
    ensures
        r.deep_view() == optional_text(s.deep_view()),
{
    match s {
        Some(s) => Some(Plist::String(s.clone())),
        None => None,
    }
}

fn integer_node(n: Option<i64>) -> (r: Option<Plist>)
    ensures
        r.deep_view() == optional_integer(n),
{
    match n {
        Some(n) => Some(Plist::Integer(n)),
        None => None,
    }
}

fn decimal_node(d: &Option<Decimal>) -> (r: Option<Plist>)
    ensures
        r.deep_view() == optional_number(d.deep_view()),
{
    match d {
        Some(d) => Some(write_number(d)),
        None => None,
    }
}

fn truth_node(b: Option<bool>) -> (r: Option<Plist>)
    ensures
        r.deep_view() == optional_flag(b),
{
    match b {
        Some(b) => Some(write_flag(b)),
        None => None,
    }
}

impl NodeModel {
    /// The node of a value tree for this node.
    pub open spec fn to_plist(self) -> PlistModel {
        PlistModel::String(node_text(self))
    }
}

impl Node {
    /// The node of a path that `plist` holds.
    pub fn from_plist(plist: &Plist) -> (r: Result<Node, ConversionError>)
        ensures
            match r {
                Ok(n) => as_node(plist.deep_view()) == Ok::<NodeModel, ConversionErrorModel>(
                    n.deep_view(),
                ),
                Err(e) => as_node(plist.deep_view()) == Err::<NodeModel, ConversionErrorModel>(
                    e.deep_view(),
                ),
            },
    {
        match plist {
            Plist::String(s) => match read_node(s.as_str()) {
                Some(n) => Ok(n),
                None => Err(ConversionError::new(ErrorKind::WrongVariant, "nodes")),
            },
            _ => Err(ConversionError::new(ErrorKind::WrongVariant, "nodes")),
        }
    }

    /// The node of a value tree for this node.
    pub fn to_plist(&self) -> (r: Plist)
        ensures
            r.deep_view() == self.deep_view().to_plist(),
    {
        Plist::String(write_node(self))
    }
}

impl PathModel {
    /// The path that a value tree holds: a dictionary with `closed` and
    /// `nodes`.
    pub open spec fn from_plist(p: PlistModel) -> Result<PathModel, ConversionErrorModel> {
        match p {
            PlistModel::Dictionary(entries) => {
                let closed = scalar_field(entries, "closed"@, |p: PlistModel| as_flag(p));
                let nodes = record_list(entries, "nodes"@, |p: PlistModel| as_node(p));
                if closed is Err {
                    Err(closed->Err_0)
                } else if nodes is Err {
                    Err(nodes->Err_0)
                } else {
                    Ok(PathModel { closed: closed->Ok_0, nodes: nodes->Ok_0 })
                }
            },
            _ => Err(wrong("paths"@)),
        }
    }

    /// The value tree for this path.
    pub open spec fn to_plist(self) -> PlistModel {
        PlistModel::Dictionary(
            seq![
                ("closed"@, flag_node(self.closed)),
                ("nodes"@, PlistModel::Array(self.nodes.map_values(|n: NodeModel| n.to_plist()))),
            ],
        )
    }
}

impl Path {
    /// The path that `plist` holds.
    pub fn from_plist(plist: &Plist) -> (r: Result<Path, ConversionError>)
        ensures
            match r {
                Ok(x) => PathModel::from_plist(plist.deep_view()) == Ok::<
                    PathModel,
                    ConversionErrorModel,
                >(x.deep_view()),
                Err(e) => PathModel::from_plist(plist.deep_view()) == Err::<
                    PathModel,
                    ConversionErrorModel,
                >(e.deep_view()),
            },
    {
        let entries = match plist.as_dict() {
            Some(entries) => entries,
            None => {
                return Err(ConversionError::new(ErrorKind::WrongVariant, "paths"));
            },
        };
        let closed = match read_field(
            entries,
            "closed",
            read_flag,
            Ghost(|p: PlistModel| as_flag(p)),
        ) {
            Ok(x) => x,
            Err(e) => {
                return Err(e);
            },
        };
        let nodes = match read_list(
            entries,
            "nodes",
            Node::from_plist,
            Ghost(|p: PlistModel| as_node(p)),
        ) {
            Ok(x) => x,
            Err(e) => {
                return Err(e);
            },
        };
        Ok(Path { closed, nodes })
    }

    /// The value tree for this path.
    pub fn to_plist(&self) -> (r: Plist)
        ensures
            r.deep_view() == self.deep_view().to_plist(),
    {
        let nodes = map_model(&self.nodes, Node::to_plist, Ghost(|n: NodeModel| n.to_plist()));
        Plist::pair("closed", write_flag(self.closed), "nodes", Plist::array(nodes))
    }
}

/// The keys that a component knows.
pub open spec fn component_keys() -> Seq<Seq<char>> {
    seq!["name"@, "transform"@]
}

impl ComponentModel {
    /// The component that a value tree holds.
    pub open spec fn from_plist(p: PlistModel) -> Result<ComponentModel, ConversionErrorModel> {
        match p {
            PlistModel::Dictionary(entries) => {
                let name = scalar_field(entries, "name"@, |p: PlistModel| as_text(p));
                let transform = optional_field(entries, "transform"@, |p: PlistModel| as_affine(p));
                if name is Err {
                    Err(name->Err_0)
                } else if transform is Err {
                    Err(transform->Err_0)
                } else {
                    Ok(
                        ComponentModel {
                            name: name->Ok_0,
                            transform: transform->Ok_0,
                            other_stuff: unknown(entries, component_keys()),
                        },
                    )
                }
            },
            _ => Err(wrong("components"@)),
        }
    }

    /// The entries for the fields of this component.
    pub open spec fn fields(self) -> Seq<(Seq<char>, PlistModel)> {
        seq![("name"@, PlistModel::String(self.name))] + optional_entry(
            "transform"@,
            match self.transform {
                Some(t) => Some(PlistModel::String(affine_text(t))),
                None => None,
            },
        )
    }

    /// The value tree for this component.
    pub open spec fn to_plist(self) -> PlistModel {
        PlistModel::Dictionary(self.fields() + self.other_stuff)
    }
}

fn component_schema() -> (r: Vec<&'static str>)
    ensures
        r.deep_view() == component_keys(),
{
    let mut keys: Vec<&'static str> = Vec::new();
    keys.push("name");
    keys.push("transform");
    assert(keys.deep_view() =~= component_keys());
    keys
}

impl Component {
    /// The component that `plist` holds.
    pub fn from_plist(plist: &Plist) -> (r: Result<Component, ConversionError>)
        ensures
            match r {
                Ok(x) => ComponentModel::from_plist(plist.deep_view()) == Ok::<
                    ComponentModel,
                    ConversionErrorModel,
                >(x.deep_view()),
                Err(e) => ComponentModel::from_plist(plist.deep_view()) == Err::<
                    ComponentModel,
                    ConversionErrorModel,
                >(e.deep_view()),
            },
    {
        let entries = match plist.as_dict() {
            Some(entries) => entries,
            None => {
                return Err(ConversionError::new(ErrorKind::WrongVariant, "components"));
            },
        };
        let name = match read_field(entries, "name", read_text, Ghost(|p: PlistModel| as_text(p))) {
            Ok(x) => x,
            Err(e) => {
                return Err(e);
            },
        };
        let transform = match read_optional(
            entries,
            "transform",
            affine_from,
            Ghost(|p: PlistModel| as_affine(p)),
        ) {
            Ok(x) => x,
            Err(e) => {
                return Err(e);
            },
        };
        let other_stuff = read_unknown(entries, &component_schema());
        Ok(Component { name, transform, other_stuff })
    }

    /// The value tree for this component.
    pub fn to_plist(&self) -> (r: Plist)
        ensures
            r.deep_view() == self.deep_view().to_plist(),
    {
        let mut entries: Vec<(String, Plist)> = Vec::new();
        assert(entries_model(entries@) =~= Seq::empty());
        put(&mut entries, "name", Plist::String(self.name.clone()));
        let transform = match &self.transform {
            Some(t) => Some(Plist::String(write_affine(t))),
            None => None,
        };
        put_optional(&mut entries, "transform", transform);
        assert(entries_model(entries@) =~= self.deep_view().fields());
        put_all(&mut entries, &self.other_stuff);
        Plist::dictionary(entries)
    }
}

impl AnchorModel {
    /// The anchor that a value tree holds: a dictionary with `name` and
    /// `position`.
    pub open spec fn from_plist(p: PlistModel) -> Result<AnchorModel, ConversionErrorModel> {
        match p {
            PlistModel::Dictionary(entries) => {
                let name = scalar_field(entries, "name"@, |p: PlistModel| as_text(p));
                let position = scalar_field(entries, "position"@, |p: PlistModel| as_point(p));
                if name is Err {
                    Err(name->Err_0)
                } else if position is Err {
                    Err(position->Err_0)
                } else {
                    Ok(AnchorModel { name: name->Ok_0, position: position->Ok_0 })
                }
            },
            _ => Err(wrong("anchors"@)),
        }
    }

    /// The value tree for this anchor.
    pub open spec fn to_plist(self) -> PlistModel {
        PlistModel::Dictionary(
            seq![
                ("name"@, PlistModel::String(self.name)),
                ("position"@, PlistModel::String(point_text(self.position))),
            ],
        )
    }
}

impl Anchor {
    /// The anchor that `plist` holds.
    pub fn from_plist(plist: &Plist) -> (r: Result<Anchor, ConversionError>)
        ensures
            match r {
                Ok(x) => AnchorModel::from_plist(plist.deep_view()) == Ok::<
                    AnchorModel,
                    ConversionErrorModel,
                >(x.deep_view()),
                Err(e) => AnchorModel::from_plist(plist.deep_view()) == Err::<
                    AnchorModel,
                    ConversionErrorModel,
                >(e.deep_view()),
            },
    {
        let entries = match plist.as_dict() {
            Some(entries) => entries,
            None => {
                return Err(ConversionError::new(ErrorKind::WrongVariant, "anchors"));
            },
        };
        let name = match read_field(entries, "name", read_text, Ghost(|p: PlistModel| as_text(p))) {
            Ok(x) => x,
            Err(e) => {
                return Err(e);
            },
        };
        let position = match read_field(
            entries,
            "position",
            point_from,
            Ghost(|p: PlistModel| as_point(p)),
        ) {
            Ok(x) => x,
            Err(e) => {
                return Err(e);
            },
        };
        Ok(Anchor { name, position })
    }

    /// The value tree for this anchor.
    pub fn to_plist(&self) -> (r: Plist)
        ensures
            r.deep_view() == self.deep_view().to_plist(),
    {
        Plist::pair(
            "name",
            Plist::String(self.name.clone()),
            "position",
            Plist::String(write_point(&self.position)),
        )
    }
}

impl GuideLineModel {
    /// The guide line that a value tree holds: a dictionary with `position`
    /// and, where it is not level, `angle`.
    pub open spec fn from_plist(p: PlistModel) -> Result<GuideLineModel, ConversionErrorModel> {
        match p {
            PlistModel::Dictionary(entries) => {
                let angle = optional_field(entries, "angle"@, |p: PlistModel| as_number(p));
                let position = scalar_field(entries, "position"@, |p: PlistModel| as_point(p));
                if angle is Err {
                    Err(angle->Err_0)
                } else if position is Err {
                    Err(position->Err_0)
                } else {
                    Ok(GuideLineModel { angle: angle->Ok_0, position: position->Ok_0 })
                }
            },
            _ => Err(wrong("guideLines"@)),
        }
    }

    /// The value tree for this guide line.
    pub open spec fn to_plist(self) -> PlistModel {
        PlistModel::Dictionary(
            optional_entry("angle"@, optional_number(self.angle)) + seq![
                ("position"@, PlistModel::String(point_text(self.position))),
            ],
        )
    }
}

impl GuideLine {
    /// The guide line that `plist` holds.
    pub fn from_plist(plist: &Plist) -> (r: Result<GuideLine, ConversionError>)
        ensures
            match r {
                Ok(x) => GuideLineModel::from_plist(plist.deep_view()) == Ok::<
                    GuideLineModel,
                    ConversionErrorModel,
                >(x.deep_view()),
                Err(e) => GuideLineModel::from_plist(plist.deep_view()) == Err::<
                    GuideLineModel,
                    ConversionErrorModel,
                >(e.deep_view()),
            },
    {
        let entries = match plist.as_dict() {
            Some(entries) => entries,
            None => {
                return Err(ConversionError::new(ErrorKind::WrongVariant, "guideLines"));
            },
        };
        let angle = match read_optional(
            entries,
            "angle",
            read_decimal,
            Ghost(|p: PlistModel| as_number(p)),
        ) {
            Ok(x) => x,
            Err(e) => {
                return Err(e);
            },
        };
        let position = match read_field(
            entries,
            "position",
            point_from,
            Ghost(|p: PlistModel| as_point(p)),
        ) {
            Ok(x) => x,
            Err(e) => {
                return Err(e);
            },
        };
        Ok(GuideLine { angle, position })
    }

    /// The value tree for this guide line.
    pub fn to_plist(&self) -> (r: Plist)
        ensures
            r.deep_view() == self.deep_view().to_plist(),
    {
        let mut entries: Vec<(String, Plist)> = Vec::new();
        assert(entries_model(entries@) =~= Seq::empty());
        put_optional(&mut entries, "angle", decimal_node(&self.angle));
        put(&mut entries, "position", Plist::String(write_point(&self.position)));
        assert(entries_model(entries@) =~= optional_entry(
            "angle"@,
            optional_number(self.deep_view().angle),
        ) + seq![("position"@, PlistModel::String(point_text(self.deep_view().position)))]);
        Plist::dictionary(entries)
    }
}

/// The keys that a layer knows.
pub open spec fn layer_keys() -> Seq<Seq<char>> {
    seq![
        "name"@,
        "associatedMasterId"@,
        "layerId"@,
        "width"@,
        "paths"@,
        "components"@,
        "anchors"@,
        "guideLines"@,
    ]
}

impl LayerModel {
    /// The layer that a value tree holds.
    pub open spec fn from_plist(p: PlistModel) -> Result<LayerModel, ConversionErrorModel> {
        match p {
            PlistModel::Dictionary(entries) => {
                let name = optional_field(entries, "name"@, |p: PlistModel| as_text(p));
                let master = optional_field(
                    entries,
                    "associatedMasterId"@,
                    |p: PlistModel| as_text(p),
                );
                let layer_id = scalar_field(entries, "layerId"@, |p: PlistModel| as_text(p));
                let width = scalar_field(entries, "width"@, |p: PlistModel| as_number(p));
                let paths = optional_record_list(
                    entries,
                    "paths"@,
                    |p: PlistModel| PathModel::from_plist(p),
                );
                let components = optional_record_list(
                    entries,
                    "components"@,
                    |p: PlistModel| ComponentModel::from_plist(p),
                );
                let anchors = optional_record_list(
                    entries,
                    "anchors"@,
                    |p: PlistModel| AnchorModel::from_plist(p),
                );
                let guide_lines = optional_record_list(
                    entries,
                    "guideLines"@,
                    |p: PlistModel| GuideLineModel::from_plist(p),
                );
                if name is Err {
                    Err(name->Err_0)
                } else if master is Err {
                    Err(master->Err_0)
                } else if layer_id is Err {
                    Err(layer_id->Err_0)
                } else if width is Err {
                    Err(width->Err_0)
                } else if paths is Err {
                    Err(paths->Err_0)
                } else if components is Err {
                    Err(components->Err_0)
                } else if anchors is Err {
                    Err(anchors->Err_0)
                } else if guide_lines is Err {
                    Err(guide_lines->Err_0)
                } else {
                    Ok(
                        LayerModel {
                            name: name->Ok_0,
                            associated_master_id: master->Ok_0,
                            layer_id: layer_id->Ok_0,
                            width: width->Ok_0,
                            paths: paths->Ok_0,
                            components: components->Ok_0,
                            anchors: anchors->Ok_0,
                            guide_lines: guide_lines->Ok_0,
                            other_stuff: unknown(entries, layer_keys()),
                        },
                    )
                }
            },
            _ => Err(wrong("layers"@)),
        }
    }

    /// The entries for the fields of this layer.
    pub open spec fn fields(self) -> Seq<(Seq<char>, PlistModel)> {
        optional_entry("name"@, optional_text(self.name)) + optional_entry(
            "associatedMasterId"@,
            optional_text(self.associated_master_id),
        ) + seq![
            ("layerId"@, PlistModel::String(self.layer_id)),
            ("width"@, number_node(self.width)),
        ] + optional_entry(
            "paths"@,
            optional_array(self.paths, |x: PathModel| x.to_plist()),
        ) + optional_entry(
            "components"@,
            optional_array(self.components, |x: ComponentModel| x.to_plist()),
        ) + optional_entry(
            "anchors"@,
            optional_array(self.anchors, |x: AnchorModel| x.to_plist()),
        ) + optional_entry(
            "guideLines"@,
            optional_array(self.guide_lines, |x: GuideLineModel| x.to_plist()),
        )
    }

    /// The value tree for this layer.
    pub open spec fn to_plist(self) -> PlistModel {
        PlistModel::Dictionary(self.fields() + self.other_stuff)
    }
}

fn layer_schema() -> (r: Vec<&'static str>)
    ensures
        r.deep_view() == layer_keys(),
{
    let mut keys: Vec<&'static str> = Vec::new();
    keys.push("name");
    keys.push("associatedMasterId");
    keys.push("layerId");
    keys.push("width");
    keys.push("paths");
    keys.push("components");
    keys.push("anchors");
    keys.push("guideLines");
    assert(keys.deep_view() =~= layer_keys());
    keys
}

fn paths_node(paths: &Option<Vec<Path>>) -> (r: Option<Plist>)
    ensures
        r.deep_view() == optional_array(paths.deep_view(), |x: PathModel| x.to_plist()),
{
    match paths {
        Some(v) => Some(
            Plist::array(map_model(v, Path::to_plist, Ghost(|x: PathModel| x.to_plist()))),
        ),
        None => None,
    }
}

fn components_node(components: &Option<Vec<Component>>) -> (r: Option<Plist>)
    ensures
        r.deep_view() == optional_array(
            components.deep_view(),
            |x: ComponentModel| x.to_plist(),
        ),
{
    match components {
        Some(v) => Some(
            Plist::array(
                map_model(v, Component::to_plist, Ghost(|x: ComponentModel| x.to_plist())),
            ),
        ),
        None => None,
    }
}

fn anchors_node(anchors: &Option<Vec<Anchor>>) -> (r: Option<Plist>)
    ensures
        r.deep_view() == optional_array(anchors.deep_view(), |x: AnchorModel| x.to_plist()),
{
    match anchors {
        Some(v) => Some(
            Plist::array(map_model(v, Anchor::to_plist, Ghost(|x: AnchorModel| x.to_plist()))),
        ),
        None => None,
    }
}

fn guide_lines_node(guide_lines: &Option<Vec<GuideLine>>) -> (r: Option<Plist>)
    ensures
        r.deep_view() == optional_array(
            guide_lines.deep_view(),
            |x: GuideLineModel| x.to_plist(),
        ),
{
    match guide_lines {
        Some(v) => Some(
            Plist::array(
                map_model(v, GuideLine::to_plist, Ghost(|x: GuideLineModel| x.to_plist())),
            ),
        ),
        None => None,
    }
}

impl Layer {
    /// The layer that `plist` holds.
    pub fn from_plist(plist: &Plist) -> (r: Result<Layer, ConversionError>)
        ensures
            match r {
                Ok(x) => LayerModel::from_plist(plist.deep_view()) == Ok::<
                    LayerModel,
                    ConversionErrorModel,
                >(x.deep_view()),
                Err(e) => LayerModel::from_plist(plist.deep_view()) == Err::<
                    LayerModel,
                    ConversionErrorModel,
                >(e.deep_view()),
            },
    {
        let entries = match plist.as_dict() {
            Some(entries) => entries,
            None => {
                return Err(ConversionError::new(ErrorKind::WrongVariant, "layers"));
            },
        };
        let name = match read_optional(
            entries,
            "name",
            read_text,
            Ghost(|p: PlistModel| as_text(p)),
        ) {
            Ok(x) => x,
            Err(e) => {
                return Err(e);
            },
        };
        let associated_master_id = match read_optional(
            entries,
            "associatedMasterId",
            read_text,
            Ghost(|p: PlistModel| as_text(p)),
        ) {
            Ok(x) => x,
            Err(e) => {
                return Err(e);
            },
        };
        let layer_id = match read_field(
            entries,
            "layerId",
            read_text,
            Ghost(|p: PlistModel| as_text(p)),
        ) {
            Ok(x) => x,
            Err(e) => {
                return Err(e);
            },
        };
        let width = match read_field(
            entries,
            "width",
            read_decimal,
            Ghost(|p: PlistModel| as_number(p)),
        ) {
            Ok(x) => x,
            Err(e) => {
                return Err(e);
            },
        };
        let paths = match read_optional_list(
            entries,
            "paths",
            Path::from_plist,
            Ghost(|p: PlistModel| PathModel::from_plist(p)),
        ) {
            Ok(x) => x,
            Err(e) => {
                return Err(e);
            },
        };
        let components = match read_optional_list(
            entries,
            "components",
            Component::from_plist,
            Ghost(|p: PlistModel| ComponentModel::from_plist(p)),
        ) {
            Ok(x) => x,
            Err(e) => {
                return Err(e);
            },
        };
        let anchors = match read_optional_list(
            entries,
            "anchors",
            Anchor::from_plist,
            Ghost(|p: PlistModel| AnchorModel::from_plist(p)),
        ) {
            Ok(x) => x,
            Err(e) => {
                return Err(e);
            },
        };
        let guide_lines = match read_optional_list(
            entries,
            "guideLines",
            GuideLine::from_plist,
            Ghost(|p: PlistModel| GuideLineModel::from_plist(p)),
        ) {
            Ok(x) => x,
            Err(e) => {
                return Err(e);
            },
        };
        let other_stuff = read_unknown(entries, &layer_schema());
        Ok(
            Layer {
                name,
                associated_master_id,
                layer_id,
                width,
                paths,
                components,
                anchors,
                guide_lines,
                other_stuff,
            },
        )
    }

    /// The value tree for this layer.
    pub fn to_plist(&self) -> (r: Plist)
        ensures
            r.deep_view() == self.deep_view().to_plist(),
    {
        let mut entries: Vec<(String, Plist)> = Vec::new();
        assert(entries_model(entries@) =~= Seq::empty());
        put_optional(&mut entries, "name", text_node(&self.name));
        put_optional(&mut entries, "associatedMasterId", text_node(&self.associated_master_id));
        put(&mut entries, "layerId", Plist::String(self.layer_id.clone()));
        put(&mut entries, "width", write_number(&self.width));
        put_optional(&mut entries, "paths", paths_node(&self.paths));
        put_optional(&mut entries, "components", components_node(&self.components));
        put_optional(&mut entries, "anchors", anchors_node(&self.anchors));
        put_optional(&mut entries, "guideLines", guide_lines_node(&self.guide_lines));
        assert(entries_model(entries@) =~= self.deep_view().fields());
        put_all(&mut entries, &self.other_stuff);
        Plist::dictionary(entries)
    }
}

/// The name of a glyph that a node of a value tree holds: a string that can
/// name a glyph, or the infinite number, which is what a bare `infinity`
/// was read as.
pub open spec fn as_name(p: PlistModel) -> Result<Seq<char>, ConversionErrorModel> {
    match p {
        PlistModel::String(s) => if valid_name(s) {
            Ok(s)
        } else {
            Err(ConversionErrorModel::new(ErrorKind::InvalidName, s))
        },
        PlistModel::Float(d) => if d.infinite {
            Ok("infinity"@)
        } else {
            Err(wrong("glyphname"@))
        },
        _ => Err(wrong("glyphname"@)),
    }
}

/// The name of a glyph among the entries, which must be there.
pub open spec fn name_field(entries: Seq<(Seq<char>, PlistModel)>) -> Result<
    Seq<char>,
    ConversionErrorModel,
> {
    match lookup(entries, "glyphname"@) {
        None => Err(missing("glyphname"@)),
        Some(p) => as_name(p),
    }
}

/// The keys that a glyph knows.
pub open spec fn glyph_keys() -> Seq<Seq<char>> {
    seq!["unicode"@, "layers"@, "glyphname"@, "leftKerningGroup"@, "rightKerningGroup"@]
}

impl GlyphModel {
    /// The glyph that a value tree holds.
    pub open spec fn from_plist(p: PlistModel) -> Result<GlyphModel, ConversionErrorModel> {
        match p {
            PlistModel::Dictionary(entries) => {
                let unicode = optional_field(
                    entries,
                    "unicode"@,
                    |p: PlistModel| codepoints_of_plist(p),
                );
                let layers = record_list(
                    entries,
                    "layers"@,
                    |p: PlistModel| LayerModel::from_plist(p),
                );
                let glyphname = name_field(entries);
                let left = optional_field(entries, "leftKerningGroup"@, |p: PlistModel| as_text(p));
                let right = optional_field(
                    entries,
                    "rightKerningGroup"@,
                    |p: PlistModel| as_text(p),
                );
                if unicode is Err {
                    Err(unicode->Err_0)
                } else if layers is Err {
                    Err(layers->Err_0)
                } else if glyphname is Err {
                    Err(glyphname->Err_0)
                } else if left is Err {
                    Err(left->Err_0)
                } else if right is Err {
                    Err(right->Err_0)
                } else {
                    Ok(
                        GlyphModel {
                            unicode: unicode->Ok_0,
                            layers: layers->Ok_0,
                            glyphname: glyphname->Ok_0,
                            left_kerning_group: left->Ok_0,
                            right_kerning_group: right->Ok_0,
                            other_stuff: unknown(entries, glyph_keys()),
                        },
                    )
                }
            },
            _ => Err(wrong("glyphs"@)),
        }
    }

    /// The entries for the fields of this glyph.
    pub open spec fn fields(self) -> Seq<(Seq<char>, PlistModel)> {
        optional_entry(
            "unicode"@,
            match self.unicode {
                Some(c) => Some(PlistModel::String(codepoints_text(c))),
                None => None,
            },
        ) + seq![
            ("layers"@, PlistModel::Array(self.layers.map_values(|x: LayerModel| x.to_plist()))),
            ("glyphname"@, PlistModel::String(self.glyphname)),
        ] + optional_entry("leftKerningGroup"@, optional_text(self.left_kerning_group))
            + optional_entry("rightKerningGroup"@, optional_text(self.right_kerning_group))
    }

    /// The value tree for this glyph.
    pub open spec fn to_plist(self) -> PlistModel {
        PlistModel::Dictionary(self.fields() + self.other_stuff)
    }
}

fn glyph_schema() -> (r: Vec<&'static str>)
    ensures
        r.deep_view() == glyph_keys(),
{
    let mut keys: Vec<&'static str> = Vec::new();
    keys.push("unicode");
    keys.push("layers");
    keys.push("glyphname");
    keys.push("leftKerningGroup");
    keys.push("rightKerningGroup");
    assert(keys.deep_view() =~= glyph_keys());
    keys
}

/// The name of a glyph among the entries.
fn read_name(entries: &Vec<(String, Plist)>) -> (r: Result<String, ConversionError>)
    ensures
        match r {
            Ok(x) => name_field(entries_model(entries@)) == Ok::<Seq<char>, ConversionErrorModel>(
                x@,
            ),
            Err(e) => name_field(entries_model(entries@)) == Err::<
                Seq<char>,
                ConversionErrorModel,
            >(e.deep_view()),
        },
{
    match dict_get(entries, "glyphname") {
        None => Err(ConversionError::new(ErrorKind::MissingField, "glyphname")),
        Some(p) => match p {
            Plist::String(s) => {
                if is_valid_name(s.as_str()) {
                    Ok(s.clone())
                } else {
                    Err(ConversionError::new(ErrorKind::InvalidName, s.as_str()))
                }
            },
            Plist::Float(d) => {
                if d.is_infinite() {
                    Ok("infinity".to_owned())
                } else {
                    Err(ConversionError::new(ErrorKind::WrongVariant, "glyphname"))
                }
            },
            _ => Err(ConversionError::new(ErrorKind::WrongVariant, "glyphname")),
        },
    }
}

/// The code points among the entries, where there are some.
fn read_unicode(entries: &Vec<(String, Plist)>) -> (r: Result<
    Option<norad::Codepoints>,
    ConversionError,
>)
    ensures
        match r {
            Ok(x) => optional_field(
                entries_model(entries@),
                "unicode"@,
                |p: PlistModel| codepoints_of_plist(p),
            ) == Ok::<Option<Seq<char>>, ConversionErrorModel>(optional_codepoints(x)),
            Err(e) => optional_field(
                entries_model(entries@),
                "unicode"@,
                |p: PlistModel| codepoints_of_plist(p),
            ) == Err::<Option<Seq<char>>, ConversionErrorModel>(e.deep_view()),
        },
{
    match dict_get(entries, "unicode") {
        None => Ok(None),
        Some(p) => match read_codepoints(p) {
            Some(c) => Ok(Some(c)),
            None => Err(ConversionError::new(ErrorKind::WrongVariant, "unicode")),
        },
    }
}

impl Glyph {
    /// The glyph that `plist` holds.
    pub fn from_plist(plist: &Plist) -> (r: Result<Glyph, ConversionError>)
        ensures
            match r {
                Ok(x) => GlyphModel::from_plist(plist.deep_view()) == Ok::<
                    GlyphModel,
                    ConversionErrorModel,
                >(x.deep_view()),
                Err(e) => GlyphModel::from_plist(plist.deep_view()) == Err::<
                    GlyphModel,
                    ConversionErrorModel,
                >(e.deep_view()),
            },
    {
        let entries = match plist.as_dict() {
            Some(entries) => entries,
            None => {
                return Err(ConversionError::new(ErrorKind::WrongVariant, "glyphs"));
            },
        };
        let unicode = match read_unicode(entries) {
            Ok(x) => x,
            Err(e) => {
                return Err(e);
            },
        };
        let layers = match read_list(
            entries,
            "layers",
            Layer::from_plist,
            Ghost(|p: PlistModel| LayerModel::from_plist(p)),
        ) {
            Ok(x) => x,
            Err(e) => {
                return Err(e);
            },
        };
        let glyphname = match read_name(entries) {
            Ok(x) => x,
            Err(e) => {
                return Err(e);
            },
        };
        let left_kerning_group = match read_optional(
            entries,
            "leftKerningGroup",
            read_text,
            Ghost(|p: PlistModel| as_text(p)),
        ) {
            Ok(x) => x,
            Err(e) => {
                return Err(e);
            },
        };
        let right_kerning_group = match read_optional(
            entries,
            "rightKerningGroup",
            read_text,
            Ghost(|p: PlistModel| as_text(p)),
        ) {
            Ok(x) => x,
            Err(e) => {
                return Err(e);
            },
        };
        let other_stuff = read_unknown(entries, &glyph_schema());
        Ok(
            Glyph {
                unicode,
                layers,
                glyphname,
                left_kerning_group,
                right_kerning_group,
                other_stuff,
            },
        )
    }

    /// The value tree for this glyph.
    pub fn to_plist(&self) -> (r: Plist)
        ensures
            r.deep_view() == self.deep_view().to_plist(),
    {
        let mut entries: Vec<(String, Plist)> = Vec::new();
        assert(entries_model(entries@) =~= Seq::empty());
        let unicode = match &self.unicode {
            Some(c) => Some(codepoints_to_plist(c)),
            None => None,
        };
        put_optional(&mut entries, "unicode", unicode);
        let layers = map_model(&self.layers, Layer::to_plist, Ghost(|x: LayerModel| x.to_plist()));
        put(&mut entries, "layers", Plist::array(layers));
        put(&mut entries, "glyphname", Plist::String(self.glyphname.clone()));
        put_optional(&mut entries, "leftKerningGroup", text_node(&self.left_kerning_group));
        put_optional(&mut entries, "rightKerningGroup", text_node(&self.right_kerning_group));
        assert(entries_model(entries@) =~= self.deep_view().fields());
        put_all(&mut entries, &self.other_stuff);
        Plist::dictionary(entries)
    }
}

/// The keys that a master knows.
pub open spec fn master_keys() -> Seq<Seq<char>> {
    seq![
        "id"@,
        "ascender"@,
        "capHeight"@,
        "descender"@,
        "xHeight"@,
        "italicAngle"@,
        "weightValue"@,
        "widthValue"@,
        "customValue"@,
        "customValue1"@,
        "customValue2"@,
        "customValue3"@,
    ]
}

/// The vertical metrics of a master: ascender, cap height, descender and
/// x-height.
pub open spec fn metrics_of(entries: Seq<(Seq<char>, PlistModel)>) -> Result<
    (Option<i64>, Option<i64>, Option<i64>, Option<i64>),
    ConversionErrorModel,
> {
    let ascender = optional_field(entries, "ascender"@, |p: PlistModel| as_int(p));
    let cap_height = optional_field(entries, "capHeight"@, |p: PlistModel| as_int(p));
    let descender = optional_field(entries, "descender"@, |p: PlistModel| as_int(p));
    let x_height = optional_field(entries, "xHeight"@, |p: PlistModel| as_int(p));
    if ascender is Err {
        Err(ascender->Err_0)
    } else if cap_height is Err {
        Err(cap_height->Err_0)
    } else if descender is Err {
        Err(descender->Err_0)
    } else if x_height is Err {
        Err(x_height->Err_0)
    } else {
        Ok((ascender->Ok_0, cap_height->Ok_0, descender->Ok_0, x_height->Ok_0))
    }
}

/// The six slots of a place on the axes, under the six given keys.
pub open spec fn slots_of(entries: Seq<(Seq<char>, PlistModel)>, keys: Seq<Seq<char>>) -> Result<
    Seq<Option<DecimalModel>>,
    ConversionErrorModel,
> {
    let a = optional_field(entries, keys[0], |p: PlistModel| as_number(p));
    let b = optional_field(entries, keys[1], |p: PlistModel| as_number(p));
    let c = optional_field(entries, keys[2], |p: PlistModel| as_number(p));
    let d = optional_field(entries, keys[3], |p: PlistModel| as_number(p));
    let e = optional_field(entries, keys[4], |p: PlistModel| as_number(p));
    let f = optional_field(entries, keys[5], |p: PlistModel| as_number(p));
    if a is Err {
        Err(a->Err_0)
    } else if b is Err {
        Err(b->Err_0)
    } else if c is Err {
        Err(c->Err_0)
    } else if d is Err {
        Err(d->Err_0)
    } else if e is Err {
        Err(e->Err_0)
    } else if f is Err {
        Err(f->Err_0)
    } else {
        Ok(seq![a->Ok_0, b->Ok_0, c->Ok_0, d->Ok_0, e->Ok_0, f->Ok_0])
    }
}

/// The entries for the six slots of a place on the axes.
pub open spec fn slot_entries(keys: Seq<Seq<char>>, slots: Seq<Option<DecimalModel>>) -> Seq<
    (Seq<char>, PlistModel),
> {
    optional_entry(keys[0], optional_number(slots[0])) + optional_entry(
        keys[1],
        optional_number(slots[1]),
    ) + optional_entry(keys[2], optional_number(slots[2])) + optional_entry(
        keys[3],
        optional_number(slots[3]),
    ) + optional_entry(keys[4], optional_number(slots[4])) + optional_entry(
        keys[5],
        optional_number(slots[5]),
    )
}

/// The keys of the six slots of a master.
pub open spec fn master_slot_keys() -> Seq<Seq<char>> {
    seq![
        "weightValue"@,
        "widthValue"@,
        "customValue"@,
        "customValue1"@,
        "customValue2"@,
        "customValue3"@,
    ]
}

/// The keys of the six slots of an instance.
pub open spec fn instance_slot_keys() -> Seq<Seq<char>> {
    seq![
        "interpolationWeight"@,
        "interpolationWidth"@,
        "interpolationCustom"@,
        "interpolationCustom1"@,
        "interpolationCustom2"@,
        "interpolationCustom3"@,
    ]
}

impl FontMasterModel {
    /// The six slots of the master's place on the axes.
    pub open spec fn slots(self) -> Seq<Option<DecimalModel>> {
        seq![
            self.weight_value,
            self.width_value,
            self.custom_value,
            self.custom_value1,
            self.custom_value2,
            self.custom_value3,
        ]
    }

    /// The master that a value tree holds.
    pub open spec fn from_plist(p: PlistModel) -> Result<FontMasterModel, ConversionErrorModel> {
        match p {
            PlistModel::Dictionary(entries) => {
                let id = scalar_field(entries, "id"@, |p: PlistModel| as_text(p));
                let metrics = metrics_of(entries);
                let italic_angle = optional_field(
                    entries,
                    "italicAngle"@,
                    |p: PlistModel| as_number(p),
                );
                let slots = slots_of(entries, master_slot_keys());
                if id is Err {
                    Err(id->Err_0)
                } else if metrics is Err {
                    Err(metrics->Err_0)
                } else if italic_angle is Err {
                    Err(italic_angle->Err_0)
                } else if slots is Err {
                    Err(slots->Err_0)
                } else {
                    Ok(
                        FontMasterModel {
                            id: id->Ok_0,
                            ascender: metrics->Ok_0.0,
                            cap_height: metrics->Ok_0.1,
                            descender: metrics->Ok_0.2,
                            x_height: metrics->Ok_0.3,
                            italic_angle: italic_angle->Ok_0,
                            weight_value: slots->Ok_0[0],
                            width_value: slots->Ok_0[1],
                            custom_value: slots->Ok_0[2],
                            custom_value1: slots->Ok_0[3],
                            custom_value2: slots->Ok_0[4],
                            custom_value3: slots->Ok_0[5],
                            other_stuff: unknown(entries, master_keys()),
                        },
                    )
                }
            },
            _ => Err(wrong("fontMaster"@)),
        }
    }

    /// The entries for the fields of this master.
    pub open spec fn fields(self) -> Seq<(Seq<char>, PlistModel)> {
        seq![("id"@, PlistModel::String(self.id))] + optional_entry(
            "ascender"@,
            optional_integer(self.ascender),
        ) + optional_entry("capHeight"@, optional_integer(self.cap_height)) + optional_entry(
            "descender"@,
            optional_integer(self.descender),
        ) + optional_entry("xHeight"@, optional_integer(self.x_height)) + optional_entry(
            "italicAngle"@,
            optional_number(self.italic_angle),
        ) + slot_entries(master_slot_keys(), self.slots())
    }

    /// The value tree for this master.
    pub open spec fn to_plist(self) -> PlistModel {
        PlistModel::Dictionary(self.fields() + self.other_stuff)
    }
}

fn master_schema() -> (r: Vec<&'static str>)
    ensures
        r.deep_view() == master_keys(),
{
    let mut keys: Vec<&'static str> = Vec::new();
    keys.push("id");
    keys.push("ascender");
    keys.push("capHeight");
    keys.push("descender");
    keys.push("xHeight");
    keys.push("italicAngle");
    keys.push("weightValue");
    keys.push("widthValue");
    keys.push("customValue");
    keys.push("customValue1");
    keys.push("customValue2");
    keys.push("customValue3");
    assert(keys.deep_view() =~= master_keys());
    keys
}

fn master_slots() -> (r: Vec<&'static str>)
    ensures
        r.deep_view() == master_slot_keys(),
        r@.len() == 6,
{
    let mut keys: Vec<&'static str> = Vec::new();
    keys.push("weightValue");
    keys.push("widthValue");
    keys.push("customValue");
    keys.push("customValue1");
    keys.push("customValue2");
    keys.push("customValue3");
    assert(keys.deep_view() =~= master_slot_keys());
    keys
}

fn instance_slots() -> (r: Vec<&'static str>)
    ensures
        r.deep_view() == instance_slot_keys(),
        r@.len() == 6,
{
    let mut keys: Vec<&'static str> = Vec::new();
    keys.push("interpolationWeight");
    keys.push("interpolationWidth");
    keys.push("interpolationCustom");
    keys.push("interpolationCustom1");
    keys.push("interpolationCustom2");
    keys.push("interpolationCustom3");
    assert(keys.deep_view() =~= instance_slot_keys());
    keys
}

fn read_optional_int(entries: &Vec<(String, Plist)>, key: &str) -> (r: Result<
    Option<i64>,
    ConversionError,
>)
    ensures
        match r {
            Ok(x) => optional_field(entries_model(entries@), key@, |p: PlistModel| as_int(p))
                == Ok::<Option<i64>, ConversionErrorModel>(x),
            Err(e) => optional_field(entries_model(entries@), key@, |p: PlistModel| as_int(p))
                == Err::<Option<i64>, ConversionErrorModel>(e.deep_view()),
        },
{
    read_optional(entries, key, read_int, Ghost(|p: PlistModel| as_int(p)))
}

fn read_optional_number(entries: &Vec<(String, Plist)>, key: &str) -> (r: Result<
    Option<Decimal>,
    ConversionError,
>)
    ensures
        match r {
            Ok(x) => optional_field(entries_model(entries@), key@, |p: PlistModel| as_number(p))
                == Ok::<Option<DecimalModel>, ConversionErrorModel>(x.deep_view()),
            Err(e) => optional_field(entries_model(entries@), key@, |p: PlistModel| as_number(p))
                == Err::<Option<DecimalModel>, ConversionErrorModel>(e.deep_view()),
        },
{
    read_optional(entries, key, read_decimal, Ghost(|p: PlistModel| as_number(p)))
}

fn read_metrics(entries: &Vec<(String, Plist)>) -> (r: Result<
    (Option<i64>, Option<i64>, Option<i64>, Option<i64>),
    ConversionError,
>)
    ensures
        match r {
            Ok(x) => metrics_of(entries_model(entries@)) == Ok::<
                (Option<i64>, Option<i64>, Option<i64>, Option<i64>),
                ConversionErrorModel,
            >(x),
            Err(e) => metrics_of(entries_model(entries@)) == Err::<
                (Option<i64>, Option<i64>, Option<i64>, Option<i64>),
                ConversionErrorModel,
            >(e.deep_view()),
        },
{
    let ascender = match read_optional_int(entries, "ascender") {
        Ok(x) => x,
        Err(e) => {
            return Err(e);
        },
    };
    let cap_height = match read_optional_int(entries, "capHeight") {
        Ok(x) => x,
        Err(e) => {
            return Err(e);
        },
    };
    let descender = match read_optional_int(entries, "descender") {
        Ok(x) => x,
        Err(e) => {
            return Err(e);
        },
    };
    let x_height = match read_optional_int(entries, "xHeight") {
        Ok(x) => x,
        Err(e) => {
            return Err(e);
        },
    };
    Ok((ascender, cap_height, descender, x_height))
}

/// The six slots of a place on the axes, under the six keys `keys`.
fn read_slots(entries: &Vec<(String, Plist)>, keys: &Vec<&'static str>) -> (r: Result<
    Vec<Option<Decimal>>,
    ConversionError,
>)
    requires
        keys@.len() == 6,
    ensures
        match r {
            Ok(x) => slots_of(entries_model(entries@), keys.deep_view()) == Ok::<
                Seq<Option<DecimalModel>>,
                ConversionErrorModel,
            >(x.deep_view()) && x@.len() == 6,
            Err(e) => slots_of(entries_model(entries@), keys.deep_view()) == Err::<
                Seq<Option<DecimalModel>>,
                ConversionErrorModel,
            >(e.deep_view()),
        },
{
    let ghost k = keys.deep_view();
    assert(k[0] == keys@[0]@ && k[1] == keys@[1]@ && k[2] == keys@[2]@ && k[3] == keys@[3]@
        && k[4] == keys@[4]@ && k[5] == keys@[5]@);
    let a = match read_optional_number(entries, keys[0]) {
        Ok(x) => x,
        Err(e) => {
            return Err(e);
        },
    };
    let b = match read_optional_number(entries, keys[1]) {
        Ok(x) => x,
        Err(e) => {
            return Err(e);
        },
    };
    let c = match read_optional_number(entries, keys[2]) {
        Ok(x) => x,
        Err(e) => {
            return Err(e);
        },
    };
    let d = match read_optional_number(entries, keys[3]) {
        Ok(x) => x,
        Err(e) => {
            return Err(e);
        },
    };
    let e = match read_optional_number(entries, keys[4]) {
        Ok(x) => x,
        Err(e) => {
            return Err(e);
        },
    };
    let f = match read_optional_number(entries, keys[5]) {
        Ok(x) => x,
        Err(e) => {
            return Err(e);
        },
    };
    let mut slots: Vec<Option<Decimal>> = Vec::new();
    slots.push(a);
    slots.push(b);
    slots.push(c);
    slots.push(d);
    slots.push(e);
    slots.push(f);
    assert(slots.deep_view() =~= seq![
        a.deep_view(),
        b.deep_view(),
        c.deep_view(),
        d.deep_view(),
        e.deep_view(),
        f.deep_view(),
    ]);
    Ok(slots)
}

/// Adds the entries for the six slots of a place on the axes.
fn put_slots(
    entries: &mut Vec<(String, Plist)>,
    keys: &Vec<&'static str>,
    slots: &Vec<Option<Decimal>>,
)
    requires
        keys@.len() == 6,
        slots@.len() == 6,
    ensures
        entries_model(final(entries)@) == entries_model(old(entries)@) + slot_entries(
            keys.deep_view(),
            slots.deep_view(),
        ),
{
    let ghost k = keys.deep_view();
    let ghost s = slots.deep_view();
    let ghost before = entries_model(entries@);
    assert(k[0] == keys@[0]@ && k[1] == keys@[1]@ && k[2] == keys@[2]@ && k[3] == keys@[3]@
        && k[4] == keys@[4]@ && k[5] == keys@[5]@);
    put_optional(entries, keys[0], decimal_node(&slots[0]));
    put_optional(entries, keys[1], decimal_node(&slots[1]));
    put_optional(entries, keys[2], decimal_node(&slots[2]));
    put_optional(entries, keys[3], decimal_node(&slots[3]));
    put_optional(entries, keys[4], decimal_node(&slots[4]));
    put_optional(entries, keys[5], decimal_node(&slots[5]));
    assert(entries_model(entries@) =~= before + slot_entries(k, s));
}

fn take_slot(slots: &mut Vec<Option<Decimal>>) -> (r: Option<Decimal>)
    requires
        old(slots)@.len() > 0,
    ensures
        final(slots)@.len() == old(slots)@.len() - 1,
        r.deep_view() == old(slots).deep_view().last(),
        final(slots).deep_view() == old(slots).deep_view().drop_last(),
{
    let ghost before = slots.deep_view();
    match slots.pop() {
        Some(x) => {
            assert(slots.deep_view() =~= before.drop_last());
            x
        },
        None => None,
    }
}

impl FontMaster {
    /// The master that `plist` holds.
    pub fn from_plist(plist: &Plist) -> (r: Result<FontMaster, ConversionError>)
        ensures
            match r {
                Ok(x) => FontMasterModel::from_plist(plist.deep_view()) == Ok::<
                    FontMasterModel,
                    ConversionErrorModel,
                >(x.deep_view()),
                Err(e) => FontMasterModel::from_plist(plist.deep_view()) == Err::<
                    FontMasterModel,
                    ConversionErrorModel,
                >(e.deep_view()),
            },
    {
        let entries = match plist.as_dict() {
            Some(entries) => entries,
            None => {
                return Err(ConversionError::new(ErrorKind::WrongVariant, "fontMaster"));
            },
        };
        let id = match read_field(entries, "id", read_text, Ghost(|p: PlistModel| as_text(p))) {
            Ok(x) => x,
            Err(e) => {
                return Err(e);
            },
        };
        let metrics = match read_metrics(entries) {
            Ok(x) => x,
            Err(e) => {
                return Err(e);
            },
        };
        let italic_angle = match read_optional_number(entries, "italicAngle") {
            Ok(x) => x,
            Err(e) => {
                return Err(e);
            },
        };
        let mut slots = match read_slots(entries, &master_slots()) {
            Ok(x) => x,
            Err(e) => {
                return Err(e);
            },
        };
        let ghost all = slots.deep_view();
        let custom_value3 = take_slot(&mut slots);
        let custom_value2 = take_slot(&mut slots);
        let custom_value1 = take_slot(&mut slots);
        let custom_value = take_slot(&mut slots);
        let width_value = take_slot(&mut slots);
        let weight_value = take_slot(&mut slots);
        let other_stuff = read_unknown(entries, &master_schema());
        Ok(
            FontMaster {
                id,
                ascender: metrics.0,
                cap_height: metrics.1,
                descender: metrics.2,
                x_height: metrics.3,
                italic_angle,
                weight_value,
                width_value,
                custom_value,
                custom_value1,
                custom_value2,
                custom_value3,
                other_stuff,
            },
        )
    }

    /// The six slots of the master's place on the axes.
    fn slots(&self) -> (r: Vec<Option<Decimal>>)
        ensures
            r.deep_view() == self.deep_view().slots(),
            r@.len() == 6,
    {
        let mut slots: Vec<Option<Decimal>> = Vec::new();
        slots.push(self.weight_value.clone());
        slots.push(self.width_value.clone());
        slots.push(self.custom_value.clone());
        slots.push(self.custom_value1.clone());
        slots.push(self.custom_value2.clone());
        slots.push(self.custom_value3.clone());
        assert(slots.deep_view() =~= self.deep_view().slots());
        slots
    }

    /// The value tree for this master.
    pub fn to_plist(&self) -> (r: Plist)
        ensures
            r.deep_view() == self.deep_view().to_plist(),
    {
        let mut entries: Vec<(String, Plist)> = Vec::new();
        assert(entries_model(entries@) =~= Seq::empty());
        put(&mut entries, "id", Plist::String(self.id.clone()));
        put_optional(&mut entries, "ascender", integer_node(self.ascender));
        put_optional(&mut entries, "capHeight", integer_node(self.cap_height));
        put_optional(&mut entries, "descender", integer_node(self.descender));
        put_optional(&mut entries, "xHeight", integer_node(self.x_height));
        put_optional(&mut entries, "italicAngle", decimal_node(&self.italic_angle));
        put_slots(&mut entries, &master_slots(), &self.slots());
        assert(entries_model(entries@) =~= self.deep_view().fields());
        put_all(&mut entries, &self.other_stuff);
        Plist::dictionary(entries)
    }
}

/// The keys that an instance knows.
pub open spec fn instance_keys() -> Seq<Seq<char>> {
    seq![
        "name"@,
        "interpolationWeight"@,
        "interpolationWidth"@,
        "interpolationCustom"@,
        "interpolationCustom1"@,
        "interpolationCustom2"@,
        "interpolationCustom3"@,
        "isBold"@,
        "isItalic"@,
        "linkStyle"@,
    ]
}

impl InstanceModel {
    /// The six slots of the instance's place on the axes.
    pub open spec fn slots(self) -> Seq<Option<DecimalModel>> {
        seq![
            self.interpolation_weight,
            self.interpolation_width,
            self.interpolation_custom,
            self.interpolation_custom1,
            self.interpolation_custom2,
            self.interpolation_custom3,
        ]
    }

    /// The instance that a value tree holds.
    pub open spec fn from_plist(p: PlistModel) -> Result<InstanceModel, ConversionErrorModel> {
        match p {
            PlistModel::Dictionary(entries) => {
                let name = scalar_field(entries, "name"@, |p: PlistModel| as_text(p));
                let slots = slots_of(entries, instance_slot_keys());
                let is_bold = optional_field(entries, "isBold"@, |p: PlistModel| as_flag(p));
                let is_italic = optional_field(entries, "isItalic"@, |p: PlistModel| as_flag(p));
                let link_style = optional_field(entries, "linkStyle"@, |p: PlistModel| as_text(p));
                if name is Err {
                    Err(name->Err_0)
                } else if slots is Err {
                    Err(slots->Err_0)
                } else if is_bold is Err {
                    Err(is_bold->Err_0)
                } else if is_italic is Err {
                    Err(is_italic->Err_0)
                } else if link_style is Err {
                    Err(link_style->Err_0)
                } else {
                    Ok(
                        InstanceModel {
                            name: name->Ok_0,
                            interpolation_weight: slots->Ok_0[0],
                            interpolation_width: slots->Ok_0[1],
                            interpolation_custom: slots->Ok_0[2],
                            interpolation_custom1: slots->Ok_0[3],
                            interpolation_custom2: slots->Ok_0[4],
                            interpolation_custom3: slots->Ok_0[5],
                            is_bold: is_bold->Ok_0,
                            is_italic: is_italic->Ok_0,
                            link_style: link_style->Ok_0,
                            other_stuff: unknown(entries, instance_keys()),
                        },
                    )
                }
            },
            _ => Err(wrong("instances"@)),
        }
    }

    /// The entries for the fields of this instance.
    pub open spec fn fields(self) -> Seq<(Seq<char>, PlistModel)> {
        seq![("name"@, PlistModel::String(self.name))] + slot_entries(
            instance_slot_keys(),
            self.slots(),
        ) + optional_entry("isBold"@, optional_flag(self.is_bold)) + optional_entry(
            "isItalic"@,
            optional_flag(self.is_italic),
        ) + optional_entry("linkStyle"@, optional_text(self.link_style))
    }

    /// The value tree for this instance.
    pub open spec fn to_plist(self) -> PlistModel {
        PlistModel::Dictionary(self.fields() + self.other_stuff)
    }
}

fn instance_schema() -> (r: Vec<&'static str>)
    ensures
        r.deep_view() == instance_keys(),
{
    let mut keys: Vec<&'static str> = Vec::new();
    keys.push("name");
    keys.push("interpolationWeight");
    keys.push("interpolationWidth");
    keys.push("interpolationCustom");
    keys.push("interpolationCustom1");
    keys.push("interpolationCustom2");
    keys.push("interpolationCustom3");
    keys.push("isBold");
    keys.push("isItalic");
    keys.push("linkStyle");
    assert(keys.deep_view() =~= instance_keys());
    keys
}

fn read_optional_flag(entries: &Vec<(String, Plist)>, key: &str) -> (r: Result<
    Option<bool>,
    ConversionError,
>)
    ensures
        match r {
            Ok(x) => optional_field(entries_model(entries@), key@, |p: PlistModel| as_flag(p))
                == Ok::<Option<bool>, ConversionErrorModel>(x),
            Err(e) => optional_field(entries_model(entries@), key@, |p: PlistModel| as_flag(p))
                == Err::<Option<bool>, ConversionErrorModel>(e.deep_view()),
        },
{
    read_optional(entries, key, read_flag, Ghost(|p: PlistModel| as_flag(p)))
}

impl Instance {
    /// The instance that `plist` holds.
    pub fn from_plist(plist: &Plist) -> (r: Result<Instance, ConversionError>)
        ensures
            match r {
                Ok(x) => InstanceModel::from_plist(plist.deep_view()) == Ok::<
                    InstanceModel,
                    ConversionErrorModel,
                >(x.deep_view()),
                Err(e) => InstanceModel::from_plist(plist.deep_view()) == Err::<
                    InstanceModel,
                    ConversionErrorModel,
                >(e.deep_view()),
            },
    {
        let entries = match plist.as_dict() {
            Some(entries) => entries,
            None => {
                return Err(ConversionError::new(ErrorKind::WrongVariant, "instances"));
            },
        };
        let name = match read_field(entries, "name", read_text, Ghost(|p: PlistModel| as_text(p))) {
            Ok(x) => x,
            Err(e) => {
                return Err(e);
            },
        };
        let mut slots = match read_slots(entries, &instance_slots()) {
            Ok(x) => x,
            Err(e) => {
                return Err(e);
            },
        };
        let is_bold = match read_optional_flag(entries, "isBold") {
            Ok(x) => x,
            Err(e) => {
                return Err(e);
            },
        };
        let is_italic = match read_optional_flag(entries, "isItalic") {
            Ok(x) => x,
            Err(e) => {
                return Err(e);
            },
        };
        let link_style = match read_optional(
            entries,
            "linkStyle",
            read_text,
            Ghost(|p: PlistModel| as_text(p)),
        ) {
            Ok(x) => x,
            Err(e) => {
                return Err(e);
            },
        };
        let interpolation_custom3 = take_slot(&mut slots);
        let interpolation_custom2 = take_slot(&mut slots);
        let interpolation_custom1 = take_slot(&mut slots);
        let interpolation_custom = take_slot(&mut slots);
        let interpolation_width = take_slot(&mut slots);
        let interpolation_weight = take_slot(&mut slots);
        let other_stuff = read_unknown(entries, &instance_schema());
        Ok(
            Instance {
                name,
                interpolation_weight,
                interpolation_width,
                interpolation_custom,
                interpolation_custom1,
                interpolation_custom2,
                interpolation_custom3,
                is_bold,
                is_italic,
                link_style,
                other_stuff,
            },
        )
    }

    /// The six slots of the instance's place on the axes.
    fn slots(&self) -> (r: Vec<Option<Decimal>>)
        ensures
            r.deep_view() == self.deep_view().slots(),
            r@.len() == 6,
    {
        let mut slots: Vec<Option<Decimal>> = Vec::new();
        slots.push(self.interpolation_weight.clone());
        slots.push(self.interpolation_width.clone());
        slots.push(self.interpolation_custom.clone());
        slots.push(self.interpolation_custom1.clone());
        slots.push(self.interpolation_custom2.clone());
        slots.push(self.interpolation_custom3.clone());
        assert(slots.deep_view() =~= self.deep_view().slots());
        slots
    }

    /// The value tree for this instance.
    pub fn to_plist(&self) -> (r: Plist)
        ensures
            r.deep_view() == self.deep_view().to_plist(),
    {
        let mut entries: Vec<(String, Plist)> = Vec::new();
        assert(entries_model(entries@) =~= Seq::empty());
        put(&mut entries, "name", Plist::String(self.name.clone()));
        put_slots(&mut entries, &instance_slots(), &self.slots());
        put_optional(&mut entries, "isBold", truth_node(self.is_bold));
        put_optional(&mut entries, "isItalic", truth_node(self.is_italic));
        put_optional(&mut entries, "linkStyle", text_node(&self.link_style));
        assert(entries_model(entries@) =~= self.deep_view().fields());
        put_all(&mut entries, &self.other_stuff);
        Plist::dictionary(entries)
    }
}

/// The keys that a font knows.
pub open spec fn font_keys() -> Seq<Seq<char>> {
    seq![
        "familyName"@,
        "versionMajor"@,
        "versionMinor"@,
        "unitsPerEm"@,
        "glyphs"@,
        "fontMaster"@,
        "instances"@,
        "disablesAutomaticAlignment"@,
    ]
}

/// The name, version and size of a family among the entries of a font.
pub open spec fn heading_of(entries: Seq<(Seq<char>, PlistModel)>) -> Result<
    (Seq<char>, i64, i64, i64),
    ConversionErrorModel,
> {
    let family_name = scalar_field(entries, "familyName"@, |p: PlistModel| as_text(p));
    let version_major = scalar_field(entries, "versionMajor"@, |p: PlistModel| as_int(p));
    let version_minor = scalar_field(entries, "versionMinor"@, |p: PlistModel| as_int(p));
    let units_per_em = scalar_field(entries, "unitsPerEm"@, |p: PlistModel| as_int(p));
    if family_name is Err {
        Err(family_name->Err_0)
    } else if version_major is Err {
        Err(version_major->Err_0)
    } else if version_minor is Err {
        Err(version_minor->Err_0)
    } else if units_per_em is Err {
        Err(units_per_em->Err_0)
    } else {
        Ok((family_name->Ok_0, version_major->Ok_0, version_minor->Ok_0, units_per_em->Ok_0))
    }
}

impl FontModel {
    /// The font that a value tree holds.
    pub open spec fn from_plist(p: PlistModel) -> Result<FontModel, ConversionErrorModel> {
        match p {
            PlistModel::Dictionary(entries) => {
                let heading = heading_of(entries);
                let glyphs = record_list(
                    entries,
                    "glyphs"@,
                    |p: PlistModel| GlyphModel::from_plist(p),
                );
                let font_master = record_list(
                    entries,
                    "fontMaster"@,
                    |p: PlistModel| FontMasterModel::from_plist(p),
                );
                let instances = optional_record_list(
                    entries,
                    "instances"@,
                    |p: PlistModel| InstanceModel::from_plist(p),
                );
                let disables = optional_field(
                    entries,
                    "disablesAutomaticAlignment"@,
                    |p: PlistModel| as_flag(p),
                );
                if heading is Err {
                    Err(heading->Err_0)
                } else if glyphs is Err {
                    Err(glyphs->Err_0)
                } else if font_master is Err {
                    Err(font_master->Err_0)
                } else if instances is Err {
                    Err(instances->Err_0)
                } else if disables is Err {
                    Err(disables->Err_0)
                } else {
                    Ok(
                        FontModel {
                            family_name: heading->Ok_0.0,
                            version_major: heading->Ok_0.1,
                            version_minor: heading->Ok_0.2,
                            units_per_em: heading->Ok_0.3,
                            glyphs: glyphs->Ok_0,
                            font_master: font_master->Ok_0,
                            instances: instances->Ok_0,
                            disables_automatic_alignment: disables->Ok_0,
                            other_stuff: unknown(entries, font_keys()),
                        },
                    )
                }
            },
            _ => Err(wrong("font"@)),
        }
    }

    /// The entries for the fields of this font.
    pub open spec fn fields(self) -> Seq<(Seq<char>, PlistModel)> {
        seq![
            ("familyName"@, PlistModel::String(self.family_name)),
            ("versionMajor"@, PlistModel::Integer(self.version_major)),
            ("versionMinor"@, PlistModel::Integer(self.version_minor)),
            ("unitsPerEm"@, PlistModel::Integer(self.units_per_em)),
            ("glyphs"@, PlistModel::Array(self.glyphs.map_values(|x: GlyphModel| x.to_plist()))),
            (
                "fontMaster"@,
                PlistModel::Array(self.font_master.map_values(|x: FontMasterModel| x.to_plist())),
            ),
        ] + optional_entry(
            "instances"@,
            optional_array(self.instances, |x: InstanceModel| x.to_plist()),
        ) + optional_entry(
            "disablesAutomaticAlignment"@,
            optional_flag(self.disables_automatic_alignment),
        )
    }

    /// The value tree for this font.
    pub open spec fn to_plist(self) -> PlistModel {
        PlistModel::Dictionary(self.fields() + self.other_stuff)
    }
}

fn font_schema() -> (r: Vec<&'static str>)
    ensures
        r.deep_view() == font_keys(),
{
    let mut keys: Vec<&'static str> = Vec::new();
    keys.push("familyName");
    keys.push("versionMajor");
    keys.push("versionMinor");
    keys.push("unitsPerEm");
    keys.push("glyphs");
    keys.push("fontMaster");
    keys.push("instances");
    keys.push("disablesAutomaticAlignment");
    assert(keys.deep_view() =~= font_keys());
    keys
}

fn read_heading(entries: &Vec<(String, Plist)>) -> (r: Result<
    (String, i64, i64, i64),
    ConversionError,
>)
    ensures
        match r {
            Ok(x) => heading_of(entries_model(entries@)) == Ok::<
                (Seq<char>, i64, i64, i64),
                ConversionErrorModel,
            >((x.0@, x.1, x.2, x.3)),
            Err(e) => heading_of(entries_model(entries@)) == Err::<
                (Seq<char>, i64, i64, i64),
                ConversionErrorModel,
            >(e.deep_view()),
        },
{
    let family_name = match read_field(
        entries,
        "familyName",
        read_text,
        Ghost(|p: PlistModel| as_text(p)),
    ) {
        Ok(x) => x,
        Err(e) => {
            return Err(e);
        },
    };
    let version_major = match read_field(
        entries,
        "versionMajor",
        read_int,
        Ghost(|p: PlistModel| as_int(p)),
    ) {
        Ok(x) => x,
        Err(e) => {
            return Err(e);
        },
    };
    let version_minor = match read_field(
        entries,
        "versionMinor",
        read_int,
        Ghost(|p: PlistModel| as_int(p)),
    ) {
        Ok(x) => x,
        Err(e) => {
            return Err(e);
        },
    };
    let units_per_em = match read_field(
        entries,
        "unitsPerEm",
        read_int,
        Ghost(|p: PlistModel| as_int(p)),
    ) {
        Ok(x) => x,
        Err(e) => {
            return Err(e);
        },
    };
    Ok((family_name, version_major, version_minor, units_per_em))
}

fn instances_node(instances: &Option<Vec<Instance>>) -> (r: Option<Plist>)
    ensures
        r.deep_view() == optional_array(instances.deep_view(), |x: InstanceModel| x.to_plist()),
{
    match instances {
        Some(v) => Some(
            Plist::array(
                map_model(v, Instance::to_plist, Ghost(|x: InstanceModel| x.to_plist())),
            ),
        ),
        None => None,
    }
}

/// Why a Glyphs source could not be read.
#[derive(Debug, PartialEq, Eq)]
pub enum LoadError {
    /// The text is no property list.
    Parse(ParseError),
    /// The property list does not hold a font.
    Schema(ConversionError),
}

/// The font that a text holds.
pub open spec fn font_of_text(t: Seq<char>) -> Result<FontModel, ConversionErrorModel>
    recommends
        parse_document(t) is Ok,
{
    FontModel::from_plist(parse_document(t)->Ok_0)
}

impl Font {
    /// The font that `plist` holds.
    pub fn from_plist(plist: &Plist) -> (r: Result<Font, ConversionError>)
        ensures
            match r {
                Ok(x) => FontModel::from_plist(plist.deep_view()) == Ok::<
                    FontModel,
                    ConversionErrorModel,
                >(x.deep_view()),
                Err(e) => FontModel::from_plist(plist.deep_view()) == Err::<
                    FontModel,
                    ConversionErrorModel,
                >(e.deep_view()),
            },
    {
        let entries = match plist.as_dict() {
            Some(entries) => entries,
            None => {
                return Err(ConversionError::new(ErrorKind::WrongVariant, "font"));
            },
        };
        let heading = match read_heading(entries) {
            Ok(x) => x,
            Err(e) => {
                return Err(e);
            },
        };
        let glyphs = match read_list(
            entries,
            "glyphs",
            Glyph::from_plist,
            Ghost(|p: PlistModel| GlyphModel::from_plist(p)),
        ) {
            Ok(x) => x,
            Err(e) => {
                return Err(e);
            },
        };
        let font_master = match read_list(
            entries,
            "fontMaster",
            FontMaster::from_plist,
            Ghost(|p: PlistModel| FontMasterModel::from_plist(p)),
        ) {
            Ok(x) => x,
            Err(e) => {
                return Err(e);
            },
        };
        let instances = match read_optional_list(
            entries,
            "instances",
            Instance::from_plist,
            Ghost(|p: PlistModel| InstanceModel::from_plist(p)),
        ) {
            Ok(x) => x,
            Err(e) => {
                return Err(e);
            },
        };
        let disables_automatic_alignment = match read_optional_flag(
            entries,
            "disablesAutomaticAlignment",
        ) {
            Ok(x) => x,
            Err(e) => {
                return Err(e);
            },
        };
        let other_stuff = read_unknown(entries, &font_schema());
        Ok(
            Font {
                family_name: heading.0,
                version_major: heading.1,
                version_minor: heading.2,
                units_per_em: heading.3,
                glyphs,
                font_master,
                instances,
                disables_automatic_alignment,
                other_stuff,
            },
        )
    }

    /// The value tree for this font.
    pub fn to_plist(&self) -> (r: Plist)
        ensures
            r.deep_view() == self.deep_view().to_plist(),
    {
        let mut entries: Vec<(String, Plist)> = Vec::new();
        assert(entries_model(entries@) =~= Seq::empty());
        put(&mut entries, "familyName", Plist::String(self.family_name.clone()));
        put(&mut entries, "versionMajor", Plist::Integer(self.version_major));
        put(&mut entries, "versionMinor", Plist::Integer(self.version_minor));
        put(&mut entries, "unitsPerEm", Plist::Integer(self.units_per_em));
        let glyphs = map_model(&self.glyphs, Glyph::to_plist, Ghost(|x: GlyphModel| x.to_plist()));
        put(&mut entries, "glyphs", Plist::array(glyphs));
        let masters = map_model(
            &self.font_master,
            FontMaster::to_plist,
            Ghost(|x: FontMasterModel| x.to_plist()),
        );
        put(&mut entries, "fontMaster", Plist::array(masters));
        put_optional(&mut entries, "instances", instances_node(&self.instances));
        put_optional(
            &mut entries,
            "disablesAutomaticAlignment",
            truth_node(self.disables_automatic_alignment),
        );
        assert(entries_model(entries@) =~= self.deep_view().fields());
        put_all(&mut entries, &self.other_stuff);
        Plist::dictionary(entries)
    }

    /// The font that the text of a Glyphs source holds. It is valid, so
    /// that it is read again as the font that it is when it is written; and
    /// what it keeps besides its fields is what it does not know of the
    /// dictionary, with the values that stand there. Fails where the text
    /// is no property list, and where the property list does not hold a
    /// font.
    pub fn load(contents: &str) -> (r: Result<Font, LoadError>)
        ensures
            match r {
                Ok(font) => {
                    &&& parse_document(contents@) is Ok
                    &&& font_of_text(contents@) == Ok::<FontModel, ConversionErrorModel>(
                        font.deep_view(),
                    )
                    &&& font.deep_view().valid()
                    &&& forall|key: Seq<char>|
                        !font_keys().contains(key) ==> #[trigger] lookup(
                            font.deep_view().other_stuff,
                            key,
                        ) == parse_document(contents@)->Ok_0.get(key)
                },
                Err(LoadError::Parse(e)) => reads_as(contents@, Err(e)),
                Err(LoadError::Schema(e)) => parse_document(contents@) is Ok && font_of_text(
                    contents@,
                ) == Err::<FontModel, ConversionErrorModel>(e.deep_view()),
            },
    {
        match Plist::parse(contents) {
            Err(e) => Err(LoadError::Parse(e)),
            Ok(plist) => match Font::from_plist(&plist) {
                Ok(font) => {
                    proof {
                        crate::roundtrip::lemma_document_wf(contents@);
                        crate::identity::lemma_font_read_valid(plist.deep_view());
                        crate::identity::lemma_font_reads_unknown(plist.deep_view()->Dictionary_0);
                    }
                    Ok(font)
                },
                Err(e) => Err(LoadError::Schema(e)),
            },
        }
    }

    /// The text of a Glyphs source for this font. Reading the text gives
    /// the value tree of the font back, with what the font keeps besides its
    /// fields under the keys that it does not know; and where the font is
    /// valid, it gives the font back.
    pub fn save(&self) -> (r: String)
        ensures
            r@ == text_of(self.deep_view().to_plist()),
            parse_document(r@) == Ok::<PlistModel, crate::grammar::Fault>(
                self.deep_view().to_plist(),
            ),
            forall|key: Seq<char>|
                !font_keys().contains(key) ==> parse_document(r@)->Ok_0.get(key) == #[trigger] lookup(
                    self.deep_view().other_stuff,
                    key,
                ),
            self.deep_view().valid() ==> font_of_text(r@) == Ok::<FontModel, ConversionErrorModel>(
                self.deep_view(),
            ),
    {
        proof {
            let x = self.deep_view();
            assert forall|key: Seq<char>| !font_keys().contains(key) implies x.to_plist().get(key)
                == #[trigger] lookup(x.other_stuff, key) by {
                crate::identity::lemma_font_writes_unknown(x, key);
            }
            if x.valid() {
                crate::identity::lemma_font_identity(x);
            }
        }
        self.to_plist().to_string()
    }
}

} // verus!
