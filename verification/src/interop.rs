//! Outlines, components and anchors between a Glyphs source and a font
//! object.
//!
//! A Glyphs source keeps the start of a closed path at the end of its nodes,
//! a font object at the front of its points. An open path starts with a plain
//! line node in the one and with a `Move` point in the other.

use vstd::prelude::*;
use crate::error::{ConversionError, ConversionErrorModel, ErrorKind};
use crate::font::{
    Anchor, AnchorModel, Component, ComponentModel, Node, NodeModel, Path, PathModel,
};
use crate::geometry::{Affine, AffineModel, Point, PointModel};
use crate::names::{is_valid_name, valid_name};
use crate::node_type::NodeType;
use crate::ufo::{
    Contour, ContourModel, ContourPoint, ContourPointModel, PointType, UfoAnchor, UfoAnchorModel,
    UfoComponent, UfoComponentModel,
};
use crate::vecs::map_vec;

verus! {

/// `s` with its first element moved to the end.
pub open spec fn rotated_left<T>(s: Seq<T>) -> Seq<T> {
    if s.len() == 0 {
        s
    } else {
        s.skip(1).push(s[0])
    }
}

/// `s` with its last element moved to the front.
pub open spec fn rotated_right<T>(s: Seq<T>) -> Seq<T> {
    if s.len() == 0 {
        s
    } else {
        seq![s.last()] + s.drop_last()
    }
}

/// Moving the first element to the end and then the last to the front gives
/// the sequence back, and so does the other way round.
pub proof fn lemma_rotation_inverse<T>(s: Seq<T>)
    ensures
        rotated_right(rotated_left(s)) == s,
        rotated_left(rotated_right(s)) == s,
{
    if s.len() > 0 {
        assert(rotated_right(rotated_left(s)) =~= s);
        assert(rotated_left(rotated_right(s)) =~= s);
    }
}

impl ContourPointModel {
    /// The node that a Glyphs source has for this point.
    pub open spec fn to_node(self) -> NodeModel {
        NodeModel {
            pt: PointModel { x: self.x, y: self.y },
            node_type: match (self.typ, self.smooth) {
                (PointType::Move, _) => NodeType::Line,
                (PointType::Line, true) => NodeType::LineSmooth,
                (PointType::Line, false) => NodeType::Line,
                (PointType::OffCurve, _) => NodeType::OffCurve,
                (PointType::Curve, true) => NodeType::CurveSmooth,
                (PointType::Curve, false) => NodeType::Curve,
                (PointType::QCurve, true) => NodeType::QCurveSmooth,
                (PointType::QCurve, false) => NodeType::QCurve,
            },
        }
    }
}

impl NodeModel {
    /// The point that a font object has for this node.
    pub open spec fn to_point(self) -> ContourPointModel {
        let (typ, smooth) = match self.node_type {
            NodeType::Curve => (PointType::Curve, false),
            NodeType::CurveSmooth => (PointType::Curve, true),
            NodeType::Line => (PointType::Line, false),
            NodeType::LineSmooth => (PointType::Line, true),
            NodeType::OffCurve => (PointType::OffCurve, false),
            NodeType::QCurve => (PointType::QCurve, false),
            NodeType::QCurveSmooth => (PointType::QCurve, true),
        };
        ContourPointModel { x: self.pt.x, y: self.pt.y, typ, smooth }
    }
}

impl ContourModel {
    /// The path that a Glyphs source has for this contour: a node for each
    /// point, and the start of a closed contour moved to the end.
    pub open spec fn to_path(self) -> PathModel {
        let nodes = self.points.map_values(|p: ContourPointModel| p.to_node());
        PathModel {
            closed: self.is_closed(),
            nodes: if self.is_closed() { rotated_left(nodes) } else { nodes },
        }
    }
}

impl PathModel {
    /// An open path can be handed to a font object: it starts with a plain
    /// line node.
    pub open spec fn starts_plainly(self) -> bool {
        self.nodes.len() > 0 && self.nodes[0].node_type == NodeType::Line
    }

    /// The contour that a font object has for this path: a point for each
    /// node; the start of a closed path moved to the front, the first point
    /// of an open path made a `Move`. An open path that does not start with
    /// a plain line node has none.
    pub open spec fn to_contour(self) -> Option<ContourModel> {
        let points = self.nodes.map_values(|n: NodeModel| n.to_point());
        if self.closed {
            Some(ContourModel { points: rotated_right(points) })
        } else if self.starts_plainly() {
            Some(
                ContourModel {
                    points: points.update(
                        0,
                        ContourPointModel { typ: PointType::Move, ..points[0] },
                    ),
                },
            )
        } else {
            None
        }
    }
}

/// A path that went to a font object and came back is the path it was.
pub proof fn lemma_path_round_trip(p: PathModel)
    requires
        p.to_contour() is Some,
    ensures
        p.to_contour()->0.to_path() == p,
{
    let points = p.nodes.map_values(|n: NodeModel| n.to_point());
    let c = p.to_contour()->0;
    let nodes = c.points.map_values(|q: ContourPointModel| q.to_node());
    assert forall|i: int| 0 <= i < points.len() implies (#[trigger] points[i]).to_node()
        == p.nodes[i] && points[i].typ != PointType::Move by {}
    if p.closed {
        if p.nodes.len() > 0 {
            assert(c.points[0] == points.last());
            assert(c.is_closed());
            assert(rotated_left(nodes) =~= p.nodes);
        } else {
            assert(rotated_left(nodes) =~= p.nodes);
        }
    } else {
        assert(c.points[0].typ == PointType::Move);
        assert(nodes =~= p.nodes);
    }
}

impl Node {
    /// The node that a Glyphs source has for the point `point`.
    pub fn from_point(point: &ContourPoint) -> (r: Node)
        ensures
            r.deep_view() == point.deep_view().to_node(),
    {
        let node_type = match (point.typ, point.smooth) {
            (PointType::Move, _) => NodeType::Line,
            (PointType::Line, true) => NodeType::LineSmooth,
            (PointType::Line, false) => NodeType::Line,
            (PointType::OffCurve, _) => NodeType::OffCurve,
            (PointType::Curve, true) => NodeType::CurveSmooth,
            (PointType::Curve, false) => NodeType::Curve,
            (PointType::QCurve, true) => NodeType::QCurveSmooth,
            (PointType::QCurve, false) => NodeType::QCurve,
        };
        Node { pt: Point { x: point.x.copy(), y: point.y.copy() }, node_type }
    }

    /// The point that a font object has for this node.
    pub fn to_point(&self) -> (r: ContourPoint)
        ensures
            r.deep_view() == self.deep_view().to_point(),
    {
        let (typ, smooth) = match self.node_type {
            NodeType::Curve => (PointType::Curve, false),
            NodeType::CurveSmooth => (PointType::Curve, true),
            NodeType::Line => (PointType::Line, false),
            NodeType::LineSmooth => (PointType::Line, true),
            NodeType::OffCurve => (PointType::OffCurve, false),
            NodeType::QCurve => (PointType::QCurve, false),
            NodeType::QCurveSmooth => (PointType::QCurve, true),
        };
        ContourPoint { x: self.pt.x.copy(), y: self.pt.y.copy(), typ, smooth }
    }
}

/// `v` with its first element moved to the end.
pub fn rotate_left_once<T>(v: Vec<T>) -> (r: Vec<T>)
    ensures
        r@ == rotated_left(v@),
{
    let mut v = v;
    if v.len() > 0 {
        let ghost before = v@;
        let first = v.remove(0);
        v.push(first);
        assert(v@ =~= rotated_left(before));
    }
    v
}

/// `v` with its last element moved to the front.
pub fn rotate_right_once<T>(v: Vec<T>) -> (r: Vec<T>)
    ensures
        r@ == rotated_right(v@),
{
    let mut v = v;
    let ghost before = v@;
    match v.pop() {
        Some(last) => {
            v.insert(0, last);
            assert(v@ =~= rotated_right(before));
        },
        None => {},
    }
    v
}

impl Path {
    /// The path that a Glyphs source has for `contour`.
    pub fn from_contour(contour: &Contour) -> (r: Path)
        ensures
            r.deep_view() == contour.deep_view().to_path(),
    {
        let nodes = map_vec(&contour.points, Node::from_point);
        let closed = contour.is_closed();
        let ghost mapped = contour.deep_view().points.map_values(
            |p: ContourPointModel| p.to_node(),
        );
        assert(nodes.deep_view() =~= mapped);
        if closed {
            let rotated = rotate_left_once(nodes);
            assert(rotated.deep_view() =~= rotated_left(mapped));
            Path { closed, nodes: rotated }
        } else {
            Path { closed, nodes }
        }
    }

    /// The contour that a font object has for this path. Fails on an open
    /// path that does not start with a plain line node.
    pub fn to_contour(&self) -> (r: Result<Contour, ConversionError>)
        ensures
            match r {
                Ok(c) => self.deep_view().to_contour() == Some(c.deep_view()),
                Err(e) => self.deep_view().to_contour() is None && e.deep_view()
                    == ConversionErrorModel::new(ErrorKind::OpenPathStart, Seq::empty()),
            },
    {
        let points = map_vec(&self.nodes, Node::to_point);
        let ghost mapped = self.deep_view().nodes.map_values(|n: NodeModel| n.to_point());
        assert(points.deep_view() =~= mapped);
        if self.closed {
            let rotated = rotate_right_once(points);
            assert(rotated.deep_view() =~= rotated_right(mapped));
            Ok(Contour { points: rotated })
        } else {
            let plain = self.nodes.len() > 0 && match self.nodes[0].node_type {
                NodeType::Line => true,
                _ => false,
            };
            if !plain {
                proof {
                    reveal_strlit("");
                    assert(""@ =~= Seq::<char>::empty());
                }
                return Err(ConversionError::new(ErrorKind::OpenPathStart, ""));
            }
            let mut points = points;
            let first = ContourPoint {
                x: points[0].x.copy(),
                y: points[0].y.copy(),
                typ: PointType::Move,
                smooth: points[0].smooth,
            };
            points.set(0, first);
            assert(points.deep_view() =~= mapped.update(
                0,
                ContourPointModel { typ: PointType::Move, ..mapped[0] },
            ));
            Ok(Contour { points })
        }
    }
}

impl UfoComponentModel {
    /// The component that a Glyphs source has for this one: the transform
    /// is left out where it is the identity.
    pub open spec fn to_component(self) -> ComponentModel {
        ComponentModel {
            name: self.base,
            transform: if self.transform.is_identity() { None } else { Some(self.transform) },
            other_stuff: Seq::empty(),
        }
    }
}

impl ComponentModel {
    /// The component that a font object has for this one, where the name is
    /// one that it accepts.
    pub open spec fn to_ufo(self) -> Option<UfoComponentModel> {
        if valid_name(self.name) {
            Some(
                UfoComponentModel {
                    base: self.name,
                    transform: match self.transform {
                        Some(t) => t,
                        None => AffineModel::identity(),
                    },
                },
            )
        } else {
            None
        }
    }
}

impl UfoAnchorModel {
    /// The anchor that a Glyphs source has for this one, where it has a name.
    pub open spec fn to_anchor(self) -> Option<AnchorModel> {
        match self.name {
            Some(name) => Some(AnchorModel { name, position: PointModel { x: self.x, y: self.y } }),
            None => None,
        }
    }
}

impl AnchorModel {
    /// The anchor that a font object has for this one, where the name is one
    /// that it accepts.
    pub open spec fn to_ufo(self) -> Option<UfoAnchorModel> {
        if valid_name(self.name) {
            Some(UfoAnchorModel { x: self.position.x, y: self.position.y, name: Some(self.name) })
        } else {
            None
        }
    }
}

impl Component {
    /// The component that a Glyphs source has for `component`.
    pub fn from_ufo(component: &UfoComponent) -> (r: Component)
        ensures
            r.deep_view() == component.deep_view().to_component(),
    {
        let transform = if component.transform.is_identity() {
            None
        } else {
            Some(component.transform.clone())
        };
        let r = Component { name: component.base.clone(), transform, other_stuff: Vec::new() };
        assert(r.deep_view().other_stuff =~= Seq::empty());
        r
    }

    /// The component that a font object has for this one. Fails where the
    /// name is not one that a font object accepts.
    pub fn to_ufo(&self) -> (r: Result<UfoComponent, ConversionError>)
        ensures
            match r {
                Ok(c) => self.deep_view().to_ufo() == Some(c.deep_view()),
                Err(e) => self.deep_view().to_ufo() is None && e.deep_view()
                    == ConversionErrorModel::new(ErrorKind::InvalidName, self.name@),
            },
    {
        if !is_valid_name(self.name.as_str()) {
            return Err(ConversionError::new(ErrorKind::InvalidName, self.name.as_str()));
        }
        let transform = match &self.transform {
            Some(t) => t.clone(),
            None => Affine::identity(),
        };
        Ok(UfoComponent { base: self.name.clone(), transform })
    }
}

impl Anchor {
    /// The anchor that a Glyphs source has for `anchor`, where it has a name.
    pub fn from_ufo(anchor: &UfoAnchor) -> (r: Option<Anchor>)
        ensures
            r.deep_view() == anchor.deep_view().to_anchor(),
    {
        match &anchor.name {
            Some(name) => Some(
                Anchor {
                    name: name.clone(),
                    position: Point { x: anchor.x.copy(), y: anchor.y.copy() },
                },
            ),
            None => None,
        }
    }

    /// The anchor that a font object has for this one. Fails where the name
    /// is not one that a font object accepts.
    pub fn to_ufo(&self) -> (r: Result<UfoAnchor, ConversionError>)
        ensures
            match r {
                Ok(a) => self.deep_view().to_ufo() == Some(a.deep_view()),
                Err(e) => self.deep_view().to_ufo() is None && e.deep_view()
                    == ConversionErrorModel::new(ErrorKind::InvalidName, self.name@),
            },
    {
        if !is_valid_name(self.name.as_str()) {
            return Err(ConversionError::new(ErrorKind::InvalidName, self.name.as_str()));
        }
        Ok(
            UfoAnchor {
                x: self.position.x.copy(),
                y: self.position.y.copy(),
                name: Some(self.name.clone()),
            },
        )
    }
}

} // verus!
