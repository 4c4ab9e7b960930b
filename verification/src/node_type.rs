//! The kinds of outline node and their names in a Glyphs source.

use vstd::prelude::*;

verus! {

/// The kind of a node on a path.
#[derive(Debug, Clone, Copy, PartialEq, Eq, Structural)]
pub enum NodeType {
    Line,
    LineSmooth,
    OffCurve,
    Curve,
    CurveSmooth,
    QCurve,
    QCurveSmooth,
}

impl NodeType {
    /// The name under which a Glyphs source writes this kind of node.
    pub open spec fn spec_glyphs_str(self) -> Seq<char> {
        match self {
            NodeType::Line => "LINE"@,
            NodeType::LineSmooth => "LINE SMOOTH"@,
            NodeType::OffCurve => "OFFCURVE"@,
            NodeType::Curve => "CURVE"@,
            NodeType::CurveSmooth => "CURVE SMOOTH"@,
            NodeType::QCurve => "QCURVE"@,
            NodeType::QCurveSmooth => "QCURVE SMOOTH"@,
        }
    }

    /// The name under which a Glyphs source writes this kind of node.
    pub fn glyphs_str(&self) -> (name: &'static str)
        ensures
            name@ == self.spec_glyphs_str(),
    {
        match self {
            NodeType::Line => "LINE",
            NodeType::LineSmooth => "LINE SMOOTH",
            NodeType::OffCurve => "OFFCURVE",
            NodeType::Curve => "CURVE",
            NodeType::CurveSmooth => "CURVE SMOOTH",
            NodeType::QCurve => "QCURVE",
            NodeType::QCurveSmooth => "QCURVE SMOOTH",
        }
    }
}

} // verus!
