use glyphstool::node_type::NodeType;

#[test]
fn node_type_names() {
    assert_eq!(NodeType::Line.glyphs_str(), "LINE");
    assert_eq!(NodeType::LineSmooth.glyphs_str(), "LINE SMOOTH");
    assert_eq!(NodeType::OffCurve.glyphs_str(), "OFFCURVE");
    assert_eq!(NodeType::Curve.glyphs_str(), "CURVE");
    assert_eq!(NodeType::CurveSmooth.glyphs_str(), "CURVE SMOOTH");
    assert_eq!(NodeType::QCurve.glyphs_str(), "QCURVE");
    assert_eq!(NodeType::QCurveSmooth.glyphs_str(), "QCURVE SMOOTH");
}
