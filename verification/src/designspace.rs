//! A designspace as the conversion reads it: the axes of a family, the
//! sources that its masters are drawn in, and its instances.

use vstd::prelude::*;
use crate::decimal::{Decimal, DecimalModel};

verus! {

/// One row of an axis's table: the user coordinate `input` stands at the
/// design coordinate `output`.
#[derive(Debug, PartialEq)]
pub struct AxisMapping {
    pub input: Decimal,
    pub output: Decimal,
}

/// What an [`AxisMapping`] stands for.
pub struct AxisMappingModel {
    pub input: DecimalModel,
    pub output: DecimalModel,
}

impl DeepView for AxisMapping {
    type V = AxisMappingModel;

    open spec fn deep_view(&self) -> AxisMappingModel {
        AxisMappingModel { input: self.input@, output: self.output@ }
    }
}

impl Clone for AxisMapping {
    fn clone(&self) -> (r: AxisMapping)
        ensures
            r.deep_view() == self.deep_view(),
    {
        AxisMapping { input: self.input.copy(), output: self.output.copy() }
    }
}

/// An axis of the family.
#[derive(Debug, PartialEq)]
pub struct Axis {
    pub name: String,
    pub tag: String,
    /// The default position, a user coordinate.
    pub default: Decimal,
    pub map: Option<Vec<AxisMapping>>,
}

/// What an [`Axis`] stands for.
pub struct AxisModel {
    pub name: Seq<char>,
    pub tag: Seq<char>,
    pub default: DecimalModel,
    pub map: Option<Seq<AxisMappingModel>>,
}

impl DeepView for Axis {
    type V = AxisModel;

    open spec fn deep_view(&self) -> AxisModel {
        AxisModel {
            name: self.name@,
            tag: self.tag@,
            default: self.default@,
            map: self.map.deep_view(),
        }
    }
}

impl Clone for Axis {
    fn clone(&self) -> (r: Axis)
        ensures
            r.deep_view() == self.deep_view(),
    {
        let map = self.map.clone();
        proof {
            if self.map is Some {
                assert(map->0.deep_view() =~= self.map->0.deep_view());
            }
        }
        Axis { name: self.name.clone(), tag: self.tag.clone(), default: self.default.copy(), map }
    }
}

/// A position on one axis.
#[derive(Debug, PartialEq)]
pub struct Dimension {
    pub name: String,
    pub uservalue: Option<Decimal>,
    pub xvalue: Option<Decimal>,
    pub yvalue: Option<Decimal>,
}

/// What a [`Dimension`] stands for.
pub struct DimensionModel {
    pub name: Seq<char>,
    pub uservalue: Option<DecimalModel>,
    pub xvalue: Option<DecimalModel>,
    pub yvalue: Option<DecimalModel>,
}

/// Two optional numbers are alike: both are missing, or both are there and
/// stand for the same number.
pub open spec fn same_optional_number(a: Option<DecimalModel>, b: Option<DecimalModel>) -> bool {
    match (a, b) {
        (None, None) => true,
        (Some(x), Some(y)) => x.same_number(y),
        _ => false,
    }
}

impl DimensionModel {
    /// The design coordinate, zero where none is given.
    pub open spec fn design_value(self) -> DecimalModel {
        match self.xvalue {
            Some(v) => v,
            None => DecimalModel::of_int(0),
        }
    }

    /// The two positions name the same axis and give the same numbers.
    pub open spec fn same(self, other: DimensionModel) -> bool {
        &&& self.name == other.name
        &&& same_optional_number(self.uservalue, other.uservalue)
        &&& same_optional_number(self.xvalue, other.xvalue)
        &&& same_optional_number(self.yvalue, other.yvalue)
    }
}

/// Two locations are alike: they have as many positions, alike one by one.
pub open spec fn same_location(a: Seq<DimensionModel>, b: Seq<DimensionModel>) -> bool {
    a.len() == b.len() && forall|i: int| 0 <= i < a.len() ==> (#[trigger] a[i]).same(b[i])
}

impl DeepView for Dimension {
    type V = DimensionModel;

    open spec fn deep_view(&self) -> DimensionModel {
        DimensionModel {
            name: self.name@,
            uservalue: self.uservalue.deep_view(),
            xvalue: self.xvalue.deep_view(),
            yvalue: self.yvalue.deep_view(),
        }
    }
}

impl Clone for Dimension {
    fn clone(&self) -> (r: Dimension)
        ensures
            r.deep_view() == self.deep_view(),
    {
        Dimension {
            name: self.name.clone(),
            uservalue: self.uservalue.clone(),
            xvalue: self.xvalue.clone(),
            yvalue: self.yvalue.clone(),
        }
    }
}

/// Whether two optional numbers are alike.
pub fn optional_numbers_alike(a: &Option<Decimal>, b: &Option<Decimal>) -> (r: bool)
    ensures
        r == same_optional_number(a.deep_view(), b.deep_view()),
{
    match (a, b) {
        (None, None) => true,
        (Some(x), Some(y)) => x.eq_value(y),
        _ => false,
    }
}

impl Dimension {
    /// The design coordinate, zero where none is given.
    pub fn design_value(&self) -> (r: Decimal)
        ensures
            r@ == self.deep_view().design_value(),
    {
        match &self.xvalue {
            Some(v) => v.copy(),
            None => Decimal::from_i64(0),
        }
    }

    /// Whether the two positions name the same axis and give the same numbers.
    pub fn same(&self, other: &Dimension) -> (r: bool)
        ensures
            r == self.deep_view().same(other.deep_view()),
    {
        self.name == other.name && optional_numbers_alike(&self.uservalue, &other.uservalue)
            && optional_numbers_alike(&self.xvalue, &other.xvalue) && optional_numbers_alike(
            &self.yvalue,
            &other.yvalue,
        )
    }
}

/// Whether two locations are alike.
pub fn locations_alike(a: &Vec<Dimension>, b: &Vec<Dimension>) -> (r: bool)
    ensures
        r == same_location(a.deep_view(), b.deep_view()),
{
    if a.len() != b.len() {
        return false;
    }
    let mut i: usize = 0;
    while i < a.len()
        invariant
            i <= a.len(),
            a.len() == b.len(),
            forall|j: int| 0 <= j < i ==> (#[trigger] a.deep_view()[j]).same(b.deep_view()[j]),
        decreases a.len() - i,
    {
        if !a[i].same(&b[i]) {
            assert(!a.deep_view()[i as int].same(b.deep_view()[i as int]));
            return false;
        }
        i += 1;
    }
    true
}

/// A source of the family: a font object, or one layer of it, at a location.
/// A source without `layer` is a master.
#[derive(Debug, PartialEq)]
pub struct Source {
    pub name: String,
    pub filename: String,
    pub stylename: Option<String>,
    pub layer: Option<String>,
    pub location: Vec<Dimension>,
}

/// What a [`Source`] stands for.
pub struct SourceModel {
    pub name: Seq<char>,
    pub filename: Seq<char>,
    pub stylename: Option<Seq<char>>,
    pub layer: Option<Seq<char>>,
    pub location: Seq<DimensionModel>,
}

impl DeepView for Source {
    type V = SourceModel;

    open spec fn deep_view(&self) -> SourceModel {
        SourceModel {
            name: self.name@,
            filename: self.filename@,
            stylename: self.stylename.deep_view(),
            layer: self.layer.deep_view(),
            location: self.location.deep_view(),
        }
    }
}

impl Clone for Source {
    fn clone(&self) -> (r: Source)
        ensures
            r.deep_view() == self.deep_view(),
    {
        let location = self.location.clone();
        assert(location.deep_view() =~= self.location.deep_view());
        Source {
            name: self.name.clone(),
            filename: self.filename.clone(),
            stylename: self.stylename.clone(),
            layer: self.layer.clone(),
            location,
        }
    }
}

/// An instance of the family as the designspace describes it.
#[derive(Debug, PartialEq)]
pub struct InstanceSource {
    pub stylename: Option<String>,
    pub stylemapfamilyname: Option<String>,
    pub stylemapstylename: Option<String>,
    pub location: Vec<Dimension>,
}

/// What an [`InstanceSource`] stands for.
pub struct InstanceSourceModel {
    pub stylename: Option<Seq<char>>,
    pub stylemapfamilyname: Option<Seq<char>>,
    pub stylemapstylename: Option<Seq<char>>,
    pub location: Seq<DimensionModel>,
}

impl DeepView for InstanceSource {
    type V = InstanceSourceModel;

    open spec fn deep_view(&self) -> InstanceSourceModel {
        InstanceSourceModel {
            stylename: self.stylename.deep_view(),
            stylemapfamilyname: self.stylemapfamilyname.deep_view(),
            stylemapstylename: self.stylemapstylename.deep_view(),
            location: self.location.deep_view(),
        }
    }
}

impl Clone for InstanceSource {
    fn clone(&self) -> (r: InstanceSource)
        ensures
            r.deep_view() == self.deep_view(),
    {
        let location = self.location.clone();
        assert(location.deep_view() =~= self.location.deep_view());
        InstanceSource {
            stylename: self.stylename.clone(),
            stylemapfamilyname: self.stylemapfamilyname.clone(),
            stylemapstylename: self.stylemapstylename.clone(),
            location,
        }
    }
}

/// A designspace.
#[derive(Debug, PartialEq)]
pub struct Designspace {
    pub axes: Vec<Axis>,
    pub sources: Vec<Source>,
    pub instances: Vec<InstanceSource>,
}

/// What a [`Designspace`] stands for.
pub struct DesignspaceModel {
    pub axes: Seq<AxisModel>,
    pub sources: Seq<SourceModel>,
    pub instances: Seq<InstanceSourceModel>,
}

impl DeepView for Designspace {
    type V = DesignspaceModel;

    open spec fn deep_view(&self) -> DesignspaceModel {
        DesignspaceModel {
            axes: self.axes.deep_view(),
            sources: self.sources.deep_view(),
            instances: self.instances.deep_view(),
        }
    }
}

impl Clone for Designspace {
    fn clone(&self) -> (r: Designspace)
        ensures
            r.deep_view() == self.deep_view(),
    {
        let axes = self.axes.clone();
        let sources = self.sources.clone();
        let instances = self.instances.clone();
        proof {
            assert(axes.deep_view() =~= self.axes.deep_view());
            assert(sources.deep_view() =~= self.sources.deep_view());
            assert(instances.deep_view() =~= self.instances.deep_view());
        }
        Designspace { axes, sources, instances }
    }
}

} // verus!
