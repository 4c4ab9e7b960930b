//! A place on the axes of a family, by position.
//!
//! A location holds the design coordinates of one to six axes in the order
//! of the axes. The axes have no names here: what a coordinate means is
//! decided by where it stands.

use vstd::prelude::*;
use crate::decimal::{Decimal, DecimalModel};
use crate::designspace::{Dimension, DimensionModel};
use crate::error::{ConversionError, ConversionErrorModel, ErrorKind};
use crate::codec::{braced_text, write_braced};
use crate::text::string_of;
use crate::vecs::map_model;

verus! {

/// The design coordinates of one to six axes, in the order of the axes.
#[derive(Debug, PartialEq, Eq)]
pub struct Location(Vec<Decimal>);

impl DeepView for Location {
    type V = Seq<DecimalModel>;

    closed spec fn deep_view(&self) -> Seq<DecimalModel> {
        self.0.deep_view()
    }
}

/// The design coordinates of the positions of a location, in order.
pub open spec fn coordinates(dimension: Seq<DimensionModel>) -> Seq<DecimalModel> {
    dimension.map_values(|d: DimensionModel| d.design_value())
}

/// The coordinates of a location, where they are between one and six.
pub open spec fn location_of(dimension: Seq<DimensionModel>) -> Result<
    Seq<DecimalModel>,
    ConversionErrorModel,
> {
    if dimension.len() == 0 {
        Err(ConversionErrorModel::new(ErrorKind::EmptyLocation, Seq::empty()))
    } else if dimension.len() > 6 {
        Err(ConversionErrorModel::new(ErrorKind::TooManyAxes, Seq::empty()))
    } else {
        Ok(coordinates(dimension))
    }
}

/// The coordinate at `i`, where there is one.
pub open spec fn coordinate_at(values: Seq<DecimalModel>, i: int) -> Option<DecimalModel> {
    if 0 <= i < values.len() {
        Some(values[i])
    } else {
        None
    }
}

/// The name of a layer that stands at the given coordinates: the numbers in
/// braces, as `{123, 456}`.
pub open spec fn location_text(values: Seq<DecimalModel>) -> Seq<char> {
    braced_text(values)
}

impl Location {
    /// Every location has between one and six coordinates.
    #[verifier::type_invariant]
    pub open spec fn inv(self) -> bool {
        1 <= self.deep_view().len() <= 6
    }

    /// The location with the design coordinates of `dimension`, by position.
    /// Fails where there are none, or more than six.
    pub fn from_dimension(dimension: &Vec<Dimension>) -> (r: Result<Location, ConversionError>)
        ensures
            match r {
                Ok(l) => location_of(dimension.deep_view()) == Ok::<
                    Seq<DecimalModel>,
                    ConversionErrorModel,
                >(l.deep_view()),
                Err(e) => location_of(dimension.deep_view()) == Err::<
                    Seq<DecimalModel>,
                    ConversionErrorModel,
                >(e.deep_view()),
            },
    {
        proof {
            reveal_strlit("");
            assert(""@ =~= Seq::<char>::empty());
        }
        if dimension.len() == 0 {
            return Err(ConversionError::new(ErrorKind::EmptyLocation, ""));
        }
        if dimension.len() > 6 {
            return Err(ConversionError::new(ErrorKind::TooManyAxes, ""));
        }
        let values = map_model(
            dimension,
            Dimension::design_value,
            Ghost(|d: DimensionModel| d.design_value()),
        );
        Ok(Location(values))
    }

    fn at(&self, i: usize) -> (r: Option<Decimal>)
        ensures
            r.deep_view() == coordinate_at(self.deep_view(), i as int),
    {
        if i < self.0.len() {
            Some(self.0[i].copy())
        } else {
            None
        }
    }

    /// The six slots of the location: the first coordinate, and each of the
    /// others where there is one.
    pub fn as_tuple(&self) -> (r: (
        Decimal,
        Option<Decimal>,
        Option<Decimal>,
        Option<Decimal>,
        Option<Decimal>,
        Option<Decimal>,
    ))
        ensures
            r.0@ == self.deep_view()[0],
            r.1.deep_view() == coordinate_at(self.deep_view(), 1),
            r.2.deep_view() == coordinate_at(self.deep_view(), 2),
            r.3.deep_view() == coordinate_at(self.deep_view(), 3),
            r.4.deep_view() == coordinate_at(self.deep_view(), 4),
            r.5.deep_view() == coordinate_at(self.deep_view(), 5),
    {
        proof {
            use_type_invariant(self);
        }
        (self.0[0].copy(), self.at(1), self.at(2), self.at(3), self.at(4), self.at(5))
    }

    /// The name of a layer that stands at this location.
    pub fn to_string(&self) -> (r: String)
        ensures
            r@ == location_text(self.deep_view()),
    {
        let mut out: Vec<char> = Vec::new();
        write_braced(&self.0, &mut out);
        assert(out@ =~= location_text(self.deep_view()));
        string_of(&out)
    }
}

} // verus!
