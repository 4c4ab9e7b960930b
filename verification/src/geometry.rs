//! Points and affine transforms.

use vstd::prelude::*;
use crate::decimal::{Decimal, DecimalModel};

verus! {

/// A point in the plane.
#[derive(Debug, PartialEq)]
pub struct Point {
    pub x: Decimal,
    pub y: Decimal,
}

/// What a [`Point`] stands for.
pub struct PointModel {
    pub x: DecimalModel,
    pub y: DecimalModel,
}

impl DeepView for Point {
    type V = PointModel;

    open spec fn deep_view(&self) -> PointModel {
        PointModel { x: self.x@, y: self.y@ }
    }
}

impl Clone for Point {
    fn clone(&self) -> (r: Point)
        ensures
            r.deep_view() == self.deep_view(),
    {
        Point { x: self.x.copy(), y: self.y.copy() }
    }
}

impl Point {
    /// The point at `(x, y)`.
    pub fn new(x: Decimal, y: Decimal) -> (r: Point)
        ensures
            r.deep_view() == (PointModel { x: x@, y: y@ }),
    {
        Point { x, y }
    }
}

/// An affine transform of the plane: a point `(x, y)` goes to
/// `(x_scale * x + yx_scale * y + x_offset, xy_scale * x + y_scale * y + y_offset)`.
#[derive(Debug, PartialEq)]
pub struct Affine {
    pub x_scale: Decimal,
    pub xy_scale: Decimal,
    pub yx_scale: Decimal,
    pub y_scale: Decimal,
    pub x_offset: Decimal,
    pub y_offset: Decimal,
}

/// What an [`Affine`] stands for.
pub struct AffineModel {
    pub x_scale: DecimalModel,
    pub xy_scale: DecimalModel,
    pub yx_scale: DecimalModel,
    pub y_scale: DecimalModel,
    pub x_offset: DecimalModel,
    pub y_offset: DecimalModel,
}

impl AffineModel {
    /// The transform that moves nothing.
    pub open spec fn identity() -> AffineModel {
        AffineModel {
            x_scale: DecimalModel::of_int(1),
            xy_scale: DecimalModel::of_int(0),
            yx_scale: DecimalModel::of_int(0),
            y_scale: DecimalModel::of_int(1),
            x_offset: DecimalModel::of_int(0),
            y_offset: DecimalModel::of_int(0),
        }
    }

    /// The transform moves nothing: its six numbers are those of the identity.
    pub open spec fn is_identity(self) -> bool {
        &&& self.x_scale.same_number(DecimalModel::of_int(1))
        &&& self.xy_scale.same_number(DecimalModel::of_int(0))
        &&& self.yx_scale.same_number(DecimalModel::of_int(0))
        &&& self.y_scale.same_number(DecimalModel::of_int(1))
        &&& self.x_offset.same_number(DecimalModel::of_int(0))
        &&& self.y_offset.same_number(DecimalModel::of_int(0))
    }
}

impl DeepView for Affine {
    type V = AffineModel;

    open spec fn deep_view(&self) -> AffineModel {
        AffineModel {
            x_scale: self.x_scale@,
            xy_scale: self.xy_scale@,
            yx_scale: self.yx_scale@,
            y_scale: self.y_scale@,
            x_offset: self.x_offset@,
            y_offset: self.y_offset@,
        }
    }
}

impl Clone for Affine {
    fn clone(&self) -> (r: Affine)
        ensures
            r.deep_view() == self.deep_view(),
    {
        Affine {
            x_scale: self.x_scale.copy(),
            xy_scale: self.xy_scale.copy(),
            yx_scale: self.yx_scale.copy(),
            y_scale: self.y_scale.copy(),
            x_offset: self.x_offset.copy(),
            y_offset: self.y_offset.copy(),
        }
    }
}

impl Affine {
    /// The transform that moves nothing.
    pub fn identity() -> (r: Affine)
        ensures
            r.deep_view() == AffineModel::identity(),
    {
        Affine {
            x_scale: Decimal::from_i64(1),
            xy_scale: Decimal::from_i64(0),
            yx_scale: Decimal::from_i64(0),
            y_scale: Decimal::from_i64(1),
            x_offset: Decimal::from_i64(0),
            y_offset: Decimal::from_i64(0),
        }
    }

    /// Whether the transform moves nothing.
    pub fn is_identity(&self) -> (r: bool)
        ensures
            r == self.deep_view().is_identity(),
    {
        let one = Decimal::from_i64(1);
        let zero = Decimal::from_i64(0);
        self.x_scale.eq_value(&one) && self.xy_scale.eq_value(&zero) && self.yx_scale.eq_value(
            &zero,
        ) && self.y_scale.eq_value(&one) && self.x_offset.eq_value(&zero)
            && self.y_offset.eq_value(&zero)
    }
}

} // verus!
