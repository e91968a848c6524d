//! Points and vectors in Cartesian space, over fixed-point coordinates.
use vstd::prelude::*;

use crate::double::Double;
use crate::error::DxfError;
use crate::value::{CodePair, CodePairValue};

verus! {

/// A simple point in Cartesian space.
#[derive(Clone, Copy, Debug, PartialEq, Eq, Structural)]
pub struct Point {
    /// The X value of the point.
    pub x: Double,
    /// The Y value of the point.
    pub y: Double,
    /// The Z value of the point.
    pub z: Double,
}

impl Point {
    /// All three coordinates are well formed.
    pub open spec fn wf(self) -> bool {
        self.x.wf() && self.y.wf() && self.z.wf()
    }

    /// Creates a new point with the specified values.
    pub fn new(x: Double, y: Double, z: Double) -> (r: Point)
        ensures
            r == (Point { x, y, z }),
    {
        Point { x, y, z }
    }

    /// Returns the point at the origin.
    pub fn origin() -> (r: Point)
        ensures
            r == spec_origin(),
            r.wf(),
    {
        Point::new(Double::zero(), Double::zero(), Double::zero())
    }

    /// Sets one coordinate of the point from a coordinate code pair: the
    /// codes 10, 20 and 30 carry the x, y and z values.
    pub fn set(&mut self, pair: &CodePair) -> (r: Result<(), DxfError>)
        ensures
            match r {
                Ok(()) => (pair@.code == 10 || pair@.code == 20 || pair@.code == 30) && (
                pair@.value matches crate::value::ValueV::Double(d) && *final(self)
                    == spec_point_set(*old(self), pair@.code, d)),
                Err(e) => *final(self) == *old(self) && e == DxfError::UnexpectedCodePair && !((
                pair@.code == 10 || pair@.code == 20 || pair@.code == 30)
                    && pair@.value is Double),
            },
    {
        match &pair.value {
            CodePairValue::Double(d) => {
                let dv: Double = *d;
                if pair.code == 10 {
                    self.x = dv;
                    Ok(())
                } else if pair.code == 20 {
                    self.y = dv;
                    Ok(())
                } else if pair.code == 30 {
                    self.z = dv;
                    Ok(())
                } else {
                    Err(DxfError::UnexpectedCodePair)
                }
            },
            _ => Err(DxfError::UnexpectedCodePair),
        }
    }
}

/// The origin point.
pub open spec fn spec_origin() -> Point {
    Point {
        x: Double { neg: false, units: 0, frac: 0 },
        y: Double { neg: false, units: 0, frac: 0 },
        z: Double { neg: false, units: 0, frac: 0 },
    }
}

/// A point after one coordinate code pair lands on it.
pub open spec fn spec_point_set(p: Point, code: int, d: Double) -> Point {
    if code == 10 {
        Point { x: d, ..p }
    } else if code == 20 {
        Point { y: d, ..p }
    } else if code == 30 {
        Point { z: d, ..p }
    } else {
        p
    }
}

/// A simple vector in Cartesian space.
#[derive(Clone, Copy, Debug, PartialEq, Eq, Structural)]
pub struct Vector {
    /// The X component of the vector.
    pub x: Double,
    /// The Y component of the vector.
    pub y: Double,
    /// The Z component of the vector.
    pub z: Double,
}

impl Vector {
    /// All three components are well formed.
    pub open spec fn wf(self) -> bool {
        self.x.wf() && self.y.wf() && self.z.wf()
    }

    /// Creates a new vector with the specified components.
    pub fn new(x: Double, y: Double, z: Double) -> (r: Vector)
        ensures
            r == (Vector { x, y, z }),
    {
        Vector { x, y, z }
    }

    /// Returns the zero vector.
    pub fn zero() -> (r: Vector)
        ensures
            r == spec_zero_vector(),
            r.wf(),
    {
        Vector::new(Double::zero(), Double::zero(), Double::zero())
    }

    /// Returns the unit vector along the X axis.
    pub fn x_axis() -> (r: Vector)
        ensures
            r == (Vector {
                x: Double { neg: false, units: 1, frac: 0 },
                y: Double { neg: false, units: 0, frac: 0 },
                z: Double { neg: false, units: 0, frac: 0 },
            }),
            r.wf(),
    {
        Vector::new(Double::from_units(1), Double::zero(), Double::zero())
    }

    /// Returns the unit vector along the Y axis.
    pub fn y_axis() -> (r: Vector)
        ensures
            r == (Vector {
                x: Double { neg: false, units: 0, frac: 0 },
                y: Double { neg: false, units: 1, frac: 0 },
                z: Double { neg: false, units: 0, frac: 0 },
            }),
            r.wf(),
    {
        Vector::new(Double::zero(), Double::from_units(1), Double::zero())
    }

    /// Returns the unit vector along the Z axis.
    pub fn z_axis() -> (r: Vector)
        ensures
            r == spec_z_axis(),
            r.wf(),
    {
        Vector::new(Double::zero(), Double::zero(), Double::from_units(1))
    }

    /// Sets one component of the vector from a coordinate code pair: the
    /// codes 10, 20 and 30 carry the x, y and z components.
    pub fn set(&mut self, pair: &CodePair) -> (r: Result<(), DxfError>)
        ensures
            match r {
                Ok(()) => (pair@.code == 10 || pair@.code == 20 || pair@.code == 30) && (
                pair@.value matches crate::value::ValueV::Double(d) && *final(self)
                    == spec_vector_set(*old(self), pair@.code, d)),
                Err(e) => *final(self) == *old(self) && e == DxfError::UnexpectedCodePair && !((
                pair@.code == 10 || pair@.code == 20 || pair@.code == 30)
                    && pair@.value is Double),
            },
    {
        match &pair.value {
            CodePairValue::Double(d) => {
                let dv: Double = *d;
                if pair.code == 10 {
                    self.x = dv;
                    Ok(())
                } else if pair.code == 20 {
                    self.y = dv;
                    Ok(())
                } else if pair.code == 30 {
                    self.z = dv;
                    Ok(())
                } else {
                    Err(DxfError::UnexpectedCodePair)
                }
            },
            _ => Err(DxfError::UnexpectedCodePair),
        }
    }
}

/// The zero vector.
pub open spec fn spec_zero_vector() -> Vector {
    Vector {
        x: Double { neg: false, units: 0, frac: 0 },
        y: Double { neg: false, units: 0, frac: 0 },
        z: Double { neg: false, units: 0, frac: 0 },
    }
}

/// The unit vector along the Z axis.
pub open spec fn spec_z_axis() -> Vector {
    Vector {
        x: Double { neg: false, units: 0, frac: 0 },
        y: Double { neg: false, units: 0, frac: 0 },
        z: Double { neg: false, units: 1, frac: 0 },
    }
}

/// A vector after one coordinate code pair lands on it.
pub open spec fn spec_vector_set(v: Vector, code: int, d: Double) -> Vector {
    if code == 10 {
        Vector { x: d, ..v }
    } else if code == 20 {
        Vector { y: d, ..v }
    } else if code == 30 {
        Vector { z: d, ..v }
    } else {
        v
    }
}

} // verus!
