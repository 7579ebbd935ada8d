use vstd::prelude::*;

use crate::error::{Error, Result};
use crate::scalar::Scalar;

verus! {

/// The value of a controller property or of a scene object property.
#[derive(Clone, Copy, Debug, PartialEq)]
pub enum Value {
    Float(Scalar),
    Vec3(Vec3),
    Vec4(Vec4),
    Matrix44(Matrix44),
}

#[derive(Clone, Copy, Debug, PartialEq)]
pub struct Vec3 {
    pub x: Scalar,
    pub y: Scalar,
    pub z: Scalar,
}

#[derive(Clone, Copy, Debug, PartialEq)]
pub struct Vec4 {
    pub x: Scalar,
    pub y: Scalar,
    pub z: Scalar,
    pub w: Scalar,
}

/// A 4x4 matrix held as four rows.
#[derive(Clone, Copy, Debug, PartialEq)]
pub struct Matrix44 {
    pub row0: Vec4,
    pub row1: Vec4,
    pub row2: Vec4,
    pub row3: Vec4,
}

impl View for Value {
    type V = Value;

    open spec fn view(&self) -> Value {
        *self
    }
}

/// Two values are of the same kind: both floats, both 3-vectors, both
/// 4-vectors or both matrices.
pub open spec fn same_kind(a: Value, b: Value) -> bool {
    match (a, b) {
        (Value::Float(_), Value::Float(_)) => true,
        (Value::Vec3(_), Value::Vec3(_)) => true,
        (Value::Vec4(_), Value::Vec4(_)) => true,
        (Value::Matrix44(_), Value::Matrix44(_)) => true,
        _ => false,
    }
}

/// The value that `update` leaves behind: `other` where the kinds agree,
/// else the value unchanged.
pub open spec fn updated(this: Value, other: Value) -> Value {
    if same_kind(this, other) {
        other
    } else {
        this
    }
}

/// Whether `e` is the error that an update between values of different
/// kinds fails with.
pub open spec fn is_kind_mismatch(e: Error) -> bool {
    e matches Error::InvalidValue(m) && m@ == "value has different type"@
}

impl Vec3 {
    /// `(0, 0, 0)`.
    pub fn zero() -> (r: Vec3)
        ensures
            r == Vec3::zero_spec(),
    {
        Vec3 { x: Scalar::zero(), y: Scalar::zero(), z: Scalar::zero() }
    }

    /// A vector from its three components.
    pub fn from_tuple(t: (Scalar, Scalar, Scalar)) -> (r: Vec3)
        ensures
            r.x == t.0 && r.y == t.1 && r.z == t.2,
    {
        Vec3 { x: t.0, y: t.1, z: t.2 }
    }

    /// Its three components.
    pub fn to_tuple(&self) -> (r: (Scalar, Scalar, Scalar))
        ensures
            r == (self.x, self.y, self.z),
    {
        (self.x, self.y, self.z)
    }
}

impl Vec4 {
    /// `(0, 0, 0, 0)`.
    pub fn zero() -> (r: Vec4)
        ensures
            r == Vec4::zero_spec(),
    {
        Vec4 { x: Scalar::zero(), y: Scalar::zero(), z: Scalar::zero(), w: Scalar::zero() }
    }

    /// A vector from its four components in an array.
    pub fn from_array(a: [Scalar; 4]) -> (r: Vec4)
        ensures
            r.x == a@[0] && r.y == a@[1] && r.z == a@[2] && r.w == a@[3],
    {
        Vec4 { x: a[0], y: a[1], z: a[2], w: a[3] }
    }

    /// A vector from its four components.
    pub fn from_tuple(t: (Scalar, Scalar, Scalar, Scalar)) -> (r: Vec4)
        ensures
            r.x == t.0 && r.y == t.1 && r.z == t.2 && r.w == t.3,
    {
        Vec4 { x: t.0, y: t.1, z: t.2, w: t.3 }
    }

    /// Its four components.
    pub fn to_tuple(&self) -> (r: (Scalar, Scalar, Scalar, Scalar))
        ensures
            r == (self.x, self.y, self.z, self.w),
    {
        (self.x, self.y, self.z, self.w)
    }
}

impl Matrix44 {
    /// The matrix of zeros.
    pub fn zero() -> (r: Matrix44)
        ensures
            r.row0 == Vec4::zero_spec() && r.row1 == Vec4::zero_spec() && r.row2
                == Vec4::zero_spec() && r.row3 == Vec4::zero_spec(),
    {
        Matrix44 { row0: Vec4::zero(), row1: Vec4::zero(), row2: Vec4::zero(), row3: Vec4::zero() }
    }

    /// A matrix from its four rows.
    pub fn from_rows(rows: [[Scalar; 4]; 4]) -> (r: Matrix44)
        ensures
            r.row0 == Vec4::from_array_spec(rows@[0]),
            r.row1 == Vec4::from_array_spec(rows@[1]),
            r.row2 == Vec4::from_array_spec(rows@[2]),
            r.row3 == Vec4::from_array_spec(rows@[3]),
    {
        Matrix44 {
            row0: Vec4::from_array(rows[0]),
            row1: Vec4::from_array(rows[1]),
            row2: Vec4::from_array(rows[2]),
            row3: Vec4::from_array(rows[3]),
        }
    }
}

impl Value {
    /// The zero 3-vector.
    pub fn vec3() -> (r: Value)
        ensures
            r == Value::Vec3(Vec3::zero_spec()),
    {
        Value::Vec3(Vec3::zero())
    }

    /// Copy `other` into this value. Values of different kinds are refused
    /// and this value stays as it was.
    pub fn update(&mut self, other: &Value) -> (r: Result<()>)
        ensures
            *final(self) == updated(*old(self), *other),
            r is Ok <==> same_kind(*old(self), *other),
            r matches Err(e) ==> is_kind_mismatch(e),
    {
        match (&*self, other) {
            (Value::Float(_), Value::Float(_)) => {
                *self = *other;
                Ok(())
            },
            (Value::Vec3(_), Value::Vec3(_)) => {
                *self = *other;
                Ok(())
            },
            (Value::Vec4(_), Value::Vec4(_)) => {
                *self = *other;
                Ok(())
            },
            (Value::Matrix44(_), Value::Matrix44(_)) => {
                *self = *other;
                Ok(())
            },
            _ => Err(Error::InvalidValue("value has different type".to_owned())),
        }
    }

    /// The number, where this value is a float.
    pub fn as_f64(&self) -> (r: Option<&Scalar>)
        ensures
            match *self {
                Value::Float(f) => r == Some(&f),
                _ => r is None,
            },
    {
        match self {
            Value::Float(value) => Some(value),
            _ => None,
        }
    }

    /// The vector, where this value is a 3-vector.
    pub fn as_vec3(&self) -> (r: Option<&Vec3>)
        ensures
            match *self {
                Value::Vec3(v) => r == Some(&v),
                _ => r is None,
            },
    {
        match self {
            Value::Vec3(value) => Some(value),
            _ => None,
        }
    }
}

impl Scalar {
    pub open spec fn zero_spec() -> Scalar {
        Scalar { bits: crate::scalar::ZERO_BITS }
    }
}

impl Vec3 {
    pub open spec fn zero_spec() -> Vec3 {
        Vec3 { x: Scalar::zero_spec(), y: Scalar::zero_spec(), z: Scalar::zero_spec() }
    }
}

impl Vec4 {
    pub open spec fn zero_spec() -> Vec4 {
        Vec4 {
            x: Scalar::zero_spec(),
            y: Scalar::zero_spec(),
            z: Scalar::zero_spec(),
            w: Scalar::zero_spec(),
        }
    }

    pub open spec fn from_array_spec(a: [Scalar; 4]) -> Vec4 {
        Vec4 { x: a@[0], y: a@[1], z: a@[2], w: a@[3] }
    }
}

} // verus!
