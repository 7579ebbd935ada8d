use vstd::prelude::*;

use super::devices::DeviceId;
use super::error::{Error, Result};
use crate::name::Name;
use crate::name_map::{Duplicate, NameMap};
use crate::scalar::Scalar;

pub use crate::data::value::{Vec3, Vec4};

verus! {

/// The value of a device or scene object attribute.
#[derive(Debug, Clone, Copy, PartialEq)]
pub enum AttributeValue {
    Float(Scalar),
    Vec3(Vec3),
    Vec4(Vec4),
    Matrix44(Matrix44),
}

/// A 4x4 double precision matrix, stored column-major: element `(x, y)` is
/// `data[y * 4 + x]`.
#[derive(Debug, Clone, Copy, PartialEq)]
pub struct Matrix44 {
    data: [Scalar; 16],
}

impl Matrix44 {
    /// The sixteen elements, column-major.
    pub closed spec fn elements(self) -> Seq<Scalar> {
        self.data@
    }

    /// The matrix of zeros.
    pub fn new() -> (r: Matrix44)
        ensures
            r.elements() == Seq::new(16, |i: int| Scalar { bits: crate::scalar::ZERO_BITS }),
    {
        let r = Matrix44 { data: [Scalar::zero(); 16] };
        assert(r.elements() =~= Seq::new(16, |i: int| Scalar { bits: crate::scalar::ZERO_BITS }));
        r
    }

    /// The identity matrix.
    pub fn identity() -> (r: Matrix44)
        ensures
            r.elements() == Seq::new(
                16,
                |i: int|
                    if i == 0 || i == 5 || i == 10 || i == 15 {
                        Scalar { bits: crate::scalar::ONE_BITS }
                    } else {
                        Scalar { bits: crate::scalar::ZERO_BITS }
                    },
            ),
    {
        let mut m = Matrix44::new();
        m.data.set(0, Scalar::one());
        m.data.set(5, Scalar::one());
        m.data.set(10, Scalar::one());
        m.data.set(15, Scalar::one());
        assert(m.elements() =~= Seq::new(
            16,
            |i: int|
                if i == 0 || i == 5 || i == 10 || i == 15 {
                    Scalar { bits: crate::scalar::ONE_BITS }
                } else {
                    Scalar { bits: crate::scalar::ZERO_BITS }
                },
        ));
        m
    }

    /// A matrix from its sixteen elements, column-major.
    pub fn from_array(value: [Scalar; 16]) -> (r: Matrix44)
        ensures
            r.elements() == value@,
    {
        Matrix44 { data: value }
    }

    /// The element in column `y`, row `x`; `None` outside the matrix.
    pub fn get(&self, x: usize, y: usize) -> (r: Option<Scalar>)
        ensures
            r == (if x < 4 && y < 4 {
                Some(self.elements()[y * 4 + x])
            } else {
                None
            }),
    {
        if x < 4 && y < 4 {
            Some(self.data[y * 4 + x])
        } else {
            None
        }
    }

    /// Set the element in column `y`, row `x`; nothing happens outside the
    /// matrix.
    pub fn set(&mut self, x: usize, y: usize, value: Scalar)
        ensures
            final(self).elements() == (if x < 4 && y < 4 {
                old(self).elements().update(y * 4 + x, value)
            } else {
                old(self).elements()
            }),
    {
        if x < 4 && y < 4 {
            self.data.set(y * 4 + x, value);
        }
    }
}

impl Default for Matrix44 {
    /// The identity matrix.
    fn default() -> (r: Self)
        ensures
            r.elements() == Matrix44::identity_elements(),
    {
        Matrix44::identity()
    }
}

impl Matrix44 {
    /// The elements of the identity matrix.
    pub open spec fn identity_elements() -> Seq<Scalar> {
        Seq::new(
            16,
            |i: int|
                if i == 0 || i == 5 || i == 10 || i == 15 {
                    Scalar { bits: crate::scalar::ONE_BITS }
                } else {
                    Scalar { bits: crate::scalar::ZERO_BITS }
                },
        )
    }
}

/// Two attribute values are of the same kind.
pub open spec fn same_kind(a: AttributeValue, b: AttributeValue) -> bool {
    match (a, b) {
        (AttributeValue::Float(_), AttributeValue::Float(_)) => true,
        (AttributeValue::Vec3(_), AttributeValue::Vec3(_)) => true,
        (AttributeValue::Vec4(_), AttributeValue::Vec4(_)) => true,
        (AttributeValue::Matrix44(_), AttributeValue::Matrix44(_)) => true,
        _ => false,
    }
}

/// The value that `update` leaves behind.
pub open spec fn updated(this: AttributeValue, other: AttributeValue) -> AttributeValue {
    if same_kind(this, other) {
        other
    } else {
        this
    }
}

/// The error of an update between values of different kinds.
pub open spec fn is_kind_mismatch(e: Error) -> bool {
    e matches Error::InvalidValue(m) && m@ == "value has different type"@
}

impl View for AttributeValue {
    type V = AttributeValue;

    open spec fn view(&self) -> AttributeValue {
        *self
    }
}

impl AttributeValue {
    /// The zero 3-vector.
    pub fn vec3() -> (r: Self)
        ensures
            r == AttributeValue::Vec3(Vec3::zero_spec()),
    {
        AttributeValue::Vec3(Vec3::zero())
    }

    /// The identity matrix.
    pub fn matrix44() -> (r: Self)
        ensures
            r matches AttributeValue::Matrix44(m) && m.elements() == Matrix44::identity_elements(),
    {
        AttributeValue::Matrix44(Matrix44::identity())
    }

    /// Copy `other` into this value; refused when the kinds differ.
    pub fn update(&mut self, other: &Self) -> (r: Result<()>)
        ensures
            *final(self) == updated(*old(self), *other),
            r is Ok <==> same_kind(*old(self), *other),
            r matches Err(e) ==> is_kind_mismatch(e),
    {
        match (&*self, other) {
            (AttributeValue::Float(_), AttributeValue::Float(_)) => {
                *self = *other;
                Ok(())
            },
            (AttributeValue::Vec3(_), AttributeValue::Vec3(_)) => {
                *self = *other;
                Ok(())
            },
            (AttributeValue::Vec4(_), AttributeValue::Vec4(_)) => {
                *self = *other;
                Ok(())
            },
            (AttributeValue::Matrix44(_), AttributeValue::Matrix44(_)) => {
                *self = *other;
                Ok(())
            },
            _ => Err(Error::InvalidValue("value has different type".to_owned())),
        }
    }

    /// The number, where this is a float.
    pub fn as_f64(&self) -> (r: Option<&Scalar>)
        ensures
            match *self {
                AttributeValue::Float(f) => r == Some(&f),
                _ => r is None,
            },
    {
        match self {
            AttributeValue::Float(value) => Some(value),
            _ => None,
        }
    }

    /// The vector, where this is a 3-vector.
    pub fn as_vec3(&self) -> (r: Option<&Vec3>)
        ensures
            match *self {
                AttributeValue::Vec3(v) => r == Some(&v),
                _ => r is None,
            },
    {
        match self {
            AttributeValue::Vec3(value) => Some(value),
            _ => None,
        }
    }

    /// The matrix, where this is a matrix.
    pub fn as_matrix44(&self) -> (r: Option<&Matrix44>)
        ensures
            match *self {
                AttributeValue::Matrix44(m) => r == Some(&m),
                _ => r is None,
            },
    {
        match self {
            AttributeValue::Matrix44(value) => Some(value),
            _ => None,
        }
    }

    /// Mutable access to the matrix, where this is a matrix.
    pub fn as_matrix44_mut(&mut self) -> (r: Option<&mut Matrix44>)
        ensures
            match *old(self) {
                AttributeValue::Matrix44(m) => r matches Some(rm) && *rm == m && *final(self)
                    == AttributeValue::Matrix44(*final(rm)),
                _ => r is None && *final(self) == *old(self),
            },
    {
        match self {
            AttributeValue::Matrix44(value) => Some(value),
            _ => None,
        }
    }
}

/// A named attribute: its current value and the default that a reset puts
/// back. Both are always of the same kind.
#[derive(Debug, Clone)]
pub struct Attribute {
    name: Name,
    value: AttributeValue,
    default_value: AttributeValue,
}

/// Model of an attribute.
pub struct AttributeView {
    pub name: Seq<char>,
    pub value: AttributeValue,
    pub default_value: AttributeValue,
}

impl View for Attribute {
    type V = AttributeView;

    closed spec fn view(&self) -> AttributeView {
        AttributeView { name: self.name@, value: self.value, default_value: self.default_value }
    }
}

impl Duplicate for Attribute {
    closed spec fn well_formed(&self) -> bool {
        same_kind(self.value, self.default_value)
    }

    fn duplicate(&self) -> (r: Self) {
        Attribute { name: self.name.duplicate(), value: self.value, default_value: self.default_value }
    }
}

/// The attribute after an update with `v`.
pub open spec fn attribute_updated(a: AttributeView, v: AttributeValue) -> AttributeView {
    AttributeView { value: updated(a.value, v), ..a }
}

impl Attribute {
    /// The attribute is well formed exactly when its value and default are
    /// of one kind.
    pub proof fn lemma_well_formed(self)
        ensures
            self.well_formed() == same_kind(self@.value, self@.default_value),
    {
    }

    /// An attribute whose value starts at its default.
    pub fn new(name: Name, value: AttributeValue) -> (r: Self)
        ensures
            r.well_formed(),
            r@ == (AttributeView { name: name@, value, default_value: value }),
    {
        Attribute { name, value, default_value: value }
    }

    /// A 3-vector attribute, zero by default.
    pub fn new_vec3(name: Name) -> (r: Self)
        ensures
            r.well_formed(),
            r@ == (AttributeView {
                name: name@,
                value: AttributeValue::Vec3(Vec3::zero_spec()),
                default_value: AttributeValue::Vec3(Vec3::zero_spec()),
            }),
    {
        Attribute::new(name, AttributeValue::vec3())
    }

    /// A matrix attribute, the identity by default.
    pub fn new_matrix44(name: Name) -> (r: Self)
        ensures
            r.well_formed(),
            r@.name == name@,
            r@.value == r@.default_value,
            r@.value matches AttributeValue::Matrix44(m) && m.elements()
                == Matrix44::identity_elements(),
    {
        Attribute::new(name, AttributeValue::matrix44())
    }

    /// The name of the attribute.
    pub fn name(&self) -> (r: &Name)
        ensures
            r@ == self@.name,
    {
        &self.name
    }

    /// The current value.
    pub fn value(&self) -> (r: AttributeValue)
        ensures
            r == self@.value,
    {
        self.value
    }

    /// The default value.
    pub fn default_value(&self) -> (r: AttributeValue)
        ensures
            r == self@.default_value,
    {
        self.default_value
    }

    /// Take `value` as the current value; refused when it is of another
    /// kind than the attribute.
    pub fn update_value(&mut self, value: AttributeValue) -> (r: Result<()>)
        requires
            old(self).well_formed(),
        ensures
            final(self).well_formed(),
            final(self)@ == attribute_updated(old(self)@, value),
            r is Ok <==> same_kind(old(self)@.value, value),
            r matches Err(e) ==> is_kind_mismatch(e),
    {
        let mut new_value = self.value;
        let r = new_value.update(&value);
        self.value = new_value;
        r
    }

    /// Put the default value back.
    pub fn reset(&mut self)
        requires
            old(self).well_formed(),
        ensures
            final(self).well_formed(),
            final(self)@ == (AttributeView { value: old(self)@.default_value, ..old(self)@ }),
    {
        let d = self.default_value;
        let _ = self.update_value(d);
    }
}

/// The attributes of an entity, by name.
#[derive(Debug, Clone)]
pub struct AttributeMap {
    map: NameMap<Attribute>,
}

impl View for AttributeMap {
    type V = Map<Seq<char>, AttributeView>;

    closed spec fn view(&self) -> Map<Seq<char>, AttributeView> {
        self.map@
    }
}

impl Duplicate for AttributeMap {
    closed spec fn well_formed(&self) -> bool {
        self.map.well_formed()
    }

    fn duplicate(&self) -> (r: Self) {
        AttributeMap { map: self.map.copy() }
    }
}

impl AttributeMap {
    pub closed spec fn entries_spec(self) -> NameMap<Attribute> {
        self.map
    }

    pub proof fn lemma_view(self)
        ensures
            self@ == self.entries_spec()@,
            self.well_formed() == self.entries_spec().well_formed(),
    {
    }

    /// No attributes.
    pub fn new() -> (r: Self)
        ensures
            r.well_formed(),
            r@ == Map::<Seq<char>, AttributeView>::empty(),
    {
        AttributeMap { map: NameMap::new() }
    }

    /// The attributes held in a name map.
    pub fn from_map(map: NameMap<Attribute>) -> (r: Self)
        ensures
            r.entries_spec() == map,
            r@ == map@,
            r.well_formed() == map.well_formed(),
    {
        AttributeMap { map }
    }

    /// The attribute named `name`, where there is one.
    pub fn get(&self, name: &Name) -> (r: Option<&Attribute>)
        requires
            self.well_formed(),
        ensures
            match r {
                Some(a) => self@.contains_key(name@) && a@ == self@[name@] && a.well_formed(),
                None => !self@.contains_key(name@),
            },
    {
        let r = self.map.get(name);
        proof {
            if self@.contains_key(name@) {
                self.map.lemma_key_in_entries(name@);
                assert(self.map.value(self.map.index_of(name@)).well_formed());
            }
        }
        r
    }

    /// Store an attribute under its own name, replacing one of that name.
    pub fn insert(&mut self, attribute: Attribute)
        requires
            old(self).well_formed(),
            attribute.well_formed(),
        ensures
            final(self).well_formed(),
            final(self)@ == old(self)@.insert(attribute@.name, attribute@),
    {
        let key = attribute.name().duplicate();
        let _ = self.map.insert(key, attribute);
    }

    /// The entries, in order.
    pub fn entries(&self) -> (r: &NameMap<Attribute>)
        ensures
            *r == self.entries_spec(),
    {
        &self.map
    }

    /// Mutable access to the entries.
    pub fn entries_mut(&mut self) -> (r: &mut NameMap<Attribute>)
        ensures
            *r == old(self).entries_spec(),
            final(self).entries_spec() == *final(r),
    {
        &mut self.map
    }
}

/// A link from an attribute of a scene object to an attribute of a device.
#[derive(Clone, Debug)]
pub struct AttributeLink {
    device_id: DeviceId,
    device_attr: Name,
    attribute: Name,
}

/// Model of an attribute link.
pub struct AttributeLinkView {
    pub device: u32,
    pub device_attr: Seq<char>,
    pub attribute: Seq<char>,
}

impl View for AttributeLink {
    type V = AttributeLinkView;

    closed spec fn view(&self) -> AttributeLinkView {
        AttributeLinkView {
            device: self.device_id.id(),
            device_attr: self.device_attr@,
            attribute: self.attribute@,
        }
    }
}

impl Duplicate for AttributeLink {
    open spec fn well_formed(&self) -> bool {
        true
    }

    fn duplicate(&self) -> (r: Self) {
        AttributeLink {
            device_id: self.device_id.duplicate(),
            device_attr: self.device_attr.duplicate(),
            attribute: self.attribute.duplicate(),
        }
    }
}

impl AttributeLink {
    /// Link `attribute` to the attribute `device_attr` of a device.
    pub fn new(device_id: DeviceId, device_attr: Name, attribute: Name) -> (r: Self)
        ensures
            r@ == (AttributeLinkView {
                device: device_id.id(),
                device_attr: device_attr@,
                attribute: attribute@,
            }),
    {
        AttributeLink { device_id, device_attr, attribute }
    }

    /// Link `attribute` to the device attribute of the same name.
    pub fn mapped(device_id: DeviceId, attribute: Name) -> (r: Self)
        ensures
            r@ == (AttributeLinkView {
                device: device_id.id(),
                device_attr: attribute@,
                attribute: attribute@,
            }),
    {
        let device_attr = attribute.duplicate();
        AttributeLink { device_id, device_attr, attribute }
    }

    /// The device.
    pub fn device(&self) -> (r: &DeviceId)
        ensures
            r.id() == self@.device,
    {
        &self.device_id
    }

    /// The attribute of the device.
    pub fn device_attr(&self) -> (r: &Name)
        ensures
            r@ == self@.device_attr,
    {
        &self.device_attr
    }

    /// The attribute of the scene object.
    pub fn attribute(&self) -> (r: Name)
        ensures
            r@ == self@.attribute,
    {
        self.attribute.duplicate()
    }
}

/// The attribute links of a scene object, by attribute name.
#[derive(Clone, Debug)]
pub struct AttributeLinkMap {
    map: NameMap<AttributeLink>,
}

impl View for AttributeLinkMap {
    type V = Map<Seq<char>, AttributeLinkView>;

    closed spec fn view(&self) -> Map<Seq<char>, AttributeLinkView> {
        self.map@
    }
}

impl Duplicate for AttributeLinkMap {
    closed spec fn well_formed(&self) -> bool {
        self.map.well_formed()
    }

    fn duplicate(&self) -> (r: Self) {
        AttributeLinkMap { map: self.map.copy() }
    }
}

impl AttributeLinkMap {
    pub closed spec fn entries_spec(self) -> NameMap<AttributeLink> {
        self.map
    }

    pub proof fn lemma_view(self)
        ensures
            self@ == self.entries_spec()@,
            self.well_formed() == self.entries_spec().well_formed(),
    {
    }

    /// No links.
    pub fn new() -> (r: Self)
        ensures
            r.well_formed(),
            r@ == Map::<Seq<char>, AttributeLinkView>::empty(),
    {
        AttributeLinkMap { map: NameMap::new() }
    }

    /// The links held in a name map.
    pub fn from_map(map: NameMap<AttributeLink>) -> (r: Self)
        ensures
            r.entries_spec() == map,
            r@ == map@,
            r.well_formed() == map.well_formed(),
    {
        AttributeLinkMap { map }
    }

    /// The entries, in order.
    pub fn entries(&self) -> (r: &NameMap<AttributeLink>)
        ensures
            *r == self.entries_spec(),
    {
        &self.map
    }
}

/// A value sampled for the attribute `name` of a device.
#[derive(Debug, Clone)]
pub struct AttributeSample {
    pub name: Name,
    pub value: AttributeValue,
}

impl AttributeSample {
    /// A sample of `value` for the attribute `name`.
    pub fn new(name: Name, value: AttributeValue) -> (r: Self)
        ensures
            r.name@ == name@,
            r.value == value,
    {
        AttributeSample { name, value }
    }
}

} // verus!
