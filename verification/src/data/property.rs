use vstd::prelude::*;

use super::value::{is_kind_mismatch, same_kind, updated, Value};
use crate::error::Result;
use crate::name::Name;
use crate::name_map::Duplicate;

verus! {

impl Duplicate for Value {
    open spec fn well_formed(&self) -> bool {
        true
    }

    fn duplicate(&self) -> (r: Self) {
        *self
    }
}

/// Represents a property on a controller.
///
/// A property is the primary way to communicate motion from a controller.
/// When a controller is updated, the property value will be updated and the
/// default value will replace the current value when the motion state is
/// reset.
#[derive(Debug, Clone)]
pub struct Property {
    /// The name of the property.
    pub name: Name,
    /// The current value of the property.
    pub value: Value,
    /// The default value of the property to use when the motion state is reset.
    pub default_value: Value,
}

/// Model of a property.
pub struct PropertyView {
    pub name: Seq<char>,
    pub value: Value,
    pub default_value: Value,
}

impl View for Property {
    type V = PropertyView;

    open spec fn view(&self) -> PropertyView {
        PropertyView { name: self.name@, value: self.value, default_value: self.default_value }
    }
}

impl Duplicate for Property {
    open spec fn well_formed(&self) -> bool {
        true
    }

    fn duplicate(&self) -> (r: Self) {
        Property { name: self.name.duplicate(), value: self.value, default_value: self.default_value }
    }
}

/// The property after an update with `v`.
pub open spec fn property_updated(p: PropertyView, v: Value) -> PropertyView {
    PropertyView { value: updated(p.value, v), ..p }
}

/// The property after a reset to its default.
pub open spec fn property_reset(p: PropertyView) -> PropertyView {
    property_updated(p, p.default_value)
}

impl Property {
    /// A property whose value starts at its default.
    pub fn with_default_value(name: Name, default_value: Value) -> (r: Self)
        ensures
            r@ == (PropertyView { name: name@, value: default_value, default_value }),
    {
        Property { name, value: default_value, default_value }
    }

    /// Update the current value; refused when the kinds differ.
    pub fn update(&mut self, value: &Value) -> (r: Result<()>)
        ensures
            final(self)@ == property_updated(old(self)@, *value),
            r is Ok <==> same_kind(old(self).value, *value),
            r matches Err(e) ==> is_kind_mismatch(e),
    {
        self.value.update(value)
    }

    /// Put the default value back; refused when the kinds differ.
    pub fn reset(&mut self) -> (r: Result<()>)
        ensures
            final(self)@ == property_reset(old(self)@),
            r is Ok <==> same_kind(old(self).value, old(self).default_value),
            r matches Err(e) ==> is_kind_mismatch(e),
    {
        let d = self.default_value;
        self.value.update(&d)
    }
}

/// A helper struct for representing a property binding address.
#[derive(Debug, Clone)]
pub struct PropertyReference {
    /// The namespace of the controller that has the property.
    pub namespace: Name,
    /// The name of the property on the controller to use as reference for the
    /// property's value.
    pub property: Name,
}

/// Represents the property link for a specific property of a scene object.
///
/// The property link can either be unbound, meaning the property not attached
/// to a controller, or bound, meaning the property is attached to a
/// controller property.
#[derive(Debug, Clone)]
pub enum PropertyLink {
    /// An unbound property does not reference a controller property for updates.
    Unbound {
        /// The current value of the property.
        value: Value,
    },
    /// A bound property references a controller property for updates.
    Bound {
        /// The current value of the property.
        value: Value,
        /// The binding for the property to use.
        binding: PropertyReference,
    },
}

/// Model of a property link.
pub enum PropertyLinkView {
    Unbound { value: Value },
    Bound { value: Value, namespace: Seq<char>, property: Seq<char> },
}

impl PropertyLinkView {
    pub open spec fn value(self) -> Value {
        match self {
            PropertyLinkView::Unbound { value } => value,
            PropertyLinkView::Bound { value, .. } => value,
        }
    }
}

impl View for PropertyLink {
    type V = PropertyLinkView;

    open spec fn view(&self) -> PropertyLinkView {
        match self {
            PropertyLink::Unbound { value } => PropertyLinkView::Unbound { value: *value },
            PropertyLink::Bound { value, binding } => PropertyLinkView::Bound {
                value: *value,
                namespace: binding.namespace@,
                property: binding.property@,
            },
        }
    }
}

impl Duplicate for PropertyLink {
    open spec fn well_formed(&self) -> bool {
        true
    }

    fn duplicate(&self) -> (r: Self) {
        match self {
            PropertyLink::Unbound { value } => PropertyLink::Unbound { value: *value },
            PropertyLink::Bound { value, binding } => PropertyLink::Bound {
                value: *value,
                binding: PropertyReference {
                    namespace: binding.namespace.duplicate(),
                    property: binding.property.duplicate(),
                },
            },
        }
    }
}

impl PropertyLink {
    /// Create new property state bound to the given namespace and property.
    pub fn bind(namespace: Name, property: Name, value: Value) -> (r: Self)
        ensures
            r@ == (PropertyLinkView::Bound { value, namespace: namespace@, property: property@ }),
    {
        PropertyLink::Bound { value, binding: PropertyReference { namespace, property } }
    }

    /// Create a property state bound to no controller.
    pub fn unbound(value: Value) -> (r: Self)
        ensures
            r@ == (PropertyLinkView::Unbound { value }),
    {
        PropertyLink::Unbound { value }
    }

    /// Return the underlying value regardless of the state.
    pub fn value(&self) -> (r: &Value)
        ensures
            *r == self@.value(),
    {
        match self {
            PropertyLink::Unbound { value } => value,
            PropertyLink::Bound { value, .. } => value,
        }
    }

    /// Return whether the property is bound to a controller property.
    pub fn has_binding(&self) -> (r: bool)
        ensures
            r == (self@ is Bound),
    {
        match self {
            PropertyLink::Unbound { .. } => false,
            PropertyLink::Bound { .. } => true,
        }
    }
}

} // verus!
