use vstd::prelude::*;

use super::value::Value;
use crate::name_map::{Duplicate, NameMap};

verus! {

/// A set of property values sent by a controller at one instant.
#[derive(Debug, Clone)]
pub struct Sample {
    properties: NameMap<Value>,
}

impl View for Sample {
    type V = Map<Seq<char>, Value>;

    closed spec fn view(&self) -> Map<Seq<char>, Value> {
        self.properties@
    }
}

impl Sample {
    /// The map of property values is well formed.
    pub closed spec fn wf(self) -> bool {
        self.properties.well_formed()
    }

    /// A sample with the given property values.
    pub fn new(properties: NameMap<Value>) -> (r: Self)
        requires
            properties.well_formed(),
        ensures
            r.wf(),
            r@ == properties@,
            r.properties_spec() == properties,
    {
        Sample { properties }
    }

    /// A sample with no property values.
    pub fn empty() -> (r: Self)
        ensures
            r.wf(),
            r@ == Map::<Seq<char>, Value>::empty(),
    {
        Sample { properties: NameMap::new() }
    }

    pub closed spec fn properties_spec(self) -> NameMap<Value> {
        self.properties
    }

    /// The property values.
    pub fn properties(&self) -> (r: &NameMap<Value>)
        ensures
            *r == self.properties_spec(),
            r@ == self@,
            self.wf() ==> r.well_formed(),
    {
        &self.properties
    }
}

} // verus!
