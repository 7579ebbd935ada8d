use vstd::prelude::*;

use super::property::{Property, PropertyView};
use crate::name::Name;
use crate::name_map::{Duplicate, NameMap};

verus! {

/// Represents a controller in the system.
///
/// A controller is a source of motion in the system. It can be used to
/// control the motion of a scene object by binding a property to a controller
/// property.
#[derive(Debug, Clone)]
pub struct Controller {
    /// The unique identifier of the controller.
    pub uid: u32,
    /// The name of the controller used for users.
    pub name: Name,
    /// The properties of the controller that hold motion state.
    pub properties: NameMap<Property>,
}

/// Model of a controller.
pub struct ControllerView {
    pub uid: u32,
    pub name: Seq<char>,
    pub properties: Map<Seq<char>, PropertyView>,
}

impl View for Controller {
    type V = ControllerView;

    open spec fn view(&self) -> ControllerView {
        ControllerView { uid: self.uid, name: self.name@, properties: self.properties@ }
    }
}

impl Duplicate for Controller {
    open spec fn well_formed(&self) -> bool {
        self.properties.well_formed()
    }

    fn duplicate(&self) -> (r: Self) {
        Controller { uid: self.uid, name: self.name.duplicate(), properties: self.properties.copy() }
    }
}

} // verus!
