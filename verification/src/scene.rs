use vstd::prelude::*;

use crate::data::property::{PropertyLink, PropertyLinkView};
use crate::name::Name;
use crate::name_map::{Duplicate, NameMap};

verus! {

/// An object of the scene: a name and the links of its properties.
#[derive(Debug, Clone)]
pub struct SceneObject {
    name: Name,
    properties: NameMap<PropertyLink>,
}

/// Model of a scene object.
pub struct SceneObjectView {
    pub name: Seq<char>,
    pub properties: Map<Seq<char>, PropertyLinkView>,
}

impl View for SceneObject {
    type V = SceneObjectView;

    closed spec fn view(&self) -> SceneObjectView {
        SceneObjectView { name: self.name@, properties: self.properties@ }
    }
}

impl Duplicate for SceneObject {
    closed spec fn well_formed(&self) -> bool {
        self.properties.well_formed()
    }

    fn duplicate(&self) -> (r: Self) {
        SceneObject { name: self.name.duplicate(), properties: self.properties.copy() }
    }
}

impl SceneObject {
    pub closed spec fn properties_spec(self) -> NameMap<PropertyLink> {
        self.properties
    }

    pub closed spec fn name_spec(self) -> Name {
        self.name
    }

    /// A scene object with the given property links.
    pub fn new(name: Name, properties: NameMap<PropertyLink>) -> (r: Self)
        requires
            properties.well_formed(),
        ensures
            r.well_formed(),
            r@ == (SceneObjectView { name: name@, properties: properties@ }),
    {
        SceneObject { name, properties }
    }

    /// The name of the object.
    pub fn name(&self) -> (r: &Name)
        ensures
            r@ == self@.name,
            *r == self.name_spec(),
    {
        &self.name
    }

    /// The property links of the object.
    pub fn properties(&self) -> (r: &NameMap<PropertyLink>)
        ensures
            r@ == self@.properties,
            *r == self.properties_spec(),
            self.well_formed() == r.well_formed(),
    {
        &self.properties
    }

    /// Mutable access to the property links; the name stays as it is.
    pub fn properties_mut(&mut self) -> (r: &mut NameMap<PropertyLink>)
        ensures
            *r == old(self).properties_spec(),
            final(self).name_spec() == old(self).name_spec(),
            final(self).properties_spec() == *final(r),
    {
        &mut self.properties
    }

    pub proof fn lemma_view(self)
        ensures
            self@ == (SceneObjectView { name: self.name_spec()@, properties: self.properties_spec()@ }),
            self.well_formed() == self.properties_spec().well_formed(),
    {
    }
}

/// The scene: the objects, by name.
#[derive(Debug, Clone)]
pub struct Scene {
    objects: NameMap<SceneObject>,
}

impl View for Scene {
    type V = Map<Seq<char>, SceneObjectView>;

    closed spec fn view(&self) -> Map<Seq<char>, SceneObjectView> {
        self.objects@
    }
}

impl Duplicate for Scene {
    closed spec fn well_formed(&self) -> bool {
        self.objects.well_formed()
    }

    fn duplicate(&self) -> (r: Self) {
        Scene { objects: self.objects.copy() }
    }
}

impl Scene {
    pub closed spec fn objects_spec(self) -> NameMap<SceneObject> {
        self.objects
    }

    /// An empty scene.
    pub fn new() -> (r: Self)
        ensures
            r.well_formed(),
            r@ == Map::<Seq<char>, SceneObjectView>::empty(),
    {
        Scene { objects: NameMap::new() }
    }

    /// The objects of the scene.
    pub fn objects(&self) -> (r: &NameMap<SceneObject>)
        ensures
            r@ == self@,
            *r == self.objects_spec(),
            self.well_formed() == r.well_formed(),
    {
        &self.objects
    }

    /// Mutable access to the objects of the scene.
    pub fn objects_mut(&mut self) -> (r: &mut NameMap<SceneObject>)
        ensures
            *r == old(self).objects_spec(),
            final(self).objects_spec() == *final(r),
    {
        &mut self.objects
    }

    pub proof fn lemma_view(self)
        ensures
            self@ == self.objects_spec()@,
            self.well_formed() == self.objects_spec().well_formed(),
    {
    }
}

impl Default for Scene {
    fn default() -> (r: Self)
        ensures
            r.well_formed(),
            r@ == Map::<Seq<char>, SceneObjectView>::empty(),
    {
        Scene::new()
    }
}

} // verus!
