use vstd::prelude::*;

use super::attributes::{
    attribute_updated, same_kind, Attribute, AttributeLink, AttributeLinkMap, AttributeLinkView,
    AttributeMap, AttributeValue, AttributeView,
};
use super::commands::{object_exists_reason, reason_text, CommandError, CommandReply, CommandResult};
use super::devices::{attrs_of, devices_complete, is_device, with_attributes};
use super::error::{Error, Result};
use super::world::{
    alive, can_spawn, despawned, raw_alive, spawn_index, spawned, Entity, EntityView, World, WorldView,
};
use crate::name::Name;
use crate::name_map::{Duplicate, NameMap};

verus! {

/// A scene object as it is handed to the world: a name, attributes, and
/// links from attributes to device attributes.
#[derive(Clone, Debug)]
pub struct SceneObject {
    pub name: Name,
    pub attributes: NameMap<Attribute>,
    pub links: NameMap<AttributeLink>,
}

impl SceneObject {
    /// Both maps are well formed.
    pub open spec fn wf(self) -> bool {
        self.attributes.well_formed() && self.links.well_formed()
    }

    /// An object with no attributes and no links.
    pub fn new(name: Name) -> (r: Self)
        ensures
            r.wf(),
            r.name@ == name@,
            r.attributes@ == Map::<Seq<char>, AttributeView>::empty(),
            r.links@ == Map::<Seq<char>, AttributeLinkView>::empty(),
    {
        SceneObject { name, attributes: NameMap::new(), links: NameMap::new() }
    }

    /// Link one of the object's attributes to a device attribute; refused
    /// where the object has no attribute of that name.
    pub fn insert_link(&mut self, link: AttributeLink) -> (r: Result<()>)
        requires
            old(self).wf(),
        ensures
            final(self).wf(),
            final(self).name == old(self).name,
            final(self).attributes == old(self).attributes,
            if old(self).attributes@.contains_key(link@.attribute) {
                r is Ok && final(self).links@ == old(self).links@.insert(link@.attribute, link@)
            } else {
                (r matches Err(Error::NotFound(m)) && m@ == "no attribute "@ + link@.attribute
                    + " found on object."@) && final(self).links == old(self).links
            },
    {
        let key = link.attribute();
        if !self.attributes.contains_key(&key) {
            let m = reason_text("no attribute ", &key, " found on object.");
            return Err(Error::NotFound(m));
        }
        let _ = self.links.insert(key, link);
        Ok(())
    }

    /// Store an attribute under its own name.
    pub fn insert_attribute(&mut self, attribute: Attribute)
        requires
            old(self).wf(),
            attribute.well_formed(),
        ensures
            final(self).wf(),
            final(self).name == old(self).name,
            final(self).links == old(self).links,
            final(self).attributes@ == old(self).attributes@.insert(attribute@.name, attribute@),
    {
        let key = attribute.name().duplicate();
        let _ = self.attributes.insert(key, attribute);
    }
}

/// What can be asked of the scene objects.
pub enum Command {
    AddObject(SceneObject),
    UpdateObject(u32, SceneObject),
    RemoveObject(u32),
}

/// Marks an entity as a scene object.
#[derive(Debug)]
pub struct SceneObjectEntity;

/// Entity `i` is a live scene object.
pub open spec fn is_scene_object(w: WorldView, i: int) -> bool {
    alive(w, i) && w.entities[i].scene_marker
}

/// The id `i` names a live scene object: the object is in slot `i`, of the
/// slot's first generation.
pub open spec fn raw_object(w: WorldView, i: int) -> bool {
    raw_alive(w, i) && w.entities[i].scene_marker
}

/// Every live scene object has a name, attributes and links.
pub open spec fn scene_complete(w: WorldView) -> bool {
    forall|i: int|
        #![trigger w.entities[i]]
        is_scene_object(w, i) ==> w.entities[i].name is Some && w.entities[i].attributes is Some
            && w.entities[i].links is Some
}

/// Every link of every live scene object names one of the object's
/// attributes.
pub open spec fn links_resolve(w: WorldView) -> bool {
    forall|i: int, k: Seq<char>|
        #![trigger w.entities[i].links->0.contains_key(k)]
        is_scene_object(w, i) && w.entities[i].links->0.contains_key(k)
            ==> w.entities[i].attributes->0.contains_key(k)
}

/// In a world where every live scene object has its parts, entity `j`,
/// where it is a live scene object, has a name, attributes and links.
pub proof fn lemma_object_parts(w: WorldView, j: int)
    requires
        scene_complete(w),
    ensures
        is_scene_object(w, j) ==> w.entities[j].name is Some && w.entities[j].attributes is Some
            && w.entities[j].links is Some,
{
}

/// The entity that `add_scene_object` spawns.
pub open spec fn new_object_entity(o: SceneObject) -> EntityView {
    EntityView {
        alive: true,
        scene_marker: true,
        name: Some(o.name@),
        attributes: Some(o.attributes@),
        links: Some(o.links@),
        ..Entity::dead_view()
    }
}

/// Some live scene object has the name `n`.
pub open spec fn object_name_taken(w: WorldView, n: Seq<char>) -> bool {
    exists|i: int|
        #![trigger w.entities[i]]
        is_scene_object(w, i) && w.entities[i].name == Some(n)
}

/// A handle on a scene object entity of the world.
pub struct SceneObjectEntityRef {
    entity: u32,
}

impl SceneObjectEntityRef {
    pub closed spec fn index(self) -> u32 {
        self.entity
    }

    /// The handle points at a live scene object with all its parts.
    pub open spec fn valid(self, w: WorldView) -> bool {
        &&& is_scene_object(w, self.index() as int)
        &&& w.entities[self.index() as int].name is Some
        &&& w.entities[self.index() as int].attributes is Some
        &&& w.entities[self.index() as int].links is Some
    }

    /// The entity index of the object.
    pub fn id(&self) -> (r: u32)
        ensures
            r == self.index(),
    {
        self.entity
    }

    /// The name of the object.
    pub fn name(&self, world: &World) -> (r: Name)
        requires
            self.valid(world@),
        ensures
            Some(r@) == world@.entities[self.index() as int].name,
    {
        world.entity(self.entity as usize).name.as_ref().unwrap().duplicate()
    }

    /// Rename the object.
    pub fn set_name(&self, world: &mut World, name: Name)
        requires
            alive(old(world)@, self.index() as int),
            old(world).well_formed(),
        ensures
            final(world).well_formed(),
            final(world)@ == (WorldView {
                entities: old(world)@.entities.update(
                    self.index() as int,
                    EntityView { name: Some(name@), ..old(world)@.entities[self.index() as int] },
                ),
                ..old(world)@
            }),
    {
        proof {
            old(world).lemma_entity(self.entity as int);
        }
        let e = world.entity_mut(self.entity as usize);
        e.name = Some(name);
    }

    /// The attributes of the object.
    pub fn attributes<'w>(&self, world: &'w World) -> (r: &'w AttributeMap)
        requires
            self.valid(world@),
            world.well_formed(),
        ensures
            Some(r@) == world@.entities[self.index() as int].attributes,
            r.well_formed(),
    {
        proof {
            world.lemma_entity(self.entity as int);
        }
        world.entity(self.entity as usize).attributes.as_ref().unwrap()
    }

    /// The attribute named `name`, where there is one.
    pub fn attribute<'w>(&self, world: &'w World, name: &Name) -> (r: Option<&'w Attribute>)
        requires
            self.valid(world@),
            world.well_formed(),
        ensures
            match r {
                Some(a) => attrs_of(world@, self.index() as int).contains_key(name@) && a@
                    == attrs_of(world@, self.index() as int)[name@],
                None => !attrs_of(world@, self.index() as int).contains_key(name@),
            },
    {
        self.attributes(world).get(name)
    }

    /// Replace the attributes of the object.
    pub fn set_attributes(&self, world: &mut World, attributes: AttributeMap)
        requires
            alive(old(world)@, self.index() as int),
            old(world).well_formed(),
            attributes.well_formed(),
        ensures
            final(world).well_formed(),
            final(world)@ == with_attributes(old(world)@, self.index() as int, attributes@),
    {
        proof {
            old(world).lemma_entity(self.entity as int);
        }
        let e = world.entity_mut(self.entity as usize);
        e.attributes = Some(attributes);
    }

    /// The links of the object.
    pub fn links<'w>(&self, world: &'w World) -> (r: &'w AttributeLinkMap)
        requires
            self.valid(world@),
            world.well_formed(),
        ensures
            Some(r@) == world@.entities[self.index() as int].links,
            r.well_formed(),
            Some(*r) == world.entity_spec(self.index() as int).links,
    {
        proof {
            world.lemma_entity(self.entity as int);
        }
        world.entity(self.entity as usize).links.as_ref().unwrap()
    }

    /// Replace the links of the object.
    pub fn set_links(&self, world: &mut World, links: AttributeLinkMap)
        requires
            alive(old(world)@, self.index() as int),
            old(world).well_formed(),
            links.well_formed(),
        ensures
            final(world).well_formed(),
            final(world)@ == (WorldView {
                entities: old(world)@.entities.update(
                    self.index() as int,
                    EntityView { links: Some(links@), ..old(world)@.entities[self.index() as int] },
                ),
                ..old(world)@
            }),
    {
        proof {
            old(world).lemma_entity(self.entity as int);
        }
        let e = world.entity_mut(self.entity as usize);
        e.links = Some(links);
    }
}

/// A handle on the scene object that `id` names, where it is a live one.
pub fn get_by_id(world: &World, id: u32) -> (r: Option<SceneObjectEntityRef>)
    ensures
        match r {
            Some(o) => o.index() == id && raw_object(world@, id as int),
            None => !raw_object(world@, id as int),
        },
{
    let i = id as usize;
    if i < world.len() {
        let e = world.entity(i);
        if e.alive && e.generation == 0 && e.scene_marker {
            return Some(SceneObjectEntityRef { entity: id });
        }
    }
    None
}

/// Handles on every live scene object, by increasing entity index.
pub fn get_all(world: &World) -> (r: Vec<SceneObjectEntityRef>)
    requires
        world.well_formed(),
    ensures
        forall|a: int| 0 <= a < r@.len() ==> #[trigger] is_scene_object(world@, r@[a].index() as int),
        forall|a: int, b: int|
            0 <= a < b < r@.len() ==> #[trigger] r@[a].index() < #[trigger] r@[b].index(),
        forall|i: int|
            #![trigger world@.entities[i]]
            is_scene_object(world@, i) ==> exists|a: int| 0 <= a < r@.len() && r@[a].index() == i,
{
    let mut out: Vec<SceneObjectEntityRef> = Vec::new();
    proof {
        world.lemma_len();
    }
    let n = world.len();
    let mut i: usize = 0;
    while i < n
        invariant
            n == world@.entities.len(),
            n <= u32::MAX,
            i <= n,
            forall|a: int| 0 <= a < out@.len() ==> #[trigger] is_scene_object(world@, out@[a].index() as int),
            forall|a: int| 0 <= a < out@.len() ==> #[trigger] out@[a].index() < i,
            forall|a: int, b: int|
                0 <= a < b < out@.len() ==> #[trigger] out@[a].index() < #[trigger] out@[b].index(),
            forall|j: int|
                #![trigger world@.entities[j]]
                0 <= j < i && is_scene_object(world@, j) ==> exists|a: int|
                    0 <= a < out@.len() && out@[a].index() == j,
        decreases n - i,
    {
        let ghost old_out = out@;
        let e = world.entity(i);
        if e.alive && e.scene_marker {
            out.push(SceneObjectEntityRef { entity: i as u32 });
        }
        proof {
            assert forall|j: int|
                #![trigger world@.entities[j]]
                0 <= j < i + 1 && is_scene_object(world@, j) implies exists|a: int|
                    0 <= a < out@.len() && out@[a].index() == j by {
                if j < i {
                    let a = choose|a: int| 0 <= a < old_out.len() && old_out[a].index() == j;
                    assert(out@[a] == old_out[a]);
                } else {
                    assert(out@[out@.len() - 1].index() == j);
                }
            }
        }
        i = i + 1;
    }
    out
}

/// Spawn a scene object entity and return its index.
pub fn add_scene_object(world: &mut World, object: SceneObject) -> (r: u32)
    requires
        old(world).well_formed(),
        can_spawn(old(world)@),
        object.wf(),
    ensures
        final(world).well_formed(),
        r == spawn_index(old(world)@),
        final(world)@ == spawned(old(world)@, new_object_entity(object)),
{
    let mut e = Entity::empty();
    e.scene_marker = true;
    e.name = Some(object.name);
    e.attributes = Some(AttributeMap::from_map(object.attributes));
    e.links = Some(AttributeLinkMap::from_map(object.links));
    world.spawn(e)
}

/// Replace the name, attributes and links of a live scene object; `None`
/// where entity `id` is not one.
pub fn set_scene_object(world: &mut World, id: u32, object: SceneObject) -> (r: Option<u32>)
    requires
        old(world).well_formed(),
        object.wf(),
    ensures
        final(world).well_formed(),
        match r {
            Some(i) => i == id && raw_object(old(world)@, id as int) && final(world)@
                == (WorldView {
                entities: old(world)@.entities.update(
                    id as int,
                    EntityView {
                        name: Some(object.name@),
                        attributes: Some(object.attributes@),
                        links: Some(object.links@),
                        ..old(world)@.entities[id as int]
                    },
                ),
                ..old(world)@
            }),
            None => !raw_object(old(world)@, id as int) && final(world)@ == old(world)@,
        },
{
    let object_ref = match get_by_id(world, id) {
        Some(o) => o,
        None => {
            return None;
        },
    };
    object_ref.set_name(world, object.name);
    object_ref.set_attributes(world, AttributeMap::from_map(object.attributes));
    object_ref.set_links(world, AttributeLinkMap::from_map(object.links));
    Some(object_ref.id())
}

/// Despawn the scene object that `id` names; `None` where it names no
/// live one.
pub fn remove_scene_object_by_id(world: &mut World, id: u32) -> (r: Option<u32>)
    requires
        old(world).well_formed(),
    ensures
        final(world).well_formed(),
        match r {
            Some(i) => i == id && raw_object(old(world)@, id as int) && final(world)@
                == despawned(old(world)@, id as int),
            None => !raw_object(old(world)@, id as int) && final(world)@ == old(world)@,
        },
{
    let i = id as usize;
    if i >= world.len() || !world.entity(i).scene_marker {
        return None;
    }
    if world.despawn(id) {
        Some(id)
    } else {
        None
    }
}

/// Whether a live scene object has the name `name`.
pub fn find_object_name(world: &World, name: &Name) -> (r: bool)
    ensures
        r == object_name_taken(world@, name@),
{
    let n = world.len();
    let mut i: usize = 0;
    while i < n
        invariant
            n == world@.entities.len(),
            i <= n,
            forall|j: int|
                #![trigger world@.entities[j]]
                0 <= j < i ==> !(is_scene_object(world@, j) && world@.entities[j].name == Some(name@)),
        decreases n - i,
    {
        let e = world.entity(i);
        if e.alive && e.scene_marker {
            match &e.name {
                Some(en) => {
                    if en.equals(name) {
                        return true;
                    }
                },
                None => {},
            }
        }
        i = i + 1;
    }
    false
}

/// The scene the world starts with: one object named `default` with an
/// identity `transform` matrix.
pub fn init(world: &mut World)
    requires
        old(world).well_formed(),
        can_spawn(old(world)@),
    ensures
        final(world).well_formed(),
        final(world)@ == spawned(old(world)@, final(world)@.entities[spawn_index(old(world)@)]),
        ({
            let e = final(world)@.entities[spawn_index(old(world)@)];
            &&& e.alive && e.scene_marker && !e.device_marker
            &&& e.name == Some("default"@)
            &&& e.links == Some(Map::<Seq<char>, AttributeLinkView>::empty())
            &&& e.attributes is Some
            &&& e.attributes->0.dom() == set!["transform"@]
            &&& e.attributes->0["transform"@].name == "transform"@
            &&& e.attributes->0["transform"@].value == e.attributes->0["transform"@].default_value
            &&& (e.attributes->0["transform"@].value matches AttributeValue::Matrix44(m)
                && m.elements() == super::attributes::Matrix44::identity_elements())
        }),
{
    let mut object = SceneObject::new(Name::new("default"));
    object.insert_attribute(Attribute::new_matrix44(Name::new("transform")));
    proof {
        assert(object.attributes@.dom() =~= set!["transform"@]);
        world.lemma_free();
    }
    let ghost pre = world@;
    let ghost o = new_object_entity(object);
    let _ = add_scene_object(world, object);
    proof {
        let i = spawn_index(pre);
        if pre.free.len() > 0 {
            assert(pre.free[pre.free.len() - 1] < pre.entities.len());
            assert(world@.entities[i] == EntityView { alive: true, generation: pre.entities[i].generation, ..o });
        } else {
            assert(world@.entities[i] == EntityView { alive: true, generation: 0, ..o });
        }
        assert(spawned(pre, world@.entities[i]) == spawned(pre, o));
    }
}

/// Handle a scene command.
pub fn procces(world: &mut World, command: Command) -> (r: CommandResult)
    requires
        old(world).well_formed(),
        match command {
            Command::AddObject(o) => o.wf() && can_spawn(old(world)@),
            Command::UpdateObject(_, o) => o.wf(),
            Command::RemoveObject(_) => true,
        },
    ensures
        final(world).well_formed(),
        match command {
            Command::AddObject(o) => if object_name_taken(old(world)@, o.name@) {
                final(world)@ == old(world)@ && (r matches Err(CommandError::Failed { reason })
                    && reason@ == object_exists_reason(o.name@))
            } else {
                final(world)@ == spawned(old(world)@, new_object_entity(o)) && r == Ok::<
                    Option<CommandReply>,
                    CommandError,
                >(Some(CommandReply::EntityId(spawn_index(old(world)@) as u32)))
            },
            Command::UpdateObject(id, o) => if raw_object(old(world)@, id as int) {
                final(world)@ == (WorldView {
                    entities: old(world)@.entities.update(
                        id as int,
                        EntityView {
                            name: Some(o.name@),
                            attributes: Some(o.attributes@),
                            links: Some(o.links@),
                            ..old(world)@.entities[id as int]
                        },
                    ),
                    ..old(world)@
                }) && r == Ok::<Option<CommandReply>, CommandError>(
                    Some(CommandReply::EntityId(id)),
                )
            } else {
                final(world)@ == old(world)@ && r == Err::<Option<CommandReply>, CommandError>(
                    CommandError::NotFound,
                )
            },
            Command::RemoveObject(id) => if raw_object(old(world)@, id as int) {
                final(world)@ == despawned(old(world)@, id as int) && r == Ok::<Option<CommandReply>, CommandError>(
                    Some(CommandReply::EntityId(id)),
                )
            } else {
                final(world)@ == old(world)@ && r == Err::<Option<CommandReply>, CommandError>(
                    CommandError::NotFound,
                )
            },
        },
{
    match command {
        Command::AddObject(object) => {
            if find_object_name(world, &object.name) {
                let reason = reason_text("object with name '", &object.name, "' already exists.");
                return Err(CommandError::Failed { reason });
            }
            let id = add_scene_object(world, object);
            Ok(Some(CommandReply::EntityId(id)))
        },
        Command::UpdateObject(id, object) => match set_scene_object(world, id, object) {
            Some(id) => Ok(Some(CommandReply::EntityId(id))),
            None => Err(CommandError::NotFound),
        },
        Command::RemoveObject(id) => match remove_scene_object_by_id(world, id) {
            Some(id) => Ok(Some(CommandReply::EntityId(id))),
            None => Err(CommandError::NotFound),
        },
    }
}

} // verus!

verus! {

/// The value a link reads: the named attribute of the live device that its
/// device id names, where there is one.
pub open spec fn read_link(w: WorldView, l: AttributeLinkView) -> Option<AttributeValue> {
    if super::devices::raw_device(w, l.device as int) && w.entities[l.device as int].attributes is Some
        && w.entities[l.device as int].attributes->0.contains_key(l.device_attr) {
        Some(w.entities[l.device as int].attributes->0[l.device_attr].value)
    } else {
        None
    }
}

/// One step of the scene update: the attribute `s.1` of object `s.0` takes
/// the value that link `s.2` reads. The flag says whether the step
/// succeeded: it fails where the link reads nothing or the value is of
/// another kind than the attribute.
pub open spec fn link_step(
    w: WorldView,
    s: (int, Seq<char>, AttributeLinkView),
) -> (WorldView, bool) {
    match read_link(w, s.2) {
        None => (w, false),
        Some(v) => {
            let a = attrs_of(w, s.0);
            (
                with_attributes(w, s.0, a.insert(s.1, attribute_updated(a[s.1], v))),
                same_kind(a[s.1].value, v),
            )
        },
    }
}

/// The steps run in order, stopping at the first that fails.
pub open spec fn run_links(
    w: WorldView,
    steps: Seq<(int, Seq<char>, AttributeLinkView)>,
) -> (WorldView, bool)
    decreases steps.len(),
{
    if steps.len() == 0 {
        (w, true)
    } else {
        let p = run_links(w, steps.drop_last());
        if !p.1 {
            p
        } else {
            link_step(p.0, steps.last())
        }
    }
}

/// The run stopped at a step whose link read nothing (rather than at one
/// whose value was of another kind).
pub open spec fn link_read_failed(
    w: WorldView,
    steps: Seq<(int, Seq<char>, AttributeLinkView)>,
) -> bool
    decreases steps.len(),
{
    if steps.len() == 0 {
        false
    } else {
        let p = run_links(w, steps.drop_last());
        if !p.1 {
            link_read_failed(w, steps.drop_last())
        } else {
            read_link(p.0, steps.last().2) is None
        }
    }
}

/// The links of entity `i`, in their order, where it is a live scene
/// object.
pub open spec fn object_links(world: World, i: int) -> Seq<(int, Seq<char>, AttributeLinkView)> {
    let e = world.entity_spec(i);
    if e.alive && e.scene_marker && e.links is Some {
        let m = e.links->0.entries_spec();
        Seq::new(m.spec_len(), |j: int| (i, m.key(j), m.value(j)@))
    } else {
        Seq::empty()
    }
}

/// The links of the entities below `n`, object after object.
pub open spec fn links_upto(world: World, n: int) -> Seq<(int, Seq<char>, AttributeLinkView)>
    decreases n,
{
    if n <= 0 {
        Seq::empty()
    } else {
        links_upto(world, n - 1) + object_links(world, n - 1)
    }
}

/// Once a step has failed, the steps after it change nothing.
pub proof fn lemma_run_stops(
    w: WorldView,
    s1: Seq<(int, Seq<char>, AttributeLinkView)>,
    s2: Seq<(int, Seq<char>, AttributeLinkView)>,
)
    requires
        !run_links(w, s1).1,
    ensures
        run_links(w, s1 + s2) == run_links(w, s1),
        link_read_failed(w, s1 + s2) == link_read_failed(w, s1),
    decreases s2.len(),
{
    if s2.len() == 0 {
        assert(s1 + s2 =~= s1);
    } else {
        lemma_run_stops(w, s1, s2.drop_last());
        assert((s1 + s2).drop_last() =~= s1 + s2.drop_last());
    }
}

/// Two worlds that agree on which entities are live scene objects and on
/// their links give the same link steps.
pub open spec fn same_links(a: World, b: World) -> bool {
    &&& a@.entities.len() == b@.entities.len()
    &&& forall|k: int|
        0 <= k < a@.entities.len() ==> (#[trigger] a.entity_spec(k)).links == b.entity_spec(k).links
            && a.entity_spec(k).alive == b.entity_spec(k).alive && a.entity_spec(k).scene_marker
            == b.entity_spec(k).scene_marker
}

pub proof fn lemma_links_upto_same(a: World, b: World, n: int)
    requires
        same_links(a, b),
        n <= a@.entities.len(),
    ensures
        links_upto(a, n) == links_upto(b, n),
    decreases n,
{
    if n > 0 {
        lemma_links_upto_same(a, b, n - 1);
        assert(object_links(a, n - 1) == object_links(b, n - 1));
    }
}

/// The name map of the links of a live scene object.
fn link_entries_of(world: &World, i: usize) -> (r: NameMap<AttributeLink>)
    requires
        world.well_formed(),
        i < world@.entities.len(),
        world.entity_spec(i as int).links is Some,
    ensures
        r.well_formed(),
        r.spec_len() == world.entity_spec(i as int).links->0.entries_spec().spec_len(),
        forall|j: int|
            0 <= j < r.spec_len() ==> #[trigger] r.key(j) == world.entity_spec(
                i as int,
            ).links->0.entries_spec().key(j) && r.value(j)@ == world.entity_spec(
                i as int,
            ).links->0.entries_spec().value(j)@,
{
    proof {
        world.lemma_entity(i as int);
    }
    let e = world.entity(i);
    let lm = e.links.as_ref().unwrap();
    proof {
        lm.lemma_view();
    }
    let m = lm.entries();
    let r = m.copy();
    proof {
        assert forall|j: int| 0 <= j < r.spec_len() implies #[trigger] r.key(j) == m.key(j)
            && r.value(j)@ == m.value(j)@ by {
            m.lemma_index_of(j);
            r.lemma_index_of(j);
        }
    }
    r
}

/// The value that a link reads; fails where the device or its attribute is
/// missing.
pub fn read_link_value(world: &World, link: &AttributeLink) -> (r: Result<AttributeValue>)
    requires
        world.well_formed(),
        devices_complete(world@),
    ensures
        match read_link(world@, link@) {
            Some(v) => r == Ok::<AttributeValue, Error>(v),
            None => r matches Err(Error::NotFound(m)) && if super::devices::raw_device(
                world@,
                link@.device as int,
            ) {
                m@ == "no device attribute '"@ + world@.entities[link@.device as int].name->0 + "."@
                    + link@.device_attr + "'"@
            } else {
                m@.len() >= 28 && m@.take(26) == "no device by id 'DeviceId("@ && m@.skip(
                    m@.len() - 2,
                ) == ")'"@
            },
        },
{
    let device = match super::devices::get_by_id(world, link.device()) {
        Some(d) => d,
        None => {
            let mut m = "no device by id 'DeviceId(".to_owned();
            let id = link.device().as_u32().to_string();
            let ghost head = m@;
            m.append(id.as_str());
            let ghost mid = m@;
            m.append(")'");
            proof {
                reveal_strlit("no device by id 'DeviceId(");
                reveal_strlit(")'");
                assert(head.len() == 26);
                assert(m@ == mid + ")'"@);
                assert(m@.take(26) =~= head);
                assert(m@.skip(m@.len() - 2) =~= ")'"@);
            }
            return Err(Error::NotFound(m));
        },
    };
    match device.attributes.get(link.device_attr()) {
        Some(attr) => Ok(attr.value()),
        None => {
            let mut m = "no device attribute '".to_owned();
            m.append(device.name.as_str());
            m.append(".");
            m.append(link.device_attr().as_str());
            m.append("'");
            Err(Error::NotFound(m))
        },
    }
}

impl SceneObjectEntityRef {
    /// Update the attribute `name` of the object with `value`; fails where
    /// the value is of another kind.
    pub fn update_attribute(&self, world: &mut World, name: &Name, value: AttributeValue) -> (r: Result<()>)
        requires
            self.valid(old(world)@),
            old(world).well_formed(),
            attrs_of(old(world)@, self.index() as int).contains_key(name@),
        ensures
            final(world).well_formed(),
            final(world)@ == with_attributes(
                old(world)@,
                self.index() as int,
                attrs_of(old(world)@, self.index() as int).insert(
                    name@,
                    attribute_updated(attrs_of(old(world)@, self.index() as int)[name@], value),
                ),
            ),
            r is Ok <==> same_kind(attrs_of(old(world)@, self.index() as int)[name@].value, value),
            r matches Err(e) ==> super::attributes::is_kind_mismatch(e),
            same_links(*old(world), *final(world)),
    {
        proof {
            old(world).lemma_entity(self.entity as int);
        }
        let e = world.entity_mut(self.entity as usize);
        let a = e.attributes.as_mut().unwrap();
        proof {
            a.lemma_view();
        }
        let ghost pa = *a;
        let entries = a.entries_mut();
        let i = entries.find(name).unwrap();
        proof {
            pa.entries_spec().lemma_index_of(i as int);
            assert(pa.entries_spec().value(i as int).well_formed());
        }
        let attr = entries.value_at_mut(i);
        let r = attr.update_value(value);
        proof {
            let pm = pa.entries_spec();
            pm.lemma_same_keys(*entries);
            assert forall|j: int| 0 <= j < entries.spec_len() implies #[trigger] entries.value(j).well_formed() by {
                if j != i {
                    assert(pm.value(j).well_formed());
                }
            }
            assert forall|k: Seq<char>| #[trigger] entries@.contains_key(k) implies entries@[k]
                == pm@.insert(name@, attribute_updated(pm@[name@], value))[k] by {
                pm.lemma_index_of(pm.index_of(k));
            }
            assert(entries@ =~= pm@.insert(name@, attribute_updated(pm@[name@], value)));
        }
        proof {
            a.lemma_view();
        }
        r
    }
}

/// Update every scene object from its links: object by object, link by
/// link, each linked attribute takes the value of the device attribute the
/// link points at. Stops at the first link whose device or device attribute
/// is missing, or whose value is of another kind, and returns its error;
/// the updates made before it stay.
pub fn update(world: &mut World) -> (r: Result<()>)
    requires
        old(world).well_formed(),
        devices_complete(old(world)@),
        scene_complete(old(world)@),
        links_resolve(old(world)@),
    ensures
        final(world).well_formed(),
        (final(world)@, r is Ok) == run_links(
            old(world)@,
            links_upto(*old(world), old(world)@.entities.len() as int),
        ),
        r matches Err(e) ==> if link_read_failed(
            old(world)@,
            links_upto(*old(world), old(world)@.entities.len() as int),
        ) {
            e is NotFound
        } else {
            super::attributes::is_kind_mismatch(e)
        },
{
    let ghost pw = *world;
    let n = world.len();
    let mut i: usize = 0;
    while i < n
        invariant
            n == pw@.entities.len(),
            i <= n,
            world.well_formed(),
            devices_complete(world@),
            scene_complete(world@),
            links_resolve(world@),
            same_links(pw, *world),
            world@.entities.len() == n,
            pw == *old(world),
            (world@, true) == run_links(pw@, links_upto(pw, i as int)),
        decreases n - i,
    {
        let e = world.entity(i);
        if e.alive && e.scene_marker {
            proof {
                lemma_object_parts(world@, i as int);
                world.lemma_entity(i as int);
                world.lemma_len();
                assert(pw.entity_spec(i as int).links == world.entity_spec(i as int).links);
            }
            let object = SceneObjectEntityRef { entity: i as u32 };
            let links = link_entries_of(world, i);
            let ghost base = links_upto(pw, i as int);
            let ghost obj = object_links(pw, i as int);
            let m = links.len();
            let mut j: usize = 0;
            while j < m
                invariant
                    n == pw@.entities.len(),
                    i < n,
                    m == links.spec_len(),
                    j <= m,
                    object.index() == i,
                    links.well_formed(),
                    world.well_formed(),
                    devices_complete(world@),
                    scene_complete(world@),
                    links_resolve(world@),
                    same_links(pw, *world),
                    world@.entities.len() == n,
                    obj == object_links(pw, i as int),
                    base == links_upto(pw, i as int),
                    pw == *old(world),
                    obj.len() == m,
                    forall|q: int| 0 <= q < m ==> #[trigger] obj[q] == (i as int, links.key(q), links.value(q)@),
                    object.valid(world@),
                    (world@, true) == run_links(pw@, base + obj.take(j as int)),
                decreases m - j,
            {
                let ghost before = world@;
                let name = links.key_at(j);
                let link = links.value_at(j);
                proof {
                    assert((base + obj.take(j as int + 1)).drop_last() =~= base + obj.take(j as int));
                    assert((base + obj.take(j as int + 1)).last() == obj[j as int]);
                    assert(pw.entity_spec(i as int).links == world.entity_spec(i as int).links);
                    world.lemma_entity(i as int);
                    let lm = world.entity_spec(i as int).links->0;
                    lm.lemma_view();
                    assert(obj[j as int] == (i as int, links.key(j as int), links.value(j as int)@));
                    lm.entries_spec().lemma_index_of(j as int);
                    assert(world@.entities[i as int].links->0.contains_key(name@));
                }
                let value = match read_link_value(world, link) {
                    Ok(v) => v,
                    Err(e) => {
                        proof {
                            lemma_run_stops(pw@, base + obj.take(j as int + 1), obj.skip(j as int + 1));
                            assert(base + obj.take(j as int + 1) + obj.skip(j as int + 1) =~= base + obj);
                            assert(links_upto(pw, i as int + 1) == base + obj);
                            lemma_full_after_object(pw, i as int, n as int, base + obj);
                        }
                        return Err(e);
                    },
                };
                let res = object.update_attribute(world, name, value);
                proof {
                    assert forall|q: int|
                        #![trigger world@.entities[q]]
                        super::devices::is_device(world@, q) implies world@.entities[q].name is Some
                            && world@.entities[q].attributes is Some by {
                        super::devices::lemma_device_parts(before, q);
                    }
                    assert forall|q: int|
                        #![trigger world@.entities[q]]
                        is_scene_object(world@, q) implies world@.entities[q].name is Some
                            && world@.entities[q].attributes is Some && world@.entities[q].links is Some by {
                        lemma_object_parts(before, q);
                    }
                    assert forall|q: int, k: Seq<char>|
                        #![trigger world@.entities[q].links->0.contains_key(k)]
                        is_scene_object(world@, q) && world@.entities[q].links->0.contains_key(k)
                            implies world@.entities[q].attributes->0.contains_key(k) by {
                        assert(before.entities[q].links->0.contains_key(k));
                    }
                    assert(same_links(pw, *world));
                }
                match res {
                    Ok(()) => {},
                    Err(e) => {
                        proof {
                            lemma_run_stops(pw@, base + obj.take(j as int + 1), obj.skip(j as int + 1));
                            assert(base + obj.take(j as int + 1) + obj.skip(j as int + 1) =~= base + obj);
                            assert(links_upto(pw, i as int + 1) == base + obj);
                            lemma_full_after_object(pw, i as int, n as int, base + obj);
                        }
                        return Err(e);
                    },
                }
                j = j + 1;
            }
            proof {
                assert(obj.take(m as int) =~= obj);
                assert(links_upto(pw, i as int + 1) == base + obj);
            }
        } else {
            proof {
                assert(object_links(pw, i as int) =~= Seq::empty());
                assert(links_upto(pw, i as int + 1) =~= links_upto(pw, i as int));
            }
        }
        i = i + 1;
    }
    proof {
        lemma_links_upto_same(pw, *old(world), n as int);
    }
    Ok(())
}

/// A failure while handling object `i` is the outcome of the whole update.
proof fn lemma_full_after_object(
    pw: World,
    i: int,
    n: int,
    upto: Seq<(int, Seq<char>, AttributeLinkView)>,
)
    requires
        0 <= i < n,
        upto == links_upto(pw, i + 1),
        !run_links(pw@, upto).1,
    ensures
        run_links(pw@, links_upto(pw, n)) == run_links(pw@, upto),
        link_read_failed(pw@, links_upto(pw, n)) == link_read_failed(pw@, upto),
    decreases n - i,
{
    if i + 1 < n {
        lemma_run_stops(pw@, upto, object_links(pw, i + 1));
        lemma_full_after_object(pw, i + 1, n, links_upto(pw, i + 2));
    }
}

} // verus!
