use vstd::prelude::*;

use super::attributes::{Attribute, AttributeView};
use super::commands::{device_exists_reason, reason_text, CommandError, CommandReply, CommandResult};
use super::devices::DeviceId;
use super::world::{
    alive, can_spawn, despawned, raw_alive, spawn_index, spawned, Entity, EntityView, World, WorldView,
};
use crate::name::Name;
use crate::name_map::{Duplicate, NameMap};

verus! {

/// A device kept whole on its entity: its name and its attributes.
#[derive(Debug, Clone)]
pub struct Device {
    name: Name,
    attributes: NameMap<Attribute>,
}

/// Model of a device record.
pub struct DeviceView {
    pub name: Seq<char>,
    pub attributes: Map<Seq<char>, AttributeView>,
}

impl View for Device {
    type V = DeviceView;

    closed spec fn view(&self) -> DeviceView {
        DeviceView { name: self.name@, attributes: self.attributes@ }
    }
}

impl Duplicate for Device {
    closed spec fn well_formed(&self) -> bool {
        self.attributes.well_formed()
    }

    fn duplicate(&self) -> (r: Self) {
        Device { name: self.name.duplicate(), attributes: self.attributes.copy() }
    }
}

impl Device {
    /// A device with no attributes.
    pub fn new(name: Name) -> (r: Self)
        ensures
            r.well_formed(),
            r@ == (DeviceView { name: name@, attributes: Map::empty() }),
    {
        Device { name, attributes: NameMap::new() }
    }

    /// The name of the device.
    pub fn name(&self) -> (r: Name)
        ensures
            r@ == self@.name,
    {
        self.name.duplicate()
    }

    /// The attribute named `name`, where there is one.
    pub fn attribute(&self, name: &Name) -> (r: Option<&Attribute>)
        requires
            self.well_formed(),
        ensures
            match r {
                Some(a) => self@.attributes.contains_key(name@) && a@ == self@.attributes[name@],
                None => !self@.attributes.contains_key(name@),
            },
    {
        self.attributes.get(name)
    }

    /// The attributes.
    pub fn attributes(&self) -> (r: &NameMap<Attribute>)
        ensures
            r@ == self@.attributes,
            self.well_formed() ==> r.well_formed(),
    {
        &self.attributes
    }

    /// Store an attribute under its own name; returns the one it replaced.
    pub fn insert_attribute(&mut self, attribute: Attribute) -> (r: Option<Attribute>)
        requires
            old(self).well_formed(),
            attribute.well_formed(),
        ensures
            final(self).well_formed(),
            final(self)@ == (DeviceView {
                attributes: old(self)@.attributes.insert(attribute@.name, attribute@),
                ..old(self)@
            }),
            match r {
                Some(o) => old(self)@.attributes.contains_key(attribute@.name) && o@ == old(
                    self,
                )@.attributes[attribute@.name],
                None => !old(self)@.attributes.contains_key(attribute@.name),
            },
    {
        let key = attribute.name().duplicate();
        self.attributes.insert(key, attribute)
    }
}

/// What can be asked of the devices kept whole on their entities.
pub enum Command {
    Register(Device),
    Update((DeviceId, Device)),
    Remove(DeviceId),
}

/// Some live entity with a device record has the name `n`.
pub open spec fn name_taken(w: WorldView, n: Seq<char>) -> bool {
    exists|i: int|
        #![trigger w.entities[i]]
        alive(w, i) && w.entities[i].device is Some && w.entities[i].name == Some(n)
}

/// The entity that `add_device` spawns for a device record.
pub open spec fn device_entity(d: DeviceView) -> EntityView {
    EntityView { alive: true, name: Some(d.name), device: Some(d), ..Entity::dead_view() }
}

/// The device record on entity `i`, where it is alive and has one.
pub fn get_by_id(world: &World, id: &DeviceId) -> (r: Option<Device>)
    requires
        world.well_formed(),
    ensures
        match r {
            Some(d) => raw_alive(world@, id.id() as int) && world@.entities[id.id() as int].device
                == Some(d@) && d.well_formed(),
            None => !raw_alive(world@, id.id() as int) || world@.entities[id.id() as int].device is None,
        },
{
    let i = id.as_u32() as usize;
    if i >= world.len() {
        return None;
    }
    let e = world.entity(i);
    if !e.alive || e.generation != 0 {
        return None;
    }
    match &e.device {
        Some(d) => Some(d.duplicate()),
        None => None,
    }
}

/// Spawn an entity that holds the device's name and the device record.
pub fn add_device(world: &mut World, device: Device) -> (r: DeviceId)
    requires
        old(world).well_formed(),
        can_spawn(old(world)@),
        device.well_formed(),
    ensures
        final(world).well_formed(),
        r.id() == spawn_index(old(world)@),
        final(world)@ == spawned(old(world)@, device_entity(device@)),
{
    let mut e = Entity::empty();
    e.name = Some(device.name());
    e.device = Some(device);
    let id = world.spawn(e);
    DeviceId::from_u32(id)
}

/// Put the device record on the live entity `device_id` (whatever else the
/// entity is); `None` where the entity is not alive.
pub fn set_device(world: &mut World, device_id: DeviceId, device: Device) -> (r: Option<DeviceId>)
    requires
        old(world).well_formed(),
        device.well_formed(),
    ensures
        final(world).well_formed(),
        match r {
            Some(id) => raw_alive(old(world)@, device_id.id() as int) && id.id() == device_id.id()
                && final(world)@ == (WorldView {
                entities: old(world)@.entities.update(
                    device_id.id() as int,
                    EntityView {
                        device: Some(device@),
                        ..old(world)@.entities[device_id.id() as int]
                    },
                ),
                ..old(world)@
            }),
            None => !raw_alive(old(world)@, device_id.id() as int) && final(world)@ == old(world)@,
        },
{
    let i = device_id.as_u32() as usize;
    if i >= world.len() || !world.entity(i).alive || world.entity(i).generation != 0 {
        return None;
    }
    let e = world.entity_mut(i);
    e.device = Some(device);
    Some(device_id)
}

/// Despawn the entity `device_id`; `None` where it is not alive.
pub fn remove_device_by_id(world: &mut World, device_id: DeviceId) -> (r: Option<DeviceId>)
    requires
        old(world).well_formed(),
    ensures
        final(world).well_formed(),
        match r {
            Some(id) => raw_alive(old(world)@, device_id.id() as int) && id.id() == device_id.id()
                && final(world)@ == despawned(old(world)@, device_id.id() as int),
            None => !raw_alive(old(world)@, device_id.id() as int) && final(world)@ == old(world)@,
        },
{
    if world.despawn(device_id.as_u32()) {
        Some(device_id)
    } else {
        None
    }
}

/// Whether a live entity with a device record has the name `name`.
pub fn find_name(world: &World, name: &Name) -> (r: bool)
    ensures
        r == name_taken(world@, name@),
{
    let n = world.len();
    let mut i: usize = 0;
    while i < n
        invariant
            n == world@.entities.len(),
            i <= n,
            forall|j: int|
                #![trigger world@.entities[j]]
                0 <= j < i ==> !(alive(world@, j) && world@.entities[j].device is Some
                    && world@.entities[j].name == Some(name@)),
        decreases n - i,
    {
        let e = world.entity(i);
        if e.alive && e.device.is_some() {
            match &e.name {
                Some(en) => {
                    if en.equals(name) {
                        return true;
                    }
                },
                None => {},
            }
        }
        i = i + 1;
    }
    false
}

/// Handle a command for the devices kept whole on their entities.
pub fn process(world: &mut World, command: Command) -> (r: CommandResult)
    requires
        old(world).well_formed(),
        match command {
            Command::Register(d) => d.well_formed() && can_spawn(old(world)@),
            Command::Update((_, d)) => d.well_formed(),
            Command::Remove(_) => true,
        },
    ensures
        final(world).well_formed(),
        match command {
            Command::Register(d) => if name_taken(old(world)@, d@.name) {
                final(world)@ == old(world)@ && (r matches Err(CommandError::Failed { reason })
                    && reason@ == device_exists_reason(d@.name))
            } else {
                final(world)@ == spawned(old(world)@, device_entity(d@)) && r == Ok::<
                    Option<CommandReply>,
                    CommandError,
                >(Some(CommandReply::EntityId(spawn_index(old(world)@) as u32)))
            },
            Command::Update((id, d)) => if raw_alive(old(world)@, id.id() as int) {
                final(world)@ == (WorldView {
                    entities: old(world)@.entities.update(
                        id.id() as int,
                        EntityView { device: Some(d@), ..old(world)@.entities[id.id() as int] },
                    ),
                    ..old(world)@
                }) && r == Ok::<Option<CommandReply>, CommandError>(
                    Some(CommandReply::EntityId(id.id())),
                )
            } else {
                final(world)@ == old(world)@ && r == Err::<Option<CommandReply>, CommandError>(
                    CommandError::NotFound,
                )
            },
            Command::Remove(id) => if raw_alive(old(world)@, id.id() as int) {
                final(world)@ == despawned(old(world)@, id.id() as int) && r == Ok::<Option<CommandReply>, CommandError>(
                    Some(CommandReply::EntityId(id.id())),
                )
            } else {
                final(world)@ == old(world)@ && r == Err::<Option<CommandReply>, CommandError>(
                    CommandError::NotFound,
                )
            },
        },
{
    match command {
        Command::Register(device) => {
            if find_name(world, &device.name) {
                let reason = reason_text("device with name '", &device.name, "' already exists.");
                return Err(CommandError::Failed { reason });
            }
            let id = add_device(world, device);
            Ok(Some(CommandReply::EntityId(id.as_u32())))
        },
        Command::Update((id, device)) => match set_device(world, id, device) {
            Some(id) => Ok(Some(CommandReply::EntityId(id.as_u32()))),
            None => Err(CommandError::NotFound),
        },
        Command::Remove(device_id) => match remove_device_by_id(world, device_id) {
            Some(id) => Ok(Some(CommandReply::EntityId(id.as_u32()))),
            None => Err(CommandError::NotFound),
        },
    }
}

} // verus!
