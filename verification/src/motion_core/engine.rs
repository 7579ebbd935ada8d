use vstd::prelude::*;

use super::attributes::Attribute;
use super::commands::{
    device_exists_reason, reason_text, Command, CommandError, CommandReply, CommandResult,
    DeviceCommand, DeviceData,
};
use super::device::{device_entity, find_name, name_taken, Device, DeviceView};
use super::devices::{devices_complete, process as process_devices};
use super::world::{can_spawn, spawn_index, spawned, World, WorldView};
use crate::name_map::Duplicate;

verus! {

/// The world engine: it holds the world and applies commands to it.
pub struct Engine {
    world: World,
}

impl Engine {
    pub closed spec fn world_spec(self) -> World {
        self.world
    }

    /// An engine with an empty world.
    pub fn new() -> (r: Engine)
        ensures
            r.world_spec().well_formed(),
            r.world_spec()@.entities.len() == 0,
            !r.world_spec()@.motion,
    {
        Engine { world: World::new() }
    }

    /// Mutable access to the world.
    pub fn get_world_mut(&mut self) -> (r: &mut World)
        ensures
            *r == old(self).world_spec(),
            final(self).world_spec() == *final(r),
    {
        &mut self.world
    }

    /// Start again from an empty world.
    pub fn setup(&mut self) -> (r: CommandResult)
        ensures
            final(self).world_spec().well_formed(),
            final(self).world_spec()@.entities.len() == 0,
            !final(self).world_spec()@.motion,
            r == Ok::<Option<CommandReply>, CommandError>(None),
    {
        self.world = World::new();
        Ok(None)
    }

    /// One frame of the engine; the world systems do not run yet, so
    /// nothing changes.
    pub fn tick(&mut self) -> (r: CommandResult)
        ensures
            final(self).world_spec() == old(self).world_spec(),
            r == Ok::<Option<CommandReply>, CommandError>(None),
    {
        Ok(None)
    }

    /// Apply a command to the world and return its answer.
    pub fn process(&mut self, command: Command) -> (r: CommandResult)
        requires
            old(self).world_spec().well_formed(),
            devices_complete(old(self).world_spec()@),
            match command {
                Command::Device(super::devices::Command::Register(d)) => d.attributes.well_formed()
                    && can_spawn(old(self).world_spec()@),
                Command::Device(super::devices::Command::Update((_, d))) => d.attributes.well_formed(),
                _ => true,
            },
        ensures
            final(self).world_spec().well_formed(),
            devices_complete(final(self).world_spec()@),
            match command {
                Command::Device(c) => super::devices::devices_outcome(
                    old(self).world_spec()@,
                    c,
                    r,
                    final(self).world_spec()@,
                ),
            },
    {
        match command {
            Command::Device(c) => process_devices(&mut self.world, c),
        }
    }
}

/// The device record that a registration builds: its name and the given
/// attributes, in order, each under its own name.
pub open spec fn registered_device(name: Seq<char>, attrs: Seq<Attribute>) -> DeviceView
    decreases attrs.len(),
{
    if attrs.len() == 0 {
        DeviceView { name, attributes: Map::empty() }
    } else {
        let d = registered_device(name, attrs.drop_last());
        DeviceView { attributes: d.attributes.insert(attrs.last()@.name, attrs.last()@), ..d }
    }
}

/// Register a device kept whole on its entity, from its name and
/// attributes; refused where a device record of that name exists.
pub fn handle_device_command(world: &mut World, command: DeviceCommand) -> (r: CommandResult)
    requires
        old(world).well_formed(),
        match command {
            DeviceCommand::Register(data) => can_spawn(old(world)@) && forall|i: int|
                0 <= i < data.attributes@.len() ==> #[trigger] data.attributes@[i].well_formed(),
        },
    ensures
        final(world).well_formed(),
        match command {
            DeviceCommand::Register(data) => if name_taken(old(world)@, data.name@) {
                final(world)@ == old(world)@ && (r matches Err(CommandError::Failed { reason })
                    && reason@ == device_exists_reason(data.name@))
            } else {
                final(world)@ == spawned(
                    old(world)@,
                    device_entity(registered_device(data.name@, data.attributes@)),
                ) && r == Ok::<Option<CommandReply>, CommandError>(
                    Some(CommandReply::EntityId(spawn_index(old(world)@) as u32)),
                )
            },
        },
{
    match command {
        DeviceCommand::Register(data) => {
            if find_name(world, &data.name) {
                let reason = reason_text("device with name '", &data.name, "' already exists.");
                return Err(CommandError::Failed { reason });
            }
            let mut device = Device::new(data.name.duplicate());
            let attrs = data.attributes;
            let n = attrs.len();
            let mut i: usize = 0;
            while i < n
                invariant
                    n == attrs@.len(),
                    i <= n,
                    device.well_formed(),
                    forall|k: int| 0 <= k < attrs@.len() ==> #[trigger] attrs@[k].well_formed(),
                    device@ == registered_device(data.name@, attrs@.take(i as int)),
                decreases n - i,
            {
                proof {
                    assert(attrs@.take(i as int + 1).drop_last() =~= attrs@.take(i as int));
                }
                let attr = attrs[i].duplicate();
                let _ = device.insert_attribute(attr);
                i = i + 1;
            }
            proof {
                assert(attrs@.take(n as int) =~= attrs@);
            }
            let id = super::device::add_device(world, device);
            Ok(Some(CommandReply::EntityId(id.as_u32())))
        },
    }
}

} // verus!
