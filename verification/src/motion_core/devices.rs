use vstd::prelude::*;

use super::attributes::{
    attribute_updated, Attribute, AttributeMap, AttributeSample, AttributeValue, AttributeView,
};
use super::commands::{CommandError, CommandReply, CommandResult};
use super::error::{Error, Result};
use super::world::{
    alive, can_spawn, despawned, opt_view, raw_alive, spawn_index, spawned, Entity, EntityView, World,
    WorldView,
};
use crate::name::Name;
use crate::name_map::{Duplicate, NameMap};

verus! {

/// The id of a device: the index of its entity in the world.
#[derive(Debug, Clone)]
pub struct DeviceId(u32);

impl DeviceId {
    pub closed spec fn id(self) -> u32 {
        self.0
    }

    /// The id of the entity with index `value`.
    pub fn from_u32(value: u32) -> (r: DeviceId)
        ensures
            r.id() == value,
    {
        DeviceId(value)
    }

    /// The entity index.
    pub fn as_u32(&self) -> (r: u32)
        ensures
            r == self.id(),
    {
        self.0
    }

    /// A copy of the id.
    pub fn duplicate(&self) -> (r: DeviceId)
        ensures
            r.id() == self.id(),
    {
        DeviceId(self.0)
    }
}

/// A device: a name and its attributes.
#[derive(Clone, Debug)]
pub struct Device {
    pub name: Name,
    pub attributes: AttributeMap,
}

impl Device {
    /// A device with no attributes.
    pub fn new(name: Name) -> (r: Self)
        ensures
            r.name@ == name@,
            r.attributes@ == Map::<Seq<char>, AttributeView>::empty(),
            r.attributes.well_formed(),
    {
        Device { name, attributes: AttributeMap::new() }
    }
}

/// What can be asked of the devices.
pub enum Command {
    Register(Device),
    Update((DeviceId, Device)),
    Remove(DeviceId),
    Sample((DeviceId, Vec<AttributeSample>)),
    Reset(DeviceId),
}

/// Entity `i` is a live device.
pub open spec fn is_device(w: WorldView, i: int) -> bool {
    alive(w, i) && w.entities[i].device_marker
}

/// The id `i` names a live device: the device is in slot `i`, of the slot's
/// first generation.
pub open spec fn raw_device(w: WorldView, i: int) -> bool {
    raw_alive(w, i) && w.entities[i].device_marker
}

/// Every live device has a name and an attribute map.
pub open spec fn devices_complete(w: WorldView) -> bool {
    forall|i: int|
        #![trigger w.entities[i]]
        is_device(w, i) ==> w.entities[i].name is Some && w.entities[i].attributes is Some
}

/// In a world where every live device has its parts, entity `j`, where it
/// is a live device, has a name and attributes.
pub proof fn lemma_device_parts(w: WorldView, j: int)
    requires
        devices_complete(w),
    ensures
        is_device(w, j) ==> w.entities[j].name is Some && w.entities[j].attributes is Some,
{
}

/// The entity that `add_device` spawns.
pub open spec fn new_device_entity(name: Seq<char>, attributes: Map<Seq<char>, AttributeView>) -> EntityView {
    EntityView {
        alive: true,
        device_marker: true,
        name: Some(name),
        attributes: Some(attributes),
        ..Entity::dead_view()
    }
}

/// The attributes after one sample: the attribute it names takes its value
/// where the kinds agree.
pub open spec fn attrs_sampled_once(
    attrs: Map<Seq<char>, AttributeView>,
    sample: (Seq<char>, AttributeValue),
) -> Map<Seq<char>, AttributeView> {
    if attrs.contains_key(sample.0) {
        attrs.insert(sample.0, attribute_updated(attrs[sample.0], sample.1))
    } else {
        attrs
    }
}

/// The attributes after the samples, applied in order.
pub open spec fn attrs_sampled(
    attrs: Map<Seq<char>, AttributeView>,
    samples: Seq<(Seq<char>, AttributeValue)>,
) -> Map<Seq<char>, AttributeView>
    decreases samples.len(),
{
    if samples.len() == 0 {
        attrs
    } else {
        attrs_sampled_once(attrs_sampled(attrs, samples.drop_last()), samples.last())
    }
}

/// The attributes after a reset: every value back to its default.
pub open spec fn attrs_reset(attrs: Map<Seq<char>, AttributeView>) -> Map<Seq<char>, AttributeView> {
    attrs.map_values(|a: AttributeView| AttributeView { value: a.default_value, ..a })
}

/// Model of a list of samples.
pub open spec fn samples_view(s: Seq<AttributeSample>) -> Seq<(Seq<char>, AttributeValue)> {
    s.map_values(|x: AttributeSample| (x.name@, x.value))
}

/// The world with the attribute map of entity `i` replaced.
pub open spec fn with_attributes(
    w: WorldView,
    i: int,
    attrs: Map<Seq<char>, AttributeView>,
) -> WorldView {
    WorldView {
        entities: w.entities.update(i, EntityView { attributes: Some(attrs), ..w.entities[i] }),
        ..w
    }
}

/// The attribute map of entity `i`.
pub open spec fn attrs_of(w: WorldView, i: int) -> Map<Seq<char>, AttributeView> {
    w.entities[i].attributes->0
}

/// A handle on a device entity of the world.
pub struct DeviceEntityRef {
    pub entity: u32,
}

impl DeviceEntityRef {
    /// The handle points at a live device with a name and attributes.
    pub open spec fn valid(self, w: WorldView) -> bool {
        is_device(w, self.entity as int) && w.entities[self.entity as int].name is Some
            && w.entities[self.entity as int].attributes is Some
    }

    /// The name of the device.
    pub fn name<'w>(&self, world: &'w World) -> (r: &'w Name)
        requires
            self.valid(world@),
        ensures
            Some(r@) == world@.entities[self.entity as int].name,
    {
        let e = world.entity(self.entity as usize);
        e.name.as_ref().unwrap()
    }

    /// The attributes of the device.
    pub fn attributes<'w>(&self, world: &'w World) -> (r: &'w AttributeMap)
        requires
            self.valid(world@),
            world.well_formed(),
        ensures
            Some(r@) == world@.entities[self.entity as int].attributes,
            r.well_formed(),
    {
        proof {
            world.lemma_entity(self.entity as int);
        }
        let e = world.entity(self.entity as usize);
        e.attributes.as_ref().unwrap()
    }

    /// The attribute named `name`, where there is one.
    pub fn attribute<'w>(&self, world: &'w World, name: &Name) -> (r: Option<&'w Attribute>)
        requires
            self.valid(world@),
            world.well_formed(),
        ensures
            match r {
                Some(a) => attrs_of(world@, self.entity as int).contains_key(name@) && a@
                    == attrs_of(world@, self.entity as int)[name@],
                None => !attrs_of(world@, self.entity as int).contains_key(name@),
            },
    {
        self.attributes(world).get(name)
    }

    /// Rename the device.
    pub fn set_name(&self, world: &mut World, name: Name)
        requires
            alive(old(world)@, self.entity as int),
            old(world).well_formed(),
        ensures
            final(world).well_formed(),
            final(world)@ == (WorldView {
                entities: old(world)@.entities.update(
                    self.entity as int,
                    EntityView { name: Some(name@), ..old(world)@.entities[self.entity as int] },
                ),
                ..old(world)@
            }),
    {
        proof {
            old(world).lemma_entity(self.entity as int);
        }
        let e = world.entity_mut(self.entity as usize);
        e.name = Some(name);
    }

    /// Replace the attributes of the device.
    pub fn set_attributes(&self, world: &mut World, attrs: AttributeMap)
        requires
            alive(old(world)@, self.entity as int),
            old(world).well_formed(),
            attrs.well_formed(),
        ensures
            final(world).well_formed(),
            final(world)@ == with_attributes(old(world)@, self.entity as int, attrs@),
    {
        proof {
            old(world).lemma_entity(self.entity as int);
        }
        let e = world.entity_mut(self.entity as usize);
        e.attributes = Some(attrs);
    }

    /// Mutable access to the attributes of the device; what is written
    /// through it becomes the device's attributes.
    pub fn attributes_mut<'w>(&self, world: &'w mut World) -> (r: &'w mut AttributeMap)
        requires
            self.valid(old(world)@),
            old(world).well_formed(),
        ensures
            Some(r@) == old(world)@.entities[self.entity as int].attributes,
            r.well_formed(),
            final(world)@ == with_attributes(old(world)@, self.entity as int, final(r)@),
            final(r).well_formed() ==> final(world).well_formed(),
    {
        proof {
            old(world).lemma_entity(self.entity as int);
        }
        let e = world.entity_mut(self.entity as usize);
        e.attributes.as_mut().unwrap()
    }

    /// Store an attribute on the device under its own name.
    pub fn insert_attribute(&self, world: &mut World, attribute: Attribute)
        requires
            self.valid(old(world)@),
            old(world).well_formed(),
            attribute.well_formed(),
        ensures
            final(world).well_formed(),
            final(world)@ == with_attributes(
                old(world)@,
                self.entity as int,
                attrs_of(old(world)@, self.entity as int).insert(attribute@.name, attribute@),
            ),
    {
        proof {
            old(world).lemma_entity(self.entity as int);
        }
        let e = world.entity_mut(self.entity as usize);
        match &mut e.attributes {
            Some(a) => {
                a.insert(attribute);
            },
            None => {},
        }
    }

    /// Apply one sample to the device: the attribute it names takes the
    /// sampled value. Fails where the device has no such attribute or the
    /// value is of another kind; the attributes stay as they were then.
    pub fn apply_sample(&self, world: &mut World, sample: AttributeSample) -> (r: Result<()>)
        requires
            self.valid(old(world)@),
            old(world).well_formed(),
        ensures
            final(world).well_formed(),
            final(world)@ == with_attributes(
                old(world)@,
                self.entity as int,
                attrs_sampled_once(
                    attrs_of(old(world)@, self.entity as int),
                    (sample.name@, sample.value),
                ),
            ),
            r is Ok <==> attrs_of(old(world)@, self.entity as int).contains_key(sample.name@)
                && super::attributes::same_kind(
                attrs_of(old(world)@, self.entity as int)[sample.name@].value,
                sample.value,
            ),
            r matches Err(e) ==> (e is NotFound <==> !attrs_of(
                old(world)@,
                self.entity as int,
            ).contains_key(sample.name@)),
            r matches Err(Error::NotFound(m)) ==> ({
                let head = "no attribute named "@ + sample.name@ + " no device "@;
                m@.len() >= head.len() && m@.take(head.len() as int) == head
            }),
            r matches Err(Error::InvalidValue(m)) ==> m@ == "value has different type"@,
    {
        proof {
            old(world).lemma_entity(self.entity as int);
        }
        let e = world.entity_mut(self.entity as usize);
        match &mut e.attributes {
            Some(a) => {
                proof {
                    a.lemma_view();
                }
                let ghost pa = *a;
                let entries = a.entries_mut();
                match entries.find(&sample.name) {
                    Some(i) => {
                        proof {
                            pa.entries_spec().lemma_index_of(i as int);
                            assert(pa.entries_spec().value(i as int).well_formed());
                        }
                        let attr = entries.value_at_mut(i);
                        let r = attr.update_value(sample.value);
                        proof {
                            let pm = pa.entries_spec();
                            pm.lemma_same_keys(*entries);
                            assert forall|j: int| 0 <= j < entries.spec_len() implies #[trigger] entries.value(j).well_formed() by {
                                if j != i {
                                    assert(pm.value(j).well_formed());
                                }
                            }
                            assert forall|k: Seq<char>| #[trigger] entries@.contains_key(k) implies entries@[k]
                                == pm@.insert(sample.name@, attribute_updated(pm@[sample.name@], sample.value))[k] by {
                                pm.lemma_index_of(pm.index_of(k));
                            }
                            assert(entries@ =~= pm@.insert(sample.name@, attribute_updated(pm@[sample.name@], sample.value)));
                        }
                        proof {
                            a.lemma_view();
                        }
                        r
                    },
                    None => {
                        proof {
                            a.lemma_view();
                        }
                        let mut m = "no attribute named ".to_owned();
                        m.append(sample.name.as_str());
                        m.append(" no device ");
                        let ghost head = m@;
                        let index = self.entity.to_string();
                        m.append(index.as_str());
                        proof {
                            assert(m@.take(head.len() as int) =~= head);
                        }
                        Err(Error::NotFound(m))
                    },
                }
            },
            None => {
                proof {
                    assert(false);
                }
                Ok(())
            },
        }
    }

    /// Put every attribute of the device back to its default value.
    pub fn reset(&self, world: &mut World)
        requires
            self.valid(old(world)@),
            old(world).well_formed(),
        ensures
            final(world).well_formed(),
            final(world)@ == with_attributes(
                old(world)@,
                self.entity as int,
                attrs_reset(attrs_of(old(world)@, self.entity as int)),
            ),
    {
        proof {
            old(world).lemma_entity(self.entity as int);
        }
        let e = world.entity_mut(self.entity as usize);
        match &mut e.attributes {
            Some(a) => {
                reset_attributes(a);
            },
            None => {},
        }
    }
}

/// Put every attribute of a map back to its default value.
pub fn reset_attributes(a: &mut AttributeMap)
    requires
        old(a).well_formed(),
    ensures
        final(a).well_formed(),
        final(a)@ == attrs_reset(old(a)@),
{
    proof {
        a.lemma_view();
    }
    let ghost pre = a.entries_spec();
    let entries = a.entries_mut();
    let n = entries.len();
    let mut i: usize = 0;
    while i < n
        invariant
            n == pre.spec_len(),
            i <= n,
            pre.well_formed(),
            entries.spec_len() == n,
            forall|j: int| 0 <= j < n ==> #[trigger] entries.key(j) == pre.key(j),
            forall|j: int|
                0 <= j < i ==> #[trigger] entries.value(j)@ == (AttributeView {
                    value: pre.value(j)@.default_value,
                    ..pre.value(j)@
                }),
            forall|j: int| 0 <= j < i ==> #[trigger] entries.value(j).well_formed(),
            forall|j: int| i <= j < n ==> #[trigger] entries.value(j) == pre.value(j),
        decreases n - i,
    {
        assert(pre.value(i as int).well_formed());
        let attr = entries.value_at_mut(i);
        attr.reset();
        i = i + 1;
    }
    proof {
        pre.lemma_same_keys(*entries);
        assert(entries@ =~= attrs_reset(pre@));
        assert forall|j: int| 0 <= j < n implies #[trigger] entries.value(j).well_formed() by {}
    }
    proof {
        a.lemma_view();
    }
}

/// A handle on the device that `id` names, where it is a live device.
pub fn get(world: &World, id: &DeviceId) -> (r: Option<DeviceEntityRef>)
    ensures
        match r {
            Some(d) => d.entity == id.id() && raw_device(world@, id.id() as int),
            None => !raw_device(world@, id.id() as int),
        },
{
    let i = id.as_u32() as usize;
    if i < world.len() {
        let e = world.entity(i);
        if e.alive && e.generation == 0 && e.device_marker {
            return Some(DeviceEntityRef { entity: id.as_u32() });
        }
    }
    None
}

/// The device that `id` names, where it is a live device.
pub fn get_by_id(world: &World, id: &DeviceId) -> (r: Option<Device>)
    requires
        world.well_formed(),
        devices_complete(world@),
    ensures
        match r {
            Some(d) => raw_device(world@, id.id() as int) && Some(d.name@)
                == world@.entities[id.id() as int].name && Some(d.attributes@)
                == world@.entities[id.id() as int].attributes && d.attributes.well_formed(),
            None => !raw_device(world@, id.id() as int),
        },
{
    match get(world, id) {
        Some(d) => {
            proof {
                lemma_device_parts(world@, id.id() as int);
            }
            let name = d.name(world).duplicate();
            let attributes = d.attributes(world).duplicate();
            Some(Device { name, attributes })
        },
        None => None,
    }
}

/// Handles on every live device, by increasing entity index.
pub fn get_all(world: &World) -> (r: Vec<DeviceEntityRef>)
    requires
        world.well_formed(),
    ensures
        forall|a: int| 0 <= a < r@.len() ==> #[trigger] is_device(world@, r@[a].entity as int),
        forall|a: int, b: int| 0 <= a < b < r@.len() ==> #[trigger] r@[a].entity < #[trigger] r@[b].entity,
        forall|i: int|
            #![trigger world@.entities[i]]
            is_device(world@, i) ==> exists|a: int| 0 <= a < r@.len() && r@[a].entity == i,
{
    let mut out: Vec<DeviceEntityRef> = Vec::new();
    proof {
        world.lemma_len();
    }
    let n = world.len();
    let mut i: usize = 0;
    while i < n
        invariant
            n == world@.entities.len(),
            n <= u32::MAX,
            i <= n,
            forall|a: int| 0 <= a < out@.len() ==> #[trigger] is_device(world@, out@[a].entity as int),
            forall|a: int| 0 <= a < out@.len() ==> #[trigger] out@[a].entity < i,
            forall|a: int, b: int| 0 <= a < b < out@.len() ==> #[trigger] out@[a].entity < #[trigger] out@[b].entity,
            forall|j: int|
                #![trigger world@.entities[j]]
                0 <= j < i && is_device(world@, j) ==> exists|a: int| 0 <= a < out@.len() && out@[a].entity == j,
        decreases n - i,
    {
        let ghost old_out = out@;
        let e = world.entity(i);
        if e.alive && e.device_marker {
            out.push(DeviceEntityRef { entity: i as u32 });
        }
        proof {
            assert forall|j: int|
                #![trigger world@.entities[j]]
                0 <= j < i + 1 && is_device(world@, j) implies exists|a: int|
                    0 <= a < out@.len() && out@[a].entity == j by {
                if j < i {
                    let a = choose|a: int| 0 <= a < old_out.len() && old_out[a].entity == j;
                    assert(out@[a] == old_out[a]);
                } else {
                    assert(out@[out@.len() - 1].entity == j);
                }
            }
        }
        i = i + 1;
    }
    out
}

/// Spawn a device entity with the device's name and attributes.
pub fn add_device(world: &mut World, device: Device) -> (r: DeviceId)
    requires
        old(world).well_formed(),
        can_spawn(old(world)@),
        device.attributes.well_formed(),
    ensures
        final(world).well_formed(),
        r.id() == spawn_index(old(world)@),
        final(world)@ == spawned(old(world)@, new_device_entity(device.name@, device.attributes@)),
{
    let mut e = Entity::empty();
    e.device_marker = true;
    e.name = Some(device.name);
    e.attributes = Some(device.attributes);
    let id = world.spawn(e);
    DeviceId::from_u32(id)
}

/// Replace the name and attributes of a device. Refused (`None`) while
/// motion is on and where the entity is not a live device.
pub fn set_device(world: &mut World, device_id: DeviceId, device: Device) -> (r: Option<DeviceId>)
    requires
        old(world).well_formed(),
        device.attributes.well_formed(),
    ensures
        final(world).well_formed(),
        match r {
            Some(id) => !old(world)@.motion && raw_device(old(world)@, device_id.id() as int)
                && id.id() == device_id.id() && final(world)@ == (WorldView {
                entities: old(world)@.entities.update(
                    device_id.id() as int,
                    EntityView {
                        name: Some(device.name@),
                        attributes: Some(device.attributes@),
                        ..old(world)@.entities[device_id.id() as int]
                    },
                ),
                ..old(world)@
            }),
            None => (old(world)@.motion || !raw_device(old(world)@, device_id.id() as int))
                && final(world)@ == old(world)@,
        },
{
    if super::globals::is_motion_enabled(world) {
        return None;
    }
    let device_ref = match get(world, &device_id) {
        Some(d) => d,
        None => {
            return None;
        },
    };
    device_ref.set_name(world, device.name);
    device_ref.set_attributes(world, device.attributes);
    Some(device_id)
}

/// Despawn the entity that `device_id` names (whatever it is); `None`
/// where it names no live entity.
pub fn remove_device_by_id(world: &mut World, device_id: DeviceId) -> (r: Option<DeviceId>)
    requires
        old(world).well_formed(),
    ensures
        final(world).well_formed(),
        match r {
            Some(id) => raw_alive(old(world)@, device_id.id() as int) && id.id() == device_id.id()
                && final(world)@ == despawned(old(world)@, device_id.id() as int),
            None => !raw_alive(old(world)@, device_id.id() as int) && final(world)@ == old(world)@,
        },
{
    if world.despawn(device_id.as_u32()) {
        Some(device_id)
    } else {
        None
    }
}

/// Apply samples to the device that `device_id` names, in order. Nothing happens while motion is
/// off; a sample for an attribute the device lacks, or of another kind,
/// is skipped.
pub fn apply_samples(world: &mut World, device_id: DeviceId, samples: Vec<AttributeSample>) -> (r: Result<()>)
    requires
        old(world).well_formed(),
        devices_complete(old(world)@),
    ensures
        final(world).well_formed(),
        devices_complete(final(world)@),
        !old(world)@.motion ==> r is Ok && final(world)@ == old(world)@,
        old(world)@.motion && !raw_device(old(world)@, device_id.id() as int) ==> (r matches Err(
            Error::NotFound(m),
        ) && m@ == "no device with matching id found for samples"@) && final(world)@ == old(world)@,
        old(world)@.motion && raw_device(old(world)@, device_id.id() as int) ==> r is Ok
            && final(world)@ == with_attributes(
            old(world)@,
            device_id.id() as int,
            attrs_sampled(attrs_of(old(world)@, device_id.id() as int), samples_view(samples@)),
        ),
{
    if !super::globals::is_motion_enabled(world) {
        return Ok(());
    }
    let device = match get(world, &device_id) {
        Some(d) => d,
        None => {
            return Err(Error::NotFound("no device with matching id found for samples".to_owned()));
        },
    };
    let ghost pre = world@;
    let ghost idx = device_id.id() as int;
    let ghost sv = samples_view(samples@);
    let n = samples.len();
    let mut i: usize = 0;
    while i < n
        invariant
            n == samples@.len(),
            sv == samples_view(samples@),
            i <= n,
            device.entity == idx,
            raw_device(pre, idx),
            devices_complete(pre),
            world.well_formed(),
            world@ == with_attributes(pre, idx, attrs_sampled(attrs_of(pre, idx), sv.take(i as int))),
        decreases n - i,
    {
        proof {
            assert(sv.take((i + 1) as int).drop_last() =~= sv.take(i as int));
            assert(sv[i as int] == (samples@[i as int].name@, samples@[i as int].value));
        }
        let sample = samples[i].clone_sample();
        let _ = device.apply_sample(world, sample);
        proof {
            assert(world@ =~= with_attributes(pre, idx, attrs_sampled(attrs_of(pre, idx), sv.take((i + 1) as int))));
        }
        i = i + 1;
    }
    proof {
        assert(sv.take(n as int) =~= sv);
        assert forall|j: int|
            #![trigger world@.entities[j]]
            is_device(world@, j) implies world@.entities[j].name is Some && world@.entities[j].attributes is Some by {
            lemma_device_parts(pre, j);
        }
    }
    Ok(())
}

impl AttributeSample {
    /// A copy of the sample.
    pub fn clone_sample(&self) -> (r: AttributeSample)
        ensures
            r.name@ == self.name@,
            r.value == self.value,
    {
        AttributeSample { name: self.name.duplicate(), value: self.value }
    }
}

/// What a device command does: `w2` is the world after it and `r` its
/// answer, from the world `w`.
pub open spec fn devices_outcome(w: WorldView, command: Command, r: CommandResult, w2: WorldView) -> bool {
    match command {
        Command::Register(d) => w2 == spawned(w, new_device_entity(d.name@, d.attributes@)) && r
            == Ok::<Option<CommandReply>, CommandError>(
            Some(CommandReply::EntityId(spawn_index(w) as u32)),
        ),
        Command::Update((id, d)) => if !w.motion && raw_device(w, id.id() as int) {
            w2 == (WorldView {
                entities: w.entities.update(
                    id.id() as int,
                    EntityView {
                        name: Some(d.name@),
                        attributes: Some(d.attributes@),
                        ..w.entities[id.id() as int]
                    },
                ),
                ..w
            }) && r == Ok::<Option<CommandReply>, CommandError>(
                Some(CommandReply::EntityId(id.id())),
            )
        } else {
            w2 == w && r == Err::<Option<CommandReply>, CommandError>(
                CommandError::NotFound,
            )
        },
        Command::Remove(id) => if raw_alive(w, id.id() as int) {
            w2 == despawned(w, id.id() as int) && r == Ok::<Option<CommandReply>, CommandError>(
                Some(CommandReply::EntityId(id.id())),
            )
        } else {
            w2 == w && r == Err::<Option<CommandReply>, CommandError>(
                CommandError::NotFound,
            )
        },
        Command::Sample((id, samples)) => if !w.motion {
            w2 == w && r == Ok::<Option<CommandReply>, CommandError>(None)
        } else if !raw_device(w, id.id() as int) {
            w2 == w && (r matches Err(CommandError::Failed { reason })
                && reason@ == "entity not found: "@ + "no device with matching id found for samples"@)
        } else {
            w2 == with_attributes(
                w,
                id.id() as int,
                attrs_sampled(attrs_of(w, id.id() as int), samples_view(samples@)),
            ) && r == Ok::<Option<CommandReply>, CommandError>(None)
        },
        Command::Reset(id) => if raw_device(w, id.id() as int) {
            w2 == with_attributes(
                w,
                id.id() as int,
                attrs_reset(attrs_of(w, id.id() as int)),
            ) && r == Ok::<Option<CommandReply>, CommandError>(None)
        } else {
            w2 == w && r == Err::<Option<CommandReply>, CommandError>(
                CommandError::NotFound,
            )
        },
    }
}

/// Handle a device command. A registration is not refused where another
/// device already has the name.
pub fn process(world: &mut World, command: Command) -> (r: CommandResult)
    requires
        old(world).well_formed(),
        devices_complete(old(world)@),
        match command {
            Command::Register(d) => d.attributes.well_formed() && can_spawn(old(world)@),
            Command::Update((_, d)) => d.attributes.well_formed(),
            _ => true,
        },
    ensures
        final(world).well_formed(),
        devices_complete(final(world)@),
        devices_outcome(old(world)@, command, r, final(world)@),
{
    let ghost pre = world@;
    match command {
        Command::Register(device) => {
            proof {
                world.lemma_free();
            }
            let id = add_device(world, device);
            proof {
                assert forall|j: int|
                    #![trigger world@.entities[j]]
                    is_device(world@, j) implies world@.entities[j].name is Some
                        && world@.entities[j].attributes is Some by {
                    if j != spawn_index(pre) {
                        assert(pre.entities[j] == world@.entities[j]);
                        lemma_device_parts(pre, j);
                    }
                }
            }
            Ok(Some(CommandReply::EntityId(id.as_u32())))
        },
        Command::Update((id, device)) => {
            let r = set_device(world, id, device);
            proof {
                assert forall|j: int|
                    #![trigger world@.entities[j]]
                    is_device(world@, j) implies world@.entities[j].name is Some
                        && world@.entities[j].attributes is Some by {
                    lemma_device_parts(pre, j);
                }
            }
            match r {
                Some(id) => Ok(Some(CommandReply::EntityId(id.as_u32()))),
                None => Err(CommandError::NotFound),
            }
        },
        Command::Remove(device_id) => {
            let r = remove_device_by_id(world, device_id);
            proof {
                assert forall|j: int|
                    #![trigger world@.entities[j]]
                    is_device(world@, j) implies world@.entities[j].name is Some
                        && world@.entities[j].attributes is Some by {
                    lemma_device_parts(pre, j);
                }
            }
            match r {
                Some(id) => Ok(Some(CommandReply::EntityId(id.as_u32()))),
                None => Err(CommandError::NotFound),
            }
        },
        Command::Sample((id, samples)) => match apply_samples(world, id, samples) {
            Ok(_) => Ok(None),
            Err(err) => Err(CommandError::Failed { reason: err.to_string() }),
        },
        Command::Reset(id) => match get(world, &id) {
            Some(device) => {
                proof {
                    lemma_device_parts(pre, id.id() as int);
                }
                device.reset(world);
                proof {
                    assert forall|j: int|
                        #![trigger world@.entities[j]]
                        is_device(world@, j) implies world@.entities[j].name is Some
                            && world@.entities[j].attributes is Some by {
                        lemma_device_parts(pre, j);
                    }
                }
                Ok(None)
            },
            None => Err(CommandError::NotFound),
        },
    }
}

} // verus!
