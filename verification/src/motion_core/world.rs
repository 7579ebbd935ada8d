use vstd::prelude::*;

use super::attributes::{AttributeLinkMap, AttributeLinkView, AttributeMap, AttributeView};
use super::device::{Device as LegacyDevice, DeviceView as LegacyDeviceView};
use super::globals::{GlobalSettings, MotionStatus};
use crate::name::Name;
use crate::name_map::Duplicate;

verus! {

/// The components of one entity of the world.
///
/// An entity is a name with markers that say what it is (a device, a scene
/// object) and the parts that the systems read: attributes, links, and the
/// whole device record of the registration that keeps one. The slot of an
/// entity also keeps its generation: how many times an entity in that slot
/// was despawned.
#[derive(Debug, Clone)]
pub struct Entity {
    pub alive: bool,
    pub generation: u32,
    pub name: Option<Name>,
    pub device_marker: bool,
    pub scene_marker: bool,
    pub device: Option<LegacyDevice>,
    pub attributes: Option<AttributeMap>,
    pub links: Option<AttributeLinkMap>,
}

/// Model of an entity.
pub struct EntityView {
    pub alive: bool,
    pub generation: u32,
    pub name: Option<Seq<char>>,
    pub device_marker: bool,
    pub scene_marker: bool,
    pub device: Option<LegacyDeviceView>,
    pub attributes: Option<Map<Seq<char>, AttributeView>>,
    pub links: Option<Map<Seq<char>, AttributeLinkView>>,
}

pub open spec fn opt_view<T: View>(o: Option<T>) -> Option<T::V> {
    match o {
        Some(t) => Some(t@),
        None => None,
    }
}

pub open spec fn opt_well_formed<T: Duplicate>(o: Option<T>) -> bool {
    match o {
        Some(t) => t.well_formed(),
        None => true,
    }
}

impl View for Entity {
    type V = EntityView;

    open spec fn view(&self) -> EntityView {
        EntityView {
            alive: self.alive,
            generation: self.generation,
            name: opt_view(self.name),
            device_marker: self.device_marker,
            scene_marker: self.scene_marker,
            device: opt_view(self.device),
            attributes: opt_view(self.attributes),
            links: opt_view(self.links),
        }
    }
}

fn dup_opt<T: Duplicate>(o: &Option<T>) -> (r: Option<T>)
    requires
        opt_well_formed(*o),
    ensures
        opt_view(r) == opt_view(*o),
        opt_well_formed(r),
{
    match o {
        Some(t) => Some(t.duplicate()),
        None => None,
    }
}

impl Duplicate for Entity {
    open spec fn well_formed(&self) -> bool {
        &&& opt_well_formed(self.device)
        &&& opt_well_formed(self.attributes)
        &&& opt_well_formed(self.links)
    }

    fn duplicate(&self) -> (r: Self) {
        Entity {
            alive: self.alive,
            generation: self.generation,
            name: dup_opt(&self.name),
            device_marker: self.device_marker,
            scene_marker: self.scene_marker,
            device: dup_opt(&self.device),
            attributes: dup_opt(&self.attributes),
            links: dup_opt(&self.links),
        }
    }
}

impl Entity {
    /// The components of an entity that was despawned.
    pub open spec fn dead_view() -> EntityView {
        EntityView {
            alive: false,
            generation: 0,
            name: None,
            device_marker: false,
            scene_marker: false,
            device: None,
            attributes: None,
            links: None,
        }
    }

    /// An entity with no components.
    pub fn empty() -> (r: Entity)
        ensures
            r@ == (EntityView { alive: true, ..Entity::dead_view() }),
            r.well_formed(),
    {
        Entity {
            alive: true,
            generation: 0,
            name: None,
            device_marker: false,
            scene_marker: false,
            device: None,
            attributes: None,
            links: None,
        }
    }
}

/// The store of entities and the global settings.
///
/// Entities live in numbered slots. Despawning an entity frees its slot and
/// counts one more generation on it; spawning takes the slot freed last,
/// where there is one, and a new slot otherwise. An entity is named from
/// outside by its slot index alone, which stands for the slot's first
/// generation: once a slot was freed, its index no longer reaches the
/// entity in it.
#[derive(Debug)]
pub struct World {
    entities: Vec<Entity>,
    free: Vec<u32>,
    settings: GlobalSettings,
}

/// Model of the world.
#[verifier::ext_equal]
pub struct WorldView {
    pub entities: Seq<EntityView>,
    /// The freed slots, the one freed last at the end.
    pub free: Seq<u32>,
    pub motion: bool,
}

impl View for World {
    type V = WorldView;

    closed spec fn view(&self) -> WorldView {
        WorldView {
            entities: self.entities@.map_values(|e: Entity| e@),
            free: self.free@,
            motion: self.settings.motion == MotionStatus::On,
        }
    }
}

/// The entity `i` exists and was not despawned.
pub open spec fn alive(w: WorldView, i: int) -> bool {
    0 <= i < w.entities.len() && w.entities[i].alive
}

/// The index `i`, taken as an entity of the first generation, names a live
/// entity: the slot holds one and was never freed.
pub open spec fn raw_alive(w: WorldView, i: int) -> bool {
    alive(w, i) && w.entities[i].generation == 0
}

/// The generation after one more despawn; it wraps around.
pub open spec fn next_generation(g: u32) -> u32 {
    if g == u32::MAX {
        0
    } else {
        (g + 1) as u32
    }
}

/// There is a slot to spawn into: a freed one, or room for a new one.
pub open spec fn can_spawn(w: WorldView) -> bool {
    w.free.len() > 0 || w.entities.len() < u32::MAX
}

/// The slot that the next spawn takes.
pub open spec fn spawn_index(w: WorldView) -> int {
    if w.free.len() > 0 {
        w.free.last() as int
    } else {
        w.entities.len() as int
    }
}

/// The world after spawning an entity with the components of `e`.
pub open spec fn spawned(w: WorldView, e: EntityView) -> WorldView {
    if w.free.len() > 0 {
        let i = w.free.last() as int;
        WorldView {
            entities: w.entities.update(
                i,
                EntityView { alive: true, generation: w.entities[i].generation, ..e },
            ),
            free: w.free.drop_last(),
            ..w
        }
    } else {
        WorldView {
            entities: w.entities.push(EntityView { alive: true, generation: 0, ..e }),
            ..w
        }
    }
}

/// The world after despawning the entity in slot `i`: the slot is empty,
/// one generation later, and freed last.
pub open spec fn despawned(w: WorldView, i: int) -> WorldView {
    WorldView {
        entities: w.entities.update(
            i,
            EntityView {
                generation: next_generation(w.entities[i].generation),
                ..Entity::dead_view()
            },
        ),
        free: w.free.push(i as u32),
        ..w
    }
}

impl World {
    pub closed spec fn entity_spec(self, i: int) -> Entity {
        self.entities@[i]
    }

    /// Every entity is well formed and every freed slot exists.
    pub closed spec fn well_formed(self) -> bool {
        &&& self.entities@.len() <= u32::MAX
        &&& forall|i: int|
            0 <= i < self.entities@.len() ==> #[trigger] self.entities@[i].well_formed()
        &&& forall|k: int| 0 <= k < self.free@.len() ==> #[trigger] self.free@[k] < self.entities@.len()
    }

    /// A well-formed world has at most `u32::MAX` entities.
    pub proof fn lemma_len(self)
        requires
            self.well_formed(),
        ensures
            self@.entities.len() <= u32::MAX,
    {
    }

    /// In a well-formed world every freed slot exists.
    pub proof fn lemma_free(self)
        requires
            self.well_formed(),
        ensures
            forall|k: int| 0 <= k < self@.free.len() ==> #[trigger] self@.free[k] < self@.entities.len(),
    {
    }

    pub proof fn lemma_entity(self, i: int)
        requires
            0 <= i < self@.entities.len(),
        ensures
            self.entity_spec(i)@ == self@.entities[i],
            self.well_formed() ==> self.entity_spec(i).well_formed(),
    {
    }

    /// A world with no entities and motion off.
    pub fn new() -> (r: World)
        ensures
            r.well_formed(),
            r@.entities.len() == 0,
            r@.free.len() == 0,
            !r@.motion,
    {
        World { entities: Vec::new(), free: Vec::new(), settings: GlobalSettings::default() }
    }

    /// The number of slots.
    pub fn len(&self) -> (r: usize)
        ensures
            r == self@.entities.len(),
    {
        self.entities.len()
    }

    /// The global settings.
    pub fn settings(&self) -> (r: &GlobalSettings)
        ensures
            (r.motion == MotionStatus::On) == self@.motion,
    {
        &self.settings
    }

    /// Mutable access to the global settings.
    pub fn settings_mut(&mut self) -> (r: &mut GlobalSettings)
        ensures
            (r.motion == MotionStatus::On) == old(self)@.motion,
            final(self)@ == (WorldView {
                motion: final(r).motion == MotionStatus::On,
                ..old(self)@
            }),
            final(self).well_formed() == old(self).well_formed(),
    {
        let r = &mut self.settings;
        r
    }

    /// The entity with index `i`.
    pub fn entity(&self, i: usize) -> (r: &Entity)
        requires
            i < self@.entities.len(),
        ensures
            r@ == self@.entities[i as int],
            self.well_formed() ==> r.well_formed(),
            *r == self.entity_spec(i as int),
    {
        &self.entities[i]
    }

    /// Mutable access to the entity with index `i`.
    pub fn entity_mut(&mut self, i: usize) -> (r: &mut Entity)
        requires
            i < old(self)@.entities.len(),
        ensures
            *r == old(self).entity_spec(i as int),
            final(self)@ == (WorldView {
                entities: old(self)@.entities.update(i as int, final(r)@),
                ..old(self)@
            }),
            old(self).well_formed() && final(r).well_formed() ==> final(self).well_formed(),
            final(self).entity_spec(i as int) == *final(r),
            forall|j: int|
                0 <= j < old(self)@.entities.len() && j != i ==> #[trigger] final(self).entity_spec(j)
                    == old(self).entity_spec(j),
    {
        &mut self.entities[i]
    }

    /// Add an entity, with the components of `entity`, in the slot freed
    /// last or else in a new slot, and return the slot's index.
    pub fn spawn(&mut self, entity: Entity) -> (r: u32)
        requires
            old(self).well_formed(),
            can_spawn(old(self)@),
        ensures
            r == spawn_index(old(self)@),
            final(self)@ == spawned(old(self)@, entity@),
            entity.well_formed() ==> final(self).well_formed(),
    {
        let ghost pre = *self;
        let mut e = entity;
        e.alive = true;
        match self.free.pop() {
            Some(i) => {
                proof {
                    assert(pre.free@[pre.free@.len() - 1] < pre.entities@.len());
                }
                e.generation = self.entities[i as usize].generation;
                self.entities.set(i as usize, e);
                proof {
                    assert(self@.entities =~= spawned(pre@, entity@).entities);
                    assert(self@.free =~= spawned(pre@, entity@).free);
                    assert forall|k: int| 0 <= k < self.free@.len() implies #[trigger] self.free@[k] < self.entities@.len() by {
                        assert(self.free@[k] == pre.free@[k]);
                    }
                }
                i
            },
            None => {
                let n = self.entities.len();
                e.generation = 0;
                self.entities.push(e);
                proof {
                    assert(self@.entities =~= spawned(pre@, entity@).entities);
                    assert forall|k: int| 0 <= k < self.free@.len() implies #[trigger] self.free@[k] < self.entities@.len() by {
                        assert(self.free@[k] == pre.free@[k]);
                    }
                }
                n as u32
            },
        }
    }

    /// Remove the entity that index `i` names (in the slot's first
    /// generation); false where there is none alive.
    pub fn despawn(&mut self, i: u32) -> (r: bool)
        requires
            old(self).well_formed(),
        ensures
            r == raw_alive(old(self)@, i as int),
            final(self)@ == (if r {
                despawned(old(self)@, i as int)
            } else {
                old(self)@
            }),
            final(self).well_formed(),
    {
        let idx = i as usize;
        if idx < self.entities.len() && self.entities[idx].alive && self.entities[idx].generation == 0 {
            let ghost pre = *self;
            let mut dead = Entity::empty();
            dead.alive = false;
            dead.generation = 1;
            self.entities.set(idx, dead);
            self.free.push(i);
            proof {
                assert(self@.entities =~= despawned(pre@, i as int).entities);
                assert(self@.free =~= despawned(pre@, i as int).free);
                assert forall|k: int| 0 <= k < self.free@.len() implies #[trigger] self.free@[k] < self.entities@.len() by {
                    if k < pre.free@.len() {
                        assert(self.free@[k] == pre.free@[k]);
                    }
                }
            }
            true
        } else {
            false
        }
    }
}

} // verus!
