use vstd::prelude::*;

use super::world::World;

verus! {

/// Whether devices are streaming motion.
#[derive(Debug, Clone, Copy, PartialEq, Eq, Structural)]
pub enum MotionStatus {
    Off,
    On,
}

impl MotionStatus {
    pub fn is_on(&self) -> (r: bool)
        ensures
            r == (*self == MotionStatus::On),
    {
        *self == MotionStatus::On
    }

    pub fn on(&mut self)
        ensures
            *final(self) == MotionStatus::On,
    {
        *self = MotionStatus::On;
    }

    pub fn is_off(&self) -> (r: bool)
        ensures
            r == (*self == MotionStatus::Off),
    {
        *self == MotionStatus::Off
    }

    pub fn off(&mut self)
        ensures
            *final(self) == MotionStatus::Off,
    {
        *self = MotionStatus::Off;
    }
}

impl Default for MotionStatus {
    fn default() -> (r: Self)
        ensures
            r == MotionStatus::Off,
    {
        MotionStatus::Off
    }
}

/// Settings that hold for the whole world.
#[derive(Debug, Clone, Copy)]
pub struct GlobalSettings {
    pub motion: MotionStatus,
}

impl Default for GlobalSettings {
    fn default() -> (r: Self)
        ensures
            r.motion == MotionStatus::Off,
    {
        GlobalSettings { motion: MotionStatus::Off }
    }
}

/// Turn motion on.
pub fn enable_motion(world: &mut World)
    requires
        old(world).well_formed(),
    ensures
        final(world).well_formed(),
        final(world)@ == (super::world::WorldView { motion: true, ..old(world)@ }),
{
    world.settings_mut().motion.on();
}

/// Whether motion is on.
pub fn is_motion_enabled(world: &World) -> (r: bool)
    ensures
        r == world@.motion,
{
    world.settings().motion.is_on()
}

} // verus!
