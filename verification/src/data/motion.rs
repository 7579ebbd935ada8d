use vstd::prelude::*;

verus! {

/// The motion mode of the engine.
#[derive(Clone, Copy, Debug, PartialEq, Eq, Structural)]
pub enum Mode {
    Idle,
    Live,
    Recording,
}

impl Mode {
    /// Returns true if mode is idle.
    pub fn is_idle(&self) -> (r: bool)
        ensures
            r == (*self == Mode::Idle),
    {
        *self == Self::Idle
    }

    /// Returns true if mode is live (or recording).
    pub fn is_live(&self) -> (r: bool)
        ensures
            r == (*self == Mode::Live || *self == Mode::Recording),
    {
        *self == Self::Live || *self == Self::Recording
    }

    /// Returns true if mode is recording.
    pub fn is_recording(&self) -> (r: bool)
        ensures
            r == (*self == Mode::Recording),
    {
        *self == Self::Recording
    }
}

impl Default for Mode {
    fn default() -> (r: Self)
        ensures
            r == Mode::Idle,
    {
        Self::Idle
    }
}

} // verus!
