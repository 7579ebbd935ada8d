use vstd::prelude::*;

use crate::data::controllers::{Controller, ControllerView};
use crate::data::motion::Mode;
use crate::name_map::{Duplicate, NameMap};
use crate::scene::{Scene, SceneObjectView};

verus! {

/// Everything the engine tracks: the motion mode, the scene and the
/// controllers by name.
#[derive(Debug, Clone)]
pub struct State {
    pub mode: Mode,
    pub scene: Scene,
    pub controllers: NameMap<Controller>,
}

/// Model of the engine state.
pub struct StateView {
    pub mode: Mode,
    pub scene: Map<Seq<char>, SceneObjectView>,
    pub controllers: Map<Seq<char>, ControllerView>,
}

impl View for State {
    type V = StateView;

    open spec fn view(&self) -> StateView {
        StateView { mode: self.mode, scene: self.scene@, controllers: self.controllers@ }
    }
}

impl Duplicate for State {
    open spec fn well_formed(&self) -> bool {
        self.scene.well_formed() && self.controllers.well_formed()
    }

    fn duplicate(&self) -> (r: Self) {
        State {
            mode: self.mode,
            scene: self.scene.duplicate(),
            controllers: self.controllers.copy(),
        }
    }
}

impl Default for State {
    fn default() -> (r: Self)
        ensures
            r.well_formed(),
            r@ == (StateView {
                mode: Mode::Idle,
                scene: Map::empty(),
                controllers: Map::empty(),
            }),
    {
        State { mode: Mode::Idle, scene: Scene::new(), controllers: NameMap::new() }
    }
}

} // verus!
