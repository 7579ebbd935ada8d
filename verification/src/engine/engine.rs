use vstd::prelude::*;

use super::state::{State, StateView};
use crate::data::controllers::{Controller, ControllerView};
use crate::data::property::{property_reset, Property, PropertyLink, PropertyLinkView, PropertyView};
use crate::data::value::{updated, Value};
use crate::data::property::property_updated;
use crate::data::sample::Sample;
use crate::data::motion::Mode;
use crate::commands::{
    AddSceneObject, ChangeMode, ClearScene, Command, ControllerCommand, DeleteSceneObject, Echo,
    Init, Message, SampleMotion, SystemCommand, UpdateSceneObject,
};
use crate::connection::{ContextMap, ContextView};
use crate::error::{Error, Result};
use crate::events::{ConnectionOpenedEvent, ErrorEvent, Event, EventBody, StateChangeEvent};
use crate::scene::{SceneObject, SceneObjectView};
use crate::name_map::{Duplicate, NameMap};

verus! {

/// The controller with every property reset to its default.
pub open spec fn controller_reset(c: ControllerView) -> ControllerView {
    ControllerView { properties: c.properties.map_values(|p: PropertyView| property_reset(p)), ..c }
}

/// Every controller with every property reset to its default.
pub open spec fn controllers_reset(
    cs: Map<Seq<char>, ControllerView>,
) -> Map<Seq<char>, ControllerView> {
    cs.map_values(|c: ControllerView| controller_reset(c))
}

/// Reset every property of a property map to its default.
fn reset_properties(props: &mut NameMap<Property>)
    requires
        old(props).well_formed(),
    ensures
        final(props).well_formed(),
        final(props)@ == old(props)@.map_values(|p: PropertyView| property_reset(p)),
{
    let ghost pre = *props;
    let n = props.len();
    let mut i: usize = 0;
    while i < n
        invariant
            n == pre.spec_len(),
            i <= n,
            pre.well_formed(),
            props.spec_len() == n,
            forall|j: int| 0 <= j < n ==> #[trigger] props.key(j) == pre.key(j),
            forall|j: int| 0 <= j < i ==> #[trigger] props.value(j)@ == property_reset(pre.value(j)@),
            forall|j: int| i <= j < n ==> #[trigger] props.value(j) == pre.value(j),
        decreases n - i,
    {
        let p = props.value_at_mut(i);
        let _ = p.reset();
        i = i + 1;
    }
    proof {
        pre.lemma_same_keys(*props);
        assert(props@ =~= pre@.map_values(|p: PropertyView| property_reset(p)));
    }
}

/// Reset the sampling state of the given state: every property of every
/// controller goes back to its default value. Properties whose default is
/// of another kind than their value stay as they are.
pub fn reset_controller_properties(state: &mut State)
    requires
        old(state).well_formed(),
    ensures
        final(state).well_formed(),
        final(state)@ == (StateView {
            controllers: controllers_reset(old(state)@.controllers),
            ..old(state)@
        }),
{
    let ghost pre = state.controllers;
    let n = state.controllers.len();
    let mut i: usize = 0;
    while i < n
        invariant
            n == pre.spec_len(),
            i <= n,
            pre.well_formed(),
            state.controllers.spec_len() == n,
            forall|j: int| 0 <= j < n ==> #[trigger] state.controllers.key(j) == pre.key(j),
            forall|j: int|
                0 <= j < i ==> #[trigger] state.controllers.value(j)@ == controller_reset(
                    pre.value(j)@,
                ),
            forall|j: int| 0 <= j < i ==> #[trigger] state.controllers.value(j).well_formed(),
            state.scene == old(state).scene,
            state.mode == old(state).mode,
            old(state).well_formed(),
            pre == old(state).controllers,
            forall|j: int| i <= j < n ==> #[trigger] state.controllers.value(j) == pre.value(j),
        decreases n - i,
    {
        assert(pre.value(i as int).well_formed());
        let c = state.controllers.value_at_mut(i);
        reset_properties(&mut c.properties);
        i = i + 1;
    }
    proof {
        pre.lemma_same_keys(state.controllers);
        assert(state.controllers@ =~= controllers_reset(pre@));
        assert forall|j: int| 0 <= j < n implies #[trigger] state.controllers.value(j).well_formed() by {}
    }
}

/// The link after rendering: a bound link whose controller and controller
/// property exist takes the controller property's value (where the kinds
/// agree); every other link stays as it is.
pub open spec fn render_link(
    l: PropertyLinkView,
    cs: Map<Seq<char>, ControllerView>,
) -> PropertyLinkView {
    match l {
        PropertyLinkView::Bound { value, namespace, property } => {
            if cs.contains_key(namespace) && cs[namespace].properties.contains_key(property) {
                PropertyLinkView::Bound {
                    value: updated(value, cs[namespace].properties[property].value),
                    namespace,
                    property,
                }
            } else {
                l
            }
        },
        PropertyLinkView::Unbound { .. } => l,
    }
}

/// The object after rendering each of its links.
pub open spec fn object_rendered(
    o: SceneObjectView,
    cs: Map<Seq<char>, ControllerView>,
) -> SceneObjectView {
    SceneObjectView {
        properties: o.properties.map_values(|l: PropertyLinkView| render_link(l, cs)),
        ..o
    }
}

/// The scene after rendering each of its objects.
pub open spec fn scene_rendered(
    scene: Map<Seq<char>, SceneObjectView>,
    cs: Map<Seq<char>, ControllerView>,
) -> Map<Seq<char>, SceneObjectView> {
    scene.map_values(|o: SceneObjectView| object_rendered(o, cs))
}

/// Render the links of one object from the controllers.
fn render_links(props: &mut NameMap<PropertyLink>, controllers: &NameMap<Controller>)
    requires
        old(props).well_formed(),
        controllers.well_formed(),
    ensures
        final(props).well_formed(),
        final(props)@ == old(props)@.map_values(
            |l: PropertyLinkView| render_link(l, controllers@),
        ),
{
    let ghost pre = *props;
    let n = props.len();
    let mut i: usize = 0;
    while i < n
        invariant
            n == pre.spec_len(),
            i <= n,
            pre.well_formed(),
            controllers.well_formed(),
            props.spec_len() == n,
            forall|j: int| 0 <= j < n ==> #[trigger] props.key(j) == pre.key(j),
            forall|j: int|
                0 <= j < i ==> #[trigger] props.value(j)@ == render_link(
                    pre.value(j)@,
                    controllers@,
                ),
            forall|j: int| i <= j < n ==> #[trigger] props.value(j) == pre.value(j),
        decreases n - i,
    {
        let link = props.value_at_mut(i);
        match link {
            PropertyLink::Bound { value, binding } => {
                match controllers.get(&binding.namespace) {
                    Some(c) => {
                        proof {
                            controllers.lemma_key_in_entries(binding.namespace@);
                            let a = controllers.index_of(binding.namespace@);
                            assert(controllers.value(a).well_formed());
                        }
                        match c.properties.get(&binding.property) {
                            Some(p) => {
                                let _ = value.update(&p.value);
                            },
                            None => {},
                        }
                    },
                    None => {},
                }
            },
            PropertyLink::Unbound { .. } => {},
        }
        i = i + 1;
    }
    proof {
        pre.lemma_same_keys(*props);
        assert(props@ =~= pre@.map_values(|l: PropertyLinkView| render_link(l, controllers@)));
    }
}

/// Render every scene object of the state from the controllers.
pub fn render_state(state: &mut State)
    requires
        old(state).well_formed(),
    ensures
        final(state).well_formed(),
        final(state)@ == (StateView {
            scene: scene_rendered(old(state)@.scene, old(state)@.controllers),
            ..old(state)@
        }),
{
    let ghost pre = state.scene.objects_spec();
    proof {
        state.scene.lemma_view();
    }
    let objects = state.scene.objects_mut();
    let n = objects.len();
    let mut i: usize = 0;
    while i < n
        invariant
            n == pre.spec_len(),
            i <= n,
            pre.well_formed(),
            state.controllers.well_formed(),
            objects.spec_len() == n,
            forall|j: int| 0 <= j < n ==> #[trigger] objects.key(j) == pre.key(j),
            forall|j: int|
                0 <= j < i ==> #[trigger] objects.value(j)@ == object_rendered(
                    pre.value(j)@,
                    state.controllers@,
                ),
            forall|j: int| 0 <= j < i ==> #[trigger] objects.value(j).well_formed(),
            forall|j: int| i <= j < n ==> #[trigger] objects.value(j) == pre.value(j),
        decreases n - i,
    {
        assert(pre.value(i as int).well_formed());
        let obj = objects.value_at_mut(i);
        proof {
            obj.lemma_view();
        }
        let props = obj.properties_mut();
        render_links(props, &state.controllers);
        proof {
            obj.lemma_view();
        }
        i = i + 1;
    }
    proof {
        pre.lemma_same_keys(*objects);
        assert(objects@ =~= scene_rendered(pre@, state.controllers@));
        assert forall|j: int| 0 <= j < n implies #[trigger] objects.value(j).well_formed() by {}
    }
    proof {
        state.scene.lemma_view();
    }
}

/// The properties after a sample: each property that the sample names takes
/// the sample's value (where the kinds agree); the sample's other names are
/// ignored.
pub open spec fn sampled_properties(
    props: Map<Seq<char>, PropertyView>,
    sample: Map<Seq<char>, Value>,
) -> Map<Seq<char>, PropertyView> {
    props.map_entries(
        |k: Seq<char>, p: PropertyView|
            if sample.contains_key(k) {
                property_updated(p, sample[k])
            } else {
                p
            },
    )
}

/// The controllers after the controller `name` received a sample.
pub open spec fn controllers_sampled(
    cs: Map<Seq<char>, ControllerView>,
    name: Seq<char>,
    sample: Map<Seq<char>, Value>,
) -> Map<Seq<char>, ControllerView> {
    if cs.contains_key(name) {
        cs.insert(
            name,
            ControllerView {
                properties: sampled_properties(cs[name].properties, sample),
                ..cs[name]
            },
        )
    } else {
        cs
    }
}

/// Apply a sample to the properties of one controller.
fn sample_properties(props: &mut NameMap<Property>, sample: &Sample)
    requires
        old(props).well_formed(),
        sample.wf(),
    ensures
        final(props).well_formed(),
        final(props)@ == sampled_properties(old(props)@, sample@),
{
    let ghost pre = *props;
    let values = sample.properties();
    let n = props.len();
    let mut i: usize = 0;
    while i < n
        invariant
            n == pre.spec_len(),
            i <= n,
            pre.well_formed(),
            values.well_formed(),
            values@ == sample@,
            props.spec_len() == n,
            forall|j: int| 0 <= j < n ==> #[trigger] props.key(j) == pre.key(j),
            forall|j: int|
                0 <= j < i ==> #[trigger] props.value(j)@ == (if sample@.contains_key(pre.key(j)) {
                    property_updated(pre.value(j)@, sample@[pre.key(j)])
                } else {
                    pre.value(j)@
                }),
            forall|j: int| i <= j < n ==> #[trigger] props.value(j) == pre.value(j),
        decreases n - i,
    {
        let key = props.key_at(i);
        match values.get(key) {
            Some(v) => {
                let v = *v;
                let p = props.value_at_mut(i);
                let _ = p.update(&v);
            },
            None => {},
        }
        i = i + 1;
    }
    proof {
        pre.lemma_same_keys(*props);
        assert(props@ =~= sampled_properties(pre@, sample@));
    }
}

/// Apply a sample to the controller `name`, where there is one.
pub fn sample_controller(controllers: &mut NameMap<Controller>, name: &crate::name::Name, sample: &Sample)
    requires
        old(controllers).well_formed(),
        sample.wf(),
    ensures
        final(controllers).well_formed(),
        final(controllers)@ == controllers_sampled(old(controllers)@, name@, sample@),
{
    let ghost pre = *controllers;
    match controllers.find(name) {
        Some(i) => {
            proof {
                pre.lemma_index_of(i as int);
                assert(pre.value(i as int).well_formed());
            }
            let c = controllers.value_at_mut(i);
            sample_properties(&mut c.properties, sample);
            proof {
                pre.lemma_same_keys(*controllers);
                assert forall|j: int| 0 <= j < controllers.spec_len() implies #[trigger] controllers.value(j).well_formed() by {
                    if j != i {
                        assert(pre.value(j).well_formed());
                    }
                }
                assert forall|k: Seq<char>| #[trigger] controllers@.contains_key(k) implies controllers@[k] == controllers_sampled(pre@, name@, sample@)[k] by {
                    let a = pre.index_of(k);
                    pre.lemma_index_of(a);
                }
                assert(controllers@ =~= controllers_sampled(pre@, name@, sample@));
            }
        },
        None => {},
    }
}

/// What the engine asks its surroundings to do, in order.
#[derive(Debug)]
pub enum Output {
    /// Show the event to the observer only.
    Notify(Event),
    /// Show the event to the observer and send it to the connections.
    Send(Event),
    /// Close the connection with this id.
    CloseConnection(usize),
}

/// Model of the engine.
pub struct EngineView {
    /// The state that commands change.
    pub active: StateView,
    /// The state as of the last tick.
    pub current: StateView,
    /// The contexts of the connections.
    pub contexts: Map<usize, ContextView>,
}

/// Why the engine refused a command.
pub enum Refusal {
    /// The command edits the scene or the controllers while in live mode
    /// (live or recording).
    Mode,
    /// The object to add is already in the scene.
    ObjectExists,
    /// The object to update is not in the scene.
    ObjectMissing,
}

/// The error that the engine answers a refusal with.
pub open spec fn refusal_error(f: Refusal, e: Error) -> bool {
    match f {
        Refusal::Mode => e matches Error::InvalidMode(m) && m@
            == "cannot perform command while in live mode"@,
        Refusal::ObjectExists => e matches Error::InvalidSceneObject(m) && m@
            == "object already exists"@,
        Refusal::ObjectMissing => e matches Error::InvalidSceneObject(m) && m@
            == "object does not exist"@,
    }
}

/// Commands that edit the scene or the controllers are accepted in idle
/// mode only: live mode, recording included, refuses them.
pub open spec fn editable(mode: Mode) -> bool {
    mode == Mode::Idle
}

/// The state after a mode change: leaving the sampling modes for idle puts
/// every controller property back to its default.
pub open spec fn mode_changed(s: StateView, mode: Mode) -> StateView {
    if s.mode != Mode::Idle && mode == Mode::Idle {
        StateView { mode, controllers: controllers_reset(s.controllers), ..s }
    } else {
        StateView { mode, ..s }
    }
}

/// The state after a sample from connection `source`: ignored in idle mode
/// and when the connection has no controller name.
pub open spec fn state_sampled(
    s: StateView,
    contexts: Map<usize, ContextView>,
    source: usize,
    sample: Map<Seq<char>, Value>,
) -> StateView {
    if s.mode == Mode::Idle {
        s
    } else if contexts.contains_key(source) && contexts[source].name is Some {
        StateView {
            controllers: controllers_sampled(s.controllers, contexts[source].name->0, sample),
            ..s
        }
    } else {
        s
    }
}

/// The contexts after connection `source` introduced itself as `name`.
pub open spec fn contexts_named(
    contexts: Map<usize, ContextView>,
    source: usize,
    name: Seq<char>,
) -> Map<usize, ContextView> {
    contexts.insert(
        source,
        ContextView {
            uid: if contexts.contains_key(source) {
                contexts[source].uid
            } else {
                0
            },
            name: Some(name),
        },
    )
}

/// The effect of a controller command from connection `source`: the engine
/// after it and the refusal, where it was refused. A refused command
/// changes nothing.
pub open spec fn controller_step(
    e: EngineView,
    source: usize,
    cmd: ControllerCommand,
) -> (EngineView, Option<Refusal>) {
    let s = e.active;
    match cmd {
        ControllerCommand::Echo(_) => (e, None),
        ControllerCommand::Init(init) => {
            if !editable(s.mode) {
                (e, Some(Refusal::Mode))
            } else {
                (
                    EngineView {
                        active: StateView {
                            controllers: s.controllers.insert(init.peer.name@, init.peer@),
                            ..s
                        },
                        contexts: contexts_named(e.contexts, source, init.peer.name@),
                        ..e
                    },
                    None,
                )
            }
        },
        ControllerCommand::ChangeMode(m) => (
            EngineView { active: mode_changed(s, m.0), ..e },
            None,
        ),
        ControllerCommand::AddSceneObject(o) => {
            if !editable(s.mode) {
                (e, Some(Refusal::Mode))
            } else if s.scene.contains_key(o.0@.name) {
                (e, Some(Refusal::ObjectExists))
            } else {
                (
                    EngineView {
                        active: StateView { scene: s.scene.insert(o.0@.name, o.0@), ..s },
                        ..e
                    },
                    None,
                )
            }
        },
        ControllerCommand::ClearScene(_) => {
            if !editable(s.mode) {
                (e, Some(Refusal::Mode))
            } else {
                (EngineView { active: StateView { scene: Map::empty(), ..s }, ..e }, None)
            }
        },
        ControllerCommand::DeleteSceneObject(n) => {
            if !editable(s.mode) {
                (e, Some(Refusal::Mode))
            } else {
                (
                    EngineView { active: StateView { scene: s.scene.remove(n.0@), ..s }, ..e },
                    None,
                )
            }
        },
        ControllerCommand::UpdateSceneObject(o) => {
            if !editable(s.mode) {
                (e, Some(Refusal::Mode))
            } else if !s.scene.contains_key(o.0@.name) {
                (e, Some(Refusal::ObjectMissing))
            } else {
                (
                    EngineView {
                        active: StateView { scene: s.scene.insert(o.0@.name, o.0@), ..s },
                        ..e
                    },
                    None,
                )
            }
        },
        ControllerCommand::SampleMotion(sm) => (
            EngineView { active: state_sampled(s, e.contexts, source, sm.0@), ..e },
            None,
        ),
    }
}

/// The commands whose parts are well formed.
pub open spec fn command_wf(cmd: Command) -> bool {
    match cmd {
        Command::Controller(ControllerCommand::Init(init)) => init.peer.well_formed(),
        Command::Controller(ControllerCommand::AddSceneObject(o)) => o.0.well_formed(),
        Command::Controller(ControllerCommand::UpdateSceneObject(o)) => o.0.well_formed(),
        Command::Controller(ControllerCommand::SampleMotion(sm)) => sm.0.wf(),
        _ => true,
    }
}

/// The event that carries an error back to connection `source`.
pub open spec fn is_error_event_for(ev: Event, source: usize, f: Refusal) -> bool {
    &&& ev.target == Some(source)
    &&& ev.body matches EventBody::Error(ErrorEvent(err)) && refusal_error(f, err)
}

/// The core of the motion engine: the state that commands change, the state
/// published at the last tick and what it knows of each connection.
pub struct Engine {
    active_state: State,
    current_state: State,
    contexts: ContextMap,
}

impl View for Engine {
    type V = EngineView;

    closed spec fn view(&self) -> EngineView {
        EngineView {
            active: self.active_state@,
            current: self.current_state@,
            contexts: self.contexts@,
        }
    }
}

/// Builds an engine.
pub struct Builder {
    initial_state: Option<State>,
}

impl Builder {
    /// A builder with no initial state.
    pub fn new() -> (r: Self)
        ensures
            r.initial_state_spec() is None,
    {
        Builder { initial_state: None }
    }

    pub closed spec fn initial_state_spec(self) -> Option<State> {
        self.initial_state
    }

    /// Start the engine from the given state.
    pub fn with_inital_state(self, state: State) -> (r: Self)
        ensures
            r.initial_state_spec() == Some(state),
    {
        Builder { initial_state: Some(state) }
    }

    /// The engine, whose active and current states are both the initial
    /// state (the default state where none was given).
    pub fn build(self) -> (r: Result<Engine>)
        requires
            self.initial_state_spec() matches Some(s) ==> s.well_formed(),
        ensures
            r matches Ok(e) && e.wf() && e@.contexts == Map::<usize, ContextView>::empty() && (
            match self.initial_state_spec() {
                Some(s) => e@.active == s@ && e@.current == s@,
                None => e@.active == State::default_view() && e@.current
                    == State::default_view(),
            }),
    {
        let state = match self.initial_state {
            Some(s) => s,
            None => State::default(),
        };
        let current = state.duplicate();
        Ok(Engine { active_state: state, current_state: current, contexts: ContextMap::new() })
    }
}

impl Default for Builder {
    fn default() -> (r: Self)
        ensures
            r.initial_state_spec() is None,
    {
        Builder::new()
    }
}

impl State {
    pub open spec fn default_view() -> StateView {
        StateView { mode: Mode::Idle, scene: Map::empty(), controllers: Map::empty() }
    }
}

impl Engine {
    /// Both states are well formed.
    pub closed spec fn wf(self) -> bool {
        self.active_state.well_formed() && self.current_state.well_formed()
    }

    /// A builder for an engine.
    pub fn builder() -> (r: Builder)
        ensures
            r.initial_state_spec() is None,
    {
        Builder::new()
    }

    /// The state that commands change.
    pub fn active_state(&self) -> (r: &State)
        ensures
            r@ == self@.active,
            self.wf() ==> r.well_formed(),
    {
        &self.active_state
    }

    /// The state as of the last tick.
    pub fn current_state(&self) -> (r: &State)
        ensures
            r@ == self@.current,
            self.wf() ==> r.well_formed(),
    {
        &self.current_state
    }

    /// The contexts of the connections.
    pub fn contexts(&self) -> (r: &ContextMap)
        ensures
            r@ == self@.contexts,
    {
        &self.contexts
    }

    /// Refuse to edit the scene or the controllers in live mode (live or
    /// recording): only idle mode accepts edits.
    pub fn ensure_idle_mode(&self) -> (r: Result<()>)
        ensures
            r is Ok <==> editable(self@.active.mode),
            r matches Err(e) ==> refusal_error(Refusal::Mode, e),
    {
        if self.active_state.mode.is_live() {
            Err(Error::InvalidMode("cannot perform command while in live mode".to_owned()))
        } else {
            Ok(())
        }
    }

    /// A controller introduces itself on connection `source_id`: it is
    /// recorded under its name and the connection takes that name.
    pub fn handle_init(&mut self, init: Init, source_id: usize) -> (r: Result<()>)
        requires
            old(self).wf(),
            init.peer.well_formed(),
        ensures
            final(self).wf(),
            final(self)@ == controller_step(
                old(self)@,
                source_id,
                ControllerCommand::Init(init),
            ).0,
            r is Ok <==> editable(old(self)@.active.mode),
            r matches Err(e) ==> refusal_error(Refusal::Mode, e),
    {
        self.ensure_idle_mode()?;
        let peer = init.peer;
        let name = peer.name.duplicate();
        self.contexts.set_name(source_id, name);
        let key = peer.name.duplicate();
        self.active_state.controllers.insert(key, peer);
        Ok(())
    }

    /// Add an object to the scene; refused when one of that name is there.
    pub fn handle_add_scene_obj(&mut self, object: AddSceneObject) -> (r: Result<()>)
        requires
            old(self).wf(),
            object.0.well_formed(),
        ensures
            final(self).wf(),
            final(self)@ == controller_step(
                old(self)@,
                0,
                ControllerCommand::AddSceneObject(object),
            ).0,
            match controller_step(old(self)@, 0, ControllerCommand::AddSceneObject(object)).1 {
                Some(f) => r matches Err(e) && refusal_error(f, e),
                None => r is Ok,
            },
    {
        self.ensure_idle_mode()?;
        let object = object.0;
        let name = object.name().duplicate();
        proof {
            self.active_state.scene.lemma_view();
        }
        if self.active_state.scene.objects().contains_key(&name) {
            Err(Error::InvalidSceneObject("object already exists".to_owned()))
        } else {
            let objects = self.active_state.scene.objects_mut();
            objects.insert(name, object);
            proof {
                self.active_state.scene.lemma_view();
            }
            Ok(())
        }
    }

    /// Replace an object of the scene; refused when none of that name is there.
    pub fn handle_update_scene_obj(&mut self, update: UpdateSceneObject) -> (r: Result<()>)
        requires
            old(self).wf(),
            update.0.well_formed(),
        ensures
            final(self).wf(),
            final(self)@ == controller_step(
                old(self)@,
                0,
                ControllerCommand::UpdateSceneObject(update),
            ).0,
            match controller_step(old(self)@, 0, ControllerCommand::UpdateSceneObject(update)).1 {
                Some(f) => r matches Err(e) && refusal_error(f, e),
                None => r is Ok,
            },
    {
        self.ensure_idle_mode()?;
        let scene_object = update.0;
        let name = scene_object.name().duplicate();
        proof {
            self.active_state.scene.lemma_view();
        }
        if self.active_state.scene.objects().contains_key(&name) {
            let objects = self.active_state.scene.objects_mut();
            objects.insert(name, scene_object);
            proof {
                self.active_state.scene.lemma_view();
            }
            Ok(())
        } else {
            Err(Error::InvalidSceneObject("object does not exist".to_owned()))
        }
    }

    /// Remove an object from the scene, by name.
    pub fn handle_delete_scene_obj(&mut self, name: DeleteSceneObject) -> (r: Result<()>)
        requires
            old(self).wf(),
        ensures
            final(self).wf(),
            final(self)@ == controller_step(
                old(self)@,
                0,
                ControllerCommand::DeleteSceneObject(name),
            ).0,
            r is Ok <==> editable(old(self)@.active.mode),
            r matches Err(e) ==> refusal_error(Refusal::Mode, e),
    {
        self.ensure_idle_mode()?;
        proof {
            self.active_state.scene.lemma_view();
        }
        let objects = self.active_state.scene.objects_mut();
        let _ = objects.remove(&name.0);
        proof {
            self.active_state.scene.lemma_view();
        }
        Ok(())
    }

    /// Remove every object from the scene.
    pub fn handle_clear_scene(&mut self, clear: ClearScene) -> (r: Result<()>)
        requires
            old(self).wf(),
        ensures
            final(self).wf(),
            final(self)@ == controller_step(
                old(self)@,
                0,
                ControllerCommand::ClearScene(clear),
            ).0,
            r is Ok <==> editable(old(self)@.active.mode),
            r matches Err(e) ==> refusal_error(Refusal::Mode, e),
    {
        self.ensure_idle_mode()?;
        proof {
            self.active_state.scene.lemma_view();
        }
        self.active_state.scene.objects_mut().clear();
        proof {
            self.active_state.scene.lemma_view();
        }
        Ok(())
    }

    /// Switch the motion mode; going back to idle from live or recording
    /// resets the controller properties to their defaults.
    pub fn handle_mode_change(&mut self, mode_change: ChangeMode) -> (r: Result<()>)
        requires
            old(self).wf(),
        ensures
            final(self).wf(),
            final(self)@ == controller_step(
                old(self)@,
                0,
                ControllerCommand::ChangeMode(mode_change),
            ).0,
            r is Ok,
    {
        let is_sample_mode = !self.active_state.mode.is_idle();
        if is_sample_mode && mode_change.0.is_idle() {
            reset_controller_properties(&mut self.active_state);
        }
        self.active_state.mode = mode_change.0;
        Ok(())
    }

    /// A sample from connection `source_id` updates the properties of the
    /// controller that the connection named itself, outside idle mode.
    pub fn handle_sample(&mut self, sample: SampleMotion, source_id: usize) -> (r: Result<()>)
        requires
            old(self).wf(),
            sample.0.wf(),
        ensures
            final(self).wf(),
            final(self)@ == controller_step(
                old(self)@,
                source_id,
                ControllerCommand::SampleMotion(sample),
            ).0,
            r is Ok,
    {
        if self.active_state.mode.is_idle() {
            return Ok(());
        }
        let sample = sample.0;
        let context = match self.contexts.context(source_id) {
            Some(c) => c,
            None => {
                return Ok(());
            },
        };
        let name = match &context.name {
            Some(n) => n.duplicate(),
            None => {
                return Ok(());
            },
        };
        sample_controller(&mut self.active_state.controllers, &name, &sample);
        Ok(())
    }

    /// Answer an echo: the observer is shown the echo event, then it is sent
    /// back to connection `source_id`.
    pub fn handle_echo(&self, source_id: usize, message: Echo) -> (r: Vec<Output>)
        ensures
            r@.len() == 2,
            r@[0] == Output::Notify(Event { target: Some(source_id), body: EventBody::Echo(message) }),
            r@[1] == Output::Send(Event { target: Some(source_id), body: EventBody::Echo(message) }),
    {
        let copy = Echo(message.0.clone());
        let mut out: Vec<Output> = Vec::new();
        out.push(Output::Notify(Event { target: Some(source_id), body: EventBody::Echo(copy) }));
        out.push(Output::Send(Event { target: Some(source_id), body: EventBody::Echo(message) }));
        out
    }

    /// Dispatch a controller command from connection `source_id`. A refused
    /// command is answered with its error.
    pub fn handle_client_command(&mut self, source_id: usize, cmd: ControllerCommand) -> (r: Result<Vec<Output>>)
        requires
            old(self).wf(),
            command_wf(Command::Controller(cmd)),
        ensures
            final(self).wf(),
            final(self)@ == controller_step(old(self)@, source_id, cmd).0,
            match controller_step(old(self)@, source_id, cmd).1 {
                Some(f) => r matches Err(e) && refusal_error(f, e),
                None => r is Ok,
            },
            r matches Ok(out) ==> match cmd {
                ControllerCommand::Echo(m) => out@ == seq![
                    Output::Notify(Event { target: Some(source_id), body: EventBody::Echo(m) }),
                    Output::Send(Event { target: Some(source_id), body: EventBody::Echo(m) }),
                ],
                _ => out@.len() == 0,
            },
    {
        match cmd {
            ControllerCommand::Echo(message) => {
                let out = self.handle_echo(source_id, message);
                assert(out@ =~= seq![
                    Output::Notify(Event { target: Some(source_id), body: EventBody::Echo(message) }),
                    Output::Send(Event { target: Some(source_id), body: EventBody::Echo(message) }),
                ]);
                Ok(out)
            },
            ControllerCommand::Init(init) => {
                self.handle_init(init, source_id)?;
                Ok(Vec::new())
            },
            ControllerCommand::UpdateSceneObject(update) => {
                self.handle_update_scene_obj(update)?;
                Ok(Vec::new())
            },
            ControllerCommand::AddSceneObject(object) => {
                self.handle_add_scene_obj(object)?;
                Ok(Vec::new())
            },
            ControllerCommand::ClearScene(clear) => {
                self.handle_clear_scene(clear)?;
                Ok(Vec::new())
            },
            ControllerCommand::DeleteSceneObject(name) => {
                self.handle_delete_scene_obj(name)?;
                Ok(Vec::new())
            },
            ControllerCommand::ChangeMode(mode_change) => {
                self.handle_mode_change(mode_change)?;
                Ok(Vec::new())
            },
            ControllerCommand::SampleMotion(sample) => {
                self.handle_sample(sample, source_id)?;
                Ok(Vec::new())
            },
        }
    }

    /// Dispatch an internal command from connection `source_id`.
    pub fn handle_internal_command(&mut self, source_id: usize, cmd: SystemCommand) -> (r: Vec<Output>)
        requires
            old(self).wf(),
        ensures
            final(self).wf(),
            match cmd {
                SystemCommand::OpenConnection(_) => final(self)@ == old(self)@ && r@ == seq![
                    Output::Send(
                        Event {
                            target: Some(source_id),
                            body: EventBody::ConnectionOpened(ConnectionOpenedEvent()),
                        },
                    ),
                ],
                SystemCommand::CloseConnection(_) => final(self)@ == (EngineView {
                    contexts: old(self)@.contexts.remove(source_id),
                    ..old(self)@
                }) && r@ == seq![Output::CloseConnection(source_id)],
            },
    {
        let mut out: Vec<Output> = Vec::new();
        match cmd {
            SystemCommand::OpenConnection(_) => {
                out.push(
                    Output::Send(
                        Event {
                            target: Some(source_id),
                            body: EventBody::ConnectionOpened(ConnectionOpenedEvent()),
                        },
                    ),
                );
            },
            SystemCommand::CloseConnection(_) => {
                self.contexts.remove(source_id);
                out.push(Output::CloseConnection(source_id));
            },
        }
        assert(out@ =~= match cmd {
            SystemCommand::OpenConnection(_) => seq![
                Output::Send(
                    Event {
                        target: Some(source_id),
                        body: EventBody::ConnectionOpened(ConnectionOpenedEvent()),
                    },
                ),
            ],
            SystemCommand::CloseConnection(_) => seq![Output::CloseConnection(source_id)],
        });
        out
    }

    /// The event that answers connection `source_id` with an error.
    pub fn error_event(source_id: usize, err: Error) -> (r: Event)
        ensures
            r.target == Some(source_id),
            r.body == EventBody::Error(ErrorEvent(err)),
    {
        Event { target: Some(source_id), body: EventBody::Error(ErrorEvent(err)) }
    }

    /// Apply the given message to the engine. What it asks of the observer
    /// and the network comes back in order; a refused command is answered
    /// with an error event for the connection that sent it.
    pub fn apply(&mut self, message: Message) -> (r: Vec<Output>)
        requires
            old(self).wf(),
            command_wf(message.command),
        ensures
            final(self).wf(),
            final(self)@ == engine_step(old(self)@, message),
            match message.command {
                Command::Controller(c) => match controller_step(old(self)@, message.source_id, c).1 {
                    Some(f) => r@.len() == 1 && (r@[0] matches Output::Send(ev) && is_error_event_for(
                        ev,
                        message.source_id,
                        f,
                    )),
                    None => match c {
                        ControllerCommand::Echo(m) => r@ == seq![
                            Output::Notify(Event { target: Some(message.source_id), body: EventBody::Echo(m) }),
                            Output::Send(Event { target: Some(message.source_id), body: EventBody::Echo(m) }),
                        ],
                        _ => r@.len() == 0,
                    },
                },
                Command::System(SystemCommand::OpenConnection(_)) => r@ == seq![
                    Output::Send(
                        Event {
                            target: Some(message.source_id),
                            body: EventBody::ConnectionOpened(ConnectionOpenedEvent()),
                        },
                    ),
                ],
                Command::System(SystemCommand::CloseConnection(_)) => r@ == seq![
                    Output::CloseConnection(message.source_id),
                ],
                Command::Invalid => r@.len() == 0,
            },
    {
        let source_id = message.source_id;
        match message.command {
            Command::Controller(client_command) => {
                match self.handle_client_command(source_id, client_command) {
                    Ok(out) => out,
                    Err(err) => {
                        let mut out: Vec<Output> = Vec::new();
                        out.push(Output::Send(Engine::error_event(source_id, err)));
                        out
                    },
                }
            },
            Command::System(internal_command) => {
                self.handle_internal_command(source_id, internal_command)
            },
            Command::Invalid => Vec::new(),
        }
    }

    /// Render the scene from the controllers: every bound property takes the
    /// value of the controller property it is bound to.
    pub fn render(&mut self)
        requires
            old(self).wf(),
        ensures
            final(self).wf(),
            final(self)@ == (EngineView {
                active: StateView {
                    scene: scene_rendered(old(self)@.active.scene, old(self)@.active.controllers),
                    ..old(self)@.active
                },
                ..old(self)@
            }),
    {
        render_state(&mut self.active_state);
    }

    /// Render, publish the active state as the current one and return the
    /// event that carries it to every connection.
    pub fn tick(&mut self) -> (r: Event)
        requires
            old(self).wf(),
        ensures
            final(self).wf(),
            final(self)@ == tick_step(old(self)@),
            r.target is None,
            r.body matches EventBody::StateChanged(StateChangeEvent(s)) && s@ == final(self)@.current,
    {
        self.render();
        self.current_state = self.active_state.duplicate();
        let published = self.current_state.duplicate();
        Event { target: None, body: EventBody::StateChanged(StateChangeEvent(published)) }
    }
}

/// The engine after a message.
pub open spec fn engine_step(e: EngineView, m: Message) -> EngineView {
    match m.command {
        Command::Controller(c) => controller_step(e, m.source_id, c).0,
        Command::System(SystemCommand::CloseConnection(_)) => EngineView {
            contexts: e.contexts.remove(m.source_id),
            ..e
        },
        _ => e,
    }
}

/// The engine after a tick: the scene is rendered and the result is the
/// current state.
pub open spec fn tick_step(e: EngineView) -> EngineView {
    let active = StateView {
        scene: scene_rendered(e.active.scene, e.active.controllers),
        ..e.active
    };
    EngineView { active, current: active, ..e }
}

} // verus!
