use vstd::prelude::*;

use super::engine::{
    controller_step, editable, engine_step, mode_changed, object_rendered, render_link,
    scene_rendered, tick_step, EngineView, Refusal,
};
use super::state::StateView;
use crate::commands::{
    AddSceneObject, ClearScene, Command, ControllerCommand, DeleteSceneObject, Init, Message,
    UpdateSceneObject,
};
use crate::data::controllers::ControllerView;
use crate::data::motion::Mode;
use crate::data::property::{property_reset, property_updated, PropertyLinkView, PropertyView};
use crate::data::value::{same_kind, updated, Value};
use crate::scene::{SceneObject, SceneObjectView};

verus! {

/// Outside idle mode (live or recording) the engine refuses every command
/// that edits the scene or the controllers, and the command changes
/// nothing.
pub proof fn law_live_mode_refuses_edits(e: EngineView, source: usize, cmd: ControllerCommand)
    requires
        e.active.mode != Mode::Idle,
        cmd is Init || cmd is AddSceneObject || cmd is UpdateSceneObject
            || cmd is DeleteSceneObject || cmd is ClearScene,
    ensures
        controller_step(e, source, cmd) == (e, Some(Refusal::Mode)),
{
}

/// No message changes the state published at the last tick; only a tick
/// does.
pub proof fn law_messages_keep_current_state(e: EngineView, m: Message)
    ensures
        engine_step(e, m).current == e.current,
{
}

/// After a tick the published state is the active state.
pub proof fn law_tick_publishes_active(e: EngineView)
    ensures
        tick_step(e).current == tick_step(e).active,
        tick_step(e).contexts == e.contexts,
        tick_step(e).active.controllers == e.active.controllers,
        tick_step(e).active.mode == e.active.mode,
        tick_step(e).active.scene.dom() == e.active.scene.dom(),
{
}

/// Adding an object whose name is not in the scene and then deleting that
/// name gives back the engine as it was.
pub proof fn law_add_then_delete_restores(
    e: EngineView,
    source: usize,
    o: AddSceneObject,
    d: DeleteSceneObject,
)
    requires
        editable(e.active.mode),
        !e.active.scene.contains_key(o.0@.name),
        d.0@ == o.0@.name,
    ensures
        controller_step(
            controller_step(e, source, ControllerCommand::AddSceneObject(o)).0,
            source,
            ControllerCommand::DeleteSceneObject(d),
        ).0 == e,
{
    let added = controller_step(e, source, ControllerCommand::AddSceneObject(o)).0;
    assert(added.active.scene.remove(d.0@) =~= e.active.scene);
}

/// Adding an object and then reading the scene gives the object back; adding
/// it a second time is refused.
pub proof fn law_add_then_read(e: EngineView, source: usize, o: AddSceneObject, o2: AddSceneObject)
    requires
        editable(e.active.mode),
        !e.active.scene.contains_key(o.0@.name),
        o2.0@.name == o.0@.name,
    ensures
        controller_step(e, source, ControllerCommand::AddSceneObject(o)).0.active.scene[o.0@.name]
            == o.0@,
        controller_step(
            controller_step(e, source, ControllerCommand::AddSceneObject(o)).0,
            source,
            ControllerCommand::AddSceneObject(o2),
        ).1 == Some(Refusal::ObjectExists),
{
}

/// An update of a value of the same kind reads back as the new value; one of
/// another kind leaves the value as it was.
pub proof fn law_update_reads_back(v: Value, w: Value)
    ensures
        same_kind(v, w) ==> updated(v, w) == w,
        !same_kind(v, w) ==> updated(v, w) == v,
        same_kind(updated(v, w), v),
{
}

/// Updating a property and then resetting it leaves its default value
/// (when value and default are of one kind).
pub proof fn law_update_then_reset(p: PropertyView, v: Value)
    requires
        same_kind(p.value, p.default_value),
    ensures
        property_reset(property_updated(p, v)).value == p.default_value,
        property_reset(property_updated(p, v)).default_value == p.default_value,
        property_reset(property_updated(p, v)).name == p.name,
{
}

/// Going back to idle from live or recording puts every controller property
/// whose value and default are of one kind back to its default; the scene
/// is untouched.
pub proof fn law_idle_resets_properties(s: StateView, c: Seq<char>, p: Seq<char>)
    requires
        s.mode != Mode::Idle,
        s.controllers.contains_key(c),
        s.controllers[c].properties.contains_key(p),
        same_kind(
            s.controllers[c].properties[p].value,
            s.controllers[c].properties[p].default_value,
        ),
    ensures
        mode_changed(s, Mode::Idle).mode == Mode::Idle,
        mode_changed(s, Mode::Idle).scene == s.scene,
        mode_changed(s, Mode::Idle).controllers[c].properties[p].value
            == s.controllers[c].properties[p].default_value,
{
}

/// Rendering twice gives the same scene as rendering once.
pub proof fn law_render_idempotent(
    scene: Map<Seq<char>, SceneObjectView>,
    cs: Map<Seq<char>, ControllerView>,
)
    ensures
        scene_rendered(scene_rendered(scene, cs), cs) == scene_rendered(scene, cs),
{
    let once = scene_rendered(scene, cs);
    let twice = scene_rendered(once, cs);
    assert forall|k: Seq<char>| #[trigger] once.contains_key(k) implies twice[k] == once[k] by {
        let o = scene[k];
        let r1 = object_rendered(o, cs);
        let r2 = object_rendered(r1, cs);
        assert forall|q: Seq<char>| #[trigger] r1.properties.contains_key(q) implies r2.properties[q]
            == r1.properties[q] by {
            let l = o.properties[q];
            match l {
                PropertyLinkView::Bound { value, namespace, property } => {
                    if cs.contains_key(namespace) && cs[namespace].properties.contains_key(property) {
                        let w = cs[namespace].properties[property].value;
                        law_update_reads_back(value, w);
                        law_update_reads_back(updated(value, w), w);
                    }
                },
                PropertyLinkView::Unbound { .. } => {},
            }
        }
        assert(r2.properties =~= r1.properties);
    }
    assert(twice =~= once);
}

/// An unbound link is never changed by rendering.
pub proof fn law_render_keeps_unbound(l: PropertyLinkView, cs: Map<Seq<char>, ControllerView>)
    requires
        l is Unbound,
    ensures
        render_link(l, cs) == l,
{
}

/// A closed connection is forgotten: the engine keeps no context for it,
/// and a later sample from it moves no controller.
pub proof fn law_close_forgets_connection(
    e: EngineView,
    close: Message,
    sample: crate::commands::SampleMotion,
)
    requires
        close.command is System,
        close.command->System_0 is CloseConnection,
    ensures
        !engine_step(e, close).contexts.contains_key(close.source_id),
        controller_step(
            engine_step(e, close),
            close.source_id,
            ControllerCommand::SampleMotion(sample),
        ).0 == engine_step(e, close),
{
}

/// A sample from connection `source`, outside idle mode, where the
/// connection introduced itself as controller `c`, changes only `c`, and of
/// `c` only the properties that the sample names: each of those whose value
/// is of the sample's kind takes the sample's value; every other property,
/// and every other controller, keeps what it held. The scene, the mode and
/// the contexts stay as they were.
pub proof fn law_sample_updates_named_properties(
    e: EngineView,
    source: usize,
    sm: crate::commands::SampleMotion,
    c: Seq<char>,
)
    requires
        e.active.mode != Mode::Idle,
        e.contexts.contains_key(source),
        e.contexts[source].name == Some(c),
        e.active.controllers.contains_key(c),
    ensures
        ({
            let before = e.active.controllers;
            let after = controller_step(e, source, ControllerCommand::SampleMotion(sm)).0;
            let props = before[c].properties;
            let props2 = after.active.controllers[c].properties;
            &&& after.contexts == e.contexts
            &&& after.current == e.current
            &&& after.active.mode == e.active.mode
            &&& after.active.scene == e.active.scene
            &&& after.active.controllers.dom() == before.dom()
            &&& forall|c2: Seq<char>|
                #![trigger after.active.controllers[c2]]
                before.contains_key(c2) && c2 != c ==> after.active.controllers[c2] == before[c2]
            &&& after.active.controllers[c].uid == before[c].uid
            &&& after.active.controllers[c].name == before[c].name
            &&& props2.dom() == props.dom()
            &&& forall|p: Seq<char>|
                #![trigger props2[p]]
                props.contains_key(p) && !sm.0@.contains_key(p) ==> props2[p] == props[p]
            &&& forall|p: Seq<char>|
                #![trigger props2[p]]
                props.contains_key(p) && sm.0@.contains_key(p) && same_kind(
                    props[p].value,
                    sm.0@[p],
                ) ==> props2[p] == (PropertyView { value: sm.0@[p], ..props[p] })
            &&& forall|p: Seq<char>|
                #![trigger props2[p]]
                props.contains_key(p) && sm.0@.contains_key(p) && !same_kind(
                    props[p].value,
                    sm.0@[p],
                ) ==> props2[p] == props[p]
        }),
{
    let before = e.active.controllers;
    let after = controller_step(e, source, ControllerCommand::SampleMotion(sm)).0;
    let props = before[c].properties;
    let props2 = after.active.controllers[c].properties;
    assert(after.active.controllers.dom() =~= before.dom());
    assert(props2.dom() =~= props.dom());
}

/// A tick renders every link of every scene object from the controllers
/// without changing its kind or its binding: an unbound link stays as it
/// was; a bound link stays bound to the same controller property; where
/// that controller or property is missing, or the values are of different
/// kinds, the link is left exactly as it was; otherwise it takes the
/// controller property's value.
pub proof fn law_render_keeps_bindings(e: EngineView, o: Seq<char>, k: Seq<char>)
    requires
        e.active.scene.contains_key(o),
        e.active.scene[o].properties.contains_key(k),
    ensures
        ({
            let after = tick_step(e).active;
            let l = e.active.scene[o].properties[k];
            let cs = e.active.controllers;
            &&& after.scene.dom() == e.active.scene.dom()
            &&& after.scene[o].name == e.active.scene[o].name
            &&& after.scene[o].properties.dom() == e.active.scene[o].properties.dom()
            &&& after.controllers == cs
            &&& after.mode == e.active.mode
            &&& (l is Unbound ==> after.scene[o].properties[k] == l)
            &&& (l matches PropertyLinkView::Bound { value, namespace, property } ==> {
                let l2 = after.scene[o].properties[k];
                &&& l2 matches PropertyLinkView::Bound { namespace: n2, property: p2, .. } && n2
                    == namespace && p2 == property
                &&& (!cs.contains_key(namespace) || !cs[namespace].properties.contains_key(
                    property,
                )) ==> l2 == l
                &&& (cs.contains_key(namespace) && cs[namespace].properties.contains_key(property)
                    && !same_kind(value, cs[namespace].properties[property].value)) ==> l2 == l
                &&& (cs.contains_key(namespace) && cs[namespace].properties.contains_key(property)
                    && same_kind(value, cs[namespace].properties[property].value)) ==> l2
                    == (PropertyLinkView::Bound {
                    value: cs[namespace].properties[property].value,
                    namespace,
                    property,
                })
            })
        }),
{
    let after = tick_step(e).active;
    assert(after.scene.dom() =~= e.active.scene.dom());
    assert(after.scene[o].properties.dom() =~= e.active.scene[o].properties.dom());
}

/// An accepted Init records the peer that was sent under its name, in place
/// of any controller of that name, leaves the other controllers as they
/// were, and names the connection after it.
pub proof fn law_init_records_peer(e: EngineView, source: usize, init: Init)
    requires
        editable(e.active.mode),
    ensures
        ({
            let after = controller_step(e, source, ControllerCommand::Init(init));
            &&& after.1 is None
            &&& after.0.active.controllers.contains_key(init.peer.name@)
            &&& after.0.active.controllers[init.peer.name@] == init.peer@
            &&& after.0.active.controllers.dom() == e.active.controllers.dom().insert(init.peer.name@)
            &&& forall|c: Seq<char>|
                #![trigger after.0.active.controllers[c]]
                e.active.controllers.contains_key(c) && c != init.peer.name@
                    ==> after.0.active.controllers[c] == e.active.controllers[c]
            &&& after.0.contexts.contains_key(source)
            &&& after.0.contexts[source].name == Some(init.peer.name@)
            &&& after.0.active.scene == e.active.scene
            &&& after.0.active.mode == e.active.mode
        }),
{
    let after = controller_step(e, source, ControllerCommand::Init(init));
    assert(after.0.active.controllers.dom() =~= e.active.controllers.dom().insert(init.peer.name@));
}

} // verus!
