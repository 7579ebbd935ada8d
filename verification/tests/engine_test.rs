use cinemotion::commands::{
    AddSceneObject, ChangeMode, ClearScene, CloseConnection, Command, ControllerCommand,
    DeleteSceneObject, Echo, Init, Message, OpenConnection, SampleMotion, SystemCommand,
    UpdateSceneObject,
};
use cinemotion::data::controllers::Controller;
use cinemotion::data::motion::Mode;
use cinemotion::data::property::{Property, PropertyLink};
use cinemotion::data::sample::Sample;
use cinemotion::data::value::{Value, Vec3};
use cinemotion::engine::engine::{render_state, reset_controller_properties, Engine, Output};
use cinemotion::engine::state::State;
use cinemotion::error::Error;
use cinemotion::events::EventBody;
use cinemotion::name::Name;
use cinemotion::name_map::NameMap;
use cinemotion::scalar::Scalar;
use cinemotion::scene::SceneObject;

fn live_engine() -> Engine {
    let state = State {
        mode: Mode::Live,
        ..Default::default()
    };
    Engine::builder()
        .with_inital_state(state)
        .build()
        .expect("failed to build engine")
}

fn idle_engine() -> Engine {
    Engine::builder().build().expect("failed to build engine")
}

fn float(x: f64) -> Value {
    Value::Float(Scalar::from_bits(x.to_bits()))
}

fn controller(name: &str, prop: &str, default: Value) -> Controller {
    let mut properties = NameMap::new();
    properties.insert(
        Name::new(prop),
        Property::with_default_value(Name::new(prop), default),
    );
    Controller {
        uid: 0,
        name: Name::new(name),
        properties,
    }
}

#[test]
fn test_init_errors_when_not_idle() {
    let mut engine = live_engine();
    let command = Init {
        peer: Controller {
            uid: 0,
            name: Name::new("controllerA"),
            properties: NameMap::new(),
        },
    };
    assert!(matches!(
        engine.handle_init(command, 1),
        Err(Error::InvalidMode(_))
    ));
}

#[test]
fn test_update_scene_obj_errors_when_not_idle() {
    let mut engine = live_engine();
    let command = UpdateSceneObject(SceneObject::new(Name::new("obj"), NameMap::new()));
    assert!(matches!(
        engine.handle_update_scene_obj(command),
        Err(Error::InvalidMode(_))
    ));
}

#[test]
fn test_add_scene_obj_errors_when_not_idle() {
    let mut engine = live_engine();
    let command = AddSceneObject(SceneObject::new(Name::new("obj"), NameMap::new()));
    assert!(matches!(
        engine.handle_add_scene_obj(command),
        Err(Error::InvalidMode(_))
    ));
}

#[test]
fn test_delete_scene_obj_errors_when_not_idle() {
    let mut engine = live_engine();
    let command = DeleteSceneObject(Name::new("objectA"));
    assert!(matches!(
        engine.handle_delete_scene_obj(command),
        Err(Error::InvalidMode(_))
    ));
}

fn recording_engine() -> Engine {
    let state = State {
        mode: Mode::Recording,
        ..Default::default()
    };
    Engine::builder()
        .with_inital_state(state)
        .build()
        .expect("failed to build engine")
}

#[test]
fn edits_error_when_recording() {
    let mut engine = recording_engine();
    assert!(matches!(engine.ensure_idle_mode(), Err(Error::InvalidMode(_))));
    let peer = controller("ctl", "speed", float(1.0));
    assert!(matches!(
        engine.handle_init(Init { peer }, 1),
        Err(Error::InvalidMode(_))
    ));
    let obj = SceneObject::new(Name::new("obj"), NameMap::new());
    assert!(matches!(
        engine.handle_add_scene_obj(AddSceneObject(obj)),
        Err(Error::InvalidMode(_))
    ));
    let obj = SceneObject::new(Name::new("obj"), NameMap::new());
    assert!(matches!(
        engine.handle_update_scene_obj(UpdateSceneObject(obj)),
        Err(Error::InvalidMode(_))
    ));
    assert!(matches!(
        engine.handle_delete_scene_obj(DeleteSceneObject(Name::new("obj"))),
        Err(Error::InvalidMode(_))
    ));
    assert!(matches!(
        engine.handle_clear_scene(ClearScene {}),
        Err(Error::InvalidMode(_))
    ));
    assert_eq!(engine.active_state().scene.objects().len(), 0);
    assert_eq!(engine.active_state().controllers.len(), 0);
}

#[test]
fn idle_engine_accepts_edits() {
    let engine = idle_engine();
    assert!(engine.ensure_idle_mode().is_ok());
}

#[test]
fn clear_scene_errors_when_live() {
    let mut engine = live_engine();
    match engine.handle_clear_scene(ClearScene {}) {
        Err(Error::InvalidMode(m)) => assert_eq!(m, "cannot perform command while in live mode"),
        other => panic!("unexpected {:?}", other),
    }
}

#[test]
fn add_then_delete_scene_object() {
    let mut engine = idle_engine();
    let obj = SceneObject::new(Name::new("obj"), NameMap::new());
    assert!(engine.handle_add_scene_obj(AddSceneObject(obj)).is_ok());
    assert!(engine
        .active_state()
        .scene
        .objects()
        .contains_key(&Name::new("obj")));

    let again = SceneObject::new(Name::new("obj"), NameMap::new());
    match engine.handle_add_scene_obj(AddSceneObject(again)) {
        Err(Error::InvalidSceneObject(m)) => assert_eq!(m, "object already exists"),
        other => panic!("unexpected {:?}", other),
    }

    assert!(engine
        .handle_delete_scene_obj(DeleteSceneObject(Name::new("obj")))
        .is_ok());
    assert_eq!(engine.active_state().scene.objects().len(), 0);
}

#[test]
fn update_missing_object_is_refused() {
    let mut engine = idle_engine();
    let obj = SceneObject::new(Name::new("ghost"), NameMap::new());
    match engine.handle_update_scene_obj(UpdateSceneObject(obj)) {
        Err(Error::InvalidSceneObject(m)) => assert_eq!(m, "object does not exist"),
        other => panic!("unexpected {:?}", other),
    }
}

#[test]
fn update_object_reads_back() {
    let mut engine = idle_engine();
    let obj = SceneObject::new(Name::new("obj"), NameMap::new());
    assert!(engine.handle_add_scene_obj(AddSceneObject(obj)).is_ok());

    let mut props = NameMap::new();
    props.insert(Name::new("pos"), PropertyLink::unbound(Value::vec3()));
    let updated = SceneObject::new(Name::new("obj"), props);
    assert!(engine
        .handle_update_scene_obj(UpdateSceneObject(updated))
        .is_ok());
    let scene = engine.active_state().scene.objects();
    let stored = scene.get(&Name::new("obj")).expect("object kept");
    assert!(stored.properties().contains_key(&Name::new("pos")));
}

#[test]
fn clear_scene_empties_the_scene() {
    let mut engine = idle_engine();
    let a = SceneObject::new(Name::new("a"), NameMap::new());
    let b = SceneObject::new(Name::new("b"), NameMap::new());
    assert!(engine.handle_add_scene_obj(AddSceneObject(a)).is_ok());
    assert!(engine.handle_add_scene_obj(AddSceneObject(b)).is_ok());
    assert_eq!(engine.active_state().scene.objects().len(), 2);
    assert!(engine.handle_clear_scene(ClearScene {}).is_ok());
    assert_eq!(engine.active_state().scene.objects().len(), 0);
}

#[test]
fn init_records_controller_and_names_connection() {
    let mut engine = idle_engine();
    let peer = controller("controllerA", "vel", Value::vec3());
    assert!(engine.handle_init(Init { peer }, 7).is_ok());
    assert!(engine
        .active_state()
        .controllers
        .contains_key(&Name::new("controllerA")));
    let ctx = engine.contexts().context(7).expect("context for connection");
    assert_eq!(ctx.name.as_ref().map(|n| n.as_str()), Some("controllerA"));
}

#[test]
fn sample_updates_controller_then_idle_resets_it() {
    let mut engine = idle_engine();
    let peer = controller("ctl", "speed", float(1.0));
    assert!(engine.handle_init(Init { peer }, 3).is_ok());
    assert!(engine.handle_mode_change(ChangeMode(Mode::Live)).is_ok());

    let mut values = NameMap::new();
    values.insert(Name::new("speed"), float(5.0));
    assert!(engine
        .handle_sample(SampleMotion(Sample::new(values)), 3)
        .is_ok());
    let speed = engine
        .active_state()
        .controllers
        .get(&Name::new("ctl"))
        .and_then(|c| c.properties.get(&Name::new("speed")))
        .map(|p| p.value);
    assert_eq!(speed, Some(float(5.0)));

    assert!(engine.handle_mode_change(ChangeMode(Mode::Idle)).is_ok());
    let speed = engine
        .active_state()
        .controllers
        .get(&Name::new("ctl"))
        .and_then(|c| c.properties.get(&Name::new("speed")))
        .map(|p| p.value);
    assert_eq!(speed, Some(float(1.0)));
}

#[test]
fn sample_is_ignored_in_idle_mode() {
    let mut engine = idle_engine();
    let peer = controller("ctl", "speed", float(1.0));
    assert!(engine.handle_init(Init { peer }, 3).is_ok());
    let mut values = NameMap::new();
    values.insert(Name::new("speed"), float(9.0));
    assert!(engine
        .handle_sample(SampleMotion(Sample::new(values)), 3)
        .is_ok());
    let speed = engine
        .active_state()
        .controllers
        .get(&Name::new("ctl"))
        .and_then(|c| c.properties.get(&Name::new("speed")))
        .map(|p| p.value);
    assert_eq!(speed, Some(float(1.0)));
}

#[test]
fn echo_is_notified_then_sent() {
    let engine = idle_engine();
    let out = engine.handle_echo(4, Echo::new("hello world".to_owned()));
    assert_eq!(out.len(), 2);
    match (&out[0], &out[1]) {
        (Output::Notify(a), Output::Send(b)) => {
            assert_eq!(a.target, Some(4));
            assert_eq!(b.target, Some(4));
            match &b.body {
                EventBody::Echo(e) => assert_eq!(e.0, "hello world"),
                other => panic!("unexpected {:?}", other),
            }
        }
        other => panic!("unexpected {:?}", other),
    }
}

#[test]
fn refused_message_answers_with_error_event() {
    let mut engine = live_engine();
    let msg = Message::with_command(
        2,
        Command::Controller(ControllerCommand::ClearScene(ClearScene {})),
    );
    let out = engine.apply(msg);
    assert_eq!(out.len(), 1);
    match &out[0] {
        Output::Send(ev) => {
            assert_eq!(ev.target, Some(2));
            match &ev.body {
                EventBody::Error(e) => assert!(matches!(e.0, Error::InvalidMode(_))),
                other => panic!("unexpected {:?}", other),
            }
        }
        other => panic!("unexpected {:?}", other),
    }
}

#[test]
fn open_and_close_connection_messages() {
    let mut engine = idle_engine();
    let out = engine.apply(Message::with_command(
        5,
        Command::System(SystemCommand::OpenConnection(OpenConnection {})),
    ));
    assert_eq!(out.len(), 1);
    match &out[0] {
        Output::Send(ev) => {
            assert_eq!(ev.target, Some(5));
            assert!(matches!(ev.body, EventBody::ConnectionOpened(_)));
        }
        other => panic!("unexpected {:?}", other),
    }
    let peer = controller("ctl", "speed", float(1.0));
    assert!(engine.handle_init(Init { peer }, 5).is_ok());
    assert!(engine.contexts().context(5).is_some());

    let out = engine.apply(Message::with_command(
        5,
        Command::System(SystemCommand::CloseConnection(CloseConnection {})),
    ));
    assert!(matches!(out.last(), Some(Output::CloseConnection(5))));
    assert!(engine.contexts().context(5).is_none());

    // A sample from the closed connection moves nothing.
    assert!(engine.handle_mode_change(ChangeMode(Mode::Live)).is_ok());
    let mut values = NameMap::new();
    values.insert(Name::new("speed"), float(8.0));
    assert!(engine
        .handle_sample(SampleMotion(Sample::new(values)), 5)
        .is_ok());
    let speed = engine
        .active_state()
        .controllers
        .get(&Name::new("ctl"))
        .and_then(|c| c.properties.get(&Name::new("speed")))
        .map(|p| p.value);
    assert_eq!(speed, Some(float(1.0)));
}

#[test]
fn tick_publishes_the_active_state() {
    let mut engine = idle_engine();
    let obj = SceneObject::new(Name::new("obj"), NameMap::new());
    assert!(engine.handle_add_scene_obj(AddSceneObject(obj)).is_ok());
    assert_eq!(engine.current_state().scene.objects().len(), 0);
    let ev = engine.tick();
    assert_eq!(ev.target, None);
    match &ev.body {
        EventBody::StateChanged(s) => assert_eq!(s.0.scene.objects().len(), 1),
        other => panic!("unexpected {:?}", other),
    }
    assert_eq!(engine.current_state().scene.objects().len(), 1);
}

#[test]
fn render_copies_bound_controller_values() {
    let mut state = State::default();
    state.mode = Mode::Live;
    let mut c = controller("ctl", "pos", Value::vec3());
    let moved = Value::Vec3(Vec3 {
        x: Scalar::from_bits(2.0f64.to_bits()),
        y: Scalar::zero(),
        z: Scalar::zero(),
    });
    assert!(c
        .properties
        .get(&Name::new("pos"))
        .map(|p| p.value)
        .is_some());
    let mut p = Property::with_default_value(Name::new("pos"), Value::vec3());
    assert!(p.update(&moved).is_ok());
    c.properties.insert(Name::new("pos"), p);
    state.controllers.insert(Name::new("ctl"), c);

    let mut props = NameMap::new();
    props.insert(
        Name::new("position"),
        PropertyLink::bind(Name::new("ctl"), Name::new("pos"), Value::vec3()),
    );
    props.insert(Name::new("fixed"), PropertyLink::unbound(float(3.0)));
    state
        .scene
        .objects_mut()
        .insert(Name::new("obj"), SceneObject::new(Name::new("obj"), props));

    render_state(&mut state);
    let obj = state.scene.objects().get(&Name::new("obj")).unwrap();
    assert_eq!(
        *obj.properties().get(&Name::new("position")).unwrap().value(),
        moved
    );
    assert_eq!(
        *obj.properties().get(&Name::new("fixed")).unwrap().value(),
        float(3.0)
    );

    let once = format!("{:?}", state.scene);
    render_state(&mut state);
    assert_eq!(format!("{:?}", state.scene), once);

    reset_controller_properties(&mut state);
    let pos = state
        .controllers
        .get(&Name::new("ctl"))
        .and_then(|c| c.properties.get(&Name::new("pos")))
        .map(|p| p.value);
    assert_eq!(pos, Some(Value::vec3()));
}
