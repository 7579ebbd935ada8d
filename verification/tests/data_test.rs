use cinemotion::connection::{delivers_to, new_connection_id};
use cinemotion::logging::logging_config;
use cinemotion::data::motion::Mode;
use cinemotion::data::property::Property;
use cinemotion::data::sample::Sample;
use cinemotion::data::session_desc::WebRTCSessionDescriptor;
use cinemotion::data::value::{Value, Vec3};
use cinemotion::error::Error;
use cinemotion::motion_core::attributes::{Attribute, AttributeValue};
use cinemotion::motion_core::commands::{CommandError, CommandReply, DeviceCommand, DeviceData};
use cinemotion::motion_core::device::{self, Device};
use cinemotion::motion_core::devices::DeviceId;
use cinemotion::motion_core::engine::{handle_device_command, Engine as WorldEngine};
use cinemotion::motion_core::error::Error as CoreError;
use cinemotion::motion_core::world::World;
use cinemotion::name::Name;
use cinemotion::name_map::NameMap;
use cinemotion::scalar::Scalar;

fn float(x: f64) -> Value {
    Value::Float(Scalar::from_bits(x.to_bits()))
}

#[test]
fn session_descriptor_round_trip() {
    let desc = WebRTCSessionDescriptor::new("v=0\r\no=- 1 2 IN IP4 127.0.0.1");
    assert_ne!(desc.payload, "v=0\r\no=- 1 2 IN IP4 127.0.0.1");
    assert_eq!(desc.payload, "dj0wDQpvPS0gMSAyIElOIElQNCAxMjcuMC4wLjE");
    assert_eq!(desc.decode().unwrap(), "v=0\r\no=- 1 2 IN IP4 127.0.0.1");
}

#[test]
fn session_descriptor_bad_base64() {
    let desc = WebRTCSessionDescriptor::new_encode("***".to_owned());
    match desc.decode() {
        Err(Error::BadRTCDescriptor(m)) => {
            assert!(m.starts_with("failed to decode base64 payload: "))
        }
        other => panic!("unexpected {:?}", other),
    }
}

#[test]
fn session_descriptor_bad_utf8() {
    // "/w" is the unpadded base64 of the single byte 0xff.
    let desc = WebRTCSessionDescriptor::new_encode("/w".to_owned());
    match desc.decode() {
        Err(Error::BadRTCDescriptor(m)) => {
            assert!(m.starts_with("failed to decode utf8 string from decoded payload: "))
        }
        other => panic!("unexpected {:?}", other),
    }
}

#[test]
fn value_update_keeps_kind() {
    let mut v = Value::vec3();
    let w = Value::Vec3(Vec3 {
        x: Scalar::one(),
        y: Scalar::one(),
        z: Scalar::zero(),
    });
    assert!(v.update(&w).is_ok());
    assert_eq!(v, w);
    match v.update(&float(2.0)) {
        Err(Error::InvalidValue(m)) => assert_eq!(m, "value has different type"),
        other => panic!("unexpected {:?}", other),
    }
    assert_eq!(v, w);
    assert_eq!(v.as_vec3(), Some(&w_vec(&w)));
    assert_eq!(v.as_f64(), None);
    assert_eq!(float(2.0).as_f64(), Some(&Scalar::from_bits(2.0f64.to_bits())));
}

fn w_vec(v: &Value) -> Vec3 {
    match v {
        Value::Vec3(x) => *x,
        _ => panic!("not a vec3"),
    }
}

#[test]
fn property_update_then_reset() {
    let mut p = Property::with_default_value(Name::new("speed"), float(1.0));
    assert!(p.update(&float(4.0)).is_ok());
    assert_eq!(p.value, float(4.0));
    assert!(p.update(&Value::vec3()).is_err());
    assert_eq!(p.value, float(4.0));
    assert!(p.reset().is_ok());
    assert_eq!(p.value, float(1.0));
}

#[test]
fn name_map_insert_get_remove() {
    let mut m = NameMap::new();
    assert_eq!(m.insert(Name::new("a"), "1".to_owned()), None);
    assert_eq!(m.insert(Name::new("b"), "2".to_owned()), None);
    assert_eq!(m.insert(Name::new("a"), "3".to_owned()), Some("1".to_owned()));
    assert_eq!(m.len(), 2);
    assert_eq!(m.get(&Name::new("a")).map(|s| s.as_str()), Some("3"));
    assert_eq!(m.remove(&Name::new("a")), Some("3".to_owned()));
    assert_eq!(m.get(&Name::new("a")), None);
    assert!(m.contains_key(&Name::new("b")));
    m.clear();
    assert_eq!(m.len(), 0);
}

#[test]
fn sample_holds_its_values() {
    let mut values = NameMap::new();
    values.insert(Name::new("x"), float(1.0));
    let s = Sample::new(values);
    assert_eq!(s.properties().get(&Name::new("x")), Some(&float(1.0)));
    assert_eq!(Sample::empty().properties().len(), 0);
}

#[test]
fn modes() {
    assert!(Mode::Idle.is_idle());
    assert!(Mode::Live.is_live());
    assert!(Mode::Recording.is_live());
    assert!(!Mode::Idle.is_live());
    assert!(Mode::Recording.is_recording());
    assert!(!Mode::Live.is_idle());
}

#[test]
fn core_error_text() {
    assert_eq!(
        CoreError::NotFound("x".to_owned()).to_string(),
        "entity not found: x"
    );
    assert_eq!(
        CoreError::InvalidValue("y".to_owned()).to_string(),
        "invalid property value: y"
    );
}

#[test]
fn legacy_device_records() {
    let mut world = World::new();
    let mut d = Device::new(Name::new("cam"));
    assert!(d
        .insert_attribute(Attribute::new_vec3(Name::new("pos")))
        .is_none());
    let r = device::process(&mut world, device::Command::Register(d.clone()));
    assert_eq!(r, Ok(Some(CommandReply::EntityId(0))));
    match device::process(&mut world, device::Command::Register(d)) {
        Err(CommandError::Failed { reason }) => {
            assert_eq!(reason, "device with name 'cam' already exists.")
        }
        other => panic!("unexpected {:?}", other),
    }
    let got = device::get_by_id(&world, &DeviceId::from_u32(0)).expect("device");
    assert_eq!(got.name().as_str(), "cam");
    assert!(got.attribute(&Name::new("pos")).is_some());
    let r = device::process(&mut world, device::Command::Remove(DeviceId::from_u32(0)));
    assert_eq!(r, Ok(Some(CommandReply::EntityId(0))));
    assert!(device::get_by_id(&world, &DeviceId::from_u32(0)).is_none());
}

#[test]
fn register_device_command() {
    let mut world = World::new();
    let data = DeviceData {
        name: Name::new("glove"),
        attributes: vec![
            Attribute::new_vec3(Name::new("pos")),
            Attribute::new(Name::new("grip"), AttributeValue::Float(Scalar::zero())),
        ],
    };
    let r = handle_device_command(&mut world, DeviceCommand::Register(data));
    assert_eq!(r, Ok(Some(CommandReply::EntityId(0))));
    let got = device::get_by_id(&world, &DeviceId::from_u32(0)).expect("device");
    assert_eq!(got.attributes().len(), 2);
}

#[test]
fn world_engine_setup_and_tick() {
    let mut engine = WorldEngine::new();
    assert_eq!(engine.setup(), Ok(None));
    assert_eq!(engine.tick(), Ok(None));
    assert_eq!(engine.get_world_mut().len(), 0);
}

#[test]
fn error_and_echo_texts() {
    assert_eq!(
        Error::InvalidMode("cannot perform command while in live mode".to_owned()).to_string(),
        "invalid mode: cannot perform command while in live mode"
    );
    assert_eq!(Error::ChannelClosed("requests").to_string(), "channel closed: requests");
    assert_eq!(
        Error::BadCommand("x".to_owned()).to_string(),
        "bad command error: x"
    );
    assert_eq!(
        cinemotion::commands::Echo::new("hi".to_owned()).to_string(),
        "Echo(hi)"
    );
}

#[test]
fn logging_filter_by_verbosity() {
    assert_eq!(logging_config(-5, None, None), "");
    assert_eq!(logging_config(-2, None, None), "cinemotion=error");
    assert_eq!(logging_config(-1, None, None), "cinemotion=warn");
    assert_eq!(logging_config(0, None, None), "cinemotion=info");
    assert_eq!(logging_config(0, Some("cinemotion=debug"), None), "cinemotion=debug");
    assert_eq!(logging_config(1, Some("ignored"), None), "cinemotion=debug");
    assert_eq!(logging_config(2, None, None), "cinemotion=trace");
    assert_eq!(logging_config(3, None, Some("hyper=warn")), "trace,hyper=warn");
}

#[test]
fn connection_routing_and_ids() {
    assert!(delivers_to(None, 3));
    assert!(delivers_to(Some(3), 3));
    assert!(!delivers_to(Some(2), 3));
    assert_eq!(new_connection_id(0), 1);
    assert_eq!(new_connection_id(4), 5);
}

#[test]
fn session_descriptor_short_payloads() {
    assert_eq!(WebRTCSessionDescriptor::new("hi").payload, "aGk");
    assert_eq!(WebRTCSessionDescriptor::new("h").payload, "aA");
    assert_eq!(WebRTCSessionDescriptor::new("").payload, "");
    assert_eq!(WebRTCSessionDescriptor::new("hi!").payload, "aGkh");
}

#[test]
fn session_descriptor_refuses_non_canonical_payloads() {
    for payload in ["aGl", "aGk=", "a", "aG k"] {
        let desc = WebRTCSessionDescriptor::new_encode(payload.to_owned());
        assert!(
            matches!(desc.decode(), Err(Error::BadRTCDescriptor(_))),
            "{payload}"
        );
    }
    let desc = WebRTCSessionDescriptor::new_encode("aGk".to_owned());
    assert_eq!(desc.decode().unwrap(), "hi");
}
