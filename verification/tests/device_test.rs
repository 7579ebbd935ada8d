use cinemotion::motion_core::attributes::{Attribute, AttributeSample, AttributeValue, Matrix44};
use cinemotion::motion_core::commands::{CommandError, CommandReply};
use cinemotion::motion_core::devices::{self, Command, Device, DeviceId};
use cinemotion::motion_core::globals::enable_motion;
use cinemotion::motion_core::world::World;
use cinemotion::name::Name;
use cinemotion::scalar::Scalar;

fn device_with_transform() -> Device {
    let mut device = Device::new(Name::new("deviceA"));
    device
        .attributes
        .insert(Attribute::new_matrix44(Name::new("transform")));
    device
}

#[test]
fn test_device_system_command_registration() {
    let mut world = World::new();
    let mut device = Device::new(Name::new("deviceA"));
    device.attributes.insert(Attribute::new(
        Name::new("transform"),
        AttributeValue::matrix44(),
    ));
    let command = Command::Register(device);

    let reply = devices::process(&mut world, command)
        .unwrap()
        .expect("no device id returned");

    assert!(matches!(reply, CommandReply::EntityId(0)));
    let all = devices::get_all(&world);
    assert_eq!(all.len(), 1);
    assert_eq!(all[0].name(&world).as_str(), "deviceA");
    assert!(all[0]
        .attributes(&world)
        .get(&Name::new("transform"))
        .is_some());
}

#[test]
fn test_device_system_command_update() {
    let mut world = World::new();
    let mut device = device_with_transform();

    let id = devices::add_device(&mut world, device.clone());

    // Add a new attribute
    device
        .attributes
        .insert(Attribute::new_vec3(Name::new("vel")));

    let command = Command::Update((id, device));

    let reply = devices::process(&mut world, command)
        .unwrap()
        .expect("no device id returned");

    assert!(matches!(reply, CommandReply::EntityId(0)));
    let all = devices::get_all(&world);

    assert_eq!(all.len(), 1);
    assert_eq!(all[0].name(&world).as_str(), "deviceA");
    assert!(all[0]
        .attributes(&world)
        .get(&Name::new("transform"))
        .is_some());
    assert!(all[0].attributes(&world).get(&Name::new("vel")).is_some());
}

#[test]
fn test_device_system_command_remove() {
    let mut world = World::new();
    let device = device_with_transform();

    let id = devices::add_device(&mut world, device.clone());
    let command = Command::Remove(id);
    let reply = devices::process(&mut world, command)
        .unwrap()
        .expect("no device id returned");

    assert!(matches!(reply, CommandReply::EntityId(0)));
    let all = devices::get_all(&world);
    assert_eq!(all.len(), 0);
}

#[test]
fn register_twice_keeps_both_devices() {
    let mut world = World::new();
    assert_eq!(
        devices::process(&mut world, Command::Register(device_with_transform())),
        Ok(Some(CommandReply::EntityId(0)))
    );
    assert_eq!(
        devices::process(&mut world, Command::Register(device_with_transform())),
        Ok(Some(CommandReply::EntityId(1)))
    );
    let all = devices::get_all(&world);
    assert_eq!(all.len(), 2);
    assert_eq!(all[1].name(&world).as_str(), "deviceA");
}

#[test]
fn removed_device_index_is_reused_a_generation_later() {
    let mut world = World::new();
    let first = devices::add_device(&mut world, device_with_transform());
    assert_eq!(first.as_u32(), 0);
    let second = devices::add_device(&mut world, device_with_transform());
    assert_eq!(second.as_u32(), 1);
    assert!(devices::process(&mut world, Command::Remove(first)).is_ok());
    assert_eq!(
        devices::process(&mut world, Command::Remove(DeviceId::from_u32(0))),
        Err(CommandError::NotFound)
    );
    // The freed index is handed out again ...
    let reply = devices::process(&mut world, Command::Register(device_with_transform()));
    assert_eq!(reply, Ok(Some(CommandReply::EntityId(0))));
    // ... but the id no longer names the device in it.
    assert!(devices::get_by_id(&world, &DeviceId::from_u32(0)).is_none());
    assert_eq!(
        devices::process(&mut world, Command::Remove(DeviceId::from_u32(0))),
        Err(CommandError::NotFound)
    );
    // The device is there all the same.
    assert_eq!(devices::get_all(&world).len(), 2);
    // A new slot is taken once no slot is free.
    let reply = devices::process(&mut world, Command::Register(device_with_transform()));
    assert_eq!(reply, Ok(Some(CommandReply::EntityId(2))));
}

#[test]
fn update_unknown_device_is_not_found() {
    let mut world = World::new();
    let r = devices::process(
        &mut world,
        Command::Update((DeviceId::from_u32(3), device_with_transform())),
    );
    assert_eq!(r, Err(CommandError::NotFound));
}

#[test]
fn samples_apply_only_while_motion_is_on() {
    let mut world = World::new();
    let id = devices::add_device(&mut world, device_with_transform());
    let mut m = Matrix44::new();
    m.set(1, 2, Scalar::from_bits(7.0f64.to_bits()));
    let sample = || {
        vec![AttributeSample::new(
            Name::new("transform"),
            AttributeValue::Matrix44(m),
        )]
    };

    let r = devices::process(&mut world, Command::Sample((id.duplicate(), sample())));
    assert_eq!(r, Ok(None));
    let value = devices::get_by_id(&world, &id)
        .unwrap()
        .attributes
        .get(&Name::new("transform"))
        .unwrap()
        .value();
    assert_eq!(value, AttributeValue::matrix44());

    enable_motion(&mut world);
    let r = devices::process(&mut world, Command::Sample((id.duplicate(), sample())));
    assert_eq!(r, Ok(None));
    let value = devices::get_by_id(&world, &id)
        .unwrap()
        .attributes
        .get(&Name::new("transform"))
        .unwrap()
        .value();
    assert_eq!(value, AttributeValue::Matrix44(m));

    // A device cannot be replaced while motion is on.
    let r = devices::process(
        &mut world,
        Command::Update((id.duplicate(), device_with_transform())),
    );
    assert_eq!(r, Err(CommandError::NotFound));

    // Reset puts the default back.
    let r = devices::process(&mut world, Command::Reset(id.duplicate()));
    assert_eq!(r, Ok(None));
    let value = devices::get_by_id(&world, &id)
        .unwrap()
        .attributes
        .get(&Name::new("transform"))
        .unwrap()
        .value();
    assert_eq!(value, AttributeValue::matrix44());
}

#[test]
fn sample_of_other_kind_is_ignored() {
    let mut world = World::new();
    let id = devices::add_device(&mut world, device_with_transform());
    enable_motion(&mut world);
    let samples = vec![AttributeSample::new(
        Name::new("transform"),
        AttributeValue::vec3(),
    )];
    assert_eq!(
        devices::process(&mut world, Command::Sample((id.duplicate(), samples))),
        Ok(None)
    );
    let value = devices::get_by_id(&world, &id)
        .unwrap()
        .attributes
        .get(&Name::new("transform"))
        .unwrap()
        .value();
    assert_eq!(value, AttributeValue::matrix44());
}

#[test]
fn sample_for_missing_device_fails_in_motion() {
    let mut world = World::new();
    enable_motion(&mut world);
    let r = devices::process(
        &mut world,
        Command::Sample((DeviceId::from_u32(9), Vec::new())),
    );
    match r {
        Err(CommandError::Failed { reason }) => assert_eq!(
            reason,
            "entity not found: no device with matching id found for samples"
        ),
        other => panic!("unexpected {:?}", other),
    }
}

#[test]
fn matrix_identity_and_set_get() {
    let id = Matrix44::identity();
    let one = Scalar::one();
    let zero = Scalar::zero();
    assert_eq!(id.get(0, 0), Some(one));
    assert_eq!(id.get(3, 3), Some(one));
    assert_eq!(id.get(1, 0), Some(zero));
    assert_eq!(id.get(4, 0), None);
    let mut m = Matrix44::new();
    let v = Scalar::from_bits(3.5f64.to_bits());
    m.set(2, 1, v);
    assert_eq!(m.get(2, 1), Some(v));
    assert_eq!(m.get(1, 2), Some(zero));
    m.set(9, 9, v);
    assert_eq!(m, {
        let mut n = Matrix44::new();
        n.set(2, 1, v);
        n
    });
}

#[test]
fn attribute_update_and_reset() {
    let mut a = Attribute::new_vec3(Name::new("vel"));
    match a.update_value(AttributeValue::matrix44()) {
        Err(cinemotion::motion_core::error::Error::InvalidValue(m)) => {
            assert_eq!(m, "value has different type")
        }
        other => panic!("unexpected {:?}", other),
    }
    assert_eq!(a.value(), AttributeValue::vec3());
    let moved = AttributeValue::Vec3(cinemotion::motion_core::attributes::Vec3 {
        x: Scalar::one(),
        y: Scalar::zero(),
        z: Scalar::zero(),
    });
    assert!(a.update_value(moved).is_ok());
    assert_eq!(a.value(), moved);
    a.reset();
    assert_eq!(a.value(), AttributeValue::vec3());
}
