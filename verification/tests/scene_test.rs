use cinemotion::motion_core::attributes::{Attribute, AttributeLink, AttributeValue, Matrix44};
use cinemotion::motion_core::commands::{CommandError, CommandReply};
use cinemotion::motion_core::devices::{self, Device};
use cinemotion::motion_core::error::Error;
use cinemotion::motion_core::globals::enable_motion;
use cinemotion::motion_core::scene::{self, Command, SceneObject};
use cinemotion::motion_core::world::World;
use cinemotion::name::Name;
use cinemotion::scalar::Scalar;

#[test]
fn test_scene_system_init() {
    let mut world = World::new();
    scene::init(&mut world);

    let objects = scene::get_all(&world);

    assert_eq!(objects.len(), 1);
    assert_eq!(objects[0].name(&world).as_str(), "default");
}

#[test]
fn init_object_has_identity_transform() {
    let mut world = World::new();
    scene::init(&mut world);
    let objects = scene::get_all(&world);
    let attr = objects[0]
        .attribute(&world, &Name::new("transform"))
        .expect("transform attribute");
    assert_eq!(attr.value(), AttributeValue::Matrix44(Matrix44::identity()));
}

#[test]
fn add_object_twice_is_refused() {
    let mut world = World::new();
    let r = scene::procces(&mut world, Command::AddObject(SceneObject::new(Name::new("cube"))));
    assert_eq!(r, Ok(Some(CommandReply::EntityId(0))));
    let r = scene::procces(&mut world, Command::AddObject(SceneObject::new(Name::new("cube"))));
    match r {
        Err(CommandError::Failed { reason }) => {
            assert_eq!(reason, "object with name 'cube' already exists.")
        }
        other => panic!("unexpected {:?}", other),
    }
}

#[test]
fn remove_and_update_objects() {
    let mut world = World::new();
    let id = scene::add_scene_object(&mut world, SceneObject::new(Name::new("cube")));
    let r = scene::procces(
        &mut world,
        Command::UpdateObject(id, SceneObject::new(Name::new("sphere"))),
    );
    assert_eq!(r, Ok(Some(CommandReply::EntityId(id))));
    assert!(scene::find_object_name(&world, &Name::new("sphere")));
    assert!(!scene::find_object_name(&world, &Name::new("cube")));

    assert_eq!(
        scene::procces(&mut world, Command::RemoveObject(id)),
        Ok(Some(CommandReply::EntityId(id)))
    );
    assert_eq!(
        scene::procces(&mut world, Command::RemoveObject(id)),
        Err(CommandError::NotFound)
    );
    assert_eq!(
        scene::procces(
            &mut world,
            Command::UpdateObject(id, SceneObject::new(Name::new("x")))
        ),
        Err(CommandError::NotFound)
    );
    assert_eq!(scene::get_all(&world).len(), 0);
}

#[test]
fn link_to_missing_attribute_is_refused() {
    let mut obj = SceneObject::new(Name::new("cube"));
    let link = AttributeLink::mapped(devices::DeviceId::from_u32(0), Name::new("transform"));
    match obj.insert_link(link) {
        Err(Error::NotFound(m)) => assert_eq!(m, "no attribute transform found on object."),
        other => panic!("unexpected {:?}", other),
    }
}

#[test]
fn update_copies_linked_device_values() {
    let mut world = World::new();
    let mut device = Device::new(Name::new("tracker"));
    device
        .attributes
        .insert(Attribute::new_matrix44(Name::new("pose")));
    let dev = devices::add_device(&mut world, device);

    let mut obj = SceneObject::new(Name::new("cube"));
    obj.insert_attribute(Attribute::new_matrix44(Name::new("transform")));
    let link = AttributeLink::new(dev.duplicate(), Name::new("pose"), Name::new("transform"));
    assert!(obj.insert_link(link).is_ok());
    let obj_id = scene::add_scene_object(&mut world, obj);

    let mut m = Matrix44::identity();
    m.set(3, 0, Scalar::from_bits(1.5f64.to_bits()));
    enable_motion(&mut world);
    let r = devices::process(
        &mut world,
        devices::Command::Sample((
            dev.duplicate(),
            vec![cinemotion::motion_core::attributes::AttributeSample::new(
                Name::new("pose"),
                AttributeValue::Matrix44(m),
            )],
        )),
    );
    assert_eq!(r, Ok(None));

    assert!(scene::update(&mut world).is_ok());
    let o = scene::get_by_id(&world, obj_id).expect("object");
    let v = o
        .attribute(&world, &Name::new("transform"))
        .unwrap()
        .value();
    assert_eq!(v, AttributeValue::Matrix44(m));
}

#[test]
fn update_with_missing_device_fails() {
    let mut world = World::new();
    let mut obj = SceneObject::new(Name::new("cube"));
    obj.insert_attribute(Attribute::new_matrix44(Name::new("transform")));
    let link = AttributeLink::mapped(devices::DeviceId::from_u32(5), Name::new("transform"));
    assert!(obj.insert_link(link).is_ok());
    let _ = scene::add_scene_object(&mut world, obj);
    match scene::update(&mut world) {
        Err(Error::NotFound(m)) => assert_eq!(m, "no device by id 'DeviceId(5)'"),
        other => panic!("unexpected {:?}", other),
    }
}

#[test]
fn update_twice_changes_nothing_more() {
    let mut world = World::new();
    let mut device = Device::new(Name::new("tracker"));
    device
        .attributes
        .insert(Attribute::new_matrix44(Name::new("pose")));
    let dev = devices::add_device(&mut world, device);

    let mut obj = SceneObject::new(Name::new("cube"));
    obj.insert_attribute(Attribute::new_matrix44(Name::new("transform")));
    let link = AttributeLink::new(dev.duplicate(), Name::new("pose"), Name::new("transform"));
    assert!(obj.insert_link(link).is_ok());
    let obj_id = scene::add_scene_object(&mut world, obj);

    let mut m = Matrix44::new();
    m.set(0, 0, Scalar::from_bits(4.0f64.to_bits()));
    let d = devices::get(&world, &dev).expect("device");
    let attrs = d.attributes_mut(&mut world);
    let mut pose = Attribute::new_matrix44(Name::new("pose"));
    assert!(pose.update_value(AttributeValue::Matrix44(m)).is_ok());
    attrs.insert(pose);

    assert!(scene::update(&mut world).is_ok());
    let read = |world: &World| {
        scene::get_by_id(world, obj_id)
            .unwrap()
            .attribute(world, &Name::new("transform"))
            .unwrap()
            .value()
    };
    let first = read(&world);
    assert_eq!(first, AttributeValue::Matrix44(m));
    assert!(scene::update(&mut world).is_ok());
    assert_eq!(read(&world), first);
    // The device keeps its value.
    let dv = devices::get_by_id(&world, &dev)
        .unwrap()
        .attributes
        .get(&Name::new("pose"))
        .unwrap()
        .value();
    assert_eq!(dv, AttributeValue::Matrix44(m));
}

#[test]
fn update_without_links_changes_nothing() {
    let mut world = World::new();
    scene::init(&mut world);
    let before = format!("{:?}", world);
    assert!(scene::update(&mut world).is_ok());
    assert_eq!(format!("{:?}", world), before);
}

#[test]
fn update_with_missing_device_attribute_fails() {
    let mut world = World::new();
    let dev = devices::add_device(&mut world, Device::new(Name::new("tracker")));
    let mut obj = SceneObject::new(Name::new("cube"));
    obj.insert_attribute(Attribute::new_matrix44(Name::new("transform")));
    let link = AttributeLink::new(dev, Name::new("pose"), Name::new("transform"));
    assert!(obj.insert_link(link).is_ok());
    let _ = scene::add_scene_object(&mut world, obj);
    match scene::update(&mut world) {
        Err(Error::NotFound(m)) => assert_eq!(m, "no device attribute 'tracker.pose'"),
        other => panic!("unexpected {:?}", other),
    }
}

#[test]
fn update_with_value_of_other_kind_fails() {
    let mut world = World::new();
    let mut device = Device::new(Name::new("tracker"));
    device.attributes.insert(Attribute::new_vec3(Name::new("pose")));
    let dev = devices::add_device(&mut world, device);
    let mut obj = SceneObject::new(Name::new("cube"));
    obj.insert_attribute(Attribute::new_matrix44(Name::new("transform")));
    let link = AttributeLink::new(dev, Name::new("pose"), Name::new("transform"));
    assert!(obj.insert_link(link).is_ok());
    let _ = scene::add_scene_object(&mut world, obj);
    match scene::update(&mut world) {
        Err(Error::InvalidValue(m)) => assert_eq!(m, "value has different type"),
        other => panic!("unexpected {:?}", other),
    }
}

#[test]
fn removed_object_slot_is_reused() {
    let mut world = World::new();
    let id = scene::add_scene_object(&mut world, SceneObject::new(Name::new("cube")));
    assert_eq!(scene::procces(&mut world, Command::RemoveObject(id)), Ok(Some(CommandReply::EntityId(id))));
    let again = scene::procces(&mut world, Command::AddObject(SceneObject::new(Name::new("cube"))));
    assert_eq!(again, Ok(Some(CommandReply::EntityId(id))));
    assert!(scene::get_by_id(&world, id).is_none());
    assert_eq!(scene::get_all(&world).len(), 1);
    assert!(scene::find_object_name(&world, &Name::new("cube")));
}
