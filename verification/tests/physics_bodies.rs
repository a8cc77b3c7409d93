use rust_2d_game_engine::ecs::attribute::{AttributeType, AttributeValue, PhysicsProperties, F32_HALF, F32_ONE, F32_ZERO};
use rust_2d_game_engine::ecs::{Entity, Scene};
use rust_2d_game_engine::physics_setup::{body_settings, gravity_sources, gravity_targets, position_updates, BodySettings};

fn bits(x: f32) -> u32 {
    x.to_bits()
}

#[test]
fn entity_without_physics_attributes_gets_no_body() {
    let mut e = Entity::new(1, "decor").unwrap();
    e.create_attribute("is_movable", AttributeType::Boolean, AttributeValue::Boolean(true)).unwrap();
    assert_eq!(body_settings(&e), None);
}

#[test]
fn missing_physics_attributes_take_defaults() {
    let mut e = Entity::new(2, "wall").unwrap();
    e.create_attribute("has_collision", AttributeType::Boolean, AttributeValue::Boolean(true)).unwrap();
    assert_eq!(
        body_settings(&e),
        Some(BodySettings {
            position_x: F32_ZERO,
            position_y: F32_ZERO,
            is_movable: false,
            affected_by_gravity: false,
            has_collision: true,
            friction: F32_HALF,
            restitution: F32_ZERO,
            density: F32_ONE,
            can_rotate: false,
            position_attr: None,
        })
    );
}

#[test]
fn attributes_of_the_wrong_type_fall_back_to_defaults() {
    let mut e = Entity::new(3, "odd").unwrap();
    e.create_attribute("creates_gravity", AttributeType::Integer, AttributeValue::Integer(1)).unwrap();
    e.create_attribute("has_collision", AttributeType::Integer, AttributeValue::Integer(0)).unwrap();
    e.create_attribute("friction", AttributeType::Boolean, AttributeValue::Boolean(false)).unwrap();
    let s = body_settings(&e).unwrap();
    assert!(s.has_collision);
    assert_eq!(s.friction, F32_HALF);
}

#[test]
fn body_follows_the_position_attribute() {
    let mut e = Entity::new(4, "ball").unwrap();
    let pos = e
        .create_attribute("position", AttributeType::Vector2, AttributeValue::Vector2(bits(3.5), bits(-2.0)))
        .unwrap();
    e.create_attribute("has_gravity", AttributeType::Boolean, AttributeValue::Boolean(true)).unwrap();
    e.create_attribute("is_movable", AttributeType::Boolean, AttributeValue::Boolean(true)).unwrap();
    e.create_attribute("restitution", AttributeType::Float, AttributeValue::Float(bits(0.8))).unwrap();
    let s = body_settings(&e).unwrap();
    assert_eq!(f32::from_bits(s.position_x), 3.5);
    assert_eq!(f32::from_bits(s.position_y), -2.0);
    assert!(s.is_movable && s.affected_by_gravity && s.has_collision);
    assert_eq!(f32::from_bits(s.restitution), 0.8);
    assert_eq!(s.position_attr, Some(pos));
}

#[test]
fn physical_entity_settings_come_from_its_properties() {
    let p = PhysicsProperties { is_movable: true, can_rotate: true, density: bits(2.0), ..PhysicsProperties::default() };
    let e = Entity::new_physical(5, "crate", (bits(1.0), bits(2.0), bits(0.0)), p).unwrap();
    let s = body_settings(&e).unwrap();
    assert!(s.is_movable && s.can_rotate);
    assert_eq!(f32::from_bits(s.density), 2.0);
    assert_eq!(s.position_attr, None);
}

#[test]
fn new_position_updates_position_then_x_and_y() {
    let e = Entity::new(6, "mover").unwrap();
    let x_id = e.get_attribute_by_name("x").unwrap().id;
    let y_id = e.get_attribute_by_name("y").unwrap().id;
    let updates = position_updates(6, 99, Some(&e), bits(1.5), bits(2.5));
    assert_eq!(
        updates,
        vec![
            (6, 99, AttributeValue::Vector2(bits(1.5), bits(2.5))),
            (6, x_id, AttributeValue::Float(bits(1.5))),
            (6, y_id, AttributeValue::Float(bits(2.5))),
        ]
    );
    assert_eq!(position_updates(6, 99, None, bits(1.5), bits(2.5)), vec![(6, 99, AttributeValue::Vector2(bits(1.5), bits(2.5)))]);
}

#[test]
fn gravity_sources_and_their_targets() {
    let mut scene = Scene::new("space").unwrap();
    let sun = scene.create_entity("sun").unwrap();
    let planet = scene.create_entity("planet").unwrap();
    let rock = scene.create_entity("rock").unwrap();
    let dust = scene.create_entity("dust").unwrap();
    {
        let e = scene.get_entity_mut(sun).unwrap();
        e.create_attribute("creates_gravity", AttributeType::Boolean, AttributeValue::Boolean(true)).unwrap();
        e.create_attribute("position", AttributeType::Vector2, AttributeValue::Vector2(bits(10.0), bits(20.0))).unwrap();
        e.create_attribute("has_gravity", AttributeType::Boolean, AttributeValue::Boolean(true)).unwrap();
    }
    {
        let e = scene.get_entity_mut(planet).unwrap();
        e.create_attribute("has_gravity", AttributeType::Boolean, AttributeValue::Boolean(true)).unwrap();
        // a source without a position pulls nothing
        e.create_attribute("creates_gravity", AttributeType::Boolean, AttributeValue::Boolean(true)).unwrap();
    }
    {
        let e = scene.get_entity_mut(rock).unwrap();
        e.create_attribute("has_gravity", AttributeType::Boolean, AttributeValue::Boolean(false)).unwrap();
    }
    {
        let e = scene.get_entity_mut(dust).unwrap();
        e.create_attribute("has_gravity", AttributeType::Boolean, AttributeValue::Boolean(true)).unwrap();
    }
    assert_eq!(gravity_sources(&scene), vec![(sun, (bits(10.0), bits(20.0)))]);
    assert_eq!(gravity_targets(&scene, sun), vec![planet, dust]);
    assert_eq!(gravity_targets(&scene, planet), vec![sun, dust]);
}
