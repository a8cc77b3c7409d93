use rust_2d_game_engine::ecs::attribute::{AttributeType, AttributeValue, PhysicsProperties, F32_600, F32_800, F32_ONE, F32_ZERO};
use rust_2d_game_engine::ecs::{Entity, Scene, SceneManager};

fn bits(x: f32) -> u32 {
    x.to_bits()
}

#[test]
fn new_entity_has_position_attributes_at_zero() {
    let e = Entity::new(7, "player").unwrap();
    let names: Vec<&str> = e.list_attribute().iter().map(|(_, n)| *n).collect();
    assert_eq!(names, vec!["x", "y", "z"]);
    assert_eq!(e.get_x(), F32_ZERO);
    assert_eq!(e.get_position().unwrap(), (0, 0, 0));
    assert_eq!(e.id, 7);
    assert_eq!(e.name, "player");
}

#[test]
fn core_attributes_cannot_be_deleted() {
    let mut e = Entity::new(1, "thing").unwrap();
    let x_id = e.get_attribute_by_name("x").unwrap().id;
    assert_eq!(e.delete_attribute(x_id), Err("Cannot delete core position attributes".to_string()));
    assert!(e.get_attribute(x_id).is_ok());
}

#[test]
fn duplicate_attribute_name_is_refused() {
    let mut e = Entity::new(1, "thing").unwrap();
    let id = e.create_attribute("hp", AttributeType::Integer, AttributeValue::Integer(3)).unwrap();
    assert_eq!(
        e.create_attribute("hp", AttributeType::Integer, AttributeValue::Integer(4)),
        Err("Attribute 'hp' already exists".to_string())
    );
    assert_eq!(e.delete_attribute(id), Ok(true));
    assert_eq!(e.delete_attribute(id), Ok(false));
}

#[test]
fn set_then_get_position() {
    let mut e = Entity::new(1, "thing").unwrap();
    e.set_position(bits(1.5), bits(-2.0), bits(3.0)).unwrap();
    assert_eq!(f32::from_bits(e.get_x()), 1.5);
    assert_eq!(f32::from_bits(e.get_y()), -2.0);
    assert_eq!(f32::from_bits(e.get_z()), 3.0);
}

#[test]
fn camera_entity_defaults() {
    let c = Entity::new_camera(2, "main_camera").unwrap();
    assert!(c.is_camera());
    assert_eq!(c.get_camera_width(), F32_800);
    assert_eq!(c.get_camera_height(), F32_600);
    assert_eq!(c.get_camera_zoom(), F32_ONE);
    assert_eq!(c.get_camera_rotation(), F32_ZERO);
    let id = c.get_attribute_by_name("is_camera").unwrap().id;
    let mut c2 = c.clone();
    assert_eq!(
        c2.modify_attribute(id, None, None, Some(AttributeValue::Boolean(false))),
        Err("Cannot modify is_camera attribute".to_string())
    );
    let w = c2.get_attribute_by_name("width").unwrap().id;
    assert_eq!(c2.delete_attribute(w), Err("Cannot delete camera attributes from camera entity".to_string()));
}

#[test]
fn plain_entity_has_camera_defaults_when_missing() {
    let e = Entity::new(3, "rock").unwrap();
    assert!(!e.is_camera());
    assert_eq!(f32::from_bits(e.get_camera_width()), 800.0);
    assert_eq!(f32::from_bits(e.get_camera_height()), 600.0);
    let mut e2 = e.clone();
    assert_eq!(e2.set_camera_size(1, 2), Err("Width attribute not found".to_string()));
}

#[test]
fn physical_entity_attributes() {
    let p = PhysicsProperties::default();
    let e = Entity::new_physical(4, "physical_box", (bits(1.0), bits(2.0), bits(0.0)), p).unwrap();
    assert_eq!(e.list_attribute().len(), 11);
    assert_eq!(f32::from_bits(e.get_x()), 1.0);
    let friction = e.get_attribute_by_name("friction").unwrap();
    assert!(matches!(friction.value, AttributeValue::Float(b) if f32::from_bits(b) == 0.5));
    let mut e2 = e.clone();
    let fid = friction.id;
    assert_eq!(
        e2.delete_attribute(fid),
        Err("Cannot delete physics attributes from physical entity".to_string())
    );
}

#[test]
fn resource_paths_compare_by_components() {
    let mut e = Entity::new(6, "hero").unwrap();
    e.add_image("assets/a.png".to_string()).unwrap();
    assert_eq!(e.add_image("assets//a.png".to_string()), Err("Image already exists".to_string()));
    assert_eq!(e.add_image("assets/./a.png".to_string()), Err("Image already exists".to_string()));
    assert!(e.has_image(&"assets/a.png/".to_string()));
    assert!(!e.has_image(&"assets/b.png".to_string()));
    e.add_sound("sfx/hit.wav".to_string()).unwrap();
    assert_eq!(e.add_sound("sfx//hit.wav/".to_string()), Err("Sound already exists".to_string()));
    assert_eq!(e.remove_sound(&"./sfx/hit.wav".to_string()), Err("Sound not found".to_string()));
    e.remove_sound(&"sfx/./hit.wav".to_string()).unwrap();
    assert!(!e.has_sound(&"sfx/hit.wav".to_string()));
    e.add_image("assets/b.png".to_string()).unwrap();
    e.remove_image(&"assets//a.png".to_string()).unwrap();
    assert_eq!(e.list_images().len(), 1);
    assert_eq!(e.get_image(0).unwrap(), "assets/b.png");
}

#[test]
fn resources_add_and_remove() {
    let mut e = Entity::new(5, "hero").unwrap();
    e.add_image("/p/assets/images/a.png".to_string()).unwrap();
    assert_eq!(e.add_image("/p/assets/images/a.png".to_string()), Err("Image already exists".to_string()));
    assert!(e.has_image(&"/p/assets/images/a.png".to_string()));
    assert_eq!(e.get_image(0).unwrap(), "/p/assets/images/a.png");
    assert_eq!(e.get_image(3), Err("Image at index 3 not found".to_string()));
    e.remove_image(&"/p/assets/images/a.png".to_string()).unwrap();
    assert!(e.list_images().is_empty());
    assert_eq!(e.remove_image(&"x".to_string()), Err("Image not found".to_string()));
    e.set_script("s.lua".to_string()).unwrap();
    assert_eq!(e.set_script("t.lua".to_string()), Err("Script already exists".to_string()));
    e.remove_script().unwrap();
    assert_eq!(e.remove_script(), Err("No script to remove".to_string()));
    assert_eq!(e.change_entity_name(""), Err("Entity name cannot be empty".to_string()));
}

#[test]
fn scene_default_camera_cannot_be_deleted() {
    let mut s = Scene::new("level").unwrap();
    let cam = s.default_camera.unwrap();
    assert_eq!(s.get_entity(cam).unwrap().name, "main_camera");
    assert_eq!(s.delete_entity(cam), Err("Cannot delete default camera".to_string()));
    let id = s.create_entity("enemy").unwrap();
    assert_eq!(s.list_entity().len(), 2);
    assert_eq!(s.delete_entity(id), Ok(true));
    assert_eq!(s.delete_entity(id), Ok(false));
    assert!(s.get_entity(id).is_err());
}

#[test]
fn scene_shared_references() {
    let mut s = Scene::new("level").unwrap();
    s.add_shared_entity_ref(9).unwrap();
    assert_eq!(s.add_shared_entity_ref(9), Err("Shared entity reference already exists".to_string()));
    assert_eq!(s.list_shared_entity_ref(), vec![9]);
    s.remove_shared_entity_ref(9).unwrap();
    assert_eq!(s.remove_shared_entity_ref(9), Err("Shared entity reference not found".to_string()));
}

#[test]
fn batch_updates_stop_at_first_error() {
    let mut s = Scene::new("level").unwrap();
    let e = s.create_entity("a").unwrap();
    let x = s.get_entity(e).unwrap().get_attribute_by_name("x").unwrap().id;
    let r = s.update_entity_attributes(vec![
        (e, x, AttributeValue::Float(bits(5.0))),
        (12345, x, AttributeValue::Float(bits(6.0))),
    ]);
    assert!(r.unwrap_err().starts_with("Entity "));
    assert_eq!(f32::from_bits(s.get_entity(e).unwrap().get_x()), 5.0);
}

#[test]
fn manager_active_scene_rules() {
    let mut m = SceneManager::new();
    let a = m.create_scene("A").unwrap();
    let b = m.create_scene("B").unwrap();
    assert_eq!(m.list_scene().len(), 2);
    m.set_active_scene(a).unwrap();
    assert_eq!(m.get_active_scene().unwrap().name, "A");
    assert_eq!(m.delete_scene(a), Err("Cannot delete active scene".to_string()));
    assert_eq!(m.set_active_scene(999), Err("Scene not found".to_string()));
    assert_eq!(m.get_scene_by_name("B").unwrap().name, "B");
    assert_eq!(m.delete_scene(b), Ok(true));
    m.clear_active_scene();
    assert!(m.get_active_scene().is_none());
}

#[test]
fn manager_shared_entity_in_use_cannot_be_deleted() {
    let mut m = SceneManager::new();
    let a = m.create_scene("A").unwrap();
    let shared = m.create_shared_entity("sun").unwrap();
    m.get_scene_mut(a).unwrap().add_shared_entity_ref(shared).unwrap();
    assert_eq!(m.delete_shared_entity(shared), Err("Entity is still referenced by a scene".to_string()));
    assert_eq!(m.get_scenes_using_entity(shared).len(), 1);
    let scene = m.get_scene(a).unwrap();
    let all = scene.get_all_entities(&m);
    assert_eq!(all.len(), 2);
    assert_eq!(all[1].name, "sun");
    m.get_scene_mut(a).unwrap().remove_shared_entity_ref(shared).unwrap();
    assert_eq!(m.delete_shared_entity(shared), Ok(true));
    assert!(m.get_shared_entity_by_name("sun").is_none());
}
