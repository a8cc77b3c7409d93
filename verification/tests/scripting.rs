use rust_2d_game_engine::ecs::attribute::{AttributeType, AttributeValue, F32_ZERO};
use rust_2d_game_engine::ecs::SceneManager;
use rust_2d_game_engine::ids::{id_text, parse_uuid};
use rust_2d_game_engine::project::ProjectManager;
use rust_2d_game_engine::script_api::{
    add_entity, add_image, create_attribute, create_physical_entity, get_attribute, get_entity_name, has_attribute,
    list_entities, remove_entity, set_attribute, set_coordinate, set_position, set_script, update_entity_attribute_bool, Axis,
    ScriptValue,
};
use rust_2d_game_engine::script_editor::{check_script_syntax, first_line_of, replace_text, syntax_report, EditorBuffer};
use rust_2d_game_engine::script_session::{scripted_entities, ScriptSession};

fn bits(x: f32) -> u32 {
    x.to_bits()
}

fn setup() -> (SceneManager, u128, String) {
    let mut m = SceneManager::new();
    let sid = m.create_scene("level").unwrap();
    (m, sid, id_text(sid))
}

#[test]
fn add_and_remove_entities_by_id_text() {
    let (mut m, sid, st) = setup();
    let et = add_entity(&mut m, &st, "hero").unwrap();
    let eid = parse_uuid(&et, "entity").unwrap();
    assert_eq!(m.get_scene(sid).unwrap().get_entity(eid).unwrap().name, "hero");
    assert_eq!(get_entity_name(&m, &st, &et), Ok(Some("hero".to_string())));
    assert_eq!(remove_entity(&mut m, &st, &et), Ok(true));
    assert_eq!(remove_entity(&mut m, &st, &et), Ok(false));
    assert_eq!(get_entity_name(&m, &st, &et), Ok(None));
}

#[test]
fn bad_ids_are_reported() {
    let (mut m, _sid, st) = setup();
    let uuid_error = uuid::Uuid::parse_str("nope").unwrap_err().to_string();
    assert_eq!(
        add_entity(&mut m, "nope", "x"),
        Err(format!("Invalid scene UUID 'nope': {}", uuid_error))
    );
    assert_eq!(
        remove_entity(&mut m, &st, "nope"),
        Err(format!("Invalid entity UUID 'nope': {}", uuid_error))
    );
    let other = id_text(42);
    assert_eq!(
        add_entity(&mut m, &other, "x"),
        Err(format!("Scene '{}' not found", uuid::Uuid::from_u128(42)))
    );
    assert_eq!(
        set_coordinate(&mut m, &st, &other, Axis::X, 0),
        Err(format!("Entity '{}' not found: Entity {} not found", other, other))
    );
}

#[test]
fn coordinates_and_position() {
    let (mut m, sid, st) = setup();
    let et = add_entity(&mut m, &st, "hero").unwrap();
    let eid = parse_uuid(&et, "entity").unwrap();
    set_coordinate(&mut m, &st, &et, Axis::Z, bits(4.0)).unwrap();
    set_position(&mut m, &st, &et, bits(1.0), bits(2.0)).unwrap();
    let e = m.get_scene(sid).unwrap().get_entity(eid).unwrap();
    assert_eq!(e.get_position().unwrap(), (bits(1.0), bits(2.0), bits(4.0)));
    let rows = list_entities(&m, &st).unwrap();
    assert_eq!(rows.len(), 2);
    assert_eq!(rows[0].name, "main_camera");
    assert_eq!(rows[1].id, et);
    assert_eq!(rows[1].name, "hero");
    assert_eq!((rows[1].x, rows[1].y), (bits(1.0), bits(2.0)));
}

#[test]
fn missing_coordinate_is_reported() {
    let (mut m, sid, st) = setup();
    let et = add_entity(&mut m, &st, "hero").unwrap();
    let eid = parse_uuid(&et, "entity").unwrap();
    let e = m.get_scene_mut(sid).unwrap().get_entity_mut(eid).unwrap();
    let y_id = e.get_attribute_by_name("y").unwrap().id;
    e.attributes.shift_remove(&y_id);
    assert_eq!(
        set_coordinate(&mut m, &st, &et, Axis::Y, 0),
        Err("Failed to set set_y: Y attribute not found".to_string())
    );
    assert_eq!(
        set_position(&mut m, &st, &et, bits(3.0), bits(5.0)),
        Err("Failed to set position: Y attribute not found".to_string())
    );
    // x stayed set
    let e = m.get_scene(sid).unwrap().get_entity(eid).unwrap();
    assert_eq!(e.get_x(), bits(3.0));
}

#[test]
fn attributes_from_scripts() {
    let (mut m, _sid, st) = setup();
    let et = add_entity(&mut m, &st, "hero").unwrap();
    create_attribute(&mut m, &st, &et, "alive", AttributeType::Boolean, AttributeValue::Boolean(true)).unwrap();
    assert_eq!(
        create_attribute(&mut m, &st, &et, "alive", AttributeType::Boolean, AttributeValue::Boolean(false)),
        Err("Failed to create attribute 'alive': Attribute 'alive' already exists".to_string())
    );
    create_attribute(&mut m, &st, &et, "velocity", AttributeType::Vector2, AttributeValue::Vector2(0, 0)).unwrap();
    assert_eq!(
        create_attribute(&mut m, &st, &et, "velocity", AttributeType::Vector2, AttributeValue::Vector2(0, 0)),
        Err("Failed to create vector2 attribute 'velocity': Attribute 'velocity' already exists".to_string())
    );
    assert_eq!(has_attribute(&m, &st, &et, "alive"), Ok(true));
    assert_eq!(has_attribute(&m, &st, &et, "dead"), Ok(false));
    update_entity_attribute_bool(&mut m, &st, &et, "alive", false).unwrap();
    assert_eq!(get_attribute(&m, &st, &et, "alive"), Ok(Some(AttributeValue::Boolean(false))));
    assert_eq!(get_attribute(&m, &st, &et, "dead"), Ok(None));
    assert_eq!(
        update_entity_attribute_bool(&mut m, &st, &et, "dead", true),
        Err("Attribute 'dead' not found: Attribute 'dead' not found".to_string())
    );
}

#[test]
fn assets_need_an_active_scene_and_a_project() {
    let (mut m, sid, st) = setup();
    let et = add_entity(&mut m, &st, "hero").unwrap();
    let eid = parse_uuid(&et, "entity").unwrap();
    let mut project = ProjectManager::new();
    assert_eq!(add_image(&mut m, &project, &et, "a.png"), Err("No active scene found".to_string()));
    m.set_active_scene(sid).unwrap();
    assert_eq!(add_image(&mut m, &project, &et, "a.png"), Err("No project is currently open".to_string()));
    project.set_project_path("/games/demo".to_string());
    add_image(&mut m, &project, &et, "assets/images/a.png").unwrap();
    assert_eq!(
        add_image(&mut m, &project, &et, "assets/images/a.png"),
        Err(format!("Failed to add image to entity '{}': Image already exists", et))
    );
    set_script(&mut m, &project, &et, "assets/scripts/hero.lua").unwrap();
    assert_eq!(
        set_script(&mut m, &project, &et, "assets/scripts/other.lua"),
        Err(format!("Failed to set script for entity '{}': Script already exists", et))
    );
    let e = m.get_scene(sid).unwrap().get_entity(eid).unwrap();
    assert_eq!(e.images, vec!["/games/demo/assets/images/a.png".to_string()]);
    assert_eq!(e.script, Some("/games/demo/assets/scripts/hero.lua".to_string()));
}

#[test]
fn physical_entity_from_script() {
    let (mut m, sid, st) = setup();
    let et = create_physical_entity(&mut m, &st, "ball", bits(10.0), bits(20.0), bits(0.5)).unwrap();
    let eid = parse_uuid(&et, "entity").unwrap();
    let e = m.get_scene(sid).unwrap().get_entity(eid).unwrap();
    let names: Vec<&str> = e.list_attribute().iter().map(|(_, n)| *n).collect();
    assert_eq!(
        names,
        vec![
            "x", "y", "z", "position", "is_movable", "has_gravity", "creates_gravity", "has_collision", "friction",
            "restitution", "density", "can_rotate"
        ]
    );
    assert_eq!(e.get_position().unwrap(), (bits(10.0), bits(20.0), bits(0.5)));
    assert_eq!(
        e.get_attribute_by_name("position").unwrap().value,
        AttributeValue::Vector2(bits(10.0), bits(20.0))
    );
    assert_eq!(e.get_attribute_by_name("friction").unwrap().value, AttributeValue::Float(bits(0.5)));
    assert_eq!(e.get_attribute_by_name("restitution").unwrap().value, AttributeValue::Float(F32_ZERO));
    assert_eq!(e.get_attribute_by_name("is_movable").unwrap().value, AttributeValue::Boolean(true));
}

fn reference_report(source: &str) -> Option<String> {
    let lua = mlua::Lua::new();
    match lua.load(source).set_name("script").into_function() {
        Ok(_) => None,
        Err(e) => {
            let message = e.to_string().replace("[string \"script\"]:", "line ");
            Some(message.lines().next().unwrap_or(&message).to_string())
        }
    }
}

#[test]
fn syntax_check_reports_line_numbers() {
    assert_eq!(check_script_syntax("function update(s, e)\n  local x = 1\nend\n"), None);
    let bad = "function update(s, e)\n  local x = \nend\n";
    let report = check_script_syntax(bad).unwrap();
    assert!(report.contains("line 3:"), "{}", report);
    assert!(!report.contains("[string"));
    assert!(!report.contains('\n'));
    assert_eq!(Some(report), reference_report(bad));
    for src in ["x = = 1", "if then", "print('a'", "local t = {1, 2", "return 1\n\n)"] {
        assert_eq!(check_script_syntax(src), reference_report(src), "{}", src);
    }
}

#[test]
fn report_text_rules() {
    assert_eq!(
        syntax_report(Some("syntax error: [string \"script\"]:2: oops\nstack\n".to_string())),
        Some("syntax error: line 2: oops".to_string())
    );
    assert_eq!(syntax_report(None), None);
    assert_eq!(replace_text("aXbXX", "X", "yz"), "ayzbyzyz");
    assert_eq!(replace_text("aaaa", "aa", "b"), "bb");
    assert_eq!(replace_text("abc", "zz", "q"), "abc");
    assert_eq!(first_line_of("one\r\ntwo"), "one");
    assert_eq!(first_line_of("one\rtwo"), "one\rtwo");
    assert_eq!(first_line_of("\nx"), "");
    assert_eq!(first_line_of(""), "");
    assert_eq!(first_line_of("single"), "single");
}

#[test]
fn snippets_go_in_at_the_cursor() {
    let mut b = EditorBuffer::new();
    assert_eq!(
        b.insert_into_editor(Some(0), "x"),
        Err("Open a script in the editor first, then insert snippets.".to_string())
    );
    b.current_edited_file = Some("/p/a.lua".to_string());
    b.editor_content = "héllo".to_string();
    assert_eq!(b.insert_into_editor(Some(2), "XY"), Ok(4));
    assert_eq!(b.editor_content, "héXYllo");
    assert!(b.editor_dirty);
    assert_eq!(b.insert_into_editor(None, "!"), Ok(8));
    assert_eq!(b.editor_content, "héXYllo!");
    assert_eq!(b.insert_into_editor(Some(99), "?"), Ok(9));
    assert_eq!(b.editor_content, "héXYllo!?");
    assert_eq!(b.syntax_error, check_script_syntax("héXYllo!?"));
    assert!(b.syntax_error.is_some());
}

#[test]
fn only_unsaved_changes_are_written() {
    let mut b = EditorBuffer::new();
    assert_eq!(b.pending_save(), None);
    b.editor_dirty = true;
    assert_eq!(b.pending_save(), None);
    b.current_edited_file = Some("/p/a.lua".to_string());
    b.editor_content = "print(1)".to_string();
    assert_eq!(b.pending_save(), Some(("/p/a.lua".to_string(), "print(1)".to_string())));
    b.mark_saved();
    assert!(!b.editor_dirty);
    assert_eq!(b.pending_save(), None);
    assert_eq!(b.editor_content, "print(1)");
}

#[test]
fn init_runs_once_per_entity() {
    let mut s = ScriptSession::new();
    assert!(s.first_run(7));
    assert!(!s.first_run(7));
    assert!(s.first_run(8));
    assert_eq!(s.initialized, vec![7, 8]);
}

#[test]
fn only_new_contacts_fire() {
    let mut s = ScriptSession::new();
    let mut first = s.new_contacts(1, vec![5, 6, 5]);
    first.sort();
    assert_eq!(first, vec![5, 6]);
    assert_eq!(s.new_contacts(1, vec![6, 7]), vec![7]);
    assert_eq!(s.new_contacts(2, vec![6]), vec![6]);
    assert_eq!(s.new_contacts(1, vec![]), Vec::<u128>::new());
    assert_eq!(s.new_contacts(1, vec![6]), vec![6]);
    assert_eq!(s.previous_contacts.len(), 2);
}

#[test]
fn stop_request_is_taken_once() {
    let mut s = ScriptSession::new();
    assert!(!s.take_game_stop_request());
    s.request_stop();
    assert!(s.take_game_stop_request());
    assert!(!s.take_game_stop_request());
}

#[test]
fn scripted_entities_in_scene_order() {
    let (mut m, sid, _st) = setup();
    let scene = m.get_scene_mut(sid).unwrap();
    let a = scene.create_entity("a").unwrap();
    let _b = scene.create_entity("b").unwrap();
    let c = scene.create_entity("c").unwrap();
    scene.get_entity_mut(c).unwrap().set_script("/p/c.lua".to_string()).unwrap();
    scene.get_entity_mut(a).unwrap().set_script("/p/a.lua".to_string()).unwrap();
    let list = scripted_entities(m.get_scene(sid).unwrap());
    assert_eq!(list, vec![(a, "/p/a.lua".to_string()), (c, "/p/c.lua".to_string())]);
}

#[test]
fn script_values_convert_to_the_attribute_type() {
    let (mut m, _sid, st) = setup();
    let et = add_entity(&mut m, &st, "hero").unwrap();
    create_attribute(&mut m, &st, &et, "hp", AttributeType::Integer, AttributeValue::Integer(1)).unwrap();
    create_attribute(&mut m, &st, &et, "speed", AttributeType::Float, AttributeValue::Float(0)).unwrap();
    create_attribute(&mut m, &st, &et, "pos", AttributeType::Vector2, AttributeValue::Vector2(0, 0)).unwrap();
    create_attribute(&mut m, &st, &et, "tag", AttributeType::String, AttributeValue::String(String::new())).unwrap();

    set_attribute(&mut m, &st, &et, "hp", ScriptValue::Number(bits(7.0), Some(7))).unwrap();
    assert_eq!(get_attribute(&m, &st, &et, "hp"), Ok(Some(AttributeValue::Integer(7))));
    assert_eq!(
        set_attribute(&mut m, &st, &et, "hp", ScriptValue::Number(bits(7.5), None)),
        Err("Attribute 'hp' is an Integer, got Lua number".to_string())
    );
    set_attribute(&mut m, &st, &et, "speed", ScriptValue::Integer(3, bits(3.0))).unwrap();
    assert_eq!(get_attribute(&m, &st, &et, "speed"), Ok(Some(AttributeValue::Float(bits(3.0)))));
    set_attribute(&mut m, &st, &et, "pos", ScriptValue::Table(Ok((bits(1.0), bits(2.0))))).unwrap();
    assert_eq!(get_attribute(&m, &st, &et, "pos"), Ok(Some(AttributeValue::Vector2(bits(1.0), bits(2.0)))));
    assert_eq!(
        set_attribute(&mut m, &st, &et, "pos", ScriptValue::Table(Err("bad table".to_string()))),
        Err("bad table".to_string())
    );
    assert_eq!(
        set_attribute(&mut m, &st, &et, "tag", ScriptValue::Other("nil".to_string())),
        Err("Attribute 'tag' is a String, got Lua nil".to_string())
    );
    set_attribute(&mut m, &st, &et, "tag", ScriptValue::String("boss".to_string())).unwrap();
    assert_eq!(get_attribute(&m, &st, &et, "tag"), Ok(Some(AttributeValue::String("boss".to_string()))));
    assert_eq!(
        set_attribute(&mut m, &st, &et, "mana", ScriptValue::Boolean(true)),
        Err("Attribute 'mana' not found: Attribute 'mana' not found".to_string())
    );
}

#[test]
fn init_runs_once_per_entity_in_a_session() {
    let mut s = ScriptSession::new();
    let calls = [3u128, 4, 3, 3, 5, 4, 6, 5];
    let answers: Vec<bool> = calls.iter().map(|&e| s.first_run(e)).collect();
    assert_eq!(answers, vec![true, true, false, false, true, false, true, false]);
    assert_eq!(s.initialized, vec![3, 4, 5, 6]);
    let mut fresh = ScriptSession::new();
    assert!(fresh.first_run(3));
}
