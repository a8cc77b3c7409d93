use rust_2d_game_engine::ecs::attribute::AttributeValue;
use rust_2d_game_engine::ecs::SceneManager;
use rust_2d_game_engine::gui_state::{GuiState, ScenePanelSelectedItem, SelectedItem};
use rust_2d_game_engine::popup::PopupManager;
use rust_2d_game_engine::text::trim_text;

fn editor_with_scenes() -> GuiState {
    let mut g = GuiState::new();
    g.scene_manager = Some(SceneManager::new());
    g.undo_stack.reset(&SceneManager::new());
    g
}

fn create(p: &mut PopupManager, g: &mut GuiState, kind: &str, name: &str) -> bool {
    p.create_popup_active = true;
    p.create_item_type = kind.to_string();
    p.create_item_name = name.to_string();
    p.handle_create(g)
}

#[test]
fn trimming_matches_str_trim() {
    let samples = [
        "", "   ", "  a b  ", "\t\nname\r\n", "\u{3000}scene\u{2003}", "\u{a0}x", "x\u{85}", "\u{200b}zero\u{200b}",
        "\u{1680}\u{2028}\u{2029}\u{202f}\u{205f}ok", "\u{b}\u{c}mid dle\u{b}",
    ];
    for s in samples {
        assert_eq!(trim_text(s), s.trim(), "input {:?}", s);
    }
}

#[test]
fn blank_name_is_refused() {
    let mut g = editor_with_scenes();
    let mut p = PopupManager::new();
    assert!(!create(&mut p, &mut g, "Scene", "   "));
    assert_eq!(p.error_message, "Please select an item type and enter a valid name.");
    assert!(p.create_popup_active);
    assert!(g.scene_manager.as_ref().unwrap().list_scene().is_empty());
}

#[test]
fn creating_a_scene_selects_it_and_records_it() {
    let mut g = editor_with_scenes();
    let mut p = PopupManager::new();
    assert!(create(&mut p, &mut g, "Scene", "  Level 1 "));
    let m = g.scene_manager.as_ref().unwrap();
    let scenes = m.list_scene();
    assert_eq!(scenes.len(), 1);
    assert_eq!(scenes[0].1, "Level 1");
    let id = scenes[0].0;
    assert!(matches!(g.selected_item, SelectedItem::Scene(s) if s == id));
    assert!(matches!(g.scene_panel_selected_item, ScenePanelSelectedItem::Scene(s) if s == id));
    assert!(!p.create_popup_active);
    assert_eq!(p.create_item_name, "");
    assert_eq!(p.error_message, "");
    // the creation was recorded: undo brings back the empty scene list
    assert!(g.undo_stack.can_undo());
    assert!(g.apply_undo());
    assert!(g.scene_manager.as_ref().unwrap().list_scene().is_empty());
}

#[test]
fn scene_needs_loaded_scenes() {
    let mut g = GuiState::new();
    let mut p = PopupManager::new();
    assert!(!create(&mut p, &mut g, "Scene", "Level"));
    assert_eq!(p.error_message, "Scene manager is not available.");
    assert!(p.create_popup_active);
}

#[test]
fn entity_needs_a_selected_scene() {
    let mut g = editor_with_scenes();
    let mut p = PopupManager::new();
    assert!(!create(&mut p, &mut g, "Entity", "Hero"));
    assert_eq!(p.error_message, "Please select a scene first to add the entity.");
    assert!(p.create_popup_active);
}

#[test]
fn entity_in_a_missing_scene_is_refused() {
    let mut g = editor_with_scenes();
    g.scene_panel_selected_item = ScenePanelSelectedItem::Scene(42);
    let mut p = PopupManager::new();
    assert!(!create(&mut p, &mut g, "Entity", "Hero"));
    assert_eq!(p.error_message, "The selected scene could not be found.");
}

#[test]
fn entity_presets_make_entities_in_the_selected_scene() {
    let mut g = editor_with_scenes();
    let mut p = PopupManager::new();
    assert!(create(&mut p, &mut g, "Scene", "World"));
    let sid = g.scene_manager.as_ref().unwrap().list_scene()[0].0;

    assert!(create(&mut p, &mut g, "Camera", "cam2"));
    let cam = match g.selected_item {
        SelectedItem::Entity(s, e) => {
            assert_eq!(s, sid);
            e
        }
        _ => panic!("camera not selected"),
    };
    assert!(matches!(g.scene_panel_selected_item, ScenePanelSelectedItem::Entity(s, e) if s == sid && e == cam));

    // the new entity is selected in the panel, so select the scene again
    g.scene_panel_selected_item = ScenePanelSelectedItem::Scene(sid);
    assert!(create(&mut p, &mut g, "Physics", " crate "));
    g.scene_panel_selected_item = ScenePanelSelectedItem::Scene(sid);
    assert!(create(&mut p, &mut g, "Entity", "hero"));

    let scene = g.scene_manager.as_ref().unwrap().get_scene(sid).unwrap();
    let names: Vec<&str> = scene.list_entity().iter().map(|(_, n)| *n).collect();
    assert_eq!(names, vec!["main_camera", "cam2", "crate", "hero"]);
    let camera = scene.get_entity(cam).unwrap();
    assert!(camera.is_camera());
    let ids: Vec<u128> = scene.list_entity().iter().map(|(id, _)| *id).collect();
    let physical = scene.get_entity(ids[2]).unwrap();
    assert!(matches!(physical.get_attribute_by_name("has_collision").unwrap().value, AttributeValue::Boolean(true)));
    let plain = scene.get_entity(ids[3]).unwrap();
    assert_eq!(plain.list_attribute().len(), 3);
}

#[test]
fn unknown_kind_makes_nothing_and_closes() {
    let mut g = editor_with_scenes();
    let mut p = PopupManager::new();
    assert!(!create(&mut p, &mut g, "Resource", "texture"));
    assert!(!p.create_popup_active);
    assert!(g.scene_manager.as_ref().unwrap().list_scene().is_empty());
}

#[test]
fn rename_scene_and_entity() {
    let mut g = editor_with_scenes();
    let mut p = PopupManager::new();
    assert!(create(&mut p, &mut g, "Scene", "Old"));
    let sid = g.scene_manager.as_ref().unwrap().list_scene()[0].0;
    let cam = g.scene_manager.as_ref().unwrap().get_scene(sid).unwrap().list_entity()[0].0;

    p.start_rename_scene(sid, "Old".to_string());
    assert_eq!(p.scene_rename_scene, Some(sid));
    p.rename_input = "  New  ".to_string();
    assert!(p.rename_item(sid, None, &mut g));
    assert_eq!(g.scene_manager.as_ref().unwrap().get_scene(sid).unwrap().name, "New");
    assert_eq!(p.scene_rename_scene, None);
    assert_eq!(p.rename_input, "");

    p.start_rename_entity(sid, cam, "main_camera".to_string());
    assert_eq!(p.entity_rename_entity, Some((sid, cam)));
    p.rename_input = "eye".to_string();
    assert!(p.rename_item(sid, Some(cam), &mut g));
    let scene = g.scene_manager.as_ref().unwrap().get_scene(sid).unwrap();
    assert_eq!(scene.get_entity(cam).unwrap().name, "eye");
    assert_eq!(p.entity_rename_entity, None);

    // a missing entity is left alone, but the rename still closes
    p.rename_input = "ghost".to_string();
    assert!(p.rename_item(sid, Some(7), &mut g));
    assert_eq!(g.scene_manager.as_ref().unwrap().get_scene(sid).unwrap().list_entity().len(), 1);
}

#[test]
fn rename_without_scenes_changes_nothing() {
    let mut g = GuiState::new();
    let mut p = PopupManager::new();
    p.start_rename_scene(1, "x".to_string());
    assert!(!p.rename_item(1, None, &mut g));
    assert_eq!(p.scene_rename_scene, None);
    assert!(g.scene_manager.is_none());
}

#[test]
fn resource_dialog_flags() {
    let mut p = PopupManager::new();
    assert_eq!(p.create_item_type, "Scene");
    p.start_manage_scene_resources(9);
    assert!(p.manage_scene_resources_active);
    assert_eq!(p.manage_resources_scene, Some(9));
    p.reset_manage_scene_resources();
    assert!(!p.manage_scene_resources_active);
    assert_eq!(p.manage_resources_scene, None);
    p.manage_resource_popup_active = true;
    p.error_message = "x".to_string();
    p.reset_manage_resources_popup();
    assert!(!p.manage_resource_popup_active);
    assert_eq!(p.error_message, "");
}
