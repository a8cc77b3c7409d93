use rust_2d_game_engine::ecs::SceneManager;
use sha2::Digest;
use rust_2d_game_engine::ids::{fresh_id, id_text, parse_uuid, path_to_uuid};
use rust_2d_game_engine::paths::{join_paths, resolve_path, to_relative_string};
use rust_2d_game_engine::project::{AssetType, FileManagement, ProjectManager};
use rust_2d_game_engine::scene_io::{portable_copy, resolve_loaded_paths, scene_file_path};
use rust_2d_game_engine::text::decimal_text;

fn strings(v: &[&str]) -> Vec<String> {
    v.iter().map(|s| s.to_string()).collect()
}

fn full_project(root: &str) -> Vec<String> {
    ProjectManager::structure_paths(root)
}

#[test]
fn relative_paths_use_slashes_and_need_the_prefix() {
    assert_eq!(
        to_relative_string("/games/demo/assets/images/a.png", "/games/demo"),
        Some("assets/images/a.png".to_string())
    );
    assert_eq!(to_relative_string("/games/demo//assets/./a.png", "/games/demo/"), Some("assets/a.png".to_string()));
    assert_eq!(to_relative_string("/other/a.png", "/games/demo"), None);
    assert_eq!(to_relative_string("/games/demo", "/games/demo"), Some("".to_string()));
}

#[test]
fn stored_paths_resolve_under_the_project() {
    assert_eq!(resolve_path("assets/images/a.png", "/games/demo"), "/games/demo/assets/images/a.png");
    assert_eq!(
        resolve_path("/old/place/demo/assets/sounds/s.ogg", "/games/demo"),
        "/games/demo/assets/sounds/s.ogg"
    );
    assert_eq!(resolve_path("/somewhere/else.png", "/games/demo"), "/somewhere/else.png");
}

#[test]
fn relative_then_resolved_round_trip() {
    for p in ["/games/demo/assets/images/a.png", "/games/demo/src/main.rs", "/games/demo/scenes/x.json"] {
        let rel = to_relative_string(p, "/games/demo").unwrap();
        assert_eq!(resolve_path(&rel, "/games/demo"), p);
    }
}

#[test]
fn stored_paths_follow_a_moved_project() {
    for (p, moved) in [
        ("/games/demo/assets/images/a.png", "/home/me/demo/assets/images/a.png"),
        ("/games/demo/src/main.rs", "/home/me/demo/src/main.rs"),
        ("/games/demo", "/home/me/demo/"),
    ] {
        let rel = to_relative_string(p, "/games/demo").unwrap();
        assert_eq!(resolve_path(&rel, "/home/me/demo"), moved);
    }
    let mut m = SceneManager::new();
    let sid = m.create_scene("s").unwrap();
    let scene = m.get_scene_mut(sid).unwrap();
    let eid = scene.create_entity("e").unwrap();
    scene.get_entity_mut(eid).unwrap().add_image("/games/demo/assets/images/a.png".to_string()).unwrap();
    let mut saved = portable_copy(&m, "/games/demo");
    resolve_loaded_paths(&mut saved, "/home/me/demo");
    let images = saved.get_scene(sid).unwrap().get_entity(eid).unwrap().list_images().clone();
    assert_eq!(images, vec!["/home/me/demo/assets/images/a.png".to_string()]);
}

#[test]
fn id_text_is_hyphenated_lower_case_hex() {
    assert_eq!(id_text(0x0123456789ABCDEF0123456789ABCDEF), "01234567-89ab-cdef-0123-456789abcdef");
    assert_eq!(id_text(0), "00000000-0000-0000-0000-000000000000");
    assert_eq!(decimal_text(0), "0");
    assert_eq!(decimal_text(u64::MAX), u64::MAX.to_string());
}

#[test]
fn join_rules() {
    assert_eq!(join_paths("/a", "b"), "/a/b");
    assert_eq!(join_paths("/a/", "b"), "/a/b");
    assert_eq!(join_paths("", "b"), "b");
    assert_eq!(join_paths("/a", "/b"), "/b");
}

#[test]
fn project_structure_checks_in_order() {
    let root = "/games/demo";
    let all = full_project(root);
    assert_eq!(all.len(), 8);
    assert_eq!(all[0], "/games/demo/project.epm");
    assert_eq!(all[7], "/games/demo/scenes/scene_manager.json");
    assert_eq!(ProjectManager::validate_project_structure(root, &all), Ok(()));
    assert!(ProjectManager::is_valid_project_directory(root, &all));
    assert_eq!(
        ProjectManager::validate_project_structure(root, &vec![]),
        Err("Not a valid project - missing project.epm file".to_string())
    );
    let mut missing_fonts = all.clone();
    missing_fonts.retain(|p| p != "/games/demo/assets/fonts");
    assert_eq!(
        ProjectManager::validate_project_structure(root, &missing_fonts),
        Err("Required folder 'assets/fonts' is missing".to_string())
    );
    let mut missing_scene = all.clone();
    missing_scene.pop();
    assert_eq!(
        ProjectManager::validate_project_structure(root, &missing_scene),
        Err("Scene manager file is missing".to_string())
    );
    assert_eq!(ProjectManager::check_openable(root, &missing_scene), Err("Project structure is invalid".to_string()));
    assert_eq!(
        ProjectManager::check_openable(root, &vec![]),
        Err("Not a valid project - missing project.epm file".to_string())
    );
}

#[test]
fn project_path_validity() {
    let root = "/games/demo";
    let files = strings(&["/games/demo/project.json"]);
    assert!(FileManagement::is_valid_project_path(root, &strings(&["/games/demo"]), &files));
    assert!(!FileManagement::is_valid_project_path(root, &vec![], &files));
    assert!(!FileManagement::is_valid_project_path(root, &strings(&["/games/demo"]), &full_project(root)));
}

#[test]
fn open_project_path_is_remembered() {
    let mut pm = ProjectManager::new();
    assert_eq!(pm.get_project_path(), None);
    pm.set_project_path("/games/demo".to_string());
    assert_eq!(pm.get_project_path(), Some("/games/demo".to_string()));
    let meta = ProjectManager::new_project_metadata("/games/demo").unwrap();
    assert_eq!(meta.project_name, "demo");
    assert_eq!(meta.version, "1.0.0");
    assert_eq!(meta.default_scene, "main.scene");
    assert_eq!(ProjectManager::new_project_metadata("/").unwrap_err(), "Invalid project path");
}

#[test]
fn asset_import_plans() {
    let root = "/games/demo";
    let plan = ProjectManager::plan_import(root, "/home/me/Hero.PNG", AssetType::Image, &vec![]).unwrap();
    assert_eq!(plan.target_path, "/games/demo/assets/images/Hero.PNG");
    assert_eq!(plan.relative_path, "assets/images/Hero.PNG");
    assert_eq!(
        ProjectManager::plan_import(root, "/home/me/song.flac", AssetType::Sound, &vec![]).err(),
        Some("Invalid file type for Sound. Expected one of: [\"wav\", \"mp3\", \"ogg\"]".to_string())
    );
    assert_eq!(
        ProjectManager::plan_import(root, "/home/me/README", AssetType::Script, &vec![]).err(),
        Some("File has no extension".to_string())
    );
    let present = strings(&["/games/demo/assets/scripts/ai.lua"]);
    assert_eq!(
        ProjectManager::plan_import(root, "/tmp/ai.lua", AssetType::Script, &present).err(),
        Some("Asset 'ai.lua' already exists in the project. Please rename the file or remove the existing one.".to_string())
    );
    assert_eq!(AssetType::Font.valid_extensions(), vec!["ttf", "otf"]);
}

#[test]
fn scene_files_store_portable_paths() {
    let mut m = SceneManager::new();
    let sid = m.create_scene("level").unwrap();
    let eid = m.get_scene_mut(sid).unwrap().create_entity("hero").unwrap();
    let e = m.get_scene_mut(sid).unwrap().get_entity_mut(eid).unwrap();
    e.add_image("/games/demo/assets/images/a.png".to_string()).unwrap();
    e.set_script("/games/demo/assets/scripts/hero.lua".to_string()).unwrap();
    let stored = portable_copy(&m, "/games/demo");
    let se = stored.get_scene(sid).unwrap().get_entity(eid).unwrap();
    assert_eq!(se.images, strings(&["assets/images/a.png"]));
    assert_eq!(se.script, Some("assets/scripts/hero.lua".to_string()));
    let mut loaded = stored;
    resolve_loaded_paths(&mut loaded, "/moved/demo");
    let le = loaded.get_scene(sid).unwrap().get_entity(eid).unwrap();
    assert_eq!(le.images, strings(&["/moved/demo/assets/images/a.png"]));
    assert_eq!(scene_file_path("/games/demo"), "/games/demo/scenes/scene_manager.json");
}

#[test]
fn uuid_text_round_trip() {
    let id = fresh_id();
    let u = uuid::Uuid::from_u128(id);
    assert_eq!(u.get_version_num(), 4);
    assert_eq!(id_text(id), u.to_string());
    assert_eq!(parse_uuid(&id_text(id), "scene"), Ok(id));
    let err = uuid::Uuid::parse_str("xyz").unwrap_err().to_string();
    assert_eq!(parse_uuid("xyz", "scene"), Err(format!("Invalid scene UUID 'xyz': {}", err)));
}

#[test]
fn content_ids_come_from_the_path_hash() {
    let a = path_to_uuid("assets/images/a.png");
    assert_eq!(a, path_to_uuid("assets/images/a.png"));
    assert_ne!(a, path_to_uuid("assets/images/b.png"));
    let digest = sha2::Sha256::digest("assets/images/a.png".as_bytes());
    let mut bytes = [0u8; 16];
    bytes.copy_from_slice(&digest[..16]);
    bytes[6] = (bytes[6] & 0x0f) | 0x40;
    bytes[8] = (bytes[8] & 0x3f) | 0x80;
    assert_eq!(a, u128::from_be_bytes(bytes));
}

#[test]
fn decimal_texts() {
    assert_eq!(decimal_text(0), "0");
    assert_eq!(decimal_text(1234567890123), "1234567890123");
}
