use rust_2d_game_engine::ecs::SceneManager;
use rust_2d_game_engine::file_system::{FileNode, FileSystem, TREE_REFRESH_INTERVAL_MS};
use rust_2d_game_engine::gui_state::{GuiState, ScenePanelSelectedItem, SelectedItem};
use rust_2d_game_engine::hierarchy::{format_file_size, EntityItem, ResourceItem, SceneItem};

fn reference_size_text(size: u64) -> String {
    const KB: u64 = 1024;
    const MB: u64 = KB * 1024;
    const GB: u64 = MB * 1024;
    if size >= GB {
        format!("{:.2} GB", size as f64 / GB as f64)
    } else if size >= MB {
        format!("{:.2} MB", size as f64 / MB as f64)
    } else if size >= KB {
        format!("{:.2} KB", size as f64 / KB as f64)
    } else {
        format!("{} B", size)
    }
}

#[test]
fn file_size_examples() {
    assert_eq!(format_file_size(0), "0 B");
    assert_eq!(format_file_size(1023), "1023 B");
    assert_eq!(format_file_size(1024), "1.00 KB");
    assert_eq!(format_file_size(1536), "1.50 KB");
    assert_eq!(format_file_size(1024 * 1024), "1.00 MB");
    assert_eq!(format_file_size(5 * 1024 * 1024 * 1024 / 4), "1.25 GB");
    assert_eq!(format_file_size(1024 * 1024 - 1), "1024.00 KB");
}

#[test]
fn file_size_matches_float_formatting() {
    let mut sizes: Vec<u64> = (0..5000u64).collect();
    for k in [10u32, 20, 30] {
        let unit = 1u64 << k;
        for m in [1u64, 2, 3, 7, 100, 1000, 1023] {
            for d in 0..600u64 {
                sizes.push(m * unit + d);
                sizes.push(m * unit + d * (unit / 512));
            }
        }
    }
    // ties of the two-place rounding: x.xx5 exactly
    for s in [1152u64, 1024 + 128 + 256, 3 * 1024 + 640, 1179648, 10 * 1024 * 1024 * 1024 + 5 * 1024 * 1024 * 1024 / 1000] {
        sizes.push(s);
    }
    // beyond 2^53 the conversion to f64 rounds
    for s in [u64::MAX, u64::MAX - 1, (1u64 << 53) + 1, (1u64 << 60) + 12345, (1u64 << 63) + (1u64 << 10) + 1] {
        sizes.push(s);
    }
    let mut x: u64 = 0x9e3779b97f4a7c15;
    for _ in 0..20000 {
        x ^= x << 13;
        x ^= x >> 7;
        x ^= x << 17;
        sizes.push(x >> (x % 50));
    }
    for s in sizes {
        assert_eq!(format_file_size(s), reference_size_text(s), "size {}", s);
    }
}

fn file(path: &str) -> FileNode {
    FileNode::file(path.to_string())
}

#[test]
fn directory_lists_folders_first_then_by_name() {
    let entries = vec![
        file("/p/zeta.txt"),
        FileNode::directory("/p/src".to_string(), vec![]),
        file("/p/Alpha.rs"),
        FileNode::directory("/p/assets".to_string(), vec![]),
        file("/p/beta.lua"),
    ];
    let dir = FileNode::directory("/p".to_string(), entries);
    assert!(dir.is_dir);
    assert_eq!(dir.name, "p");
    let names: Vec<&str> = dir.children.iter().map(|c| c.name.as_str()).collect();
    assert_eq!(names, vec!["assets", "src", "Alpha.rs", "beta.lua", "zeta.txt"]);
}

#[test]
fn file_node_name_is_last_component() {
    assert_eq!(file("/a/b/c.png").name, "c.png");
    assert_eq!(file("/a/b/").name, "b");
    assert_eq!(file("/").name, "");
    assert!(!file("/x").is_dir);
}

#[test]
fn build_output_is_left_out() {
    assert!(FileSystem::is_build_output("/proj/target", "/proj"));
    assert!(FileSystem::is_build_output("/proj//target/", "/proj/"));
    assert!(!FileSystem::is_build_output("/proj/assets", "/proj"));
    assert!(!FileSystem::is_build_output("/proj/src/target", "/proj"));
}

#[test]
fn tree_goes_stale() {
    let mut fs = FileSystem::new();
    assert!(fs.tree_is_stale("/proj", 0));
    fs.ensure_tree("/proj", 100, || Some(FileNode::directory("/proj".to_string(), vec![])));
    assert!(fs.cached_tree.is_some());
    assert_eq!(fs.last_scan, Some(100));
    assert!(!fs.tree_is_stale("/proj", 100 + TREE_REFRESH_INTERVAL_MS - 1));
    assert!(fs.tree_is_stale("/proj", 100 + TREE_REFRESH_INTERVAL_MS));
    assert!(fs.tree_is_stale("/other", 101));
    assert!(!fs.tree_is_stale("/proj/", 101));
    // a second call within the interval keeps the tree without reading
    let mut read = false;
    fs.ensure_tree("/proj", 200, || {
        read = true;
        None
    });
    assert!(!read);
    assert!(fs.cached_tree.is_some());
    fs.refresh();
    assert!(fs.cached_tree.is_none());
    assert!(fs.tree_is_stale("/proj", 200));
}

#[test]
fn search_toggle_clears_query() {
    let mut fs = FileSystem::new();
    fs.toggle_search();
    assert!(fs.show_search);
    fs.search_query = "MaIn".to_string();
    assert!(fs.file_visible("main.rs"));
    assert!(fs.file_visible("DOMAIN.txt"));
    assert!(!fs.file_visible("lib.rs"));
    fs.toggle_search();
    assert!(!fs.show_search);
    assert_eq!(fs.search_query, "");
    assert!(fs.file_visible("lib.rs"));
}

#[test]
fn selecting_a_code_file_queues_it_once() {
    let mut fs = FileSystem::new();
    let mut gui = GuiState::new();
    fs.select_file("/p/assets/scripts/player.lua", &mut gui);
    assert!(matches!(&gui.selected_item, SelectedItem::File(p) if p == "/p/assets/scripts/player.lua"));
    assert_eq!(fs.take_pending_open(), Some("/p/assets/scripts/player.lua".to_string()));
    assert_eq!(fs.take_pending_open(), None);
    // selecting it again does nothing
    fs.select_file("/p/assets/scripts/player.lua", &mut gui);
    assert_eq!(fs.take_pending_open(), None);
    fs.select_file("/p/assets/images/a.png", &mut gui);
    assert_eq!(fs.take_pending_open(), None);
    assert!(fs.is_selected("/p/assets/images/a.png"));
    fs.select_file("/p/src/main.rs", &mut gui);
    assert_eq!(fs.take_pending_open(), Some("/p/src/main.rs".to_string()));
}

#[test]
fn deleting_the_selected_file_clears_selections() {
    let mut fs = FileSystem::new();
    let mut gui = GuiState::new();
    fs.select_file("/p/a.png", &mut gui);
    fs.file_deleted("/p/b.png", &mut gui);
    assert!(fs.is_selected("/p/a.png"));
    assert!(matches!(gui.selected_item, SelectedItem::File(_)));
    fs.file_deleted("/p/a.png", &mut gui);
    assert!(!fs.is_selected("/p/a.png"));
    assert!(matches!(gui.selected_item, SelectedItem::Nothing));
    assert!(fs.cached_tree.is_none());
}

#[test]
fn entity_search_and_labels() {
    assert!(EntityItem::matches_search("Player", ""));
    assert!(EntityItem::matches_search("Player", "lay"));
    assert!(EntityItem::matches_search("Player", "PLAY"));
    assert!(!EntityItem::matches_search("Player", "enemy"));
    assert_eq!(EntityItem::display_name("sprites/hero"), "hero");
    assert_eq!(EntityItem::display_name("hero"), "hero");
    assert_eq!(EntityItem::display_name("a/b/"), "");
}

#[test]
fn scene_tree_is_sorted_by_lower_case_name() {
    let mut m = SceneManager::new();
    let b = m.create_scene("beta").unwrap();
    let a = m.create_scene("Alpha").unwrap();
    let scene = m.get_scene_mut(b).unwrap();
    let e1 = scene.create_entity("zed").unwrap();
    let e2 = scene.create_entity("Bob").unwrap();
    let e3 = scene.create_entity("alice").unwrap();
    let ent = scene.get_entity_mut(e3).unwrap();
    ent.add_image("/p/assets/images/alice.png".to_string()).unwrap();
    ent.set_script("/p/assets/scripts/alice.lua".to_string()).unwrap();
    let tree = SceneItem::display_model(&m);
    let scene_names: Vec<&str> = tree.iter().map(|s| s.name.as_str()).collect();
    assert_eq!(scene_names, vec!["Alpha", "beta"]);
    assert_eq!(tree[0].id, a);
    let first_names: Vec<&str> = tree[0].entities.iter().map(|e| e.name.as_str()).collect();
    assert_eq!(first_names, vec!["main_camera"]);
    let ids: Vec<u128> = tree[1].entities.iter().filter(|e| e.name != "main_camera").map(|e| e.id).collect();
    assert_eq!(ids, vec![e3, e2, e1]);
    let names: Vec<&str> = tree[1].entities.iter().map(|e| e.name.as_str()).collect();
    assert_eq!(names, vec!["alice", "Bob", "main_camera", "zed"]);
    let alice = &tree[1].entities[0];
    assert_eq!(alice.image_names, vec!["alice.png".to_string()]);
    assert_eq!(alice.script_name, Some("alice.lua".to_string()));
    assert_eq!(alice.script_path, Some("/p/assets/scripts/alice.lua".to_string()));
    assert!(EntityItem::has_assets(alice));
    assert!(!EntityItem::has_assets(&tree[1].entities[1]));
    assert!(!EntityItem::has_assets(&tree[1].entities[2]));
}

#[test]
fn clicks_select_items() {
    let mut gui = GuiState::new();
    SceneItem::select(&mut gui, 5);
    assert!(SceneItem::is_selected(&gui, 5));
    assert!(!SceneItem::is_selected(&gui, 6));
    EntityItem::select(&mut gui, 5, 9);
    assert!(EntityItem::is_selected(&gui, 5, 9));
    assert!(matches!(gui.selected_item, SelectedItem::Entity(5, 9)));
    ResourceItem::select(&mut gui, 5, 9, "/p/a.png");
    assert!(ResourceItem::is_selected(&gui, 5, 9, "/p//a.png"));
    assert!(!ResourceItem::is_selected(&gui, 5, 8, "/p/a.png"));
    assert!(matches!(&gui.scene_panel_selected_item, ScenePanelSelectedItem::Asset(5, 9, p) if p == "/p/a.png"));
}
