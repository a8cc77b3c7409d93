use rust_2d_game_engine::ecs::attribute::AttributeValue;
use rust_2d_game_engine::ecs::SceneManager;
use rust_2d_game_engine::gui_state::{ExitActions, ExitRequest};
use rust_2d_game_engine::history::{UndoStack, UNDO_LIMIT};
use rust_2d_game_engine::input::{parse_mouse_button, InputContext, InputFrame, InputHandler, Modifiers, PointerButton};
use rust_2d_game_engine::logger::{is_shown, visible_messages, ConsoleMessageType, Logger, MAX_CONSOLE_MESSAGES};
use rust_2d_game_engine::runtime::{filter_finite_updates, RuntimeControl, RuntimeState};

fn manager_with(names: &[&str]) -> SceneManager {
    let mut m = SceneManager::new();
    for n in names {
        m.create_scene(n).unwrap();
    }
    m
}

fn scene_names(m: &SceneManager) -> Vec<String> {
    m.list_scene().iter().map(|(_, n)| n.to_string()).collect()
}

#[test]
fn commit_then_undo_gives_previous_state() {
    let mut u = UndoStack::new();
    let a = manager_with(&["a"]);
    let ab = manager_with(&["a", "b"]);
    u.reset(&a);
    assert!(!u.can_undo());
    u.commit(&ab);
    assert!(u.can_undo());
    let back = u.undo().unwrap();
    assert_eq!(scene_names(&back), vec!["a"]);
    assert!(u.can_redo());
    let again = u.redo().unwrap();
    assert_eq!(scene_names(&again), vec!["a", "b"]);
    assert!(u.redo().is_none());
}

#[test]
fn commit_clears_redo() {
    let mut u = UndoStack::new();
    u.reset(&manager_with(&["a"]));
    u.commit(&manager_with(&["b"]));
    u.undo().unwrap();
    assert!(u.can_redo());
    u.commit(&manager_with(&["c"]));
    assert!(!u.can_redo());
    assert_eq!(scene_names(&u.undo().unwrap()), vec!["a"]);
}

#[test]
fn history_is_bounded() {
    let mut u = UndoStack::new();
    u.reset(&manager_with(&["s0"]));
    for i in 1..=(UNDO_LIMIT + 10) {
        u.commit(&manager_with(&[&format!("s{}", i)]));
    }
    let mut undone = 0;
    let mut last = None;
    while let Some(m) = u.undo() {
        undone += 1;
        last = Some(scene_names(&m));
    }
    assert_eq!(undone, UNDO_LIMIT - 1);
    assert_eq!(last, Some(vec![format!("s{}", 11)]));
}

#[test]
fn play_then_reset_restores_editor_state() {
    let mut rc = RuntimeControl::new();
    let mut m = manager_with(&["level"]);
    RuntimeControl::prepare_run(&mut m).unwrap();
    assert!(m.get_active_scene().is_some());
    let fx = rc.set_state(RuntimeState::Playing, &m);
    assert_eq!(fx.input_context, Some(InputContext::Game));
    assert!(rc.simulates());
    m.create_scene("spawned during play").unwrap();
    rc.set_state(RuntimeState::Paused, &m);
    assert!(rc.only_paints());
    rc.set_state(RuntimeState::Playing, &m);
    let fx = rc.reset(&mut m);
    assert!(fx.cleanup_physics && fx.cleanup_render && fx.cleanup_audio);
    assert_eq!(scene_names(&m), vec!["level"]);
    assert_eq!(rc.get_state(), RuntimeState::Stopped);
    assert!(!rc.simulates());
}

#[test]
fn a_project_without_scenes_cannot_run() {
    let mut m = SceneManager::new();
    assert_eq!(
        RuntimeControl::prepare_run(&mut m),
        Err("Cannot run: No scenes in project. Create a scene first.".to_string())
    );
}

#[test]
fn nan_physics_results_are_dropped() {
    let nan = f32::NAN.to_bits();
    let one = 1.0f32.to_bits();
    let updates = vec![
        (1, 1, AttributeValue::Float(nan)),
        (1, 2, AttributeValue::Float(one)),
        (1, 3, AttributeValue::Vector2(one, nan)),
        (1, 4, AttributeValue::Boolean(true)),
        (1, 5, AttributeValue::Vector2(one, one)),
    ];
    let kept: Vec<u128> = filter_finite_updates(updates).iter().map(|u| u.1).collect();
    assert_eq!(kept, vec![2, 4, 5]);
}

fn frame(keys: &[&str], primary: bool) -> InputFrame {
    InputFrame {
        keys_down: keys.iter().map(|k| k.to_string()).collect(),
        hover_pos: Some((10.0f32.to_bits(), 20.0f32.to_bits())),
        primary_down: primary,
        secondary_down: false,
        middle_down: false,
        raw_scroll_delta: (0, 0),
        modifiers: Modifiers { alt: false, ctrl: true, shift: false, command: false },
    }
}

#[test]
fn keys_are_just_pressed_once() {
    let mut h = InputHandler::new();
    assert_eq!(h.get_context(), InputContext::EngineUI);
    h.handle_input(&frame(&["Space"], true));
    assert!(h.is_key_pressed("Space"));
    assert!(h.is_key_just_pressed("Space"));
    assert!(h.is_mouse_button_pressed(PointerButton::Primary));
    h.handle_input(&frame(&["Space"], false));
    assert!(h.is_key_pressed("Space"));
    assert!(!h.is_key_just_pressed("Space"));
    assert!(!h.is_mouse_button_pressed(PointerButton::Primary));
    h.handle_input(&frame(&[], false));
    assert!(!h.is_key_pressed("Space"));
    assert_eq!(h.get_scroll_delta(), None);
    assert_eq!(h.get_mouse_pos(), (10.0f32.to_bits(), 20.0f32.to_bits()));
}

#[test]
fn mouse_button_names() {
    assert_eq!(parse_mouse_button("LEFT"), Ok(PointerButton::Primary));
    assert_eq!(parse_mouse_button("right"), Ok(PointerButton::Secondary));
    assert_eq!(parse_mouse_button("Middle"), Ok(PointerButton::Middle));
    assert_eq!(
        parse_mouse_button("Back"),
        Err("Invalid mouse button 'back' (expected \"left\", \"right\" or \"middle\")".to_string())
    );
}

#[test]
fn console_keeps_the_newest_messages() {
    let mut l = Logger::new();
    for i in 0..(MAX_CONSOLE_MESSAGES + 5) {
        l.info(format!("m{}", i));
    }
    l.error("boom".to_string());
    let console = l.get_console_messages();
    assert_eq!(console.len(), MAX_CONSOLE_MESSAGES);
    assert_eq!(console[0].text, "m6");
    assert_eq!(console[console.len() - 1].text, "boom");
    assert_eq!(console[console.len() - 1].message_type, ConsoleMessageType::Error);
    assert_eq!(l.get_stored_messages().len(), MAX_CONSOLE_MESSAGES + 6);
}

#[test]
fn exit_flow() {
    let (r, cancel) = ExitRequest::Nothing.on_close_requested(false, true);
    assert_eq!((r, cancel), (ExitRequest::PromptOpen, true));
    assert_eq!(ExitRequest::Nothing.on_close_requested(false, false), (ExitRequest::Nothing, false));
    assert_eq!(ExitRequest::PromptOpen.prompt(false), (ExitRequest::ExitWithoutSaving, false));
    assert_eq!(ExitRequest::PromptOpen.prompt(true), (ExitRequest::PromptOpen, true));
    assert_eq!(ExitRequest::SaveAndExit.actions(), ExitActions { save: true, close: true });
    assert_eq!(ExitRequest::ExitWithoutSaving.actions(), ExitActions { save: false, close: true });
    assert_eq!(ExitRequest::PromptOpen.actions(), ExitActions { save: false, close: false });
}

#[test]
fn build_output_is_logged_without_colours() {
    let mut l = Logger::new();
    l.log_build_output("\x1b[1m\x1b[32m   Compiling\x1b[0m demo v0.1.0");
    let console = l.get_console_messages();
    assert_eq!(console.len(), 1);
    assert_eq!(console[0].text, "   Compiling demo v0.1.0");
    assert_eq!(console[0].message_type, ConsoleMessageType::Debug);
}

#[test]
fn console_level_filter() {
    let mut l = Logger::new();
    l.info("i".to_string());
    l.debug("d".to_string());
    l.warning("w".to_string());
    l.error("e".to_string());
    let all = l.get_console_messages();
    let texts = |level: ConsoleMessageType| -> Vec<String> {
        visible_messages(&all, level).into_iter().map(|m| m.text).collect()
    };
    assert_eq!(texts(ConsoleMessageType::Info), vec!["i", "w", "e"]);
    assert_eq!(texts(ConsoleMessageType::Warning), vec!["w", "e"]);
    assert_eq!(texts(ConsoleMessageType::Error), vec!["e"]);
    assert_eq!(texts(ConsoleMessageType::Debug), vec!["d"]);
    assert!(!is_shown(ConsoleMessageType::Debug, ConsoleMessageType::Info));
    assert!(is_shown(ConsoleMessageType::Error, ConsoleMessageType::Warning));
}

#[test]
fn pause_and_resume_keep_the_first_snapshot() {
    let mut rc = RuntimeControl::new();
    let mut m = manager_with(&["a"]);
    rc.set_state(RuntimeState::Playing, &m);
    m.create_scene("b").unwrap();
    rc.set_state(RuntimeState::Paused, &m);
    m.create_scene("c").unwrap();
    rc.set_state(RuntimeState::Playing, &m);
    rc.stop(&mut m);
    assert_eq!(scene_names(&m), vec!["a"]);
}

#[test]
fn input_context_follows_the_run_state() {
    let m = manager_with(&["a"]);
    let mut rc = RuntimeControl::new();
    assert_eq!(rc.set_state(RuntimeState::Playing, &m).input_context, Some(InputContext::Game));
    assert_eq!(rc.set_state(RuntimeState::Paused, &m).input_context, None);
    assert_eq!(rc.set_state(RuntimeState::Ended, &m).input_context, Some(InputContext::EngineUI));
    assert_eq!(rc.get_state(), RuntimeState::Ended);
    assert!(!rc.is_playing());
    assert_eq!(rc.set_state(RuntimeState::Stopped, &m).input_context, Some(InputContext::EngineUI));
}

#[test]
fn creating_then_deleting_an_entity_gives_the_scene_back() {
    let mut m = manager_with(&["a"]);
    let sid = m.list_scene()[0].0;
    let scene = m.get_scene_mut(sid).unwrap();
    let before: Vec<(u128, String)> = scene.list_entity().iter().map(|(i, n)| (*i, n.to_string())).collect();
    let id = scene.create_entity("temp").unwrap();
    assert_eq!(scene.delete_entity(id), Ok(true));
    let after: Vec<(u128, String)> = scene.list_entity().iter().map(|(i, n)| (*i, n.to_string())).collect();
    assert_eq!(before, after);
    assert_eq!(scene.delete_entity(id), Ok(false));
}

#[test]
fn reset_restores_the_first_play_after_any_changes() {
    let mut rc = RuntimeControl::new();
    let mut m = manager_with(&["a"]);
    rc.set_state(RuntimeState::Paused, &m);
    m.create_scene("before play").unwrap();
    rc.set_state(RuntimeState::Playing, &m);
    m.create_scene("b").unwrap();
    rc.set_state(RuntimeState::Ended, &m);
    m.create_scene("c").unwrap();
    rc.set_state(RuntimeState::Playing, &m);
    rc.set_state(RuntimeState::Paused, &m);
    rc.reset(&mut m);
    assert_eq!(scene_names(&m), vec!["a", "before play"]);
    m.create_scene("d").unwrap();
    rc.reset(&mut m);
    assert_eq!(scene_names(&m), vec!["a", "before play", "d"]);
}
