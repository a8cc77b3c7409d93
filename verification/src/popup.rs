//! The scene panel's dialogs: creating scenes and entities, renaming them,
//! and which resource dialogs are open. Each action checks its input,
//! changes the scenes, moves the selection to what it made and records the
//! change in the history; the caller saves the project when an action says
//! it changed something. Drawing the dialogs is the window's.
use vstd::prelude::*;
use crate::ecs::attribute::{PhysicsProperties, F32_HALF, F32_ONE, F32_ZERO};
use crate::ecs::entity::EntityView;
use crate::ecs::scene::{is_new_camera, is_new_entity, is_new_physical, SceneView};
use crate::ecs::scene_manager::{is_new_scene, SceneManagerView};
use crate::gui_state::{opt_manager, GuiState, ScenePanelSelectedItem, SelectedItem};
use crate::history::law_commit_then_undo;
use crate::script_api::with_scene;
use crate::table::{key_index, lookup, table_insert};
use crate::text::{owned, text_eq, trim_text, trimmed};

verus! {

/// The dialogs' state.
pub struct PopupManager {
    pub create_item_name: String,
    pub error_message: String,
    pub rename_input: String,
    /// The scene being renamed.
    pub scene_rename_scene: Option<u128>,
    /// The entity being renamed: (scene id, entity id).
    pub entity_rename_entity: Option<(u128, u128)>,
    pub create_popup_active: bool,
    /// What the create dialog makes: "Scene", "Entity", "Camera" or "Physics".
    pub create_item_type: String,
    pub manage_resource_popup_active: bool,
    /// The entity whose resources are managed: (scene id, entity id).
    pub manage_resources_entity: Option<(u128, u128)>,
    pub manage_scene_resources_active: bool,
    /// The scene whose resources are managed.
    pub manage_resources_scene: Option<u128>,
}

pub struct PopupManagerView {
    pub create_item_name: Seq<char>,
    pub error_message: Seq<char>,
    pub rename_input: Seq<char>,
    pub scene_rename_scene: Option<u128>,
    pub entity_rename_entity: Option<(u128, u128)>,
    pub create_popup_active: bool,
    pub create_item_type: Seq<char>,
    pub manage_resource_popup_active: bool,
    pub manage_resources_entity: Option<(u128, u128)>,
    pub manage_scene_resources_active: bool,
    pub manage_resources_scene: Option<u128>,
}

impl View for PopupManager {
    type V = PopupManagerView;

    open spec fn view(&self) -> PopupManagerView {
        PopupManagerView {
            create_item_name: self.create_item_name@,
            error_message: self.error_message@,
            rename_input: self.rename_input@,
            scene_rename_scene: self.scene_rename_scene,
            entity_rename_entity: self.entity_rename_entity,
            create_popup_active: self.create_popup_active,
            create_item_type: self.create_item_type@,
            manage_resource_popup_active: self.manage_resource_popup_active,
            manage_resources_entity: self.manage_resources_entity,
            manage_scene_resources_active: self.manage_scene_resources_active,
            manage_resources_scene: self.manage_resources_scene,
        }
    }
}

impl PopupManagerView {
    pub open spec fn with_error(self, e: Seq<char>) -> PopupManagerView {
        PopupManagerView { error_message: e, ..self }
    }

    /// Renaming closed: nothing being renamed, input and error cleared.
    pub open spec fn reset_rename(self) -> PopupManagerView {
        PopupManagerView {
            scene_rename_scene: None,
            entity_rename_entity: None,
            rename_input: Seq::empty(),
            error_message: Seq::empty(),
            ..self
        }
    }

    /// The create dialog closed, its name and error cleared.
    pub open spec fn reset_create(self) -> PopupManagerView {
        PopupManagerView {
            create_popup_active: false,
            create_item_name: Seq::empty(),
            error_message: Seq::empty(),
            ..self
        }
    }
}

/// The editor state besides the scenes, the history and the selections.
pub open spec fn same_settings(a: GuiState, b: GuiState) -> bool {
    &&& a.dark_mode == b.dark_mode
    &&& a.show_new_project_popup == b.show_new_project_popup
    &&& a.show_open_project_popup == b.show_open_project_popup
    &&& a.load_project == b.load_project
    &&& a.project_name == b.project_name
    &&& a.project_path == b.project_path
    &&& a.project_metadata == b.project_metadata
    &&& a.show_hierarchy_filesystem == b.show_hierarchy_filesystem
    &&& a.show_inspector == b.show_inspector
    &&& a.show_console == b.show_console
    &&& a.show_debug_overlay == b.show_debug_overlay
    &&& a.show_build_project_popup == b.show_build_project_popup
    &&& a.exit_request == b.exit_request
    &&& a.open_script_request == b.open_script_request
    &&& a.script_insert_request == b.script_insert_request
}

/// `after` holds the scenes `m`, recorded in the history after those of
/// `before`, with the rest of the editor state as in `before` but for the
/// selections.
pub open spec fn committed(before: GuiState, after: GuiState, m: SceneManagerView) -> bool {
    &&& opt_manager(after.scene_manager) == Some(m)
    &&& after.undo_stack@ == before.undo_stack@.commit(m)
    &&& same_settings(before, after)
}

/// The physics settings a "Physics" entity is made with.
pub open spec fn default_physics() -> PhysicsProperties {
    PhysicsProperties {
        is_movable: false,
        affected_by_gravity: false,
        creates_gravity: false,
        has_collision: true,
        friction: F32_HALF,
        restitution: F32_ZERO,
        density: F32_ONE,
        can_rotate: false,
    }
}

/// What "Create" in the scene dialog does (`create_new_scene`): with
/// scenes loaded and a name that is not blank, the scenes gain a new scene
/// under that name (trimmed), which both selections then show, the change
/// is recorded and the dialog closes; otherwise nothing changes but the
/// error shown.
pub open spec fn scene_creation(g0: GuiState, g1: GuiState, p0: PopupManagerView, p1: PopupManagerView, r: bool) -> bool {
    let name = trimmed(p0.create_item_name);
    match g0.scene_manager {
        None => !r && g1 == g0 && p1 == p0.with_error("Scene manager is not available."@),
        Some(m) => if name.len() == 0 {
            !r && g1 == g0 && p1 == p0.with_error("Scene name cannot be empty."@)
        } else {
            &&& r
            &&& p1 == p0.reset_create()
            &&& exists|id: u128, s: SceneView| {
                &&& is_new_scene(s, name)
                &&& g1.selected_item == SelectedItem::Scene(id)
                &&& g1.scene_panel_selected_item == ScenePanelSelectedItem::Scene(id)
                &&& committed(g0, g1, m@.with_scenes(#[trigger] table_insert(m@.scenes, id, s)))
            }
        },
    }
}

/// `e` is what the entity preset `kind` makes under this id and name: a
/// plain entity ("Empty"), a camera ("Camera"), or a physical entity at the
/// origin with `default_physics` ("Physics").
pub open spec fn preset_made(kind: Seq<char>, e: EntityView, id: u128, name: Seq<char>) -> bool {
    if kind == "Camera"@ {
        is_new_camera(e, id, name)
    } else if kind == "Physics"@ {
        is_new_physical(e, id, name, (F32_ZERO, F32_ZERO, F32_ZERO), default_physics())
    } else {
        is_new_entity(e, id, name)
    }
}

/// Placing a new physical entity named `name` at the origin can fail with
/// `m` (when its position attributes are not all there).
pub open spec fn placement_failure(name: Seq<char>, m: Seq<char>) -> bool {
    exists|id: u128, ids: Seq<u128>|
        ids.len() == 3 && #[trigger] EntityView::created(id, name, ids).position_outcome(F32_ZERO, F32_ZERO, F32_ZERO).1
            == Some(m)
}

/// What "Create" of an entity preset does (`create_new_entity`): it needs
/// scenes, a name that is not blank, a scene selected in the panel and that
/// scene present, in that order, and a known preset ("Empty", "Camera" or
/// "Physics"). Then the scene gains the entity, both selections show it,
/// the change is recorded and the dialog closes. A failing check changes
/// nothing but the error shown; an unknown preset changes nothing; a
/// physical entity that cannot be placed leaves the scenes as they were
/// and shows why.
pub open spec fn entity_creation(
    g0: GuiState,
    g1: GuiState,
    p0: PopupManagerView,
    p1: PopupManagerView,
    kind: Seq<char>,
    r: bool,
) -> bool {
    let name = trimmed(p0.create_item_name);
    match g0.scene_manager {
        None => !r && g1 == g0 && p1 == p0.with_error("Scene manager is not available."@),
        Some(m) => if name.len() == 0 {
            !r && g1 == g0 && p1 == p0.with_error("Entity name cannot be empty."@)
        } else {
            match g0.scene_panel_selected_item {
                ScenePanelSelectedItem::Scene(sid) => match lookup(m@.scenes, sid) {
                    None => !r && g1 == g0 && p1 == p0.with_error("The selected scene could not be found."@),
                    Some(s) => if kind != "Empty"@ && kind != "Camera"@ && kind != "Physics"@ {
                        !r && g1 == g0 && p1 == p0
                    } else if r {
                        &&& p1 == p0.reset_create()
                        &&& exists|id: u128, e: EntityView| {
                            &&& preset_made(kind, e, id, name)
                            &&& g1.selected_item == SelectedItem::Entity(sid, id)
                            &&& g1.scene_panel_selected_item == ScenePanelSelectedItem::Entity(sid, id)
                            &&& committed(g0, g1, with_scene(m@, sid, s.with_entities(#[trigger] table_insert(s.entities, id, e))))
                        }
                    } else {
                        &&& kind == "Physics"@
                        &&& opt_manager(g1.scene_manager) == opt_manager(g0.scene_manager)
                        &&& g1 == (GuiState { scene_manager: g1.scene_manager, ..g0 })
                        &&& exists|msg: Seq<char>| #[trigger] placement_failure(name, msg) && p1 == p0.with_error(msg)
                    },
                },
                _ => !r && g1 == g0 && p1 == p0.with_error("Please select a scene first to add the entity."@),
            }
        },
    }
}

/// The scenes after renaming to `name`: entity `eid` of scene `sid` when
/// an entity is named, else the scene itself; unchanged when it is not
/// there.
pub open spec fn renamed(m: SceneManagerView, sid: u128, eid: Option<u128>, name: Seq<char>) -> SceneManagerView {
    match lookup(m.scenes, sid) {
        None => m,
        Some(s) => match eid {
            Some(e) => match lookup(s.entities, e) {
                None => m,
                Some(ev) => with_scene(
                    m,
                    sid,
                    s.with_entities(s.entities.update(key_index(s.entities, e), (e, ev.with_name(name)))),
                ),
            },
            None => with_scene(m, sid, s.with_name(name)),
        },
    }
}

/// What the dialogs record can be undone: when the history's newest state
/// is the scenes before an action (as it is after every recorded change),
/// undo after the action gives those scenes back, and redo then gives the
/// action's result again.
pub proof fn law_dialog_action_undoable(g0: GuiState, g1: GuiState, m1: SceneManagerView)
    requires
        committed(g0, g1, m1),
        g0.scene_manager is Some,
        g0.undo_stack@.states.len() >= 1,
        g0.undo_stack@.bounded(),
        g0.undo_stack@.states.last() == g0.scene_manager->0@,
    ensures
        g1.undo_stack@.undo().1 == Some(g0.scene_manager->0@),
        g1.undo_stack@.undo().0.redo().1 == Some(m1),
{
    law_commit_then_undo(g0.undo_stack@, m1);
}

/// The errors the create actions show are not empty, so a failed creation
/// keeps its dialog open.
pub proof fn lemma_failure_messages_nonempty()
    ensures
        "Scene manager is not available."@.len() > 0,
        "Scene name cannot be empty."@.len() > 0,
        "Entity name cannot be empty."@.len() > 0,
        "The selected scene could not be found."@.len() > 0,
        "Please select a scene first to add the entity."@.len() > 0,
        forall|name: Seq<char>, m: Seq<char>| #[trigger] placement_failure(name, m) ==> m.len() > 0,
{
    reveal_strlit("Scene manager is not available.");
    reveal_strlit("Scene name cannot be empty.");
    reveal_strlit("Entity name cannot be empty.");
    reveal_strlit("The selected scene could not be found.");
    reveal_strlit("Please select a scene first to add the entity.");
    reveal_strlit("X attribute not found");
    reveal_strlit("Y attribute not found");
    reveal_strlit("Z attribute not found");
    assert forall|name: Seq<char>, m: Seq<char>| #[trigger] placement_failure(name, m) implies m.len() > 0 by {
        let (id, ids) = choose|id: u128, ids: Seq<u128>|
            ids.len() == 3 && #[trigger] EntityView::created(id, name, ids).position_outcome(F32_ZERO, F32_ZERO, F32_ZERO).1
                == Some(m);
        assert(EntityView::created(id, name, ids).position_outcome(F32_ZERO, F32_ZERO, F32_ZERO).1 == Some(m));
    }
}

impl PopupManager {
    /// Every dialog closed, nothing typed, "Scene" chosen to create.
    pub fn new() -> (r: Self)
        ensures
            r@ == (PopupManagerView {
                create_item_name: Seq::empty(),
                error_message: Seq::empty(),
                rename_input: Seq::empty(),
                scene_rename_scene: None,
                entity_rename_entity: None,
                create_popup_active: false,
                create_item_type: "Scene"@,
                manage_resource_popup_active: false,
                manage_resources_entity: None,
                manage_scene_resources_active: false,
                manage_resources_scene: None,
            }),
    {
        PopupManager {
            create_item_name: String::new(),
            error_message: String::new(),
            rename_input: String::new(),
            scene_rename_scene: None,
            entity_rename_entity: None,
            create_popup_active: false,
            create_item_type: owned("Scene"),
            manage_resource_popup_active: false,
            manage_resources_entity: None,
            manage_scene_resources_active: false,
            manage_resources_scene: None,
        }
    }

    /// Opens renaming of a scene, starting from its current name.
    pub fn start_rename_scene(&mut self, scene_id: u128, current_name: String)
        ensures
            final(self)@ == (PopupManagerView { scene_rename_scene: Some(scene_id), rename_input: current_name@, ..old(self)@ }),
    {
        self.scene_rename_scene = Some(scene_id);
        self.rename_input = current_name;
    }

    /// Closes renaming of a scene.
    pub fn reset_rename_scene(&mut self)
        ensures
            final(self)@ == (PopupManagerView {
                scene_rename_scene: None,
                rename_input: Seq::empty(),
                error_message: Seq::empty(),
                ..old(self)@
            }),
    {
        self.scene_rename_scene = None;
        self.rename_input = String::new();
        self.error_message = String::new();
    }

    /// Opens renaming of an entity, starting from its current name.
    pub fn start_rename_entity(&mut self, scene_id: u128, entity_id: u128, current_name: String)
        ensures
            final(self)@ == (PopupManagerView {
                entity_rename_entity: Some((scene_id, entity_id)),
                rename_input: current_name@,
                ..old(self)@
            }),
    {
        self.entity_rename_entity = Some((scene_id, entity_id));
        self.rename_input = current_name;
    }

    /// Closes renaming, of a scene or an entity.
    pub fn reset_rename(&mut self)
        ensures
            final(self)@ == old(self)@.reset_rename(),
    {
        self.scene_rename_scene = None;
        self.entity_rename_entity = None;
        self.rename_input = String::new();
        self.error_message = String::new();
    }

    /// Opens the scene's resource dialog.
    pub fn start_manage_scene_resources(&mut self, scene_id: u128)
        ensures
            final(self)@ == (PopupManagerView {
                manage_scene_resources_active: true,
                manage_resources_scene: Some(scene_id),
                error_message: Seq::empty(),
                ..old(self)@
            }),
    {
        self.manage_scene_resources_active = true;
        self.manage_resources_scene = Some(scene_id);
        self.error_message = String::new();
    }

    /// Closes the scene's resource dialog.
    pub fn reset_manage_scene_resources(&mut self)
        ensures
            final(self)@ == (PopupManagerView {
                manage_scene_resources_active: false,
                manage_resources_scene: None,
                error_message: Seq::empty(),
                ..old(self)@
            }),
    {
        self.manage_scene_resources_active = false;
        self.manage_resources_scene = None;
        self.error_message = String::new();
    }

    /// Closes an entity's resource dialog.
    pub fn reset_manage_resources_popup(&mut self)
        ensures
            final(self)@ == (PopupManagerView {
                manage_resource_popup_active: false,
                error_message: Seq::empty(),
                ..old(self)@
            }),
    {
        self.manage_resource_popup_active = false;
        self.error_message = String::new();
    }

    /// Closes the create dialog, clearing its name and error.
    pub fn reset_create_popup(&mut self)
        ensures
            final(self)@ == old(self)@.reset_create(),
    {
        self.create_popup_active = false;
        self.create_item_name = String::new();
        self.error_message = String::new();
    }

    /// "Create" for a scene (see `scene_creation`). Returns whether the
    /// scenes changed, in which case the caller saves the project.
    pub fn create_new_scene(&mut self, gui_state: &mut GuiState) -> (r: bool)
        ensures
            scene_creation(*old(gui_state), *final(gui_state), old(self)@, final(self)@, r),
    {
        if gui_state.scene_manager.is_none() {
            self.error_message = owned("Scene manager is not available.");
            return false;
        }
        let name = trim_text(self.create_item_name.as_str());
        if name.unicode_len() == 0 {
            self.error_message = owned("Scene name cannot be empty.");
            return false;
        }
        let ghost g0 = *gui_state;
        let ghost m0 = g0.scene_manager->0@;
        let id = match &mut gui_state.scene_manager {
            Some(sm) => match sm.create_scene(name.as_str()) {
                Ok(id) => id,
                Err(_) => return false,
            },
            None => return false,
        };
        let ghost sv = lookup(gui_state.scene_manager->0@.scenes, id)->0;
        gui_state.scene_panel_selected_item = ScenePanelSelectedItem::Scene(id);
        gui_state.selected_item = SelectedItem::Scene(id);
        gui_state.commit();
        self.reset_create_popup();
        proof {
            assert(committed(g0, *gui_state, m0.with_scenes(table_insert(m0.scenes, id, sv))));
        }
        true
    }

    /// "Create" for an entity preset `predefined_type` (see
    /// `entity_creation`). Returns whether the scenes changed, in which case
    /// the caller saves the project.
    #[verifier::rlimit(40)]
    #[verifier::spinoff_prover]
    pub fn create_new_entity(&mut self, gui_state: &mut GuiState, predefined_type: &str) -> (r: bool)
        ensures
            entity_creation(*old(gui_state), *final(gui_state), old(self)@, final(self)@, predefined_type@, r),
    {
        if gui_state.scene_manager.is_none() {
            self.error_message = owned("Scene manager is not available.");
            return false;
        }
        let name = trim_text(self.create_item_name.as_str());
        if name.unicode_len() == 0 {
            self.error_message = owned("Entity name cannot be empty.");
            return false;
        }
        let sid = match &gui_state.scene_panel_selected_item {
            ScenePanelSelectedItem::Scene(id) => *id,
            _ => {
                self.error_message = owned("Please select a scene first to add the entity.");
                return false;
            },
        };
        let ghost g0 = *gui_state;
        let ghost m0 = g0.scene_manager->0@;
        let ghost s0 = lookup(m0.scenes, sid)->0;
        let present = match &gui_state.scene_manager {
            Some(sm) => sm.get_scene(sid).is_some(),
            None => false,
        };
        if !present {
            self.error_message = owned("The selected scene could not be found.");
            return false;
        }
        let is_empty = text_eq(predefined_type, "Empty");
        let is_camera = text_eq(predefined_type, "Camera");
        let is_physics = text_eq(predefined_type, "Physics");
        if !is_empty && !is_camera && !is_physics {
            return false;
        }
        let ghost mut ev: EntityView;
        let created = match &mut gui_state.scene_manager {
            Some(sm) => match sm.get_scene_mut(sid) {
                Some(scene) => {
                    let c = if is_empty {
                        scene.create_entity(name.as_str())
                    } else if is_camera {
                        scene.create_camera(name.as_str())
                    } else {
                        scene.create_physical_entity(
                            name.as_str(),
                            (F32_ZERO, F32_ZERO, F32_ZERO),
                            PhysicsProperties::default(),
                        )
                    };
                    proof {
                        reveal_strlit("Empty");
                        reveal_strlit("Camera");
                        reveal_strlit("Physics");
                        if c is Ok {
                            ev = lookup(scene@.entities, c->Ok_0)->0;
                            assert("Empty"@.len() == 5 && "Camera"@.len() == 6 && "Physics"@.len() == 7);
                            assert(preset_made(predefined_type@, ev, c->Ok_0, name@));
                            assert(scene@ == s0.with_entities(table_insert(s0.entities, c->Ok_0, ev)));
                        }
                    }
                    c
                },
                None => return false,
            },
            None => return false,
        };
        match created {
            Ok(id) => {
                gui_state.scene_panel_selected_item = ScenePanelSelectedItem::Entity(sid, id);
                gui_state.selected_item = SelectedItem::Entity(sid, id);
                gui_state.commit();
                self.reset_create_popup();
                proof {
                    assert(committed(g0, *gui_state, with_scene(m0, sid, s0.with_entities(table_insert(s0.entities, id, ev)))));
                }
                true
            },
            Err(m) => {
                proof {
                    let t = m0.scenes;
                    assert(t.update(key_index(t, sid), (sid, s0)) =~= t);
                    assert(placement_failure(name@, m@));
                }
                self.error_message = m;
                false
            },
        }
    }

    /// "Rename": gives entity `entity_id` of scene `scene_id` (the scene
    /// itself when no entity is named) the typed name, trimmed; a scene or
    /// entity that is not there is left alone. With scenes loaded the
    /// result is recorded in the history and `true` is returned (the caller
    /// saves the project). Renaming closes either way.
    pub fn rename_item(&mut self, scene_id: u128, entity_id: Option<u128>, gui_state: &mut GuiState) -> (r: bool)
        ensures
            final(self)@ == old(self)@.reset_rename(),
            match old(gui_state).scene_manager {
                None => !r && *final(gui_state) == *old(gui_state),
                Some(m) => {
                    &&& r
                    &&& committed(*old(gui_state), *final(gui_state), renamed(m@, scene_id, entity_id, trimmed(old(self)@.rename_input)))
                    &&& final(gui_state).selected_item == old(gui_state).selected_item
                    &&& final(gui_state).scene_panel_selected_item == old(gui_state).scene_panel_selected_item
                },
            },
    {
        let new_name = trim_text(self.rename_input.as_str());
        let changed = match &mut gui_state.scene_manager {
            None => false,
            Some(sm) => {
                let ghost m0 = sm@;
                match sm.get_scene_mut(scene_id) {
                    Some(scene) => {
                        let ghost s0 = scene@;
                        match entity_id {
                            Some(eid) => match scene.get_entity_mut(eid) {
                                Ok(e) => {
                                    e.name = new_name;
                                },
                                Err(_) => {},
                            },
                            None => {
                                scene.name = new_name;
                            },
                        }
                        proof {
                            let t = m0.scenes;
                            assert(t.update(key_index(t, scene_id), (scene_id, s0)) =~= t);
                        }
                    },
                    None => {},
                }
                true
            },
        };
        if changed {
            gui_state.commit();
        }
        self.reset_rename();
        changed
    }

    /// "Create" in the create dialog: a blank name is refused first; then
    /// the chosen kind is made (see `scene_creation` and `entity_creation`;
    /// "Entity" is the "Empty" preset); any other kind makes nothing. The
    /// dialog then closes unless an error shows. Returns whether the scenes
    /// changed, in which case the caller saves the project.
    pub fn handle_create(&mut self, gui_state: &mut GuiState) -> (r: bool)
        ensures
            trimmed(old(self)@.create_item_name).len() == 0 ==> !r && *final(gui_state) == *old(gui_state)
                && final(self)@ == old(self)@.with_error("Please select an item type and enter a valid name."@),
            trimmed(old(self)@.create_item_name).len() > 0 ==> {
                let kind = old(self)@.create_item_type;
                if kind == "Scene"@ {
                    scene_creation(*old(gui_state), *final(gui_state), old(self)@, final(self)@, r)
                } else if kind == "Entity"@ {
                    entity_creation(*old(gui_state), *final(gui_state), old(self)@, final(self)@, "Empty"@, r)
                } else if kind == "Camera"@ || kind == "Physics"@ {
                    entity_creation(*old(gui_state), *final(gui_state), old(self)@, final(self)@, kind, r)
                } else {
                    &&& !r
                    &&& *final(gui_state) == *old(gui_state)
                    &&& final(self)@ == if old(self)@.error_message.len() == 0 {
                        old(self)@.reset_create()
                    } else {
                        old(self)@
                    }
                }
            },
    {
        let name = trim_text(self.create_item_name.as_str());
        if name.unicode_len() == 0 {
            self.error_message = owned("Please select an item type and enter a valid name.");
            return false;
        }
        proof {
            lemma_failure_messages_nonempty();
        }
        let kind = self.create_item_type.as_str();
        let r = if text_eq(kind, "Scene") {
            self.create_new_scene(gui_state)
        } else if text_eq(kind, "Entity") {
            self.create_new_entity(gui_state, "Empty")
        } else if text_eq(kind, "Camera") {
            self.create_new_entity(gui_state, "Camera")
        } else if text_eq(kind, "Physics") {
            self.create_new_entity(gui_state, "Physics")
        } else {
            false
        };
        if self.error_message.as_str().unicode_len() == 0 {
            self.reset_create_popup();
        }
        r
    }
}

} // verus!
