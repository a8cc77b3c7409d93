//! The editor's state: what is open, what is selected, which panels show,
//! the exit flow and the undo history.
use vstd::prelude::*;
use crate::ecs::SceneManager;
use crate::ecs::scene_manager::SceneManagerView;
use crate::history::{UndoStack, UndoView};
use crate::project::ProjectMetadata;

verus! {

/// What the inspector shows.
#[derive(Debug)]
pub enum SelectedItem {
    /// Nothing selected.
    Nothing,
    Scene(u128),
    /// (scene id, entity id)
    Entity(u128, u128),
    /// (scene id, entity id, asset path)
    Asset(u128, u128, String),
    File(String),
}

/// What the scene panel highlights.
#[derive(Debug)]
pub enum ScenePanelSelectedItem {
    /// Nothing selected.
    Nothing,
    Scene(u128),
    Entity(u128, u128),
    /// (scene id, entity id, asset path)
    Asset(u128, u128, String),
}

/// Application exit flow, driven by File > Exit or the window close button.
#[derive(Clone, Copy, Debug, PartialEq, Eq, Structural)]
pub enum ExitRequest {
    /// No exit requested.
    Nothing,
    /// The confirmation dialog is open
    PromptOpen,
    /// Save the project (and editor buffer), then close
    SaveAndExit,
    /// Close without saving
    ExitWithoutSaving,
}

/// What the window must do after the exit flow ran for a frame.
#[derive(Clone, Copy, Debug, PartialEq, Eq, Structural)]
pub struct ExitActions {
    /// Save the editor buffer and the project first.
    pub save: bool,
    /// Close the window (and let the close request through).
    pub close: bool,
}

impl ExitRequest {
    /// A close request from the window: with a project open and the close
    /// not yet confirmed, it is cancelled and the dialog opens. Returns the
    /// new request and whether to cancel the window's close.
    pub fn on_close_requested(self, allow_close: bool, project_open: bool) -> (r: (ExitRequest, bool))
        ensures
            r == if !allow_close && project_open { (ExitRequest::PromptOpen, true) } else { (self, false) },
    {
        if !allow_close && project_open {
            (ExitRequest::PromptOpen, true)
        } else {
            (self, false)
        }
    }

    /// An open dialog without a project has nothing to ask: exit directly.
    /// Returns the new request and whether the dialog shows.
    pub fn prompt(self, project_open: bool) -> (r: (ExitRequest, bool))
        ensures
            r == if self == ExitRequest::PromptOpen {
                if project_open { (self, true) } else { (ExitRequest::ExitWithoutSaving, false) }
            } else {
                (self, false)
            },
    {
        if self == ExitRequest::PromptOpen {
            if project_open {
                (self, true)
            } else {
                (ExitRequest::ExitWithoutSaving, false)
            }
        } else {
            (self, false)
        }
    }

    /// What the request asks of the window now.
    pub fn actions(self) -> (r: ExitActions)
        ensures
            r == (ExitActions {
                save: self == ExitRequest::SaveAndExit,
                close: self == ExitRequest::SaveAndExit || self == ExitRequest::ExitWithoutSaving,
            }),
    {
        match self {
            ExitRequest::SaveAndExit => ExitActions { save: true, close: true },
            ExitRequest::ExitWithoutSaving => ExitActions { save: false, close: true },
            _ => ExitActions { save: false, close: false },
        }
    }
}

/// The editor's state.
#[derive(Debug)]
pub struct GuiState {
    pub dark_mode: bool,
    pub show_new_project_popup: bool,
    pub show_open_project_popup: bool,
    /// A project is open.
    pub load_project: bool,
    pub project_name: String,
    pub project_path: String,
    pub project_metadata: Option<ProjectMetadata>,
    pub scene_manager: Option<SceneManager>,
    pub show_hierarchy_filesystem: bool,
    pub show_inspector: bool,
    pub show_console: bool,
    pub show_debug_overlay: bool,
    pub selected_item: SelectedItem,
    pub scene_panel_selected_item: ScenePanelSelectedItem,
    pub show_build_project_popup: bool,
    pub exit_request: ExitRequest,
    /// A script to open in the code editor; consumed each frame.
    pub open_script_request: Option<String>,
    /// A snippet to insert at the script editor's cursor; consumed each frame.
    pub script_insert_request: Option<String>,
    pub undo_stack: UndoStack,
}

/// The view of an optional scene manager.
pub open spec fn opt_manager(m: Option<SceneManager>) -> Option<SceneManagerView> {
    match m {
        Some(x) => Some(x@),
        None => None,
    }
}

impl GuiState {
    /// Dark mode, all panels but the debug overlay shown, nothing open or
    /// selected, an empty history.
    pub fn new() -> (r: Self)
        ensures
            r.dark_mode,
            !r.show_new_project_popup,
            !r.show_open_project_popup,
            !r.load_project,
            r.project_name@.len() == 0,
            r.project_path@.len() == 0,
            r.project_metadata is None,
            r.scene_manager is None,
            r.show_hierarchy_filesystem,
            r.show_inspector,
            r.show_console,
            !r.show_debug_overlay,
            r.selected_item is Nothing,
            r.scene_panel_selected_item is Nothing,
            !r.show_build_project_popup,
            r.exit_request == ExitRequest::Nothing,
            r.open_script_request is None,
            r.script_insert_request is None,
            r.undo_stack@.states.len() == 0,
            r.undo_stack@.redo.len() == 0,
    {
        GuiState {
            dark_mode: true,
            show_new_project_popup: false,
            show_open_project_popup: false,
            load_project: false,
            project_name: String::new(),
            project_path: String::new(),
            project_metadata: None,
            scene_manager: None,
            show_hierarchy_filesystem: true,
            show_inspector: true,
            show_console: true,
            show_debug_overlay: false,
            selected_item: SelectedItem::Nothing,
            scene_panel_selected_item: ScenePanelSelectedItem::Nothing,
            show_build_project_popup: false,
            exit_request: ExitRequest::Nothing,
            open_script_request: None,
            script_insert_request: None,
            undo_stack: UndoStack::new(),
        }
    }

    /// Records the current scenes in the history after a completed
    /// mutation (the project is saved by the caller).
    pub fn commit(&mut self)
        ensures
            final(self).undo_stack@ == match old(self).scene_manager {
                Some(m) => old(self).undo_stack@.commit(m@),
                None => old(self).undo_stack@,
            },
            *final(self) == (GuiState { undo_stack: final(self).undo_stack, ..*old(self) }),
    {
        if let Some(scene_manager) = &self.scene_manager {
            self.undo_stack.commit(scene_manager);
        }
    }

    /// Restores the previous committed state, clearing the selections (they
    /// may name entities that are gone). Returns whether anything changed,
    /// in which case the caller saves the project.
    pub fn apply_undo(&mut self) -> (r: bool)
        ensures
            final(self).undo_stack@ == old(self).undo_stack@.undo().0,
            r == old(self).undo_stack@.undo().1 is Some,
            r ==> opt_manager(final(self).scene_manager) == old(self).undo_stack@.undo().1,
            r ==> *final(self) == (GuiState {
                scene_manager: final(self).scene_manager,
                undo_stack: final(self).undo_stack,
                selected_item: SelectedItem::Nothing,
                scene_panel_selected_item: ScenePanelSelectedItem::Nothing,
                ..*old(self)
            }),
            !r ==> *final(self) == (GuiState { undo_stack: final(self).undo_stack, ..*old(self) }),
    {
        match self.undo_stack.undo() {
            Some(state) => {
                self.scene_manager = Some(state);
                self.selected_item = SelectedItem::Nothing;
                self.scene_panel_selected_item = ScenePanelSelectedItem::Nothing;
                true
            },
            None => false,
        }
    }

    /// Re-applies the next undone state, clearing the selections. Returns
    /// whether anything changed, in which case the caller saves the project.
    pub fn apply_redo(&mut self) -> (r: bool)
        ensures
            final(self).undo_stack@ == old(self).undo_stack@.redo().0,
            r == old(self).undo_stack@.redo().1 is Some,
            r ==> opt_manager(final(self).scene_manager) == old(self).undo_stack@.redo().1,
            r ==> *final(self) == (GuiState {
                scene_manager: final(self).scene_manager,
                undo_stack: final(self).undo_stack,
                selected_item: SelectedItem::Nothing,
                scene_panel_selected_item: ScenePanelSelectedItem::Nothing,
                ..*old(self)
            }),
            !r ==> *final(self) == (GuiState { undo_stack: final(self).undo_stack, ..*old(self) }),
    {
        match self.undo_stack.redo() {
            Some(state) => {
                self.scene_manager = Some(state);
                self.selected_item = SelectedItem::Nothing;
                self.scene_panel_selected_item = ScenePanelSelectedItem::Nothing;
                true
            },
            None => false,
        }
    }
}

impl Default for GuiState {
    fn default() -> (r: Self)
        ensures
            r.dark_mode && !r.load_project && r.scene_manager is None && r.exit_request == ExitRequest::Nothing,
    {
        Self::new()
    }
}

// ---------------------------------------------------------------- menus

/// The Edit menu.
pub struct EditMenu;

/// The View menu.
pub struct ViewMenu;

/// The Import menu.
pub struct ImportMenu;

/// The Project menu.
pub struct ProjectMenu;

impl EditMenu {
    pub fn new() -> (r: Self)
        ensures
            r == EditMenu,
    {
        EditMenu
    }
}

impl ViewMenu {
    pub fn new() -> (r: Self)
        ensures
            r == ViewMenu,
    {
        ViewMenu
    }
}

impl ImportMenu {
    pub fn new() -> (r: Self)
        ensures
            r == ImportMenu,
    {
        ImportMenu
    }
}

impl ProjectMenu {
    pub fn new() -> (r: Self)
        ensures
            r == ProjectMenu,
    {
        ProjectMenu
    }

    /// The Build Project entry is enabled once a project path is set.
    pub fn build_enabled(gui_state: &GuiState) -> (r: bool)
        ensures
            r == (gui_state.project_path@.len() > 0),
    {
        !gui_state.project_path.as_str().is_empty()
    }
}

/// The editor's menu bar.
pub struct MenuBar {
    pub edit_menu: EditMenu,
    pub view_menu: ViewMenu,
    pub import_menu: ImportMenu,
    pub project_menu: ProjectMenu,
}

impl MenuBar {
    pub fn new() -> (r: Self)
        ensures
            r == (MenuBar { edit_menu: EditMenu, view_menu: ViewMenu, import_menu: ImportMenu, project_menu: ProjectMenu }),
    {
        MenuBar {
            edit_menu: EditMenu::new(),
            view_menu: ViewMenu::new(),
            import_menu: ImportMenu::new(),
            project_menu: ProjectMenu::new(),
        }
    }
}

} // verus!
